use order_ledger::addressing::order_address;
use order_ledger::identity::Identity;

fn id(b: u8) -> Identity {
    Identity::new([b; 32])
}

#[test]
fn address_is_deterministic() {
    let a = order_address(&id(200), &id(1), 5).unwrap();
    let b = order_address(&id(200), &id(1), 5).unwrap();
    assert_eq!(a, b);
}

#[test]
fn address_differs_by_order_id_customer_and_program() {
    let (a, _) = order_address(&id(200), &id(1), 5).unwrap();
    let (b, _) = order_address(&id(200), &id(1), 6).unwrap();
    let (c, _) = order_address(&id(200), &id(2), 5).unwrap();
    let (d, _) = order_address(&id(201), &id(1), 5).unwrap();
    assert_ne!(a, b);
    assert_ne!(a, c);
    assert_ne!(a, d);
}

#[test]
fn address_is_not_an_input() {
    let (a, _) = order_address(&id(200), &id(1), 5).unwrap();
    assert_ne!(a, id(200));
    assert_ne!(a, id(1));
}

#[test]
fn identity_comparison() {
    let mut bytes = [4u8; 32];
    assert!(id(4).same_as(&Identity::new(bytes)));
    bytes[31] = 5;
    assert!(!id(4).same_as(&Identity::new(bytes)));
    assert_eq!(Identity::new(bytes).to_bytes(), bytes);
}
