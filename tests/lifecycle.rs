use order_ledger::identity::Identity;
use order_ledger::ledger::{
    create_order, create_order_at, mark_delivered, mark_paid, mark_received, mark_shipping, CreateOrder,
    CustomerAction, FinanceAction, LogisticsAction, OrderStore,
};
use order_ledger::order::{CustomError, OrderStatus};
use order_ledger::addressing::order_address;

fn id(b: u8) -> Identity {
    Identity::new([b; 32])
}

fn program() -> Identity {
    id(200)
}

fn store() -> OrderStore {
    OrderStore::new(program())
}

fn create(
    s: &mut OrderStore,
    customer: Identity,
    order_id: u64,
    title: &str,
    details: &str,
    now: i64,
) -> Result<Identity, CustomError> {
    create_order(
        s,
        &CreateOrder { customer },
        order_id,
        title.to_string(),
        details.to_string(),
        500,
        id(2),
        id(3),
        now,
    )
}

#[test]
fn created_record_starts_in_created_state() {
    let mut s = store();
    let addr = create(&mut s, id(1), 1, "Book", "Paperback", 1000).unwrap();
    let o = s.get(&addr).unwrap();
    assert_eq!(o.status, OrderStatus::Created);
    assert_eq!(o.order_id, 1);
    assert_eq!(o.customer, id(1));
    assert_eq!(o.finance, id(2));
    assert_eq!(o.logistics, id(3));
    assert_eq!(o.title, "Book");
    assert_eq!(o.details, "Paperback");
    assert_eq!(o.amount, 500);
    assert_eq!(o.created_at, 1000);
    assert_eq!(o.paid_at, 0);
    assert_eq!(o.shipped_at, 0);
    assert_eq!(o.delivered_at, 0);
    assert_eq!(o.received_at, 0);
}

#[test]
fn create_returns_the_derived_address() {
    let mut s = store();
    let addr = create(&mut s, id(1), 9, "t", "d", 5).unwrap();
    let (expected, _) = order_address(&program(), &id(1), 9).unwrap();
    assert_eq!(addr, expected);
}

#[test]
fn title_of_101_bytes_is_refused_and_nothing_stored() {
    let mut s = store();
    let title = "a".repeat(101);
    assert_eq!(create(&mut s, id(1), 1, &title, "d", 10), Err(CustomError::TitleTooLong));
    let (addr, _) = order_address(&program(), &id(1), 1).unwrap();
    assert!(s.get(&addr).is_none());
}

#[test]
fn title_of_100_bytes_is_accepted() {
    let mut s = store();
    let title = "a".repeat(100);
    let addr = create(&mut s, id(1), 1, &title, "d", 10).unwrap();
    assert_eq!(s.get(&addr).unwrap().title, title);
}

#[test]
fn title_bound_counts_utf8_bytes() {
    let mut s = store();
    assert!(create(&mut s, id(1), 1, &"é".repeat(50), "d", 10).is_ok());
    assert_eq!(
        create(&mut s, id(1), 2, &"é".repeat(51), "d", 10),
        Err(CustomError::TitleTooLong)
    );
}

#[test]
fn details_of_281_bytes_is_refused() {
    let mut s = store();
    let details = "x".repeat(281);
    assert_eq!(create(&mut s, id(1), 1, "t", &details, 10), Err(CustomError::DetailsTooLong));
    let (addr, _) = order_address(&program(), &id(1), 1).unwrap();
    assert!(s.get(&addr).is_none());
}

#[test]
fn details_of_280_bytes_is_accepted() {
    let mut s = store();
    let details = "x".repeat(280);
    let addr = create(&mut s, id(1), 1, "t", &details, 10).unwrap();
    assert_eq!(s.get(&addr).unwrap().details, details);
}

#[test]
fn title_is_checked_before_details() {
    let mut s = store();
    let r = create(&mut s, id(1), 1, &"a".repeat(101), &"x".repeat(281), 10);
    assert_eq!(r, Err(CustomError::TitleTooLong));
}

#[test]
fn second_create_with_same_key_conflicts() {
    let mut s = store();
    let addr = create(&mut s, id(1), 7, "First", "one", 10).unwrap();
    let r = create(&mut s, id(1), 7, "Second", "two", 20);
    assert_eq!(r, Err(CustomError::AccountInUse));
    let o = s.get(&addr).unwrap();
    assert_eq!(o.title, "First");
    assert_eq!(o.details, "one");
    assert_eq!(o.created_at, 10);
}

#[test]
fn same_order_id_for_other_customers_is_independent() {
    let mut s = store();
    let a = create(&mut s, id(1), 7, "A", "a", 10).unwrap();
    let b = create(&mut s, id(4), 7, "B", "b", 11).unwrap();
    assert_ne!(a, b);
    assert_eq!(s.get(&a).unwrap().title, "A");
    assert_eq!(s.get(&b).unwrap().title, "B");
}

#[test]
fn end_to_end_lifecycle() {
    let c = id(1);
    let f = id(2);
    let l = id(3);
    let mut s = store();
    let addr = create(&mut s, c, 1, "Book", "Paperback", 100).unwrap();

    assert_eq!(mark_paid(&mut s, &FinanceAction { order: addr, finance: f }, 110), Ok(()));
    assert_eq!(s.get(&addr).unwrap().status, OrderStatus::Paid);
    assert_eq!(s.get(&addr).unwrap().paid_at, 110);

    assert_eq!(
        mark_paid(&mut s, &FinanceAction { order: addr, finance: f }, 115),
        Err(CustomError::InvalidState)
    );
    assert_eq!(s.get(&addr).unwrap().paid_at, 110);

    assert_eq!(
        mark_shipping(&mut s, &LogisticsAction { order: addr, logistics: l }, 120),
        Ok(())
    );
    assert_eq!(s.get(&addr).unwrap().status, OrderStatus::Shipping);

    assert_eq!(
        mark_delivered(&mut s, &LogisticsAction { order: addr, logistics: c }, 125),
        Err(CustomError::Unauthorized)
    );
    assert_eq!(s.get(&addr).unwrap().status, OrderStatus::Shipping);

    assert_eq!(
        mark_delivered(&mut s, &LogisticsAction { order: addr, logistics: l }, 130),
        Ok(())
    );
    assert_eq!(mark_received(&mut s, &CustomerAction { order: addr, customer: c }, 140), Ok(()));

    let o = s.get(&addr).unwrap();
    assert_eq!(o.status, OrderStatus::Received);
    let stamps = [o.created_at, o.paid_at, o.shipped_at, o.delivered_at, o.received_at];
    assert_eq!(stamps, [100, 110, 120, 130, 140]);
    assert!(stamps.iter().all(|t| *t != 0));
    assert!(stamps.windows(2).all(|w| w[0] <= w[1]));
}

#[test]
fn out_of_order_steps_are_invalid_state() {
    let mut s = store();
    let addr = create(&mut s, id(1), 1, "t", "d", 10).unwrap();
    let before = s.get(&addr).unwrap().clone();
    assert_eq!(
        mark_shipping(&mut s, &LogisticsAction { order: addr, logistics: id(3) }, 20),
        Err(CustomError::InvalidState)
    );
    assert_eq!(
        mark_delivered(&mut s, &LogisticsAction { order: addr, logistics: id(3) }, 20),
        Err(CustomError::InvalidState)
    );
    assert_eq!(
        mark_received(&mut s, &CustomerAction { order: addr, customer: id(1) }, 20),
        Err(CustomError::InvalidState)
    );
    assert_eq!(s.get(&addr).unwrap(), &before);
}

#[test]
fn steps_after_received_are_invalid_state() {
    let mut s = store();
    let addr = create(&mut s, id(1), 1, "t", "d", 10).unwrap();
    mark_paid(&mut s, &FinanceAction { order: addr, finance: id(2) }, 11).unwrap();
    mark_shipping(&mut s, &LogisticsAction { order: addr, logistics: id(3) }, 12).unwrap();
    mark_delivered(&mut s, &LogisticsAction { order: addr, logistics: id(3) }, 13).unwrap();
    mark_received(&mut s, &CustomerAction { order: addr, customer: id(1) }, 14).unwrap();
    assert_eq!(
        mark_received(&mut s, &CustomerAction { order: addr, customer: id(1) }, 15),
        Err(CustomError::InvalidState)
    );
    assert_eq!(
        mark_paid(&mut s, &FinanceAction { order: addr, finance: id(2) }, 15),
        Err(CustomError::InvalidState)
    );
    assert_eq!(s.get(&addr).unwrap().received_at, 14);
}

#[test]
fn wrong_callers_are_unauthorized() {
    let mut s = store();
    let addr = create(&mut s, id(1), 1, "t", "d", 10).unwrap();
    let before = s.get(&addr).unwrap().clone();
    assert_eq!(
        mark_paid(&mut s, &FinanceAction { order: addr, finance: id(3) }, 20),
        Err(CustomError::Unauthorized)
    );
    assert_eq!(
        mark_paid(&mut s, &FinanceAction { order: addr, finance: id(1) }, 20),
        Err(CustomError::Unauthorized)
    );
    assert_eq!(s.get(&addr).unwrap(), &before);
    mark_paid(&mut s, &FinanceAction { order: addr, finance: id(2) }, 21).unwrap();
    assert_eq!(
        mark_shipping(&mut s, &LogisticsAction { order: addr, logistics: id(2) }, 22),
        Err(CustomError::Unauthorized)
    );
    mark_shipping(&mut s, &LogisticsAction { order: addr, logistics: id(3) }, 23).unwrap();
    mark_delivered(&mut s, &LogisticsAction { order: addr, logistics: id(3) }, 24).unwrap();
    assert_eq!(
        mark_received(&mut s, &CustomerAction { order: addr, customer: id(3) }, 25),
        Err(CustomError::Unauthorized)
    );
    assert_eq!(s.get(&addr).unwrap().status, OrderStatus::Delivered);
}

#[test]
fn authorization_is_checked_before_state() {
    let mut s = store();
    let addr = create(&mut s, id(1), 1, "t", "d", 10).unwrap();
    assert_eq!(
        mark_received(&mut s, &CustomerAction { order: addr, customer: id(9) }, 20),
        Err(CustomError::Unauthorized)
    );
}

#[test]
fn unknown_address_is_not_found() {
    let mut s = store();
    assert_eq!(
        mark_paid(&mut s, &FinanceAction { order: id(42), finance: id(2) }, 20),
        Err(CustomError::AccountNotFound)
    );
    assert!(s.get(&id(42)).is_none());
    assert!(s.record_bytes(&id(42)).is_none());
}

#[test]
fn store_keeps_its_program_id() {
    let s = store();
    assert_eq!(s.program_id(), program());
}

#[test]
fn create_at_given_address() {
    let mut s = store();
    let addr = id(77);
    let ctx = CreateOrder { customer: id(1) };
    let r = create_order_at(
        &mut s, &addr, &ctx, 4, "Pen".to_string(), "Blue".to_string(), 3, id(2), id(3), 50,
    );
    assert_eq!(r, Ok(()));
    let o = s.get(&addr).unwrap();
    assert_eq!(o.order_id, 4);
    assert_eq!(o.status, OrderStatus::Created);
    assert_eq!(o.created_at, 50);
    let again = create_order_at(
        &mut s, &addr, &ctx, 5, "Other".to_string(), "x".to_string(), 9, id(2), id(3), 60,
    );
    assert_eq!(again, Err(CustomError::AccountInUse));
    assert_eq!(s.get(&addr).unwrap().order_id, 4);
}

#[test]
fn create_at_checks_text_bounds_first() {
    let mut s = store();
    let addr = id(77);
    let ctx = CreateOrder { customer: id(1) };
    let r = create_order_at(
        &mut s, &addr, &ctx, 4, "t".to_string(), "x".repeat(281), 3, id(2), id(3), 50,
    );
    assert_eq!(r, Err(CustomError::DetailsTooLong));
    assert!(s.get(&addr).is_none());
}

#[test]
fn duplicate_copies_every_field() {
    let mut s = store();
    let addr = create(&mut s, id(1), 1, "Book", "Paperback", 10).unwrap();
    let o = s.get(&addr).unwrap();
    assert_eq!(&o.duplicate(), o);
}
