//! Deterministic addressing: one storage address per (customer, order id) pair.
use vstd::prelude::*;
use anchor_lang::solana_program::pubkey::Pubkey;
use crate::bytes::{u64_le, push_u64, lemma_u64_le_injective};
use crate::identity::Identity;

verus! {

/// The program-derived address (and its bump seed) that the runtime finds for
/// `seeds` under `program_id`, or `None` when no bump seed gives a valid address.
pub uninterp spec fn derived_address(seeds: Seq<Seq<u8>>, program_id: Seq<u8>) -> Option<(Seq<u8>, u8)>;

pub open spec fn found_view(r: Option<(Identity, u8)>) -> Option<(Seq<u8>, u8)> {
    match r {
        Some((a, bump)) => Some((a@, bump)),
        None => None,
    }
}

/// The tag that opens every order's seeds: the bytes of "order".
pub open spec fn order_tag() -> Seq<u8> {
    seq![111u8, 114u8, 100u8, 101u8, 114u8]
}

/// Seeds of an order's address: the tag, the customer's key, the order id in little endian.
pub open spec fn order_seeds(customer: Seq<u8>, order_id: u64) -> Seq<Seq<u8>> {
    seq![order_tag(), customer, u64_le(order_id)]
}

/// Relies on `Pubkey::try_find_program_address` (solana-address, re-exported by
/// anchor_lang): the derivation is a function of the seeds and the program id alone.
#[verifier::external_body]
fn find_address(seeds: &Vec<Vec<u8>>, program_id: &Identity) -> (r: Option<(Identity, u8)>)
    ensures
        found_view(r) == derived_address(seeds.deep_view(), program_id@),
{
    let seed_refs: Vec<&[u8]> = seeds.iter().map(|s| s.as_slice()).collect();
    let pid = Pubkey::new_from_array(program_id.bytes);
    Pubkey::try_find_program_address(&seed_refs, &pid).map(
        |(a, bump)| (Identity::new(a.to_bytes()), bump),
    )
}

/// The address of the order `order_id` of `customer`, with its bump seed.
pub fn order_address(program_id: &Identity, customer: &Identity, order_id: u64) -> (r: Option<
    (Identity, u8),
>)
    ensures
        found_view(r) == derived_address(order_seeds(customer@, order_id), program_id@),
{
    let mut seeds: Vec<Vec<u8>> = Vec::new();
    let tag: Vec<u8> = vec![111u8, 114u8, 100u8, 101u8, 114u8];
    assert(tag@ =~= order_tag());
    seeds.push(tag);
    let mut key: Vec<u8> = Vec::new();
    let mut i: usize = 0;
    while i < 32
        invariant
            i <= 32,
            customer@.len() == 32,
            key@ == customer@.subrange(0, i as int),
        decreases 32 - i,
    {
        key.push(customer.bytes[i]);
        i = i + 1;
        assert(key@ =~= customer@.subrange(0, i as int));
    }
    seeds.push(key);
    let mut id: Vec<u8> = Vec::new();
    push_u64(&mut id, order_id);
    seeds.push(id);
    assert(key@ =~= customer@);
    assert(seeds@.len() == 3);
    assert(seeds@[0].deep_view() =~= seeds@[0]@);
    assert(seeds@[0]@ == order_tag());
    assert(seeds@[1].deep_view() =~= seeds@[1]@);
    assert(seeds@[1]@ == customer@);
    assert(seeds@[2].deep_view() =~= seeds@[2]@);
    assert(seeds@[2]@ == u64_le(order_id));
    assert(seeds.deep_view() =~= order_seeds(customer@, order_id));
    find_address(&seeds, program_id)
}

/// Distinct (customer, order id) pairs give distinct seeds, so they never share
/// an address unless the derivation itself collides.
pub proof fn lemma_order_seeds_distinct(c1: Seq<u8>, id1: u64, c2: Seq<u8>, id2: u64)
    requires
        c1 != c2 || id1 != id2,
    ensures
        order_seeds(c1, id1) != order_seeds(c2, id2),
{
    lemma_u64_le_injective(id1, id2);
    if order_seeds(c1, id1) == order_seeds(c2, id2) {
        assert(order_seeds(c1, id1)[1] == c1);
        assert(order_seeds(c2, id2)[1] == c2);
        assert(order_seeds(c1, id1)[2] == u64_le(id1));
        assert(order_seeds(c2, id2)[2] == u64_le(id2));
    }
}

} // verus!
