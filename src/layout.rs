//! Record layout: a fixed-size byte encoding of an order, sized for the longest texts.
use vstd::prelude::*;
use vstd::array::*;
use vstd::utf8::*;
use crate::bytes::{
    i64_le, i64_of, lemma_i64_round_trip, lemma_u32_round_trip, lemma_u64_round_trip, push_i64,
    push_u32, push_u64, read_i64, read_u32, read_u64, u32_le, u32_of, u64_le, u64_of,
};
use crate::identity::Identity;
use crate::order::{
    MAX_DETAILS_LEN, MAX_TITLE_LEN, Order, OrderStatus, OrderView, record_bounded, text_len,
};

verus! {

/// Encoded size of a record, without any tag the storage system adds in front.
pub const SIZE: usize = 8 + 32 + 32 + 32 + 4 + MAX_TITLE_LEN + 4 + MAX_DETAILS_LEN + 8 + 1 + 8 + 8
    + 8 + 8 + 8;

/// Why a byte sequence is not a record.
#[derive(Clone, Copy, Debug, PartialEq, Eq, Structural)]
pub enum LayoutError {
    /// The input is not exactly `SIZE` bytes long.
    WrongSize,
    /// A text's length prefix exceeds the text's bound.
    TextTooLong,
    /// A text's bytes are not UTF-8.
    InvalidText,
    /// The status byte names no status.
    UnknownStatus,
}

pub open spec fn status_tag(s: OrderStatus) -> u8 {
    match s {
        OrderStatus::Created => 0,
        OrderStatus::Paid => 1,
        OrderStatus::Shipping => 2,
        OrderStatus::Delivered => 3,
        OrderStatus::Received => 4,
        OrderStatus::Canceled => 5,
    }
}

pub open spec fn status_of_tag(t: u8) -> Option<OrderStatus> {
    if t == 0 {
        Some(OrderStatus::Created)
    } else if t == 1 {
        Some(OrderStatus::Paid)
    } else if t == 2 {
        Some(OrderStatus::Shipping)
    } else if t == 3 {
        Some(OrderStatus::Delivered)
    } else if t == 4 {
        Some(OrderStatus::Received)
    } else if t == 5 {
        Some(OrderStatus::Canceled)
    } else {
        None
    }
}

/// A bounded text: its UTF-8 length in four bytes, its bytes, then zeros up to `max` bytes.
pub open spec fn text_field(t: Seq<char>, max: nat) -> Seq<u8> {
    u32_le(text_len(t) as u32) + encode_utf8(t) + Seq::new((max - text_len(t)) as nat, |i: int| 0u8)
}

/// The encoding of a record.
pub open spec fn layout(o: OrderView) -> Seq<u8> {
    u64_le(o.order_id) + o.customer + o.finance + o.logistics + text_field(o.title, MAX_TITLE_LEN as nat)
        + text_field(o.details, MAX_DETAILS_LEN as nat) + u64_le(o.amount) + seq![status_tag(o.status)]
        + i64_le(o.created_at) + i64_le(o.paid_at) + i64_le(o.shipped_at) + i64_le(
        o.delivered_at,
    ) + i64_le(o.received_at)
}

/// Offsets of the fields within a record.
pub const TITLE_AT: usize = 104;
pub const DETAILS_AT: usize = 208;
pub const AMOUNT_AT: usize = 492;
pub const STATUS_AT: usize = 500;
pub const STAMPS_AT: usize = 501;

/// What a byte sequence decodes to.
pub open spec fn parse(b: Seq<u8>) -> Result<OrderView, LayoutError> {
    if b.len() != SIZE {
        Err(LayoutError::WrongSize)
    } else {
        let tl = u32_of(b.subrange(TITLE_AT as int, TITLE_AT + 4)) as int;
        let dl = u32_of(b.subrange(DETAILS_AT as int, DETAILS_AT + 4)) as int;
        if tl > MAX_TITLE_LEN || dl > MAX_DETAILS_LEN {
            Err(LayoutError::TextTooLong)
        } else {
            let tb = b.subrange(TITLE_AT + 4, TITLE_AT + 4 + tl);
            let db = b.subrange(DETAILS_AT + 4, DETAILS_AT + 4 + dl);
            if !valid_utf8(tb) || !valid_utf8(db) {
                Err(LayoutError::InvalidText)
            } else {
                match status_of_tag(b[STATUS_AT as int]) {
                    None => Err(LayoutError::UnknownStatus),
                    Some(status) => Ok(
                        OrderView {
                            order_id: u64_of(b.subrange(0, 8)),
                            customer: b.subrange(8, 40),
                            finance: b.subrange(40, 72),
                            logistics: b.subrange(72, 104),
                            title: decode_utf8(tb),
                            details: decode_utf8(db),
                            amount: u64_of(b.subrange(AMOUNT_AT as int, AMOUNT_AT + 8)),
                            status,
                            created_at: i64_of(b.subrange(STAMPS_AT as int, STAMPS_AT + 8)),
                            paid_at: i64_of(b.subrange(STAMPS_AT + 8, STAMPS_AT + 16)),
                            shipped_at: i64_of(b.subrange(STAMPS_AT + 16, STAMPS_AT + 24)),
                            delivered_at: i64_of(b.subrange(STAMPS_AT + 24, STAMPS_AT + 32)),
                            received_at: i64_of(b.subrange(STAMPS_AT + 32, STAMPS_AT + 40)),
                        },
                    ),
                }
            }
        }
    }
}

proof fn lemma_text_field(t: Seq<char>, max: nat)
    requires
        text_len(t) <= max,
        max < 0x1_0000_0000,
    ensures
        text_field(t, max).len() == 4 + max,
        u32_of(text_field(t, max).subrange(0, 4)) == text_len(t),
        text_field(t, max).subrange(4, 4 + text_len(t) as int) == encode_utf8(t),
        valid_utf8(encode_utf8(t)),
        decode_utf8(encode_utf8(t)) == t,
{
    let f = text_field(t, max);
    let n = text_len(t) as int;
    lemma_u32_round_trip(n as u32);
    assert(f.subrange(0, 4) =~= u32_le(n as u32));
    assert(f.subrange(4, 4 + n) =~= encode_utf8(t));
    encode_utf8_valid_utf8(t);
    encode_utf8_decode_utf8(t);
}

proof fn lemma_status_tag(s: OrderStatus)
    ensures
        status_of_tag(status_tag(s)) == Some(s),
{
}

/// Decoding the encoding of a bounded record gives back every field, texts
/// shorter than their bound included.
pub proof fn lemma_layout_round_trip(o: OrderView)
    requires
        record_bounded(o),
    ensures
        layout(o).len() == SIZE,
        parse(layout(o)) == Ok::<OrderView, LayoutError>(o),
{
    let b = layout(o);
    let tf = text_field(o.title, MAX_TITLE_LEN as nat);
    let df = text_field(o.details, MAX_DETAILS_LEN as nat);
    lemma_text_field(o.title, MAX_TITLE_LEN as nat);
    lemma_text_field(o.details, MAX_DETAILS_LEN as nat);
    lemma_u64_round_trip(o.order_id);
    lemma_u64_round_trip(o.amount);
    lemma_i64_round_trip(o.created_at);
    lemma_i64_round_trip(o.paid_at);
    lemma_i64_round_trip(o.shipped_at);
    lemma_i64_round_trip(o.delivered_at);
    lemma_i64_round_trip(o.received_at);
    lemma_status_tag(o.status);
    assert(b.len() == SIZE);
    assert(b.subrange(0, 8) =~= u64_le(o.order_id));
    assert(b.subrange(8, 40) =~= o.customer);
    assert(b.subrange(40, 72) =~= o.finance);
    assert(b.subrange(72, 104) =~= o.logistics);
    assert(b.subrange(TITLE_AT as int, TITLE_AT + 4) =~= tf.subrange(0, 4));
    assert(b.subrange(DETAILS_AT as int, DETAILS_AT + 4) =~= df.subrange(0, 4));
    let tl = text_len(o.title) as int;
    let dl = text_len(o.details) as int;
    assert(b.subrange(TITLE_AT + 4, TITLE_AT + 4 + tl) =~= tf.subrange(4, 4 + tl));
    assert(b.subrange(DETAILS_AT + 4, DETAILS_AT + 4 + dl) =~= df.subrange(4, 4 + dl));
    assert(b.subrange(AMOUNT_AT as int, AMOUNT_AT + 8) =~= u64_le(o.amount));
    assert(b[STATUS_AT as int] == status_tag(o.status));
    assert(b.subrange(STAMPS_AT as int, STAMPS_AT + 8) =~= i64_le(o.created_at));
    assert(b.subrange(STAMPS_AT + 8, STAMPS_AT + 16) =~= i64_le(o.paid_at));
    assert(b.subrange(STAMPS_AT + 16, STAMPS_AT + 24) =~= i64_le(o.shipped_at));
    assert(b.subrange(STAMPS_AT + 24, STAMPS_AT + 32) =~= i64_le(o.delivered_at));
    assert(b.subrange(STAMPS_AT + 32, STAMPS_AT + 40) =~= i64_le(o.received_at));
}

fn tag_of_status(s: OrderStatus) -> (r: u8)
    ensures
        r == status_tag(s),
{
    match s {
        OrderStatus::Created => 0,
        OrderStatus::Paid => 1,
        OrderStatus::Shipping => 2,
        OrderStatus::Delivered => 3,
        OrderStatus::Received => 4,
        OrderStatus::Canceled => 5,
    }
}

fn status_from_tag(t: u8) -> (r: Option<OrderStatus>)
    ensures
        r == status_of_tag(t),
{
    if t == 0 {
        Some(OrderStatus::Created)
    } else if t == 1 {
        Some(OrderStatus::Paid)
    } else if t == 2 {
        Some(OrderStatus::Shipping)
    } else if t == 3 {
        Some(OrderStatus::Delivered)
    } else if t == 4 {
        Some(OrderStatus::Received)
    } else if t == 5 {
        Some(OrderStatus::Canceled)
    } else {
        None
    }
}

fn push_text(out: &mut Vec<u8>, t: &String, max: usize)
    requires
        text_len(t@) <= max,
        max < 0x1_0000_0000,
    ensures
        final(out)@ == old(out)@ + text_field(t@, max as nat),
{
    let bytes = t.as_str().as_bytes();
    let n = bytes.len();
    push_u32(out, n as u32);
    let ghost start = out@;
    let mut i: usize = 0;
    while i < n
        invariant
            i <= n,
            n == bytes@.len(),
            bytes@ == encode_utf8(t@),
            out@ == start + bytes@.subrange(0, i as int),
        decreases n - i,
    {
        out.push(bytes[i]);
        i = i + 1;
        assert(out@ =~= start + bytes@.subrange(0, i as int));
    }
    let ghost mid = out@;
    let mut k: usize = n;
    while k < max
        invariant
            n <= k <= max,
            out@ == mid + Seq::new((k - n) as nat, |j: int| 0u8),
        decreases max - k,
    {
        out.push(0u8);
        k = k + 1;
        assert(out@ =~= mid + Seq::new((k - n) as nat, |j: int| 0u8));
    }
    assert(bytes@.subrange(0, n as int) =~= bytes@);
    assert(out@ =~= old(out)@ + text_field(t@, max as nat));
}

fn push_identity(out: &mut Vec<u8>, id: &Identity)
    ensures
        final(out)@ == old(out)@ + id@,
{
    let ghost start = out@;
    let mut i: usize = 0;
    while i < 32
        invariant
            i <= 32,
            id@.len() == 32,
            out@ == start + id@.subrange(0, i as int),
        decreases 32 - i,
    {
        out.push(id.bytes[i]);
        i = i + 1;
        assert(out@ =~= start + id@.subrange(0, i as int));
    }
    assert(id@.subrange(0, 32) =~= id@);
}

/// Encodes a record into exactly `SIZE` bytes.
pub fn encode(o: &Order) -> (r: Vec<u8>)
    requires
        record_bounded(o@),
    ensures
        r@ == layout(o@),
        r@.len() == SIZE,
{
    let mut out: Vec<u8> = Vec::new();
    push_u64(&mut out, o.order_id);
    push_identity(&mut out, &o.customer);
    push_identity(&mut out, &o.finance);
    push_identity(&mut out, &o.logistics);
    push_text(&mut out, &o.title, MAX_TITLE_LEN);
    push_text(&mut out, &o.details, MAX_DETAILS_LEN);
    push_u64(&mut out, o.amount);
    out.push(tag_of_status(o.status));
    push_i64(&mut out, o.created_at);
    push_i64(&mut out, o.paid_at);
    push_i64(&mut out, o.shipped_at);
    push_i64(&mut out, o.delivered_at);
    push_i64(&mut out, o.received_at);
    proof {
        assert(out@ =~= layout(o@));
        lemma_layout_round_trip(o@);
    }
    out
}

/// Relies on `String::from_utf8`: it succeeds exactly on valid UTF-8 and then
/// holds the characters those bytes encode.
#[verifier::external_body]
fn string_from_utf8(v: Vec<u8>) -> (r: Option<String>)
    ensures
        match r {
            Some(s) => valid_utf8(v@) && s@ == decode_utf8(v@),
            None => !valid_utf8(v@),
        },
{
    String::from_utf8(v).ok()
}

fn copy_bytes(b: &[u8], at: usize, n: usize) -> (r: Vec<u8>)
    requires
        at + n <= b@.len(),
    ensures
        r@ == b@.subrange(at as int, at + n),
{
    let len = b.len();
    let mut out: Vec<u8> = Vec::new();
    let mut i: usize = 0;
    while i < n
        invariant
            i <= n,
            at + n <= b@.len() == len,
            out@ == b@.subrange(at as int, at + i),
        decreases n - i,
    {
        out.push(b[at + i]);
        i = i + 1;
        assert(out@ =~= b@.subrange(at as int, at + i));
    }
    out
}

fn read_identity(b: &[u8], at: usize) -> (r: Identity)
    requires
        at + 32 <= b@.len(),
    ensures
        r@ == b@.subrange(at as int, at + 32),
{
    let len = b.len();
    let mut a: [u8; 32] = [0u8; 32];
    let mut i: usize = 0;
    while i < 32
        invariant
            i <= 32,
            at + 32 <= b@.len() == len,
            a@.len() == 32,
            forall|j: int| 0 <= j < i ==> a@[j] == b@[at + j],
        decreases 32 - i,
    {
        a[i] = b[at + i];
        i = i + 1;
    }
    assert(a@ =~= b@.subrange(at as int, at + 32));
    Identity::new(a)
}

/// Decodes a record, refusing bytes that no record encodes to in the ways `parse` names.
pub fn decode(b: &[u8]) -> (r: Result<Order, LayoutError>)
    ensures
        match r {
            Ok(o) => parse(b@) == Ok::<OrderView, LayoutError>(o@),
            Err(e) => parse(b@) == Err::<OrderView, LayoutError>(e),
        },
{
    if b.len() != SIZE {
        return Err(LayoutError::WrongSize);
    }
    let tl = read_u32(b, TITLE_AT);
    let dl = read_u32(b, DETAILS_AT);
    if tl as usize > MAX_TITLE_LEN || dl as usize > MAX_DETAILS_LEN {
        return Err(LayoutError::TextTooLong);
    }
    let title = match string_from_utf8(copy_bytes(b, TITLE_AT + 4, tl as usize)) {
        Some(s) => s,
        None => {
            return Err(LayoutError::InvalidText);
        },
    };
    let details = match string_from_utf8(copy_bytes(b, DETAILS_AT + 4, dl as usize)) {
        Some(s) => s,
        None => {
            return Err(LayoutError::InvalidText);
        },
    };
    let status = match status_from_tag(b[STATUS_AT]) {
        Some(s) => s,
        None => {
            return Err(LayoutError::UnknownStatus);
        },
    };
    let o = Order {
        order_id: read_u64(b, 0),
        customer: read_identity(b, 8),
        finance: read_identity(b, 40),
        logistics: read_identity(b, 72),
        title,
        details,
        amount: read_u64(b, AMOUNT_AT),
        status,
        created_at: read_i64(b, STAMPS_AT),
        paid_at: read_i64(b, STAMPS_AT + 8),
        shipped_at: read_i64(b, STAMPS_AT + 16),
        delivered_at: read_i64(b, STAMPS_AT + 24),
        received_at: read_i64(b, STAMPS_AT + 32),
    };
    Ok(o)
}

} // verus!
