use vstd::prelude::*;
use vstd::string::*;
use vstd::utf8::encode_utf8;
use crate::identity::Identity;

verus! {

/// Longest title, in UTF-8 bytes.
pub const MAX_TITLE_LEN: usize = 100;

/// Longest details text, in UTF-8 bytes.
pub const MAX_DETAILS_LEN: usize = 280;

/// Lifecycle position of an order. `Canceled` is reserved: no operation enters it.
#[derive(Clone, Copy, Debug, PartialEq, Eq, Structural)]
pub enum OrderStatus {
    Created,
    Paid,
    Shipping,
    Delivered,
    Received,
    Canceled,
}

/// Why an operation on the ledger was refused. Every refusal leaves the store unchanged.
#[derive(Clone, Copy, Debug, PartialEq, Eq, Structural)]
pub enum CustomError {
    /// The caller is not the identity bound to the role the operation needs.
    Unauthorized,
    /// The order is not in the state the operation starts from.
    InvalidState,
    /// The title is longer than `MAX_TITLE_LEN` bytes.
    TitleTooLong,
    /// The details are longer than `MAX_DETAILS_LEN` bytes.
    DetailsTooLong,
    /// A record already exists at the derived address.
    AccountInUse,
    /// No record exists at the given address.
    AccountNotFound,
    /// No valid address could be derived for the (customer, order id) pair.
    NoViableAddress,
}

/// One purchase order record.
#[derive(Clone, Debug, PartialEq, Eq)]
pub struct Order {
    pub order_id: u64,
    pub customer: Identity,
    pub finance: Identity,
    pub logistics: Identity,
    pub title: String,
    pub details: String,
    pub amount: u64,
    pub status: OrderStatus,
    pub created_at: i64,
    pub paid_at: i64,
    pub shipped_at: i64,
    pub delivered_at: i64,
    pub received_at: i64,
}

/// Mathematical model of an `Order`: identities as byte sequences, texts as characters.
pub struct OrderView {
    pub order_id: u64,
    pub customer: Seq<u8>,
    pub finance: Seq<u8>,
    pub logistics: Seq<u8>,
    pub title: Seq<char>,
    pub details: Seq<char>,
    pub amount: u64,
    pub status: OrderStatus,
    pub created_at: i64,
    pub paid_at: i64,
    pub shipped_at: i64,
    pub delivered_at: i64,
    pub received_at: i64,
}

impl View for Order {
    type V = OrderView;

    open spec fn view(&self) -> OrderView {
        OrderView {
            order_id: self.order_id,
            customer: self.customer@,
            finance: self.finance@,
            logistics: self.logistics@,
            title: self.title@,
            details: self.details@,
            amount: self.amount,
            status: self.status,
            created_at: self.created_at,
            paid_at: self.paid_at,
            shipped_at: self.shipped_at,
            delivered_at: self.delivered_at,
            received_at: self.received_at,
        }
    }
}

/// Size of a text in its UTF-8 encoding.
pub open spec fn text_len(s: Seq<char>) -> nat {
    encode_utf8(s).len()
}

/// The bounds every stored record keeps: three 32-byte identities and texts within their limits.
pub open spec fn record_bounded(o: OrderView) -> bool {
    &&& o.customer.len() == 32
    &&& o.finance.len() == 32
    &&& o.logistics.len() == 32
    &&& text_len(o.title) <= MAX_TITLE_LEN
    &&& text_len(o.details) <= MAX_DETAILS_LEN
}

impl Order {
    /// A field-for-field copy.
    pub fn duplicate(&self) -> (r: Order)
        ensures
            r@ == self@,
    {
        Order {
            order_id: self.order_id,
            customer: self.customer,
            finance: self.finance,
            logistics: self.logistics,
            title: self.title.clone(),
            details: self.details.clone(),
            amount: self.amount,
            status: self.status,
            created_at: self.created_at,
            paid_at: self.paid_at,
            shipped_at: self.shipped_at,
            delivered_at: self.delivered_at,
            received_at: self.received_at,
        }
    }
}

/// UTF-8 size of a string, in bytes.
pub fn byte_len(s: &String) -> (r: usize)
    ensures
        r == text_len(s@),
{
    s.as_str().as_bytes().len()
}

} // verus!
