//! The order store and the role-gated lifecycle operations over it.
use vstd::prelude::*;
use crate::addressing::{derived_address, order_address, order_seeds};
use crate::identity::Identity;
use crate::layout::{encode, layout};
use crate::order::{
    CustomError, MAX_DETAILS_LEN, MAX_TITLE_LEN, Order, OrderStatus, OrderView, byte_len,
    record_bounded, text_len,
};

verus! {

/// A lifecycle transition after creation.
#[derive(Clone, Copy, Debug, PartialEq, Eq, Structural)]
pub enum Step {
    Pay,
    Ship,
    Deliver,
    Receive,
}

/// The state a step starts from.
pub open spec fn required_status(s: Step) -> OrderStatus {
    match s {
        Step::Pay => OrderStatus::Created,
        Step::Ship => OrderStatus::Paid,
        Step::Deliver => OrderStatus::Shipping,
        Step::Receive => OrderStatus::Delivered,
    }
}

/// The state a step leads to.
pub open spec fn next_status(s: Step) -> OrderStatus {
    match s {
        Step::Pay => OrderStatus::Paid,
        Step::Ship => OrderStatus::Shipping,
        Step::Deliver => OrderStatus::Delivered,
        Step::Receive => OrderStatus::Received,
    }
}

/// Position along the lifecycle path; `Canceled` lies off it.
pub open spec fn stage(s: OrderStatus) -> int {
    match s {
        OrderStatus::Created => 0,
        OrderStatus::Paid => 1,
        OrderStatus::Shipping => 2,
        OrderStatus::Delivered => 3,
        OrderStatus::Received => 4,
        OrderStatus::Canceled => -1,
    }
}

/// The identity allowed to take a step on an order.
pub open spec fn role_of(o: OrderView, s: Step) -> Seq<u8> {
    match s {
        Step::Pay => o.finance,
        Step::Ship | Step::Deliver => o.logistics,
        Step::Receive => o.customer,
    }
}

/// The order after a step taken at time `now`: new status and that step's timestamp.
pub open spec fn stamped(o: OrderView, s: Step, now: i64) -> OrderView {
    match s {
        Step::Pay => OrderView { status: OrderStatus::Paid, paid_at: now, ..o },
        Step::Ship => OrderView { status: OrderStatus::Shipping, shipped_at: now, ..o },
        Step::Deliver => OrderView { status: OrderStatus::Delivered, delivered_at: now, ..o },
        Step::Receive => OrderView { status: OrderStatus::Received, received_at: now, ..o },
    }
}

/// The transition guard: the caller must hold the step's role, then the order must
/// be in the step's starting state.
pub open spec fn transition(o: OrderView, s: Step, caller: Seq<u8>, now: i64) -> Result<
    OrderView,
    CustomError,
> {
    if caller != role_of(o, s) {
        Err(CustomError::Unauthorized)
    } else if o.status != required_status(s) {
        Err(CustomError::InvalidState)
    } else {
        Ok(stamped(o, s, now))
    }
}

/// Result and new store contents of a step on the record at `addr`.
pub open spec fn step_outcome(
    m: Map<Seq<u8>, OrderView>,
    addr: Seq<u8>,
    s: Step,
    caller: Seq<u8>,
    now: i64,
) -> (Result<(), CustomError>, Map<Seq<u8>, OrderView>) {
    if !m.contains_key(addr) {
        (Err(CustomError::AccountNotFound), m)
    } else {
        match transition(m[addr], s, caller, now) {
            Ok(n) => (Ok(()), m.insert(addr, n)),
            Err(e) => (Err(e), m),
        }
    }
}

/// A freshly created order.
pub open spec fn fresh_order(
    order_id: u64,
    customer: Seq<u8>,
    finance: Seq<u8>,
    logistics: Seq<u8>,
    title: Seq<char>,
    details: Seq<char>,
    amount: u64,
    now: i64,
) -> OrderView {
    OrderView {
        order_id,
        customer,
        finance,
        logistics,
        title,
        details,
        amount,
        status: OrderStatus::Created,
        created_at: now,
        paid_at: 0,
        shipped_at: 0,
        delivered_at: 0,
        received_at: 0,
    }
}

/// Result and new store contents of a creation at the given address `a`.
pub open spec fn create_at_outcome(
    m: Map<Seq<u8>, OrderView>,
    a: Seq<u8>,
    customer: Seq<u8>,
    order_id: u64,
    title: Seq<char>,
    details: Seq<char>,
    amount: u64,
    finance: Seq<u8>,
    logistics: Seq<u8>,
    now: i64,
) -> (Result<(), CustomError>, Map<Seq<u8>, OrderView>) {
    if text_len(title) > MAX_TITLE_LEN {
        (Err(CustomError::TitleTooLong), m)
    } else if text_len(details) > MAX_DETAILS_LEN {
        (Err(CustomError::DetailsTooLong), m)
    } else if m.contains_key(a) {
        (Err(CustomError::AccountInUse), m)
    } else {
        (
            Ok(()),
            m.insert(
                a,
                fresh_order(order_id, customer, finance, logistics, title, details, amount, now),
            ),
        )
    }
}

/// Result (the new record's address) and new store contents of a creation.
pub open spec fn create_outcome(
    m: Map<Seq<u8>, OrderView>,
    program_id: Seq<u8>,
    customer: Seq<u8>,
    order_id: u64,
    title: Seq<char>,
    details: Seq<char>,
    amount: u64,
    finance: Seq<u8>,
    logistics: Seq<u8>,
    now: i64,
) -> (Result<Seq<u8>, CustomError>, Map<Seq<u8>, OrderView>) {
    if text_len(title) > MAX_TITLE_LEN {
        (Err(CustomError::TitleTooLong), m)
    } else if text_len(details) > MAX_DETAILS_LEN {
        (Err(CustomError::DetailsTooLong), m)
    } else {
        match derived_address(order_seeds(customer, order_id), program_id) {
            None => (Err(CustomError::NoViableAddress), m),
            Some((a, _)) => if m.contains_key(a) {
                (Err(CustomError::AccountInUse), m)
            } else {
                (
                    Ok(a),
                    m.insert(
                        a,
                        fresh_order(
                            order_id,
                            customer,
                            finance,
                            logistics,
                            title,
                            details,
                            amount,
                            now,
                        ),
                    ),
                )
            },
        }
    }
}

pub open spec fn address_view(r: Result<Identity, CustomError>) -> Result<Seq<u8>, CustomError> {
    match r {
        Ok(a) => Ok(a@),
        Err(e) => Err(e),
    }
}

/// Records of one program, each at its own address; a record is created once
/// and never removed.
pub struct OrderStore {
    program_id: Identity,
    keys: Vec<Identity>,
    orders: Vec<Order>,
    records: Ghost<Map<Seq<u8>, OrderView>>,
}

impl View for OrderStore {
    type V = Map<Seq<u8>, OrderView>;

    closed spec fn view(&self) -> Map<Seq<u8>, OrderView> {
        self.records@
    }
}

impl OrderStore {
    pub closed spec fn program(&self) -> Seq<u8> {
        self.program_id@
    }

    /// Well-formedness: every address holds one bounded record with 32-byte identities.
    pub closed spec fn wf(&self) -> bool {
        &&& self.program_id@.len() == 32
        &&& self.keys@.len() == self.orders@.len()
        &&& forall|i: int, j: int|
            0 <= i < j < self.keys@.len() ==> self.keys@[i]@ != self.keys@[j]@
        &&& forall|i: int|
            0 <= i < self.keys@.len() ==> {
                &&& #[trigger] self.records@.contains_key(self.keys@[i]@)
                &&& self.records@[self.keys@[i]@] == self.orders@[i]@
            }
        &&& forall|k: Seq<u8>|
            #[trigger] self.records@.contains_key(k) ==> exists|i: int|
                0 <= i < self.keys@.len() && self.keys@[i]@ == k
        &&& forall|k: Seq<u8>| #[trigger]
            self.records@.contains_key(k) ==> record_bounded(self.records@[k])
    }

    /// An empty store for the program `program_id`.
    pub fn new(program_id: Identity) -> (r: OrderStore)
        ensures
            r.wf(),
            r@ == Map::<Seq<u8>, OrderView>::empty(),
            r.program() == program_id@,
    {
        OrderStore {
            program_id,
            keys: Vec::new(),
            orders: Vec::new(),
            records: Ghost(Map::empty()),
        }
    }

    pub fn program_id(&self) -> (r: Identity)
        ensures
            r@ == self.program(),
    {
        self.program_id
    }

    fn find(&self, addr: &Identity) -> (r: Option<usize>)
        requires
            self.wf(),
        ensures
            match r {
                Some(i) => i < self.keys@.len() && self.keys@[i as int]@ == addr@,
                None => !self@.contains_key(addr@),
            },
    {
        let mut i: usize = 0;
        while i < self.keys.len()
            invariant
                self.wf(),
                i <= self.keys@.len(),
                forall|j: int| 0 <= j < i ==> self.keys@[j]@ != addr@,
            decreases self.keys@.len() - i,
        {
            if self.keys[i].same_as(addr) {
                return Some(i);
            }
            i = i + 1;
        }
        None
    }

    /// The record at `addr`, if any.
    pub fn get(&self, addr: &Identity) -> (r: Option<&Order>)
        requires
            self.wf(),
        ensures
            match r {
                Some(o) => self@.contains_key(addr@) && self@[addr@] == o@,
                None => !self@.contains_key(addr@),
            },
    {
        match self.find(addr) {
            Some(i) => {
                proof {
                    assert(self.records@.contains_key(self.keys@[i as int]@));
                }
                Some(&self.orders[i])
            },
            None => None,
        }
    }
}

impl OrderStore {
    /// The stored encoding of the record at `addr`, if any.
    pub fn record_bytes(&self, addr: &Identity) -> (r: Option<Vec<u8>>)
        requires
            self.wf(),
        ensures
            match r {
                Some(b) => self@.contains_key(addr@) && b@ == layout(self@[addr@]),
                None => !self@.contains_key(addr@),
            },
    {
        match self.get(addr) {
            Some(o) => Some(encode(o)),
            None => None,
        }
    }

    fn insert_new(&mut self, addr: Identity, o: Order)
        requires
            old(self).wf(),
            !old(self)@.contains_key(addr@),
            record_bounded(o@),
        ensures
            final(self).wf(),
            final(self)@ == old(self)@.insert(addr@, o@),
            final(self).program() == old(self).program(),
    {
        let ghost v = o@;
        let ghost pre = self.records@;
        let ghost pre_keys = self.keys@;
        self.keys.push(addr);
        self.orders.push(o);
        self.records = Ghost(pre.insert(addr@, v));
        assert forall|k: Seq<u8>| #[trigger] self.records@.contains_key(k) implies exists|i: int|
            0 <= i < self.keys@.len() && self.keys@[i]@ == k by {
            if k == addr@ {
                assert(self.keys@[self.keys@.len() - 1]@ == k);
            } else {
                assert(pre.contains_key(k));
                let i = choose|i: int| 0 <= i < pre_keys.len() && pre_keys[i]@ == k;
                assert(self.keys@[i]@ == k);
            }
        }
        assert forall|i: int|
            0 <= i < self.keys@.len() implies #[trigger] self.records@.contains_key(self.keys@[i]@)
            && self.records@[self.keys@[i]@] == self.orders@[i]@ by {
            if i < self.keys@.len() - 1 {
                assert(pre.contains_key(self.keys@[i]@));
            }
        }
    }

    /// Takes step `s` on the record at `addr` for `caller` at time `now`.
    fn apply_step(&mut self, addr: &Identity, caller: &Identity, s: Step, now: i64) -> (r: Result<
        (),
        CustomError,
    >)
        requires
            old(self).wf(),
        ensures
            final(self).wf(),
            final(self).program() == old(self).program(),
            (r, final(self)@) == step_outcome(old(self)@, addr@, s, caller@, now),
    {
        let i = match self.find(addr) {
            Some(i) => i,
            None => {
                return Err(CustomError::AccountNotFound);
            },
        };
        proof {
            assert(self.records@.contains_key(self.keys@[i as int]@));
        }
        let cur = &self.orders[i];
        let role = match s {
            Step::Pay => &cur.finance,
            Step::Ship | Step::Deliver => &cur.logistics,
            Step::Receive => &cur.customer,
        };
        if !caller.same_as(role) {
            return Err(CustomError::Unauthorized);
        }
        let need = match s {
            Step::Pay => OrderStatus::Created,
            Step::Ship => OrderStatus::Paid,
            Step::Deliver => OrderStatus::Shipping,
            Step::Receive => OrderStatus::Delivered,
        };
        if cur.status != need {
            return Err(CustomError::InvalidState);
        }
        let mut n = cur.duplicate();
        match s {
            Step::Pay => {
                n.status = OrderStatus::Paid;
                n.paid_at = now;
            },
            Step::Ship => {
                n.status = OrderStatus::Shipping;
                n.shipped_at = now;
            },
            Step::Deliver => {
                n.status = OrderStatus::Delivered;
                n.delivered_at = now;
            },
            Step::Receive => {
                n.status = OrderStatus::Received;
                n.received_at = now;
            },
        }
        let ghost pre = self.records@;
        let ghost v = n@;
        assert(v == stamped(pre[addr@], s, now));
        self.orders.set(i, n);
        self.records = Ghost(pre.insert(addr@, v));
        assert forall|k: Seq<u8>| #[trigger] self.records@.contains_key(k) implies exists|j: int|
            0 <= j < self.keys@.len() && self.keys@[j]@ == k by {
            assert(pre.contains_key(k));
            let j = choose|j: int| 0 <= j < self.keys@.len() && self.keys@[j]@ == k;
            assert(self.keys@[j]@ == k);
        }
        assert forall|j: int|
            0 <= j < self.keys@.len() implies #[trigger] self.records@.contains_key(self.keys@[j]@)
            && self.records@[self.keys@[j]@] == self.orders@[j]@ by {
            assert(pre.contains_key(self.keys@[j]@));
        }
        Ok(())
    }
}

/// The accounts of a creation: the customer who signs it.
pub struct CreateOrder {
    pub customer: Identity,
}

/// The accounts of a finance step: the order's address and the signing finance party.
pub struct FinanceAction {
    pub order: Identity,
    pub finance: Identity,
}

/// The accounts of a logistics step: the order's address and the signing logistics party.
pub struct LogisticsAction {
    pub order: Identity,
    pub logistics: Identity,
}

/// The accounts of a customer step: the order's address and the signing customer.
pub struct CustomerAction {
    pub order: Identity,
    pub customer: Identity,
}

/// Creates order `order_id` of the signing customer at its derived address, at time
/// `now`, and returns that address.
pub fn create_order(
    store: &mut OrderStore,
    ctx: &CreateOrder,
    order_id: u64,
    title: String,
    details: String,
    amount: u64,
    finance: Identity,
    logistics: Identity,
    now: i64,
) -> (r: Result<Identity, CustomError>)
    requires
        old(store).wf(),
    ensures
        final(store).wf(),
        final(store).program() == old(store).program(),
        (address_view(r), final(store)@) == create_outcome(
            old(store)@,
            old(store).program(),
            ctx.customer@,
            order_id,
            title@,
            details@,
            amount,
            finance@,
            logistics@,
            now,
        ),
{
    if byte_len(&title) > MAX_TITLE_LEN {
        return Err(CustomError::TitleTooLong);
    }
    if byte_len(&details) > MAX_DETAILS_LEN {
        return Err(CustomError::DetailsTooLong);
    }
    let pid = store.program_id();
    let addr = match order_address(&pid, &ctx.customer, order_id) {
        Some((a, _)) => a,
        None => {
            return Err(CustomError::NoViableAddress);
        },
    };
    match create_order_at(
        store,
        &addr,
        ctx,
        order_id,
        title,
        details,
        amount,
        finance,
        logistics,
        now,
    ) {
        Ok(()) => Ok(addr),
        Err(e) => Err(e),
    }
}

/// Creates order `order_id` of the signing customer at `address`, which callers
/// derive with `order_address`. Texts over their bounds are refused first; a
/// record already at the address is never overwritten.
pub fn create_order_at(
    store: &mut OrderStore,
    address: &Identity,
    ctx: &CreateOrder,
    order_id: u64,
    title: String,
    details: String,
    amount: u64,
    finance: Identity,
    logistics: Identity,
    now: i64,
) -> (r: Result<(), CustomError>)
    requires
        old(store).wf(),
    ensures
        final(store).wf(),
        final(store).program() == old(store).program(),
        (r, final(store)@) == create_at_outcome(
            old(store)@,
            address@,
            ctx.customer@,
            order_id,
            title@,
            details@,
            amount,
            finance@,
            logistics@,
            now,
        ),
{
    if byte_len(&title) > MAX_TITLE_LEN {
        return Err(CustomError::TitleTooLong);
    }
    if byte_len(&details) > MAX_DETAILS_LEN {
        return Err(CustomError::DetailsTooLong);
    }
    if store.get(address).is_some() {
        return Err(CustomError::AccountInUse);
    }
    let order = Order {
        order_id,
        customer: ctx.customer,
        finance,
        logistics,
        title,
        details,
        amount,
        status: OrderStatus::Created,
        created_at: now,
        paid_at: 0,
        shipped_at: 0,
        delivered_at: 0,
        received_at: 0,
    };
    store.insert_new(*address, order);
    Ok(())
}

/// Finance marks the order paid: Created to Paid, `paid_at = now`.
pub fn mark_paid(store: &mut OrderStore, ctx: &FinanceAction, now: i64) -> (r: Result<
    (),
    CustomError,
>)
    requires
        old(store).wf(),
    ensures
        final(store).wf(),
        final(store).program() == old(store).program(),
        (r, final(store)@) == step_outcome(old(store)@, ctx.order@, Step::Pay, ctx.finance@, now),
{
    store.apply_step(&ctx.order, &ctx.finance, Step::Pay, now)
}

/// Logistics marks the order shipping: Paid to Shipping, `shipped_at = now`.
pub fn mark_shipping(store: &mut OrderStore, ctx: &LogisticsAction, now: i64) -> (r: Result<
    (),
    CustomError,
>)
    requires
        old(store).wf(),
    ensures
        final(store).wf(),
        final(store).program() == old(store).program(),
        (r, final(store)@) == step_outcome(
            old(store)@,
            ctx.order@,
            Step::Ship,
            ctx.logistics@,
            now,
        ),
{
    store.apply_step(&ctx.order, &ctx.logistics, Step::Ship, now)
}

/// Logistics marks the order delivered: Shipping to Delivered, `delivered_at = now`.
pub fn mark_delivered(store: &mut OrderStore, ctx: &LogisticsAction, now: i64) -> (r: Result<
    (),
    CustomError,
>)
    requires
        old(store).wf(),
    ensures
        final(store).wf(),
        final(store).program() == old(store).program(),
        (r, final(store)@) == step_outcome(
            old(store)@,
            ctx.order@,
            Step::Deliver,
            ctx.logistics@,
            now,
        ),
{
    store.apply_step(&ctx.order, &ctx.logistics, Step::Deliver, now)
}

/// The customer confirms receipt: Delivered to Received, `received_at = now`.
pub fn mark_received(store: &mut OrderStore, ctx: &CustomerAction, now: i64) -> (r: Result<
    (),
    CustomError,
>)
    requires
        old(store).wf(),
    ensures
        final(store).wf(),
        final(store).program() == old(store).program(),
        (r, final(store)@) == step_outcome(
            old(store)@,
            ctx.order@,
            Step::Receive,
            ctx.customer@,
            now,
        ),
{
    store.apply_step(&ctx.order, &ctx.customer, Step::Receive, now)
}

/// Timestamps agree with the status: the stamp of each reached state is set and
/// no earlier than the one before it; the stamps of states not yet reached are zero.
pub open spec fn stamps_consistent(o: OrderView) -> bool {
    let k = stage(o.status);
    &&& 0 <= k
    &&& o.created_at > 0
    &&& (k >= 1 <==> o.paid_at != 0)
    &&& (k >= 1 ==> o.paid_at >= o.created_at)
    &&& (k >= 2 <==> o.shipped_at != 0)
    &&& (k >= 2 ==> o.shipped_at >= o.paid_at)
    &&& (k >= 3 <==> o.delivered_at != 0)
    &&& (k >= 3 ==> o.delivered_at >= o.shipped_at)
    &&& (k >= 4 <==> o.received_at != 0)
    &&& (k >= 4 ==> o.received_at >= o.delivered_at)
}

/// The stamp of the latest state reached.
pub open spec fn latest_stamp(o: OrderView) -> i64 {
    match o.status {
        OrderStatus::Paid => o.paid_at,
        OrderStatus::Shipping => o.shipped_at,
        OrderStatus::Delivered => o.delivered_at,
        OrderStatus::Received => o.received_at,
        _ => o.created_at,
    }
}

/// With a clock that never runs backwards, every step keeps the timestamps
/// consistent with the status: each is set once, when its state is reached.
pub proof fn lemma_steps_keep_stamps_consistent(
    m: Map<Seq<u8>, OrderView>,
    addr: Seq<u8>,
    s: Step,
    caller: Seq<u8>,
    now: i64,
)
    requires
        m.contains_key(addr),
        stamps_consistent(m[addr]),
        now >= latest_stamp(m[addr]),
    ensures
        step_outcome(m, addr, s, caller, now).0 is Ok ==> stamps_consistent(
            step_outcome(m, addr, s, caller, now).1[addr],
        ),
{
}

/// A successful creation at a positive clock reading yields a record in state
/// Created with `created_at` set and every other timestamp zero.
pub proof fn lemma_created_record_starts_clean(
    m: Map<Seq<u8>, OrderView>,
    program_id: Seq<u8>,
    customer: Seq<u8>,
    order_id: u64,
    title: Seq<char>,
    details: Seq<char>,
    amount: u64,
    finance: Seq<u8>,
    logistics: Seq<u8>,
    now: i64,
)
    requires
        now > 0,
    ensures
        ({
            let (r, m2) = create_outcome(
                m,
                program_id,
                customer,
                order_id,
                title,
                details,
                amount,
                finance,
                logistics,
                now,
            );
            r is Ok ==> {
                let o = m2[r->Ok_0];
                &&& m2.contains_key(r->Ok_0)
                &&& o.status == OrderStatus::Created
                &&& o.created_at > 0
                &&& o.paid_at == 0
                &&& o.shipped_at == 0
                &&& o.delivered_at == 0
                &&& o.received_at == 0
                &&& stamps_consistent(o)
            }
        }),
{
}

/// Steps succeed only from their starting state and move exactly one stage along
/// Created, Paid, Shipping, Delivered, Received; the right caller at the wrong
/// stage gets InvalidState and the store is left as it was.
pub proof fn lemma_steps_follow_lifecycle(
    m: Map<Seq<u8>, OrderView>,
    addr: Seq<u8>,
    s: Step,
    caller: Seq<u8>,
    now: i64,
)
    ensures
        step_outcome(m, addr, s, caller, now).0 is Ok ==> {
            let n = step_outcome(m, addr, s, caller, now).1[addr];
            &&& m.contains_key(addr)
            &&& m[addr].status == required_status(s)
            &&& n.status == next_status(s)
            &&& stage(n.status) == stage(m[addr].status) + 1
        },
        m.contains_key(addr) && caller == role_of(m[addr], s) && m[addr].status
            != required_status(s) ==> step_outcome(m, addr, s, caller, now) == (
            Err::<(), CustomError>(CustomError::InvalidState),
            m,
        ),
{
}

/// Only the identity bound to a step's role can take it: any other caller gets
/// Unauthorized and the store is left as it was.
pub proof fn lemma_wrong_caller_rejected(
    m: Map<Seq<u8>, OrderView>,
    addr: Seq<u8>,
    s: Step,
    caller: Seq<u8>,
    now: i64,
)
    requires
        m.contains_key(addr),
        caller != role_of(m[addr], s),
    ensures
        step_outcome(m, addr, s, caller, now) == (
            Err::<(), CustomError>(CustomError::Unauthorized),
            m,
        ),
{
}

/// After a creation succeeds, a second creation with the same customer and order
/// id (and texts within bounds) fails with AccountInUse and leaves the first record
/// as it was.
pub proof fn lemma_second_create_conflicts(
    m: Map<Seq<u8>, OrderView>,
    program_id: Seq<u8>,
    customer: Seq<u8>,
    order_id: u64,
    title1: Seq<char>,
    details1: Seq<char>,
    amount1: u64,
    finance1: Seq<u8>,
    logistics1: Seq<u8>,
    now1: i64,
    title2: Seq<char>,
    details2: Seq<char>,
    amount2: u64,
    finance2: Seq<u8>,
    logistics2: Seq<u8>,
    now2: i64,
)
    requires
        create_outcome(
            m,
            program_id,
            customer,
            order_id,
            title1,
            details1,
            amount1,
            finance1,
            logistics1,
            now1,
        ).0 is Ok,
        text_len(title2) <= MAX_TITLE_LEN,
        text_len(details2) <= MAX_DETAILS_LEN,
    ensures
        ({
            let (r1, m1) = create_outcome(
                m,
                program_id,
                customer,
                order_id,
                title1,
                details1,
                amount1,
                finance1,
                logistics1,
                now1,
            );
            &&& m1[r1->Ok_0] == fresh_order(
                order_id,
                customer,
                finance1,
                logistics1,
                title1,
                details1,
                amount1,
                now1,
            )
            &&& create_outcome(
                m1,
                program_id,
                customer,
                order_id,
                title2,
                details2,
                amount2,
                finance2,
                logistics2,
                now2,
            ) == (Err::<Seq<u8>, CustomError>(CustomError::AccountInUse), m1)
        }),
{
}

} // verus!
