//! Order management: the in-memory state of the account's orders, kept up to
//! date from stream updates and REST snapshots.
//!
//! Persisting an order is outside work.  Each operation that persists takes
//! the outcome of persisting as an argument: the caller saves the orders in
//! sequence, stops at the first failure, and reports what happened.
use crate::decimal::{lemma_value_le_transitive, value_le, Decimal};
use crate::order::{
    clone_opt_string, status_active, status_terminal, status_text, Order, OrderStatus,
};
use crate::event::OrderUpdateEvent;
use crate::text::{join2, join3, owned};
use crate::time::{now, ts_le, Timestamp};
use vstd::prelude::*;

verus! {

#[derive(Debug, Clone, PartialEq, Eq)]
pub enum OmsError {
    OrderNotFound(String),
    InvalidTransition { from: String, to: String },
    StorageError(String),
}

/// The text of an order management error.
pub open spec fn oms_error_text(e: OmsError) -> Seq<char> {
    match e {
        OmsError::OrderNotFound(m) => "Order not found: "@ + m@,
        OmsError::InvalidTransition { from, to } => "Invalid state transition: "@ + from@ + " -> "@
            + to@,
        OmsError::StorageError(m) => "Storage error: "@ + m@,
    }
}

impl OmsError {
    /// The text of the error.
    pub fn text(&self) -> (t: String)
        ensures
            t@ == oms_error_text(*self),
    {
        match self {
            OmsError::OrderNotFound(m) => join2("Order not found: ", m.as_str()),
            OmsError::InvalidTransition { from, to } => {
                let head = join3("Invalid state transition: ", from.as_str(), " -> ");
                join2(head.as_str(), to.as_str())
            },
            OmsError::StorageError(m) => join2("Storage error: ", m.as_str()),
        }
    }
}

/// The error that halts trading after an order management error, until the
/// orders are reconciled again.
pub fn halt_on_oms_error(e: &OmsError) -> (r: String)
    ensures
        r@ == "OMS error detected; halt trading: "@ + oms_error_text(*e),
{
    join2("OMS error detected; halt trading: ", e.text().as_str())
}

/// Outcome of saving a list of orders in sequence.
#[derive(Debug, Clone, PartialEq, Eq)]
pub enum SaveOutcome {
    /// Every order was saved.
    AllSaved,
    /// The orders before `index` were saved; saving the order at `index`
    /// failed with `message`.
    FailedAt { index: usize, message: String },
}

/// Result of a reconciliation.
#[derive(Debug, Clone, Copy, PartialEq, Eq, Structural)]
pub struct ReconcileResult {
    pub added: usize,
    pub updated: usize,
    pub removed: usize,
}

/// Field to sort orders by.
#[derive(Debug, Clone, Copy, PartialEq, Eq, Structural)]
pub enum OrderSortField {
    CreatedAt,
    UpdatedAt,
    Price,
    Size,
}

/// Filter, sort and page for order queries.
#[derive(Debug, Clone)]
pub struct OrderFilter {
    pub market: Option<String>,
    pub status: Option<Vec<OrderStatus>>,
    pub limit: Option<usize>,
    pub offset: Option<usize>,
    pub sort_by: Option<OrderSortField>,
    pub sort_desc: bool,
}

impl Default for OrderFilter {
    fn default() -> (f: OrderFilter)
        ensures
            f.market is None,
            f.status is None,
            f.limit is None,
            f.offset is None,
            f.sort_by is None,
            !f.sort_desc,
    {
        OrderFilter {
            market: None,
            status: None,
            limit: None,
            offset: None,
            sort_by: None,
            sort_desc: false,
        }
    }
}

/// The status change `from -> to` is allowed: an open order may become
/// partially filled, filled, cancelled or expired; a partially filled one
/// may stay partially filled or become filled, cancelled or expired.
pub open spec fn valid_transition(from: OrderStatus, to: OrderStatus) -> bool {
    match (from, to) {
        (OrderStatus::Open, OrderStatus::Partial) => true,
        (OrderStatus::Open, OrderStatus::Filled) => true,
        (OrderStatus::Open, OrderStatus::Cancelled) => true,
        (OrderStatus::Open, OrderStatus::Expired) => true,
        (OrderStatus::Partial, OrderStatus::Partial) => true,
        (OrderStatus::Partial, OrderStatus::Filled) => true,
        (OrderStatus::Partial, OrderStatus::Cancelled) => true,
        (OrderStatus::Partial, OrderStatus::Expired) => true,
        _ => false,
    }
}

/// `e` reports the refused transition `from -> to`, each status by its name.
pub open spec fn is_transition_error(e: OmsError, from: OrderStatus, to: OrderStatus) -> bool {
    e matches OmsError::InvalidTransition { from: f, to: t } && f@ == status_text(from) && t@
        == status_text(to)
}

/// The state after storing `order`: terminal orders are dropped, others kept.
pub open spec fn after_update(m: Map<Seq<char>, Order>, order: Order) -> Map<Seq<char>, Order> {
    if status_terminal(order.status) {
        m.remove(order.order_hash@)
    } else {
        m.insert(order.order_hash@, order)
    }
}

/// `m` with each order of `s` stored under its hash, in sequence.
pub open spec fn insert_all(m: Map<Seq<char>, Order>, s: Seq<Order>) -> Map<Seq<char>, Order>
    decreases s.len(),
{
    if s.len() == 0 {
        m
    } else {
        insert_all(m, s.drop_last()).insert(s.last().order_hash@, s.last())
    }
}

/// The hashes of the orders of `s`.
pub open spec fn hashes(s: Seq<Order>) -> Set<Seq<char>> {
    Set::new(|h: Seq<char>| exists|i: int| 0 <= i < s.len() && #[trigger] s[i].order_hash@ == h)
}

/// How many orders of `s`, stored in sequence into `m`, found no order under
/// their hash.
pub open spec fn added_count(m: Map<Seq<char>, Order>, s: Seq<Order>) -> nat
    decreases s.len(),
{
    if s.len() == 0 {
        0
    } else {
        added_count(m, s.drop_last()) + if insert_all(m, s.drop_last()).dom().contains(
            s.last().order_hash@,
        ) {
            0nat
        } else {
            1nat
        }
    }
}

/// The hashes stored in `m` that `rest` does not hold.
pub open spec fn stale_hashes(m: Map<Seq<char>, Order>, rest: Seq<Order>) -> Set<Seq<char>> {
    m.dom().difference(hashes(rest))
}

/// Number of saved orders a save outcome stands for.
pub open spec fn saved_prefix(outcome: SaveOutcome, n: int) -> int {
    match outcome {
        SaveOutcome::AllSaved => n,
        SaveOutcome::FailedAt { index, .. } => index as int,
    }
}

/// The outcome is consistent with a list of `n` orders.
pub open spec fn outcome_fits(outcome: SaveOutcome, n: int) -> bool {
    match outcome {
        SaveOutcome::AllSaved => true,
        SaveOutcome::FailedAt { index, .. } => index < n,
    }
}

/// `r` is a storage error carrying the message of `outcome`.
pub open spec fn storage_error_of(r: OmsError, outcome: SaveOutcome) -> bool {
    match outcome {
        SaveOutcome::FailedAt { message, .. } => r == OmsError::StorageError(message),
        SaveOutcome::AllSaved => false,
    }
}

/// Order management system.
pub struct OrderManager {
    orders: Vec<Order>,
    last_reconcile: Option<Timestamp>,
    model: Ghost<Map<Seq<char>, Order>>,
}

impl View for OrderManager {
    type V = Map<Seq<char>, Order>;

    /// The orders kept, by hash.
    closed spec fn view(&self) -> Map<Seq<char>, Order> {
        self.model@
    }
}

/// The orders of `s` are stored under distinct hashes, each as the entry of
/// `m` for its hash, and `m` holds no other key.
pub open spec fn enumerates(s: Seq<Order>, m: Map<Seq<char>, Order>) -> bool {
    &&& forall|i: int, j: int|
        0 <= i < j < s.len() ==> (#[trigger] s[i]).order_hash@ != (#[trigger] s[j]).order_hash@
    &&& forall|i: int| 0 <= i < s.len() ==> m.contains_key((#[trigger] s[i]).order_hash@)
        && m[s[i].order_hash@] == s[i]
    &&& forall|h: Seq<char>| #[trigger] m.contains_key(h) ==> exists|i: int|
        0 <= i < s.len() && #[trigger] s[i].order_hash@ == h
}

impl OrderManager {
    /// The state is consistent.
    pub closed spec fn wf(&self) -> bool {
        enumerates(self.orders@, self.model@)
    }

    /// The orders kept, in an order of iteration without repetition.
    pub closed spec fn entries(&self) -> Seq<Order> {
        self.orders@
    }

    /// Time of the last completed REST synchronization.
    pub closed spec fn spec_last_reconcile(&self) -> Option<Timestamp> {
        self.last_reconcile
    }

    /// An empty order manager.
    pub fn new() -> (m: Self)
        ensures
            m.wf(),
            m@ == Map::<Seq<char>, Order>::empty(),
            m.spec_last_reconcile() is None,
    {
        OrderManager { orders: Vec::new(), last_reconcile: None, model: Ghost(Map::empty()) }
    }

    /// Index of the order with hash `hash`, if kept.
    fn find(&self, hash: &String) -> (r: Option<usize>)
        requires
            self.wf(),
        ensures
            match r {
                Some(i) => i < self.orders@.len() && self.orders@[i as int].order_hash@ == hash@,
                None => !self@.contains_key(hash@),
            },
    {
        let mut i: usize = 0;
        while i < self.orders.len()
            invariant
                i <= self.orders@.len(),
                self.wf(),
                forall|j: int| 0 <= j < i ==> (#[trigger] self.orders@[j]).order_hash@ != hash@,
            decreases self.orders.len() - i,
        {
            if self.orders[i].order_hash == *hash {
                return Some(i);
            }
            i = i + 1;
        }
        None
    }

    /// Stores `order` under its hash, replacing an order with the same hash.
    fn upsert(&mut self, order: Order)
        requires
            old(self).wf(),
        ensures
            final(self).wf(),
            final(self)@ == old(self)@.insert(order.order_hash@, order),
            final(self).last_reconcile == old(self).last_reconcile,
    {
        let ghost h = order.order_hash@;
        match self.find(&order.order_hash) {
            Some(i) => {
                self.orders.set(i, order);
                proof {
                    self.model@ = self.model@.insert(h, order);
                    assert forall|k: Seq<char>| #[trigger] self.model@.contains_key(k) implies exists|j: int|
                        0 <= j < self.orders@.len() && #[trigger] self.orders@[j].order_hash@ == k by {
                        if k != h {
                            let j = choose|j: int|
                                0 <= j < old(self).orders@.len() && #[trigger] old(self).orders@[j].order_hash@ == k;
                            assert(self.orders@[j].order_hash@ == k);
                        } else {
                            assert(self.orders@[i as int].order_hash@ == k);
                        }
                    }
                }
            },
            None => {
                self.orders.push(order);
                proof {
                    self.model@ = self.model@.insert(h, order);
                    let n = self.orders@.len() - 1;
                    assert forall|k: Seq<char>| #[trigger] self.model@.contains_key(k) implies exists|j: int|
                        0 <= j < self.orders@.len() && #[trigger] self.orders@[j].order_hash@ == k by {
                        if k != h {
                            let j = choose|j: int|
                                0 <= j < old(self).orders@.len() && #[trigger] old(self).orders@[j].order_hash@ == k;
                            assert(self.orders@[j].order_hash@ == k);
                        } else {
                            assert(self.orders@[n].order_hash@ == k);
                        }
                    }
                    assert forall|a: int, b: int|
                        0 <= a < b < self.orders@.len() implies (#[trigger] self.orders@[a]).order_hash@
                        != (#[trigger] self.orders@[b]).order_hash@ by {
                        if b == n {
                            assert(old(self)@.contains_key(old(self).orders@[a].order_hash@));
                        }
                    }
                }
            },
        }
    }

    /// Drops the order with hash `hash`, if kept.
    fn remove_hash(&mut self, hash: &String)
        requires
            old(self).wf(),
        ensures
            final(self).wf(),
            final(self)@ == old(self)@.remove(hash@),
            final(self).last_reconcile == old(self).last_reconcile,
    {
        match self.find(hash) {
            Some(i) => {
                let ghost h = hash@;
                self.orders.remove(i);
                proof {
                    self.model@ = self.model@.remove(h);
                    let o = old(self).orders@;
                    assert forall|k: Seq<char>| #[trigger] self.model@.contains_key(k) implies exists|j: int|
                        0 <= j < self.orders@.len() && #[trigger] self.orders@[j].order_hash@ == k by {
                        let j = choose|j: int| 0 <= j < o.len() && #[trigger] o[j].order_hash@ == k;
                        if j < i {
                            assert(self.orders@[j].order_hash@ == k);
                        } else {
                            assert(j != i);
                            assert(self.orders@[j - 1].order_hash@ == k);
                        }
                    }
                    assert forall|a: int|
                        0 <= a < self.orders@.len() implies self.model@.contains_key(
                        (#[trigger] self.orders@[a]).order_hash@,
                    ) && self.model@[self.orders@[a].order_hash@] == self.orders@[a] by {
                        if a < i {
                            assert(self.orders@[a] == o[a]);
                        } else {
                            assert(self.orders@[a] == o[a + 1]);
                        }
                    }
                }
            },
            None => {
                proof {
                    assert(self.model@.remove(hash@) =~= self.model@);
                }
            },
        }
    }

    /// The status change `from -> to` is allowed.
    pub fn is_valid_transition(&self, from: OrderStatus, to: OrderStatus) -> (b: bool)
        ensures
            b == valid_transition(from, to),
    {
        match (from, to) {
            (OrderStatus::Open, OrderStatus::Partial)
            | (OrderStatus::Open, OrderStatus::Filled)
            | (OrderStatus::Open, OrderStatus::Cancelled)
            | (OrderStatus::Open, OrderStatus::Expired)
            | (OrderStatus::Partial, OrderStatus::Partial)
            | (OrderStatus::Partial, OrderStatus::Filled)
            | (OrderStatus::Partial, OrderStatus::Cancelled)
            | (OrderStatus::Partial, OrderStatus::Expired) => true,
            _ => false,
        }
    }

    /// The error an update of `order` meets before anything is saved: an
    /// invalid transition from the status of the order kept under its hash.
    pub fn validate_update(&self, order: &Order) -> (r: Result<(), OmsError>)
        requires
            self.wf(),
        ensures
            self@.contains_key(order.order_hash@) && !valid_transition(
                self@[order.order_hash@].status,
                order.status,
            ) ==> r is Err && is_transition_error(r->Err_0, self@[order.order_hash@].status, order.status),
            !(self@.contains_key(order.order_hash@) && !valid_transition(
                self@[order.order_hash@].status,
                order.status,
            )) ==> r is Ok,
    {
        match self.find(&order.order_hash) {
            Some(i) => {
                let existing = self.orders[i].status;
                proof {
                    assert(self@[order.order_hash@] == self.orders@[i as int]);
                }
                if !self.is_valid_transition(existing, order.status) {
                    return Err(
                        OmsError::InvalidTransition {
                            from: owned(existing.display_text()),
                            to: owned(order.status.display_text()),
                        },
                    );
                }
                Ok(())
            },
            None => Ok(()),
        }
    }

    /// Applies an order update from the stream, the source of truth.  An
    /// update that would move a kept order through an invalid transition is
    /// refused; otherwise, once saved (`saved` is the outcome of saving the
    /// update's order), a terminal order is dropped and any other is stored.
    /// On an error the state is unchanged.
    pub fn apply_update(&mut self, event: OrderUpdateEvent, saved: Result<(), String>) -> (r: Result<
        (),
        OmsError,
    >)
        requires
            old(self).wf(),
        ensures
            final(self).wf(),
            final(self).spec_last_reconcile() == old(self).spec_last_reconcile(),
            ({
                let order = event.order;
                let invalid = old(self)@.contains_key(order.order_hash@) && !valid_transition(
                    old(self)@[order.order_hash@].status,
                    order.status,
                );
                &&& invalid ==> r is Err && is_transition_error(
                    r->Err_0,
                    old(self)@[order.order_hash@].status,
                    order.status,
                ) && final(self)@ == old(self)@
                &&& !invalid && saved is Err ==> r == Err::<(), OmsError>(
                    OmsError::StorageError(saved->Err_0),
                ) && final(self)@ == old(self)@
                &&& !invalid && saved is Ok ==> r is Ok && final(self)@ == after_update(
                    old(self)@,
                    order,
                )
            }),
    {
        let order = event.order;
        match self.validate_update(&order) {
            Err(e) => return Err(e),
            Ok(()) => {},
        }
        match saved {
            Err(message) => return Err(OmsError::StorageError(message)),
            Ok(()) => {},
        }
        if order.is_terminal() {
            self.remove_hash(&order.order_hash);
        } else {
            self.upsert(order);
        }
        Ok(())
    }

    /// The order kept under `order_hash`.
    pub fn get_order(&self, order_hash: &str) -> (r: Option<Order>)
        requires
            self.wf(),
        ensures
            self@.contains_key(order_hash@) ==> r == Some(self@[order_hash@]),
            !self@.contains_key(order_hash@) ==> r is None,
    {
        let key = owned(order_hash);
        match self.find(&key) {
            Some(i) => Some(self.orders[i].clone()),
            None => None,
        }
    }

    /// Time of the last completed REST synchronization.
    pub fn last_reconcile_time(&self) -> (t: Option<Timestamp>)
        ensures
            t == self.spec_last_reconcile(),
    {
        self.last_reconcile
    }
}

/// The filter lets `o` through: same market, and a listed status.
pub open spec fn accepts(f: OrderFilter, o: Order) -> bool {
    &&& match f.market {
        Some(m) => o.market@ == m@,
        None => true,
    }
    &&& match f.status {
        Some(v) => v@.contains(o.status),
        None => true,
    }
}

/// Optional decimals in the order of `Option`: absent first, then by value.
pub open spec fn opt_decimal_le(a: Option<Decimal>, b: Option<Decimal>) -> bool {
    match (a, b) {
        (None, _) => true,
        (Some(_), None) => false,
        (Some(x), Some(y)) => x.spec_le(y),
    }
}

/// `a` sorts no later than `b` by `field`.
pub open spec fn key_le(field: OrderSortField, a: Order, b: Order) -> bool {
    match field {
        OrderSortField::CreatedAt => ts_le(a.created_at, b.created_at),
        OrderSortField::UpdatedAt => ts_le(a.updated_at, b.updated_at),
        OrderSortField::Price => opt_decimal_le(a.price, b.price),
        OrderSortField::Size => a.size.spec_le(b.size),
    }
}

/// `a` may precede `b` when sorting by `field`, descending if `desc`.
pub open spec fn sort_le(field: OrderSortField, desc: bool, a: Order, b: Order) -> bool {
    if desc {
        key_le(field, b, a)
    } else {
        key_le(field, a, b)
    }
}

/// `s` is sorted by `field`, descending if `desc`.
pub open spec fn sorted_orders(s: Seq<Order>, field: OrderSortField, desc: bool) -> bool {
    forall|i: int, j: int| 0 <= i < j < s.len() ==> sort_le(field, desc, #[trigger] s[i], #[trigger] s[j])
}

/// `key_le` is a total preorder.
pub proof fn lemma_key_le_total_preorder(field: OrderSortField, a: Order, b: Order, c: Order)
    ensures
        key_le(field, a, b) || key_le(field, b, a),
        key_le(field, a, a),
        key_le(field, a, b) && key_le(field, b, c) ==> key_le(field, a, c),
{
    if key_le(field, a, b) && key_le(field, b, c) {
        match field {
            OrderSortField::Price => {
                if a.price is Some && c.price is Some {
                    let (x, y, z) = (a.price->0, b.price->0, c.price->0);
                    lemma_value_le_transitive(x.mant(), x.exp(), y.mant(), y.exp(), z.mant(), z.exp());
                }
            },
            OrderSortField::Size => {
                lemma_value_le_transitive(
                    a.size.mant(),
                    a.size.exp(),
                    b.size.mant(),
                    b.size.exp(),
                    c.size.mant(),
                    c.size.exp(),
                );
            },
            _ => {},
        }
    }
}

/// `sort_le` is a total preorder.
pub proof fn lemma_sort_le_total_preorder(field: OrderSortField, desc: bool, a: Order, b: Order, c: Order)
    ensures
        sort_le(field, desc, a, b) || sort_le(field, desc, b, a),
        sort_le(field, desc, a, b) && sort_le(field, desc, b, c) ==> sort_le(field, desc, a, c),
{
    lemma_key_le_total_preorder(field, a, b, c);
    lemma_key_le_total_preorder(field, c, b, a);
}

/// `s` from `offset`, at most `limit` orders (`skip(offset).take(limit)`).
pub open spec fn page(s: Seq<Order>, offset: int, limit: int) -> Seq<Order> {
    let start = if offset < s.len() {
        offset
    } else {
        s.len() as int
    };
    let end = if limit >= s.len() - start {
        s.len() as int
    } else {
        start + limit
    };
    s.subrange(start, end)
}

/// `arranged` is `filtered` in the order the filter asks for: unchanged
/// without a sort field, otherwise sorted by it with the same orders.
pub open spec fn arranged(filtered: Seq<Order>, arranged: Seq<Order>, f: OrderFilter) -> bool {
    match f.sort_by {
        None => arranged == filtered,
        Some(field) => sorted_orders(arranged, field, f.sort_desc) && arranged.to_multiset()
            == filtered.to_multiset(),
    }
}

/// The offset a filter asks for (0 by default).
pub open spec fn filter_offset(f: OrderFilter) -> int {
    match f.offset {
        Some(o) => o as int,
        None => 0,
    }
}

/// The limit a filter asks for (`usize::MAX` by default).
pub open spec fn filter_limit(f: OrderFilter) -> int {
    match f.limit {
        Some(l) => l as int,
        None => usize::MAX as int,
    }
}

/// The active orders of `s`, in order.
pub open spec fn active_orders(s: Seq<Order>) -> Seq<Order> {
    s.filter(|o: Order| status_active(o.status))
}

/// Filtering the first `i + 1` elements adds the `i`-th one if it passes.
pub proof fn lemma_filter_take_step(s: Seq<Order>, i: int, pred: spec_fn(Order) -> bool)
    requires
        0 <= i < s.len(),
    ensures
        s.take(i + 1).filter(pred) == if pred(s[i]) {
            s.take(i).filter(pred).push(s[i])
        } else {
            s.take(i).filter(pred)
        },
{
    assert(s.take(i + 1) == s.take(i).push(s[i]));
    s.take(i).lemma_filter_push(s[i], pred);
}

/// `a` precedes `b` when sorting by `field`, descending if `desc`.
pub fn order_sort_le(a: &Order, b: &Order, field: OrderSortField, desc: bool) -> (r: bool)
    ensures
        r == sort_le(field, desc, *a, *b),
{
    let (x, y) = if desc {
        (b, a)
    } else {
        (a, b)
    };
    match field {
        OrderSortField::CreatedAt => x.created_at.le(&y.created_at),
        OrderSortField::UpdatedAt => x.updated_at.le(&y.updated_at),
        OrderSortField::Price => match (&x.price, &y.price) {
            (None, _) => true,
            (Some(_), None) => false,
            (Some(p), Some(q)) => p.le(q),
        },
        OrderSortField::Size => x.size.le(&y.size),
    }
}

/// Sorts orders by `field`, descending if `desc`.
pub fn sort_orders(v: &Vec<Order>, field: OrderSortField, desc: bool) -> (r: Vec<Order>)
    ensures
        sorted_orders(r@, field, desc),
        r@.to_multiset() == v@.to_multiset(),
{
    broadcast use vstd::seq_lib::to_multiset_build, vstd::seq_lib::to_multiset_insert;

    let mut out: Vec<Order> = Vec::new();
    let mut i: usize = 0;
    assert(out@ =~= v@.take(0));
    while i < v.len()
        invariant
            i <= v.len(),
            sorted_orders(out@, field, desc),
            out@.to_multiset() == v@.take(i as int).to_multiset(),
        decreases v.len() - i,
    {
        let x = v[i].clone();
        let mut k: usize = 0;
        while k < out.len() && order_sort_le(&out[k], &x, field, desc)
            invariant
                k <= out.len(),
                forall|j: int| 0 <= j < k ==> sort_le(field, desc, #[trigger] out@[j], x),
            decreases out.len() - k,
        {
            k = k + 1;
        }
        let ghost old_out = out@;
        out.insert(k, x);
        proof {
            assert forall|a: int, b: int| 0 <= a < b < out@.len() implies sort_le(
                field,
                desc,
                #[trigger] out@[a],
                #[trigger] out@[b],
            ) by {
                if a < k && b == k {
                } else if a == k {
                    let c = old_out[k as int];
                    lemma_sort_le_total_preorder(field, desc, x, c, old_out[b - 1]);
                    if b - 1 > k {
                        assert(sort_le(field, desc, old_out[k as int], old_out[b - 1]));
                    }
                } else if b < k {
                    assert(out@[a] == old_out[a] && out@[b] == old_out[b]);
                } else if a < k {
                    assert(out@[a] == old_out[a] && out@[b] == old_out[b - 1]);
                } else {
                    assert(out@[a] == old_out[a - 1] && out@[b] == old_out[b - 1]);
                }
            }
            assert(v@.take(i + 1) == v@.take(i as int).push(v@[i as int]));
            assert(out@ == old_out.insert(k as int, x));
            vstd::seq_lib::to_multiset_insert(old_out, k as int, x);
            vstd::seq_lib::to_multiset_build(v@.take(i as int), v@[i as int]);
        }
        i = i + 1;
    }
    proof {
        assert(v@.take(v.len() as int) == v@);
    }
    out
}

impl OrderManager {
    /// The active orders.
    pub fn get_all_active(&self) -> (r: Vec<Order>)
        requires
            self.wf(),
        ensures
            r@ == active_orders(self.entries()),
    {
        broadcast use vstd::seq::Seq::lemma_filter_push;

        let mut out: Vec<Order> = Vec::new();
        let mut i: usize = 0;
        while i < self.orders.len()
            invariant
                i <= self.orders@.len(),
                out@ == active_orders(self.orders@.take(i as int)),
            decreases self.orders.len() - i,
        {
            proof {
                lemma_filter_take_step(self.orders@, i as int, |o: Order| status_active(o.status));
            }
            if self.orders[i].is_active() {
                out.push(self.orders[i].clone());
            }
            i = i + 1;
        }
        proof {
            assert(self.orders@.take(self.orders@.len() as int) == self.orders@);
        }
        out
    }

    /// Number of active orders.
    pub fn active_count(&self) -> (n: usize)
        requires
            self.wf(),
        ensures
            n == active_orders(self.entries()).len(),
    {
        broadcast use vstd::seq::Seq::lemma_filter_push;

        let mut n: usize = 0;
        let mut i: usize = 0;
        while i < self.orders.len()
            invariant
                i <= self.orders@.len(),
                n == active_orders(self.orders@.take(i as int)).len(),
                n <= i,
            decreases self.orders.len() - i,
        {
            proof {
                lemma_filter_take_step(self.orders@, i as int, |o: Order| status_active(o.status));
            }
            if self.orders[i].is_active() {
                n = n + 1;
            }
            i = i + 1;
        }
        proof {
            assert(self.orders@.take(self.orders@.len() as int) == self.orders@);
        }
        n
    }

    /// The orders the filter lets through, sorted as it asks, from its offset
    /// and at most its limit.
    pub fn get_orders(&self, filter: OrderFilter) -> (r: Vec<Order>)
        requires
            self.wf(),
        ensures
            exists|s: Seq<Order>|
                arranged(self.entries().filter(|o: Order| accepts(filter, o)), s, filter) && r@
                    == page(s, filter_offset(filter), filter_limit(filter)),
    {
        broadcast use vstd::seq::Seq::lemma_filter_push;

        let ghost pred = |o: Order| accepts(filter, o);
        let mut selected: Vec<Order> = Vec::new();
        let mut i: usize = 0;
        while i < self.orders.len()
            invariant
                i <= self.orders@.len(),
                pred == (|o: Order| accepts(filter, o)),
                selected@ == self.orders@.take(i as int).filter(pred),
            decreases self.orders.len() - i,
        {
            let o = &self.orders[i];
            proof {
                lemma_filter_take_step(self.orders@, i as int, pred);
                assert(pred(self.orders@[i as int]) == accepts(filter, self.orders@[i as int]));
            }
            if filter_accepts(&filter, o) {
                selected.push(o.clone());
            }
            i = i + 1;
        }
        proof {
            assert(self.orders@.take(self.orders@.len() as int) == self.orders@);
        }
        let arranged_orders = match filter.sort_by {
            Some(field) => sort_orders(&selected, field, filter.sort_desc),
            None => selected,
        };
        let offset = match filter.offset {
            Some(o) => o,
            None => 0,
        };
        let limit = match filter.limit {
            Some(l) => l,
            None => usize::MAX,
        };
        let len = arranged_orders.len();
        let start = if offset < len {
            offset
        } else {
            len
        };
        let end = if limit >= len - start {
            len
        } else {
            start + limit
        };
        let mut out: Vec<Order> = Vec::new();
        let mut j: usize = start;
        while j < end
            invariant
                start <= j <= end <= arranged_orders@.len(),
                out@ == arranged_orders@.subrange(start as int, j as int),
            decreases end - j,
        {
            out.push(arranged_orders[j].clone());
            proof {
                assert(arranged_orders@.subrange(start as int, j + 1) == arranged_orders@.subrange(
                    start as int,
                    j as int,
                ).push(arranged_orders@[j as int]));
            }
            j = j + 1;
        }
        proof {
            assert(arranged(self.entries().filter(pred), arranged_orders@, filter));
            assert(out@ == page(arranged_orders@, filter_offset(filter), filter_limit(filter)));
        }
        out
    }

    /// The open and partially filled orders, of `market` if given.
    pub fn get_open_orders(&self, market: Option<&str>) -> (r: Vec<Order>)
        requires
            self.wf(),
        ensures
            exists|f: OrderFilter|
                f.sort_by is None && f.offset is None && f.limit is None && (match market {
                    Some(m) => f.market is Some && f.market->0@ == m@,
                    None => f.market is None,
                }) && f.status is Some && f.status->0@ == seq![OrderStatus::Open, OrderStatus::Partial]
                    && r@ == self.entries().filter(|o: Order| accepts(f, o)),
    {
        let filter = OrderFilter {
            market: match market {
                Some(m) => Some(owned(m)),
                None => None,
            },
            status: Some(vec![OrderStatus::Open, OrderStatus::Partial]),
            limit: None,
            offset: None,
            sort_by: None,
            sort_desc: false,
        };
        let ghost f = filter;
        let n = self.orders.len();
        let r = self.get_orders(filter);
        proof {
            let s = choose|s: Seq<Order>|
                arranged(self.entries().filter(|o: Order| accepts(f, o)), s, f) && r@ == page(
                    s,
                    filter_offset(f),
                    filter_limit(f),
                );
            self.orders@.lemma_filter_len(|o: Order| accepts(f, o));
            assert(page(s, 0, usize::MAX as int) =~= s);
            assert(r@ == s);
            assert(f.status->0@ =~= seq![OrderStatus::Open, OrderStatus::Partial]);
            assert(r@ == self.entries().filter(|o: Order| accepts(f, o)));
        }
        r
    }
}

/// `filter` lets `o` through.
pub fn filter_accepts(filter: &OrderFilter, o: &Order) -> (b: bool)
    ensures
        b == accepts(*filter, *o),
{
    match &filter.market {
        Some(m) => {
            if !(o.market == *m) {
                return false;
            }
        },
        None => {},
    }
    match &filter.status {
        Some(statuses) => {
            let mut i: usize = 0;
            while i < statuses.len()
                invariant
                    i <= statuses@.len(),
                    filter.status == Some(*statuses),
                    match filter.market {
                        Some(m) => o.market@ == m@,
                        None => true,
                    },
                    forall|j: int| 0 <= j < i ==> statuses@[j] != o.status,
                decreases statuses.len() - i,
            {
                if statuses[i] == o.status {
                    assert(statuses@[i as int] == o.status);
                    return true;
                }
                i = i + 1;
            }
            false
        },
        None => true,
    }
}

/// Dropping the last order of an enumeration drops its key from the map.
pub proof fn lemma_enumerates_drop_last(e: Seq<Order>, m: Map<Seq<char>, Order>)
    requires
        enumerates(e, m),
        e.len() > 0,
    ensures
        enumerates(e.drop_last(), m.remove(e.last().order_hash@)),
        m.contains_key(e.last().order_hash@),
        m[e.last().order_hash@] == e.last(),
        !m.remove(e.last().order_hash@).contains_key(e.last().order_hash@),
{
    let x = e.last();
    let k = x.order_hash@;
    let e2 = e.drop_last();
    let m2 = m.remove(k);
    assert(e[e.len() - 1] == x);
    assert forall|i: int| 0 <= i < e2.len() implies m2.contains_key((#[trigger] e2[i]).order_hash@)
        && m2[e2[i].order_hash@] == e2[i] by {
        assert(e[i] == e2[i]);
        assert(e[i].order_hash@ != e[e.len() - 1].order_hash@);
    }
    assert forall|hk: Seq<char>| #[trigger] m2.contains_key(hk) implies exists|i: int|
        0 <= i < e2.len() && #[trigger] e2[i].order_hash@ == hk by {
        let i = choose|i: int| 0 <= i < e.len() && #[trigger] e[i].order_hash@ == hk;
        assert(i != e.len() - 1);
        assert(e2[i] == e[i]);
    }
    assert forall|i: int, j: int|
        0 <= i < j < e2.len() implies (#[trigger] e2[i]).order_hash@ != (#[trigger] e2[j]).order_hash@ by {
        assert(e2[i] == e[i] && e2[j] == e[j]);
    }
}

/// Keeping the orders of an enumeration whose hash lies in `h` enumerates the
/// map restricted to `h`.
pub proof fn lemma_filter_enumerates(e: Seq<Order>, m: Map<Seq<char>, Order>, h: Set<Seq<char>>)
    requires
        enumerates(e, m),
    ensures
        enumerates(e.filter(|o: Order| h.contains(o.order_hash@)), m.restrict(h)),
    decreases e.len(),
{
    let q = |o: Order| h.contains(o.order_hash@);
    if e.len() == 0 {
        assert(e.filter(q) =~= Seq::<Order>::empty()) by {
            reveal(Seq::filter);
        }
        assert forall|k: Seq<char>| !#[trigger] m.restrict(h).contains_key(k) by {
            if m.contains_key(k) {
                let i = choose|i: int| 0 <= i < e.len() && #[trigger] e[i].order_hash@ == k;
            }
        }
    } else {
        let x = e.last();
        let k = x.order_hash@;
        let e2 = e.drop_last();
        let m2 = m.remove(k);
        lemma_enumerates_drop_last(e, m);
        lemma_filter_enumerates(e2, m2, h);
        assert(e == e2.push(x));
        e2.lemma_filter_push(x, q);
        let f2 = e2.filter(q);
        let r2 = m2.restrict(h);
        if q(x) {
            let f = f2.push(x);
            let r = m.restrict(h);
            assert(r =~= r2.insert(k, x));
            assert forall|i: int, j: int|
                0 <= i < j < f.len() implies (#[trigger] f[i]).order_hash@ != (#[trigger] f[j]).order_hash@ by {
                if j == f.len() - 1 {
                    assert(r2.contains_key(f2[i].order_hash@));
                    assert(f[i] == f2[i]);
                } else {
                    assert(f[i] == f2[i] && f[j] == f2[j]);
                }
            }
            assert forall|i: int| 0 <= i < f.len() implies r.contains_key((#[trigger] f[i]).order_hash@)
                && r[f[i].order_hash@] == f[i] by {
                if i < f.len() - 1 {
                    assert(f[i] == f2[i]);
                    assert(r2.contains_key(f2[i].order_hash@));
                }
            }
            assert forall|hk: Seq<char>| #[trigger] r.contains_key(hk) implies exists|i: int|
                0 <= i < f.len() && #[trigger] f[i].order_hash@ == hk by {
                if hk == k {
                    assert(f[f.len() - 1].order_hash@ == hk);
                } else {
                    assert(r2.contains_key(hk));
                    let i = choose|i: int| 0 <= i < f2.len() && #[trigger] f2[i].order_hash@ == hk;
                    assert(f[i] == f2[i]);
                }
            }
        } else {
            assert(m.restrict(h) =~= r2);
        }
    }
}

/// Every order of `e` whose hash is outside `h`, counted, is the number of
/// keys of `m` outside `h`, when `e` enumerates `m`.
pub proof fn lemma_stale_count(e: Seq<Order>, m: Map<Seq<char>, Order>, h: Set<Seq<char>>)
    requires
        enumerates(e, m),
    ensures
        m.dom().finite(),
        e.filter(|o: Order| !h.contains(o.order_hash@)).len() == m.dom().difference(h).len(),
    decreases e.len(),
{
    let p = |o: Order| !h.contains(o.order_hash@);
    if e.len() == 0 {
        assert(m.dom() =~= Set::empty()) by {
            assert forall|k: Seq<char>| !#[trigger] m.dom().contains(k) by {
                if m.contains_key(k) {
                    let i = choose|i: int| 0 <= i < e.len() && #[trigger] e[i].order_hash@ == k;
                }
            }
        }
        assert(m.dom().difference(h) =~= Set::empty());
        assert(e.filter(p) =~= Seq::<Order>::empty()) by {
            reveal(Seq::filter);
        }
    } else {
        let x = e.last();
        let k = x.order_hash@;
        let e2 = e.drop_last();
        let m2 = m.remove(k);
        lemma_enumerates_drop_last(e, m);
        lemma_stale_count(e2, m2, h);
        assert(e == e2.push(x));
        e2.lemma_filter_push(x, p);
        assert(m.contains_key(k));
        assert(m.dom() =~= m2.dom().insert(k));
        if !h.contains(k) {
            assert(m.dom().difference(h) =~= m2.dom().difference(h).insert(k));
            assert(!m2.dom().difference(h).contains(k));
        } else {
            assert(m.dom().difference(h) =~= m2.dom().difference(h));
        }
    }
}

/// `h` is among the hashes of `s`.
fn hash_in(s: &Vec<Order>, h: &String) -> (b: bool)
    ensures
        b == hashes(s@).contains(h@),
{
    let mut i: usize = 0;
    while i < s.len()
        invariant
            i <= s@.len(),
            forall|j: int| 0 <= j < i ==> (#[trigger] s@[j]).order_hash@ != h@,
        decreases s.len() - i,
    {
        if s[i].order_hash == *h {
            assert(s@[i as int].order_hash@ == h@);
            return true;
        }
        i = i + 1;
    }
    false
}

impl OrderManager {
    /// Stores the first `k` orders of `orders`, in sequence.
    fn store_prefix(&mut self, orders: &Vec<Order>, k: usize) -> (added: usize)
        requires
            old(self).wf(),
            k <= orders@.len(),
        ensures
            final(self).wf(),
            final(self)@ == insert_all(old(self)@, orders@.take(k as int)),
            final(self).last_reconcile == old(self).last_reconcile,
            added == added_count(old(self)@, orders@.take(k as int)),
            added <= k,
    {
        let mut i: usize = 0;
        let mut added: usize = 0;
        let ghost start = self@;
        assert(orders@.take(0) =~= Seq::<Order>::empty());
        while i < k
            invariant
                i <= k <= orders@.len(),
                self.wf(),
                self@ == insert_all(start, orders@.take(i as int)),
                self.last_reconcile == old(self).last_reconcile,
                start == old(self)@,
                added == added_count(start, orders@.take(i as int)),
                added <= i,
            decreases k - i,
        {
            let o = orders[i].clone();
            proof {
                let t = orders@.take(i + 1);
                assert(t.drop_last() == orders@.take(i as int));
                assert(t.last() == orders@[i as int]);
            }
            match self.find(&o.order_hash) {
                Some(_) => {},
                None => {
                    added = added + 1;
                },
            }
            self.upsert(o);
            i = i + 1;
        }
        added
    }

    /// Initializes the state from a REST snapshot at startup: clears it, then
    /// stores the orders that were saved (`saved` is the outcome of saving
    /// `orders` in sequence).  When all were saved the synchronization time is
    /// set; otherwise the storage error is returned.
    pub fn init_from_rest(&mut self, orders: Vec<Order>, saved: SaveOutcome) -> (r: Result<(), OmsError>)
        requires
            old(self).wf(),
            outcome_fits(saved, orders@.len() as int),
        ensures
            final(self).wf(),
            final(self)@ == insert_all(
                Map::empty(),
                orders@.take(saved_prefix(saved, orders@.len() as int)),
            ),
            saved is AllSaved ==> r is Ok && final(self).spec_last_reconcile() is Some,
            saved is FailedAt ==> r is Err && storage_error_of(r->Err_0, saved)
                && final(self).spec_last_reconcile() == old(self).spec_last_reconcile(),
    {
        self.orders = Vec::new();
        self.model = Ghost(Map::empty());
        let k = match &saved {
            SaveOutcome::AllSaved => orders.len(),
            SaveOutcome::FailedAt { index, .. } => *index,
        };
        self.store_prefix(&orders, k);
        match saved {
            SaveOutcome::AllSaved => {
                self.last_reconcile = Some(now());
                Ok(())
            },
            SaveOutcome::FailedAt { message, .. } => Err(OmsError::StorageError(message)),
        }
    }

    /// Reconciles the state with a REST snapshot: stores each saved order of
    /// `rest_orders` (counting those new and those replacing a kept order);
    /// if all were saved, drops every kept order the snapshot does not hold,
    /// since it was filled or cancelled meanwhile, and sets the
    /// synchronization time.
    pub fn reconcile(&mut self, rest_orders: Vec<Order>, saved: SaveOutcome) -> (r: Result<
        ReconcileResult,
        OmsError,
    >)
        requires
            old(self).wf(),
            outcome_fits(saved, rest_orders@.len() as int),
        ensures
            final(self).wf(),
            saved is FailedAt ==> r is Err && storage_error_of(r->Err_0, saved) && final(self)@
                == insert_all(old(self)@, rest_orders@.take(saved_prefix(saved, rest_orders@.len() as int)))
                && final(self).spec_last_reconcile() == old(self).spec_last_reconcile(),
            saved is AllSaved ==> r is Ok && final(self)@ == insert_all(old(self)@, rest_orders@).restrict(
                hashes(rest_orders@),
            ) && r->Ok_0.added == added_count(old(self)@, rest_orders@) && r->Ok_0.added
                + r->Ok_0.updated == rest_orders@.len() && r->Ok_0.removed == stale_hashes(
                old(self)@,
                rest_orders@,
            ).len() && final(self).spec_last_reconcile() is Some,
    {
        let n = rest_orders.len();
        let k = match &saved {
            SaveOutcome::AllSaved => n,
            SaveOutcome::FailedAt { index, .. } => *index,
        };
        let ghost before = self@;
        let added = self.store_prefix(&rest_orders, k);
        match saved {
            SaveOutcome::FailedAt { message, .. } => {
                return Err(OmsError::StorageError(message));
            },
            SaveOutcome::AllSaved => {},
        }
        proof {
            assert(rest_orders@.take(n as int) == rest_orders@);
        }
        let updated = n - added;
        let ghost h = hashes(rest_orders@);
        let ghost e = self.orders@;
        let ghost m = self@;
        let mut kept: Vec<Order> = Vec::new();
        let mut removed: usize = 0;
        let mut j: usize = 0;
        assert(e.take(0) =~= Seq::<Order>::empty());
        while j < self.orders.len()
            invariant
                e == self.orders@,
                m == self@,
                self.wf(),
                h == hashes(rest_orders@),
                j <= e.len(),
                removed == e.take(j as int).filter(|o: Order| !h.contains(o.order_hash@)).len(),
                kept@ == e.take(j as int).filter(|o: Order| h.contains(o.order_hash@)),
                removed <= j,
            decreases e.len() - j,
        {
            let o = self.orders[j].clone();
            proof {
                lemma_filter_take_step(e, j as int, |o: Order| !h.contains(o.order_hash@));
                lemma_filter_take_step(e, j as int, |o: Order| h.contains(o.order_hash@));
            }
            if hash_in(&rest_orders, &o.order_hash) {
                kept.push(o);
            } else {
                removed = removed + 1;
            }
            j = j + 1;
        }
        proof {
            assert(e.take(e.len() as int) == e);
            lemma_stale_count(e, m, h);
            lemma_filter_enumerates(e, m, h);
            assert(m.dom().difference(h) =~= stale_hashes(before, rest_orders@)) by {
                lemma_insert_all_dom(before, rest_orders@);
            }
        }
        self.orders = kept;
        self.model = Ghost(m.restrict(h));
        self.last_reconcile = Some(now());
        Ok(ReconcileResult { added, updated, removed })
    }
}

/// Storing the orders of `s` into `m` adds exactly their hashes to its keys.
pub proof fn lemma_insert_all_dom(m: Map<Seq<char>, Order>, s: Seq<Order>)
    ensures
        insert_all(m, s).dom() == m.dom().union(hashes(s)),
    decreases s.len(),
{
    if s.len() == 0 {
        assert(hashes(s) =~= Set::empty());
        assert(m.dom().union(hashes(s)) =~= m.dom());
    } else {
        lemma_insert_all_dom(m, s.drop_last());
        assert(hashes(s) =~= hashes(s.drop_last()).insert(s.last().order_hash@)) by {
            assert forall|h: Seq<char>| hashes(s).contains(h) implies #[trigger] hashes(s.drop_last()).insert(
                s.last().order_hash@,
            ).contains(h) by {
                let i = choose|i: int| 0 <= i < s.len() && #[trigger] s[i].order_hash@ == h;
                if i < s.len() - 1 {
                    assert(s.drop_last()[i] == s[i]);
                }
            }
            assert forall|h: Seq<char>| #[trigger] hashes(s.drop_last()).insert(s.last().order_hash@).contains(h)
                implies hashes(s).contains(h) by {
                if h == s.last().order_hash@ {
                    assert(s[s.len() - 1].order_hash@ == h);
                } else {
                    let i = choose|i: int| 0 <= i < s.len() - 1 && #[trigger] s.drop_last()[i].order_hash@ == h;
                    assert(s[i].order_hash@ == h);
                }
            }
        }
        assert(insert_all(m, s).dom() =~= m.dom().union(hashes(s)));
    }
}

/// The hashes of `s` with one more order.
pub proof fn lemma_hashes_push(s: Seq<Order>, x: Order)
    ensures
        hashes(s.push(x)) == hashes(s).insert(x.order_hash@),
{
    let t = s.push(x);
    assert forall|h: Seq<char>| hashes(t).contains(h) implies #[trigger] hashes(s).insert(
        x.order_hash@,
    ).contains(h) by {
        let i = choose|i: int| 0 <= i < t.len() && #[trigger] t[i].order_hash@ == h;
        if i < s.len() {
            assert(s[i] == t[i]);
        }
    }
    assert forall|h: Seq<char>| #[trigger] hashes(s).insert(x.order_hash@).contains(h) implies hashes(
        t,
    ).contains(h) by {
        if h == x.order_hash@ {
            assert(t[t.len() - 1].order_hash@ == h);
        } else {
            let i = choose|i: int| 0 <= i < s.len() && #[trigger] s[i].order_hash@ == h;
            assert(t[i] == s[i]);
        }
    }
    assert(hashes(t) =~= hashes(s).insert(x.order_hash@));
}

/// The hashes of a sequence of orders form a finite set.
pub proof fn lemma_hashes_finite(s: Seq<Order>)
    ensures
        hashes(s).finite(),
    decreases s.len(),
{
    if s.len() == 0 {
        assert(hashes(s) =~= Set::empty());
    } else {
        lemma_hashes_finite(s.drop_last());
        assert(s == s.drop_last().push(s.last()));
        lemma_hashes_push(s.drop_last(), s.last());
    }
}

/// After a completed reconciliation the kept orders are exactly the
/// REST snapshot, whatever was kept before: each hash of the snapshot maps to
/// the last order of the snapshot with that hash, and nothing else is kept.
pub proof fn lemma_reconciled_state_is_snapshot(m: Map<Seq<char>, Order>, rest: Seq<Order>)
    ensures
        insert_all(m, rest).restrict(hashes(rest)) == insert_all(Map::empty(), rest),
    decreases rest.len(),
{
    if rest.len() == 0 {
        assert(hashes(rest) =~= Set::empty());
        assert(insert_all(m, rest).restrict(hashes(rest)) =~= Map::empty());
    } else {
        let s2 = rest.drop_last();
        let x = rest.last();
        lemma_reconciled_state_is_snapshot(m, s2);
        assert(rest == s2.push(x));
        lemma_hashes_push(s2, x);
        lemma_insert_all_dom(Map::empty(), s2);
        assert(insert_all(m, rest).restrict(hashes(rest)) =~= insert_all(m, s2).restrict(hashes(s2)).insert(
            x.order_hash@,
            x,
        ));
    }
}

/// The number of orders a reconciliation counts as added is the number
/// of snapshot hashes that were not kept before; the rest of the snapshot's
/// orders count as updated.
pub proof fn lemma_added_count_is_new_hashes(m: Map<Seq<char>, Order>, rest: Seq<Order>)
    ensures
        added_count(m, rest) == hashes(rest).difference(m.dom()).len(),
    decreases rest.len(),
{
    if rest.len() == 0 {
        assert(hashes(rest) =~= Set::empty());
        assert(hashes(rest).difference(m.dom()) =~= Set::empty());
    } else {
        let s2 = rest.drop_last();
        let x = rest.last();
        let k = x.order_hash@;
        lemma_added_count_is_new_hashes(m, s2);
        assert(rest == s2.push(x));
        lemma_hashes_push(s2, x);
        lemma_hashes_finite(s2);
        lemma_insert_all_dom(m, s2);
        let d2 = hashes(s2).difference(m.dom());
        if m.dom().contains(k) || hashes(s2).contains(k) {
            assert(hashes(rest).difference(m.dom()) =~= d2);
        } else {
            assert(hashes(rest).difference(m.dom()) =~= d2.insert(k));
            assert(!d2.contains(k));
        }
    }
}

/// No status change leads out of a terminal status or back to `Open`,
/// and only an active order changes status.
pub proof fn lemma_transitions_respect_lifecycle(from: OrderStatus, to: OrderStatus)
    ensures
        status_terminal(from) ==> !valid_transition(from, to),
        valid_transition(from, to) ==> status_active(from) && to != OrderStatus::Open,
        to == OrderStatus::Rejected ==> !valid_transition(from, to),
{
}

/// After an applied update the order is kept exactly when it is not
/// terminal, and then as given; other orders are untouched.
pub proof fn lemma_update_keeps_only_live_orders(m: Map<Seq<char>, Order>, order: Order, other: Seq<char>)
    ensures
        after_update(m, order).contains_key(order.order_hash@) <==> !status_terminal(order.status),
        !status_terminal(order.status) ==> after_update(m, order)[order.order_hash@] == order,
        other != order.order_hash@ ==> (after_update(m, order).contains_key(other) <==> m.contains_key(
            other,
        )) && (m.contains_key(other) ==> after_update(m, order)[other] == m[other]),
{
}

/// The active orders listed are exactly the kept orders that are active,
/// each listed once, and their number is what `active_count` reports.
pub proof fn lemma_active_orders_are_kept_active(mgr: OrderManager, o: Order)
    requires
        mgr.wf(),
    ensures
        active_orders(mgr.entries()).contains(o) <==> (mgr@.contains_key(o.order_hash@) && mgr@[o.order_hash@]
            == o && status_active(o.status)),
        forall|i: int, j: int|
            0 <= i < j < active_orders(mgr.entries()).len() ==> (#[trigger] active_orders(
                mgr.entries(),
            )[i]).order_hash@ != (#[trigger] active_orders(mgr.entries())[j]).order_hash@,
{
    let e = mgr.entries();
    let h = Set::new(|k: Seq<char>| mgr@.contains_key(k) && status_active(mgr@[k].status));
    let p = |x: Order| status_active(x.status);
    let q = |x: Order| h.contains(x.order_hash@);
    assert(e.filter(p) == e.filter(q)) by {
        assert forall|x: Order| e.contains(x) implies p(x) == q(x) by {
            let i = choose|i: int| 0 <= i < e.len() && e[i] == x;
        }
        lemma_filter_same_on_members(e, p, q);
    }
    lemma_filter_enumerates(e, mgr@, h);
    let f = e.filter(q);
    let r = mgr@.restrict(h);
    if f.contains(o) {
        let i = choose|i: int| 0 <= i < f.len() && f[i] == o;
        assert(r.contains_key(f[i].order_hash@));
    }
    if mgr@.contains_key(o.order_hash@) && mgr@[o.order_hash@] == o && status_active(o.status) {
        assert(r.contains_key(o.order_hash@));
        let i = choose|i: int| 0 <= i < f.len() && #[trigger] f[i].order_hash@ == o.order_hash@;
        assert(f[i] == o);
    }
}

/// Filtering with two predicates that agree on the members gives the same result.
pub proof fn lemma_filter_same_on_members(
    e: Seq<Order>,
    p: spec_fn(Order) -> bool,
    q: spec_fn(Order) -> bool,
)
    requires
        forall|x: Order| e.contains(x) ==> p(x) == q(x),
    ensures
        e.filter(p) == e.filter(q),
    decreases e.len(),
{
    reveal(Seq::filter);
    if e.len() > 0 {
        let e2 = e.drop_last();
        assert forall|x: Order| e2.contains(x) implies p(x) == q(x) by {
            let i = choose|i: int| 0 <= i < e2.len() && e2[i] == x;
            assert(e[i] == x);
            assert(e.contains(x));
        }
        lemma_filter_same_on_members(e2, p, q);
        assert(e.contains(e.last())) by {
            assert(e[e.len() - 1] == e.last());
        }
    }
}

/// The orders a consistent manager lists are exactly those it keeps, each
/// hash once, each as the entry for its hash.
pub proof fn lemma_entries_enumerate_orders(mgr: OrderManager)
    requires
        mgr.wf(),
    ensures
        enumerates(mgr.entries(), mgr@),
{
}

/// Filtering twice is filtering by both predicates.
pub proof fn lemma_filter_filter(e: Seq<Order>, p: spec_fn(Order) -> bool, q: spec_fn(Order) -> bool)
    ensures
        e.filter(p).filter(q) == e.filter(|x: Order| p(x) && q(x)),
    decreases e.len(),
{
    reveal(Seq::filter);
    if e.len() > 0 {
        lemma_filter_filter(e.drop_last(), p, q);
        let x = e.last();
        e.drop_last().filter(p).lemma_filter_push(x, q);
    }
}

/// The order is in `market`, or any market where none is given.
pub open spec fn in_market(market: Option<Seq<char>>, o: Order) -> bool {
    match market {
        Some(m) => o.market@ == m,
        None => true,
    }
}

/// The market a filter names, as text.
pub open spec fn filter_market(f: OrderFilter) -> Option<Seq<char>> {
    match f.market {
        Some(m) => Some(m@),
        None => None,
    }
}

/// The open orders of a market (those with status `Open` or `Partial`) are
/// the active orders of that market, in the same order.
pub proof fn lemma_open_orders_are_active_in_market(e: Seq<Order>, f: OrderFilter)
    requires
        f.status is Some,
        f.status->0@ == seq![OrderStatus::Open, OrderStatus::Partial],
    ensures
        e.filter(|o: Order| accepts(f, o)) == active_orders(e).filter(
            |o: Order| in_market(filter_market(f), o),
        ),
{
    let p = |o: Order| status_active(o.status);
    let q = |o: Order| in_market(filter_market(f), o);
    lemma_filter_filter(e, p, q);
    assert forall|o: Order| e.contains(o) implies accepts(f, o) == (p(o) && q(o)) by {
        let v = f.status->0@;
        if v.contains(o.status) {
            let k = choose|k: int| 0 <= k < v.len() && v[k] == o.status;
        }
        if status_active(o.status) {
            if o.status == OrderStatus::Open {
                assert(v[0] == o.status);
            } else {
                assert(v[1] == o.status);
            }
        }
    }
    lemma_filter_same_on_members(e, |o: Order| accepts(f, o), |x: Order| p(x) && q(x));
    assert(active_orders(e) == e.filter(p));
}

/// The order lifecycle: a status change is allowed exactly when the order
/// is still active (open or partially filled) and the new status is not
/// `Open` or `Rejected`; so an open or partial order may become partially
/// filled, filled, cancelled or expired.
pub proof fn lemma_transitions_of_active_orders(from: OrderStatus, to: OrderStatus)
    ensures
        valid_transition(from, to) <==> (status_active(from) && to != OrderStatus::Open && to
            != OrderStatus::Rejected),
        status_active(from) ==> valid_transition(from, OrderStatus::Partial) && valid_transition(
            from,
            OrderStatus::Filled,
        ) && valid_transition(from, OrderStatus::Cancelled) && valid_transition(
            from,
            OrderStatus::Expired,
        ),
{
}

/// Sorting compares the field asked for: creation time, update time, price
/// (absent prices first) or size, each in its own order.
pub proof fn lemma_sort_key_is_the_field(field: OrderSortField, a: Order, b: Order)
    ensures
        field == OrderSortField::CreatedAt ==> (key_le(field, a, b) <==> ts_le(a.created_at, b.created_at)),
        field == OrderSortField::UpdatedAt ==> (key_le(field, a, b) <==> ts_le(a.updated_at, b.updated_at)),
        field == OrderSortField::Price ==> (key_le(field, a, b) <==> match (a.price, b.price) {
            (None, _) => true,
            (Some(_), None) => false,
            (Some(x), Some(y)) => value_le(x.mant(), x.exp(), y.mant(), y.exp()),
        }),
        field == OrderSortField::Size ==> (key_le(field, a, b) <==> value_le(
            a.size.mant(),
            a.size.exp(),
            b.size.mant(),
            b.size.exp(),
        )),
{
}

/// Orders sorted by a field come in the order of that field's values:
/// ascending, or descending where asked.
pub proof fn lemma_sorted_orders_follow_the_field(s: Seq<Order>, field: OrderSortField, desc: bool, i: int, j: int)
    requires
        sorted_orders(s, field, desc),
        0 <= i < j < s.len(),
    ensures
        field == OrderSortField::UpdatedAt && !desc ==> ts_le(s[i].updated_at, s[j].updated_at),
        field == OrderSortField::UpdatedAt && desc ==> ts_le(s[j].updated_at, s[i].updated_at),
        field == OrderSortField::CreatedAt && !desc ==> ts_le(s[i].created_at, s[j].created_at),
        field == OrderSortField::CreatedAt && desc ==> ts_le(s[j].created_at, s[i].created_at),
        field == OrderSortField::Size && !desc ==> value_le(
            s[i].size.mant(),
            s[i].size.exp(),
            s[j].size.mant(),
            s[j].size.exp(),
        ),
        field == OrderSortField::Size && desc ==> value_le(
            s[j].size.mant(),
            s[j].size.exp(),
            s[i].size.mant(),
            s[i].size.exp(),
        ),
{
    assert(sort_le(field, desc, s[i], s[j]));
}

} // verus!
