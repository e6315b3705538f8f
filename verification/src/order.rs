//! Order domain types.
use crate::decimal::{rd_checked_sub, Decimal};
use crate::time::Timestamp;
use vstd::prelude::*;

verus! {

/// Order side (buy or sell).
#[derive(Clone, Copy, Debug, PartialEq, Eq, Structural)]
pub enum Side {
    Buy,
    Sell,
}

/// Order type.
#[derive(Clone, Copy, Debug, PartialEq, Eq, Structural)]
pub enum OrderType {
    Limit,
    Market,
}

/// Time-in-force of an order.
#[derive(Clone, Copy, Debug, PartialEq, Eq, Structural)]
pub enum TimeInForce {
    /// Good-til-cancel: active until filled or cancelled.
    Gtc,
    /// Immediate-or-cancel: fill immediately, cancel the unfilled portion.
    Ioc,
    /// Fill-or-kill: fill entirely at once or cancel entirely.
    Fok,
}

impl Default for TimeInForce {
    fn default() -> (t: TimeInForce)
        ensures
            t == TimeInForce::Gtc,
    {
        TimeInForce::Gtc
    }
}

/// Order status.
#[derive(Clone, Copy, Debug, PartialEq, Eq, Structural)]
pub enum OrderStatus {
    /// Open and active.
    Open,
    /// Partially filled.
    Partial,
    /// Completely filled.
    Filled,
    /// Cancelled.
    Cancelled,
    /// Expired.
    Expired,
    /// Rejected.
    Rejected,
}

/// An order with this status is still active.
pub open spec fn status_active(s: OrderStatus) -> bool {
    s == OrderStatus::Open || s == OrderStatus::Partial
}

/// An order with this status expects no more updates.
pub open spec fn status_terminal(s: OrderStatus) -> bool {
    s == OrderStatus::Filled || s == OrderStatus::Cancelled || s == OrderStatus::Expired || s
        == OrderStatus::Rejected
}

impl Side {
    /// The text written for the side: `BUY` or `SELL`.
    pub fn display_text(&self) -> (s: &'static str)
        ensures
            s@ == (match *self {
                Side::Buy => "BUY"@,
                Side::Sell => "SELL"@,
            }),
    {
        match self {
            Side::Buy => "BUY",
            Side::Sell => "SELL",
        }
    }
}

impl TimeInForce {
    /// The text written for the time-in-force: `GTC`, `IOC` or `FOK`.
    pub fn display_text(&self) -> (s: &'static str)
        ensures
            s@ == (match *self {
                TimeInForce::Gtc => "GTC"@,
                TimeInForce::Ioc => "IOC"@,
                TimeInForce::Fok => "FOK"@,
            }),
    {
        match self {
            TimeInForce::Gtc => "GTC",
            TimeInForce::Ioc => "IOC",
            TimeInForce::Fok => "FOK",
        }
    }
}

/// The lower-case name of a status.
pub open spec fn status_text(s: OrderStatus) -> Seq<char> {
    match s {
        OrderStatus::Open => "open"@,
        OrderStatus::Partial => "partial"@,
        OrderStatus::Filled => "filled"@,
        OrderStatus::Cancelled => "cancelled"@,
        OrderStatus::Expired => "expired"@,
        OrderStatus::Rejected => "rejected"@,
    }
}

impl OrderStatus {
    /// The text written for the status, in lower case.
    pub fn display_text(&self) -> (s: &'static str)
        ensures
            s@ == status_text(*self),
    {
        match self {
            OrderStatus::Open => "open",
            OrderStatus::Partial => "partial",
            OrderStatus::Filled => "filled",
            OrderStatus::Cancelled => "cancelled",
            OrderStatus::Expired => "expired",
            OrderStatus::Rejected => "rejected",
        }
    }
}

/// A copy of an optional string.
pub fn clone_opt_string(s: &Option<String>) -> (r: Option<String>)
    ensures
        r == *s,
{
    match s {
        Some(x) => Some(x.clone()),
        None => None,
    }
}

/// A copy of a list of strings.
pub fn clone_strings(v: &Vec<String>) -> (r: Vec<String>)
    ensures
        r@ == v@,
{
    let r = v.clone();
    assert(r@ =~= v@) by {
        assert forall|i: int| 0 <= i < v.len() implies r@[i] == v@[i] by {
            assert(cloned::<String>(v[i], r[i]));
        }
    }
    r
}

/// Request to create a new order.
#[derive(Debug)]
pub struct OrderRequest {
    pub market: String,
    pub side: Side,
    pub order_type: OrderType,
    pub price: Option<Decimal>,
    pub size: Decimal,
    pub time_in_force: TimeInForce,
    pub reduce_only: bool,
    pub post_only: bool,
    pub client_order_id: Option<String>,
}

impl Clone for OrderRequest {
    fn clone(&self) -> (r: Self)
        ensures
            r == *self,
    {
        OrderRequest {
            market: self.market.clone(),
            side: self.side,
            order_type: self.order_type,
            price: self.price,
            size: self.size,
            time_in_force: self.time_in_force,
            reduce_only: self.reduce_only,
            post_only: self.post_only,
            client_order_id: clone_opt_string(&self.client_order_id),
        }
    }
}

impl OrderRequest {
    /// A good-til-cancel limit order.
    pub fn limit(market: &str, side: Side, price: Decimal, size: Decimal) -> (r: Self)
        ensures
            r.market@ == market@,
            r.side == side,
            r.order_type == OrderType::Limit,
            r.price == Some(price),
            r.size == size,
            r.time_in_force == TimeInForce::Gtc,
            !r.reduce_only,
            !r.post_only,
            r.client_order_id is None,
    {
        OrderRequest {
            market: market.to_owned(),
            side,
            order_type: OrderType::Limit,
            price: Some(price),
            size,
            time_in_force: TimeInForce::Gtc,
            reduce_only: false,
            post_only: false,
            client_order_id: None,
        }
    }

    /// An immediate-or-cancel market order, without a price.
    pub fn market(market: &str, side: Side, size: Decimal) -> (r: Self)
        ensures
            r.market@ == market@,
            r.side == side,
            r.order_type == OrderType::Market,
            r.price is None,
            r.size == size,
            r.time_in_force == TimeInForce::Ioc,
            !r.reduce_only,
            !r.post_only,
            r.client_order_id is None,
    {
        OrderRequest {
            market: market.to_owned(),
            side,
            order_type: OrderType::Market,
            price: None,
            size,
            time_in_force: TimeInForce::Ioc,
            reduce_only: false,
            post_only: false,
            client_order_id: None,
        }
    }

    pub fn with_time_in_force(self, tif: TimeInForce) -> (r: Self)
        ensures
            r == (OrderRequest { time_in_force: tif, ..self }),
    {
        let mut s = self;
        s.time_in_force = tif;
        s
    }

    pub fn with_reduce_only(self, reduce_only: bool) -> (r: Self)
        ensures
            r == (OrderRequest { reduce_only, ..self }),
    {
        let mut s = self;
        s.reduce_only = reduce_only;
        s
    }

    pub fn with_post_only(self, post_only: bool) -> (r: Self)
        ensures
            r == (OrderRequest { post_only, ..self }),
    {
        let mut s = self;
        s.post_only = post_only;
        s
    }

    pub fn with_client_order_id(self, id: &str) -> (r: Self)
        ensures
            r.client_order_id is Some,
            r.client_order_id->0@ == id@,
            r == (OrderRequest { client_order_id: r.client_order_id, ..self }),
    {
        let mut s = self;
        s.client_order_id = Some(id.to_owned());
        s
    }
}

/// Current state of an order.
#[derive(Debug)]
pub struct Order {
    pub order_hash: String,
    pub market: String,
    pub side: Side,
    pub order_type: OrderType,
    pub price: Option<Decimal>,
    pub size: Decimal,
    pub filled_size: Decimal,
    pub status: OrderStatus,
    pub time_in_force: TimeInForce,
    pub reduce_only: bool,
    pub post_only: bool,
    pub client_order_id: Option<String>,
    pub created_at: Timestamp,
    pub updated_at: Timestamp,
}

impl Clone for Order {
    fn clone(&self) -> (r: Self)
        ensures
            r == *self,
    {
        Order {
            order_hash: self.order_hash.clone(),
            market: self.market.clone(),
            side: self.side,
            order_type: self.order_type,
            price: self.price,
            size: self.size,
            filled_size: self.filled_size,
            status: self.status,
            time_in_force: self.time_in_force,
            reduce_only: self.reduce_only,
            post_only: self.post_only,
            client_order_id: clone_opt_string(&self.client_order_id),
            created_at: self.created_at,
            updated_at: self.updated_at,
        }
    }
}

impl Order {
    /// `size - filled_size` does not overflow.
    pub open spec fn remaining_defined(self) -> bool {
        rd_checked_sub(
            self.size.mant(),
            self.size.exp() as int,
            self.filled_size.mant(),
            self.filled_size.exp() as int,
        ) is Some
    }

    /// The unfilled size, `size - filled_size`.
    pub fn remaining_size(&self) -> (d: Decimal)
        requires
            self.remaining_defined(),
        ensures
            d.has_parts(
                rd_checked_sub(
                    self.size.mant(),
                    self.size.exp() as int,
                    self.filled_size.mant(),
                    self.filled_size.exp() as int,
                )->0,
            ),
    {
        self.size.sub(&self.filled_size)
    }

    /// The unfilled size, or `None` where `size - filled_size` overflows.
    pub fn checked_remaining_size(&self) -> (d: Option<Decimal>)
        ensures
            d is Some <==> self.remaining_defined(),
            d is Some ==> d->0.has_parts(
                rd_checked_sub(
                    self.size.mant(),
                    self.size.exp() as int,
                    self.filled_size.mant(),
                    self.filled_size.exp() as int,
                )->0,
            ),
    {
        match self.size.checked_sub(&self.filled_size) {
            Some(_) => Some(self.remaining_size()),
            None => None,
        }
    }

    /// The order is still active (open or partially filled).
    pub fn is_active(&self) -> (b: bool)
        ensures
            b == status_active(self.status),
    {
        match self.status {
            OrderStatus::Open | OrderStatus::Partial => true,
            _ => false,
        }
    }

    /// The order is terminal (filled, cancelled, expired or rejected).
    pub fn is_terminal(&self) -> (b: bool)
        ensures
            b == status_terminal(self.status),
    {
        match self.status {
            OrderStatus::Filled | OrderStatus::Cancelled | OrderStatus::Expired
            | OrderStatus::Rejected => true,
            _ => false,
        }
    }
}

/// Request to cancel orders.
#[derive(Debug, Clone)]
pub enum CancelRequest {
    /// A single order by hash.
    Single { market: String, order_hash: String },
    /// Several orders by hash.
    Batch { market: String, order_hashes: Vec<String> },
    /// All orders of a market.
    AllForMarket { market: String },
}

/// Acknowledgement of a cancel request.
#[derive(Debug, Clone)]
pub enum CancelAck {
    Single { market: String, order_hash: String },
    Batch { market: String, order_hashes: Vec<String> },
    AllForMarket { market: String },
}

impl CancelAck {
    /// The hashes of the orders the acknowledgement names (none for a whole
    /// market).
    pub fn order_hashes(&self) -> (r: Vec<String>)
        ensures
            match *self {
                CancelAck::Single { order_hash, .. } => r@ == seq![order_hash],
                CancelAck::Batch { order_hashes, .. } => r@ == order_hashes@,
                CancelAck::AllForMarket { .. } => r@.len() == 0,
            },
    {
        match self {
            CancelAck::Single { order_hash, .. } => {
                let mut v: Vec<String> = Vec::new();
                v.push(order_hash.clone());
                v
            },
            CancelAck::Batch { order_hashes, .. } => clone_strings(order_hashes),
            CancelAck::AllForMarket { .. } => Vec::new(),
        }
    }
}


/// Every status is active or terminal, never both.
pub proof fn lemma_active_xor_terminal(s: OrderStatus)
    ensures
        status_active(s) != status_terminal(s),
{
}

} // verus!
