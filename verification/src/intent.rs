//! Strategy intents: what a strategy wants, before exchange constraints apply.
use crate::decimal::Decimal;
use crate::event::MarketEvent;
use crate::order::{OrderType, Side, TimeInForce};
use crate::time::Timestamp;
use vstd::prelude::*;

verus! {

/// Price of an intent.
#[derive(Debug, Clone, Copy)]
pub enum IntentPriceSpec {
    /// An absolute price.
    Absolute(Decimal),
    /// An offset from the last price, in basis points.
    OffsetBps(i64),
    /// The market price (no limit).
    Market,
}

/// Size of an intent.
#[derive(Debug, Clone, Copy)]
pub enum IntentSizeSpec {
    /// An absolute quantity.
    Quantity(Decimal),
}

/// Intent emitted by a strategy.
#[derive(Debug, Clone)]
pub struct Intent {
    pub intent_id: String,
    pub strategy_id: String,
    pub market: String,
    pub side: Side,
    pub order_type: OrderType,
    pub price_spec: IntentPriceSpec,
    pub size_spec: IntentSizeSpec,
    pub time_in_force: TimeInForce,
    pub post_only: bool,
    pub reduce_only: bool,
    pub cancel_after_ms: Option<u64>,
    pub tags: Vec<String>,
    pub created_at: Timestamp,
}

/// Context handed to strategies.
#[derive(Debug, Clone, Copy)]
pub struct StrategyContext {
    pub now: Timestamp,
}

/// An event-driven strategy, for users of the library to implement.
pub trait Strategy {
    fn strategy_id(&self) -> &str;

    fn on_event(&mut self, ctx: &StrategyContext, event: MarketEvent) -> Vec<Intent>;
}

} // verus!
