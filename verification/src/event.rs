//! Events received from the streams.
use crate::balance::Balance;
use crate::fill::Fill;
use crate::json::Json;
use crate::order::Order;
use crate::time::Timestamp;
use vstd::prelude::*;

verus! {

/// Account stream events.
#[derive(Debug, Clone)]
pub enum AccountEvent {
    OrderUpdate(OrderUpdateEvent),
    PositionUpdate(PositionUpdateEvent),
    BalanceUpdate(BalanceUpdateEvent),
    TradeUpdate(TradeUpdateEvent),
}

/// An order was created, updated or cancelled.
#[derive(Debug, Clone)]
pub struct OrderUpdateEvent {
    pub order: Order,
    pub received_at: Timestamp,
}

#[derive(Debug, Clone)]
pub struct PositionUpdateEvent {
    pub market: String,
    pub payload: Json,
    pub received_at: Timestamp,
}

#[derive(Debug, Clone)]
pub struct BalanceUpdateEvent {
    pub balance: Balance,
    pub received_at: Timestamp,
}

#[derive(Debug, Clone)]
pub struct TradeUpdateEvent {
    pub fill: Fill,
    pub received_at: Timestamp,
}

/// Market data events.
#[derive(Debug, Clone)]
pub enum MarketEvent {
    OrderBook(OrderBookEvent),
    Trade(MarketTradeEvent),
    Ticker(TickerEvent),
}

#[derive(Debug, Clone)]
pub struct OrderBookEvent {
    pub market: String,
    pub payload: Json,
    pub received_at: Timestamp,
}

#[derive(Debug, Clone)]
pub struct MarketTradeEvent {
    pub market: String,
    pub payload: Json,
    pub received_at: Timestamp,
}

#[derive(Debug, Clone)]
pub struct TickerEvent {
    pub market: String,
    pub payload: Json,
    pub received_at: Timestamp,
}

/// A raw stream message kept for storage.
#[derive(Debug, Clone)]
pub struct RawWsMessage {
    pub stream_type: String,
    pub payload: Json,
    pub received_at: Timestamp,
}

} // verus!
