//! The exchange's own vocabulary, as its API models name it: order sides,
//! time-in-force and order types, order states, and the messages of the
//! account stream.  The library maps between these and its own types.
use crate::json::Json;
use vstd::prelude::*;

verus! {

/// Side of an order, as the exchange names it.
#[derive(Debug, Clone, Copy, PartialEq, Eq, Structural)]
pub enum ApiOrderSide {
    Long,
    Short,
    Unspecified,
}

/// The name the exchange gives an order side on the wire.
pub open spec fn api_side_name(s: ApiOrderSide) -> Seq<char> {
    match s {
        ApiOrderSide::Long => "LONG"@,
        ApiOrderSide::Short => "SHORT"@,
        ApiOrderSide::Unspecified => "UNSPECIFIED"@,
    }
}

/// Side of a trade, as the exchange names it.
#[derive(Debug, Clone, Copy, PartialEq, Eq, Structural)]
pub enum ApiTradeSide {
    Long,
    Short,
    Unspecified,
}

/// Time-in-force, as the exchange names it (`Gtt`: good til time).
#[derive(Debug, Clone, Copy, PartialEq, Eq, Structural)]
pub enum ApiTimeInForce {
    Gtt,
    Ioc,
    Fok,
    Unspecified,
}

/// Order type, as the exchange names it.
#[derive(Debug, Clone, Copy, PartialEq, Eq, Structural)]
pub enum ApiOrderType {
    Limit,
    Market,
    StopLimit,
    StopMarket,
    Liquidation,
    StopLossMarket,
    TakeProfitMarket,
    StopLossLimit,
    TakeProfitLimit,
    BankruptcyLiquidation,
    TimeWeightedAveragePrice,
    Adl,
    Unspecified,
}

/// Order state, as the exchange names it.
#[derive(Debug, Clone, Copy, PartialEq, Eq, Structural)]
pub enum ApiOrderStatus {
    Standby,
    Open,
    PartiallyFilledOpen,
    PartiallyFilledCanceled,
    Filled,
    Cancelled,
    Expired,
    PartiallyFilledExpired,
    Unspecified,
}

/// Self-trade prevention, as the exchange names it.
#[derive(Debug, Clone, Copy, PartialEq, Eq, Structural)]
pub enum ApiSelfTradePrevention {
    Taker,
    Maker,
    Both,
    Unspecified,
}

/// An order's state as the account stream reports it.
#[derive(Debug)]
pub struct ActiveUpdate {
    pub order_hash: String,
    pub client_order_id: Option<String>,
    pub symbol: String,
    pub price_e9: String,
    pub quantity_e9: String,
    pub filled_quantity_e9: String,
    pub side: ApiTradeSide,
    pub order_type: ApiOrderType,
    pub reduce_only: bool,
    pub post_only: bool,
    pub time_in_force: ApiTimeInForce,
    pub status: ApiOrderStatus,
    pub created_at_millis: i64,
    pub updated_at_millis: i64,
}

/// A cancellation as the account stream reports it.
#[derive(Debug)]
pub struct CancellationUpdate {
    pub order_hash: String,
    pub client_order_id: Option<String>,
    pub symbol: String,
    pub created_at_millis: i64,
    pub remaining_quantity_e9: String,
}

/// A trade of the account, as the account stream reports it.
#[derive(Debug)]
pub struct ApiTrade {
    pub id: String,
    pub symbol: Option<String>,
    pub order_hash: Option<String>,
    pub side: ApiTradeSide,
    pub price_e9: String,
    pub quantity_e9: String,
    pub trading_fee_e9: Option<String>,
    pub trading_fee_asset: Option<String>,
    pub executed_at_millis: i64,
}

/// One asset of an account update.
#[derive(Debug)]
pub struct ApiAsset {
    pub symbol: String,
    pub max_withdraw_quantity_e9: String,
}

/// An order update: the order's state, or its cancellation.
#[derive(Debug)]
pub enum ApiOrderUpdate {
    Active(ActiveUpdate),
    Cancellation(CancellationUpdate),
}

/// The payload of an account stream message.
#[derive(Debug)]
pub enum AccountPayload {
    AccountUpdate(Vec<ApiAsset>),
    TradeUpdate(ApiTrade),
    AggregatedTradeUpdate,
    OrderUpdate(ApiOrderUpdate),
    TransactionUpdate,
    PositionUpdate,
    CommandFailureUpdate,
}

/// A message of the account stream: its kind, named by its `event` tag, and
/// its payload.  A position update carries its payload as JSON, whatever its
/// shape.
#[derive(Debug)]
pub enum AccountMessage {
    AggregatedTradeUpdate(AccountPayload),
    CommandFailureUpdate(AccountPayload),
    OrderUpdate(AccountPayload),
    PositionUpdate(Json),
    TradeUpdate(AccountPayload),
    TransactionUpdate(AccountPayload),
    AccountUpdate(AccountPayload),
}

} // verus!
