//! Decoding account stream messages with the exchange's own models
//! (`bluefin_api`), converted field by field into the library's message types.
use crate::api::{
    AccountMessage, AccountPayload, ActiveUpdate, ApiAsset, ApiOrderStatus, ApiOrderType,
    ApiOrderUpdate, ApiTimeInForce, ApiTrade, ApiTradeSide, CancellationUpdate,
};
use crate::json::{Json, JsonNumber, JsonView};
use bluefin_api::models as sdk;
use bluefin_api::models::AccountStreamMessage as SdkMessage;
use bluefin_api::models::AccountStreamMessagePayload as SdkPayload;
use bluefin_api::models::OrderStatus as SdkStatus;
use bluefin_api::models::OrderType as SdkType;
use serde_json::Value;
use vstd::prelude::*;

verus! {

#[verifier::external_type_specification]
#[verifier::external_body]
pub struct ExValue(serde_json::Value);

#[verifier::external_type_specification]
#[verifier::external_body]
pub struct ExSdkAccountStreamMessage(bluefin_api::models::AccountStreamMessage);

#[verifier::external_type_specification]
#[verifier::external_body]
pub struct ExSdkAccountStreamMessagePayload(bluefin_api::models::AccountStreamMessagePayload);

#[verifier::external_type_specification]
#[verifier::external_body]
pub struct ExSdkActiveOrderUpdate(bluefin_api::models::ActiveOrderUpdate);

#[verifier::external_type_specification]
#[verifier::external_body]
pub struct ExSdkOrderCancellationUpdate(bluefin_api::models::OrderCancellationUpdate);

#[verifier::external_type_specification]
#[verifier::external_body]
pub struct ExSdkAccountTradeUpdate(bluefin_api::models::AccountTradeUpdate);

#[verifier::external_type_specification]
#[verifier::external_body]
pub struct ExSdkTradeSide(bluefin_api::models::TradeSide);

#[verifier::external_type_specification]
#[verifier::external_body]
pub struct ExSdkOrderTimeInForce(bluefin_api::models::OrderTimeInForce);

/// The `serde_json` value of a JSON value (conversion, node for node).
#[verifier::external_body]
fn serde_value(j: &Json) -> Value {
    match j {
        Json::Null => Value::Null,
        Json::Bool(b) => Value::Bool(*b),
        Json::Number(n) => match (n.as_i64, n.as_u64) {
            (Some(i), _) => Value::from(i),
            (None, Some(u)) => Value::from(u),
            (None, None) => serde_json::from_str(&n.float_text).unwrap_or(Value::Null),
        },
        Json::String(s) => Value::String(s.clone()),
        Json::Array(a) => Value::Array(a.iter().map(serde_value).collect()),
        Json::Object(o) => Value::Object(o.iter().map(|(k, v)| (k.clone(), serde_value(v))).collect()),
    }
}

/// The JSON value of a `serde_json` value (conversion, node for node).
#[verifier::external_body]
fn json_of(v: &Value) -> Json {
    match v {
        Value::Null => Json::Null,
        Value::Bool(b) => Json::Bool(*b),
        Value::Number(n) => Json::Number(JsonNumber {
            as_i64: n.as_i64(),
            as_u64: n.as_u64(),
            float_text: n.as_f64().map(|f| f.to_string()).unwrap_or_default(),
        }),
        Value::String(s) => Json::String(s.clone()),
        Value::Array(a) => Json::Array(a.iter().map(json_of).collect()),
        Value::Object(o) => Json::Object(o.iter().map(|(k, v)| (k.clone(), json_of(v))).collect()),
    }
}

/// The library's name of a trade side (conversion).
#[verifier::external_body]
fn trade_side_of(s: sdk::TradeSide) -> ApiTradeSide {
    match s {
        sdk::TradeSide::Long => ApiTradeSide::Long,
        sdk::TradeSide::Short => ApiTradeSide::Short,
        sdk::TradeSide::Unspecified => ApiTradeSide::Unspecified,
    }
}

/// The library's name of a time-in-force (conversion).
#[verifier::external_body]
fn time_in_force_of(t: sdk::OrderTimeInForce) -> ApiTimeInForce {
    match t {
        sdk::OrderTimeInForce::Gtt => ApiTimeInForce::Gtt,
        sdk::OrderTimeInForce::Ioc => ApiTimeInForce::Ioc,
        sdk::OrderTimeInForce::Fok => ApiTimeInForce::Fok,
        sdk::OrderTimeInForce::Unspecified => ApiTimeInForce::Unspecified,
    }
}

/// The library's name of an update's order type (conversion).  The field is
/// named `type` in the model; it is read through the model's own serialization.
#[verifier::external_body]
fn order_type_of(u: &sdk::ActiveOrderUpdate) -> ApiOrderType {
    let v = serde_json::to_value(u).unwrap_or_default();
    match serde_json::from_value(v["type"].clone()).unwrap_or(SdkType::Unspecified) {
        SdkType::Limit => ApiOrderType::Limit, SdkType::Market => ApiOrderType::Market,
        SdkType::StopLimit => ApiOrderType::StopLimit, SdkType::StopMarket => ApiOrderType::StopMarket,
        SdkType::Liquidation => ApiOrderType::Liquidation, SdkType::StopLossMarket => ApiOrderType::StopLossMarket,
        SdkType::TakeProfitMarket => ApiOrderType::TakeProfitMarket, SdkType::StopLossLimit => ApiOrderType::StopLossLimit,
        SdkType::TakeProfitLimit => ApiOrderType::TakeProfitLimit, SdkType::BankruptcyLiquidation => ApiOrderType::BankruptcyLiquidation,
        SdkType::TimeWeightedAveragePrice => ApiOrderType::TimeWeightedAveragePrice, SdkType::Adl => ApiOrderType::Adl,
        SdkType::Unspecified => ApiOrderType::Unspecified,
    }
}

/// The library's name of an update's order status (conversion).
#[verifier::external_body]
fn order_status_of(u: &sdk::ActiveOrderUpdate) -> ApiOrderStatus {
    match u.status {
        SdkStatus::Standby => ApiOrderStatus::Standby, SdkStatus::Open => ApiOrderStatus::Open,
        SdkStatus::PartiallyFilledOpen => ApiOrderStatus::PartiallyFilledOpen,
        SdkStatus::PartiallyFilledCanceled => ApiOrderStatus::PartiallyFilledCanceled,
        SdkStatus::Filled => ApiOrderStatus::Filled, SdkStatus::Cancelled => ApiOrderStatus::Cancelled,
        SdkStatus::Expired => ApiOrderStatus::Expired,
        SdkStatus::PartiallyFilledExpired => ApiOrderStatus::PartiallyFilledExpired,
        SdkStatus::Unspecified => ApiOrderStatus::Unspecified,
    }
}

/// The library's active order update (conversion, field by field).
#[verifier::external_body]
fn active_update_of(u: sdk::ActiveOrderUpdate) -> ActiveUpdate {
    let (order_type, status) = (order_type_of(&u), order_status_of(&u));
    ActiveUpdate {
        order_hash: u.order_hash, client_order_id: u.client_order_id, symbol: u.symbol,
        price_e9: u.price_e9, quantity_e9: u.quantity_e9, filled_quantity_e9: u.filled_quantity_e9,
        side: trade_side_of(u.side), order_type, reduce_only: u.reduce_only, post_only: u.post_only,
        time_in_force: time_in_force_of(u.time_in_force), status,
        created_at_millis: u.created_at_millis, updated_at_millis: u.updated_at_millis,
    }
}

/// The library's cancellation update (conversion, field by field).
#[verifier::external_body]
fn cancellation_of(u: sdk::OrderCancellationUpdate) -> CancellationUpdate {
    CancellationUpdate {
        order_hash: u.order_hash,
        client_order_id: u.client_order_id,
        symbol: u.symbol,
        created_at_millis: u.created_at_millis,
        remaining_quantity_e9: u.remaining_quantity_e9,
    }
}

/// The library's trade of a trade update (conversion, field by field).
#[verifier::external_body]
fn trade_of(u: sdk::AccountTradeUpdate) -> ApiTrade {
    let t = u.trade;
    ApiTrade {
        id: t.id, symbol: t.symbol, order_hash: t.order_hash, side: trade_side_of(t.side),
        price_e9: t.price_e9, quantity_e9: t.quantity_e9, trading_fee_e9: t.trading_fee_e9,
        trading_fee_asset: t.trading_fee_asset, executed_at_millis: t.executed_at_millis,
    }
}

/// The library's payload (conversion, variant for variant).
#[verifier::external_body]
fn payload_of(p: sdk::AccountStreamMessagePayload) -> AccountPayload {
    match p {
        SdkPayload::AccountUpdate(u) => AccountPayload::AccountUpdate(u.assets.into_iter()
            .map(|a| ApiAsset { symbol: a.symbol, max_withdraw_quantity_e9: a.max_withdraw_quantity_e9 }).collect()),
        SdkPayload::AccountTradeUpdate(u) => AccountPayload::TradeUpdate(trade_of(u)),
        SdkPayload::AccountAggregatedTradeUpdate(_) => AccountPayload::AggregatedTradeUpdate,
        SdkPayload::AccountOrderUpdate(sdk::AccountOrderUpdate::ActiveOrderUpdate(a)) =>
            AccountPayload::OrderUpdate(ApiOrderUpdate::Active(active_update_of(a))),
        SdkPayload::AccountOrderUpdate(sdk::AccountOrderUpdate::OrderCancellationUpdate(c)) =>
            AccountPayload::OrderUpdate(ApiOrderUpdate::Cancellation(cancellation_of(c))),
        SdkPayload::AccountTransactionUpdate(_) => AccountPayload::TransactionUpdate,
        SdkPayload::AccountPositionUpdate(_) => AccountPayload::PositionUpdate,
        SdkPayload::AccountCommandFailureUpdate(_) => AccountPayload::CommandFailureUpdate,
    }
}

/// The library's message (conversion, variant for variant); a position update
/// keeps its payload as JSON, as `serde_json::to_value` gives it.
#[verifier::external_body]
fn message_of(m: sdk::AccountStreamMessage) -> Result<AccountMessage, String> {
    Ok(match m {
        SdkMessage::AccountAggregatedTradeUpdate { payload: p, .. } => AccountMessage::AggregatedTradeUpdate(payload_of(p)),
        SdkMessage::AccountCommandFailureUpdate { payload: p, .. } => AccountMessage::CommandFailureUpdate(payload_of(p)),
        SdkMessage::AccountOrderUpdate { payload: p, .. } => AccountMessage::OrderUpdate(payload_of(p)),
        SdkMessage::AccountPositionUpdate { payload: p, .. } =>
            AccountMessage::PositionUpdate(json_of(&serde_json::to_value(&p).map_err(|e| e.to_string())?)),
        SdkMessage::AccountTradeUpdate { payload: p, .. } => AccountMessage::TradeUpdate(payload_of(p)),
        SdkMessage::AccountTransactionUpdate { payload: p, .. } => AccountMessage::TransactionUpdate(payload_of(p)),
        SdkMessage::AccountUpdate { payload: p, .. } => AccountMessage::AccountUpdate(payload_of(p)),
    })
}

/// What decoding a JSON value as the exchange's account stream message gives:
/// `serde_json::from_value::<bluefin_api::models::AccountStreamMessage>`, then
/// for a position update `serde_json::to_value` of its payload; the message,
/// or the text of the error.
pub uninterp spec fn sdk_account_message(v: JsonView) -> Result<AccountMessage, Seq<char>>;

/// `serde_json::from_value::<bluefin_api::models::AccountStreamMessage>` on a
/// JSON value, converted into the library's message; an error gives its text.
/// The contract names the result and says nothing more of it.
#[verifier::external_body]
pub(crate) fn decode_account_message(value: &Json) -> (r: Result<AccountMessage, String>)
    ensures
        match sdk_account_message(value@) {
            Ok(m) => r == Ok::<AccountMessage, String>(m),
            Err(e) => r is Err && r->Err_0@ == e,
        },
{
    match serde_json::from_value::<sdk::AccountStreamMessage>(serde_value(value)) {
        Ok(m) => message_of(m),
        Err(e) => Err(e.to_string()),
    }
}

} // verus!
