//! The exchange's streams: turning account and market messages into the
//! library's events, and the connection settings of the stream client.
use crate::api::{
    AccountPayload, AccountMessage, ActiveUpdate, ApiAsset, ApiOrderStatus,
    ApiOrderType, ApiOrderUpdate, ApiTimeInForce, ApiTrade, ApiTradeSide, CancellationUpdate,
};
use crate::balance::Balance;
use crate::config::AppConfig;
use crate::decimal::{rd_checked_div, rd_from_str, Decimal};
use crate::event::{
    AccountEvent, BalanceUpdateEvent, MarketEvent, MarketTradeEvent, OrderBookEvent,
    OrderUpdateEvent, PositionUpdateEvent, TickerEvent, TradeUpdateEvent,
};
use crate::fill::Fill;
use crate::json::{json_float_text, json_get, json_i64, json_str, Json, JsonView};
use crate::order::{clone_opt_string, Order, OrderStatus, OrderType, Side, TimeInForce};
use crate::submission::time_in_force_of;
use crate::text::{contains_run, i64_text, int_text, join2, owned, str_contains};
use crate::time::{chrono_millis_ok, from_millis, millis_instant, now, Timestamp};
use crate::sdk::{decode_account_message, sdk_account_message};
use vstd::prelude::*;
use vstd::string::StrSliceExecFns;

verus! {

#[derive(Debug, Clone, PartialEq, Eq)]
pub enum WsError {
    ConnectionFailed(String),
    SendError(String),
    ReceiveError(String),
    ParseError(String),
    IoError(String),
}

/// The text of a stream error.
pub open spec fn ws_error_text(e: WsError) -> Seq<char> {
    match e {
        WsError::ConnectionFailed(m) => "Connection failed: "@ + m@,
        WsError::SendError(m) => "Send error: "@ + m@,
        WsError::ReceiveError(m) => "Receive error: "@ + m@,
        WsError::ParseError(m) => "Parse error: "@ + m@,
        WsError::IoError(m) => "IO error: "@ + m@,
    }
}

impl WsError {
    /// The text of the error.
    pub fn text(&self) -> (t: String)
        ensures
            t@ == ws_error_text(*self),
    {
        match self {
            WsError::ConnectionFailed(m) => join2("Connection failed: ", m.as_str()),
            WsError::SendError(m) => join2("Send error: ", m.as_str()),
            WsError::ReceiveError(m) => join2("Receive error: ", m.as_str()),
            WsError::ParseError(m) => join2("Parse error: ", m.as_str()),
            WsError::IoError(m) => join2("IO error: ", m.as_str()),
        }
    }
}

/// State of a stream connection.
#[derive(Debug, Clone, Copy, PartialEq, Eq, Structural)]
pub enum ConnectionState {
    Disconnected,
    Connecting,
    Connected,
    Reconnecting,
}

/// Client of the exchange's streams: where to connect and where raw messages
/// are kept.
pub struct WsClient {
    config: AppConfig,
    raw_path: String,
}

impl WsClient {
    pub closed spec fn spec_config(&self) -> AppConfig {
        self.config
    }

    pub closed spec fn spec_raw_path(&self) -> Seq<char> {
        self.raw_path@
    }

    /// A client for the configuration; raw messages go under its raw path.
    pub fn new(config: AppConfig) -> (c: Self)
        ensures
            c.spec_config() == config,
            c.spec_raw_path() == config.storage.raw_path@,
    {
        let raw_path = config.storage.raw_path.clone();
        WsClient { config, raw_path }
    }

    pub fn config(&self) -> (c: &AppConfig)
        ensures
            *c == self.spec_config(),
    {
        &self.config
    }

    pub fn raw_path(&self) -> (p: &str)
        ensures
            p@ == self.spec_raw_path(),
    {
        self.raw_path.as_str()
    }
}

/// A bare stream connection, to capture raw messages.
pub struct RawWsConnection {
    url: String,
}

impl RawWsConnection {
    pub closed spec fn spec_url(&self) -> Seq<char> {
        self.url@
    }

    pub fn new(url: &str) -> (c: Self)
        ensures
            c.spec_url() == url@,
    {
        RawWsConnection { url: owned(url) }
    }

    pub fn url(&self) -> (u: &str)
        ensures
            u@ == self.spec_url(),
    {
        self.url.as_str()
    }
}

/// `r` holds the text `s`, or nothing where `s` is none.
pub open spec fn text_is(r: Option<String>, s: Option<Seq<char>>) -> bool {
    match s {
        Some(x) => r is Some && r->0@ == x,
        None => r is None,
    }
}

/// An e9 quantity read as a decimal: the text parsed, then divided by 10^9.
pub open spec fn parsed_e9(raw: Seq<char>) -> Option<(int, int)> {
    match rd_from_str(raw) {
        Some(p) => rd_checked_div(p.0, p.1, 1_000_000_000, 0),
        None => None,
    }
}

/// `d` is the decimal that the e9 text `raw` stands for.
pub open spec fn is_e9_of(d: Decimal, raw: Seq<char>) -> bool {
    parsed_e9(raw) matches Some(q) && d.has_parts(q)
}

/// The decimal an e9 quantity in text stands for (`"1500000000"` is 1.5);
/// `None` where the text is no decimal number.
pub fn parse_e9_decimal(raw: &str) -> (r: Option<Decimal>)
    ensures
        r is Some <==> parsed_e9(raw@) is Some,
        r is Some ==> is_e9_of(r->0, raw@),
        rd_from_str(raw@) is Some ==> r is Some,
{
    match Decimal::parse(raw) {
        Some(v) => v.checked_div(&Decimal::from_u64(1_000_000_000u64)),
        None => None,
    }
}

/// `t` is the instant of `ms`, or `fallback` where `chrono` does not represent
/// that instant.
pub open spec fn stamped(t: Timestamp, ms: int, fallback: Timestamp) -> bool {
    t == (if chrono_millis_ok(ms) {
        millis_instant(ms)
    } else {
        fallback
    })
}

/// The instant of `ms`, or `fallback` where it is not representable.
fn instant_or(ms: i64, fallback: Timestamp) -> (t: Timestamp)
    ensures
        stamped(t, ms as int, fallback),
{
    match from_millis(ms) {
        Some(t) => t,
        None => fallback,
    }
}

pub open spec fn side_from_trade(s: ApiTradeSide) -> Option<Side> {
    match s {
        ApiTradeSide::Long => Some(Side::Buy),
        ApiTradeSide::Short => Some(Side::Sell),
        ApiTradeSide::Unspecified => None,
    }
}

/// Market-like order types are market orders; all others are limit orders.
pub open spec fn order_type_from_api(t: ApiOrderType) -> OrderType {
    match t {
        ApiOrderType::Market | ApiOrderType::StopMarket | ApiOrderType::StopLossMarket
        | ApiOrderType::TakeProfitMarket => OrderType::Market,
        _ => OrderType::Limit,
    }
}

pub open spec fn status_from_api(s: ApiOrderStatus) -> OrderStatus {
    match s {
        ApiOrderStatus::Open | ApiOrderStatus::Standby => OrderStatus::Open,
        ApiOrderStatus::PartiallyFilledOpen => OrderStatus::Partial,
        ApiOrderStatus::Filled => OrderStatus::Filled,
        ApiOrderStatus::Cancelled | ApiOrderStatus::PartiallyFilledCanceled => OrderStatus::Cancelled,
        ApiOrderStatus::Expired | ApiOrderStatus::PartiallyFilledExpired => OrderStatus::Expired,
        ApiOrderStatus::Unspecified => OrderStatus::Rejected,
    }
}

pub fn map_side(side: ApiTradeSide) -> (r: Option<Side>)
    ensures
        r == side_from_trade(side),
{
    match side {
        ApiTradeSide::Long => Some(Side::Buy),
        ApiTradeSide::Short => Some(Side::Sell),
        ApiTradeSide::Unspecified => None,
    }
}

/// Good-til-time and an unspecified time-in-force are good-til-cancel.
pub fn map_time_in_force(tif: ApiTimeInForce) -> (r: TimeInForce)
    ensures
        r == time_in_force_of(tif),
{
    match tif {
        ApiTimeInForce::Ioc => TimeInForce::Ioc,
        ApiTimeInForce::Fok => TimeInForce::Fok,
        ApiTimeInForce::Gtt | ApiTimeInForce::Unspecified => TimeInForce::Gtc,
    }
}

pub fn map_order_type(order_type: ApiOrderType) -> (r: OrderType)
    ensures
        r == order_type_from_api(order_type),
{
    match order_type {
        ApiOrderType::Market | ApiOrderType::StopMarket | ApiOrderType::StopLossMarket
        | ApiOrderType::TakeProfitMarket => OrderType::Market,
        _ => OrderType::Limit,
    }
}

/// A partially filled order that is still open is partial; one cancelled or
/// expired after a partial fill is cancelled or expired, since it gets no more
/// updates; an unspecified state counts as rejected.
pub fn map_order_status(status: ApiOrderStatus) -> (r: OrderStatus)
    ensures
        r == status_from_api(status),
{
    match status {
        ApiOrderStatus::Open | ApiOrderStatus::Standby => OrderStatus::Open,
        ApiOrderStatus::PartiallyFilledOpen => OrderStatus::Partial,
        ApiOrderStatus::Filled => OrderStatus::Filled,
        ApiOrderStatus::Cancelled | ApiOrderStatus::PartiallyFilledCanceled => OrderStatus::Cancelled,
        ApiOrderStatus::Expired | ApiOrderStatus::PartiallyFilledExpired => OrderStatus::Expired,
        ApiOrderStatus::Unspecified => OrderStatus::Rejected,
    }
}

/// An order update can be read: its quantities parse and its side is known.
pub open spec fn active_update_readable(u: ActiveUpdate) -> bool {
    &&& parsed_e9(u.price_e9@) is Some
    &&& parsed_e9(u.quantity_e9@) is Some
    &&& parsed_e9(u.filled_quantity_e9@) is Some
    &&& side_from_trade(u.side) is Some
}

/// The order an update reports; times that cannot be represented fall back to
/// the time of receipt.
pub open spec fn order_from_active(o: Order, u: ActiveUpdate, received_at: Timestamp) -> bool {
    &&& o.order_hash == u.order_hash
    &&& o.market == u.symbol
    &&& Some(o.side) == side_from_trade(u.side)
    &&& o.order_type == order_type_from_api(u.order_type)
    &&& o.price matches Some(p) && is_e9_of(p, u.price_e9@)
    &&& is_e9_of(o.size, u.quantity_e9@)
    &&& is_e9_of(o.filled_size, u.filled_quantity_e9@)
    &&& o.status == status_from_api(u.status)
    &&& o.time_in_force == time_in_force_of(u.time_in_force)
    &&& o.reduce_only == u.reduce_only
    &&& o.post_only == u.post_only
    &&& o.client_order_id == u.client_order_id
    &&& stamped(o.created_at, u.created_at_millis as int, received_at)
    &&& stamped(o.updated_at, u.updated_at_millis as int, received_at)
}

/// The order an order update reports, or `None` where it cannot be read.
pub fn order_from_active_update(update: &ActiveUpdate, received_at: Timestamp) -> (r: Option<
    Order,
>)
    ensures
        r is Some <==> active_update_readable(*update),
        r is Some ==> order_from_active(r->0, *update, received_at),
{
    let price = match parse_e9_decimal(update.price_e9.as_str()) {
        Some(p) => p,
        None => return None,
    };
    let size = match parse_e9_decimal(update.quantity_e9.as_str()) {
        Some(s) => s,
        None => return None,
    };
    let filled = match parse_e9_decimal(update.filled_quantity_e9.as_str()) {
        Some(f) => f,
        None => return None,
    };
    let side = match map_side(update.side) {
        Some(s) => s,
        None => return None,
    };
    Some(
        Order {
            order_hash: update.order_hash.clone(),
            market: update.symbol.clone(),
            side,
            order_type: map_order_type(update.order_type),
            price: Some(price),
            size,
            filled_size: filled,
            status: map_order_status(update.status),
            time_in_force: map_time_in_force(update.time_in_force),
            reduce_only: update.reduce_only,
            post_only: update.post_only,
            client_order_id: clone_opt_string(&update.client_order_id),
            created_at: instant_or(update.created_at_millis, received_at),
            updated_at: instant_or(update.updated_at_millis, received_at),
        },
    )
}

/// The cancelled order a cancellation reports.  A cancellation carries no
/// side, type or price: the order is a good-til-cancel limit buy without a
/// price, its size the remaining quantity and nothing filled, updated when
/// the cancellation was received.
pub open spec fn order_from_cancellation(
    o: Order,
    u: CancellationUpdate,
    received_at: Timestamp,
) -> bool {
    &&& o.order_hash == u.order_hash
    &&& o.market == u.symbol
    &&& o.side == Side::Buy
    &&& o.order_type == OrderType::Limit
    &&& o.price is None
    &&& is_e9_of(o.size, u.remaining_quantity_e9@)
    &&& o.filled_size.mant() == 0
    &&& o.status == OrderStatus::Cancelled
    &&& o.time_in_force == TimeInForce::Gtc
    &&& !o.reduce_only
    &&& !o.post_only
    &&& o.client_order_id == u.client_order_id
    &&& stamped(o.created_at, u.created_at_millis as int, received_at)
    &&& o.updated_at == received_at
}

/// The order a cancellation reports, or `None` where its remaining quantity
/// cannot be read.
pub fn order_from_cancel_update(update: &CancellationUpdate, received_at: Timestamp) -> (r:
    Option<Order>)
    ensures
        r is Some <==> parsed_e9(update.remaining_quantity_e9@) is Some,
        r is Some ==> order_from_cancellation(r->0, *update, received_at),
{
    let remaining = match parse_e9_decimal(update.remaining_quantity_e9.as_str()) {
        Some(r) => r,
        None => return None,
    };
    Some(
        Order {
            order_hash: update.order_hash.clone(),
            market: update.symbol.clone(),
            side: Side::Buy,
            order_type: OrderType::Limit,
            price: None,
            size: remaining,
            filled_size: Decimal::zero(),
            status: OrderStatus::Cancelled,
            time_in_force: TimeInForce::Gtc,
            reduce_only: false,
            post_only: false,
            client_order_id: clone_opt_string(&update.client_order_id),
            created_at: instant_or(update.created_at_millis, received_at),
            updated_at: received_at,
        },
    )
}

/// The text of an optional string, empty where there is none.
pub open spec fn text_or_empty(s: Option<String>) -> Seq<char> {
    match s {
        Some(x) => x@,
        None => seq![],
    }
}

/// A trade can be read as a fill: it names its market and order, its price
/// and quantity parse, and its side is known.
pub open spec fn trade_readable(t: ApiTrade) -> bool {
    &&& text_or_empty(t.symbol).len() > 0
    &&& text_or_empty(t.order_hash).len() > 0
    &&& parsed_e9(t.price_e9@) is Some
    &&& parsed_e9(t.quantity_e9@) is Some
    &&& side_from_trade(t.side) is Some
}

/// The fee of a trade as a mantissa/scale pair: zero where it is missing or
/// unreadable.
pub open spec fn trade_fee(t: ApiTrade) -> (int, int) {
    match t.trading_fee_e9 {
        Some(f) => match parsed_e9(f@) {
            Some(q) => q,
            None => (0, 0),
        },
        None => (0, 0),
    }
}

/// The fill a trade reports; the fee asset defaults to `USD`, and an
/// execution time that cannot be represented is replaced by the time of
/// reading.
pub open spec fn fill_from(f: Fill, t: ApiTrade) -> bool {
    &&& f.fill_id == t.id
    &&& f.order_hash@ == text_or_empty(t.order_hash)
    &&& f.market@ == text_or_empty(t.symbol)
    &&& Some(f.side) == side_from_trade(t.side)
    &&& is_e9_of(f.price, t.price_e9@)
    &&& is_e9_of(f.size, t.quantity_e9@)
    &&& f.fee.has_parts(trade_fee(t))
    &&& f.fee_asset@ == (match t.trading_fee_asset {
        Some(a) => a@,
        None => "USD"@,
    })
    &&& chrono_millis_ok(t.executed_at_millis as int) ==> f.filled_at == millis_instant(
        t.executed_at_millis as int,
    )
}

fn text_or_empty_of(s: &Option<String>) -> (r: String)
    ensures
        r@ == text_or_empty(*s),
{
    proof {
        reveal_strlit("");
    }
    match s {
        Some(x) => x.clone(),
        None => owned(""),
    }
}

/// The fill a trade reports, or `None` where it cannot be read.
pub fn fill_from_trade(trade: &ApiTrade) -> (r: Option<Fill>)
    ensures
        r is Some <==> trade_readable(*trade),
        r is Some ==> fill_from(r->0, *trade),
{
    let market = text_or_empty_of(&trade.symbol);
    let order_hash = text_or_empty_of(&trade.order_hash);
    if market.as_str().unicode_len() == 0 || order_hash.as_str().unicode_len() == 0 {
        return None;
    }
    let price = match parse_e9_decimal(trade.price_e9.as_str()) {
        Some(p) => p,
        None => return None,
    };
    let size = match parse_e9_decimal(trade.quantity_e9.as_str()) {
        Some(s) => s,
        None => return None,
    };
    let fee = match &trade.trading_fee_e9 {
        Some(v) => match parse_e9_decimal(v.as_str()) {
            Some(f) => f,
            None => Decimal::zero(),
        },
        None => Decimal::zero(),
    };
    let fee_asset = match &trade.trading_fee_asset {
        Some(a) => a.clone(),
        None => owned("USD"),
    };
    let side = match map_side(trade.side) {
        Some(s) => s,
        None => return None,
    };
    let filled_at = match from_millis(trade.executed_at_millis) {
        Some(t) => t,
        None => now(),
    };
    Some(
        Fill {
            fill_id: trade.id.clone(),
            order_hash,
            market,
            side,
            price,
            size,
            fee,
            fee_asset,
            filled_at,
        },
    )
}

/// The market a payload names: its `symbol`, or where it has none its
/// `market`, if that is a string; empty otherwise.
pub open spec fn payload_market(payload: JsonView) -> Seq<char> {
    let named = match json_get(payload, "symbol"@) {
        Some(v) => Some(v),
        None => json_get(payload, "market"@),
    };
    match named {
        Some(v) => match json_str(v) {
            Some(s) => s,
            None => seq![],
        },
        None => seq![],
    }
}

fn market_of_payload(payload: &Json) -> (m: String)
    ensures
        m@ == payload_market(payload@),
{
    proof {
        reveal_strlit("");
    }
    let named = match payload.get("symbol") {
        Some(v) => Some(v),
        None => payload.get("market"),
    };
    match named {
        Some(v) => match v.as_str() {
            Some(s) => owned(s),
            None => owned(""),
        },
        None => owned(""),
    }
}

/// The assets of an account update whose withdrawable quantity can be read,
/// in order, with that quantity.
pub open spec fn readable_assets(assets: Seq<ApiAsset>) -> Seq<(Seq<char>, (int, int))>
    decreases assets.len(),
{
    if assets.len() == 0 {
        seq![]
    } else {
        let rest = readable_assets(assets.drop_last());
        let a = assets.last();
        match parsed_e9(a.max_withdraw_quantity_e9@) {
            Some(q) => rest.push((a.symbol@, q)),
            None => rest,
        }
    }
}

/// A balance event for an asset: all of the quantity available, none locked.
pub open spec fn is_balance_event(e: AccountEvent, asset: (Seq<char>, (int, int)), t: Timestamp) -> bool {
    e matches AccountEvent::BalanceUpdate(b) && b.balance.asset@ == asset.0
        && b.balance.total.has_parts(asset.1) && b.balance.available.has_parts(asset.1)
        && b.balance.locked.mant() == 0 && b.received_at == t
}

/// The events a message of the account stream gives, received at `t`:
/// - an account update: a balance event for each readable asset;
/// - an order update: the order's update, if it can be read;
/// - a trade update: the fill, if it can be read;
/// - a position update: the position's market and payload;
/// - anything else, or a payload that does not match its kind: nothing.
pub open spec fn account_events_of(events: Seq<AccountEvent>, msg: AccountMessage, t: Timestamp) -> bool {
    match msg {
        AccountMessage::AccountUpdate(AccountPayload::AccountUpdate(assets)) => {
            let readable = readable_assets(assets@);
            &&& events.len() == readable.len()
            &&& forall|i: int| 0 <= i < events.len() ==> #[trigger] is_balance_event(events[i], readable[i], t)
        },
        AccountMessage::OrderUpdate(
            AccountPayload::OrderUpdate(ApiOrderUpdate::Active(u)),
        ) => if active_update_readable(u) {
            events.len() == 1 && (events[0] matches AccountEvent::OrderUpdate(e) && order_from_active(
                e.order,
                u,
                t,
            ) && e.received_at == t)
        } else {
            events.len() == 0
        },
        AccountMessage::OrderUpdate(
            AccountPayload::OrderUpdate(ApiOrderUpdate::Cancellation(u)),
        ) => if parsed_e9(u.remaining_quantity_e9@) is Some {
            events.len() == 1 && (events[0] matches AccountEvent::OrderUpdate(e)
                && order_from_cancellation(e.order, u, t) && e.received_at == t)
        } else {
            events.len() == 0
        },
        AccountMessage::TradeUpdate(AccountPayload::TradeUpdate(tr)) => if trade_readable(tr) {
            events.len() == 1 && (events[0] matches AccountEvent::TradeUpdate(e) && fill_from(e.fill, tr)
                && e.received_at == t)
        } else {
            events.len() == 0
        },
        AccountMessage::PositionUpdate(p) => events.len() == 1
            && (events[0] matches AccountEvent::PositionUpdate(e) && e.market@ == payload_market(p@)
            && e.payload@ == p@ && e.received_at == t),
        _ => events.len() == 0,
    }
}

proof fn lemma_readable_assets_step(assets: Seq<ApiAsset>, i: int)
    requires
        0 <= i < assets.len(),
    ensures
        readable_assets(assets.take(i + 1)) == (match parsed_e9(assets[i].max_withdraw_quantity_e9@) {
            Some(q) => readable_assets(assets.take(i)).push((assets[i].symbol@, q)),
            None => readable_assets(assets.take(i)),
        }),
{
    assert(assets.take(i + 1).drop_last() =~= assets.take(i));
}

/// The balance events of an account update.
fn balance_events(assets: &Vec<ApiAsset>, received_at: Timestamp) -> (r: Vec<AccountEvent>)
    ensures
        r.len() == readable_assets(assets@).len(),
        forall|i: int|
            0 <= i < r.len() ==> #[trigger] is_balance_event(r@[i], readable_assets(assets@)[i], received_at),
{
    let mut events: Vec<AccountEvent> = Vec::new();
    let mut i: usize = 0;
    while i < assets.len()
        invariant
            i <= assets.len(),
            events.len() == readable_assets(assets@.take(i as int)).len(),
            forall|k: int|
                0 <= k < events.len() ==> #[trigger] is_balance_event(
                    events@[k],
                    readable_assets(assets@.take(i as int))[k],
                    received_at,
                ),
        decreases assets.len() - i,
    {
        proof {
            lemma_readable_assets_step(assets@, i as int);
        }
        let asset = &assets[i];
        let parsed = parse_e9_decimal(asset.max_withdraw_quantity_e9.as_str());
        let balance = match parsed {
            Some(available) => Balance::checked_new(asset.symbol.as_str(), available, available),
            None => None,
        };
        match balance {
            Some(balance) => {
                let ghost before = events@;
                events.push(AccountEvent::BalanceUpdate(BalanceUpdateEvent { balance, received_at }));
                proof {
                    let readable = readable_assets(assets@.take(i + 1));
                    assert forall|k: int| 0 <= k < events.len() implies #[trigger] is_balance_event(
                        events@[k],
                        readable[k],
                        received_at,
                    ) by {
                        if k < before.len() {
                            assert(events@[k] == before[k]);
                        }
                    }
                }
            },
            None => {},
        }
        i = i + 1;
    }
    proof {
        assert(assets@.take(assets.len() as int) =~= assets@);
    }
    events
}

/// The events a message of the account stream gives, received at
/// `received_at`.
pub fn account_events(msg: AccountMessage, received_at: Timestamp) -> (r: Vec<AccountEvent>)
    ensures
        account_events_of(r@, msg, received_at),
{
    match msg {
        AccountMessage::AccountUpdate(AccountPayload::AccountUpdate(assets)) => {
            balance_events(&assets, received_at)
        },
        AccountMessage::OrderUpdate(AccountPayload::OrderUpdate(update)) => {
            let order = match &update {
                ApiOrderUpdate::Active(u) => order_from_active_update(u, received_at),
                ApiOrderUpdate::Cancellation(u) => order_from_cancel_update(u, received_at),
            };
            let mut events: Vec<AccountEvent> = Vec::new();
            match order {
                Some(order) => {
                    events.push(AccountEvent::OrderUpdate(OrderUpdateEvent { order, received_at }));
                },
                None => {},
            }
            events
        },
        AccountMessage::TradeUpdate(AccountPayload::TradeUpdate(trade)) => {
            let mut events: Vec<AccountEvent> = Vec::new();
            match fill_from_trade(&trade) {
                Some(fill) => {
                    events.push(AccountEvent::TradeUpdate(TradeUpdateEvent { fill, received_at }));
                },
                None => {},
            }
            events
        },
        AccountMessage::PositionUpdate(payload) => {
            let market = market_of_payload(&payload);
            let mut events: Vec<AccountEvent> = Vec::new();
            events.push(
                AccountEvent::PositionUpdate(PositionUpdateEvent { market, payload, received_at }),
            );
            events
        },
        _ => Vec::new(),
    }
}

/// The events of an account stream message given as JSON, received at
/// `received_at`: the message is decoded with the exchange's models; one
/// that does not decode is a parse error with the decoder's text.
pub fn parse_account_events(value: &Json, received_at: Timestamp) -> (r: Result<Vec<AccountEvent>, WsError>)
    ensures
        match sdk_account_message(value@) {
            Err(e) => r matches Err(WsError::ParseError(m)) && m@ == e,
            Ok(msg) => r is Ok && account_events_of(r->Ok_0@, msg, received_at),
        },
{
    match decode_account_message(value) {
        Ok(msg) => Ok(account_events(msg, received_at)),
        Err(e) => Err(WsError::ParseError(e)),
    }
}

/// The `event` name of a market message, if it has a string one.
pub open spec fn event_name(value: JsonView) -> Option<Seq<char>> {
    match json_get(value, "event"@) {
        Some(v) => json_str(v),
        None => None,
    }
}

/// Kind of a market event by its name: a ticker, an order book (depth), or a
/// trade, in that order of precedence.
pub enum MarketEventKind {
    Ticker,
    OrderBook,
    Trade,
}

pub open spec fn market_event_kind(name: Seq<char>) -> Option<MarketEventKind> {
    if contains_run(name, "Ticker"@) {
        Some(MarketEventKind::Ticker)
    } else if contains_run(name, "Depth"@) || contains_run(name, "OrderBook"@) {
        Some(MarketEventKind::OrderBook)
    } else if contains_run(name, "Trade"@) {
        Some(MarketEventKind::Trade)
    } else {
        None
    }
}

/// A market message can be read: it has an event name of a known kind and a
/// payload.
pub open spec fn market_message_readable(value: JsonView) -> bool {
    &&& event_name(value) matches Some(name) && market_event_kind(name) is Some
    &&& json_get(value, "payload"@) is Some
}

/// The event a readable market message gives: of its kind, for the market its
/// payload names, carrying the payload.
pub open spec fn market_event_of(e: MarketEvent, value: JsonView) -> bool {
    let payload = json_get(value, "payload"@)->0;
    let market = payload_market(payload);
    match market_event_kind(event_name(value)->0)->0 {
        MarketEventKind::Ticker => e matches MarketEvent::Ticker(t) && t.market@ == market
            && t.payload@ == payload,
        MarketEventKind::OrderBook => e matches MarketEvent::OrderBook(t) && t.market@ == market
            && t.payload@ == payload,
        MarketEventKind::Trade => e matches MarketEvent::Trade(t) && t.market@ == market
            && t.payload@ == payload,
    }
}

/// When an event of the market stream was received.
pub open spec fn market_event_received(e: MarketEvent) -> Timestamp {
    match e {
        MarketEvent::OrderBook(t) => t.received_at,
        MarketEvent::Trade(t) => t.received_at,
        MarketEvent::Ticker(t) => t.received_at,
    }
}

/// The event a market message gives, received now; `None` for a message of
/// no known kind.
pub fn parse_market_event(value: &Json) -> (r: Option<MarketEvent>)
    ensures
        r is Some <==> market_message_readable(value@),
        r is Some ==> market_event_of(r->0, value@),
        r is Some ==> market_event_received(r->0).in_range(),
{
    let event = match value.get("event") {
        Some(e) => match e.as_str() {
            Some(s) => s,
            None => return None,
        },
        None => return None,
    };
    let payload = match value.get("payload") {
        Some(p) => p.deep_clone(),
        None => return None,
    };
    let market = market_of_payload(&payload);
    let received_at = now();
    if str_contains(event, "Ticker") {
        return Some(MarketEvent::Ticker(TickerEvent { market, payload, received_at }));
    }
    if str_contains(event, "Depth") || str_contains(event, "OrderBook") {
        return Some(MarketEvent::OrderBook(OrderBookEvent { market, payload, received_at }));
    }
    if str_contains(event, "Trade") {
        return Some(MarketEvent::Trade(MarketTradeEvent { market, payload, received_at }));
    }
    None
}

/// An e9 price: a string as it is, or an integer in decimal.
pub open spec fn e9_price_text(v: JsonView) -> Option<Seq<char>> {
    match json_str(v) {
        Some(s) => Some(s),
        None => match json_i64(v) {
            Some(n) => Some(int_text(n as int)),
            None => None,
        },
    }
}

/// The e9 price under `key`, if there is one of that form.
pub open spec fn e9_price_under(target: JsonView, key: Seq<char>) -> Option<Seq<char>> {
    match json_get(target, key) {
        Some(v) => e9_price_text(v),
        None => None,
    }
}

/// A plain price: a string as it is, or a number as its float text.
pub open spec fn plain_price_under(target: JsonView, key: Seq<char>) -> Option<Seq<char>> {
    match json_get(target, key) {
        Some(v) => match json_str(v) {
            Some(s) => Some(s),
            None => json_float_text(v),
        },
        None => None,
    }
}

/// The last price of a market message, from its `payload` (or the message
/// itself where it has none): the first of `lastPriceE9`, `marketPriceE9`,
/// `markPriceE9` and `last_price_e9` that holds a string or an integer, else
/// `last_price` as a string or number.
pub open spec fn last_price_e9_of(value: JsonView) -> Option<Seq<char>> {
    let target = match json_get(value, "payload"@) {
        Some(p) => p,
        None => value,
    };
    if e9_price_under(target, "lastPriceE9"@) is Some {
        e9_price_under(target, "lastPriceE9"@)
    } else if e9_price_under(target, "marketPriceE9"@) is Some {
        e9_price_under(target, "marketPriceE9"@)
    } else if e9_price_under(target, "markPriceE9"@) is Some {
        e9_price_under(target, "markPriceE9"@)
    } else if e9_price_under(target, "last_price_e9"@) is Some {
        e9_price_under(target, "last_price_e9"@)
    } else {
        plain_price_under(target, "last_price"@)
    }
}

fn e9_price_text_under(target: &Json, key: &str) -> (r: Option<String>)
    ensures
        text_is(r, e9_price_under(target@, key@)),
{
    match target.get(key) {
        Some(v) => {
            match v.as_str() {
                Some(s) => Some(owned(s)),
                None => match v.as_i64() {
                    Some(n) => Some(i64_text(n)),
                    None => None,
                },
            }
        },
        None => None,
    }
}

/// The last price of a market message, as text.
pub fn extract_last_price_e9(payload: &Json) -> (r: Option<String>)
    ensures
        text_is(r, last_price_e9_of(payload@)),
{
    let target = match payload.get("payload") {
        Some(p) => p,
        None => payload,
    };
    let last = e9_price_text_under(target, "lastPriceE9");
    if last.is_some() {
        return last;
    }
    let market = e9_price_text_under(target, "marketPriceE9");
    if market.is_some() {
        return market;
    }
    let mark = e9_price_text_under(target, "markPriceE9");
    if mark.is_some() {
        return mark;
    }
    let snake = e9_price_text_under(target, "last_price_e9");
    if snake.is_some() {
        return snake;
    }
    match target.get("last_price") {
        Some(v) => match v.as_str() {
            Some(s) => Some(owned(s)),
            None => match v.float_text() {
                Some(f) => Some(owned(f)),
                None => None,
            },
        },
        None => None,
    }
}

/// Each status the exchange reports reads as the library status of the same
/// meaning: open (or waiting) orders as open, a partially filled open one as
/// partial, a filled one as filled, one cancelled or expired (after a partial
/// fill or not) as cancelled or expired, and an unspecified one as rejected.
pub proof fn lemma_exchange_statuses_keep_their_meaning(s: ApiOrderStatus)
    ensures
        status_from_api(s) == OrderStatus::Filled <==> s == ApiOrderStatus::Filled,
        status_from_api(s) == OrderStatus::Open <==> (s == ApiOrderStatus::Open || s
            == ApiOrderStatus::Standby),
        status_from_api(s) == OrderStatus::Partial <==> s == ApiOrderStatus::PartiallyFilledOpen,
        status_from_api(s) == OrderStatus::Cancelled <==> (s == ApiOrderStatus::Cancelled || s
            == ApiOrderStatus::PartiallyFilledCanceled),
        status_from_api(s) == OrderStatus::Expired <==> (s == ApiOrderStatus::Expired || s
            == ApiOrderStatus::PartiallyFilledExpired),
        status_from_api(s) == OrderStatus::Rejected <==> s == ApiOrderStatus::Unspecified,
{
}

} // verus!
