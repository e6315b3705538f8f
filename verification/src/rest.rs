//! The exchange's REST interface: reading open orders from its JSON replies.
use crate::auth::{auth_error_text, AuthError};
use crate::config::AppConfig;
use crate::decimal::{rd_checked_div, rd_from_str_exact, Decimal};
use crate::error::CoreError;
use crate::json::{json_bool, json_get, json_i64, json_str, json_u64, Json, JsonView};
use crate::order::{Order, OrderStatus, OrderType, Side, TimeInForce};
use crate::text::{
    i64_text, int_text, join2, join3, owned, parse_i64, signed_digits_value, str_eq, u64_text,
};
use crate::time::{
    chrono_millis_ok, from_millis, millis_instant, now, parse_rfc3339, rfc3339_instant, Timestamp,
};
use vstd::prelude::*;

verus! {

#[derive(Debug, Clone, PartialEq, Eq)]
pub enum RestError {
    RequestFailed(String),
    AuthError(AuthError),
    ParseError(String),
    ApiError { status: u16, message: String },
}

/// The text of a REST error.
pub open spec fn rest_error_text(e: RestError) -> Seq<char> {
    match e {
        RestError::RequestFailed(m) => "Request failed: "@ + m@,
        RestError::AuthError(a) => "Authentication error: "@ + auth_error_text(a),
        RestError::ParseError(m) => "Parse error: "@ + m@,
        RestError::ApiError { status, message } => "API error: "@ + int_text(status as int) + " - "@
            + message@,
    }
}

/// The error is a parse error with the message `m`.
pub open spec fn is_parse_error(e: RestError, m: Seq<char>) -> bool {
    e matches RestError::ParseError(s) && s@ == m
}

impl RestError {
    /// The text of the error.
    pub fn text(&self) -> (t: String)
        ensures
            t@ == rest_error_text(*self),
    {
        match self {
            RestError::RequestFailed(m) => join2("Request failed: ", m.as_str()),
            RestError::AuthError(a) => join2("Authentication error: ", a.text().as_str()),
            RestError::ParseError(m) => join2("Parse error: ", m.as_str()),
            RestError::ApiError { status, message } => {
                let code = u64_text(*status as u64);
                let head = join3("API error: ", code.as_str(), " - ");
                join2(head.as_str(), message.as_str())
            },
        }
    }

    /// The error as a core error: a serialization error with its text.
    pub fn into_core_error(&self) -> (e: CoreError)
        ensures
            e matches CoreError::SerializationError(m) && m@ == rest_error_text(*self),
    {
        CoreError::SerializationError(self.text())
    }
}

/// Client of the REST interface: its configuration and the trade endpoint.
pub struct RestClient {
    config: AppConfig,
    trade_url: String,
}

impl RestClient {
    pub closed spec fn spec_config(&self) -> AppConfig {
        self.config
    }

    pub closed spec fn spec_trade_url(&self) -> Seq<char> {
        self.trade_url@
    }

    /// A client for the configured trade endpoint.
    pub fn new(config: AppConfig) -> (c: Self)
        ensures
            c.spec_config() == config,
            c.spec_trade_url() == config.rest.trade_url@,
    {
        let trade_url = config.rest.trade_url.clone();
        RestClient { config, trade_url }
    }

    /// A client for another trade endpoint.
    pub fn new_with_trade_url(config: AppConfig, trade_url: String) -> (c: Self)
        ensures
            c.spec_config() == config,
            c.spec_trade_url() == trade_url@,
    {
        RestClient { config, trade_url }
    }

    pub fn config(&self) -> (c: &AppConfig)
        ensures
            *c == self.spec_config(),
    {
        &self.config
    }

    /// The address of the open-orders endpoint.
    pub fn open_orders_url(&self) -> (u: String)
        ensures
            u@ == self.spec_trade_url() + "/api/v1/trade/openOrders"@,
    {
        join2(self.trade_url.as_str(), "/api/v1/trade/openOrders")
    }
}

/// The optional value as a model.
pub open spec fn opt_view(v: Option<&Json>) -> Option<JsonView> {
    match v {
        Some(j) => Some(j@),
        None => None,
    }
}

/// The string under `key`, if the member is a string.
pub open spec fn str_at(v: JsonView, key: Seq<char>) -> Option<Seq<char>> {
    match json_get(v, key) {
        Some(x) => json_str(x),
        None => None,
    }
}

/// The boolean under `key`, `false` where it is missing or no boolean.
pub open spec fn flag_at(v: JsonView, key: Seq<char>) -> bool {
    match json_get(v, key) {
        Some(x) => match json_bool(x) {
            Some(b) => b,
            None => false,
        },
        None => false,
    }
}

/// The text of an e9 quantity: a string, or an integer in decimal.
pub open spec fn e9_raw_text(v: JsonView) -> Option<Seq<char>> {
    match json_str(v) {
        Some(s) => Some(s),
        None => match json_i64(v) {
            Some(n) => Some(int_text(n as int)),
            None => match json_u64(v) {
                Some(n) => Some(int_text(n as int)),
                None => None,
            },
        },
    }
}

/// An e9 quantity read exactly and divided by 10^9, or the message of why it
/// could not be read.
pub open spec fn e9_field(v: Option<JsonView>) -> Result<(int, int), Seq<char>> {
    match v {
        None => Err("e9 value missing"@),
        Some(x) => match e9_raw_text(x) {
            None => Err("invalid e9 value"@),
            Some(t) => match rd_from_str_exact(t) {
                Err(m) => Err(m),
                Ok(p) => Ok(rd_checked_div(p.0, p.1, 1_000_000_000, 0)->0),
            },
        },
    }
}

/// The decimal an e9 quantity stands for.
pub fn parse_e9_decimal(value: Option<&Json>) -> (r: Result<Decimal, RestError>)
    ensures
        match e9_field(opt_view(value)) {
            Ok(p) => r is Ok && r->Ok_0.has_parts(p),
            Err(m) => r is Err && is_parse_error(r->Err_0, m),
        },
{
    let raw = match value {
        Some(v) => v,
        None => {
            return Err(RestError::ParseError(owned("e9 value missing")));
        },
    };
    let raw_str = match raw.as_str() {
        Some(s) => owned(s),
        None => match raw.as_i64() {
            Some(n) => i64_text(n),
            None => match raw.as_u64() {
                Some(n) => u64_text(n),
                None => {
                    return Err(RestError::ParseError(owned("invalid e9 value")));
                },
            },
        },
    };
    let parsed = match Decimal::parse_exact(raw_str.as_str()) {
        Ok(d) => d,
        Err(m) => {
            return Err(RestError::ParseError(m));
        },
    };
    match parsed.checked_div(&Decimal::from_u64(1_000_000_000u64)) {
        Some(d) => Ok(d),
        None => Err(RestError::ParseError(owned("e9 value out of range"))),
    }
}

/// The instant of `ms` milliseconds, where `chrono` represents it.
pub open spec fn millis_ts(ms: int) -> Option<Timestamp> {
    if chrono_millis_ok(ms) {
        Some(millis_instant(ms))
    } else {
        None
    }
}

/// The instant an RFC 3339 text names.
pub open spec fn rfc3339_ts(s: Seq<char>) -> Option<Timestamp> {
    match rfc3339_instant(s) {
        Some(p) => Some(Timestamp { secs: p.0 as i64, nanos: p.1 as u32 }),
        None => None,
    }
}

/// A time: milliseconds as an integer, or as a string of digits, or an
/// RFC 3339 date-time string.
pub open spec fn parsed_millis(v: Option<JsonView>) -> Option<Timestamp> {
    match v {
        None => None,
        Some(x) => match json_i64(x) {
            Some(ms) => millis_ts(ms as int),
            None => match json_str(x) {
                Some(s) => match signed_digits_value(s) {
                    Some(n) => if i64::MIN <= n <= i64::MAX {
                        millis_ts(n)
                    } else {
                        rfc3339_ts(s)
                    },
                    None => rfc3339_ts(s),
                },
                None => None,
            },
        },
    }
}

/// A time read from a JSON value.
pub fn parse_millis(value: Option<&Json>) -> (r: Option<Timestamp>)
    ensures
        r == parsed_millis(opt_view(value)),
{
    let raw = match value {
        Some(v) => v,
        None => return None,
    };
    match raw.as_i64() {
        Some(ms) => return from_millis(ms),
        None => {},
    }
    match raw.as_str() {
        Some(s) => {
            match parse_i64(s) {
                Some(ms) => return from_millis(ms),
                None => {},
            }
            parse_rfc3339(s)
        },
        None => None,
    }
}

pub open spec fn side_from_text(s: Seq<char>) -> Option<Side> {
    if s == "LONG"@ {
        Some(Side::Buy)
    } else if s == "SHORT"@ {
        Some(Side::Sell)
    } else {
        None
    }
}

pub open spec fn order_type_from_text(s: Seq<char>) -> Option<OrderType> {
    if s == "LIMIT"@ {
        Some(OrderType::Limit)
    } else if s == "MARKET"@ {
        Some(OrderType::Market)
    } else {
        None
    }
}

/// `GTT` (good til time) is good-til-cancel.
pub open spec fn time_in_force_from_text(s: Seq<char>) -> Option<TimeInForce> {
    if s == "GTT"@ {
        Some(TimeInForce::Gtc)
    } else if s == "IOC"@ {
        Some(TimeInForce::Ioc)
    } else if s == "FOK"@ {
        Some(TimeInForce::Fok)
    } else {
        None
    }
}

/// Both spellings of partial fills and of cancellation are accepted.
pub open spec fn status_from_text(s: Seq<char>) -> Option<OrderStatus> {
    if s == "OPEN"@ {
        Some(OrderStatus::Open)
    } else if s == "PARTIAL"@ || s == "PARTIALLY_FILLED"@ {
        Some(OrderStatus::Partial)
    } else if s == "FILLED"@ {
        Some(OrderStatus::Filled)
    } else if s == "CANCELED"@ || s == "CANCELLED"@ {
        Some(OrderStatus::Cancelled)
    } else if s == "EXPIRED"@ {
        Some(OrderStatus::Expired)
    } else if s == "REJECTED"@ {
        Some(OrderStatus::Rejected)
    } else {
        None
    }
}

/// Why an open order cannot be read, for the first field that fails, in the
/// order hash, symbol, side, type, time-in-force, status, price, quantity and
/// filled quantity.
#[verifier::opaque]
pub open spec fn open_order_error(v: JsonView) -> Option<Seq<char>> {
    if str_at(v, "orderHash"@) is None {
        Some("orderHash missing"@)
    } else if str_at(v, "symbol"@) is None {
        Some("symbol missing"@)
    } else if str_at(v, "side"@) is None {
        Some("side missing"@)
    } else if side_from_text(str_at(v, "side"@)->0) is None {
        Some("unknown side: "@ + str_at(v, "side"@)->0)
    } else if str_at(v, "type"@) is None {
        Some("type missing"@)
    } else if order_type_from_text(str_at(v, "type"@)->0) is None {
        Some("unknown order type: "@ + str_at(v, "type"@)->0)
    } else if str_at(v, "timeInForce"@) is None {
        Some("timeInForce missing"@)
    } else if time_in_force_from_text(str_at(v, "timeInForce"@)->0) is None {
        Some("unknown timeInForce: "@ + str_at(v, "timeInForce"@)->0)
    } else if str_at(v, "status"@) is None {
        Some("status missing"@)
    } else if status_from_text(str_at(v, "status"@)->0) is None {
        Some("unknown status: "@ + str_at(v, "status"@)->0)
    } else if e9_field(json_get(v, "priceE9"@)) is Err {
        Some(e9_field(json_get(v, "priceE9"@))->Err_0)
    } else if e9_field(json_get(v, "quantityE9"@)) is Err {
        Some(e9_field(json_get(v, "quantityE9"@))->Err_0)
    } else if e9_field(json_get(v, "filledQuantityE9"@)) is Err {
        Some(e9_field(json_get(v, "filledQuantityE9"@))->Err_0)
    } else {
        None
    }
}

/// The creation time of an open order: the first of `orderTimeAtMillis`,
/// `createdAtMillis` and `createTime` that can be read.
pub open spec fn open_order_created(v: JsonView) -> Option<Timestamp> {
    if parsed_millis(json_get(v, "orderTimeAtMillis"@)) is Some {
        parsed_millis(json_get(v, "orderTimeAtMillis"@))
    } else if parsed_millis(json_get(v, "createdAtMillis"@)) is Some {
        parsed_millis(json_get(v, "createdAtMillis"@))
    } else {
        parsed_millis(json_get(v, "createTime"@))
    }
}

/// The order an open order reads as.  Without a readable creation time it was
/// created when read; without a readable update time it was last updated when
/// created.
#[verifier::opaque]
pub open spec fn open_order_of(o: Order, v: JsonView) -> bool {
    &&& o.order_hash@ == str_at(v, "orderHash"@)->0
    &&& o.market@ == str_at(v, "symbol"@)->0
    &&& o.side == side_from_text(str_at(v, "side"@)->0)->0
    &&& o.order_type == order_type_from_text(str_at(v, "type"@)->0)->0
    &&& o.time_in_force == time_in_force_from_text(str_at(v, "timeInForce"@)->0)->0
    &&& o.status == status_from_text(str_at(v, "status"@)->0)->0
    &&& o.price matches Some(p) && p.has_parts(e9_field(json_get(v, "priceE9"@))->Ok_0)
    &&& o.size.has_parts(e9_field(json_get(v, "quantityE9"@))->Ok_0)
    &&& o.filled_size.has_parts(e9_field(json_get(v, "filledQuantityE9"@))->Ok_0)
    &&& o.reduce_only == flag_at(v, "reduceOnly"@)
    &&& o.post_only == flag_at(v, "postOnly"@)
    &&& (match o.client_order_id {
        Some(c) => str_at(v, "clientOrderId"@) == Some(c@),
        None => str_at(v, "clientOrderId"@) is None,
    })
    &&& open_order_created(v) is Some ==> o.created_at == open_order_created(v)->0
    &&& o.updated_at == (match parsed_millis(json_get(v, "updatedAtMillis"@)) {
        Some(t) => t,
        None => o.created_at,
    })
}

/// The string member `key`, if it is one.
fn get_str<'a>(value: &'a Json, key: &str) -> (r: Option<&'a str>)
    ensures
        match str_at(value@, key@) {
            Some(s) => r is Some && r->0@ == s,
            None => r is None,
        },
{
    match value.get(key) {
        Some(v) => v.as_str(),
        None => None,
    }
}

/// The boolean member `key`, `false` where it is missing or no boolean.
fn get_flag(value: &Json, key: &str) -> (b: bool)
    ensures
        b == flag_at(value@, key@),
{
    match value.get(key) {
        Some(v) => match v.as_bool() {
            Some(b) => b,
            None => false,
        },
        None => false,
    }
}

/// An order of the open-orders reply.
#[verifier::rlimit(100)]
pub fn parse_open_order(value: &Json) -> (r: Result<Order, RestError>)
    ensures
        r is Ok <==> open_order_error(value@) is None,
        r is Err ==> is_parse_error(r->Err_0, open_order_error(value@)->0),
        r is Ok ==> open_order_of(r->Ok_0, value@),
{
    proof {
        reveal(open_order_error);
        reveal(open_order_of);
        reveal_strlit("LONG");
        reveal_strlit("SHORT");
        reveal_strlit("LIMIT");
        reveal_strlit("MARKET");
        reveal_strlit("GTT");
        reveal_strlit("IOC");
        reveal_strlit("FOK");
        reveal_strlit("OPEN");
        reveal_strlit("PARTIAL");
        reveal_strlit("PARTIALLY_FILLED");
        reveal_strlit("FILLED");
        reveal_strlit("CANCELED");
        reveal_strlit("CANCELLED");
        reveal_strlit("EXPIRED");
        reveal_strlit("REJECTED");
    }
    let order_hash = match get_str(value, "orderHash") {
        Some(s) => owned(s),
        None => {
            return Err(RestError::ParseError(owned("orderHash missing")));
        },
    };
    let market = match get_str(value, "symbol") {
        Some(s) => owned(s),
        None => {
            return Err(RestError::ParseError(owned("symbol missing")));
        },
    };
    let side = match get_str(value, "side") {
        Some(s) => if str_eq(s, "LONG") {
            Side::Buy
        } else if str_eq(s, "SHORT") {
            Side::Sell
        } else {
            return Err(RestError::ParseError(join2("unknown side: ", s)));
        },
        None => {
            return Err(RestError::ParseError(owned("side missing")));
        },
    };
    let order_type = match get_str(value, "type") {
        Some(s) => if str_eq(s, "LIMIT") {
            OrderType::Limit
        } else if str_eq(s, "MARKET") {
            OrderType::Market
        } else {
            return Err(RestError::ParseError(join2("unknown order type: ", s)));
        },
        None => {
            return Err(RestError::ParseError(owned("type missing")));
        },
    };
    let time_in_force = match get_str(value, "timeInForce") {
        Some(s) => if str_eq(s, "GTT") {
            TimeInForce::Gtc
        } else if str_eq(s, "IOC") {
            TimeInForce::Ioc
        } else if str_eq(s, "FOK") {
            TimeInForce::Fok
        } else {
            return Err(RestError::ParseError(join2("unknown timeInForce: ", s)));
        },
        None => {
            return Err(RestError::ParseError(owned("timeInForce missing")));
        },
    };
    let status = match get_str(value, "status") {
        Some(s) => if str_eq(s, "OPEN") {
            OrderStatus::Open
        } else if str_eq(s, "PARTIAL") || str_eq(s, "PARTIALLY_FILLED") {
            OrderStatus::Partial
        } else if str_eq(s, "FILLED") {
            OrderStatus::Filled
        } else if str_eq(s, "CANCELED") || str_eq(s, "CANCELLED") {
            OrderStatus::Cancelled
        } else if str_eq(s, "EXPIRED") {
            OrderStatus::Expired
        } else if str_eq(s, "REJECTED") {
            OrderStatus::Rejected
        } else {
            return Err(RestError::ParseError(join2("unknown status: ", s)));
        },
        None => {
            return Err(RestError::ParseError(owned("status missing")));
        },
    };
    let price = match parse_e9_decimal(value.get("priceE9")) {
        Ok(d) => d,
        Err(e) => {
            return Err(e);
        },
    };
    let size = match parse_e9_decimal(value.get("quantityE9")) {
        Ok(d) => d,
        Err(e) => {
            return Err(e);
        },
    };
    let filled_size = match parse_e9_decimal(value.get("filledQuantityE9")) {
        Ok(d) => d,
        Err(e) => {
            return Err(e);
        },
    };
    let created_at = match parse_millis(value.get("orderTimeAtMillis")) {
        Some(t) => t,
        None => match parse_millis(value.get("createdAtMillis")) {
            Some(t) => t,
            None => match parse_millis(value.get("createTime")) {
                Some(t) => t,
                None => now(),
            },
        },
    };
    let updated_at = match parse_millis(value.get("updatedAtMillis")) {
        Some(t) => t,
        None => created_at,
    };
    let client_order_id = match get_str(value, "clientOrderId") {
        Some(s) => Some(owned(s)),
        None => None,
    };
    Ok(
        Order {
            order_hash,
            market,
            side,
            order_type,
            price: Some(price),
            size,
            filled_size,
            status,
            time_in_force,
            reduce_only: get_flag(value, "reduceOnly"),
            post_only: get_flag(value, "postOnly"),
            client_order_id,
            created_at,
            updated_at,
        },
    )
}

/// `items[i]` is the first item that cannot be read as an order.
pub open spec fn is_first_unreadable(items: Seq<JsonView>, i: int) -> bool {
    &&& 0 <= i < items.len()
    &&& open_order_error(items[i]) is Some
    &&& forall|j: int| 0 <= j < i ==> open_order_error(#[trigger] items[j]) is None
}

/// The outcome of a reply to the open-orders request: refused for a failure
/// status (with the reply's text), for a reply that is no array, or for the
/// first order that cannot be read; otherwise its orders, in order.
pub open spec fn open_orders_outcome(
    orders: Seq<Order>,
    success: bool,
    status: u16,
    value: JsonView,
    body_text: Seq<char>,
    r: Result<(), RestError>,
) -> bool {
    if !success {
        r matches Err(RestError::ApiError { status: s, message }) && s == status && message@ == body_text
    } else {
        match value {
            JsonView::Array(items) => {
                if exists|i: int| is_first_unreadable(items, i) {
                    let i = choose|i: int| is_first_unreadable(items, i);
                    r is Err && is_parse_error(r->Err_0, open_order_error(items[i])->0)
                } else {
                    r is Ok && orders.len() == items.len() && forall|i: int|
                        0 <= i < items.len() ==> #[trigger] open_order_of(orders[i], items[i])
                }
            },
            _ => r is Err && is_parse_error(r->Err_0, "openOrders response is not an array"@),
        }
    }
}

/// The orders of a reply to the open-orders request, given whether its status
/// is a success, its status code, its JSON body and that body's text.
pub fn orders_from_reply(success: bool, status: u16, value: &Json, body_text: String) -> (r: Result<
    Vec<Order>,
    RestError,
>)
    ensures
        open_orders_outcome(
            match r {
                Ok(v) => v@,
                Err(_) => seq![],
            },
            success,
            status,
            value@,
            body_text@,
            match r {
                Ok(_) => Ok(()),
                Err(e) => Err(e),
            },
        ),
{
    if !success {
        return Err(RestError::ApiError { status, message: body_text });
    }
    let items = match value {
        Json::Array(items) => items,
        _ => {
            return Err(RestError::ParseError(owned("openOrders response is not an array")));
        },
    };
    let ghost iv = value@;
    let ghost models = match iv {
        JsonView::Array(m) => m,
        _ => Seq::empty(),
    };
    assert(models.len() == items.len());
    assert(forall|k: int| 0 <= k < items.len() ==> #[trigger] models[k] == items@[k]@);
    let mut orders: Vec<Order> = Vec::new();
    let mut i: usize = 0;
    while i < items.len()
        invariant
            i <= items.len(),
            models.len() == items.len(),
            iv == JsonView::Array(models),
            iv == value@,
            success,
            forall|k: int| 0 <= k < items.len() ==> #[trigger] models[k] == items@[k]@,
            orders.len() == i,
            forall|k: int| 0 <= k < i ==> open_order_error(#[trigger] models[k]) is None,
            forall|k: int| 0 <= k < i ==> #[trigger] open_order_of(orders@[k], models[k]),
        decreases items.len() - i,
    {
        match parse_open_order(&items[i]) {
            Ok(o) => {
                orders.push(o);
            },
            Err(e) => {
                proof {
                    assert(is_first_unreadable(models, i as int));
                    let j = choose|j: int| is_first_unreadable(models, j);
                    if j < i {
                        assert(open_order_error(models[j]) is None);
                    }
                    if j > i {
                        assert(open_order_error(models[i as int]) is None);
                    }
                }
                return Err(e);
            },
        }
        i = i + 1;
    }
    Ok(orders)
}

} // verus!
