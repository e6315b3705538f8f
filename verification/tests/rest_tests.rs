use bluefin_bot::auth::AuthError;
use bluefin_bot::config::{AppConfig, EnvConfig, Environment, MarketsConfig, RestConfig, StorageConfig, WsConfig};
use bluefin_bot::decimal::Decimal;
use bluefin_bot::error::CoreError;
use bluefin_bot::json::{Json, JsonNumber};
use bluefin_bot::order::{OrderStatus, OrderType, Side, TimeInForce};
use bluefin_bot::rest::{orders_from_reply, parse_e9_decimal, parse_millis, parse_open_order, RestClient, RestError};
use bluefin_bot::time::Timestamp;

fn s(x: &str) -> Json {
    Json::String(x.to_string())
}

fn num(n: i64) -> Json {
    Json::Number(JsonNumber { as_i64: Some(n), as_u64: if n >= 0 { Some(n as u64) } else { None }, float_text: n.to_string() })
}

fn big(n: u64) -> Json {
    Json::Number(JsonNumber { as_i64: None, as_u64: Some(n), float_text: n.to_string() })
}

fn obj(members: Vec<(&str, Json)>) -> Json {
    Json::Object(members.into_iter().map(|(k, v)| (k.to_string(), v)).collect())
}

fn open_order() -> Vec<(&'static str, Json)> {
    vec![
        ("orderHash", s("0xabc")),
        ("symbol", s("ETH-PERP")),
        ("side", s("SHORT")),
        ("type", s("LIMIT")),
        ("timeInForce", s("GTT")),
        ("status", s("PARTIALLY_FILLED")),
        ("priceE9", s("2500000000000")),
        ("quantityE9", num(2_000_000_000)),
        ("filledQuantityE9", s("0")),
        ("createdAtMillis", num(1_700_000_000_000)),
        ("reduceOnly", Json::Bool(true)),
        ("clientOrderId", s("c1")),
    ]
}

fn without(key: &str) -> Json {
    obj(open_order().into_iter().filter(|(k, _)| *k != key).collect())
}

fn with(key: &'static str, value: Json) -> Json {
    let mut m: Vec<(&str, Json)> = open_order().into_iter().filter(|(k, _)| *k != key).collect();
    m.push((key, value));
    obj(m)
}

fn parse_error(v: &Json) -> String {
    match parse_open_order(v) {
        Err(RestError::ParseError(m)) => m,
        other => panic!("unexpected {:?}", other),
    }
}

#[test]
fn open_orders_are_read() {
    let o = parse_open_order(&obj(open_order())).unwrap();
    assert_eq!(o.order_hash, "0xabc");
    assert_eq!(o.market, "ETH-PERP");
    assert_eq!(o.side, Side::Sell);
    assert_eq!(o.order_type, OrderType::Limit);
    assert_eq!(o.time_in_force, TimeInForce::Gtc);
    assert_eq!(o.status, OrderStatus::Partial);
    assert_eq!(o.price, Some(Decimal::new(2500, 0)));
    assert_eq!(o.size, Decimal::new(2, 0));
    assert_eq!(o.filled_size.mantissa(), 0);
    assert!(o.reduce_only);
    assert!(!o.post_only);
    assert_eq!(o.client_order_id, Some("c1".to_string()));
    assert_eq!(o.created_at, Timestamp { secs: 1_700_000_000, nanos: 0 });
    assert_eq!(o.updated_at, o.created_at);
}

#[test]
fn open_order_times_fall_back_in_order() {
    let v = with("orderTimeAtMillis", s("1000"));
    assert_eq!(parse_open_order(&v).unwrap().created_at, Timestamp { secs: 1, nanos: 0 });
    let v = with("updatedAtMillis", s("1970-01-01T00:00:02Z"));
    assert_eq!(parse_open_order(&v).unwrap().updated_at, Timestamp { secs: 2, nanos: 0 });
}

#[test]
fn open_order_errors_name_the_field() {
    assert_eq!(parse_error(&without("orderHash")), "orderHash missing");
    assert_eq!(parse_error(&without("symbol")), "symbol missing");
    assert_eq!(parse_error(&without("side")), "side missing");
    assert_eq!(parse_error(&with("side", s("UP"))), "unknown side: UP");
    assert_eq!(parse_error(&without("type")), "type missing");
    assert_eq!(parse_error(&with("type", s("STOP"))), "unknown order type: STOP");
    assert_eq!(parse_error(&without("timeInForce")), "timeInForce missing");
    assert_eq!(parse_error(&with("timeInForce", s("GTC"))), "unknown timeInForce: GTC");
    assert_eq!(parse_error(&without("status")), "status missing");
    assert_eq!(parse_error(&with("status", s("NEW"))), "unknown status: NEW");
    assert_eq!(parse_error(&without("priceE9")), "e9 value missing");
    assert_eq!(parse_error(&with("quantityE9", Json::Bool(true))), "invalid e9 value");
    assert!(!parse_error(&with("filledQuantityE9", s("1.2.3"))).is_empty());
}

#[test]
fn status_spellings() {
    for (text, status) in [
        ("OPEN", OrderStatus::Open),
        ("PARTIAL", OrderStatus::Partial),
        ("FILLED", OrderStatus::Filled),
        ("CANCELED", OrderStatus::Cancelled),
        ("CANCELLED", OrderStatus::Cancelled),
        ("EXPIRED", OrderStatus::Expired),
        ("REJECTED", OrderStatus::Rejected),
    ] {
        assert_eq!(parse_open_order(&with("status", s(text))).unwrap().status, status);
    }
}

#[test]
fn e9_values_of_every_form() {
    assert_eq!(parse_e9_decimal(Some(&s("1500000000"))).unwrap(), Decimal::new(15, 1));
    assert_eq!(parse_e9_decimal(Some(&num(-3_000_000_000))).unwrap(), Decimal::new(-3, 0));
    assert_eq!(parse_e9_decimal(Some(&big(10_000_000_000_000_000_000))).unwrap(), Decimal::new(10_000_000_000, 0));
    assert_eq!(parse_e9_decimal(None), Err(RestError::ParseError("e9 value missing".to_string())));
    assert_eq!(parse_e9_decimal(Some(&Json::Null)), Err(RestError::ParseError("invalid e9 value".to_string())));
}

#[test]
fn millis_of_every_form() {
    assert_eq!(parse_millis(Some(&num(1500))), Some(Timestamp { secs: 1, nanos: 500_000_000 }));
    assert_eq!(parse_millis(Some(&s("-1000"))), Some(Timestamp { secs: -1, nanos: 0 }));
    assert_eq!(parse_millis(Some(&s("2021-01-01T00:00:00Z"))), Some(Timestamp { secs: 1_609_459_200, nanos: 0 }));
    assert_eq!(parse_millis(Some(&s("soon"))), None);
    assert_eq!(parse_millis(Some(&Json::Bool(false))), None);
    assert_eq!(parse_millis(None), None);
}

#[test]
fn replies_to_the_open_orders_request() {
    let ok = Json::Array(vec![obj(open_order()), with("orderHash", s("0xdef"))]);
    let orders = orders_from_reply(true, 200, &ok, String::new()).unwrap();
    assert_eq!(orders.len(), 2);
    assert_eq!(orders[1].order_hash, "0xdef");
    assert_eq!(
        orders_from_reply(false, 401, &obj(vec![]), "{}".to_string()).unwrap_err(),
        RestError::ApiError { status: 401, message: "{}".to_string() }
    );
    assert_eq!(
        orders_from_reply(true, 200, &obj(vec![]), String::new()).unwrap_err(),
        RestError::ParseError("openOrders response is not an array".to_string())
    );
    let bad = Json::Array(vec![obj(open_order()), without("symbol"), without("side")]);
    assert_eq!(
        orders_from_reply(true, 200, &bad, String::new()).unwrap_err(),
        RestError::ParseError("symbol missing".to_string())
    );
}

#[test]
fn rest_error_texts() {
    assert_eq!(RestError::RequestFailed("x".to_string()).text(), "Request failed: x");
    assert_eq!(RestError::AuthError(AuthError::NoToken).text(), "Authentication error: No valid token available");
    assert_eq!(RestError::ApiError { status: 503, message: "down".to_string() }.text(), "API error: 503 - down");
    assert_eq!(
        RestError::ParseError("p".to_string()).into_core_error(),
        CoreError::SerializationError("Parse error: p".to_string())
    );
}

#[test]
fn client_urls() {
    let config = AppConfig {
        env: EnvConfig { name: Environment::Prod },
        rest: RestConfig { exchange_url: "e".to_string(), trade_url: "https://t".to_string(), auth_url: "a".to_string() },
        ws: WsConfig { market_url: "m".to_string(), account_url: "a".to_string() },
        markets: MarketsConfig { symbols: vec![] },
        storage: StorageConfig { db_path: "db".to_string(), raw_path: "raw".to_string() },
    };
    let c = RestClient::new(config.clone());
    assert_eq!(c.open_orders_url(), "https://t/api/v1/trade/openOrders");
    let c = RestClient::new_with_trade_url(config, "http://local".to_string());
    assert_eq!(c.open_orders_url(), "http://local/api/v1/trade/openOrders");
}
