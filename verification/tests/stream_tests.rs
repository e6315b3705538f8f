use bluefin_bot::api::{
    AccountPayload, AccountMessage, ActiveUpdate, ApiAsset, ApiOrderStatus, ApiOrderType,
    ApiOrderUpdate, ApiTimeInForce, ApiTrade, ApiTradeSide, CancellationUpdate,
};
use bluefin_bot::config::{AppConfig, EnvConfig, Environment, MarketsConfig, RestConfig, StorageConfig, WsConfig};
use bluefin_bot::decimal::Decimal;
use bluefin_bot::event::{AccountEvent, MarketEvent};
use bluefin_bot::json::{Json, JsonNumber};
use bluefin_bot::order::{OrderStatus, OrderType, Side, TimeInForce};
use bluefin_bot::stream::{
    account_events, extract_last_price_e9, fill_from_trade, map_order_status, map_order_type, map_side,
    map_time_in_force, order_from_active_update, order_from_cancel_update, parse_e9_decimal,
    parse_account_events, parse_market_event, RawWsConnection, WsClient, WsError,
};
use bluefin_bot::time::Timestamp;

fn s(x: &str) -> Json {
    Json::String(x.to_string())
}

fn num(n: i64) -> Json {
    Json::Number(JsonNumber { as_i64: Some(n), as_u64: if n >= 0 { Some(n as u64) } else { None }, float_text: n.to_string() })
}

fn float(text: &str) -> Json {
    Json::Number(JsonNumber { as_i64: None, as_u64: None, float_text: text.to_string() })
}

fn obj(members: Vec<(&str, Json)>) -> Json {
    Json::Object(members.into_iter().map(|(k, v)| (k.to_string(), v)).collect())
}

fn at(secs: i64) -> Timestamp {
    Timestamp { secs, nanos: 0 }
}

fn active() -> ActiveUpdate {
    ActiveUpdate {
        order_hash: "0xh".to_string(),
        client_order_id: Some("c".to_string()),
        symbol: "ETH-PERP".to_string(),
        price_e9: "2500000000000".to_string(),
        quantity_e9: "1500000000".to_string(),
        filled_quantity_e9: "500000000".to_string(),
        side: ApiTradeSide::Short,
        order_type: ApiOrderType::StopMarket,
        reduce_only: true,
        post_only: false,
        time_in_force: ApiTimeInForce::Gtt,
        status: ApiOrderStatus::PartiallyFilledOpen,
        created_at_millis: 1_000,
        updated_at_millis: 2_500,
    }
}

fn trade() -> ApiTrade {
    ApiTrade {
        id: "t1".to_string(),
        symbol: Some("ETH-PERP".to_string()),
        order_hash: Some("0xh".to_string()),
        side: ApiTradeSide::Long,
        price_e9: "2000000000000".to_string(),
        quantity_e9: "1000000000".to_string(),
        trading_fee_e9: None,
        trading_fee_asset: None,
        executed_at_millis: 3_000,
    }
}

#[test]
fn e9_quantities() {
    assert_eq!(parse_e9_decimal("1500000000"), Some(Decimal::new(15, 1)));
    assert_eq!(parse_e9_decimal("1"), Some(Decimal::new(1, 9)));
    assert_eq!(parse_e9_decimal("x"), None);
}

#[test]
fn exchange_names_map_to_library_names() {
    assert_eq!(map_side(ApiTradeSide::Long), Some(Side::Buy));
    assert_eq!(map_side(ApiTradeSide::Unspecified), None);
    assert_eq!(map_time_in_force(ApiTimeInForce::Gtt), TimeInForce::Gtc);
    assert_eq!(map_time_in_force(ApiTimeInForce::Unspecified), TimeInForce::Gtc);
    assert_eq!(map_time_in_force(ApiTimeInForce::Fok), TimeInForce::Fok);
    assert_eq!(map_order_type(ApiOrderType::TakeProfitMarket), OrderType::Market);
    assert_eq!(map_order_type(ApiOrderType::StopLimit), OrderType::Limit);
    assert_eq!(map_order_status(ApiOrderStatus::Standby), OrderStatus::Open);
    assert_eq!(map_order_status(ApiOrderStatus::PartiallyFilledCanceled), OrderStatus::Cancelled);
    assert_eq!(map_order_status(ApiOrderStatus::PartiallyFilledExpired), OrderStatus::Expired);
    assert_eq!(map_order_status(ApiOrderStatus::PartiallyFilledOpen), OrderStatus::Partial);
    assert_eq!(map_order_status(ApiOrderStatus::Unspecified), OrderStatus::Rejected);
}

#[test]
fn active_updates_become_orders() {
    let o = order_from_active_update(&active(), at(99)).unwrap();
    assert_eq!(o.order_hash, "0xh");
    assert_eq!(o.side, Side::Sell);
    assert_eq!(o.order_type, OrderType::Market);
    assert_eq!(o.price, Some(Decimal::new(2500, 0)));
    assert_eq!(o.size, Decimal::new(15, 1));
    assert_eq!(o.filled_size, Decimal::new(5, 1));
    assert_eq!(o.status, OrderStatus::Partial);
    assert_eq!(o.created_at, at(1));
    assert_eq!(o.updated_at, Timestamp { secs: 2, nanos: 500_000_000 });
    let mut bad = active();
    bad.side = ApiTradeSide::Unspecified;
    assert!(order_from_active_update(&bad, at(0)).is_none());
    let mut out_of_range = active();
    out_of_range.created_at_millis = i64::MAX;
    assert_eq!(order_from_active_update(&out_of_range, at(7)).unwrap().created_at, at(7));
}

#[test]
fn cancellations_become_cancelled_orders() {
    let c = CancellationUpdate {
        order_hash: "0xc".to_string(),
        client_order_id: None,
        symbol: "BTC-PERP".to_string(),
        created_at_millis: 5_000,
        remaining_quantity_e9: "250000000".to_string(),
    };
    let o = order_from_cancel_update(&c, at(60)).unwrap();
    assert_eq!(o.status, OrderStatus::Cancelled);
    assert_eq!(o.side, Side::Buy);
    assert_eq!(o.size, Decimal::new(25, 2));
    assert_eq!(o.filled_size.mantissa(), 0);
    assert_eq!(o.created_at, at(5));
    assert_eq!(o.updated_at, at(60));
}

#[test]
fn trades_become_fills() {
    let f = fill_from_trade(&trade()).unwrap();
    assert_eq!(f.fill_id, "t1");
    assert_eq!(f.price, Decimal::new(2000, 0));
    assert_eq!(f.fee.mantissa(), 0);
    assert_eq!(f.fee_asset, "USD");
    assert_eq!(f.filled_at, at(3));
    let mut t = trade();
    t.trading_fee_e9 = Some("2000000".to_string());
    t.trading_fee_asset = Some("USDC".to_string());
    let f = fill_from_trade(&t).unwrap();
    assert_eq!(f.fee, Decimal::new(2, 3));
    assert_eq!(f.fee_asset, "USDC");
    let mut t = trade();
    t.trading_fee_e9 = Some("bad".to_string());
    assert_eq!(fill_from_trade(&t).unwrap().fee.mantissa(), 0);
    let mut t = trade();
    t.symbol = Some(String::new());
    assert!(fill_from_trade(&t).is_none());
    let mut t = trade();
    t.order_hash = None;
    assert!(fill_from_trade(&t).is_none());
}

#[test]
fn account_updates_give_balance_events() {
    let msg = AccountMessage::AccountUpdate(AccountPayload::AccountUpdate(vec![
        ApiAsset { symbol: "USDC".to_string(), max_withdraw_quantity_e9: "10000000000".to_string() },
        ApiAsset { symbol: "BAD".to_string(), max_withdraw_quantity_e9: "n/a".to_string() },
        ApiAsset { symbol: "SUI".to_string(), max_withdraw_quantity_e9: "0".to_string() },
    ]));
    let events = account_events(msg, at(5));
    assert_eq!(events.len(), 2);
    match &events[0] {
        AccountEvent::BalanceUpdate(b) => {
            assert_eq!(b.balance.asset, "USDC");
            assert_eq!(b.balance.total, Decimal::new(10, 0));
            assert_eq!(b.balance.available, Decimal::new(10, 0));
            assert_eq!(b.balance.locked.mantissa(), 0);
            assert_eq!(b.received_at, at(5));
        }
        other => panic!("unexpected {:?}", other),
    }
    match &events[1] {
        AccountEvent::BalanceUpdate(b) => assert_eq!(b.balance.asset, "SUI"),
        other => panic!("unexpected {:?}", other),
    }
}

#[test]
fn order_and_trade_messages() {
    let msg = AccountMessage::OrderUpdate(AccountPayload::OrderUpdate(ApiOrderUpdate::Active(active())));
    let events = account_events(msg, at(5));
    assert!(matches!(&events[..], [AccountEvent::OrderUpdate(u)] if u.order.order_hash == "0xh"));
    let msg = AccountMessage::TradeUpdate(AccountPayload::TradeUpdate(trade()));
    let events = account_events(msg, at(5));
    assert!(matches!(&events[..], [AccountEvent::TradeUpdate(t)] if t.fill.fill_id == "t1"));
    // A payload that does not match its kind gives nothing.
    let msg = AccountMessage::TradeUpdate(AccountPayload::TransactionUpdate);
    assert!(account_events(msg, at(5)).is_empty());
    let msg = AccountMessage::CommandFailureUpdate(AccountPayload::CommandFailureUpdate);
    assert!(account_events(msg, at(5)).is_empty());
}

#[test]
fn position_messages_keep_their_payload() {
    let payload = obj(vec![("symbol", s("ETH-PERP")), ("size", num(3))]);
    let events = account_events(AccountMessage::PositionUpdate(payload), at(8));
    match &events[..] {
        [AccountEvent::PositionUpdate(p)] => {
            assert_eq!(p.market, "ETH-PERP");
            assert_eq!(p.payload.get("size").and_then(|v| v.as_i64()), Some(3));
        }
        other => panic!("unexpected {:?}", other),
    }
    let events = account_events(AccountMessage::PositionUpdate(obj(vec![("market", s("BTC-PERP"))])), at(8));
    assert!(matches!(&events[..], [AccountEvent::PositionUpdate(p)] if p.market == "BTC-PERP"));
    let events = account_events(AccountMessage::PositionUpdate(obj(vec![("symbol", num(1)), ("market", s("X"))])), at(8));
    assert!(matches!(&events[..], [AccountEvent::PositionUpdate(p)] if p.market.is_empty()));
}

#[test]
fn market_events_by_name() {
    let msg = obj(vec![("event", s("TickerUpdate")), ("payload", obj(vec![("symbol", s("ETH-PERP"))]))]);
    assert!(matches!(parse_market_event(&msg), Some(MarketEvent::Ticker(t)) if t.market == "ETH-PERP"));
    let msg = obj(vec![("event", s("PartialDepth10")), ("payload", obj(vec![("market", s("BTC-PERP"))]))]);
    assert!(matches!(parse_market_event(&msg), Some(MarketEvent::OrderBook(t)) if t.market == "BTC-PERP"));
    let msg = obj(vec![("event", s("RecentTrade")), ("payload", obj(vec![]))]);
    assert!(matches!(parse_market_event(&msg), Some(MarketEvent::Trade(t)) if t.market.is_empty()));
    let msg = obj(vec![("event", s("Heartbeat")), ("payload", obj(vec![]))]);
    assert!(parse_market_event(&msg).is_none());
    let msg = obj(vec![("event", s("TickerUpdate"))]);
    assert!(parse_market_event(&msg).is_none());
}

#[test]
fn last_price_precedence() {
    let msg = obj(vec![("payload", obj(vec![("marketPriceE9", s("2")), ("lastPriceE9", num(1))]))]);
    assert_eq!(extract_last_price_e9(&msg), Some("1".to_string()));
    let msg = obj(vec![("markPriceE9", Json::Bool(true)), ("last_price_e9", num(-7))]);
    assert_eq!(extract_last_price_e9(&msg), Some("-7".to_string()));
    let msg = obj(vec![("last_price", float("2500.5"))]);
    assert_eq!(extract_last_price_e9(&msg), Some("2500.5".to_string()));
    let msg = obj(vec![("last_price", s("12"))]);
    assert_eq!(extract_last_price_e9(&msg), Some("12".to_string()));
    assert_eq!(extract_last_price_e9(&obj(vec![])), None);
}

#[test]
fn clients_keep_their_settings() {
    let config = AppConfig {
        env: EnvConfig { name: Environment::Staging },
        rest: RestConfig { exchange_url: "e".to_string(), trade_url: "t".to_string(), auth_url: "a".to_string() },
        ws: WsConfig { market_url: "wss://m".to_string(), account_url: "wss://a".to_string() },
        markets: MarketsConfig { symbols: vec!["ETH-PERP".to_string()] },
        storage: StorageConfig { db_path: "db".to_string(), raw_path: "raw".to_string() },
    };
    let c = WsClient::new(config);
    assert_eq!(c.raw_path(), "raw");
    assert_eq!(c.config().ws.market_url, "wss://m");
    assert_eq!(RawWsConnection::new("wss://x").url(), "wss://x");
    assert_eq!(WsError::ParseError("p".to_string()).text(), "Parse error: p");
}

#[test]
fn account_trade_message_decodes_into_a_fill() {
    let trade = obj(vec![
        ("id", s("t1")),
        ("symbol", s("ETH-PERP")),
        ("orderHash", s("0xh")),
        ("side", s("LONG")),
        ("priceE9", s("2000000000000")),
        ("quantityE9", s("1500000000")),
        ("quoteQuantityE9", s("3000000000000")),
        ("tradingFeeE9", s("1000000")),
        ("tradingFeeAsset", s("USDC")),
        ("executedAtMillis", num(1_700_000_000_000)),
    ]);
    let msg = obj(vec![
        ("event", s("AccountTradeUpdate")),
        ("reason", s("OrderMatched")),
        ("payload", obj(vec![("trade", trade)])),
    ]);
    let events = parse_account_events(&msg, at(5)).unwrap();
    assert_eq!(events.len(), 1);
    match &events[0] {
        AccountEvent::TradeUpdate(e) => {
            assert_eq!(e.fill.fill_id, "t1");
            assert_eq!(e.fill.market, "ETH-PERP");
            assert_eq!(e.fill.side, Side::Buy);
            assert_eq!(e.fill.price, Decimal::new(2000, 0));
            assert_eq!(e.fill.size, Decimal::new(15, 1));
            assert_eq!(e.received_at, at(5));
        }
        other => panic!("unexpected {:?}", other),
    }
}

#[test]
fn undecodable_account_message_is_a_parse_error() {
    let msg = obj(vec![("event", s("NoSuchEvent"))]);
    match parse_account_events(&msg, at(0)) {
        Err(WsError::ParseError(m)) => assert!(!m.is_empty()),
        other => panic!("unexpected {:?}", other),
    }
}
