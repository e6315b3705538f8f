use bluefin_bot::confirm::{confirm_from_event, confirm_status_from_order_status, ConfirmStatus};
use bluefin_bot::decimal::Decimal;
use bluefin_bot::event::{AccountEvent, OrderUpdateEvent, PositionUpdateEvent};
use bluefin_bot::market_meta::{MarketMeta, MarketSnapshot};
use bluefin_bot::order::{
    CancelRequest, Order, OrderRequest, OrderStatus, OrderType, Side, TimeInForce,
};
use bluefin_bot::redact::redact_id;
use bluefin_bot::rest::parse_millis;
use bluefin_bot::json::Json;
use bluefin_bot::time::Timestamp;

fn d(m: i64, s: u32) -> Decimal {
    Decimal::new(m, s)
}

fn ts(secs: i64) -> Timestamp {
    Timestamp { secs, nanos: 0 }
}

fn order(hash: &str, status: OrderStatus) -> Order {
    Order {
        order_hash: hash.to_string(),
        market: "ETH-PERP".to_string(),
        side: Side::Buy,
        order_type: OrderType::Limit,
        price: Some(d(2000, 0)),
        size: d(15, 1),
        filled_size: d(5, 1),
        status,
        time_in_force: TimeInForce::Gtc,
        reduce_only: false,
        post_only: false,
        client_order_id: None,
        created_at: ts(10),
        updated_at: ts(20),
    }
}

#[test]
fn decimal_construction() {
    let x = Decimal::new(150, 2);
    assert_eq!((x.mantissa(), x.scale()), (150, 2));
    assert_eq!(Decimal::from_parts(-7, 3), d(-7, 3));
    assert_eq!(Decimal::zero().mantissa(), 0);
    assert_eq!(Decimal::one(), d(1, 0));
    assert_eq!(Decimal::from_i64(-4), d(-4, 0));
    assert_eq!(Decimal::from_u64(9), d(9, 0));
    assert_eq!(Decimal::from_i128(12), d(12, 0));
    assert!(Decimal::try_from_i128(i128::MAX).is_none());
    assert!(Decimal::zero().is_zero());
    assert_eq!(d(-3, 0).abs(), d(3, 0));
}

#[test]
fn decimal_comparison_is_numeric() {
    assert!(d(1, 0) == d(100, 2));
    assert!(d(1, 0).num_eq(&d(10, 1)));
    assert!(d(1, 0).lt(&d(11, 1)));
    assert!(!d(11, 1).lt(&d(1, 0)));
    assert!(!d(1, 0).lt(&d(1, 0)));
}

#[test]
fn decimal_arithmetic() {
    let p = d(15, 1).mul(&d(2, 0));
    assert_eq!((p.mantissa(), p.scale()), (30, 1));
    assert_eq!(d(15, 1).sub(&d(5, 1)), d(1, 0));
    assert_eq!(d(3, 0).div(&d(2, 0)), d(15, 1));
}

#[test]
fn integer_text_of_times() {
    let s = |x: &str| Json::String(x.to_string());
    assert_eq!(parse_millis(Some(&s("+1500"))), Some(Timestamp { secs: 1, nanos: 500_000_000 }));
    assert_eq!(parse_millis(Some(&s("-"))), None);
    assert_eq!(parse_millis(Some(&s("1.5"))), None);
    assert_eq!(parse_millis(Some(&s("99999999999999999999"))), None);
}

#[test]
fn redaction_keeps_four_characters_each_side() {
    assert_eq!(redact_id("0x1234567890abcdef"), "0x12***cdef");
    assert_eq!(redact_id("short"), "***");
    assert_eq!(redact_id("12345678"), "***");
}

#[test]
fn instants_in_milliseconds() {
    assert_eq!(Timestamp { secs: 2, nanos: 345_000_000 }.millis(), 2345);
    assert_eq!(Timestamp { secs: -1, nanos: 999_000_000 }.millis(), -1);
}

#[test]
fn timestamps_order_by_seconds_then_nanos() {
    let a = Timestamp { secs: 1, nanos: 5 };
    let b = Timestamp { secs: 1, nanos: 6 };
    assert!(a.le(&b));
    assert!(!b.le(&a));
    assert_eq!(a.plus_seconds(10).secs, 11);
}

#[test]
fn display_texts() {
    assert_eq!(Side::Buy.display_text(), "BUY");
    assert_eq!(Side::Sell.display_text(), "SELL");
    assert_eq!(TimeInForce::Gtc.display_text(), "GTC");
    assert_eq!(OrderStatus::Partial.display_text(), "partial");
    assert_eq!(TimeInForce::default(), TimeInForce::Gtc);
}

#[test]
fn request_builders() {
    let r = OrderRequest::limit("ETH-PERP", Side::Sell, d(2000, 0), d(1, 0))
        .with_post_only(true)
        .with_reduce_only(true)
        .with_client_order_id("c1");
    assert_eq!(r.order_type, OrderType::Limit);
    assert_eq!(r.time_in_force, TimeInForce::Gtc);
    assert!(r.post_only && r.reduce_only);
    assert_eq!(r.client_order_id, Some("c1".to_string()));
    let m = OrderRequest::market("BTC-PERP", Side::Buy, d(2, 0)).with_time_in_force(TimeInForce::Fok);
    assert_eq!(m.price, None);
    assert_eq!(m.time_in_force, TimeInForce::Fok);
}

#[test]
fn order_remaining_and_lifecycle() {
    let o = order("h", OrderStatus::Partial);
    assert_eq!(o.remaining_size(), d(1, 0));
    assert!(o.is_active());
    assert!(!o.is_terminal());
    let f = order("h", OrderStatus::Filled);
    assert!(f.is_terminal());
    assert!(!f.is_active());
}

#[test]
fn confirm_statuses() {
    assert_eq!(confirm_status_from_order_status(OrderStatus::Open), ConfirmStatus::Active);
    assert_eq!(confirm_status_from_order_status(OrderStatus::Partial), ConfirmStatus::PartiallyFilled);
    assert_eq!(confirm_status_from_order_status(OrderStatus::Filled), ConfirmStatus::Filled);
    assert_eq!(confirm_status_from_order_status(OrderStatus::Cancelled), ConfirmStatus::Canceled);
    assert_eq!(confirm_status_from_order_status(OrderStatus::Expired), ConfirmStatus::Expired);
    assert_eq!(confirm_status_from_order_status(OrderStatus::Rejected), ConfirmStatus::TimedOut);
    assert_eq!(ConfirmStatus::from(OrderStatus::Filled), ConfirmStatus::Filled);
}

#[test]
fn confirmation_comes_from_the_order_update() {
    let ev = AccountEvent::OrderUpdate(OrderUpdateEvent {
        order: order("abc", OrderStatus::Filled),
        received_at: ts(1),
    });
    assert_eq!(confirm_from_event(&ev, "abc"), Some(ConfirmStatus::Filled));
    assert_eq!(confirm_from_event(&ev, "other"), None);
    let pos = AccountEvent::PositionUpdate(PositionUpdateEvent {
        market: "ETH-PERP".to_string(),
        payload: Json::Null,
        received_at: ts(1),
    });
    assert_eq!(confirm_from_event(&pos, "abc"), None);
}

fn meta(market: &str, tick: i64) -> MarketMeta {
    MarketMeta {
        market: market.to_string(),
        tick_size_e9: tick,
        step_size_e9: 1_000_000,
        min_order_quantity_e9: 1_000_000,
        min_order_price_e9: 1,
        max_order_price_e9: 1_000_000_000_000,
    }
}

#[test]
fn snapshot_lookup() {
    let snap = MarketSnapshot { markets: vec![meta("ETH-PERP", 1), meta("BTC-PERP", 2), meta("ETH-PERP", 3)] };
    assert_eq!(snap.get("ETH-PERP").unwrap().tick_size_e9, 1);
    assert!(snap.get("SOL-PERP").is_none());
    let map = snap.as_map();
    assert_eq!(map.len(), 2);
    assert_eq!(map[0].0, "ETH-PERP");
    assert_eq!(map[0].1.tick_size_e9, 3);
    assert_eq!(map[1].0, "BTC-PERP");
    assert_eq!(map[1].1.tick_size_e9, 2);
}

#[test]
fn cancel_request_is_cloneable() {
    let c = CancelRequest::Batch { market: "ETH-PERP".to_string(), order_hashes: vec!["a".to_string()] };
    match c.clone() {
        CancelRequest::Batch { order_hashes, .. } => assert_eq!(order_hashes, vec!["a".to_string()]),
        _ => panic!("wrong variant"),
    }
}
