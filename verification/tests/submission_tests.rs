use bluefin_bot::api::{ApiOrderSide, ApiOrderType, ApiSelfTradePrevention, ApiTimeInForce};
use bluefin_bot::decimal::Decimal;
use bluefin_bot::error::CoreError;
use bluefin_bot::order::{CancelAck, CancelRequest, OrderRequest, OrderStatus, OrderType, Side, TimeInForce};
use bluefin_bot::submission::{
    build_order_request, cancel_ack, cancel_target, convert_order_type, convert_side, convert_tif,
    e9_text, leverage_e9_text, order_from_submission, signed_submission, submission_fields,
    validate_submission, CreateOrderSubmission,
};

fn d(m: i64, s: u32) -> Decimal {
    Decimal::new(m, s)
}

fn request() -> OrderRequest {
    OrderRequest::limit("ETH-PERP", Side::Sell, d(250075, 2), d(15, 1)).with_client_order_id("s:1")
}

fn submission() -> CreateOrderSubmission {
    submission_fields(&request(), "0xacc", "0xids", "3000000000", 42, 2_000, 1_000).unwrap()
}

#[test]
fn conversions_to_exchange_names() {
    assert_eq!(convert_side(Side::Buy), ApiOrderSide::Long);
    assert_eq!(convert_side(Side::Sell), ApiOrderSide::Short);
    assert_eq!(convert_tif(TimeInForce::Gtc), ApiTimeInForce::Gtt);
    assert_eq!(convert_tif(TimeInForce::Ioc), ApiTimeInForce::Ioc);
    assert_eq!(convert_tif(TimeInForce::Fok), ApiTimeInForce::Fok);
    assert_eq!(convert_order_type(OrderType::Market), ApiOrderType::Market);
}

#[test]
fn e9_texts_truncate() {
    assert_eq!(e9_text(d(15, 1)), "1500000000");
    assert_eq!(e9_text(d(1, 10)), "0");
    assert_eq!(e9_text(d(-25, 10)), "-2");
    assert_eq!(e9_text(d(-25, 9)), "-25");
    assert_eq!(e9_text(d(-5, 10)), "-0");
    assert_eq!(e9_text(d(0, 3)), "0");
    assert_eq!(leverage_e9_text(5), "5000000000");
    assert_eq!(leverage_e9_text(0), "0");
}

#[test]
fn submission_validation_errors() {
    let mut r = request();
    r.size = d(0, 0);
    assert_eq!(
        validate_submission(&r),
        Err(CoreError::InvalidQuantity("Order size must be positive".to_string()))
    );
    let mut r = request();
    r.price = None;
    assert_eq!(
        validate_submission(&r),
        Err(CoreError::InvalidPrice("Limit order requires price".to_string()))
    );
    let r = request().with_post_only(true).with_time_in_force(TimeInForce::Ioc);
    assert_eq!(
        validate_submission(&r),
        Err(CoreError::InvalidRequest("post_only requires GTC time_in_force".to_string()))
    );
    assert_eq!(validate_submission(&request()), Ok(()));
}

#[test]
fn submission_carries_the_request() {
    let s = submission();
    let f = &s.signed_fields;
    assert_eq!(f.symbol, "ETH-PERP");
    assert_eq!(f.account_address, "0xacc");
    assert_eq!(f.price_e9, "2500750000000");
    assert_eq!(f.quantity_e9, "1500000000");
    assert_eq!(f.side, ApiOrderSide::Short);
    assert_eq!(f.leverage_e9, "3000000000");
    assert!(!f.is_isolated);
    assert_eq!(f.salt, "42");
    assert_eq!(f.ids_id, "0xids");
    assert_eq!(f.expires_at_millis, 2_000);
    assert_eq!(f.signed_at_millis, 1_000);
    assert_eq!(s.client_order_id, Some("s:1".to_string()));
    assert_eq!(s.order_type, ApiOrderType::Limit);
    assert_eq!(s.post_only, None);
    assert_eq!(s.time_in_force, Some(ApiTimeInForce::Gtt));
    assert_eq!(s.trigger_price_e9, None);
    assert_eq!(s.self_trade_prevention, Some(ApiSelfTradePrevention::Maker));
}

#[test]
fn market_orders_submit_a_zero_price() {
    let r = OrderRequest::market("BTC-PERP", Side::Buy, d(2, 0)).with_post_only(false);
    let s = submission_fields(&r, "a", "i", "1", 0, 0, 0).unwrap();
    assert_eq!(s.signed_fields.price_e9, "0");
    assert_eq!(s.time_in_force, Some(ApiTimeInForce::Ioc));
}

#[test]
fn built_submissions_are_fresh_and_valid_for_six_minutes() {
    let s = build_order_request(&request(), "0xacc", "0xids", "1").unwrap().unwrap();
    let f = &s.signed_fields;
    assert!(f.salt.parse::<u64>().is_ok());
    let window = f.expires_at_millis - f.signed_at_millis;
    assert!((359_000..=361_000).contains(&window));
    assert_eq!(f.quantity_e9, "1500000000");
    let mut bad = request();
    bad.size = d(-1, 0);
    assert!(matches!(build_order_request(&bad, "a", "i", "1"), Some(Err(CoreError::InvalidQuantity(_)))));
}

#[test]
fn readback_recovers_the_request() {
    let o = order_from_submission(submission(), "0xhash".to_string()).unwrap();
    assert_eq!(o.order_hash, "0xhash");
    assert_eq!(o.market, "ETH-PERP");
    assert_eq!(o.side, Side::Sell);
    assert_eq!(o.order_type, OrderType::Limit);
    assert_eq!(o.time_in_force, TimeInForce::Gtc);
    assert_eq!(o.status, OrderStatus::Open);
    assert_eq!(o.price, None);
    assert_eq!(o.size.mantissa(), 0);
    assert_eq!(o.client_order_id, Some("s:1".to_string()));
    assert!(!o.post_only);
}

#[test]
fn readback_errors() {
    let mut s = submission();
    s.signed_fields.side = ApiOrderSide::Unspecified;
    assert_eq!(
        order_from_submission(s, "h".to_string()).unwrap_err(),
        CoreError::InvalidRequest("OrderSide is unspecified; check raw capture for signed_fields.side".to_string())
    );
    let mut s = submission();
    s.order_type = ApiOrderType::StopLimit;
    assert_eq!(
        order_from_submission(s, "h".to_string()).unwrap_err(),
        CoreError::InvalidRequest("Unknown order type in signed request; check raw capture for type".to_string())
    );
    let mut s = submission();
    s.time_in_force = None;
    assert_eq!(
        order_from_submission(s, "h".to_string()).unwrap_err(),
        CoreError::InvalidRequest("time_in_force is missing; check raw capture for time_in_force".to_string())
    );
    let mut s = submission();
    s.time_in_force = Some(ApiTimeInForce::Unspecified);
    assert_eq!(
        order_from_submission(s, "h".to_string()).unwrap_err(),
        CoreError::InvalidRequest(
            "Unknown time_in_force in signed request; check raw capture for time_in_force".to_string()
        )
    );
}

#[test]
fn cancel_targets_and_acks() {
    let single = CancelRequest::Single { market: "ETH-PERP".to_string(), order_hash: "h1".to_string() };
    assert_eq!(cancel_target(&single), ("ETH-PERP".to_string(), Some(vec!["h1".to_string()])));
    let all = CancelRequest::AllForMarket { market: "ETH-PERP".to_string() };
    assert_eq!(cancel_target(&all), ("ETH-PERP".to_string(), None));
    match cancel_ack(single) {
        CancelAck::Single { market, order_hash } => {
            assert_eq!(market, "ETH-PERP");
            assert_eq!(order_hash, "h1");
        }
        other => panic!("unexpected {:?}", other),
    }
    let batch = CancelRequest::Batch { market: "M".to_string(), order_hashes: vec!["a".to_string(), "b".to_string()] };
    assert_eq!(cancel_target(&batch).1, Some(vec!["a".to_string(), "b".to_string()]));
}

const KEY: &str = "0123456789abcdefABCDEF0123456789abcdef0123456789abcdef0123456789";

fn fake_sign(sub: &CreateOrderSubmission, key: [u8; 32]) -> Result<String, String> {
    Ok(format!("{}:{:02x}{:02x}:{}", sub.signed_fields.symbol, key[0], key[31], sub.signed_fields.quantity_e9))
}

#[test]
fn signed_submissions_carry_the_signers_signature() {
    let (sub, sig) = signed_submission(&request(), "0xacc", "0xids", "1", KEY, fake_sign).unwrap().unwrap();
    assert_eq!(sub.signed_fields.symbol, "ETH-PERP");
    assert_eq!(sub.signed_fields.price_e9, "2500750000000");
    assert_eq!(sig, "ETH-PERP:0189:1500000000");
}

#[test]
fn signing_refusals_come_in_order() {
    let mut bad = request();
    bad.size = d(0, 0);
    assert!(matches!(
        signed_submission(&bad, "a", "i", "1", "zz", fake_sign),
        Some(Err(CoreError::InvalidQuantity(_)))
    ));
    match signed_submission(&request(), "a", "i", "1", "zz", fake_sign) {
        Some(Err(CoreError::AuthError(m))) => assert!(m.starts_with("Invalid private key: ")),
        other => panic!("unexpected {:?}", other),
    }
    let failing = |_: &CreateOrderSubmission, _: [u8; 32]| -> Result<String, String> { Err("boom".to_string()) };
    assert_eq!(
        signed_submission(&request(), "a", "i", "1", KEY, failing).unwrap().unwrap_err(),
        CoreError::ApiError("Failed to sign order: boom".to_string())
    );
}
