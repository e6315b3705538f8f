use bluefin_bot::decimal::Decimal;
use bluefin_bot::exec::ExecError;
use bluefin_bot::intent::{Intent, IntentPriceSpec, IntentSizeSpec};
use bluefin_bot::market_meta::{MarketMeta, MarketSnapshot};
use bluefin_bot::normalize::{
    decimal_to_e9, e9_to_decimal, enforce_policy, normalize_intent, snap_value, try_decimal_to_e9,
    try_e9_to_decimal, try_enforce_policy, try_normalize_intent, NormalizationPolicy, PolicyMode,
    RoundingMode,
};
use bluefin_bot::order::{OrderType, Side, TimeInForce};
use bluefin_bot::time::Timestamp;

fn d(m: i64, s: u32) -> Decimal {
    Decimal::new(m, s)
}

fn snapshot() -> MarketSnapshot {
    MarketSnapshot {
        markets: vec![MarketMeta {
            market: "ETH-PERP".to_string(),
            tick_size_e9: 100_000_000,
            step_size_e9: 10_000_000,
            min_order_quantity_e9: 10_000_000,
            min_order_price_e9: 1,
            max_order_price_e9: 1_000_000_000_000_000,
        }],
    }
}

fn policy(mode: PolicyMode, max_bps: i64) -> NormalizationPolicy {
    NormalizationPolicy {
        price_policy: mode,
        size_policy: mode,
        price_rounding: RoundingMode::Nearest,
        size_rounding: RoundingMode::Down,
        max_deviation_bps: max_bps,
    }
}

fn intent(price: IntentPriceSpec, size: Decimal, order_type: OrderType) -> Intent {
    Intent {
        intent_id: "i1".to_string(),
        strategy_id: "s1".to_string(),
        market: "ETH-PERP".to_string(),
        side: Side::Buy,
        order_type,
        price_spec: price,
        size_spec: IntentSizeSpec::Quantity(size),
        time_in_force: TimeInForce::Gtc,
        post_only: true,
        reduce_only: false,
        cancel_after_ms: None,
        tags: vec![],
        created_at: Timestamp { secs: 0, nanos: 0 },
    }
}

fn validation(r: Result<impl std::fmt::Debug, ExecError>) -> String {
    match r {
        Err(ExecError::ValidationError(m)) => m,
        other => panic!("unexpected {:?}", other),
    }
}

#[test]
fn snapping_moves_onto_the_step() {
    assert_eq!(snap_value(1_234, 100, RoundingMode::Down), 1_200);
    assert_eq!(snap_value(1_234, 100, RoundingMode::Up), 1_300);
    assert_eq!(snap_value(1_234, 100, RoundingMode::Nearest), 1_200);
    assert_eq!(snap_value(1_250, 100, RoundingMode::Nearest), 1_300);
    assert_eq!(snap_value(1_200, 100, RoundingMode::Up), 1_200);
    assert_eq!(snap_value(-1_234, 100, RoundingMode::Down), -1_200);
    assert_eq!(snap_value(-1_234, 100, RoundingMode::Up), -1_100);
    assert_eq!(snap_value(7, 0, RoundingMode::Up), 7);
}

#[test]
fn e9_conversions() {
    assert_eq!(decimal_to_e9(d(15, 1)), Ok(1_500_000_000));
    assert_eq!(decimal_to_e9(d(5, 10)), Ok(0));
    assert_eq!(decimal_to_e9(d(15, 10)), Ok(2));
    assert_eq!(e9_to_decimal(2_500_000_000), d(25, 1));
}

#[test]
fn policies_reject_or_snap_within_deviation() {
    assert_eq!(
        validation(enforce_policy(1_050_000_000, 1_000_000_000, PolicyMode::Reject, RoundingMode::Down, 0, "price")),
        "price is not aligned with step"
    );
    assert_eq!(
        validation(enforce_policy(1_050_000_000, 1_000_000_000, PolicyMode::Snap, RoundingMode::Down, 100, "price")),
        "price deviation 476 bps exceeds max 100 bps"
    );
    assert_eq!(
        enforce_policy(1_050_000_000, 1_000_000_000, PolicyMode::Snap, RoundingMode::Down, 500, "price"),
        Ok(1_000_000_000)
    );
    assert_eq!(
        enforce_policy(1_050_000_000, 1_000_000_000, PolicyMode::Snap, RoundingMode::Up, 0, "size"),
        Ok(2_000_000_000)
    );
    assert_eq!(enforce_policy(3_000, 1_000, PolicyMode::Reject, RoundingMode::Up, 0, "size"), Ok(3_000));
}

#[test]
fn intents_become_requests() {
    let i = intent(IntentPriceSpec::Absolute(d(250012, 2)), d(1234, 3), OrderType::Limit);
    let r = normalize_intent(&i, &snapshot(), &policy(PolicyMode::Snap, 0), None).unwrap();
    assert_eq!(r.price, Some(d(25001, 1)));
    assert_eq!(r.size, d(123, 2));
    assert_eq!(r.client_order_id, Some("s1:i1".to_string()));
    assert_eq!(r.market, "ETH-PERP");
    assert!(r.post_only);
    assert_eq!(r.time_in_force, TimeInForce::Gtc);
}

#[test]
fn offsets_apply_to_the_last_price() {
    let i = intent(IntentPriceSpec::OffsetBps(-100), d(1, 0), OrderType::Limit);
    let r = normalize_intent(&i, &snapshot(), &policy(PolicyMode::Snap, 0), Some(d(2000, 0))).unwrap();
    assert_eq!(r.price, Some(d(1980, 0)));
    let m = intent(IntentPriceSpec::OffsetBps(50), d(1, 0), OrderType::Market);
    let r = normalize_intent(&m, &snapshot(), &policy(PolicyMode::Snap, 0), None).unwrap();
    assert_eq!(r.price, None);
}

#[test]
fn normalization_errors() {
    let mut unknown = intent(IntentPriceSpec::Market, d(1, 0), OrderType::Market);
    unknown.market = "SOL-PERP".to_string();
    assert_eq!(
        validation(normalize_intent(&unknown, &snapshot(), &policy(PolicyMode::Snap, 0), None)),
        "Unknown market in snapshot: SOL-PERP"
    );
    let offset = intent(IntentPriceSpec::OffsetBps(10), d(1, 0), OrderType::Limit);
    assert_eq!(
        validation(normalize_intent(&offset, &snapshot(), &policy(PolicyMode::Snap, 0), None)),
        "Missing last_price for offset_bps intent; check raw capture"
    );
    let tiny_price = intent(IntentPriceSpec::Absolute(d(1, 2)), d(1, 0), OrderType::Limit);
    assert_eq!(
        validation(normalize_intent(&tiny_price, &snapshot(), &policy(PolicyMode::Snap, 0), None)),
        "Price snaps to 0"
    );
    let small = intent(IntentPriceSpec::Market, d(5, 3), OrderType::Market);
    assert_eq!(
        validation(normalize_intent(&small, &snapshot(), &policy(PolicyMode::Snap, 0), None)),
        "Order size below minimum"
    );
    let misaligned = intent(IntentPriceSpec::Market, d(1234, 3), OrderType::Market);
    assert_eq!(
        validation(normalize_intent(&misaligned, &snapshot(), &policy(PolicyMode::Reject, 0), None)),
        "size is not aligned with step"
    );
    assert!(try_normalize_intent(&small, &snapshot(), &policy(PolicyMode::Snap, 0), None).is_some());
}

#[test]
fn e9_round_trip() {
    for x in [0i128, 1, -1, 1_500_000_000, -123_456_789_012, 79_228_162_514_264_337_593, 79_228_162_514_264_337_593_543_950_335, -79_228_162_514_264_337_593_543_950_335, 12_345_678_901_234_567_890_123_456_789] {
        let d = e9_to_decimal(x);
        assert!(d.scale() <= 9);
        assert_eq!(decimal_to_e9(d).unwrap(), x);
        assert_eq!(try_decimal_to_e9(try_e9_to_decimal(x).unwrap()), Some(x));
    }
    assert_eq!(e9_to_decimal(1_500_000_000), d(15, 1));
    assert!(try_e9_to_decimal(i128::MAX).is_none());
}

#[test]
fn enforce_policy_testing_version() {
    assert_eq!(
        try_enforce_policy(1_050, 100, PolicyMode::Snap, RoundingMode::Down, 0, "price"),
        Some(Ok(1_000))
    );
    assert_eq!(
        try_enforce_policy(1_000, 100, PolicyMode::Reject, RoundingMode::Down, 0, "price"),
        Some(Ok(1_000))
    );
    match try_enforce_policy(1_050, 100, PolicyMode::Reject, RoundingMode::Down, 0, "size") {
        Some(Err(ExecError::ValidationError(m))) => assert_eq!(m, "size is not aligned with step"),
        other => panic!("unexpected {:?}", other),
    }
    assert_eq!(try_enforce_policy(i128::MAX, 2, PolicyMode::Snap, RoundingMode::Up, 0, "size"), None);
}
