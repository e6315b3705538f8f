use bluefin_bot::decimal::Decimal;
use bluefin_bot::exec::{cancel_result, create_result, validate_order, CancelResult, ExecError, ExecResult};
use bluefin_bot::submission::validate_submission;
use bluefin_bot::order::{Order, OrderRequest, OrderStatus, OrderType, Side, TimeInForce};
use bluefin_bot::time::Timestamp;

fn d(m: i64, s: u32) -> Decimal {
    Decimal::new(m, s)
}

#[test]
fn validation_refuses_non_positive_sizes() {
    let r = OrderRequest::limit("ETH-PERP", Side::Buy, d(2000, 0), d(0, 0));
    assert_eq!(
        validate_order(&r),
        Err(ExecError::ValidationError("Size must be positive".to_string()))
    );
    let neg = OrderRequest::market("ETH-PERP", Side::Buy, d(-1, 2));
    assert!(validate_order(&neg).is_err());
}

#[test]
fn validation_refuses_limit_orders_without_price() {
    let mut r = OrderRequest::limit("ETH-PERP", Side::Buy, d(2000, 0), d(1, 0));
    r.price = None;
    assert_eq!(
        validate_order(&r),
        Err(ExecError::ValidationError("Limit orders require a price".to_string()))
    );
}

#[test]
fn validation_accepts_post_only_ioc() {
    let r = OrderRequest::limit("ETH-PERP", Side::Buy, d(2000, 0), d(1, 0))
        .with_post_only(true)
        .with_time_in_force(TimeInForce::Ioc);
    assert_eq!(validate_order(&r), Ok(()));
    let m = OrderRequest::market("ETH-PERP", Side::Sell, d(1, 3));
    assert_eq!(validate_order(&m), Ok(()));
}

#[test]
fn created_orders_are_acknowledged_by_hash() {
    let o = Order {
        order_hash: "0xabc".to_string(),
        market: "ETH-PERP".to_string(),
        side: Side::Buy,
        order_type: OrderType::Limit,
        price: None,
        size: d(0, 0),
        filled_size: d(0, 0),
        status: OrderStatus::Open,
        time_in_force: TimeInForce::Gtc,
        reduce_only: false,
        post_only: false,
        client_order_id: None,
        created_at: Timestamp { secs: 0, nanos: 0 },
        updated_at: Timestamp { secs: 0, nanos: 0 },
    };
    match create_result(Ok(o)) {
        ExecResult::Acked { order_hash, .. } => assert_eq!(order_hash, "0xabc"),
        other => panic!("unexpected {:?}", other),
    }
    match create_result(Err("rejected by exchange".to_string())) {
        ExecResult::Rejected { reason } => assert_eq!(reason, "rejected by exchange"),
        other => panic!("unexpected {:?}", other),
    }
}

#[test]
fn cancellations_are_acknowledged_with_hashes() {
    match cancel_result(Ok(vec!["a".to_string(), "b".to_string()])) {
        CancelResult::Acked { order_hashes, .. } => assert_eq!(order_hashes, vec!["a", "b"]),
        other => panic!("unexpected {:?}", other),
    }
    match cancel_result(Err("timeout".to_string())) {
        CancelResult::Failed { reason } => assert_eq!(reason, "timeout"),
        other => panic!("unexpected {:?}", other),
    }
}

#[test]
fn exec_error_texts() {
    assert_eq!(ExecError::CreateFailed("x".to_string()).text(), "Order creation failed: x");
    assert_eq!(ExecError::CancelFailed("y".to_string()).text(), "Order cancellation failed: y");
    assert_eq!(ExecError::ValidationError("z".to_string()).text(), "Validation error: z");
}

#[test]
fn submittable_requests_pass_validation() {
    let requests = vec![
        OrderRequest::limit("ETH-PERP", Side::Buy, d(2000, 0), d(1, 0)),
        OrderRequest::market("ETH-PERP", Side::Sell, d(5, 1)),
        OrderRequest::limit("ETH-PERP", Side::Buy, d(2000, 0), d(1, 0)).with_post_only(true),
    ];
    for r in requests {
        assert_eq!(validate_submission(&r), Ok(()));
        assert_eq!(validate_order(&r), Ok(()));
    }
}
