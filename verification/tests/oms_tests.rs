use bluefin_bot::decimal::Decimal;
use bluefin_bot::event::OrderUpdateEvent;
use bluefin_bot::oms::{
    halt_on_oms_error, sort_orders, OmsError, OrderFilter, OrderManager, OrderSortField, ReconcileResult,
    SaveOutcome,
};
use bluefin_bot::order::{Order, OrderStatus, OrderType, Side, TimeInForce};
use bluefin_bot::time::Timestamp;

fn at(secs: i64) -> Timestamp {
    Timestamp { secs, nanos: 0 }
}

fn order(hash: &str, market: &str, status: OrderStatus, price: i64, created: i64) -> Order {
    Order {
        order_hash: hash.to_string(),
        market: market.to_string(),
        side: Side::Buy,
        order_type: OrderType::Limit,
        price: Some(Decimal::new(price, 0)),
        size: Decimal::new(1, 0),
        filled_size: Decimal::new(0, 0),
        status,
        time_in_force: TimeInForce::Gtc,
        reduce_only: false,
        post_only: false,
        client_order_id: None,
        created_at: at(created),
        updated_at: at(created),
    }
}

fn update(o: Order) -> OrderUpdateEvent {
    OrderUpdateEvent { order: o, received_at: at(0) }
}

fn hashes(v: &[Order]) -> Vec<&str> {
    v.iter().map(|o| o.order_hash.as_str()).collect()
}

#[test]
fn updates_store_live_orders_and_drop_finished_ones() {
    let mut m = OrderManager::new();
    assert_eq!(m.apply_update(update(order("a", "ETH", OrderStatus::Open, 10, 1)), Ok(())), Ok(()));
    assert_eq!(m.get_order("a").unwrap().status, OrderStatus::Open);
    assert_eq!(m.apply_update(update(order("a", "ETH", OrderStatus::Partial, 10, 1)), Ok(())), Ok(()));
    assert_eq!(m.get_order("a").unwrap().status, OrderStatus::Partial);
    assert_eq!(m.apply_update(update(order("a", "ETH", OrderStatus::Filled, 10, 1)), Ok(())), Ok(()));
    assert!(m.get_order("a").is_none());
    assert_eq!(m.active_count(), 0);
}

#[test]
fn invalid_transitions_are_refused_without_change() {
    let mut m = OrderManager::new();
    m.apply_update(update(order("a", "ETH", OrderStatus::Partial, 10, 1)), Ok(())).unwrap();
    let r = m.apply_update(update(order("a", "ETH", OrderStatus::Open, 11, 1)), Ok(()));
    assert_eq!(r, Err(OmsError::InvalidTransition { from: "partial".to_string(), to: "open".to_string() }));
    assert_eq!(m.get_order("a").unwrap().price, Some(Decimal::new(10, 0)));
    // Open -> Open is no transition the lifecycle allows.
    m.apply_update(update(order("b", "ETH", OrderStatus::Open, 10, 1)), Ok(())).unwrap();
    assert!(m.apply_update(update(order("b", "ETH", OrderStatus::Open, 10, 1)), Ok(())).is_err());
    assert!(m.is_valid_transition(OrderStatus::Open, OrderStatus::Expired));
    assert!(!m.is_valid_transition(OrderStatus::Filled, OrderStatus::Cancelled));
}

#[test]
fn storage_errors_leave_the_state_unchanged() {
    let mut m = OrderManager::new();
    let r = m.apply_update(update(order("a", "ETH", OrderStatus::Open, 10, 1)), Err("disk full".to_string()));
    assert_eq!(r, Err(OmsError::StorageError("disk full".to_string())));
    assert!(m.get_order("a").is_none());
}

#[test]
fn queries_filter_sort_and_page() {
    let mut m = OrderManager::new();
    m.apply_update(update(order("a", "ETH", OrderStatus::Open, 30, 3)), Ok(())).unwrap();
    m.apply_update(update(order("b", "ETH", OrderStatus::Partial, 10, 1)), Ok(())).unwrap();
    m.apply_update(update(order("c", "BTC", OrderStatus::Open, 20, 2)), Ok(())).unwrap();
    let f = OrderFilter { market: Some("ETH".to_string()), sort_by: Some(OrderSortField::Price), ..OrderFilter::default() };
    assert_eq!(hashes(&m.get_orders(f)), vec!["b", "a"]);
    let f = OrderFilter { sort_by: Some(OrderSortField::CreatedAt), sort_desc: true, offset: Some(1), limit: Some(1), ..OrderFilter::default() };
    assert_eq!(hashes(&m.get_orders(f)), vec!["c"]);
    let f = OrderFilter { status: Some(vec![OrderStatus::Partial]), ..OrderFilter::default() };
    assert_eq!(hashes(&m.get_orders(f)), vec!["b"]);
    assert_eq!(m.get_open_orders(Some("BTC")).len(), 1);
    assert_eq!(m.get_open_orders(None).len(), 3);
    assert_eq!(m.get_all_active().len(), 3);
    assert_eq!(m.active_count(), 3);
}

#[test]
fn sorting_orders_by_key() {
    let v = vec![
        order("x", "M", OrderStatus::Open, 5, 2),
        order("y", "M", OrderStatus::Open, 1, 2),
        order("z", "M", OrderStatus::Open, 5, 1),
    ];
    assert_eq!(hashes(&sort_orders(&v, OrderSortField::Price, false)), vec!["y", "x", "z"]);
    assert_eq!(hashes(&sort_orders(&v, OrderSortField::CreatedAt, true)), vec!["x", "y", "z"]);
}

#[test]
fn initialization_from_rest() {
    let mut m = OrderManager::new();
    let orders = vec![order("a", "ETH", OrderStatus::Open, 1, 1), order("b", "ETH", OrderStatus::Open, 1, 1)];
    let r = m.init_from_rest(orders.clone(), SaveOutcome::FailedAt { index: 1, message: "io".to_string() });
    assert_eq!(r, Err(OmsError::StorageError("io".to_string())));
    assert!(m.get_order("a").is_some());
    assert!(m.get_order("b").is_none());
    assert!(m.last_reconcile_time().is_none());
    assert_eq!(m.init_from_rest(orders, SaveOutcome::AllSaved), Ok(()));
    assert!(m.get_order("b").is_some());
    assert!(m.last_reconcile_time().is_some());
}

#[test]
fn reconciliation_mirrors_the_snapshot() {
    let mut m = OrderManager::new();
    m.apply_update(update(order("a", "ETH", OrderStatus::Open, 1, 1)), Ok(())).unwrap();
    m.apply_update(update(order("b", "ETH", OrderStatus::Open, 1, 1)), Ok(())).unwrap();
    let rest = vec![order("b", "ETH", OrderStatus::Partial, 2, 1), order("c", "BTC", OrderStatus::Open, 3, 1)];
    let r = m.reconcile(rest, SaveOutcome::AllSaved).unwrap();
    assert_eq!(r, ReconcileResult { added: 1, updated: 1, removed: 1 });
    assert!(m.get_order("a").is_none());
    assert_eq!(m.get_order("b").unwrap().status, OrderStatus::Partial);
    assert!(m.get_order("c").is_some());
    assert!(m.last_reconcile_time().is_some());
}

#[test]
fn failed_reconciliation_keeps_saved_prefix() {
    let mut m = OrderManager::new();
    m.apply_update(update(order("a", "ETH", OrderStatus::Open, 1, 1)), Ok(())).unwrap();
    let rest = vec![order("b", "ETH", OrderStatus::Open, 2, 1), order("c", "ETH", OrderStatus::Open, 3, 1)];
    let r = m.reconcile(rest, SaveOutcome::FailedAt { index: 1, message: "locked".to_string() });
    assert_eq!(r, Err(OmsError::StorageError("locked".to_string())));
    assert!(m.get_order("a").is_some());
    assert!(m.get_order("b").is_some());
    assert!(m.get_order("c").is_none());
    assert!(m.last_reconcile_time().is_none());
}

#[test]
fn oms_error_texts_and_halt() {
    let e = OmsError::InvalidTransition { from: "filled".to_string(), to: "open".to_string() };
    assert_eq!(e.text(), "Invalid state transition: filled -> open");
    assert_eq!(halt_on_oms_error(&e), "OMS error detected; halt trading: Invalid state transition: filled -> open");
    assert_eq!(OmsError::OrderNotFound("h".to_string()).text(), "Order not found: h");
}
