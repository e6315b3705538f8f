use bluefin_bot::balance::Balance;
use bluefin_bot::balance_manager::{BalanceError, BalanceManager};
use bluefin_bot::decimal::Decimal;
use bluefin_bot::event::BalanceUpdateEvent;
use bluefin_bot::oms::SaveOutcome;
use bluefin_bot::time::Timestamp;

fn d(m: i64, s: u32) -> Decimal {
    Decimal::new(m, s)
}

fn event(asset: &str, total: i64, available: i64) -> BalanceUpdateEvent {
    BalanceUpdateEvent { balance: Balance::new(asset, d(total, 0), d(available, 0)), received_at: Timestamp { secs: 0, nanos: 0 } }
}

#[test]
fn balances_lock_the_difference() {
    let b = Balance::new("USDC", d(100, 0), d(60, 0));
    assert_eq!(b.locked, d(40, 0));
    assert!(Balance::checked_new("USDC", d(1, 0), d(1, 0)).is_some());
}

#[test]
fn read_after_update() {
    let mut m = BalanceManager::new();
    assert_eq!(m.get_sync_status(), (None, None));
    assert_eq!(m.apply_update(event("USDC", 100, 60), Ok(())), Ok(()));
    assert_eq!(m.get_available("USDC"), Some(d(60, 0)));
    assert_eq!(m.get_total("USDC"), Some(d(100, 0)));
    assert!(m.get_sync_status().1.is_some());
    m.apply_update(event("USDC", 80, 80), Ok(())).unwrap();
    assert_eq!(m.get_available("USDC"), Some(d(80, 0)));
    assert_eq!(m.get_all_balances().len(), 1);
    assert!(m.get_balance("SUI").is_none());
}

#[test]
fn sufficiency_compares_available_balance() {
    let mut m = BalanceManager::new();
    m.apply_update(event("USDC", 100, 60), Ok(())).unwrap();
    assert!(m.has_sufficient("USDC", d(60, 0)));
    assert!(!m.has_sufficient("USDC", d(6001, 2)));
    assert!(!m.has_sufficient("SUI", d(0, 0)));
}

#[test]
fn storage_errors_leave_balances_unchanged() {
    let mut m = BalanceManager::new();
    let r = m.apply_update(event("USDC", 1, 1), Err("db".to_string()));
    assert_eq!(r, Err(BalanceError::StorageError("db".to_string())));
    assert!(m.get_balance("USDC").is_none());
    assert_eq!(m.get_sync_status(), (None, None));
}

#[test]
fn initialization_replaces_all_balances() {
    let mut m = BalanceManager::new();
    m.apply_update(event("OLD", 1, 1), Ok(())).unwrap();
    let balances = vec![Balance::new("USDC", d(5, 0), d(5, 0)), Balance::new("SUI", d(7, 0), d(2, 0))];
    assert_eq!(m.init_from_rest(balances, SaveOutcome::AllSaved), Ok(()));
    assert!(m.get_balance("OLD").is_none());
    assert_eq!(m.get_total("SUI"), Some(d(7, 0)));
    assert!(m.get_sync_status().0.is_some());
    let mut m2 = BalanceManager::new();
    let balances = vec![Balance::new("A", d(1, 0), d(1, 0)), Balance::new("B", d(1, 0), d(1, 0))];
    let r = m2.init_from_rest(balances, SaveOutcome::FailedAt { index: 1, message: "x".to_string() });
    assert_eq!(r, Err(BalanceError::StorageError("x".to_string())));
    assert!(m2.get_balance("A").is_some());
    assert!(m2.get_balance("B").is_none());
    assert_eq!(BalanceError::NotFound("A".to_string()).text(), "Balance not found for asset: A");
}
