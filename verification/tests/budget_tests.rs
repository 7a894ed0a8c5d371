use tinyfusion_core::budget::{current_day_month, BudgetManager};
use tinyfusion_core::calendar::days_to_ymd;
use tinyfusion_core::config::BudgetConfig;

fn test_config() -> BudgetConfig {
    BudgetConfig {
        daily_limit: 100_000,
        monthly_limit: 1_000_000,
        persist_interval_secs: 0,
    }
}

fn unlimited_config() -> BudgetConfig {
    BudgetConfig {
        daily_limit: 0,
        monthly_limit: 0,
        persist_interval_secs: 60,
    }
}

#[test]
fn test_can_afford_within_limits() {
    let mgr = BudgetManager::new(test_config());
    assert!(mgr.can_afford(50_000));
}

#[test]
fn test_can_afford_exceeds_daily() {
    let mut mgr = BudgetManager::new(test_config());
    mgr.record(90_000, false);
    assert!(!mgr.can_afford(20_000));
}

#[test]
fn test_can_afford_exceeds_monthly() {
    let mut mgr = BudgetManager::new(BudgetConfig {
        daily_limit: 0,
        monthly_limit: 100_000,
        persist_interval_secs: 60,
    });
    mgr.record(90_000, false);
    assert!(!mgr.can_afford(20_000));
}

#[test]
fn test_local_tokens_dont_count_against_budget() {
    let mut mgr = BudgetManager::new(test_config());
    mgr.record(200_000, true);
    assert!(mgr.can_afford(100_000));
}

#[test]
fn test_unlimited_always_affords() {
    let mut mgr = BudgetManager::new(unlimited_config());
    mgr.record(999_999_999, false);
    assert!(mgr.can_afford(999_999_999));
}

#[test]
fn test_snapshot() {
    let mut mgr = BudgetManager::new(test_config());
    mgr.record(5000, false);
    let snap = mgr.snapshot();
    assert_eq!(snap.daily_tokens, 5000);
    assert_eq!(snap.monthly_tokens, 5000);
    assert_eq!(snap.daily_limit, 100_000);
    assert_eq!(snap.monthly_limit, 1_000_000);
}

#[test]
fn test_zero_tokens_ignored() {
    let mut mgr = BudgetManager::new(test_config());
    mgr.record(0, false);
    let snap = mgr.snapshot();
    assert_eq!(snap.daily_tokens, 0);
}

#[test]
fn test_days_to_ymd_epoch() {
    let (y, m, d) = days_to_ymd(0);
    assert_eq!((y, m, d), (1970, 1, 1));
}

#[test]
fn test_days_to_ymd_known_date() {
    // 2026-06-26 = day 20630 since epoch
    let days = 20630;
    let (y, m, d) = days_to_ymd(days);
    assert_eq!((y, m, d), (2026, 6, 26));
}

#[test]
fn test_current_day_month_format() {
    let (day, month) = current_day_month();
    assert_eq!(day.len(), 10); // YYYY-MM-DD
    assert_eq!(month.len(), 7); // YYYY-MM
    assert!(day.starts_with(&month));
}
