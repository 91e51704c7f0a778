use pneuma::coach::compute_pools_summary_for;
use pneuma::error::BudgetError;
use pneuma::ledger::Ledger;
use pneuma::pools::{clamp_i64, compute_pools_summary, floor_to_thousand, today_summary, Config, PoolsSummary};

const TODAY: &str = "2025-05-10";

fn summary_after(min_floor: i64, max_ceil: i64, resilience_days: i64, income: i64, expense: i64) -> PoolsSummary {
    let config = Config::new(min_floor, max_ceil, resilience_days).expect("config");
    let mut ledger = Ledger::new();
    if income > 0 {
        ledger.add_income(income, TODAY, 1).expect("income");
    }
    if expense > 0 {
        ledger.add_expense(expense, TODAY, 2).expect("expense");
    }
    compute_pools_summary_for(&ledger, &config, TODAY).expect("summary")
}

#[test]
fn recommended_min_floor_when_penyangga_tercapai() {
    let summary = summary_after(100, 1000, 10, 1100, 0);
    assert_eq!(summary.recommended_spend_today, 100);
}

#[test]
fn recommended_max_ceil_when_fleksibel_besar() {
    let summary = summary_after(100, 500, 10, 7000, 0);
    // 600 per day is capped at 500, rounded down to 0, then raised back to the floor.
    assert_eq!(summary.flexible_fund, 6000);
    assert_eq!(summary.recommended_spend_today, 100);
}

#[test]
fn recommended_can_be_below_min_floor_when_penyangga_belum_aman() {
    let summary = summary_after(100, 500, 10, 500, 0);
    assert_eq!(summary.recommended_spend_today, 0);
}

#[test]
fn recommended_floor_to_thousand() {
    let summary = summary_after(0, 100_000, 1, 29_285, 0);
    assert_eq!(summary.recommended_spend_today, 29_000);
}

#[test]
fn recommended_respects_min_floor_when_not_round() {
    let summary = summary_after(20_500, 100_000, 1, 20_700, 0);
    assert_eq!(summary.recommended_spend_today, 20_500);
}

#[test]
fn recommended_rounds_down_when_penyangga_belum_aman() {
    let summary = summary_after(1_000, 100_000, 2, 1_500, 0);
    assert_eq!(summary.recommended_spend_today, 0);
}

#[test]
fn hari_ketahanan_stop_pemasukan_never_negative() {
    let summary = summary_after(100, 500, 10, 0, 500);
    assert_eq!(summary.resilience_days_estimate, 0);
}

#[test]
fn summary_fields_for_buffer_reached() {
    let config = Config::new(1000, 100_000, 10).unwrap();
    let s = compute_pools_summary(&config, 100_500, 500, 150);
    assert_eq!(s.net_balance, 100_000);
    assert_eq!(s.target_buffer, 10_000);
    assert_eq!(s.flexible_fund, 90_000);
    assert_eq!(s.recommended_spend_today, 9_000);
    assert_eq!(s.today_remaining, 8_850);
    assert_eq!(s.today_remaining_clamped, 8_850);
    assert!(!s.overspent_today);
    assert_eq!(s.resilience_days_estimate, 100);
}

#[test]
fn summary_overspent_with_negative_remaining() {
    let config = Config::new(100, 1000, 10).unwrap();
    let s = compute_pools_summary(&config, 1100, 0, 250);
    assert_eq!(s.recommended_spend_today, 100);
    assert_eq!(s.today_remaining, -150);
    assert_eq!(s.today_remaining_clamped, 0);
    assert!(s.overspent_today);
    let t = today_summary(&s);
    assert_eq!(t.today_remaining, -150);
    assert!(t.overspent_today);
}

#[test]
fn summary_zero_min_floor_gives_zero_estimate() {
    let config = Config::new(0, 100_000, 1).unwrap();
    let s = compute_pools_summary(&config, 29_285, 0, 0);
    assert_eq!(s.resilience_days_estimate, 0);
}

#[test]
fn estimate_uses_floor_division() {
    let config = Config::new(300, 1000, 1).unwrap();
    let s = compute_pools_summary(&config, 1000, 0, 0);
    assert_eq!(s.resilience_days_estimate, 3);
    let negative = compute_pools_summary(&config, 0, 700, 0);
    assert_eq!(negative.net_balance, -700);
    assert_eq!(negative.resilience_days_estimate, 0);
}

#[test]
fn clamp_and_floor_helpers() {
    assert_eq!(clamp_i64(5, 10, 20), 10);
    assert_eq!(clamp_i64(25, 10, 20), 20);
    assert_eq!(clamp_i64(15, 10, 20), 15);
    assert_eq!(floor_to_thousand(29_285), 29_000);
    assert_eq!(floor_to_thousand(999), 0);
    assert_eq!(floor_to_thousand(-5), 0);
}

#[test]
fn config_validation_errors() {
    assert_eq!(Config::new(-1, 10, 1), Err(BudgetError::NegativeBound));
    assert_eq!(Config::new(1, -10, 1), Err(BudgetError::NegativeBound));
    assert_eq!(Config::new(1, 10, 0), Err(BudgetError::InvalidResilienceDays));
    assert_eq!(Config::new(11, 10, 1), Err(BudgetError::FloorAboveCeiling));
    assert_eq!(
        Config::new(10, 10, 1),
        Ok(Config { min_floor: 10, max_ceil: 10, resilience_days: 1 })
    );
}

#[test]
fn summary_overflow_is_reported() {
    let config = Config::new(i64::MAX / 2, i64::MAX / 2, 3).unwrap();
    let ledger = Ledger::new();
    assert_eq!(
        compute_pools_summary_for(&ledger, &config, TODAY),
        Err(BudgetError::AmountOverflow)
    );
}

#[test]
fn summary_counts_only_todays_expenses_as_today_out() {
    let config = Config::new(100, 1000, 10).unwrap();
    let mut ledger = Ledger::new();
    ledger.add_income(5000, "2025-05-01", 1).unwrap();
    ledger.add_expense(300, "2025-05-09", 2).unwrap();
    ledger.add_expense(120, TODAY, 3).unwrap();
    let s = compute_pools_summary_for(&ledger, &config, TODAY).unwrap();
    assert_eq!(s.total_in, 5000);
    assert_eq!(s.total_out, 420);
    assert_eq!(s.today_out, 120);
}
