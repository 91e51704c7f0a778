use pneuma::calendar::date_range_last_7_days;
use pneuma::coach::{check_coach_mode, compute_coaching_insight, maybe_record_memory};
use pneuma::error::BudgetError;
use pneuma::insight::{
    build_continuity_line, build_memory_reflection, build_memory_tags, build_time_context, select_insight_rule,
    select_rule, time_bucket_of, CoachingInsight, InsightInputs, InsightRule, TimeBucket,
};
use pneuma::ledger::Ledger;
use pneuma::memory::{MemoryContext, MemoryEntry, MemoryJournal, MEMORY_LIMIT};
use pneuma::pools::{compute_pools_summary, Config, PoolsSummary};
use pneuma::text::{period_ym_from_date, rupiah, str_less};

struct Setup {
    ledger: Ledger,
    journal: MemoryJournal,
    config: Config,
    mode: String,
    clock: i64,
}

fn setup(min_floor: i64, max_ceil: i64, resilience_days: i64) -> Setup {
    Setup {
        ledger: Ledger::new(),
        journal: MemoryJournal::new(),
        config: Config::new(min_floor, max_ceil, resilience_days).expect("config"),
        mode: "calm".to_string(),
        clock: 0,
    }
}

fn insert_tx(s: &mut Setup, date_local: &str, kind: &str, amount: i64) {
    s.clock += 1;
    if kind == "IN" {
        s.ledger.add_income(amount, date_local, s.clock).expect("insert tx");
    } else {
        s.ledger.add_expense(amount, date_local, s.clock).expect("insert tx");
    }
}

fn compute_for(s: &mut Setup, date_local: &str, hour: u32) -> CoachingInsight {
    s.clock += 1;
    compute_coaching_insight(&s.ledger, &mut s.journal, &s.config, &s.mode, date_local, hour, s.clock)
        .expect("insight")
}

fn rule_id(insight: &CoachingInsight) -> String {
    insight.debug_meta.as_ref().unwrap().rule_id.clone()
}

fn overspent_ledger(s: &mut Setup) {
    insert_tx(s, "2025-05-10", "IN", 2000);
    insert_tx(s, "2025-05-10", "OUT", 200);
    insert_tx(s, "2025-05-09", "IN", 200);
    insert_tx(s, "2025-05-08", "IN", 200);
    insert_tx(s, "2025-05-07", "IN", 200);
    insert_tx(s, "2025-05-06", "IN", 200);
}

fn steady_ledger(s: &mut Setup) {
    insert_tx(s, "2025-05-10", "IN", 2000);
    insert_tx(s, "2025-05-10", "OUT", 10);
    insert_tx(s, "2025-05-09", "OUT", 10);
    insert_tx(s, "2025-05-08", "OUT", 10);
    insert_tx(s, "2025-05-07", "OUT", 10);
    insert_tx(s, "2025-05-06", "OUT", 10);
}

#[test]
fn rule_onboarding_when_low_tx() {
    let mut s = setup(100, 1000, 10);
    insert_tx(&mut s, "2025-05-10", "IN", 1000);

    let insight = compute_for(&mut s, "2025-05-10", 9);
    assert_eq!(insight.debug_meta.unwrap().rule_id, "onboarding");
}

#[test]
fn rule_overspent_today() {
    let mut s = setup(100, 1000, 10);
    overspent_ledger(&mut s);

    let insight = compute_for(&mut s, "2025-05-10", 12);
    assert_eq!(insight.debug_meta.unwrap().rule_id, "overspent_today");
    assert_eq!(insight.tone, "alert");
}

#[test]
fn rule_no_tx_today() {
    let mut s = setup(100, 1000, 10);
    for day in 1..=5 {
        insert_tx(&mut s, &format!("2025-05-0{}", day), "IN", 200);
    }

    let insight = compute_for(&mut s, "2025-05-10", 8);
    assert_eq!(insight.debug_meta.unwrap().rule_id, "no_tx_today");
}

#[test]
fn rule_fixed_cost_unpaid() {
    let mut s = setup(100, 1000, 10);
    for day in 1..=5 {
        insert_tx(&mut s, &format!("2025-05-0{}", day), "IN", 200);
    }
    insert_tx(&mut s, "2025-05-10", "OUT", 10);
    s.ledger.add_fixed_cost("Sewa", 500, "2025-05").expect("insert fixed_cost");

    let insight = compute_for(&mut s, "2025-05-10", 14);
    assert_eq!(insight.debug_meta.unwrap().rule_id, "fixed_cost_unpaid");
}

#[test]
fn rule_consistency_praise() {
    let mut s = setup(100, 1000, 10);
    steady_ledger(&mut s);
    insert_tx(&mut s, "2025-05-05", "OUT", 10);

    let insight = compute_for(&mut s, "2025-05-10", 16);
    assert_eq!(insight.debug_meta.unwrap().rule_id, "consistency_praise");
}

#[test]
fn rule_normal() {
    let mut s = setup(100, 1000, 10);
    steady_ledger(&mut s);

    let insight = compute_for(&mut s, "2025-05-10", 16);
    assert_eq!(insight.debug_meta.unwrap().rule_id, "normal");
}

#[test]
fn watchful_mode_changes_overspent_copy() {
    let mut s = setup(100, 1000, 10);
    s.mode = check_coach_mode("watchful").expect("set mode");
    overspent_ledger(&mut s);

    let insight = compute_for(&mut s, "2025-05-10", 19);
    assert_eq!(insight.debug_meta.unwrap().rule_id, "overspent_today");
    assert!(insight.next_step.contains("hentikan pengeluaran"));
    assert_eq!(insight.coach_mode, "watchful");
}

#[test]
fn memory_not_added_twice_without_event() {
    let mut s = setup(100, 1000, 10);
    steady_ledger(&mut s);

    let _ = compute_for(&mut s, "2025-05-10", 11);
    let _ = compute_for(&mut s, "2025-05-10", 12);
    assert_eq!(s.journal.len(), 1);
}

#[test]
fn memory_added_on_overspent() {
    let mut s = setup(100, 1000, 10);
    overspent_ledger(&mut s);

    let _ = compute_for(&mut s, "2025-05-10", 13);
    assert_eq!(s.journal.len(), 1);
}

#[test]
fn memory_added_again_on_overspent_same_day() {
    let mut s = setup(100, 1000, 10);
    overspent_ledger(&mut s);
    let _ = compute_for(&mut s, "2025-05-10", 13);
    let _ = compute_for(&mut s, "2025-05-10", 14);
    assert_eq!(s.journal.len(), 2);
    let last = &s.journal.entries[1];
    assert_eq!(last.tags, "overspent_today,alert");
    assert_eq!(last.mode, "alert");
    assert_eq!(last.headline, "Hari ini melewati batas Rp100.");
}

fn summary(rec: i64, today_out: i64) -> PoolsSummary {
    let config = Config::new(0, 1_000_000, 1).unwrap();
    let mut s = compute_pools_summary(&config, 0, 0, 0);
    s.recommended_spend_today = rec;
    s.today_out = today_out;
    s.today_remaining = rec - today_out;
    s.today_remaining_clamped = if rec > today_out { rec - today_out } else { 0 };
    s
}

fn inputs(total: i64, today: i64, unpaid: i64, s: PoolsSummary) -> InsightInputs {
    InsightInputs {
        summary: s,
        tx_count_total: total,
        tx_count_today: today,
        total_out_7d: 700,
        avg_out_7d: 100,
        days_with_tx_7d: 2,
        fixed_cost_unpaid_count_month: unpaid,
        fixed_cost_unpaid_amount_month: 500,
    }
}

#[test]
fn onboarding_regardless_of_other_inputs() {
    let i = inputs(4, 0, 3, summary(1000, 5000));
    assert_eq!(select_rule(&i), InsightRule::Onboarding);
    let insight = select_insight_rule(&i, "calm", TimeBucket::Night);
    assert_eq!(rule_id(&insight), "onboarding");
    assert_eq!(insight.status_title, "Baru 4 transaksi, pelan-pelan bangun ritme.");
    assert_eq!(insight.debug_meta.unwrap().key_numbers, vec![4, 1000]);
}

#[test]
fn overspent_wins_over_unpaid_fixed_costs() {
    let i = inputs(9, 3, 2, summary(1000, 1500));
    assert_eq!(select_rule(&i), InsightRule::OverspentToday);
    let insight = select_insight_rule(&i, "calm", TimeBucket::Midday);
    assert_eq!(rule_id(&insight), "overspent_today");
    assert_eq!(
        insight.next_step,
        "Hari ini aman kalau tahan belanja tambahan; besok reset dengan target Rp1000."
    );
    assert_eq!(insight.bullets, vec!["Pengeluaran hari ini Rp1500.".to_string(), "Sisa hari ini Rp-500.".to_string()]);
}

#[test]
fn near_limit_at_eighty_percent() {
    let i = inputs(9, 3, 0, summary(1000, 800));
    let insight = select_insight_rule(&i, "watchful", TimeBucket::Midday);
    assert_eq!(rule_id(&insight), "near_limit");
    assert_eq!(insight.next_step, "Tekan belanja tambahan; sisa aman Rp200 untuk hari ini.");
    let below = inputs(9, 3, 0, summary(1000, 799));
    assert_eq!(select_rule(&below), InsightRule::Normal);
    let small = inputs(9, 3, 0, summary(9, 7));
    assert_eq!(select_rule(&small), InsightRule::Normal);
    let small_at = inputs(9, 3, 0, summary(10, 8));
    assert_eq!(select_rule(&small_at), InsightRule::NearLimit);
}

#[test]
fn low_buffer_rule() {
    let config = Config::new(100, 1000, 10).unwrap();
    let s = compute_pools_summary(&config, 500, 0, 0);
    let i = inputs(9, 1, 0, s);
    let insight = select_insight_rule(&i, "calm", TimeBucket::Evening);
    assert_eq!(rule_id(&insight), "low_buffer");
    assert_eq!(insight.status_title, "Penyangga belum aman, ketahanan 5 hari.");
    assert_eq!(insight.bullets[0], "Saldo bersih Rp500 vs target Rp1000.");
    assert_eq!(insight.tone, "alert");
}

#[test]
fn no_tx_next_step_by_time_of_day() {
    let i = inputs(9, 0, 0, summary(1000, 0));
    let morning = select_insight_rule(&i, "calm", time_bucket_of(7));
    assert_eq!(morning.next_step, "Kalau ada satu catatan kecil pagi ini, ritmenya lebih terasa.");
    let night = select_insight_rule(&i, "calm", time_bucket_of(23));
    assert_eq!(night.next_step, "Hari ini sudah hampir selesai; besok kita mulai lagi.");
    let afternoon = select_insight_rule(&i, "calm", time_bucket_of(16));
    assert_eq!(afternoon.next_step, "Langkah kecil: catat 1 transaksi pertama hari ini.");
}

#[test]
fn time_buckets() {
    assert_eq!(time_bucket_of(4), TimeBucket::Night);
    assert_eq!(time_bucket_of(5), TimeBucket::Morning);
    assert_eq!(time_bucket_of(10), TimeBucket::Midday);
    assert_eq!(time_bucket_of(15), TimeBucket::Afternoon);
    assert_eq!(time_bucket_of(18), TimeBucket::Evening);
    assert_eq!(time_bucket_of(22), TimeBucket::Night);
}

fn entry(ts: i64, date: &str, mode: &str, headline: &str) -> MemoryEntry {
    MemoryEntry {
        ts_utc: ts,
        date_local: date.to_string(),
        mode: mode.to_string(),
        headline: headline.to_string(),
        tags: String::new(),
        context: MemoryContext {
            recommended_spend_today: 0,
            today_out: 0,
            net_balance: 0,
            resilience_days_estimate: 0,
            unpaid_count: 0,
            watchful: false,
        },
    }
}

#[test]
fn continuity_and_reflection_lines() {
    let ctx = build_time_context("2025-05-10", 8, 2, true);
    let yesterday = entry(1, "2025-05-09", "alert", "Hari ini melewati batas Rp100.");
    assert_eq!(
        build_continuity_line(&ctx, Some(&yesterday), "calm").as_deref(),
        Some("Kemarin sempat ketat, hari ini kita mulai lagi pelan-pelan.")
    );
    assert_eq!(
        build_memory_reflection(Some(&yesterday), "2025-05-10").as_deref(),
        Some("Catatan terakhir: Hari ini melewati batas Rp100..")
    );
    let today = entry(2, "2025-05-10", "calm", "x");
    assert_eq!(build_memory_reflection(Some(&today), "2025-05-10"), None);
    let calm = entry(1, "2025-05-09", "calm", "x");
    assert_eq!(
        build_continuity_line(&ctx, Some(&calm), "alert").as_deref(),
        Some("Hari ini lebih ketat dari kemarin. Kita jaga pelan-pelan.")
    );
    assert_eq!(build_continuity_line(&ctx, Some(&calm), "calm"), None);
    let first_open = build_time_context("2025-05-10", 6, 0, false);
    assert!(first_open.is_new_day_first_open);
    assert_eq!(
        build_continuity_line(&first_open, None, "calm").as_deref(),
        Some("Pagi ini kita mulai pelan-pelan.")
    );
}

#[test]
fn journal_never_exceeds_limit() {
    let mut journal = MemoryJournal::new();
    for ts in 0..(MEMORY_LIMIT as i64 + 25) {
        journal.append(entry(ts, "2025-05-10", "calm", "h"));
        assert!(journal.len() <= MEMORY_LIMIT);
    }
    assert_eq!(journal.len(), MEMORY_LIMIT);
    assert_eq!(journal.entries[0].ts_utc, 25);
    assert_eq!(journal.latest().unwrap().ts_utc, MEMORY_LIMIT as i64 + 24);
}

#[test]
fn journal_orders_by_timestamp() {
    let mut journal = MemoryJournal::new();
    journal.append(entry(10, "2025-05-10", "calm", "a"));
    journal.append(entry(5, "2025-05-09", "calm", "b"));
    journal.append(entry(7, "2025-05-09", "calm", "c"));
    let order: Vec<i64> = journal.entries.iter().map(|e| e.ts_utc).collect();
    assert_eq!(order, vec![5, 7, 10]);
    assert!(journal.has_entry_for_date("2025-05-09"));
    assert!(!journal.has_entry_for_date("2025-05-11"));
}

#[test]
fn record_decision_and_tags() {
    let i = inputs(9, 1, 0, summary(1000, 0));
    let insight = select_insight_rule(&i, "calm", TimeBucket::Midday);
    assert_eq!(build_memory_tags(&insight, true, true), "normal,streak,first_tx");
    let mut journal = MemoryJournal::new();
    journal.append(entry(1, "2025-05-10", "calm", "x"));
    // first transaction of the day is significant
    assert!(maybe_record_memory(&mut journal, &i, &insight, "calm", "2025-05-10", 2));
    let quiet = inputs(9, 2, 0, summary(1000, 0));
    let insight2 = select_insight_rule(&quiet, "calm", TimeBucket::Midday);
    assert!(!maybe_record_memory(&mut journal, &quiet, &insight2, "calm", "2025-05-10", 3));
    assert_eq!(journal.len(), 2);
}

#[test]
fn invalid_date_is_refused() {
    let mut s = setup(100, 1000, 10);
    let r = compute_coaching_insight(&s.ledger, &mut s.journal, &s.config, "calm", "2025-13-40", 9, 1);
    assert!(matches!(r, Err(BudgetError::InvalidDate)));
    assert_eq!(s.journal.len(), 0);
}

#[test]
fn seven_day_window_from_calendar() {
    assert_eq!(
        date_range_last_7_days("2025-05-10"),
        Some(("2025-05-04".to_string(), "2025-05-10".to_string()))
    );
    assert_eq!(
        date_range_last_7_days("2025-03-02"),
        Some(("2025-02-24".to_string(), "2025-03-02".to_string()))
    );
    assert_eq!(date_range_last_7_days("not a date"), None);
}

#[test]
fn text_helpers() {
    assert_eq!(rupiah(29000), "Rp29000");
    assert_eq!(rupiah(-150), "Rp-150");
    assert_eq!(rupiah(0), "Rp0");
    assert_eq!(rupiah(i64::MIN), format!("Rp{}", i64::MIN));
    assert_eq!(period_ym_from_date("2025-03-10"), "2025-03");
    assert_eq!(period_ym_from_date("2025"), "2025");
    assert_eq!(period_ym_from_date("abcdef\u{20ac}x"), "abcdef\u{20ac}x");
    assert_eq!(period_ym_from_date("abcd\u{20ac}xyz"), "abcd\u{20ac}");
    assert_eq!(period_ym_from_date("\u{e9}\u{e9}\u{e9}x-rest"), "\u{e9}\u{e9}\u{e9}x");
    assert!(str_less("2025-01", "2025-02"));
    assert!(!str_less("2025-02", "2025-02"));
    assert!(str_less("2025", "2025-01"));
}

#[test]
fn coach_mode_check() {
    assert_eq!(check_coach_mode("calm"), Ok("calm".to_string()));
    assert_eq!(check_coach_mode("watchful"), Ok("watchful".to_string()));
    assert_eq!(check_coach_mode("loud"), Err(BudgetError::InvalidCoachMode));
}
