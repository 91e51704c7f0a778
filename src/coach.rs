use vstd::prelude::*;

use crate::aggregates::{
    count_where, dates_where, lemma_sum_non_negative, sum_where, unpaid_amount_upto, unpaid_count_upto, TxQuery,
    TxQueryView,
};
use crate::calendar::{date_range_last_7_days, week_window_spec};
use crate::error::BudgetError;
use crate::insight::{
    build_continuity_line, build_memory_reflection, build_memory_tags, build_time_context, continuity_spec,
    has_rule_message, is_watchful, meta_rule_id, opt_entry_view, opt_text, reflection_spec, rule_for, rule_id_spec,
    select_insight_rule, tags_spec, time_bucket_spec, title_spec, tone_spec, CoachingInsight, InsightInputs,
};
use crate::ledger::{amount_non_negative, Ledger, LedgerView, TxKind};
use crate::memory::{append_spec, journal_wf, MEMORY_LIMIT, MemoryContext, MemoryEntry, MemoryEntryView, MemoryJournal};
use crate::pools::{compute_pools_summary, summary_spec, Config, PoolsSummary};
use crate::text::{period_of, period_ym_from_date};

verus! {

pub open spec fn kind_query(kind: TxKind) -> TxQueryView {
    TxQueryView { kind: Some(kind), on_date: None, from_date: None, to_date: None }
}

pub open spec fn on_date_query(kind: Option<TxKind>, date: Seq<char>) -> TxQueryView {
    TxQueryView { kind, on_date: Some(date), from_date: None, to_date: None }
}

pub open spec fn between_query(kind: Option<TxKind>, start: Seq<char>, end: Seq<char>) -> TxQueryView {
    TxQueryView { kind, on_date: None, from_date: Some(start), to_date: Some(end) }
}

pub open spec fn fits_i64(x: int) -> bool {
    i64::MIN <= x <= i64::MAX
}

/// The totals behind the pools summary fit in an `i64`.
pub open spec fn summary_fits(v: LedgerView, config: Config, today: Seq<char>) -> bool {
    &&& fits_i64(sum_where(v.transactions, kind_query(TxKind::In)))
    &&& fits_i64(sum_where(v.transactions, kind_query(TxKind::Out)))
    &&& fits_i64(sum_where(v.transactions, on_date_query(Some(TxKind::Out), today)))
    &&& fits_i64(config.min_floor * config.resilience_days)
}

/// The pools summary of a ledger on day `today`.
pub open spec fn ledger_summary_spec(v: LedgerView, config: Config, today: Seq<char>) -> PoolsSummary {
    summary_spec(
        config,
        sum_where(v.transactions, kind_query(TxKind::In)) as i64,
        sum_where(v.transactions, kind_query(TxKind::Out)) as i64,
        sum_where(v.transactions, on_date_query(Some(TxKind::Out), today)) as i64,
    )
}

fn kind_filter(kind: TxKind) -> (r: TxQuery)
    ensures
        r@ == kind_query(kind),
{
    TxQuery { kind: Some(kind), on_date: None, from_date: None, to_date: None }
}

fn on_date_filter(kind: Option<TxKind>, date: &str) -> (r: TxQuery)
    ensures
        r@ == on_date_query(kind, date@),
{
    TxQuery { kind, on_date: Some(String::from_str(date)), from_date: None, to_date: None }
}

fn between_filter(kind: Option<TxKind>, start: &str, end: &str) -> (r: TxQuery)
    ensures
        r@ == between_query(kind, start@, end@),
{
    TxQuery {
        kind,
        on_date: None,
        from_date: Some(String::from_str(start)),
        to_date: Some(String::from_str(end)),
    }
}

/// The pools summary of the ledger for day `today_local`: all incoming and
/// outgoing amounts, and today's outgoing ones.
pub fn compute_pools_summary_for(ledger: &Ledger, config: &Config, today_local: &str) -> (r: Result<
    PoolsSummary,
    BudgetError,
>)
    requires
        ledger@.wf(),
        config.valid(),
    ensures
        summary_fits(ledger@, *config, today_local@) ==> r == Ok::<PoolsSummary, BudgetError>(
            ledger_summary_spec(ledger@, *config, today_local@),
        ),
        !summary_fits(ledger@, *config, today_local@) ==> r == Err::<PoolsSummary, BudgetError>(
            BudgetError::AmountOverflow,
        ),
        r matches Ok(s) ==> s.resilience_days_estimate >= 0,
{
    let ghost ts = ledger@.transactions;
    proof {
        assert forall|i: int| 0 <= i < ts.len() implies (#[trigger] ts[i]).amount >= 0 by {
            assert(amount_non_negative()(ts[i]));
        }
        lemma_sum_non_negative(ts, kind_query(TxKind::In));
        lemma_sum_non_negative(ts, kind_query(TxKind::Out));
        lemma_sum_non_negative(ts, on_date_query(Some(TxKind::Out), today_local@));
    }
    let total_in = ledger.sum_amounts(&kind_filter(TxKind::In));
    let total_out = ledger.sum_amounts(&kind_filter(TxKind::Out));
    let today_out = ledger.sum_amounts(&on_date_filter(Some(TxKind::Out), today_local));
    let min_floor = config.min_floor as i128;
    let days = config.resilience_days as i128;
    assert(min_floor * days <= 0x4000_0000_0000_0000_0000_0000_0000_0000) by (nonlinear_arith)
        requires
            0 <= min_floor <= i64::MAX,
            1 <= days <= i64::MAX,
    ;
    let target = min_floor * days;
    if total_in.is_none() || total_out.is_none() || today_out.is_none() || target > i64::MAX as i128 {
        return Err(BudgetError::AmountOverflow);
    }
    Ok(compute_pools_summary(config, total_in.unwrap(), total_out.unwrap(), today_out.unwrap()))
}

pub open spec fn last_entry(s: Seq<MemoryEntryView>) -> Option<MemoryEntryView> {
    if s.len() == 0 { None } else { Some(s.last()) }
}

pub open spec fn has_entry_on(s: Seq<MemoryEntryView>, date: Seq<char>) -> bool {
    exists|i: int| 0 <= i < s.len() && (#[trigger] s[i]).date_local == date
}

/// A new journal entry is due when today has none yet, or on a significant
/// event: the tone changed since the last entry, today is overspent, the
/// seven-day streak is exactly 3 or 7 days, or this is today's first
/// transaction.
pub open spec fn should_record_spec(
    has_entry_today: bool,
    last: Option<MemoryEntryView>,
    tone: Seq<char>,
    rule_id: Option<Seq<char>>,
    days_with_tx_7d: i64,
    tx_count_today: i64,
) -> bool {
    let tone_changed = match last {
        Some(m) => m.mode != tone,
        None => false,
    };
    let overspent = rule_id == Some("overspent_today"@);
    let streak = days_with_tx_7d == 3 || days_with_tx_7d == 7;
    let first_tx = tx_count_today == 1;
    !has_entry_today || overspent || streak || first_tx || tone_changed
}

/// The journal entry recorded for a message.
pub open spec fn entry_spec(
    i: InsightInputs,
    tone: Seq<char>,
    headline: Seq<char>,
    rule_id: Option<Seq<char>>,
    coach_mode: Seq<char>,
    today: Seq<char>,
    ts_utc: i64,
) -> MemoryEntryView {
    let streak = i.days_with_tx_7d == 3 || i.days_with_tx_7d == 7;
    let first_tx = i.tx_count_today == 1;
    MemoryEntryView {
        ts_utc,
        date_local: today,
        mode: tone,
        headline,
        tags: tags_spec(rule_id, streak, first_tx, tone == "alert"@),
        context: MemoryContext {
            recommended_spend_today: i.summary.recommended_spend_today,
            today_out: i.summary.today_out,
            net_balance: i.summary.net_balance,
            resilience_days_estimate: i.summary.resilience_days_estimate,
            unpaid_count: i.fixed_cost_unpaid_count_month,
            watchful: coach_mode == "watchful"@,
        },
    }
}

/// The journal after `maybe_record_memory` for a message with this tone,
/// headline and rule id.
pub open spec fn recorded_journal_spec(
    s: Seq<MemoryEntryView>,
    i: InsightInputs,
    tone: Seq<char>,
    headline: Seq<char>,
    rule_id: Option<Seq<char>>,
    coach_mode: Seq<char>,
    today: Seq<char>,
    ts_utc: i64,
) -> Seq<MemoryEntryView> {
    if should_record_spec(has_entry_on(s, today), last_entry(s), tone, rule_id, i.days_with_tx_7d, i.tx_count_today) {
        append_spec(s, entry_spec(i, tone, headline, rule_id, coach_mode, today, ts_utc))
    } else {
        s
    }
}

/// Journals the message when `should_record_spec` says an entry is due,
/// and reports whether it did.
pub fn maybe_record_memory(
    journal: &mut MemoryJournal,
    inputs: &InsightInputs,
    insight: &CoachingInsight,
    coach_mode: &str,
    today_local: &str,
    ts_utc: i64,
) -> (recorded: bool)
    requires
        journal_wf(old(journal)@),
    ensures
        journal_wf(final(journal)@),
        final(journal)@.len() <= MEMORY_LIMIT,
        recorded == should_record_spec(
            has_entry_on(old(journal)@, today_local@),
            last_entry(old(journal)@),
            insight.tone@,
            meta_rule_id(*insight),
            inputs.days_with_tx_7d,
            inputs.tx_count_today,
        ),
        final(journal)@ == recorded_journal_spec(
            old(journal)@,
            *inputs,
            insight.tone@,
            insight.status_title@,
            meta_rule_id(*insight),
            coach_mode@,
            today_local@,
            ts_utc,
        ),
{
    let existing_today = journal.has_entry_for_date(today_local);
    let tone_changed = match journal.latest() {
        Some(entry) => entry.mode != insight.tone,
        None => false,
    };
    let overspent = match &insight.debug_meta {
        Some(meta) => meta.rule_id == String::from_str("overspent_today"),
        None => false,
    };
    let streak_milestone = inputs.days_with_tx_7d == 3 || inputs.days_with_tx_7d == 7;
    let first_tx_today = inputs.tx_count_today == 1;
    let event_significant = overspent || streak_milestone || first_tx_today || tone_changed;
    if existing_today && !event_significant {
        return false;
    }
    let tags = build_memory_tags(insight, streak_milestone, first_tx_today);
    let entry = MemoryEntry {
        ts_utc,
        date_local: String::from_str(today_local),
        mode: insight.tone.clone(),
        headline: insight.status_title.clone(),
        tags,
        context: MemoryContext {
            recommended_spend_today: inputs.summary.recommended_spend_today,
            today_out: inputs.summary.today_out,
            net_balance: inputs.summary.net_balance,
            resilience_days_estimate: inputs.summary.resilience_days_estimate,
            unpaid_count: inputs.fixed_cost_unpaid_count_month,
            watchful: is_watchful(coach_mode),
        },
    };
    journal.append(entry);
    true
}

/// The rule inputs that a ledger gives on day `today` with the seven-day
/// window `[start, end]`.
pub open spec fn inputs_spec(v: LedgerView, config: Config, today: Seq<char>, start: Seq<char>, end: Seq<char>) -> InsightInputs {
    let ts = v.transactions;
    let out_7d = sum_where(ts, between_query(Some(TxKind::Out), start, end));
    let n = v.fixed_costs.len() as int;
    InsightInputs {
        summary: ledger_summary_spec(v, config, today),
        tx_count_total: ts.len() as i64,
        tx_count_today: count_where(ts, on_date_query(None, today)) as i64,
        total_out_7d: out_7d as i64,
        avg_out_7d: (out_7d / 7) as i64,
        days_with_tx_7d: dates_where(ts, between_query(None, start, end)).len() as i64,
        fixed_cost_unpaid_count_month: unpaid_count_upto(v, period_of(today), n) as i64,
        fixed_cost_unpaid_amount_month: unpaid_amount_upto(v, period_of(today), n) as i64,
    }
}

/// Every total behind the rule inputs fits in an `i64`.
pub open spec fn inputs_fit(v: LedgerView, config: Config, today: Seq<char>, start: Seq<char>, end: Seq<char>) -> bool {
    &&& summary_fits(v, config, today)
    &&& fits_i64(sum_where(v.transactions, between_query(Some(TxKind::Out), start, end)))
    &&& fits_i64(unpaid_amount_upto(v, period_of(today), v.fixed_costs.len() as int))
}

/// What computing today's coaching message yields, from journal `before`
/// to journal `after`: on totals that fit, the message of the rule that
/// applies, with continuity and reflection lines from the last entry, and
/// the journal updated by `recorded_journal_spec`; otherwise an overflow
/// error and an unchanged journal.
pub open spec fn insight_outcome(
    r: Result<CoachingInsight, BudgetError>,
    before: Seq<MemoryEntryView>,
    after: Seq<MemoryEntryView>,
    v: LedgerView,
    config: Config,
    coach_mode: Seq<char>,
    today: Seq<char>,
    start: Seq<char>,
    end: Seq<char>,
    hour: u32,
    ts_utc: i64,
) -> bool {
    if inputs_fit(v, config, today, start, end) {
        let i = inputs_spec(v, config, today, start, end);
        let rule = rule_for(i);
        let bucket = time_bucket_spec(hour);
        let first_open = !has_entry_on(before, today) && i.tx_count_today == 0;
        &&& r is Ok
        &&& has_rule_message(r->Ok_0, rule, i, coach_mode, bucket)
        &&& opt_text(r->Ok_0.continuity_line) == continuity_spec(
            last_entry(before),
            today,
            tone_spec(rule),
            first_open,
            bucket,
        )
        &&& opt_text(r->Ok_0.memory_reflection) == reflection_spec(last_entry(before), today)
        &&& after == recorded_journal_spec(
            before,
            i,
            tone_spec(rule),
            title_spec(rule, i),
            Some(rule_id_spec(rule)),
            coach_mode,
            today,
            ts_utc,
        )
    } else {
        r == Err::<CoachingInsight, BudgetError>(BudgetError::AmountOverflow) && after == before
    }
}

/// Computes today's coaching message for the seven-day window
/// `[week_start, week_end]` and journals it when an entry is due.
pub fn compute_coaching_insight_in_window(
    ledger: &Ledger,
    journal: &mut MemoryJournal,
    config: &Config,
    coach_mode: &str,
    today_local: &str,
    week_start: &str,
    week_end: &str,
    hour: u32,
    now_ts_utc: i64,
) -> (r: Result<CoachingInsight, BudgetError>)
    requires
        ledger@.wf(),
        config.valid(),
        journal_wf(old(journal)@),
    ensures
        journal_wf(final(journal)@),
        insight_outcome(
            r,
            old(journal)@,
            final(journal)@,
            ledger@,
            *config,
            coach_mode@,
            today_local@,
            week_start@,
            week_end@,
            hour,
            now_ts_utc,
        ),
{
    let ghost v = ledger@;
    let ghost ts = v.transactions;
    let summary = match compute_pools_summary_for(ledger, config, today_local) {
        Ok(s) => s,
        Err(e) => return Err(e),
    };
    let tx_count_total = ledger.transactions.len() as i64;
    let tx_count_today = ledger.count_transactions(&on_date_filter(None, today_local)) as i64;
    let total_out_7d = match ledger.sum_amounts(&between_filter(Some(TxKind::Out), week_start, week_end)) {
        Some(t) => t,
        None => return Err(BudgetError::AmountOverflow),
    };
    proof {
        assert forall|i: int| 0 <= i < ts.len() implies (#[trigger] ts[i]).amount >= 0 by {
            assert(amount_non_negative()(ts[i]));
        }
        lemma_sum_non_negative(ts, between_query(Some(TxKind::Out), week_start@, week_end@));
    }
    let avg_out_7d = total_out_7d / 7;
    let days_with_tx_7d = ledger.count_distinct_dates(&between_filter(None, week_start, week_end)) as i64;
    let period = period_ym_from_date(today_local);
    let (unpaid_count, unpaid_amount) = ledger.unpaid_fixed_costs(period.as_str());
    let unpaid_amount = match unpaid_amount {
        Some(a) => a,
        None => return Err(BudgetError::AmountOverflow),
    };
    let inputs = InsightInputs {
        summary,
        tx_count_total,
        tx_count_today,
        total_out_7d,
        avg_out_7d,
        days_with_tx_7d,
        fixed_cost_unpaid_count_month: unpaid_count as i64,
        fixed_cost_unpaid_amount_month: unpaid_amount,
    };
    assert(inputs == inputs_spec(v, *config, today_local@, week_start@, week_end@));
    let has_memory_today = journal.has_entry_for_date(today_local);
    let time_context = build_time_context(today_local, hour, tx_count_today, has_memory_today);
    let mut insight = select_insight_rule(&inputs, coach_mode, time_context.time_bucket);
    let last_memory = journal.latest();
    assert(opt_entry_view(last_memory) == last_entry(journal@));
    let continuity = build_continuity_line(&time_context, last_memory, insight.tone.as_str());
    let reflection = build_memory_reflection(last_memory, today_local);
    insight.continuity_line = continuity;
    insight.memory_reflection = reflection;
    let _ = maybe_record_memory(journal, &inputs, &insight, coach_mode, today_local, now_ts_utc);
    Ok(insight)
}

/// Computes today's coaching message: the seven-day window ends on
/// `today_local`, and a text that is no valid date is refused.
pub fn compute_coaching_insight(
    ledger: &Ledger,
    journal: &mut MemoryJournal,
    config: &Config,
    coach_mode: &str,
    today_local: &str,
    hour: u32,
    now_ts_utc: i64,
) -> (r: Result<CoachingInsight, BudgetError>)
    requires
        ledger@.wf(),
        config.valid(),
        journal_wf(old(journal)@),
    ensures
        journal_wf(final(journal)@),
        week_window_spec(today_local@) is None ==> r == Err::<CoachingInsight, BudgetError>(BudgetError::InvalidDate)
            && final(journal)@ == old(journal)@,
        week_window_spec(today_local@) matches Some(w) ==> insight_outcome(
            r,
            old(journal)@,
            final(journal)@,
            ledger@,
            *config,
            coach_mode@,
            today_local@,
            w.0,
            w.1,
            hour,
            now_ts_utc,
        ),
{
    match date_range_last_7_days(today_local) {
        None => Err(BudgetError::InvalidDate),
        Some((start, end)) => compute_coaching_insight_in_window(
            ledger,
            journal,
            config,
            coach_mode,
            today_local,
            start.as_str(),
            end.as_str(),
            hour,
            now_ts_utc,
        ),
    }
}

/// Accepts the two coach modes, `calm` and `watchful`.
pub fn check_coach_mode(mode: &str) -> (r: Result<String, BudgetError>)
    ensures
        (mode@ == "calm"@ || mode@ == "watchful"@) ==> (r matches Ok(m) && m@ == mode@),
        !(mode@ == "calm"@ || mode@ == "watchful"@) ==> r == Err::<String, BudgetError>(BudgetError::InvalidCoachMode),
{
    let m = String::from_str(mode);
    if m == String::from_str("calm") || m == String::from_str("watchful") {
        Ok(m)
    } else {
        Err(BudgetError::InvalidCoachMode)
    }
}

} // verus!
