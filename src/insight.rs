use vstd::prelude::*;

use crate::memory::{MemoryEntry, MemoryEntryView};
use crate::pools::PoolsSummary;
use crate::text::{concat3, decimal_of, decimal_string, rupiah, rupiah_text};

verus! {

/// Rule identifier and the key numbers behind a coaching message.
#[derive(Debug)]
pub struct InsightDebugMeta {
    pub rule_id: String,
    pub key_numbers: Vec<i64>,
}

/// The coaching message shown for today.
#[derive(Debug)]
pub struct CoachingInsight {
    pub status_title: String,
    pub bullets: Vec<String>,
    pub next_step: String,
    pub tone: String,
    pub coach_mode: String,
    pub continuity_line: Option<String>,
    pub memory_reflection: Option<String>,
    pub debug_meta: Option<InsightDebugMeta>,
}

/// Ledger aggregates that the rules read.
#[derive(Clone, Copy, Debug)]
pub struct InsightInputs {
    pub summary: PoolsSummary,
    pub tx_count_total: i64,
    pub tx_count_today: i64,
    pub total_out_7d: i64,
    pub avg_out_7d: i64,
    pub days_with_tx_7d: i64,
    pub fixed_cost_unpaid_count_month: i64,
    pub fixed_cost_unpaid_amount_month: i64,
}

/// Part of the day, from the local hour.
#[derive(Clone, Copy, Debug, PartialEq, Eq, Structural)]
pub enum TimeBucket {
    Morning,
    Midday,
    Afternoon,
    Evening,
    Night,
}

/// The coaching rules, in priority order: the first that matches wins.
#[derive(Clone, Copy, Debug, PartialEq, Eq, Structural)]
pub enum InsightRule {
    Onboarding,
    OverspentToday,
    NoTxToday,
    FixedCostUnpaid,
    LowBuffer,
    NearLimit,
    ConsistencyPraise,
    Normal,
}

pub open spec fn time_bucket_spec(hour: u32) -> TimeBucket {
    if 5 <= hour < 10 {
        TimeBucket::Morning
    } else if 10 <= hour < 15 {
        TimeBucket::Midday
    } else if 15 <= hour < 18 {
        TimeBucket::Afternoon
    } else if 18 <= hour < 22 {
        TimeBucket::Evening
    } else {
        TimeBucket::Night
    }
}

/// Buckets a local hour: 5-9 morning, 10-14 midday, 15-17 afternoon,
/// 18-21 evening, otherwise night.
pub fn time_bucket_of(hour: u32) -> (r: TimeBucket)
    ensures
        r == time_bucket_spec(hour),
{
    if 5 <= hour && hour < 10 {
        TimeBucket::Morning
    } else if 10 <= hour && hour < 15 {
        TimeBucket::Midday
    } else if 15 <= hour && hour < 18 {
        TimeBucket::Afternoon
    } else if 18 <= hour && hour < 22 {
        TimeBucket::Evening
    } else {
        TimeBucket::Night
    }
}

pub open spec fn overspent_holds(s: PoolsSummary) -> bool {
    s.recommended_spend_today > 0 && s.today_out > s.recommended_spend_today
}

pub open spec fn low_buffer_holds(s: PoolsSummary) -> bool {
    s.target_buffer > 0 && s.net_balance < s.target_buffer && s.resilience_days_estimate <= 7
}

pub open spec fn near_limit_holds(s: PoolsSummary) -> bool {
    s.recommended_spend_today > 0 && s.today_out * 10 >= s.recommended_spend_today * 8
}

/// The rule that applies: the first in priority order whose condition holds.
pub open spec fn rule_for(inputs: InsightInputs) -> InsightRule {
    let s = inputs.summary;
    if inputs.tx_count_total < 5 {
        InsightRule::Onboarding
    } else if overspent_holds(s) {
        InsightRule::OverspentToday
    } else if inputs.tx_count_today == 0 {
        InsightRule::NoTxToday
    } else if inputs.fixed_cost_unpaid_count_month > 0 {
        InsightRule::FixedCostUnpaid
    } else if low_buffer_holds(s) {
        InsightRule::LowBuffer
    } else if near_limit_holds(s) {
        InsightRule::NearLimit
    } else if inputs.days_with_tx_7d >= 6 {
        InsightRule::ConsistencyPraise
    } else {
        InsightRule::Normal
    }
}

/// Selects the rule for these inputs.
pub fn select_rule(inputs: &InsightInputs) -> (r: InsightRule)
    ensures
        r == rule_for(*inputs),
{
    let s = &inputs.summary;
    let rec = s.recommended_spend_today;
    if inputs.tx_count_total < 5 {
        InsightRule::Onboarding
    } else if rec > 0 && s.today_out > rec {
        InsightRule::OverspentToday
    } else if inputs.tx_count_today == 0 {
        InsightRule::NoTxToday
    } else if inputs.fixed_cost_unpaid_count_month > 0 {
        InsightRule::FixedCostUnpaid
    } else if s.target_buffer > 0 && s.net_balance < s.target_buffer && s.resilience_days_estimate <= 7 {
        InsightRule::LowBuffer
    } else if rec > 0 && (s.today_out as i128) * 10 >= (rec as i128) * 8 {
        InsightRule::NearLimit
    } else if inputs.days_with_tx_7d >= 6 {
        InsightRule::ConsistencyPraise
    } else {
        InsightRule::Normal
    }
}

pub open spec fn rule_id_spec(rule: InsightRule) -> Seq<char> {
    match rule {
        InsightRule::Onboarding => "onboarding"@,
        InsightRule::OverspentToday => "overspent_today"@,
        InsightRule::NoTxToday => "no_tx_today"@,
        InsightRule::FixedCostUnpaid => "fixed_cost_unpaid"@,
        InsightRule::LowBuffer => "low_buffer"@,
        InsightRule::NearLimit => "near_limit"@,
        InsightRule::ConsistencyPraise => "consistency_praise"@,
        InsightRule::Normal => "normal"@,
    }
}

/// `alert` for overspending and a low buffer, `calm` otherwise.
pub open spec fn tone_spec(rule: InsightRule) -> Seq<char> {
    match rule {
        InsightRule::OverspentToday | InsightRule::LowBuffer => "alert"@,
        _ => "calm"@,
    }
}

pub open spec fn title_spec(rule: InsightRule, i: InsightInputs) -> Seq<char> {
    let s = i.summary;
    match rule {
        InsightRule::Onboarding => "Baru "@ + decimal_of(i.tx_count_total as int)
            + " transaksi, pelan-pelan bangun ritme."@,
        InsightRule::OverspentToday => "Hari ini melewati batas "@ + rupiah_text(s.recommended_spend_today as int)
            + "."@,
        InsightRule::NoTxToday => "Belum ada catatan hari ini, 0 transaksi."@,
        InsightRule::FixedCostUnpaid => "Ada "@ + decimal_of(i.fixed_cost_unpaid_count_month as int)
            + " biaya tetap belum lunas bulan ini."@,
        InsightRule::LowBuffer => "Penyangga belum aman, ketahanan "@ + decimal_of(
            s.resilience_days_estimate as int,
        ) + " hari."@,
        InsightRule::NearLimit => "Hampir menyentuh batas "@ + rupiah_text(s.recommended_spend_today as int) + "."@,
        InsightRule::ConsistencyPraise => "Kamu konsisten "@ + decimal_of(i.days_with_tx_7d as int)
            + " dari 7 hari."@,
        InsightRule::Normal => "Kondisi hari ini cukup stabil, saldo "@ + rupiah_text(s.net_balance as int) + "."@,
    }
}

pub open spec fn bullets_spec(rule: InsightRule, i: InsightInputs) -> Seq<Seq<char>> {
    let s = i.summary;
    let recommended = "Rekomendasi hari ini "@ + rupiah_text(s.recommended_spend_today as int) + "."@;
    let spent_today = "Pengeluaran hari ini "@ + rupiah_text(s.today_out as int) + "."@;
    match rule {
        InsightRule::Onboarding => seq![
            "Total catatan saat ini "@ + decimal_of(i.tx_count_total as int) + " transaksi."@,
            recommended,
        ],
        InsightRule::OverspentToday => seq![
            spent_today,
            "Sisa hari ini "@ + rupiah_text(s.today_remaining as int) + "."@,
        ],
        InsightRule::NoTxToday => seq![recommended, spent_today],
        InsightRule::FixedCostUnpaid => seq![
            "Total belum lunas "@ + rupiah_text(i.fixed_cost_unpaid_amount_month as int) + "."@,
            "Saldo bersih "@ + rupiah_text(s.net_balance as int) + "."@,
        ],
        InsightRule::LowBuffer => seq![
            "Saldo bersih "@ + rupiah_text(s.net_balance as int) + " vs target "@ + rupiah_text(
                s.target_buffer as int,
            ) + "."@,
            recommended,
        ],
        InsightRule::NearLimit => seq![
            "Sudah terpakai "@ + rupiah_text(s.today_out as int) + " hari ini."@,
            "Sisa "@ + rupiah_text(s.today_remaining_clamped as int) + " untuk hari ini."@,
        ],
        InsightRule::ConsistencyPraise => seq![
            "Total pengeluaran 7 hari "@ + rupiah_text(i.total_out_7d as int) + "."@,
            "Rata-rata pengeluaran 7 hari "@ + rupiah_text(i.avg_out_7d as int) + " per hari."@,
            "Total transaksi tercatat "@ + decimal_of(i.tx_count_total as int) + "."@,
        ],
        InsightRule::Normal => seq![
            "Dana fleksibel "@ + rupiah_text(s.flexible_fund as int) + " di atas penyangga."@,
            recommended,
        ],
    }
}

/// The next step when nothing is recorded yet today, by part of the day.
pub open spec fn no_tx_next_step_spec(bucket: TimeBucket) -> Seq<char> {
    match bucket {
        TimeBucket::Morning => "Kalau ada satu catatan kecil pagi ini, ritmenya lebih terasa."@,
        TimeBucket::Night => "Hari ini sudah hampir selesai; besok kita mulai lagi."@,
        _ => "Langkah kecil: catat 1 transaksi pertama hari ini."@,
    }
}

/// The suggested next step; `watchful` selects the more directive wording.
pub open spec fn next_step_spec(rule: InsightRule, i: InsightInputs, watchful: bool, bucket: TimeBucket) -> Seq<
    char,
> {
    let s = i.summary;
    match rule {
        InsightRule::Onboarding => "Langkah kecil: catat 1 transaksi hari ini agar ritme terasa."@,
        InsightRule::OverspentToday => if watchful {
            "Jika bisa, hentikan pengeluaran tambahan sampai besok."@
        } else {
            "Hari ini aman kalau tahan belanja tambahan; besok reset dengan target "@ + rupiah_text(
                s.recommended_spend_today as int,
            ) + "."@
        },
        InsightRule::NoTxToday => no_tx_next_step_spec(bucket),
        InsightRule::FixedCostUnpaid => "Langkah kecil: pilih 1 biaya tetap yang paling dekat jatuh tempo."@,
        InsightRule::LowBuffer => if watchful {
            "Prioritaskan kebutuhan inti; jaga pengeluaran di bawah "@ + rupiah_text(
                s.recommended_spend_today as int,
            ) + "."@
        } else {
            "Hari ini aman kalau jaga pengeluaran di bawah "@ + rupiah_text(s.recommended_spend_today as int) + "."@
        },
        InsightRule::NearLimit => if watchful {
            "Tekan belanja tambahan; sisa aman "@ + rupiah_text(s.today_remaining_clamped as int)
                + " untuk hari ini."@
        } else {
            "Langkah kecil: kalau perlu belanja lagi, pilih yang paling penting di bawah "@ + rupiah_text(
                s.today_remaining_clamped as int,
            ) + "."@
        },
        InsightRule::ConsistencyPraise => "Pertahankan: cukup 1 catatan per hari selama 2 hari lagi."@,
        InsightRule::Normal => "Langkah kecil: belanja aman jika tetap di bawah "@ + rupiah_text(
            s.recommended_spend_today as int,
        ) + "."@,
    }
}

pub open spec fn key_numbers_spec(rule: InsightRule, i: InsightInputs) -> Seq<i64> {
    let s = i.summary;
    match rule {
        InsightRule::Onboarding => seq![i.tx_count_total, s.recommended_spend_today],
        InsightRule::OverspentToday => seq![s.today_out, s.recommended_spend_today, s.today_remaining],
        InsightRule::NoTxToday => seq![i.tx_count_today, s.recommended_spend_today, s.today_out],
        InsightRule::FixedCostUnpaid => seq![
            i.fixed_cost_unpaid_count_month,
            i.fixed_cost_unpaid_amount_month,
            s.net_balance,
        ],
        InsightRule::LowBuffer => seq![s.net_balance, s.target_buffer, s.resilience_days_estimate],
        InsightRule::NearLimit => seq![s.today_out, s.recommended_spend_today, s.today_remaining_clamped],
        InsightRule::ConsistencyPraise => seq![i.days_with_tx_7d, i.avg_out_7d],
        InsightRule::Normal => seq![s.net_balance, s.recommended_spend_today],
    }
}

pub open spec fn texts(v: Seq<String>) -> Seq<Seq<char>> {
    v.map_values(|b: String| b@)
}

/// `r` carries the message of `rule` for these inputs, coach mode and part
/// of the day, whatever its continuity and reflection lines.
pub open spec fn has_rule_message(
    r: CoachingInsight,
    rule: InsightRule,
    i: InsightInputs,
    coach_mode: Seq<char>,
    bucket: TimeBucket,
) -> bool {
    &&& r.status_title@ == title_spec(rule, i)
    &&& texts(r.bullets@) == bullets_spec(rule, i)
    &&& r.next_step@ == next_step_spec(rule, i, coach_mode == "watchful"@, bucket)
    &&& r.tone@ == tone_spec(rule)
    &&& r.coach_mode@ == coach_mode
    &&& r.debug_meta matches Some(m) && m.rule_id@ == rule_id_spec(rule) && m.key_numbers@ == key_numbers_spec(rule, i)
}

/// `r` is the message of `rule`, before continuity and reflection lines are added.
pub open spec fn is_rule_insight(
    r: CoachingInsight,
    rule: InsightRule,
    i: InsightInputs,
    coach_mode: Seq<char>,
    bucket: TimeBucket,
) -> bool {
    &&& has_rule_message(r, rule, i, coach_mode, bucket)
    &&& r.continuity_line is None
    &&& r.memory_reflection is None
}

fn text_with(prefix: &str, value: String, suffix: &str) -> (r: String)
    ensures
        r@ == prefix@ + value@ + suffix@,
{
    concat3(prefix, value.as_str(), suffix)
}

fn two_texts(a: String, b: String) -> (r: Vec<String>)
    ensures
        texts(r@) == seq![a@, b@],
{
    let ghost (av, bv) = (a@, b@);
    let mut v: Vec<String> = Vec::new();
    v.push(a);
    v.push(b);
    assert(texts(v@) =~= seq![av, bv]);
    v
}

fn assemble(
    status_title: String,
    bullets: Vec<String>,
    next_step: String,
    tone: &str,
    coach_mode: &str,
    rule_id: &str,
    key_numbers: Vec<i64>,
) -> (r: CoachingInsight)
    ensures
        r.status_title == status_title,
        r.bullets == bullets,
        r.next_step == next_step,
        r.tone@ == tone@,
        r.coach_mode@ == coach_mode@,
        r.continuity_line is None,
        r.memory_reflection is None,
        r.debug_meta matches Some(m) && m.rule_id@ == rule_id@ && m.key_numbers == key_numbers,
{
    CoachingInsight {
        status_title,
        bullets,
        next_step,
        tone: String::from_str(tone),
        coach_mode: String::from_str(coach_mode),
        continuity_line: None,
        memory_reflection: None,
        debug_meta: Some(InsightDebugMeta { rule_id: String::from_str(rule_id), key_numbers }),
    }
}

fn recommended_bullet(s: &PoolsSummary) -> (r: String)
    ensures
        r@ == "Rekomendasi hari ini "@ + rupiah_text(s.recommended_spend_today as int) + "."@,
{
    text_with("Rekomendasi hari ini ", rupiah(s.recommended_spend_today), ".")
}

fn spent_today_bullet(s: &PoolsSummary) -> (r: String)
    ensures
        r@ == "Pengeluaran hari ini "@ + rupiah_text(s.today_out as int) + "."@,
{
    text_with("Pengeluaran hari ini ", rupiah(s.today_out), ".")
}

/// Whether the coach mode asks for the more directive wording.
pub fn is_watchful(coach_mode: &str) -> (r: bool)
    ensures
        r == (coach_mode@ == "watchful"@),
{
    String::from_str(coach_mode) == String::from_str("watchful")
}

fn onboarding_insight(i: &InsightInputs, coach_mode: &str) -> (r: CoachingInsight)
    ensures
        forall|b: TimeBucket| is_rule_insight(r, InsightRule::Onboarding, *i, coach_mode@, b),
{
    let s = &i.summary;
    let title = text_with("Baru ", decimal_string(i.tx_count_total), " transaksi, pelan-pelan bangun ritme.");
    let bullets = two_texts(
        text_with("Total catatan saat ini ", decimal_string(i.tx_count_total), " transaksi."),
        recommended_bullet(s),
    );
    let next = String::from_str("Langkah kecil: catat 1 transaksi hari ini agar ritme terasa.");
    let r = assemble(title, bullets, next, "calm", coach_mode, "onboarding", vec![i.tx_count_total, s.recommended_spend_today]);
    assert(r.debug_meta->0.key_numbers@ =~= key_numbers_spec(InsightRule::Onboarding, *i));
    r
}

fn overspent_insight(i: &InsightInputs, coach_mode: &str) -> (r: CoachingInsight)
    ensures
        forall|b: TimeBucket| is_rule_insight(r, InsightRule::OverspentToday, *i, coach_mode@, b),
{
    let s = &i.summary;
    let next = if is_watchful(coach_mode) {
        String::from_str("Jika bisa, hentikan pengeluaran tambahan sampai besok.")
    } else {
        text_with(
            "Hari ini aman kalau tahan belanja tambahan; besok reset dengan target ",
            rupiah(s.recommended_spend_today),
            ".",
        )
    };
    let title = text_with("Hari ini melewati batas ", rupiah(s.recommended_spend_today), ".");
    let bullets = two_texts(spent_today_bullet(s), text_with("Sisa hari ini ", rupiah(s.today_remaining), "."));
    let r = assemble(
        title,
        bullets,
        next,
        "alert",
        coach_mode,
        "overspent_today",
        vec![s.today_out, s.recommended_spend_today, s.today_remaining],
    );
    assert(r.debug_meta->0.key_numbers@ =~= key_numbers_spec(InsightRule::OverspentToday, *i));
    r
}

/// The next step when nothing is recorded yet today.
pub fn no_tx_next_step(bucket: TimeBucket) -> (r: String)
    ensures
        r@ == no_tx_next_step_spec(bucket),
{
    match bucket {
        TimeBucket::Morning => String::from_str("Kalau ada satu catatan kecil pagi ini, ritmenya lebih terasa."),
        TimeBucket::Night => String::from_str("Hari ini sudah hampir selesai; besok kita mulai lagi."),
        _ => String::from_str("Langkah kecil: catat 1 transaksi pertama hari ini."),
    }
}

fn no_tx_insight(i: &InsightInputs, coach_mode: &str, bucket: TimeBucket) -> (r: CoachingInsight)
    ensures
        is_rule_insight(r, InsightRule::NoTxToday, *i, coach_mode@, bucket),
{
    let s = &i.summary;
    let title = String::from_str("Belum ada catatan hari ini, 0 transaksi.");
    let bullets = two_texts(recommended_bullet(s), spent_today_bullet(s));
    let r = assemble(
        title,
        bullets,
        no_tx_next_step(bucket),
        "calm",
        coach_mode,
        "no_tx_today",
        vec![i.tx_count_today, s.recommended_spend_today, s.today_out],
    );
    assert(r.debug_meta->0.key_numbers@ =~= key_numbers_spec(InsightRule::NoTxToday, *i));
    r
}

fn fixed_cost_unpaid_insight(i: &InsightInputs, coach_mode: &str) -> (r: CoachingInsight)
    ensures
        forall|b: TimeBucket| is_rule_insight(r, InsightRule::FixedCostUnpaid, *i, coach_mode@, b),
{
    let s = &i.summary;
    let title = text_with(
        "Ada ",
        decimal_string(i.fixed_cost_unpaid_count_month),
        " biaya tetap belum lunas bulan ini.",
    );
    let bullets = two_texts(
        text_with("Total belum lunas ", rupiah(i.fixed_cost_unpaid_amount_month), "."),
        text_with("Saldo bersih ", rupiah(s.net_balance), "."),
    );
    let next = String::from_str("Langkah kecil: pilih 1 biaya tetap yang paling dekat jatuh tempo.");
    let r = assemble(
        title,
        bullets,
        next,
        "calm",
        coach_mode,
        "fixed_cost_unpaid",
        vec![i.fixed_cost_unpaid_count_month, i.fixed_cost_unpaid_amount_month, s.net_balance],
    );
    assert(r.debug_meta->0.key_numbers@ =~= key_numbers_spec(InsightRule::FixedCostUnpaid, *i));
    r
}

fn low_buffer_insight(i: &InsightInputs, coach_mode: &str) -> (r: CoachingInsight)
    ensures
        forall|b: TimeBucket| is_rule_insight(r, InsightRule::LowBuffer, *i, coach_mode@, b),
{
    let s = &i.summary;
    let next = if is_watchful(coach_mode) {
        text_with("Prioritaskan kebutuhan inti; jaga pengeluaran di bawah ", rupiah(s.recommended_spend_today), ".")
    } else {
        text_with("Hari ini aman kalau jaga pengeluaran di bawah ", rupiah(s.recommended_spend_today), ".")
    };
    let title = text_with("Penyangga belum aman, ketahanan ", decimal_string(s.resilience_days_estimate), " hari.");
    let first = text_with("Saldo bersih ", rupiah(s.net_balance), " vs target ");
    let bullets = two_texts(text_with(first.as_str(), rupiah(s.target_buffer), "."), recommended_bullet(s));
    let r = assemble(
        title,
        bullets,
        next,
        "alert",
        coach_mode,
        "low_buffer",
        vec![s.net_balance, s.target_buffer, s.resilience_days_estimate],
    );
    assert(r.debug_meta->0.key_numbers@ =~= key_numbers_spec(InsightRule::LowBuffer, *i));
    r
}

fn near_limit_insight(i: &InsightInputs, coach_mode: &str) -> (r: CoachingInsight)
    ensures
        forall|b: TimeBucket| is_rule_insight(r, InsightRule::NearLimit, *i, coach_mode@, b),
{
    let s = &i.summary;
    let next = if is_watchful(coach_mode) {
        text_with("Tekan belanja tambahan; sisa aman ", rupiah(s.today_remaining_clamped), " untuk hari ini.")
    } else {
        text_with(
            "Langkah kecil: kalau perlu belanja lagi, pilih yang paling penting di bawah ",
            rupiah(s.today_remaining_clamped),
            ".",
        )
    };
    let title = text_with("Hampir menyentuh batas ", rupiah(s.recommended_spend_today), ".");
    let bullets = two_texts(
        text_with("Sudah terpakai ", rupiah(s.today_out), " hari ini."),
        text_with("Sisa ", rupiah(s.today_remaining_clamped), " untuk hari ini."),
    );
    let r = assemble(
        title,
        bullets,
        next,
        "calm",
        coach_mode,
        "near_limit",
        vec![s.today_out, s.recommended_spend_today, s.today_remaining_clamped],
    );
    assert(r.debug_meta->0.key_numbers@ =~= key_numbers_spec(InsightRule::NearLimit, *i));
    r
}

fn consistency_insight(i: &InsightInputs, coach_mode: &str) -> (r: CoachingInsight)
    ensures
        forall|b: TimeBucket| is_rule_insight(r, InsightRule::ConsistencyPraise, *i, coach_mode@, b),
{
    let title = text_with("Kamu konsisten ", decimal_string(i.days_with_tx_7d), " dari 7 hari.");
    let a = text_with("Total pengeluaran 7 hari ", rupiah(i.total_out_7d), ".");
    let b = text_with("Rata-rata pengeluaran 7 hari ", rupiah(i.avg_out_7d), " per hari.");
    let c = text_with("Total transaksi tercatat ", decimal_string(i.tx_count_total), ".");
    let ghost (av, bv, cv) = (a@, b@, c@);
    let mut bullets: Vec<String> = Vec::new();
    bullets.push(a);
    bullets.push(b);
    bullets.push(c);
    assert(texts(bullets@) =~= seq![av, bv, cv]);
    let next = String::from_str("Pertahankan: cukup 1 catatan per hari selama 2 hari lagi.");
    let r = assemble(
        title,
        bullets,
        next,
        "calm",
        coach_mode,
        "consistency_praise",
        vec![i.days_with_tx_7d, i.avg_out_7d],
    );
    assert(r.debug_meta->0.key_numbers@ =~= key_numbers_spec(InsightRule::ConsistencyPraise, *i));
    r
}

fn normal_insight(i: &InsightInputs, coach_mode: &str) -> (r: CoachingInsight)
    ensures
        forall|b: TimeBucket| is_rule_insight(r, InsightRule::Normal, *i, coach_mode@, b),
{
    let s = &i.summary;
    let title = text_with("Kondisi hari ini cukup stabil, saldo ", rupiah(s.net_balance), ".");
    let bullets = two_texts(
        text_with("Dana fleksibel ", rupiah(s.flexible_fund), " di atas penyangga."),
        recommended_bullet(s),
    );
    let next = text_with("Langkah kecil: belanja aman jika tetap di bawah ", rupiah(s.recommended_spend_today), ".");
    let r = assemble(
        title,
        bullets,
        next,
        "calm",
        coach_mode,
        "normal",
        vec![s.net_balance, s.recommended_spend_today],
    );
    assert(r.debug_meta->0.key_numbers@ =~= key_numbers_spec(InsightRule::Normal, *i));
    r
}

/// Builds the coaching message of the first rule, in priority order, that
/// holds for these inputs.
pub fn select_insight_rule(inputs: &InsightInputs, coach_mode: &str, time_bucket: TimeBucket) -> (r: CoachingInsight)
    ensures
        is_rule_insight(r, rule_for(*inputs), *inputs, coach_mode@, time_bucket),
{
    match select_rule(inputs) {
        InsightRule::Onboarding => onboarding_insight(inputs, coach_mode),
        InsightRule::OverspentToday => overspent_insight(inputs, coach_mode),
        InsightRule::NoTxToday => no_tx_insight(inputs, coach_mode, time_bucket),
        InsightRule::FixedCostUnpaid => fixed_cost_unpaid_insight(inputs, coach_mode),
        InsightRule::LowBuffer => low_buffer_insight(inputs, coach_mode),
        InsightRule::NearLimit => near_limit_insight(inputs, coach_mode),
        InsightRule::ConsistencyPraise => consistency_insight(inputs, coach_mode),
        InsightRule::Normal => normal_insight(inputs, coach_mode),
    }
}

/// With fewer than five transactions in total the onboarding rule applies,
/// whatever the other inputs are.
pub proof fn onboarding_comes_first(i: InsightInputs)
    requires
        i.tx_count_total < 5,
    ensures
        rule_for(i) == InsightRule::Onboarding,
        rule_id_spec(rule_for(i)) == "onboarding"@,
{
}

/// The rules form a strict priority order: when today is overspent and a
/// fixed cost is unpaid, the overspent rule wins.
pub proof fn overspent_outranks_unpaid_fixed_cost(i: InsightInputs)
    requires
        i.tx_count_total >= 5,
        overspent_holds(i.summary),
        i.fixed_cost_unpaid_count_month > 0,
    ensures
        rule_for(i) == InsightRule::OverspentToday,
        rule_id_spec(rule_for(i)) == "overspent_today"@,
{
}

/// Today's date and part of the day, and whether this is the day's first
/// look with nothing recorded and nothing journaled yet.
#[derive(Debug)]
pub struct TimeContext {
    pub today_local: String,
    pub time_bucket: TimeBucket,
    pub is_new_day_first_open: bool,
}

pub fn build_time_context(today_local: &str, hour: u32, tx_count_today: i64, has_memory_today: bool) -> (r:
    TimeContext)
    ensures
        r.today_local@ == today_local@,
        r.time_bucket == time_bucket_spec(hour),
        r.is_new_day_first_open == (!has_memory_today && tx_count_today == 0),
{
    TimeContext {
        today_local: String::from_str(today_local),
        time_bucket: time_bucket_of(hour),
        is_new_day_first_open: !has_memory_today && tx_count_today == 0,
    }
}

pub open spec fn opt_entry_view(o: Option<&MemoryEntry>) -> Option<MemoryEntryView> {
    match o {
        Some(e) => Some(e@),
        None => None,
    }
}

/// A line linking today to the last journal entry from another day when the
/// tone flipped between calm and alert; otherwise, on the day's first look,
/// a greeting by part of the day.
pub open spec fn continuity_spec(
    last: Option<MemoryEntryView>,
    today: Seq<char>,
    tone: Seq<char>,
    first_open: bool,
    bucket: TimeBucket,
) -> Option<Seq<char>> {
    let from_memory = match last {
        Some(m) => if m.date_local != today && m.mode == "alert"@ && tone == "calm"@ {
            Some("Kemarin sempat ketat, hari ini kita mulai lagi pelan-pelan."@)
        } else if m.date_local != today && m.mode == "calm"@ && tone == "alert"@ {
            Some("Hari ini lebih ketat dari kemarin. Kita jaga pelan-pelan."@)
        } else {
            None
        },
        None => None,
    };
    if from_memory is Some {
        from_memory
    } else if first_open {
        Some(
            match bucket {
                TimeBucket::Morning => "Pagi ini kita mulai pelan-pelan."@,
                TimeBucket::Night => "Hari ini hampir selesai, besok kita mulai lagi."@,
                _ => "Hari ini kita mulai pelan-pelan."@,
            },
        )
    } else {
        None
    }
}

pub open spec fn opt_text(o: Option<String>) -> Option<Seq<char>> {
    match o {
        Some(s) => Some(s@),
        None => None,
    }
}

fn str_eq(a: &str, b: &str) -> (r: bool)
    ensures
        r == (a@ == b@),
{
    String::from_str(a) == String::from_str(b)
}

pub fn build_continuity_line(time_context: &TimeContext, last_memory: Option<&MemoryEntry>, tone: &str) -> (r: Option<
    String,
>)
    ensures
        opt_text(r) == continuity_spec(
            opt_entry_view(last_memory),
            time_context.today_local@,
            tone@,
            time_context.is_new_day_first_open,
            time_context.time_bucket,
        ),
{
    if let Some(memory) = last_memory {
        if memory.date_local != time_context.today_local {
            let was_alert = str_eq(memory.mode.as_str(), "alert");
            let was_calm = str_eq(memory.mode.as_str(), "calm");
            if was_alert && str_eq(tone, "calm") {
                return Some(String::from_str("Kemarin sempat ketat, hari ini kita mulai lagi pelan-pelan."));
            }
            if was_calm && str_eq(tone, "alert") {
                return Some(String::from_str("Hari ini lebih ketat dari kemarin. Kita jaga pelan-pelan."));
            }
        }
    }
    if time_context.is_new_day_first_open {
        let line = match time_context.time_bucket {
            TimeBucket::Morning => "Pagi ini kita mulai pelan-pelan.",
            TimeBucket::Night => "Hari ini hampir selesai, besok kita mulai lagi.",
            _ => "Hari ini kita mulai pelan-pelan.",
        };
        return Some(String::from_str(line));
    }
    None
}

/// Quotes the last journal headline when it is from another day.
pub open spec fn reflection_spec(last: Option<MemoryEntryView>, today: Seq<char>) -> Option<Seq<char>> {
    match last {
        Some(m) => if m.date_local == today {
            None
        } else {
            Some("Catatan terakhir: "@ + m.headline + "."@)
        },
        None => None,
    }
}

pub fn build_memory_reflection(last_memory: Option<&MemoryEntry>, today_local: &str) -> (r: Option<String>)
    ensures
        opt_text(r) == reflection_spec(opt_entry_view(last_memory), today_local@),
{
    let memory = match last_memory {
        Some(m) => m,
        None => return None,
    };
    if str_eq(memory.date_local.as_str(), today_local) {
        return None;
    }
    Some(concat3("Catatan terakhir: ", memory.headline.as_str(), "."))
}

/// Parts joined by commas.
pub open spec fn join_commas(parts: Seq<Seq<char>>) -> Seq<char>
    decreases parts.len(),
{
    if parts.len() == 0 {
        Seq::empty()
    } else if parts.len() == 1 {
        parts[0]
    } else {
        join_commas(parts.drop_last()) + ","@ + parts.last()
    }
}

/// The tags of a journal entry: the rule id, then `streak`, `first_tx` and
/// `alert` where they apply.
pub open spec fn tags_spec(rule_id: Option<Seq<char>>, streak: bool, first_tx: bool, alert: bool) -> Seq<char> {
    let a = match rule_id {
        Some(id) => seq![id],
        None => Seq::empty(),
    };
    let b = if streak { a.push("streak"@) } else { a };
    let c = if first_tx { b.push("first_tx"@) } else { b };
    let d = if alert { c.push("alert"@) } else { c };
    join_commas(d)
}

fn push_part(out: &mut String, parts: Ghost<Seq<Seq<char>>>, any: bool, part: &str)
    requires
        old(out)@ == join_commas(parts@),
        any == (parts@.len() > 0),
    ensures
        final(out)@ == join_commas(parts@.push(part@)),
{
    proof {
        assert(parts@.push(part@).drop_last() =~= parts@);
        reveal_strlit(",");
    }
    if !any {
        out.append(part);
        assert(out@ =~= part@);
    } else {
        out.append(",");
        out.append(part);
    }
}

pub open spec fn meta_rule_id(insight: CoachingInsight) -> Option<Seq<char>> {
    match insight.debug_meta {
        Some(m) => Some(m.rule_id@),
        None => None,
    }
}

pub fn build_memory_tags(insight: &CoachingInsight, streak_milestone: bool, first_tx_today: bool) -> (r: String)
    ensures
        r@ == tags_spec(meta_rule_id(*insight), streak_milestone, first_tx_today, insight.tone@ == "alert"@),
{
    let mut out = String::new();
    let ghost mut parts: Seq<Seq<char>> = Seq::empty();
    let mut any = false;
    if let Some(meta) = &insight.debug_meta {
        push_part(&mut out, Ghost(parts), any, meta.rule_id.as_str());
        proof {
            parts = parts.push(meta.rule_id@);
        }
        any = true;
    }
    if streak_milestone {
        push_part(&mut out, Ghost(parts), any, "streak");
        proof {
            parts = parts.push("streak"@);
        }
        any = true;
    }
    if first_tx_today {
        push_part(&mut out, Ghost(parts), any, "first_tx");
        proof {
            parts = parts.push("first_tx"@);
        }
        any = true;
    }
    if str_eq(insight.tone.as_str(), "alert") {
        push_part(&mut out, Ghost(parts), any, "alert");
        proof {
            parts = parts.push("alert"@);
        }
    }
    proof {
        assert(Seq::<Seq<char>>::empty().push(insight.debug_meta->0.rule_id@) =~= seq![insight.debug_meta->0.rule_id@]);
    }
    out
}

} // verus!
