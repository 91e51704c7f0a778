use vstd::prelude::*;

use crate::error::BudgetError;

verus! {

/// The active budgeting configuration.
#[derive(Clone, Copy, Debug, PartialEq, Eq, Structural)]
pub struct Config {
    pub min_floor: i64,
    pub max_ceil: i64,
    pub resilience_days: i64,
}

impl Config {
    /// Bounds that every stored configuration satisfies.
    pub open spec fn valid(&self) -> bool {
        &&& 0 <= self.min_floor <= self.max_ceil
        &&& self.resilience_days >= 1
    }

    /// Validates a requested configuration.
    pub fn new(min_floor: i64, max_ceil: i64, resilience_days: i64) -> (r: Result<Config, BudgetError>)
        ensures
            min_floor < 0 || max_ceil < 0 ==> r == Err::<Config, BudgetError>(BudgetError::NegativeBound),
            min_floor >= 0 && max_ceil >= 0 && resilience_days < 1 ==> r == Err::<Config, BudgetError>(
                BudgetError::InvalidResilienceDays,
            ),
            min_floor >= 0 && max_ceil >= 0 && resilience_days >= 1 && min_floor > max_ceil ==> r == Err::<
                Config,
                BudgetError,
            >(BudgetError::FloorAboveCeiling),
            0 <= min_floor <= max_ceil && resilience_days >= 1 ==> r == Ok::<Config, BudgetError>(
                (Config { min_floor, max_ceil, resilience_days }),
            ),
    {
        if min_floor < 0 || max_ceil < 0 {
            return Err(BudgetError::NegativeBound);
        }
        if resilience_days < 1 {
            return Err(BudgetError::InvalidResilienceDays);
        }
        if min_floor > max_ceil {
            return Err(BudgetError::FloorAboveCeiling);
        }
        Ok(Config { min_floor, max_ceil, resilience_days })
    }
}

/// Derived view of balances and the recommended spend for today.
#[derive(Clone, Copy, Debug, PartialEq, Eq, Structural)]
pub struct PoolsSummary {
    pub total_in: i64,
    pub total_out: i64,
    pub net_balance: i64,
    pub min_floor: i64,
    pub max_ceil: i64,
    pub resilience_days: i64,
    pub target_buffer: i64,
    pub flexible_fund: i64,
    pub recommended_spend_today: i64,
    pub today_out: i64,
    pub today_remaining: i64,
    pub today_remaining_clamped: i64,
    pub overspent_today: bool,
    pub resilience_days_estimate: i64,
}

pub open spec fn max_int(a: int, b: int) -> int {
    if a >= b { a } else { b }
}

pub open spec fn clamp_spec(value: int, lo: int, hi: int) -> int {
    if value < lo {
        lo
    } else if value > hi {
        hi
    } else {
        value
    }
}

/// The largest multiple of 1000 not above `value`, and zero for `value <= 0`.
pub open spec fn floor_to_thousand_spec(value: int) -> int {
    if value <= 0 { 0 } else { (value / 1000) * 1000 }
}

/// Net balance above the buffer target, never negative.
pub open spec fn flexible_fund_spec(net: int, target: int) -> int {
    max_int(0, net - target)
}

/// The recommended spend for today given the configuration and net balance.
pub open spec fn recommended_spec(min_floor: int, max_ceil: int, days: int, net: int) -> int {
    let target = min_floor * days;
    let per_day = flexible_fund_spec(net, target) / days;
    let reached = net >= target;
    let raw = if reached { max_int(min_floor, per_day) } else { per_day };
    let lower = if reached { min_floor } else { 0 };
    let rounded = floor_to_thousand_spec(clamp_spec(raw, lower, max_ceil));
    if reached { max_int(lower, rounded) } else { rounded }
}

/// Days the net balance lasts at `min_floor` per day: floor division,
/// never negative, and zero when `min_floor` is zero.
pub open spec fn resilience_estimate_spec(net: int, min_floor: int) -> int {
    if min_floor > 0 { max_int(0, net / min_floor) } else { 0 }
}

/// Inputs for which the summary's arithmetic stays within `i64`.
pub open spec fn summary_inputs_ok(config: Config, total_in: i64, total_out: i64, today_out: i64) -> bool {
    &&& config.valid()
    &&& total_in >= 0
    &&& total_out >= 0
    &&& today_out >= 0
    &&& config.min_floor * config.resilience_days <= i64::MAX
}

/// What `compute_pools_summary` returns.
pub open spec fn summary_spec(config: Config, total_in: i64, total_out: i64, today_out: i64) -> PoolsSummary {
    let net = total_in - total_out;
    let target = config.min_floor * config.resilience_days;
    let rec = recommended_spec(
        config.min_floor as int,
        config.max_ceil as int,
        config.resilience_days as int,
        net,
    );
    PoolsSummary {
        total_in,
        total_out,
        net_balance: net as i64,
        min_floor: config.min_floor,
        max_ceil: config.max_ceil,
        resilience_days: config.resilience_days,
        target_buffer: target as i64,
        flexible_fund: flexible_fund_spec(net, target) as i64,
        recommended_spend_today: rec as i64,
        today_out,
        today_remaining: (rec - today_out) as i64,
        today_remaining_clamped: max_int(0, rec - today_out) as i64,
        overspent_today: today_out > rec,
        resilience_days_estimate: resilience_estimate_spec(net, config.min_floor as int) as i64,
    }
}

/// Clamps `value` into `[min, max]`, checking the lower bound first.
pub fn clamp_i64(value: i64, min: i64, max: i64) -> (r: i64)
    ensures
        r == clamp_spec(value as int, min as int, max as int),
{
    if value < min {
        min
    } else if value > max {
        max
    } else {
        value
    }
}

/// Rounds down to a multiple of 1000; values at or below zero give zero.
pub fn floor_to_thousand(value: i64) -> (r: i64)
    ensures
        r == floor_to_thousand_spec(value as int),
{
    if value <= 0 {
        0
    } else {
        (value / 1000) * 1000
    }
}

proof fn lemma_floor_to_thousand_bounds(v: int)
    ensures
        0 <= floor_to_thousand_spec(v),
        v >= 0 ==> floor_to_thousand_spec(v) <= v,
{
    if v > 0 {
        assert(0 <= (v / 1000) * 1000 <= v) by (nonlinear_arith)
            requires
                v > 0,
        ;
    }
}

/// Computes the pools summary from the configuration and the ledger totals:
/// sums of all incoming and outgoing amounts, and of today's outgoing ones.
pub fn compute_pools_summary(config: &Config, total_in: i64, total_out: i64, today_out: i64) -> (r:
    PoolsSummary)
    requires
        summary_inputs_ok(*config, total_in, total_out, today_out),
    ensures
        r == summary_spec(*config, total_in, total_out, today_out),
        r.resilience_days_estimate >= 0,
        0 <= r.recommended_spend_today <= config.max_ceil,
        r.net_balance >= r.target_buffer ==> r.recommended_spend_today >= config.min_floor,
        r.recommended_spend_today >= config.min_floor || r.recommended_spend_today % 1000 == 0,
{
    let min_floor = config.min_floor;
    let max_ceil = config.max_ceil;
    let days = config.resilience_days;
    let net = total_in - total_out;
    assert(0 <= min_floor * days) by (nonlinear_arith)
        requires
            min_floor >= 0,
            days >= 1,
    ;
    let target = min_floor * days;
    let reached = net >= target;
    let flexible = if reached {
        net - target
    } else {
        0
    };
    let per_day = flexible / days;
    assert(0 <= per_day <= flexible) by (nonlinear_arith)
        requires
            flexible >= 0,
            days >= 1,
            per_day == flexible / days,
    ;
    let raw = if reached {
        if min_floor >= per_day {
            min_floor
        } else {
            per_day
        }
    } else {
        per_day
    };
    let lower = if reached {
        min_floor
    } else {
        0
    };
    let clamped = clamp_i64(raw, lower, max_ceil);
    let rounded = floor_to_thousand(clamped);
    proof {
        lemma_floor_to_thousand_bounds(clamped as int);
    }
    let recommended = if reached {
        if lower >= rounded {
            lower
        } else {
            rounded
        }
    } else {
        rounded
    };
    let today_remaining = recommended - today_out;
    let today_remaining_clamped = if today_remaining >= 0 {
        today_remaining
    } else {
        0
    };
    let estimate = if min_floor > 0 && net >= 0 {
        net / min_floor
    } else {
        0
    };
    proof {
        if min_floor > 0 && net < 0 {
            assert((net as int) / (min_floor as int) < 0) by (nonlinear_arith)
                requires
                    net < 0,
                    min_floor > 0,
            ;
        }
    }
    PoolsSummary {
        total_in,
        total_out,
        net_balance: net,
        min_floor,
        max_ceil,
        resilience_days: days,
        target_buffer: target,
        flexible_fund: flexible,
        recommended_spend_today: recommended,
        today_out,
        today_remaining,
        today_remaining_clamped,
        overspent_today: today_out > recommended,
        resilience_days_estimate: estimate,
    }
}

/// The part of the pools summary about today.
#[derive(Clone, Copy, Debug, PartialEq, Eq, Structural)]
pub struct TodaySummary {
    pub recommended_spend_today: i64,
    pub today_out: i64,
    pub today_remaining: i64,
    pub today_remaining_clamped: i64,
    pub overspent_today: bool,
}

/// Today's figures of a pools summary.
pub fn today_summary(s: &PoolsSummary) -> (r: TodaySummary)
    ensures
        r == (TodaySummary {
            recommended_spend_today: s.recommended_spend_today,
            today_out: s.today_out,
            today_remaining: s.today_remaining,
            today_remaining_clamped: s.today_remaining_clamped,
            overspent_today: s.overspent_today,
        }),
{
    TodaySummary {
        recommended_spend_today: s.recommended_spend_today,
        today_out: s.today_out,
        today_remaining: s.today_remaining,
        today_remaining_clamped: s.today_remaining_clamped,
        overspent_today: s.overspent_today,
    }
}

} // verus!
