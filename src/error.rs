use vstd::prelude::*;

verus! {

/// Errors raised by the budgeting operations.
#[derive(Clone, Copy, Debug, PartialEq, Eq, Structural)]
pub enum BudgetError {
    /// An amount below zero.
    NegativeAmount,
    /// `min_floor` or `max_ceil` below zero.
    NegativeBound,
    /// `resilience_days` below one.
    InvalidResilienceDays,
    /// `min_floor` above `max_ceil`.
    FloorAboveCeiling,
    /// A coach mode other than `calm` or `watchful`.
    InvalidCoachMode,
    /// A transaction id that is zero or negative.
    InvalidTransactionId,
    /// No transaction with the given id.
    TransactionNotFound,
    /// No fixed cost with the given id.
    FixedCostNotFound,
    /// A total or product that does not fit in an `i64`.
    AmountOverflow,
    /// A date that is not a valid `YYYY-MM-DD` day.
    InvalidDate,
}

} // verus!
