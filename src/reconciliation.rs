//! Properties of the fixed-cost reconciliation: un-paying twice, deleting a
//! paid transaction, replacing a stale link, paying twice.
use vstd::prelude::*;

use crate::ledger::{
    deleted_tx_spec, distinct_payment_keys, find_payment_spec, key_matches, lemma_find_payment,
    lemma_latest_period, paid_spec, payment_not_key, tx_valid_link, unlink_tx, unpaid_period_spec, unpaid_spec,
    LedgerView, PaymentView, TxKind, TxSource,
};
use crate::seqs::{lemma_filter_all, lemma_filter_all_true, lemma_filter_indices};
use crate::text::period_of;

verus! {

/// At most one payment row belongs to this fixed cost.
pub open spec fn at_most_one_payment(ps: Seq<PaymentView>, fixed_cost_id: i64) -> bool {
    forall|i: int, j: int|
        0 <= i < ps.len() && 0 <= j < ps.len() && #[trigger] ps[i].fixed_cost_id == fixed_cost_id
            && #[trigger] ps[j].fixed_cost_id == fixed_cost_id ==> i == j
}

/// No payment row belongs to this fixed cost.
pub open spec fn no_payment_of(ps: Seq<PaymentView>, fixed_cost_id: i64) -> bool {
    forall|i: int| 0 <= i < ps.len() ==> (#[trigger] ps[i]).fixed_cost_id != fixed_cost_id
}

/// Un-paying a fixed cost for the month of a given date leaves no payment
/// row for that month, and un-paying it again with the same date changes
/// nothing.
pub proof fn unpaid_twice_with_date_is_noop(v: LedgerView, fixed_cost_id: i64, date: Seq<char>, current_period: Seq<char>)
    requires
        v.wf(),
    ensures
        ({
            let v1 = unpaid_spec(v, fixed_cost_id, unpaid_period_spec(v, fixed_cost_id, Some(date), current_period));
            &&& !v1.has_payment(fixed_cost_id, period_of(date))
            &&& unpaid_spec(v1, fixed_cost_id, unpaid_period_spec(v1, fixed_cost_id, Some(date), current_period))
                == v1
        }),
{
    let ps = v.payments;
    let period = period_of(date);
    let pred = payment_not_key(fixed_cost_id, period);
    let v1 = unpaid_spec(v, fixed_cost_id, period);
    let f = ps.filter(pred);
    assert(v1.payments == f);
    lemma_filter_all(ps, pred, |p: PaymentView| true);
    assert forall|k: int| 0 <= k < f.len() implies !key_matches(#[trigger] f[k], fixed_cost_id, period) by {
        assert(pred(f[k]));
    }
    lemma_find_payment(f, fixed_cost_id, period);
    lemma_filter_all_true(f, pred);
    assert(unpaid_spec(v1, fixed_cost_id, period) == v1);
}

/// Un-paying, without a date, a fixed cost with at most one payment row
/// leaves it with no payment row at all, and un-paying it again changes
/// nothing.
pub proof fn unpaid_twice_is_noop(v: LedgerView, fixed_cost_id: i64, current_period: Seq<char>)
    requires
        v.wf(),
        at_most_one_payment(v.payments, fixed_cost_id),
    ensures
        ({
            let v1 = unpaid_spec(v, fixed_cost_id, unpaid_period_spec(v, fixed_cost_id, None, current_period));
            &&& no_payment_of(v1.payments, fixed_cost_id)
            &&& unpaid_spec(v1, fixed_cost_id, unpaid_period_spec(v1, fixed_cost_id, None, current_period)) == v1
        }),
{
    let date: Option<Seq<char>> = None;
    let ps = v.payments;
    let period = unpaid_period_spec(v, fixed_cost_id, date, current_period);
    lemma_find_payment(ps, fixed_cost_id, period);
    lemma_latest_period(ps, fixed_cost_id);
    let desired = current_period;
    lemma_find_payment(ps, fixed_cost_id, desired);
    // Every row of this fixed cost carries the period that gets cleared.
    assert forall|i: int| 0 <= i < ps.len() && (#[trigger] ps[i]).fixed_cost_id == fixed_cost_id implies ps[i].period_ym
        == period by {
        if find_payment_spec(ps, fixed_cost_id, desired) is Some {
            let j = find_payment_spec(ps, fixed_cost_id, desired)->0;
            assert(ps[j].fixed_cost_id == fixed_cost_id);
        } else {
            let j = choose|j: int|
                0 <= j < ps.len() && #[trigger] ps[j].fixed_cost_id == fixed_cost_id && ps[j].period_ym == period;
            assert(ps[j].fixed_cost_id == fixed_cost_id);
        }
    }
    let pred = payment_not_key(fixed_cost_id, period);
    let v1 = unpaid_spec(v, fixed_cost_id, period);
    let f = ps.filter(pred);
    assert(v1.payments == f);
    let idx = lemma_filter_indices(ps, pred);
    assert forall|k: int| 0 <= k < f.len() implies (#[trigger] f[k]).fixed_cost_id != fixed_cost_id by {
        assert(f[k] == ps[idx[k]]);
        assert(pred(f[k]));
    }
    let period2 = unpaid_period_spec(v1, fixed_cost_id, date, current_period);
    lemma_find_payment(f, fixed_cost_id, period2);
    assert forall|k: int| 0 <= k < f.len() implies #[trigger] payment_not_key(fixed_cost_id, period2)(f[k]) by {
        assert(f[k].fixed_cost_id != fixed_cost_id);
    }
    lemma_filter_all_true(f, payment_not_key(fixed_cost_id, period2));
    assert(unpaid_spec(v1, fixed_cost_id, period2) == v1);
}

/// After `mark_fixed_cost_paid`, the row for the paid period points at a
/// transaction that exists; deleting that transaction directly keeps the
/// row and clears its link.
pub proof fn deleting_paid_transaction_keeps_row(
    v: LedgerView,
    fixed_cost_id: i64,
    date: Seq<char>,
    ts: i64,
    amount: i64,
)
    requires
        v.wf(),
    ensures
        ({
            let period = period_of(date);
            let v1 = paid_spec(v, fixed_cost_id, date, ts, amount);
            let found = find_payment_spec(v1.payments, fixed_cost_id, period);
            &&& found is Some
            &&& v1.payments[found->0].tx_id is Some
            &&& v1.has_tx(v1.payments[found->0].tx_id->0)
            &&& {
                let v2 = deleted_tx_spec(v1, v1.payments[found->0].tx_id->0);
                &&& v2.has_payment(fixed_cost_id, period)
                &&& forall|i: int|
                    0 <= i < v2.payments.len() && key_matches(#[trigger] v2.payments[i], fixed_cost_id, period)
                        ==> v2.payments[i].tx_id is None
            }
        }),
{
    let period = period_of(date);
    let ps = v.payments;
    let v1 = paid_spec(v, fixed_cost_id, date, ts, amount);
    lemma_find_payment(ps, fixed_cost_id, period);
    lemma_find_payment(v1.payments, fixed_cost_id, period);
    let found0 = find_payment_spec(ps, fixed_cost_id, period);
    if found0 is Some && ps[found0->0].tx_id is Some && tx_valid_link(
        v.transactions,
        ps[found0->0].tx_id->0,
        fixed_cost_id,
    ) {
        let i = found0->0;
        let t = ps[i].tx_id->0;
        assert(key_matches(v1.payments[i], fixed_cost_id, period));
        assert(find_payment_spec(v1.payments, fixed_cost_id, period) is Some);
        let j = find_payment_spec(v1.payments, fixed_cost_id, period)->0;
        if j != i {
            assert(v1.payments[j] == ps[j]);
            assert(distinct_payment_keys()(ps[j], ps[i]));
        }
        let k = choose|k: int|
            0 <= k < v.transactions.len() && #[trigger] v.transactions[k].id == t && v.transactions[k].kind
                == TxKind::Out && v.transactions[k].source == TxSource::FixedCost && v.transactions[k].fixed_cost_id
                == Some(fixed_cost_id);
        assert(v1.transactions[k].id == t);
        let v2 = deleted_tx_spec(v1, t);
        assert(v2.payments[i] == unlink_tx(t)(v1.payments[i]));
        assert(key_matches(v2.payments[i], fixed_cost_id, period));
        assert forall|m: int|
            0 <= m < v2.payments.len() && key_matches(#[trigger] v2.payments[m], fixed_cost_id, period) implies v2.payments[m].tx_id is None by {
            if m != i {
                assert(v2.payments[m] == unlink_tx(t)(ps[m]));
                assert(distinct_payment_keys()(ps[m], ps[i]));
            }
        }
    } else {
        let pred = payment_not_key(fixed_cost_id, period);
        let f = ps.filter(pred);
        let n = f.len() as int;
        let t = v.next_tx_id;
        lemma_filter_all(ps, pred, |p: PaymentView| true);
        assert(key_matches(v1.payments[n], fixed_cost_id, period));
        assert(find_payment_spec(v1.payments, fixed_cost_id, period) == Some(n));
        assert(v1.transactions[v.transactions.len() as int].id == t);
        let v2 = deleted_tx_spec(v1, t);
        assert(v2.payments[n] == unlink_tx(t)(v1.payments[n]));
        assert(key_matches(v2.payments[n], fixed_cost_id, period));
        assert forall|m: int|
            0 <= m < v2.payments.len() && key_matches(#[trigger] v2.payments[m], fixed_cost_id, period) implies v2.payments[m].tx_id is None by {
            if m != n {
                assert(v2.payments[m] == unlink_tx(t)(f[m]));
                assert(pred(f[m]));
            }
        }
    }
}

/// `mark_fixed_cost_paid` on a period whose payment row points at a missing
/// transaction records a new outgoing fixed-cost transaction and leaves one
/// row for the period, pointing at it.
pub proof fn paid_replaces_stale_link(v: LedgerView, fixed_cost_id: i64, date: Seq<char>, ts: i64, amount: i64)
    requires
        v.wf(),
        find_payment_spec(v.payments, fixed_cost_id, period_of(date)) matches Some(i) && v.payments[i].tx_id matches Some(
            t,
        ) && !v.has_tx(t),
    ensures
        ({
            let period = period_of(date);
            let v1 = paid_spec(v, fixed_cost_id, date, ts, amount);
            &&& v1.transactions.len() == v.transactions.len() + 1
            &&& tx_valid_link(v1.transactions, v.next_tx_id, fixed_cost_id)
            &&& v1.has_payment(fixed_cost_id, period)
            &&& forall|j: int|
                0 <= j < v1.payments.len() && key_matches(#[trigger] v1.payments[j], fixed_cost_id, period)
                    ==> v1.payments[j].tx_id == Some(v.next_tx_id)
        }),
{
    let period = period_of(date);
    let ps = v.payments;
    let i = find_payment_spec(ps, fixed_cost_id, period)->0;
    let t = ps[i].tx_id->0;
    if tx_valid_link(v.transactions, t, fixed_cost_id) {
        let k = choose|k: int|
            0 <= k < v.transactions.len() && #[trigger] v.transactions[k].id == t && v.transactions[k].kind
                == TxKind::Out && v.transactions[k].source == TxSource::FixedCost && v.transactions[k].fixed_cost_id
                == Some(fixed_cost_id);
        assert(v.has_tx(t));
    }
    let v1 = paid_spec(v, fixed_cost_id, date, ts, amount);
    let pred = payment_not_key(fixed_cost_id, period);
    let f = ps.filter(pred);
    let n = f.len() as int;
    lemma_filter_all(ps, pred, |p: PaymentView| true);
    assert(v1.transactions[v.transactions.len() as int].id == v.next_tx_id);
    assert(key_matches(v1.payments[n], fixed_cost_id, period));
    assert forall|j: int|
        0 <= j < v1.payments.len() && key_matches(#[trigger] v1.payments[j], fixed_cost_id, period) implies v1.payments[j].tx_id
        == Some(v.next_tx_id) by {
        if j != n {
            assert(pred(f[j]));
        }
    }
}

/// Marking a fixed cost paid twice for the same month records one
/// transaction only: the second call just refreshes the paid date and time.
pub proof fn paid_twice_adds_no_transaction(
    v: LedgerView,
    fixed_cost_id: i64,
    date: Seq<char>,
    ts: i64,
    second_date: Seq<char>,
    second_ts: i64,
    amount: i64,
)
    requires
        v.wf(),
        period_of(second_date) == period_of(date),
    ensures
        ({
            let v1 = paid_spec(v, fixed_cost_id, date, ts, amount);
            let v2 = paid_spec(v1, fixed_cost_id, second_date, second_ts, amount);
            &&& v2.transactions == v1.transactions
            &&& v2.payments.len() == v1.payments.len()
            &&& v2.next_tx_id == v1.next_tx_id
        }),
{
    let period = period_of(date);
    let ps = v.payments;
    let v1 = paid_spec(v, fixed_cost_id, date, ts, amount);
    lemma_find_payment(ps, fixed_cost_id, period);
    lemma_find_payment(v1.payments, fixed_cost_id, period);
    let found0 = find_payment_spec(ps, fixed_cost_id, period);
    if found0 is Some && ps[found0->0].tx_id is Some && tx_valid_link(
        v.transactions,
        ps[found0->0].tx_id->0,
        fixed_cost_id,
    ) {
        let i = found0->0;
        assert(key_matches(v1.payments[i], fixed_cost_id, period));
        let j = find_payment_spec(v1.payments, fixed_cost_id, period)->0;
        if j != i {
            assert(v1.payments[j] == ps[j]);
            assert(distinct_payment_keys()(ps[j], ps[i]));
        }
        assert(v1.payments[j].tx_id == ps[i].tx_id);
    } else {
        let pred = payment_not_key(fixed_cost_id, period);
        let f = ps.filter(pred);
        let n = f.len() as int;
        let t = v.next_tx_id;
        lemma_filter_all(ps, pred, |p: PaymentView| true);
        assert(key_matches(v1.payments[n], fixed_cost_id, period));
        assert(find_payment_spec(v1.payments, fixed_cost_id, period) == Some(n));
        let k = v.transactions.len() as int;
        assert(v1.transactions[k].id == t);
        assert(tx_valid_link(v1.transactions, t, fixed_cost_id));
    }
}

} // verus!
