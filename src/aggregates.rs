use vstd::prelude::*;

use crate::ledger::{key_matches, opt_view, Ledger, LedgerView, Transaction, TxKind, TxView};
use crate::text::{seq_less, str_less};

verus! {

/// Which transactions an aggregate covers: an optional kind, an exact date,
/// and inclusive bounds on the date, compared character by character.
#[derive(Debug)]
pub struct TxQuery {
    pub kind: Option<TxKind>,
    pub on_date: Option<String>,
    pub from_date: Option<String>,
    pub to_date: Option<String>,
}

pub struct TxQueryView {
    pub kind: Option<TxKind>,
    pub on_date: Option<Seq<char>>,
    pub from_date: Option<Seq<char>>,
    pub to_date: Option<Seq<char>>,
}

impl View for TxQuery {
    type V = TxQueryView;

    open spec fn view(&self) -> TxQueryView {
        TxQueryView {
            kind: self.kind,
            on_date: opt_view(self.on_date),
            from_date: opt_view(self.from_date),
            to_date: opt_view(self.to_date),
        }
    }
}

pub open spec fn query_holds(q: TxQueryView, t: TxView) -> bool {
    &&& match q.kind {
        Some(k) => t.kind == k,
        None => true,
    }
    &&& match q.on_date {
        Some(d) => t.date_local == d,
        None => true,
    }
    &&& match q.from_date {
        Some(d) => !seq_less(t.date_local, d),
        None => true,
    }
    &&& match q.to_date {
        Some(d) => !seq_less(d, t.date_local),
        None => true,
    }
}

/// Sum of the amounts of the transactions that the query covers.
pub open spec fn sum_where(ts: Seq<TxView>, q: TxQueryView) -> int
    decreases ts.len(),
{
    if ts.len() == 0 {
        0
    } else {
        sum_where(ts.drop_last(), q) + if query_holds(q, ts.last()) {
            ts.last().amount as int
        } else {
            0
        }
    }
}

/// Number of transactions that the query covers.
pub open spec fn count_where(ts: Seq<TxView>, q: TxQueryView) -> nat
    decreases ts.len(),
{
    if ts.len() == 0 {
        0
    } else {
        count_where(ts.drop_last(), q) + if query_holds(q, ts.last()) {
            1nat
        } else {
            0nat
        }
    }
}

/// The dates on which some covered transaction falls.
pub open spec fn dates_where(ts: Seq<TxView>, q: TxQueryView) -> Set<Seq<char>> {
    Set::new(|d: Seq<char>| exists|i: int| 0 <= i < ts.len() && query_holds(q, #[trigger] ts[i]) && ts[i].date_local == d)
}

/// Whether an active fixed cost still owes its payment for `period`: no
/// payment row for the period links a transaction.
pub open spec fn cost_unpaid(v: LedgerView, k: int, period: Seq<char>) -> bool {
    let f = v.fixed_costs[k];
    f.is_active && !exists|j: int|
        0 <= j < v.payments.len() && key_matches(#[trigger] v.payments[j], f.id, period) && v.payments[j].tx_id is Some
}

pub open spec fn unpaid_count_upto(v: LedgerView, period: Seq<char>, n: int) -> nat
    decreases n,
{
    if n <= 0 {
        0
    } else {
        unpaid_count_upto(v, period, n - 1) + if cost_unpaid(v, n - 1, period) {
            1nat
        } else {
            0nat
        }
    }
}

pub open spec fn unpaid_amount_upto(v: LedgerView, period: Seq<char>, n: int) -> int
    decreases n,
{
    if n <= 0 {
        0
    } else {
        unpaid_amount_upto(v, period, n - 1) + if cost_unpaid(v, n - 1, period) {
            v.fixed_costs[n - 1].amount as int
        } else {
            0
        }
    }
}

pub(crate) fn query_matches(q: &TxQuery, t: &Transaction) -> (r: bool)
    ensures
        r == query_holds(q@, t@),
{
    let kind_ok = match q.kind {
        Some(k) => t.kind == k,
        None => true,
    };
    let on_ok = match &q.on_date {
        Some(d) => t.date_local == *d,
        None => true,
    };
    let from_ok = match &q.from_date {
        Some(d) => !str_less(t.date_local.as_str(), d.as_str()),
        None => true,
    };
    let to_ok = match &q.to_date {
        Some(d) => !str_less(d.as_str(), t.date_local.as_str()),
        None => true,
    };
    kind_ok && on_ok && from_ok && to_ok
}

impl Ledger {
    /// Sum of the amounts of the covered transactions, or `None` when it does
    /// not fit in an `i64`.
    pub fn sum_amounts(&self, q: &TxQuery) -> (r: Option<i64>)
        ensures
            ({
                let total = sum_where(self@.transactions, q@);
                if i64::MIN <= total <= i64::MAX {
                    r == Some(total as i64)
                } else {
                    r is None
                }
            }),
    {
        let ghost ts = self@.transactions;
        let mut total: i128 = 0;
        let mut i: usize = 0;
        assert(ts.subrange(0, 0) =~= Seq::<TxView>::empty());
        while i < self.transactions.len()
            invariant
                i <= self.transactions.len(),
                ts == self@.transactions,
                ts.len() == self.transactions.len(),
                total == sum_where(ts.subrange(0, i as int), q@),
                -(i as int) * 0x8000_0000_0000_0000 <= total <= (i as int) * 0x8000_0000_0000_0000,
            decreases self.transactions.len() - i,
        {
            let t = &self.transactions[i];
            assert(ts.subrange(0, i + 1).drop_last() =~= ts.subrange(0, i as int));
            assert(ts.subrange(0, i + 1).last() == t@);
            assert((i as int) < 0xFFFF_FFFF_FFFF_FFFF) by {
                assert(i < self.transactions.len() <= usize::MAX);
            }
            assert((i as int + 1) * 0x8000_0000_0000_0000 < 0x8000_0000_0000_0000_0000_0000_0000_0000) by (
            nonlinear_arith)
                requires
                    (i as int) < 0xFFFF_FFFF_FFFF_FFFF,
            ;
            assert((i as int + 1) * 0x8000_0000_0000_0000 == (i as int) * 0x8000_0000_0000_0000
                + 0x8000_0000_0000_0000) by (nonlinear_arith);
            if query_matches(q, t) {
                total = total + t.amount as i128;
            }
            i = i + 1;
        }
        assert(ts.subrange(0, i as int) =~= ts);
        if total >= i64::MIN as i128 && total <= i64::MAX as i128 {
            Some(total as i64)
        } else {
            None
        }
    }

    /// Number of covered transactions.
    pub fn count_transactions(&self, q: &TxQuery) -> (r: usize)
        ensures
            r == count_where(self@.transactions, q@),
    {
        let ghost ts = self@.transactions;
        let mut count: usize = 0;
        let mut i: usize = 0;
        assert(ts.subrange(0, 0) =~= Seq::<TxView>::empty());
        while i < self.transactions.len()
            invariant
                i <= self.transactions.len(),
                ts == self@.transactions,
                ts.len() == self.transactions.len(),
                count == count_where(ts.subrange(0, i as int), q@),
                count <= i,
            decreases self.transactions.len() - i,
        {
            let t = &self.transactions[i];
            assert(ts.subrange(0, i + 1).drop_last() =~= ts.subrange(0, i as int));
            assert(ts.subrange(0, i + 1).last() == t@);
            if query_matches(q, t) {
                count = count + 1;
            }
            i = i + 1;
        }
        assert(ts.subrange(0, i as int) =~= ts);
        count
    }

    /// Number of distinct dates among the covered transactions.
    pub fn count_distinct_dates(&self, q: &TxQuery) -> (r: usize)
        ensures
            r == dates_where(self@.transactions, q@).len(),
    {
        let ghost ts = self@.transactions;
        let mut seen: Vec<String> = Vec::new();
        let mut i: usize = 0;
        while i < self.transactions.len()
            invariant
                i <= self.transactions.len(),
                ts == self@.transactions,
                ts.len() == self.transactions.len(),
                seen@.len() <= i,
                seen@.map_values(|s: String| s@).no_duplicates(),
                seen@.map_values(|s: String| s@).to_set() == dates_where(ts.subrange(0, i as int), q@),
            decreases self.transactions.len() - i,
        {
            let t = &self.transactions[i];
            let ghost before = seen@.map_values(|s: String| s@);
            assert(ts.subrange(0, i + 1)[i as int] == t@);
            if query_matches(q, t) {
                let mut j: usize = 0;
                let mut found = false;
                while j < seen.len()
                    invariant
                        j <= seen.len(),
                        before == seen@.map_values(|s: String| s@),
                        found ==> before.contains(t.date_local@),
                        !found ==> forall|k: int| 0 <= k < j ==> before[k] != t.date_local@,
                    decreases seen.len() - j,
                {
                    if seen[j] == t.date_local {
                        assert(before[j as int] == t.date_local@);
                        found = true;
                    }
                    j = j + 1;
                }
                if !found {
                    seen.push(t.date_local.clone());
                    assert(seen@.map_values(|s: String| s@) =~= before.push(t.date_local@));
                }
            }
            let ghost after = seen@.map_values(|s: String| s@);
            proof {
                broadcast use vstd::seq_lib::lemma_seq_contains_after_push;

                let prev = dates_where(ts.subrange(0, i as int), q@);
                let next = dates_where(ts.subrange(0, i + 1), q@);
                let hit = query_holds(q@, t@);
                assert forall|d: Seq<char>| #[trigger] next.contains(d) <==> (prev.contains(d) || (hit && t.date_local@ == d)) by {
                    if prev.contains(d) {
                        let k = choose|k: int|
                            0 <= k < i && query_holds(q@, #[trigger] ts.subrange(0, i as int)[k])
                                && ts.subrange(0, i as int)[k].date_local == d;
                        assert(ts.subrange(0, i + 1)[k] == ts.subrange(0, i as int)[k]);
                    }
                    if hit && t.date_local@ == d {
                        assert(ts.subrange(0, i + 1)[i as int] == t@);
                    }
                    if next.contains(d) {
                        let k = choose|k: int|
                            0 <= k < i + 1 && query_holds(q@, #[trigger] ts.subrange(0, i + 1)[k])
                                && ts.subrange(0, i + 1)[k].date_local == d;
                        if k < i {
                            assert(ts.subrange(0, i as int)[k] == ts.subrange(0, i + 1)[k]);
                        }
                    }
                }
                assert forall|d: Seq<char>| #[trigger] after.contains(d) <==> (before.contains(d) || (hit && t.date_local@ == d)) by {
                    if hit && !before.contains(t.date_local@) {
                        assert(after == before.push(t.date_local@));
                    }
                }
                assert forall|d: Seq<char>| before.contains(d) <==> #[trigger] prev.contains(d) by {
                    assert(before.to_set().contains(d) == before.contains(d));
                }
                assert(after.to_set() =~= next);
            }
            i = i + 1;
        }
        assert(ts.subrange(0, i as int) =~= ts);
        proof {
            seen@.map_values(|s: String| s@).unique_seq_to_set();
        }
        seen.len()
    }
}

pub proof fn lemma_sum_non_negative(ts: Seq<TxView>, q: TxQueryView)
    requires
        forall|i: int| 0 <= i < ts.len() ==> (#[trigger] ts[i]).amount >= 0,
    ensures
        sum_where(ts, q) >= 0,
    decreases ts.len(),
{
    if ts.len() > 0 {
        let r = ts.drop_last();
        assert forall|i: int| 0 <= i < r.len() implies (#[trigger] r[i]).amount >= 0 by {
            assert(r[i] == ts[i]);
        }
        lemma_sum_non_negative(r, q);
        assert(ts[ts.len() - 1].amount >= 0);
    }
}

impl Ledger {
    /// Whether the fixed cost at index `k` is active with no linked payment for `period_ym`.
    fn is_cost_unpaid(&self, k: usize, period_ym: &String) -> (r: bool)
        requires
            k < self.fixed_costs.len(),
        ensures
            r == cost_unpaid(self@, k as int, period_ym@),
    {
        let f = &self.fixed_costs[k];
        assert(self@.fixed_costs[k as int] == f@);
        if !f.is_active {
            return false;
        }
        let mut j: usize = 0;
        while j < self.payments.len()
            invariant
                j <= self.payments.len(),
                f@ == self@.fixed_costs[k as int],
                forall|m: int|
                    0 <= m < j ==> !(key_matches(#[trigger] self@.payments[m], f.id, period_ym@) && self@.payments[m].tx_id is Some),
            decreases self.payments.len() - j,
        {
            let p = &self.payments[j];
            assert(self@.payments[j as int] == p@);
            if p.fixed_cost_id == f.id && p.period_ym == *period_ym && p.tx_id.is_some() {
                return false;
            }
            j = j + 1;
        }
        true
    }

    /// Number of active fixed costs still unpaid for `period_ym`, and the sum
    /// of their amounts, or `None` for the sum when it does not fit in an `i64`.
    pub fn unpaid_fixed_costs(&self, period_ym: &str) -> (r: (usize, Option<i64>))
        ensures
            r.0 == unpaid_count_upto(self@, period_ym@, self@.fixed_costs.len() as int),
            ({
                let total = unpaid_amount_upto(self@, period_ym@, self@.fixed_costs.len() as int);
                if i64::MIN <= total <= i64::MAX {
                    r.1 == Some(total as i64)
                } else {
                    r.1 is None
                }
            }),
    {
        let period = String::from_str(period_ym);
        let mut count: usize = 0;
        let mut total: i128 = 0;
        let mut k: usize = 0;
        while k < self.fixed_costs.len()
            invariant
                k <= self.fixed_costs.len(),
                period@ == period_ym@,
                count == unpaid_count_upto(self@, period_ym@, k as int),
                count <= k,
                total == unpaid_amount_upto(self@, period_ym@, k as int),
                -(k as int) * 0x8000_0000_0000_0000 <= total <= (k as int) * 0x8000_0000_0000_0000,
            decreases self.fixed_costs.len() - k,
        {
            assert((k as int) < 0xFFFF_FFFF_FFFF_FFFF) by {
                assert(k < self.fixed_costs.len() <= usize::MAX);
            }
            assert((k as int + 1) * 0x8000_0000_0000_0000 < 0x8000_0000_0000_0000_0000_0000_0000_0000) by (
            nonlinear_arith)
                requires
                    (k as int) < 0xFFFF_FFFF_FFFF_FFFF,
            ;
            assert((k as int + 1) * 0x8000_0000_0000_0000 == (k as int) * 0x8000_0000_0000_0000
                + 0x8000_0000_0000_0000) by (nonlinear_arith);
            if self.is_cost_unpaid(k, &period) {
                count = count + 1;
                total = total + self.fixed_costs[k].amount as i128;
            }
            k = k + 1;
        }
        if total >= i64::MIN as i128 && total <= i64::MAX as i128 {
            (count, Some(total as i64))
        } else {
            (count, None)
        }
    }
}

} // verus!
