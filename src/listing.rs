use vstd::prelude::*;

use crate::aggregates::{query_holds, query_matches, TxQuery, TxQueryView};
use crate::coach::between_query;
use crate::ledger::{Ledger, Transaction, TxKind, TxView};
use crate::seqs::lemma_filter_all_true;
use crate::text::{lemma_seq_less_total, lemma_seq_less_transitive, seq_less, str_less};

verus! {

/// How a listing orders transactions.
#[derive(Clone, Copy, Debug, PartialEq, Eq, Structural)]
pub enum ListOrder {
    /// Latest date first, then latest timestamp first.
    ByDateThenTime,
    /// Latest timestamp first.
    ByTime,
}

/// Whether `a` may come before `b` in a listing.
pub open spec fn lists_before(order: ListOrder, a: TxView, b: TxView) -> bool {
    match order {
        ListOrder::ByTime => a.ts_utc >= b.ts_utc,
        ListOrder::ByDateThenTime => seq_less(b.date_local, a.date_local) || (a.date_local == b.date_local
            && a.ts_utc >= b.ts_utc),
    }
}

pub open spec fn in_list_order(order: ListOrder, s: Seq<TxView>) -> bool {
    forall|i: int, j: int| 0 <= i < j < s.len() ==> lists_before(order, #[trigger] s[i], #[trigger] s[j])
}

pub open spec fn tx_views(v: Seq<Transaction>) -> Seq<TxView> {
    v.map_values(|t: Transaction| t@)
}

pub open spec fn covered_by(q: TxQueryView) -> spec_fn(TxView) -> bool {
    |t: TxView| query_holds(q, t)
}

/// The transactions that a query covers, in ledger order.
pub open spec fn selected(ts: Seq<TxView>, q: TxQueryView) -> Seq<TxView> {
    ts.filter(covered_by(q))
}

/// The elements of `s` from position `offset`, at most `limit` of them.
pub open spec fn page_of(s: Seq<TxView>, offset: int, limit: int) -> Seq<TxView> {
    let lo = if offset < s.len() { offset } else { s.len() as int };
    let hi = if offset + limit < s.len() { offset + limit } else { s.len() as int };
    s.subrange(lo, hi)
}

pub open spec fn any_query() -> TxQueryView {
    TxQueryView { kind: None, on_date: None, from_date: None, to_date: None }
}

proof fn lemma_lists_before_total(order: ListOrder, a: TxView, b: TxView)
    ensures
        lists_before(order, a, b) || lists_before(order, b, a),
{
    lemma_seq_less_total(a.date_local, b.date_local);
}

proof fn lemma_lists_before_transitive(order: ListOrder, a: TxView, b: TxView, c: TxView)
    requires
        lists_before(order, a, b),
        lists_before(order, b, c),
    ensures
        lists_before(order, a, c),
{
    if order == ListOrder::ByDateThenTime {
        if seq_less(b.date_local, a.date_local) && seq_less(c.date_local, b.date_local) {
            lemma_seq_less_transitive(c.date_local, b.date_local, a.date_local);
        }
    }
}

fn lists_before_exec(order: ListOrder, a: &Transaction, b: &Transaction) -> (r: bool)
    ensures
        r == lists_before(order, a@, b@),
{
    match order {
        ListOrder::ByTime => a.ts_utc >= b.ts_utc,
        ListOrder::ByDateThenTime => str_less(b.date_local.as_str(), a.date_local.as_str()) || (a.date_local
            == b.date_local && a.ts_utc >= b.ts_utc),
    }
}

impl Ledger {
    /// The covered transactions, sorted by `order`.
    fn sorted_selection(&self, q: &TxQuery, order: ListOrder) -> (r: Vec<Transaction>)
        ensures
            in_list_order(order, tx_views(r@)),
            tx_views(r@).to_multiset() == selected(self@.transactions, q@).to_multiset(),
    {
        broadcast use vstd::seq_lib::group_to_multiset_ensures;

        let ghost ts = self@.transactions;
        let mut sorted: Vec<Transaction> = Vec::new();
        let mut i: usize = 0;
        assert(tx_views(sorted@) =~= Seq::<TxView>::empty());
        assert(selected(ts.subrange(0, 0), q@) =~= Seq::<TxView>::empty()) by {
            reveal(Seq::filter);
        }
        while i < self.transactions.len()
            invariant
                i <= self.transactions.len(),
                ts == self@.transactions,
                ts.len() == self.transactions.len(),
                in_list_order(order, tx_views(sorted@)),
                tx_views(sorted@).to_multiset() == selected(ts.subrange(0, i as int), q@).to_multiset(),
            decreases self.transactions.len() - i,
        {
            let t = &self.transactions[i];
            proof {
                reveal(Seq::filter);
                assert(ts.subrange(0, i + 1).drop_last() =~= ts.subrange(0, i as int));
                assert(ts.subrange(0, i + 1).last() == t@);
            }
            if query_matches(q, t) {
                let x = t.copy();
                let ghost s = tx_views(sorted@);
                let mut p: usize = sorted.len();
                while p > 0 && !lists_before_exec(order, &sorted[p - 1], &x)
                    invariant
                        p <= sorted.len(),
                        s == tx_views(sorted@),
                        forall|k: int| p <= k < s.len() ==> !lists_before(order, #[trigger] s[k], x@),
                    decreases p,
                {
                    p = p - 1;
                }
                proof {
                    let xv = x@;
                    let n = s.insert(p as int, xv);
                    assert forall|a: int, b: int| 0 <= a < b < n.len() implies lists_before(
                        order,
                        #[trigger] n[a],
                        #[trigger] n[b],
                    ) by {
                        if b < p {
                            assert(lists_before(order, s[a], s[b]));
                        } else if b == p {
                            assert(lists_before(order, s[p - 1], xv));
                            if a < p - 1 {
                                assert(lists_before(order, s[a], s[p - 1]));
                                lemma_lists_before_transitive(order, s[a], s[p - 1], xv);
                            }
                        } else if a == p {
                            assert(!lists_before(order, s[b - 1], xv));
                            lemma_lists_before_total(order, s[b - 1], xv);
                        } else if a < p {
                            assert(lists_before(order, s[a], s[b - 1]));
                        } else {
                            assert(lists_before(order, s[a - 1], s[b - 1]));
                        }
                    }
                    assert(ts.subrange(0, i + 1).filter(covered_by(q@)) == selected(
                        ts.subrange(0, i as int),
                        q@,
                    ).push(xv));
                }
                sorted.insert(p, x);
                assert(tx_views(sorted@) =~= s.insert(p as int, t@));
                proof {
                    vstd::seq_lib::to_multiset_insert(s, p as int, t@);
                    vstd::seq_lib::to_multiset_build(selected(ts.subrange(0, i as int), q@), t@);
                }
            } else {
                assert(ts.subrange(0, i + 1).filter(covered_by(q@)) == selected(
                    ts.subrange(0, i as int),
                    q@,
                ));
            }
            i = i + 1;
        }
        assert(ts.subrange(0, i as int) =~= ts);
        sorted
    }

    fn page(sorted: &Vec<Transaction>, offset: u32, limit: u32) -> (r: Vec<Transaction>)
        ensures
            tx_views(r@) == page_of(tx_views(sorted@), offset as int, limit as int),
    {
        let n = sorted.len();
        let lo: usize = if (offset as usize) < n {
            offset as usize
        } else {
            n
        };
        let end: u64 = offset as u64 + limit as u64;
        let hi: usize = if end < n as u64 {
            end as usize
        } else {
            n
        };
        let ghost s = tx_views(sorted@);
        let mut out: Vec<Transaction> = Vec::new();
        let mut k: usize = lo;
        assert(tx_views(out@) =~= s.subrange(lo as int, lo as int));
        while k < hi
            invariant
                lo <= k <= hi <= n,
                n == sorted.len(),
                s == tx_views(sorted@),
                tx_views(out@) == s.subrange(lo as int, k as int),
            decreases hi - k,
        {
            let c = sorted[k].copy();
            assert(s[k as int] == c@);
            let ghost before = out@;
            out.push(c);
            assert(tx_views(out@) =~= tx_views(before).push(s[k as int]));
            assert(tx_views(out@) =~= s.subrange(lo as int, k + 1));
            k = k + 1;
        }
        out
    }

    /// Transactions dated within `[start_date, end_date]`, of one kind when
    /// `kind` is given, latest date first and latest timestamp first within
    /// a date; `offset` of them are skipped and at most `limit` returned.
    pub fn list_transactions_between(
        &self,
        start_date: &str,
        end_date: &str,
        limit: u32,
        offset: u32,
        kind: Option<TxKind>,
    ) -> (r: Vec<Transaction>)
        ensures
            exists|all: Seq<TxView>|
                {
                    &&& in_list_order(ListOrder::ByDateThenTime, all)
                    &&& all.to_multiset() == selected(
                        self@.transactions,
                        between_query(kind, start_date@, end_date@),
                    ).to_multiset()
                    &&& tx_views(r@) == page_of(all, offset as int, limit as int)
                },
    {
        let q = TxQuery {
            kind,
            on_date: None,
            from_date: Some(String::from_str(start_date)),
            to_date: Some(String::from_str(end_date)),
        };
        let sorted = self.sorted_selection(&q, ListOrder::ByDateThenTime);
        let r = Self::page(&sorted, offset, limit);
        assert(q@ == between_query(kind, start_date@, end_date@));
        r
    }

    /// The most recent transactions by timestamp, at most `limit` of them.
    pub fn list_recent_transactions(&self, limit: u32) -> (r: Vec<Transaction>)
        ensures
            exists|all: Seq<TxView>|
                {
                    &&& in_list_order(ListOrder::ByTime, all)
                    &&& all.to_multiset() == self@.transactions.to_multiset()
                    &&& tx_views(r@) == page_of(all, 0, limit as int)
                },
    {
        let q = TxQuery { kind: None, on_date: None, from_date: None, to_date: None };
        let sorted = self.sorted_selection(&q, ListOrder::ByTime);
        proof {
            let ts = self@.transactions;
            assert forall|i: int| 0 <= i < ts.len() implies #[trigger] covered_by(q@)(ts[i]) by {}
            lemma_filter_all_true(ts, covered_by(q@));
        }
        Self::page(&sorted, 0, limit)
    }
}

} // verus!
