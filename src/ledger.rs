use vstd::prelude::*;

use crate::error::BudgetError;
use crate::seqs::{all_elems, lemma_filter_all, lemma_filter_ordered, lemma_push_ordered, ordered, lemma_filter_pairwise, lemma_push_all, lemma_push_pairwise, lemma_update_pairwise, pairwise};
use crate::text::{period_of, period_ym_from_date, seq_less, str_less};

verus! {

/// Direction of a ledger entry.
#[derive(Clone, Copy, Debug, PartialEq, Eq, Structural)]
pub enum TxKind {
    In,
    Out,
}

/// Where a ledger entry came from.
#[derive(Clone, Copy, Debug, PartialEq, Eq, Structural)]
pub enum TxSource {
    Manual,
    FixedCost,
}

/// A dated income or expense record.
#[derive(Debug)]
pub struct Transaction {
    pub id: i64,
    pub ts_utc: i64,
    pub date_local: String,
    pub kind: TxKind,
    pub amount: i64,
    pub source: TxSource,
    pub fixed_cost_id: Option<i64>,
}

pub struct TxView {
    pub id: i64,
    pub ts_utc: i64,
    pub date_local: Seq<char>,
    pub kind: TxKind,
    pub amount: i64,
    pub source: TxSource,
    pub fixed_cost_id: Option<i64>,
}

impl View for Transaction {
    type V = TxView;

    open spec fn view(&self) -> TxView {
        TxView {
            id: self.id,
            ts_utc: self.ts_utc,
            date_local: self.date_local@,
            kind: self.kind,
            amount: self.amount,
            source: self.source,
            fixed_cost_id: self.fixed_cost_id,
        }
    }
}

/// A recurring cost as stored.
#[derive(Debug)]
pub struct FixedCostEntry {
    pub id: i64,
    pub name: String,
    pub amount: i64,
    pub is_active: bool,
}

pub struct FixedCostEntryView {
    pub id: i64,
    pub name: Seq<char>,
    pub amount: i64,
    pub is_active: bool,
}

impl View for FixedCostEntry {
    type V = FixedCostEntryView;

    open spec fn view(&self) -> FixedCostEntryView {
        FixedCostEntryView { id: self.id, name: self.name@, amount: self.amount, is_active: self.is_active }
    }
}

/// Settlement of one fixed cost for one `YYYY-MM` period.
#[derive(Debug)]
pub struct Payment {
    pub fixed_cost_id: i64,
    pub period_ym: String,
    pub paid_date_local: Option<String>,
    pub paid_ts_utc: Option<i64>,
    pub tx_id: Option<i64>,
}

pub struct PaymentView {
    pub fixed_cost_id: i64,
    pub period_ym: Seq<char>,
    pub paid_date_local: Option<Seq<char>>,
    pub paid_ts_utc: Option<i64>,
    pub tx_id: Option<i64>,
}

pub open spec fn opt_view(o: Option<String>) -> Option<Seq<char>> {
    match o {
        Some(s) => Some(s@),
        None => None,
    }
}

impl View for Payment {
    type V = PaymentView;

    open spec fn view(&self) -> PaymentView {
        PaymentView {
            fixed_cost_id: self.fixed_cost_id,
            period_ym: self.period_ym@,
            paid_date_local: opt_view(self.paid_date_local),
            paid_ts_utc: self.paid_ts_utc,
            tx_id: self.tx_id,
        }
    }
}

/// A fixed cost together with its payment state for one period.
#[derive(Debug)]
pub struct FixedCost {
    pub id: i64,
    pub name: String,
    pub amount: i64,
    pub is_active: bool,
    pub paid_date_local: Option<String>,
    pub paid_ts_utc: Option<i64>,
    pub paid_tx_id: Option<i64>,
}

/// The ledger: transactions, fixed costs and their monthly payments.
pub struct Ledger {
    pub transactions: Vec<Transaction>,
    pub fixed_costs: Vec<FixedCostEntry>,
    pub payments: Vec<Payment>,
    pub next_tx_id: i64,
    pub next_fixed_cost_id: i64,
}

pub struct LedgerView {
    pub transactions: Seq<TxView>,
    pub fixed_costs: Seq<FixedCostEntryView>,
    pub payments: Seq<PaymentView>,
    pub next_tx_id: i64,
    pub next_fixed_cost_id: i64,
}

impl View for Ledger {
    type V = LedgerView;

    open spec fn view(&self) -> LedgerView {
        LedgerView {
            transactions: self.transactions@.map_values(|t: Transaction| t@),
            fixed_costs: self.fixed_costs@.map_values(|f: FixedCostEntry| f@),
            payments: self.payments@.map_values(|p: Payment| p@),
            next_tx_id: self.next_tx_id,
            next_fixed_cost_id: self.next_fixed_cost_id,
        }
    }
}

/// Whether a payment row is the one for `(fixed_cost_id, period)`.
pub open spec fn key_matches(p: PaymentView, fixed_cost_id: i64, period: Seq<char>) -> bool {
    p.fixed_cost_id == fixed_cost_id && p.period_ym == period
}

/// Index of the payment row for `(fixed_cost_id, period)`, searching from the end.
pub open spec fn find_payment_spec(ps: Seq<PaymentView>, fixed_cost_id: i64, period: Seq<char>) -> Option<int>
    decreases ps.len(),
{
    if ps.len() == 0 {
        None
    } else if key_matches(ps.last(), fixed_cost_id, period) {
        Some(ps.len() - 1)
    } else {
        find_payment_spec(ps.drop_last(), fixed_cost_id, period)
    }
}

pub open spec fn tx_id_below(next: i64) -> spec_fn(TxView) -> bool {
    |t: TxView| 0 < t.id < next
}

pub open spec fn amount_non_negative() -> spec_fn(TxView) -> bool {
    |t: TxView| t.amount >= 0
}

pub open spec fn fixed_cost_id_below(next: i64) -> spec_fn(FixedCostEntryView) -> bool {
    |f: FixedCostEntryView| 0 < f.id < next
}

pub open spec fn distinct_tx_ids() -> spec_fn(TxView, TxView) -> bool {
    |a: TxView, b: TxView| a.id != b.id
}

pub open spec fn fixed_cost_ids_increasing() -> spec_fn(FixedCostEntryView, FixedCostEntryView) -> bool {
    |a: FixedCostEntryView, b: FixedCostEntryView| a.id < b.id
}

pub open spec fn distinct_payment_keys() -> spec_fn(PaymentView, PaymentView) -> bool {
    |a: PaymentView, b: PaymentView| !key_matches(a, b.fixed_cost_id, b.period_ym)
}

pub open spec fn tx_not_id(id: i64) -> spec_fn(TxView) -> bool {
    |t: TxView| t.id != id
}

pub open spec fn payment_not_key(fixed_cost_id: i64, period: Seq<char>) -> spec_fn(PaymentView) -> bool {
    |p: PaymentView| !key_matches(p, fixed_cost_id, period)
}

impl LedgerView {
    /// Identities are positive, below the next identity, and unique, fixed
    /// costs being stored in increasing order of identity; amounts
    /// of transactions are not negative; at most one payment row exists per
    /// fixed cost and period.
    pub open spec fn wf(&self) -> bool {
        &&& 0 < self.next_tx_id
        &&& 0 < self.next_fixed_cost_id
        &&& all_elems(self.transactions, tx_id_below(self.next_tx_id))
        &&& pairwise(self.transactions, distinct_tx_ids())
        &&& all_elems(self.transactions, amount_non_negative())
        &&& all_elems(self.fixed_costs, fixed_cost_id_below(self.next_fixed_cost_id))
        &&& ordered(self.fixed_costs, fixed_cost_ids_increasing())
        &&& pairwise(self.payments, distinct_payment_keys())
    }

    /// Whether some payment row exists for `(fixed_cost_id, period)`.
    pub open spec fn has_payment(&self, fixed_cost_id: i64, period: Seq<char>) -> bool {
        exists|i: int| 0 <= i < self.payments.len() && key_matches(#[trigger] self.payments[i], fixed_cost_id, period)
    }

    /// Whether a transaction with this id exists.
    pub open spec fn has_tx(&self, id: i64) -> bool {
        exists|i: int| 0 <= i < self.transactions.len() && #[trigger] self.transactions[i].id == id
    }
}


/// Index of the fixed cost with this id, searching from the end.
pub open spec fn find_fixed_cost_spec(fs: Seq<FixedCostEntryView>, id: i64) -> Option<int>
    decreases fs.len(),
{
    if fs.len() == 0 {
        None
    } else if fs.last().id == id {
        Some(fs.len() - 1)
    } else {
        find_fixed_cost_spec(fs.drop_last(), id)
    }
}

/// Whether `id` names an outgoing fixed-cost transaction of `fixed_cost_id`:
/// the only kind of transaction that a payment row may point at.
pub open spec fn tx_valid_link(ts: Seq<TxView>, id: i64, fixed_cost_id: i64) -> bool {
    exists|i: int|
        0 <= i < ts.len() && #[trigger] ts[i].id == id && ts[i].kind == TxKind::Out && ts[i].source
            == TxSource::FixedCost && ts[i].fixed_cost_id == Some(fixed_cost_id)
}

pub proof fn lemma_find_payment(ps: Seq<PaymentView>, fixed_cost_id: i64, period: Seq<char>)
    ensures
        find_payment_spec(ps, fixed_cost_id, period) matches Some(i) ==> 0 <= i < ps.len() && key_matches(
            ps[i],
            fixed_cost_id,
            period,
        ),
        find_payment_spec(ps, fixed_cost_id, period) is None <==> forall|i: int|
            0 <= i < ps.len() ==> !key_matches(#[trigger] ps[i], fixed_cost_id, period),
    decreases ps.len(),
{
    if ps.len() > 0 {
        lemma_find_payment(ps.drop_last(), fixed_cost_id, period);
        if find_payment_spec(ps, fixed_cost_id, period) is None {
            assert forall|i: int| 0 <= i < ps.len() implies !key_matches(#[trigger] ps[i], fixed_cost_id, period) by {
                if i < ps.len() - 1 {
                    assert(ps[i] == ps.drop_last()[i]);
                }
            }
        }
    }
}

pub proof fn lemma_find_fixed_cost(fs: Seq<FixedCostEntryView>, id: i64)
    ensures
        find_fixed_cost_spec(fs, id) matches Some(i) ==> 0 <= i < fs.len() && fs[i].id == id,
        find_fixed_cost_spec(fs, id) is None <==> forall|i: int| 0 <= i < fs.len() ==> (#[trigger] fs[i]).id != id,
    decreases fs.len(),
{
    if fs.len() > 0 {
        lemma_find_fixed_cost(fs.drop_last(), id);
        if find_fixed_cost_spec(fs, id) is None {
            assert forall|i: int| 0 <= i < fs.len() implies (#[trigger] fs[i]).id != id by {
                if i < fs.len() - 1 {
                    assert(fs[i] == fs.drop_last()[i]);
                }
            }
        }
    }
}

/// A fixed cost joined with its payment row for one period.
pub struct FixedCostView {
    pub id: i64,
    pub name: Seq<char>,
    pub amount: i64,
    pub is_active: bool,
    pub paid_date_local: Option<Seq<char>>,
    pub paid_ts_utc: Option<i64>,
    pub paid_tx_id: Option<i64>,
}

impl View for FixedCost {
    type V = FixedCostView;

    open spec fn view(&self) -> FixedCostView {
        FixedCostView {
            id: self.id,
            name: self.name@,
            amount: self.amount,
            is_active: self.is_active,
            paid_date_local: opt_view(self.paid_date_local),
            paid_ts_utc: self.paid_ts_utc,
            paid_tx_id: self.paid_tx_id,
        }
    }
}

/// The fixed cost at index `k` with the payment state of `period`.
pub open spec fn cost_status_spec(v: LedgerView, k: int, period: Seq<char>) -> FixedCostView {
    let f = v.fixed_costs[k];
    match find_payment_spec(v.payments, f.id, period) {
        Some(i) => FixedCostView {
            id: f.id,
            name: f.name,
            amount: f.amount,
            is_active: f.is_active,
            paid_date_local: v.payments[i].paid_date_local,
            paid_ts_utc: v.payments[i].paid_ts_utc,
            paid_tx_id: v.payments[i].tx_id,
        },
        None => FixedCostView {
            id: f.id,
            name: f.name,
            amount: f.amount,
            is_active: f.is_active,
            paid_date_local: None,
            paid_ts_utc: None,
            paid_tx_id: None,
        },
    }
}

/// The ledger after a successful `mark_fixed_cost_paid` for a cost of
/// `amount`: a still-valid settlement only gets its date refreshed; otherwise
/// the stale row goes and a new outgoing transaction and payment row come.
pub open spec fn paid_spec(v: LedgerView, fixed_cost_id: i64, date: Seq<char>, ts: i64, amount: i64) -> LedgerView {
    let period = period_of(date);
    let found = find_payment_spec(v.payments, fixed_cost_id, period);
    if found is Some && v.payments[found->0].tx_id is Some && tx_valid_link(
        v.transactions,
        v.payments[found->0].tx_id->0,
        fixed_cost_id,
    ) {
        let i = found->0;
        LedgerView {
            payments: v.payments.update(
                i,
                PaymentView { paid_date_local: Some(date), paid_ts_utc: Some(ts), ..v.payments[i] },
            ),
            ..v
        }
    } else {
        LedgerView {
            transactions: v.transactions.push(
                TxView {
                    id: v.next_tx_id,
                    ts_utc: ts,
                    date_local: date,
                    kind: TxKind::Out,
                    amount,
                    source: TxSource::FixedCost,
                    fixed_cost_id: Some(fixed_cost_id),
                },
            ),
            payments: v.payments.filter(payment_not_key(fixed_cost_id, period)).push(
                PaymentView {
                    fixed_cost_id,
                    period_ym: period,
                    paid_date_local: Some(date),
                    paid_ts_utc: Some(ts),
                    tx_id: Some(v.next_tx_id),
                },
            ),
            next_tx_id: (v.next_tx_id + 1) as i64,
            ..v
        }
    }
}

/// The greatest period, in character order, among the payment rows of a fixed cost.
pub open spec fn latest_period_spec(ps: Seq<PaymentView>, fixed_cost_id: i64) -> Option<Seq<char>>
    decreases ps.len(),
{
    if ps.len() == 0 {
        None
    } else {
        let rest = latest_period_spec(ps.drop_last(), fixed_cost_id);
        let p = ps.last();
        if p.fixed_cost_id != fixed_cost_id {
            rest
        } else {
            match rest {
                None => Some(p.period_ym),
                Some(q) => if seq_less(q, p.period_ym) {
                    Some(p.period_ym)
                } else {
                    Some(q)
                },
            }
        }
    }
}

pub proof fn lemma_latest_period(ps: Seq<PaymentView>, fixed_cost_id: i64)
    ensures
        latest_period_spec(ps, fixed_cost_id) matches Some(q) ==> exists|i: int|
            0 <= i < ps.len() && #[trigger] ps[i].fixed_cost_id == fixed_cost_id && ps[i].period_ym == q,
        latest_period_spec(ps, fixed_cost_id) is None ==> forall|i: int|
            0 <= i < ps.len() ==> #[trigger] ps[i].fixed_cost_id != fixed_cost_id,
    decreases ps.len(),
{
    if ps.len() > 0 {
        let rest = ps.drop_last();
        lemma_latest_period(rest, fixed_cost_id);
        if let Some(q) = latest_period_spec(ps, fixed_cost_id) {
            if latest_period_spec(rest, fixed_cost_id) == Some(q) {
                let i = choose|i: int|
                    0 <= i < rest.len() && #[trigger] rest[i].fixed_cost_id == fixed_cost_id && rest[i].period_ym == q;
                assert(ps[i] == rest[i]);
            } else {
                assert(ps[ps.len() - 1].fixed_cost_id == fixed_cost_id);
            }
        } else {
            assert forall|i: int| 0 <= i < ps.len() implies #[trigger] ps[i].fixed_cost_id != fixed_cost_id by {
                if i < ps.len() - 1 {
                    assert(ps[i] == rest[i]);
                }
            }
        }
    }
}

pub open spec fn opt_str_view(o: Option<&str>) -> Option<Seq<char>> {
    match o {
        Some(s) => Some(s@),
        None => None,
    }
}

/// The period that `mark_fixed_cost_unpaid` clears: the month of the given
/// date; without a date, the current month when it has a payment row, else
/// the latest period with a payment row, else the current month anyway.
pub open spec fn unpaid_period_spec(
    v: LedgerView,
    fixed_cost_id: i64,
    date: Option<Seq<char>>,
    current_period: Seq<char>,
) -> Seq<char> {
    match date {
        Some(d) => period_of(d),
        None => if find_payment_spec(v.payments, fixed_cost_id, current_period) is Some {
            current_period
        } else {
            match latest_period_spec(v.payments, fixed_cost_id) {
                Some(p) => p,
                None => current_period,
            }
        },
    }
}

/// The ledger after clearing the payment of `(fixed_cost_id, period)`: its
/// linked transaction, if any, and the row itself are gone.
pub open spec fn unpaid_spec(v: LedgerView, fixed_cost_id: i64, period: Seq<char>) -> LedgerView {
    let link = match find_payment_spec(v.payments, fixed_cost_id, period) {
        Some(i) => v.payments[i].tx_id,
        None => None,
    };
    LedgerView {
        transactions: match link {
            Some(t) => v.transactions.filter(tx_not_id(t)),
            None => v.transactions,
        },
        payments: v.payments.filter(payment_not_key(fixed_cost_id, period)),
        ..v
    }
}

/// A payment row with its link to transaction `id` cleared.
pub open spec fn unlink_tx(id: i64) -> spec_fn(PaymentView) -> PaymentView {
    |p: PaymentView|
        if p.tx_id == Some(id) {
            PaymentView { paid_date_local: None, paid_ts_utc: None, tx_id: None, ..p }
        } else {
            p
        }
}

/// The ledger after deleting transaction `id`: the transaction is gone and
/// payment rows that pointed at it stay, unlinked.
pub open spec fn deleted_tx_spec(v: LedgerView, id: i64) -> LedgerView {
    LedgerView {
        transactions: v.transactions.filter(tx_not_id(id)),
        payments: v.payments.map_values(unlink_tx(id)),
        ..v
    }
}

/// Whether a payment row of `fixed_cost_id` points at transaction `id`.
pub open spec fn linked_by(ps: Seq<PaymentView>, fixed_cost_id: i64, id: i64) -> bool {
    exists|j: int| 0 <= j < ps.len() && #[trigger] ps[j].fixed_cost_id == fixed_cost_id && ps[j].tx_id == Some(id)
}

/// Transactions that survive deleting a fixed cost: neither linked from one of
/// its payment rows nor tagged as one of its outgoing fixed-cost transactions.
pub open spec fn tx_outlives_cost(ps: Seq<PaymentView>, fixed_cost_id: i64) -> spec_fn(TxView) -> bool {
    |t: TxView|
        !linked_by(ps, fixed_cost_id, t.id) && !(t.kind == TxKind::Out && t.source == TxSource::FixedCost
            && t.fixed_cost_id == Some(fixed_cost_id))
}

pub open spec fn payment_not_of(fixed_cost_id: i64) -> spec_fn(PaymentView) -> bool {
    |p: PaymentView| p.fixed_cost_id != fixed_cost_id
}

pub open spec fn fixed_cost_not_id(id: i64) -> spec_fn(FixedCostEntryView) -> bool {
    |f: FixedCostEntryView| f.id != id
}

/// Payment rows that the cleanup keeps: those linked to a valid transaction.
pub open spec fn payment_link_holds(ts: Seq<TxView>) -> spec_fn(PaymentView) -> bool {
    |p: PaymentView| p.tx_id is Some && tx_valid_link(ts, p.tx_id->0, p.fixed_cost_id)
}

fn copy_opt_string(o: &Option<String>) -> (r: Option<String>)
    ensures
        r == *o,
{
    match o {
        Some(s) => Some(s.clone()),
        None => None,
    }
}

impl Payment {
    fn copy(&self) -> (r: Payment)
        ensures
            r@ == self@,
    {
        Payment {
            fixed_cost_id: self.fixed_cost_id,
            period_ym: self.period_ym.clone(),
            paid_date_local: copy_opt_string(&self.paid_date_local),
            paid_ts_utc: self.paid_ts_utc,
            tx_id: self.tx_id,
        }
    }
}

impl Transaction {
    /// A field-by-field copy.
    pub fn copy(&self) -> (r: Transaction)
        ensures
            r@ == self@,
    {
        Transaction {
            id: self.id,
            ts_utc: self.ts_utc,
            date_local: self.date_local.clone(),
            kind: self.kind,
            amount: self.amount,
            source: self.source,
            fixed_cost_id: self.fixed_cost_id,
        }
    }
}

impl Ledger {
    /// An empty ledger.
    pub fn new() -> (r: Ledger)
        ensures
            r@.wf(),
            r@.transactions.len() == 0,
            r@.fixed_costs.len() == 0,
            r@.payments.len() == 0,
            r.next_tx_id == 1,
            r.next_fixed_cost_id == 1,
    {
        let r = Ledger {
            transactions: Vec::new(),
            fixed_costs: Vec::new(),
            payments: Vec::new(),
            next_tx_id: 1,
            next_fixed_cost_id: 1,
        };
        assert(r@.transactions =~= Seq::<TxView>::empty());
        assert(r@.fixed_costs =~= Seq::<FixedCostEntryView>::empty());
        assert(r@.payments =~= Seq::<PaymentView>::empty());
        r
    }


    /// Removes the transaction with this id, if any.
    fn remove_transaction_row(&mut self, id: i64)
        requires
            old(self)@.wf(),
        ensures
            final(self)@ == (LedgerView { transactions: old(self)@.transactions.filter(tx_not_id(id)), ..old(self)@ }),
            final(self)@.wf(),
    {
        let ghost old_ts = self@.transactions;
        let ghost pred = tx_not_id(id);
        let mut kept: Vec<Transaction> = Vec::new();
        let mut i: usize = 0;
        assert(kept@.map_values(|t: Transaction| t@) =~= old_ts.subrange(0, 0).filter(pred)) by {
            reveal(Seq::filter);
        }
        while i < self.transactions.len()
            invariant
                i <= self.transactions.len(),
                old_ts == self@.transactions,
                old_ts.len() == self.transactions.len(),
                pred == tx_not_id(id),
                kept@.map_values(|t: Transaction| t@) == old_ts.subrange(0, i as int).filter(pred),
            decreases self.transactions.len() - i,
        {
            let t = &self.transactions[i];
            proof {
                reveal(Seq::filter);
                assert(old_ts.subrange(0, i + 1).drop_last() =~= old_ts.subrange(0, i as int));
                assert(old_ts.subrange(0, i + 1).last() == t@);
            }
            if t.id != id {
                let c = t.copy();
                kept.push(c);
                assert(kept@.map_values(|t: Transaction| t@) =~= old_ts.subrange(0, i + 1).filter(pred));
            } else {
                assert(kept@.map_values(|t: Transaction| t@) =~= old_ts.subrange(0, i + 1).filter(pred));
            }
            i = i + 1;
        }
        assert(old_ts.subrange(0, i as int) =~= old_ts);
        self.transactions = kept;
        proof {
            lemma_filter_all(old_ts, pred, tx_id_below(self.next_tx_id));
            lemma_filter_pairwise(old_ts, pred, distinct_tx_ids());
            lemma_filter_all(old_ts, pred, amount_non_negative());
        }
    }

    /// Removes the payment row for `(fixed_cost_id, period_ym)`, if any.
    fn remove_payment_row(&mut self, fixed_cost_id: i64, period_ym: &str)
        requires
            old(self)@.wf(),
        ensures
            final(self)@ == (LedgerView {
                payments: old(self)@.payments.filter(payment_not_key(fixed_cost_id, period_ym@)),
                ..old(self)@
            }),
            final(self)@.wf(),
    {
        let ghost old_ps = self@.payments;
        let ghost pred = payment_not_key(fixed_cost_id, period_ym@);
        let target = String::from_str(period_ym);
        let mut kept: Vec<Payment> = Vec::new();
        let mut i: usize = 0;
        assert(kept@.map_values(|p: Payment| p@) =~= old_ps.subrange(0, 0).filter(pred)) by {
            reveal(Seq::filter);
        }
        while i < self.payments.len()
            invariant
                i <= self.payments.len(),
                old_ps == self@.payments,
                old_ps.len() == self.payments.len(),
                pred == payment_not_key(fixed_cost_id, period_ym@),
                target@ == period_ym@,
                kept@.map_values(|p: Payment| p@) == old_ps.subrange(0, i as int).filter(pred),
            decreases self.payments.len() - i,
        {
            let p = &self.payments[i];
            proof {
                reveal(Seq::filter);
                assert(old_ps.subrange(0, i + 1).drop_last() =~= old_ps.subrange(0, i as int));
                assert(old_ps.subrange(0, i + 1).last() == p@);
            }
            if !(p.fixed_cost_id == fixed_cost_id && p.period_ym == target) {
                let c = p.copy();
                kept.push(c);
                assert(kept@.map_values(|p: Payment| p@) =~= old_ps.subrange(0, i + 1).filter(pred));
            } else {
                assert(kept@.map_values(|p: Payment| p@) =~= old_ps.subrange(0, i + 1).filter(pred));
            }
            i = i + 1;
        }
        assert(old_ps.subrange(0, i as int) =~= old_ps);
        self.payments = kept;
        proof {
            lemma_filter_pairwise(old_ps, pred, distinct_payment_keys());
        }
    }

    /// Index of the fixed cost with this id, if any.
    pub fn find_fixed_cost(&self, fixed_cost_id: i64) -> (r: Option<usize>)
        ensures
            r matches Some(i) ==> find_fixed_cost_spec(self@.fixed_costs, fixed_cost_id) == Some(i as int),
            r is None ==> find_fixed_cost_spec(self@.fixed_costs, fixed_cost_id) is None,
    {
        let ghost fs = self@.fixed_costs;
        let mut i: usize = self.fixed_costs.len();
        assert(fs.subrange(0, i as int) =~= fs);
        while i > 0
            invariant
                i <= self.fixed_costs.len(),
                fs == self@.fixed_costs,
                find_fixed_cost_spec(fs, fixed_cost_id) == find_fixed_cost_spec(fs.subrange(0, i as int), fixed_cost_id),
            decreases i,
        {
            let ghost sub = fs.subrange(0, i as int);
            assert(sub.last() == self.fixed_costs[i - 1]@);
            assert(sub.drop_last() =~= fs.subrange(0, i - 1));
            if self.fixed_costs[i - 1].id == fixed_cost_id {
                return Some(i - 1);
            }
            i = i - 1;
        }
        None
    }

    /// Whether transaction `tx_id` is an outgoing fixed-cost transaction of `fixed_cost_id`.
    pub fn tx_link_is_valid(&self, tx_id: i64, fixed_cost_id: i64) -> (r: bool)
        ensures
            r == tx_valid_link(self@.transactions, tx_id, fixed_cost_id),
    {
        let mut i: usize = 0;
        while i < self.transactions.len()
            invariant
                i <= self.transactions.len(),
                forall|j: int|
                    0 <= j < i ==> !((#[trigger] self@.transactions[j]).id == tx_id && self@.transactions[j].kind
                        == TxKind::Out && self@.transactions[j].source == TxSource::FixedCost
                        && self@.transactions[j].fixed_cost_id == Some(fixed_cost_id)),
            decreases self.transactions.len() - i,
        {
            let t = &self.transactions[i];
            assert(self@.transactions[i as int] == t@);
            if t.id == tx_id && t.kind == TxKind::Out && t.source == TxSource::FixedCost && t.fixed_cost_id
                == Some(fixed_cost_id) {
                assert(self@.transactions[i as int].id == tx_id);
                return true;
            }
            i = i + 1;
        }
        false
    }

    /// Inserts a payment row, or replaces the one with the same fixed cost and period.
    pub fn upsert_payment(&mut self, payment: Payment)
        requires
            old(self)@.wf(),
        ensures
            final(self)@.wf(),
            final(self)@ == (LedgerView {
                payments: match find_payment_spec(old(self)@.payments, payment.fixed_cost_id, payment.period_ym@) {
                    Some(i) => old(self)@.payments.update(i, payment@),
                    None => old(self)@.payments.push(payment@),
                },
                ..old(self)@
            }),
    {
        let ghost ps = self@.payments;
        proof {
            lemma_find_payment(ps, payment.fixed_cost_id, payment.period_ym@);
        }
        let found = self.find_payment(payment.fixed_cost_id, payment.period_ym.as_str());
        match found {
            Some(i) => {
                self.payments.set(i, payment);
                proof {
                    assert forall|j: int| 0 <= j < ps.len() && j != i implies #[trigger] distinct_payment_keys()(
                        ps[j],
                        payment@,
                    ) && distinct_payment_keys()(payment@, ps[j]) by {
                        assert(distinct_payment_keys()(ps[j], ps[i as int]));
                    }
                    lemma_update_pairwise(ps, i as int, payment@, distinct_payment_keys());
                }
                assert(self@.payments =~= ps.update(i as int, payment@));
            },
            None => {
                self.payments.push(payment);
                proof {
                    assert forall|j: int| 0 <= j < ps.len() implies #[trigger] distinct_payment_keys()(
                        ps[j],
                        payment@,
                    ) && distinct_payment_keys()(payment@, ps[j]) by {
                        assert(!key_matches(ps[j], payment@.fixed_cost_id, payment@.period_ym));
                    }
                    lemma_push_pairwise(ps, payment@, distinct_payment_keys());
                }
                assert(self@.payments =~= ps.push(payment@));
            },
        }
    }

    /// Records a transaction under the next identity.
    pub fn insert_transaction(
        &mut self,
        kind: TxKind,
        amount: i64,
        date_local: &str,
        ts_utc: i64,
        source: TxSource,
        fixed_cost_id: Option<i64>,
    ) -> (r: Result<Transaction, BudgetError>)
        requires
            old(self)@.wf(),
            old(self).next_tx_id < i64::MAX,
        ensures
            final(self)@.wf(),
            amount < 0 ==> r == Err::<Transaction, BudgetError>(BudgetError::NegativeAmount) && final(self)@ == old(self)@,
            amount >= 0 ==> r is Ok && r->Ok_0@ == (TxView {
                id: old(self).next_tx_id,
                ts_utc,
                date_local: date_local@,
                kind,
                amount,
                source,
                fixed_cost_id,
            }) && final(self)@ == (LedgerView {
                transactions: old(self)@.transactions.push(r->Ok_0@),
                next_tx_id: (old(self).next_tx_id + 1) as i64,
                ..old(self)@
            }),
    {
        if amount < 0 {
            return Err(BudgetError::NegativeAmount);
        }
        let ghost ts = self@.transactions;
        let id = self.next_tx_id;
        let t = Transaction {
            id,
            ts_utc,
            date_local: String::from_str(date_local),
            kind,
            amount,
            source,
            fixed_cost_id,
        };
        let out = t.copy();
        self.transactions.push(t);
        self.next_tx_id = id + 1;
        proof {
            assert forall|j: int| 0 <= j < ts.len() implies #[trigger] distinct_tx_ids()(ts[j], out@)
                && distinct_tx_ids()(out@, ts[j]) by {
                assert(tx_id_below(id)(ts[j]));
            }
            lemma_push_pairwise(ts, out@, distinct_tx_ids());
            assert forall|j: int| 0 <= j < ts.len() implies #[trigger] tx_id_below(self.next_tx_id)(ts[j]) by {
                assert(tx_id_below(id)(ts[j]));
            }
            lemma_push_all(ts, out@, tx_id_below(self.next_tx_id));
            lemma_push_all(ts, out@, amount_non_negative());
        }
        assert(self@.transactions =~= ts.push(out@));
        Ok(out)
    }

    /// The fixed cost with this id, joined with its payment row for `period_ym`.
    pub fn fixed_cost_for_period(&self, fixed_cost_id: i64, period_ym: &str) -> (r: Result<FixedCost, BudgetError>)
        ensures
            match find_fixed_cost_spec(self@.fixed_costs, fixed_cost_id) {
                None => r == Err::<FixedCost, BudgetError>(BudgetError::FixedCostNotFound),
                Some(k) => r is Ok && r->Ok_0@ == cost_status_spec(self@, k, period_ym@),
            },
    {
        proof {
            lemma_find_fixed_cost(self@.fixed_costs, fixed_cost_id);
        }
        let k = match self.find_fixed_cost(fixed_cost_id) {
            None => return Err(BudgetError::FixedCostNotFound),
            Some(k) => k,
        };
        let f = &self.fixed_costs[k];
        assert(self@.fixed_costs[k as int] == f@);
        let found = self.find_payment(f.id, period_ym);
        proof {
            lemma_find_payment(self@.payments, f.id, period_ym@);
        }
        match found {
            Some(i) => {
                let p = &self.payments[i];
                assert(self@.payments[i as int] == p@);
                Ok(
                    FixedCost {
                        id: f.id,
                        name: f.name.clone(),
                        amount: f.amount,
                        is_active: f.is_active,
                        paid_date_local: copy_opt_string(&p.paid_date_local),
                        paid_ts_utc: p.paid_ts_utc,
                        paid_tx_id: p.tx_id,
                    },
                )
            },
            None => Ok(
                FixedCost {
                    id: f.id,
                    name: f.name.clone(),
                    amount: f.amount,
                    is_active: f.is_active,
                    paid_date_local: None,
                    paid_ts_utc: None,
                    paid_tx_id: None,
                },
            ),
        }
    }

    /// Settles a fixed cost for the month of `paid_date_local`. A settlement
    /// whose transaction is still valid only gets its date and time refreshed;
    /// otherwise any stale row is dropped, an outgoing fixed-cost transaction
    /// for the cost's amount is recorded and the payment row points at it.
    pub fn mark_fixed_cost_paid(&mut self, fixed_cost_id: i64, paid_date_local: &str, paid_ts_utc: i64) -> (r:
        Result<FixedCost, BudgetError>)
        requires
            old(self)@.wf(),
            old(self).next_tx_id < i64::MAX,
        ensures
            final(self)@.wf(),
            match find_fixed_cost_spec(old(self)@.fixed_costs, fixed_cost_id) {
                None => r == Err::<FixedCost, BudgetError>(BudgetError::FixedCostNotFound) && final(self)@ == old(
                    self,
                )@,
                Some(k) => if old(self)@.fixed_costs[k].amount < 0 {
                    r == Err::<FixedCost, BudgetError>(BudgetError::NegativeAmount) && final(self)@ == old(self)@
                } else {
                    &&& final(self)@ == paid_spec(
                        old(self)@,
                        fixed_cost_id,
                        paid_date_local@,
                        paid_ts_utc,
                        old(self)@.fixed_costs[k].amount,
                    )
                    &&& r is Ok
                    &&& r->Ok_0@ == cost_status_spec(final(self)@, k, period_of(paid_date_local@))
                },
            },
    {
        let ghost v = self@;
        proof {
            lemma_find_fixed_cost(v.fixed_costs, fixed_cost_id);
        }
        let period = period_ym_from_date(paid_date_local);
        let k = match self.find_fixed_cost(fixed_cost_id) {
            None => return Err(BudgetError::FixedCostNotFound),
            Some(k) => k,
        };
        let amount = self.fixed_costs[k].amount;
        assert(v.fixed_costs[k as int].amount == amount);
        if amount < 0 {
            return Err(BudgetError::NegativeAmount);
        }
        let found = self.find_payment(fixed_cost_id, period.as_str());
        proof {
            lemma_find_payment(v.payments, fixed_cost_id, period@);
        }
        let valid = match found {
            Some(i) => match self.payments[i].tx_id {
                Some(t) => self.tx_link_is_valid(t, fixed_cost_id),
                None => false,
            },
            None => false,
        };
        if valid {
            let i = found.unwrap();
            let old_p = &self.payments[i];
            assert(v.payments[i as int] == old_p@);
            let refreshed = Payment {
                fixed_cost_id: old_p.fixed_cost_id,
                period_ym: old_p.period_ym.clone(),
                paid_date_local: Some(String::from_str(paid_date_local)),
                paid_ts_utc: Some(paid_ts_utc),
                tx_id: old_p.tx_id,
            };
            self.upsert_payment(refreshed);
            assert(self@.payments =~= paid_spec(v, fixed_cost_id, paid_date_local@, paid_ts_utc, amount).payments);
        } else {
            self.remove_payment_row(fixed_cost_id, period.as_str());
            let ghost removed = self@.payments;
            proof {
                let pred = payment_not_key(fixed_cost_id, period@);
                lemma_filter_all(v.payments, pred, |p: PaymentView| true);
                assert forall|j: int| 0 <= j < removed.len() implies !key_matches(
                    #[trigger] removed[j],
                    fixed_cost_id,
                    period@,
                ) by {
                    assert(pred(removed[j]));
                }
                lemma_find_payment(removed, fixed_cost_id, period@);
            }
            let t = match self.insert_transaction(
                TxKind::Out,
                amount,
                paid_date_local,
                paid_ts_utc,
                TxSource::FixedCost,
                Some(fixed_cost_id),
            ) {
                Ok(t) => t,
                Err(e) => return Err(e),
            };
            let payment = Payment {
                fixed_cost_id,
                period_ym: period.clone(),
                paid_date_local: Some(String::from_str(paid_date_local)),
                paid_ts_utc: Some(paid_ts_utc),
                tx_id: Some(t.id),
            };
            self.upsert_payment(payment);
        }
        assert(self@ == paid_spec(v, fixed_cost_id, paid_date_local@, paid_ts_utc, amount));
        self.fixed_cost_for_period(fixed_cost_id, period.as_str())
    }

    /// The greatest period among the payment rows of a fixed cost.
    pub fn latest_payment_period(&self, fixed_cost_id: i64) -> (r: Option<String>)
        ensures
            opt_view(r) == latest_period_spec(self@.payments, fixed_cost_id),
    {
        let ghost ps = self@.payments;
        let mut best: Option<String> = None;
        let mut i: usize = 0;
        assert(ps.subrange(0, 0) =~= Seq::<PaymentView>::empty());
        while i < self.payments.len()
            invariant
                i <= self.payments.len(),
                ps == self@.payments,
                opt_view(best) == latest_period_spec(ps.subrange(0, i as int), fixed_cost_id),
            decreases self.payments.len() - i,
        {
            let p = &self.payments[i];
            assert(ps.subrange(0, i + 1).drop_last() =~= ps.subrange(0, i as int));
            assert(ps.subrange(0, i + 1).last() == p@);
            if p.fixed_cost_id == fixed_cost_id {
                let replace = match &best {
                    None => true,
                    Some(q) => str_less(q.as_str(), p.period_ym.as_str()),
                };
                if replace {
                    best = Some(p.period_ym.clone());
                }
            }
            i = i + 1;
        }
        assert(ps.subrange(0, i as int) =~= ps);
        best
    }

    /// The period that un-paying a fixed cost clears; see `unpaid_period_spec`.
    pub fn resolve_period_for_unpaid(&self, fixed_cost_id: i64, paid_date_local: Option<&str>, current_period: &str) -> (r:
        String)
        ensures
            r@ == unpaid_period_spec(self@, fixed_cost_id, opt_str_view(paid_date_local), current_period@),
    {
        if let Some(d) = paid_date_local {
            return period_ym_from_date(d);
        }
        if self.find_payment(fixed_cost_id, current_period).is_some() {
            return String::from_str(current_period);
        }
        match self.latest_payment_period(fixed_cost_id) {
            Some(p) => p,
            None => String::from_str(current_period),
        }
    }

    /// Clears the settlement of a fixed cost for the period that
    /// `resolve_period_for_unpaid` picks: the linked transaction, if any, and
    /// the payment row are removed.
    pub fn mark_fixed_cost_unpaid(&mut self, fixed_cost_id: i64, paid_date_local: Option<&str>, current_period: &str) -> (r:
        Result<FixedCost, BudgetError>)
        requires
            old(self)@.wf(),
        ensures
            final(self)@.wf(),
            match find_fixed_cost_spec(old(self)@.fixed_costs, fixed_cost_id) {
                None => r == Err::<FixedCost, BudgetError>(BudgetError::FixedCostNotFound) && final(self)@ == old(
                    self,
                )@,
                Some(k) => {
                    let period = unpaid_period_spec(
                        old(self)@,
                        fixed_cost_id,
                        opt_str_view(paid_date_local),
                        current_period@,
                    );
                    &&& final(self)@ == unpaid_spec(old(self)@, fixed_cost_id, period)
                    &&& r is Ok
                    &&& r->Ok_0@ == cost_status_spec(final(self)@, k, period)
                },
            },
    {
        let ghost v = self@;
        proof {
            lemma_find_fixed_cost(v.fixed_costs, fixed_cost_id);
        }
        if self.find_fixed_cost(fixed_cost_id).is_none() {
            return Err(BudgetError::FixedCostNotFound);
        }
        let period = self.resolve_period_for_unpaid(fixed_cost_id, paid_date_local, current_period);
        let found = self.find_payment(fixed_cost_id, period.as_str());
        proof {
            lemma_find_payment(v.payments, fixed_cost_id, period@);
        }
        let link = match found {
            Some(i) => self.payments[i].tx_id,
            None => None,
        };
        if let Some(t) = link {
            self.remove_transaction_row(t);
        }
        self.remove_payment_row(fixed_cost_id, period.as_str());
        assert(self@ == unpaid_spec(v, fixed_cost_id, period@));
        self.fixed_cost_for_period(fixed_cost_id, period.as_str())
    }

    /// Whether a transaction with this id exists.
    pub fn contains_transaction(&self, id: i64) -> (r: bool)
        ensures
            r == self@.has_tx(id),
    {
        let mut i: usize = 0;
        while i < self.transactions.len()
            invariant
                i <= self.transactions.len(),
                forall|j: int| 0 <= j < i ==> (#[trigger] self@.transactions[j]).id != id,
            decreases self.transactions.len() - i,
        {
            assert(self@.transactions[i as int] == self.transactions[i as int]@);
            if self.transactions[i].id == id {
                assert(self@.transactions[i as int].id == id);
                return true;
            }
            i = i + 1;
        }
        false
    }

    /// Whether a payment row of `fixed_cost_id` points at transaction `id`.
    fn is_linked(&self, fixed_cost_id: i64, id: i64) -> (r: bool)
        ensures
            r == linked_by(self@.payments, fixed_cost_id, id),
    {
        let mut i: usize = 0;
        while i < self.payments.len()
            invariant
                i <= self.payments.len(),
                forall|j: int|
                    0 <= j < i ==> !((#[trigger] self@.payments[j]).fixed_cost_id == fixed_cost_id
                        && self@.payments[j].tx_id == Some(id)),
            decreases self.payments.len() - i,
        {
            assert(self@.payments[i as int] == self.payments[i as int]@);
            if self.payments[i].fixed_cost_id == fixed_cost_id && self.payments[i].tx_id == Some(id) {
                assert(self@.payments[i as int].fixed_cost_id == fixed_cost_id);
                return true;
            }
            i = i + 1;
        }
        false
    }

    /// Clears the link of every payment row that points at transaction `id`.
    fn unlink_payments(&mut self, id: i64)
        requires
            old(self)@.wf(),
        ensures
            final(self)@ == (LedgerView { payments: old(self)@.payments.map_values(unlink_tx(id)), ..old(self)@ }),
            final(self)@.wf(),
    {
        let ghost old_ps = self@.payments;
        let mut out: Vec<Payment> = Vec::new();
        let mut i: usize = 0;
        while i < self.payments.len()
            invariant
                i <= self.payments.len(),
                old_ps == self@.payments,
                old_ps.len() == self.payments.len(),
                out@.map_values(|p: Payment| p@) == old_ps.subrange(0, i as int).map_values(unlink_tx(id)),
            decreases self.payments.len() - i,
        {
            let p = &self.payments[i];
            assert(old_ps[i as int] == p@);
            let q = if p.tx_id == Some(id) {
                Payment {
                    fixed_cost_id: p.fixed_cost_id,
                    period_ym: p.period_ym.clone(),
                    paid_date_local: None,
                    paid_ts_utc: None,
                    tx_id: None,
                }
            } else {
                p.copy()
            };
            assert(q@ == unlink_tx(id)(old_ps[i as int]));
            let ghost before = out@;
            out.push(q);
            assert(old_ps.subrange(0, i + 1) =~= old_ps.subrange(0, i as int).push(old_ps[i as int]));
            assert(out@ =~= before.push(q));
            assert(out@.map_values(|p: Payment| p@) =~= before.map_values(|p: Payment| p@).push(q@));
            assert(old_ps.subrange(0, i + 1).map_values(unlink_tx(id)) =~= old_ps.subrange(0, i as int).map_values(
                unlink_tx(id),
            ).push(unlink_tx(id)(old_ps[i as int])));
            i = i + 1;
        }
        assert(old_ps.subrange(0, i as int) =~= old_ps);
        self.payments = out;
        proof {
            let ps = self@.payments;
            assert forall|a: int, b: int| 0 <= a < ps.len() && 0 <= b < ps.len() && a != b implies #[trigger] distinct_payment_keys()(
                ps[a],
                ps[b],
            ) by {
                assert(distinct_payment_keys()(old_ps[a], old_ps[b]));
            }
        }
    }

    /// Deletes a transaction. Payment rows that point at it keep their row
    /// but lose the link and the paid date and time.
    pub fn delete_transaction(&mut self, transaction_id: i64) -> (r: Result<(), BudgetError>)
        requires
            old(self)@.wf(),
        ensures
            final(self)@.wf(),
            transaction_id <= 0 ==> r == Err::<(), BudgetError>(BudgetError::InvalidTransactionId) && final(self)@ == old(
                self,
            )@,
            transaction_id > 0 && !old(self)@.has_tx(transaction_id) ==> r == Err::<(), BudgetError>(
                BudgetError::TransactionNotFound,
            ) && final(self)@ == old(self)@,
            transaction_id > 0 && old(self)@.has_tx(transaction_id) ==> r is Ok && final(self)@ == deleted_tx_spec(
                old(self)@,
                transaction_id,
            ),
    {
        if transaction_id <= 0 {
            return Err(BudgetError::InvalidTransactionId);
        }
        if !self.contains_transaction(transaction_id) {
            return Err(BudgetError::TransactionNotFound);
        }
        self.unlink_payments(transaction_id);
        self.remove_transaction_row(transaction_id);
        Ok(())
    }

    /// Removes the transactions that deleting a fixed cost takes with it.
    fn remove_cost_transactions(&mut self, fixed_cost_id: i64)
        requires
            old(self)@.wf(),
        ensures
            final(self)@ == (LedgerView {
                transactions: old(self)@.transactions.filter(tx_outlives_cost(old(self)@.payments, fixed_cost_id)),
                ..old(self)@
            }),
            final(self)@.wf(),
    {
        let ghost old_ts = self@.transactions;
        let ghost pred = tx_outlives_cost(self@.payments, fixed_cost_id);
        let mut kept: Vec<Transaction> = Vec::new();
        let mut i: usize = 0;
        assert(kept@.map_values(|t: Transaction| t@) =~= old_ts.subrange(0, 0).filter(pred)) by {
            reveal(Seq::filter);
        }
        while i < self.transactions.len()
            invariant
                i <= self.transactions.len(),
                old_ts == self@.transactions,
                old_ts.len() == self.transactions.len(),
                pred == tx_outlives_cost(self@.payments, fixed_cost_id),
                kept@.map_values(|t: Transaction| t@) == old_ts.subrange(0, i as int).filter(pred),
            decreases self.transactions.len() - i,
        {
            let t = &self.transactions[i];
            proof {
                reveal(Seq::filter);
                assert(old_ts.subrange(0, i + 1).drop_last() =~= old_ts.subrange(0, i as int));
                assert(old_ts.subrange(0, i + 1).last() == t@);
            }
            let tagged = t.kind == TxKind::Out && t.source == TxSource::FixedCost && t.fixed_cost_id == Some(
                fixed_cost_id,
            );
            if !tagged && !self.is_linked(fixed_cost_id, t.id) {
                let c = t.copy();
                kept.push(c);
                assert(kept@.map_values(|t: Transaction| t@) =~= old_ts.subrange(0, i + 1).filter(pred));
            } else {
                assert(kept@.map_values(|t: Transaction| t@) =~= old_ts.subrange(0, i + 1).filter(pred));
            }
            i = i + 1;
        }
        assert(old_ts.subrange(0, i as int) =~= old_ts);
        self.transactions = kept;
        proof {
            lemma_filter_all(old_ts, pred, tx_id_below(self.next_tx_id));
            lemma_filter_pairwise(old_ts, pred, distinct_tx_ids());
            lemma_filter_all(old_ts, pred, amount_non_negative());
        }
    }

    /// Removes every payment row of this fixed cost.
    fn remove_cost_payments(&mut self, fixed_cost_id: i64)
        requires
            old(self)@.wf(),
        ensures
            final(self)@ == (LedgerView {
                payments: old(self)@.payments.filter(payment_not_of(fixed_cost_id)),
                ..old(self)@
            }),
            final(self)@.wf(),
    {
        let ghost old_ps = self@.payments;
        let ghost pred = payment_not_of(fixed_cost_id);
        let mut kept: Vec<Payment> = Vec::new();
        let mut i: usize = 0;
        assert(kept@.map_values(|p: Payment| p@) =~= old_ps.subrange(0, 0).filter(pred)) by {
            reveal(Seq::filter);
        }
        while i < self.payments.len()
            invariant
                i <= self.payments.len(),
                old_ps == self@.payments,
                old_ps.len() == self.payments.len(),
                pred == payment_not_of(fixed_cost_id),
                kept@.map_values(|p: Payment| p@) == old_ps.subrange(0, i as int).filter(pred),
            decreases self.payments.len() - i,
        {
            let p = &self.payments[i];
            proof {
                reveal(Seq::filter);
                assert(old_ps.subrange(0, i + 1).drop_last() =~= old_ps.subrange(0, i as int));
                assert(old_ps.subrange(0, i + 1).last() == p@);
            }
            if p.fixed_cost_id != fixed_cost_id {
                let c = p.copy();
                kept.push(c);
                assert(kept@.map_values(|p: Payment| p@) =~= old_ps.subrange(0, i + 1).filter(pred));
            } else {
                assert(kept@.map_values(|p: Payment| p@) =~= old_ps.subrange(0, i + 1).filter(pred));
            }
            i = i + 1;
        }
        assert(old_ps.subrange(0, i as int) =~= old_ps);
        self.payments = kept;
        proof {
            lemma_filter_pairwise(old_ps, pred, distinct_payment_keys());
        }
    }

    /// Removes the fixed cost entry with this id.
    fn remove_fixed_cost_row(&mut self, fixed_cost_id: i64)
        requires
            old(self)@.wf(),
        ensures
            final(self)@ == (LedgerView {
                fixed_costs: old(self)@.fixed_costs.filter(fixed_cost_not_id(fixed_cost_id)),
                ..old(self)@
            }),
            final(self)@.wf(),
    {
        let ghost old_fs = self@.fixed_costs;
        let ghost pred = fixed_cost_not_id(fixed_cost_id);
        let mut kept: Vec<FixedCostEntry> = Vec::new();
        let mut i: usize = 0;
        assert(kept@.map_values(|f: FixedCostEntry| f@) =~= old_fs.subrange(0, 0).filter(pred)) by {
            reveal(Seq::filter);
        }
        while i < self.fixed_costs.len()
            invariant
                i <= self.fixed_costs.len(),
                old_fs == self@.fixed_costs,
                old_fs.len() == self.fixed_costs.len(),
                pred == fixed_cost_not_id(fixed_cost_id),
                kept@.map_values(|f: FixedCostEntry| f@) == old_fs.subrange(0, i as int).filter(pred),
            decreases self.fixed_costs.len() - i,
        {
            let f = &self.fixed_costs[i];
            proof {
                reveal(Seq::filter);
                assert(old_fs.subrange(0, i + 1).drop_last() =~= old_fs.subrange(0, i as int));
                assert(old_fs.subrange(0, i + 1).last() == f@);
            }
            if f.id != fixed_cost_id {
                let c = FixedCostEntry { id: f.id, name: f.name.clone(), amount: f.amount, is_active: f.is_active };
                kept.push(c);
                assert(kept@.map_values(|f: FixedCostEntry| f@) =~= old_fs.subrange(0, i + 1).filter(pred));
            } else {
                assert(kept@.map_values(|f: FixedCostEntry| f@) =~= old_fs.subrange(0, i + 1).filter(pred));
            }
            i = i + 1;
        }
        assert(old_fs.subrange(0, i as int) =~= old_fs);
        self.fixed_costs = kept;
        proof {
            lemma_filter_all(old_fs, pred, fixed_cost_id_below(self.next_fixed_cost_id));
            lemma_filter_ordered(old_fs, pred, fixed_cost_ids_increasing());
        }
    }

    /// Deletes a fixed cost with its payment rows, the transactions those rows
    /// point at, and the outgoing fixed-cost transactions tagged with its id.
    pub fn delete_fixed_cost(&mut self, fixed_cost_id: i64) -> (r: Result<(), BudgetError>)
        requires
            old(self)@.wf(),
        ensures
            final(self)@.wf(),
            find_fixed_cost_spec(old(self)@.fixed_costs, fixed_cost_id) is None ==> r == Err::<(), BudgetError>(
                BudgetError::FixedCostNotFound,
            ) && final(self)@ == old(self)@,
            find_fixed_cost_spec(old(self)@.fixed_costs, fixed_cost_id) is Some ==> r is Ok && final(self)@ == (
            LedgerView {
                transactions: old(self)@.transactions.filter(tx_outlives_cost(old(self)@.payments, fixed_cost_id)),
                payments: old(self)@.payments.filter(payment_not_of(fixed_cost_id)),
                fixed_costs: old(self)@.fixed_costs.filter(fixed_cost_not_id(fixed_cost_id)),
                ..old(self)@
            }),
    {
        if self.find_fixed_cost(fixed_cost_id).is_none() {
            return Err(BudgetError::FixedCostNotFound);
        }
        self.remove_cost_transactions(fixed_cost_id);
        self.remove_cost_payments(fixed_cost_id);
        self.remove_fixed_cost_row(fixed_cost_id);
        Ok(())
    }

    /// Drops payment rows without a link and those whose link no longer names
    /// an outgoing fixed-cost transaction of the same fixed cost.
    pub fn cleanup_fixed_cost_payments(&mut self)
        requires
            old(self)@.wf(),
        ensures
            final(self)@ == (LedgerView {
                payments: old(self)@.payments.filter(payment_link_holds(old(self)@.transactions)),
                ..old(self)@
            }),
            final(self)@.wf(),
    {
        let ghost old_ps = self@.payments;
        let ghost pred = payment_link_holds(self@.transactions);
        let mut kept: Vec<Payment> = Vec::new();
        let mut i: usize = 0;
        assert(kept@.map_values(|p: Payment| p@) =~= old_ps.subrange(0, 0).filter(pred)) by {
            reveal(Seq::filter);
        }
        while i < self.payments.len()
            invariant
                i <= self.payments.len(),
                old_ps == self@.payments,
                old_ps.len() == self.payments.len(),
                pred == payment_link_holds(self@.transactions),
                kept@.map_values(|p: Payment| p@) == old_ps.subrange(0, i as int).filter(pred),
            decreases self.payments.len() - i,
        {
            let p = &self.payments[i];
            proof {
                reveal(Seq::filter);
                assert(old_ps.subrange(0, i + 1).drop_last() =~= old_ps.subrange(0, i as int));
                assert(old_ps.subrange(0, i + 1).last() == p@);
            }
            let keep = match p.tx_id {
                Some(t) => self.tx_link_is_valid(t, p.fixed_cost_id),
                None => false,
            };
            if keep {
                let c = p.copy();
                kept.push(c);
                assert(kept@.map_values(|p: Payment| p@) =~= old_ps.subrange(0, i + 1).filter(pred));
            } else {
                assert(kept@.map_values(|p: Payment| p@) =~= old_ps.subrange(0, i + 1).filter(pred));
            }
            i = i + 1;
        }
        assert(old_ps.subrange(0, i as int) =~= old_ps);
        self.payments = kept;
        proof {
            lemma_filter_pairwise(old_ps, pred, distinct_payment_keys());
        }
    }

    /// Adds an active fixed cost under the next identity and returns it with
    /// its payment state for `current_period`.
    pub fn add_fixed_cost(&mut self, name: &str, amount: i64, current_period: &str) -> (r: Result<FixedCost, BudgetError>)
        requires
            old(self)@.wf(),
            old(self).next_fixed_cost_id < i64::MAX,
        ensures
            final(self)@.wf(),
            amount < 0 ==> r == Err::<FixedCost, BudgetError>(BudgetError::NegativeAmount) && final(self)@ == old(self)@,
            amount >= 0 ==> {
                let entry = FixedCostEntryView {
                    id: old(self).next_fixed_cost_id,
                    name: name@,
                    amount,
                    is_active: true,
                };
                &&& final(self)@ == (LedgerView {
                    fixed_costs: old(self)@.fixed_costs.push(entry),
                    next_fixed_cost_id: (old(self).next_fixed_cost_id + 1) as i64,
                    ..old(self)@
                })
                &&& r is Ok
                &&& r->Ok_0@ == cost_status_spec(final(self)@, old(self)@.fixed_costs.len() as int, current_period@)
            },
    {
        if amount < 0 {
            return Err(BudgetError::NegativeAmount);
        }
        let ghost fs = self@.fixed_costs;
        let id = self.next_fixed_cost_id;
        let entry = FixedCostEntry { id, name: String::from_str(name), amount, is_active: true };
        let ghost ev = entry@;
        self.fixed_costs.push(entry);
        self.next_fixed_cost_id = id + 1;
        proof {
            assert forall|j: int| 0 <= j < fs.len() implies #[trigger] fixed_cost_ids_increasing()(fs[j], ev) by {
                assert(fixed_cost_id_below(id)(fs[j]));
            }
            lemma_push_ordered(fs, ev, fixed_cost_ids_increasing());
            assert forall|j: int| 0 <= j < fs.len() implies #[trigger] fixed_cost_id_below(self.next_fixed_cost_id)(
                fs[j],
            ) by {
                assert(fixed_cost_id_below(id)(fs[j]));
            }
            lemma_push_all(fs, ev, fixed_cost_id_below(self.next_fixed_cost_id));
        }
        assert(self@.fixed_costs =~= fs.push(ev));
        let k = self.fixed_costs.len() - 1;
        let f = &self.fixed_costs[k];
        let found = self.find_payment(id, current_period);
        proof {
            lemma_find_payment(self@.payments, id, current_period@);
        }
        match found {
            Some(i) => {
                let p = &self.payments[i];
                assert(self@.payments[i as int] == p@);
                Ok(
                    FixedCost {
                        id,
                        name: f.name.clone(),
                        amount,
                        is_active: true,
                        paid_date_local: copy_opt_string(&p.paid_date_local),
                        paid_ts_utc: p.paid_ts_utc,
                        paid_tx_id: p.tx_id,
                    },
                )
            },
            None => Ok(
                FixedCost {
                    id,
                    name: f.name.clone(),
                    amount,
                    is_active: true,
                    paid_date_local: None,
                    paid_ts_utc: None,
                    paid_tx_id: None,
                },
            ),
        }
    }

    /// Records a manual income.
    pub fn add_income(&mut self, amount: i64, date_local: &str, ts_utc: i64) -> (r: Result<Transaction, BudgetError>)
        requires
            old(self)@.wf(),
            old(self).next_tx_id < i64::MAX,
        ensures
            final(self)@.wf(),
            amount < 0 ==> r == Err::<Transaction, BudgetError>(BudgetError::NegativeAmount) && final(self)@ == old(self)@,
            amount >= 0 ==> r is Ok && r->Ok_0@ == (TxView {
                id: old(self).next_tx_id,
                ts_utc,
                date_local: date_local@,
                kind: TxKind::In,
                amount,
                source: TxSource::Manual,
                fixed_cost_id: None,
            }) && final(self)@ == (LedgerView {
                transactions: old(self)@.transactions.push(r->Ok_0@),
                next_tx_id: (old(self).next_tx_id + 1) as i64,
                ..old(self)@
            }),
    {
        self.insert_transaction(TxKind::In, amount, date_local, ts_utc, TxSource::Manual, None)
    }

    /// Records a manual expense.
    pub fn add_expense(&mut self, amount: i64, date_local: &str, ts_utc: i64) -> (r: Result<Transaction, BudgetError>)
        requires
            old(self)@.wf(),
            old(self).next_tx_id < i64::MAX,
        ensures
            final(self)@.wf(),
            amount < 0 ==> r == Err::<Transaction, BudgetError>(BudgetError::NegativeAmount) && final(self)@ == old(self)@,
            amount >= 0 ==> r is Ok && r->Ok_0@ == (TxView {
                id: old(self).next_tx_id,
                ts_utc,
                date_local: date_local@,
                kind: TxKind::Out,
                amount,
                source: TxSource::Manual,
                fixed_cost_id: None,
            }) && final(self)@ == (LedgerView {
                transactions: old(self)@.transactions.push(r->Ok_0@),
                next_tx_id: (old(self).next_tx_id + 1) as i64,
                ..old(self)@
            }),
    {
        self.insert_transaction(TxKind::Out, amount, date_local, ts_utc, TxSource::Manual, None)
    }

    /// Runs the cleanup of payment rows, then lists every fixed cost with its
    /// payment state for `period_ym`, highest identity first.
    pub fn list_fixed_costs(&mut self, period_ym: &str) -> (r: Vec<FixedCost>)
        requires
            old(self)@.wf(),
        ensures
            final(self)@.wf(),
            final(self)@ == (LedgerView {
                payments: old(self)@.payments.filter(payment_link_holds(old(self)@.transactions)),
                ..old(self)@
            }),
            r@.len() == final(self)@.fixed_costs.len(),
            forall|k: int|
                0 <= k < r@.len() ==> (#[trigger] r@[k])@ == cost_status_spec(
                    final(self)@,
                    final(self)@.fixed_costs.len() - 1 - k,
                    period_ym@,
                ),
            forall|a: int, b: int| 0 <= a < b < r@.len() ==> (#[trigger] r@[a]).id > (#[trigger] r@[b]).id,
    {
        self.cleanup_fixed_cost_payments();
        let n = self.fixed_costs.len();
        let mut out: Vec<FixedCost> = Vec::new();
        let mut k: usize = 0;
        while k < n
            invariant
                n == self.fixed_costs.len(),
                self@.wf(),
                k <= n,
                out@.len() == k,
                forall|m: int|
                    0 <= m < k ==> (#[trigger] out@[m])@ == cost_status_spec(self@, n - 1 - m, period_ym@),
            decreases n - k,
        {
            let idx = n - 1 - k;
            let id = self.fixed_costs[idx].id;
            proof {
                let fs = self@.fixed_costs;
                lemma_find_fixed_cost(fs, id);
                let found = find_fixed_cost_spec(fs, id)->0;
                if found < idx as int {
                    assert(fixed_cost_ids_increasing()(fs[found], fs[idx as int]));
                } else if found > idx as int {
                    assert(fixed_cost_ids_increasing()(fs[idx as int], fs[found]));
                }
            }
            let f = match self.fixed_cost_for_period(id, period_ym) {
                Ok(f) => f,
                Err(_) => {
                    assert(false);
                    return out;
                },
            };
            out.push(f);
            k = k + 1;
        }
        proof {
            let fs = self@.fixed_costs;
            assert forall|a: int, b: int| 0 <= a < b < out@.len() implies (#[trigger] out@[a]).id > (
            #[trigger] out@[b]).id by {
                assert(fixed_cost_ids_increasing()(fs[n - 1 - b], fs[n - 1 - a]));
            }
        }
        out
    }

    /// Index of the payment row for `(fixed_cost_id, period_ym)`, if any.
    pub fn find_payment(&self, fixed_cost_id: i64, period_ym: &str) -> (r: Option<usize>)
        ensures
            r matches Some(i) ==> find_payment_spec(self@.payments, fixed_cost_id, period_ym@) == Some(i as int),
            r is None ==> find_payment_spec(self@.payments, fixed_cost_id, period_ym@) is None,
    {
        let ghost ps = self@.payments;
        let target = String::from_str(period_ym);
        let mut i: usize = self.payments.len();
        assert(ps.subrange(0, i as int) =~= ps);
        while i > 0
            invariant
                i <= self.payments.len(),
                ps == self@.payments,
                target@ == period_ym@,
                find_payment_spec(ps, fixed_cost_id, period_ym@) == find_payment_spec(
                    ps.subrange(0, i as int),
                    fixed_cost_id,
                    period_ym@,
                ),
            decreases i,
        {
            let p = &self.payments[i - 1];
            let ghost sub = ps.subrange(0, i as int);
            assert(sub.last() == p@);
            assert(sub.drop_last() =~= ps.subrange(0, i - 1));
            if p.fixed_cost_id == fixed_cost_id && p.period_ym == target {
                return Some(i - 1);
            }
            i = i - 1;
        }
        None
    }
}

} // verus!
