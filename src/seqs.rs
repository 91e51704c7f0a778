use vstd::prelude::*;

verus! {

/// Every element satisfies `p`.
pub open spec fn all_elems<A>(s: Seq<A>, p: spec_fn(A) -> bool) -> bool {
    forall|i: int| 0 <= i < s.len() ==> #[trigger] p(s[i])
}

/// Every two elements at distinct positions are related by `r`.
pub open spec fn pairwise<A>(s: Seq<A>, r: spec_fn(A, A) -> bool) -> bool {
    forall|i: int, j: int| 0 <= i < s.len() && 0 <= j < s.len() && i != j ==> #[trigger] r(s[i], s[j])
}

/// Every element is related by `r` to each element after it.
pub open spec fn ordered<A>(s: Seq<A>, r: spec_fn(A, A) -> bool) -> bool {
    forall|i: int, j: int| 0 <= i < j < s.len() ==> #[trigger] r(s[i], s[j])
}

/// Positions in `s` of the elements that `s.filter(pred)` keeps, in order.
pub proof fn lemma_filter_indices<A>(s: Seq<A>, pred: spec_fn(A) -> bool) -> (idx: Seq<int>)
    ensures
        idx.len() == s.filter(pred).len(),
        forall|k: int|
            0 <= k < idx.len() ==> 0 <= #[trigger] idx[k] < s.len() && s.filter(pred)[k] == s[idx[k]],
        forall|k1: int, k2: int| 0 <= k1 < k2 < idx.len() ==> #[trigger] idx[k1] < #[trigger] idx[k2],
    decreases s.len(),
{
    reveal(Seq::filter);
    if s.len() == 0 {
        Seq::empty()
    } else {
        let r = lemma_filter_indices(s.drop_last(), pred);
        if pred(s.last()) {
            r.push(s.len() - 1)
        } else {
            r
        }
    }
}

pub proof fn lemma_filter_all<A>(s: Seq<A>, pred: spec_fn(A) -> bool, p: spec_fn(A) -> bool)
    requires
        all_elems(s, p),
    ensures
        all_elems(s.filter(pred), p),
        all_elems(s.filter(pred), pred),
{
    let idx = lemma_filter_indices(s, pred);
    broadcast use vstd::seq_lib::group_filter_ensures;

    assert forall|k: int| 0 <= k < s.filter(pred).len() implies #[trigger] p(s.filter(pred)[k]) by {
        assert(p(s[idx[k]]));
    }
}

pub proof fn lemma_filter_pairwise<A>(s: Seq<A>, pred: spec_fn(A) -> bool, r: spec_fn(A, A) -> bool)
    requires
        pairwise(s, r),
    ensures
        pairwise(s.filter(pred), r),
{
    let f = s.filter(pred);
    let idx = lemma_filter_indices(s, pred);
    assert forall|i: int, j: int| 0 <= i < f.len() && 0 <= j < f.len() && i != j implies #[trigger] r(
        f[i],
        f[j],
    ) by {
        if i < j {
            assert(idx[i] < idx[j]);
        } else {
            assert(idx[j] < idx[i]);
        }
        assert(r(s[idx[i]], s[idx[j]]));
    }
}

pub proof fn lemma_push_all<A>(s: Seq<A>, x: A, p: spec_fn(A) -> bool)
    requires
        all_elems(s, p),
        p(x),
    ensures
        all_elems(s.push(x), p),
{
    assert forall|i: int| 0 <= i < s.push(x).len() implies #[trigger] p(s.push(x)[i]) by {
        if i < s.len() {
            assert(p(s[i]));
        }
    }
}

pub proof fn lemma_push_pairwise<A>(s: Seq<A>, x: A, r: spec_fn(A, A) -> bool)
    requires
        pairwise(s, r),
        forall|i: int| 0 <= i < s.len() ==> #[trigger] r(s[i], x) && r(x, s[i]),
    ensures
        pairwise(s.push(x), r),
{
    let t = s.push(x);
    assert forall|i: int, j: int| 0 <= i < t.len() && 0 <= j < t.len() && i != j implies #[trigger] r(
        t[i],
        t[j],
    ) by {
        if i < s.len() && j < s.len() {
            assert(r(s[i], s[j]));
        } else if i < s.len() {
            assert(r(s[i], x) && r(x, s[i]));
        } else {
            assert(r(s[j], x) && r(x, s[j]));
        }
    }
}

pub proof fn lemma_update_pairwise<A>(s: Seq<A>, k: int, x: A, r: spec_fn(A, A) -> bool)
    requires
        pairwise(s, r),
        0 <= k < s.len(),
        forall|i: int| 0 <= i < s.len() && i != k ==> #[trigger] r(s[i], x) && r(x, s[i]),
    ensures
        pairwise(s.update(k, x), r),
{
    let t = s.update(k, x);
    assert forall|i: int, j: int| 0 <= i < t.len() && 0 <= j < t.len() && i != j implies #[trigger] r(
        t[i],
        t[j],
    ) by {
        if i != k && j != k {
            assert(r(s[i], s[j]));
        } else if i != k {
            assert(r(s[i], x) && r(x, s[i]));
        } else {
            assert(r(s[j], x) && r(x, s[j]));
        }
    }
}

pub proof fn lemma_filter_all_true<A>(s: Seq<A>, pred: spec_fn(A) -> bool)
    requires
        all_elems(s, pred),
    ensures
        s.filter(pred) == s,
    decreases s.len(),
{
    reveal(Seq::filter);
    if s.len() > 0 {
        let r = s.drop_last();
        assert forall|i: int| 0 <= i < r.len() implies #[trigger] pred(r[i]) by {
            assert(pred(s[i]));
        }
        lemma_filter_all_true(r, pred);
        assert(pred(s[s.len() - 1]));
        assert(r.push(s.last()) =~= s);
    } else {
        assert(s.filter(pred) =~= s);
    }
}

pub proof fn lemma_filter_ordered<A>(s: Seq<A>, pred: spec_fn(A) -> bool, r: spec_fn(A, A) -> bool)
    requires
        ordered(s, r),
    ensures
        ordered(s.filter(pred), r),
{
    let f = s.filter(pred);
    let idx = lemma_filter_indices(s, pred);
    assert forall|i: int, j: int| 0 <= i < j < f.len() implies #[trigger] r(f[i], f[j]) by {
        assert(idx[i] < idx[j]);
        assert(r(s[idx[i]], s[idx[j]]));
    }
}

pub proof fn lemma_push_ordered<A>(s: Seq<A>, x: A, r: spec_fn(A, A) -> bool)
    requires
        ordered(s, r),
        forall|i: int| 0 <= i < s.len() ==> #[trigger] r(s[i], x),
    ensures
        ordered(s.push(x), r),
{
    let t = s.push(x);
    assert forall|i: int, j: int| 0 <= i < j < t.len() implies #[trigger] r(t[i], t[j]) by {
        if j < s.len() {
            assert(r(s[i], s[j]));
        } else {
            assert(r(s[i], x));
        }
    }
}

} // verus!
