//! Sorting ids and `(rank, id)` pairs.

use vstd::prelude::*;
use vstd::relations::*;
use vstd::seq_lib::*;

verus! {

/// The order of ids.
pub open spec fn by_id() -> spec_fn(i32, i32) -> bool {
    |a: i32, b: i32| a <= b
}

/// The order of pairs: by the first number, then by the second.
pub open spec fn by_rank() -> spec_fn((i32, i32), (i32, i32)) -> bool {
    |a: (i32, i32), b: (i32, i32)| a.0 < b.0 || (a.0 == b.0 && a.1 <= b.1)
}

/// A list in ascending order with the members of `s` is what sorting `s` gives.
proof fn lemma_sorted_is<A>(s: Seq<A>, sorted: Seq<A>, leq: spec_fn(A, A) -> bool)
    requires
        total_ordering(leq),
        sorted_by(sorted, leq),
        sorted.to_multiset() == s.to_multiset(),
    ensures
        sorted == s.sort_by(leq),
{
    s.lemma_sort_by_ensures(leq);
    lemma_sorted_unique(sorted, s.sort_by(leq), leq);
}

/// Two lists have the same members, counted, just when they sort to the same list.
pub proof fn lemma_same_sorted(s: Seq<i32>, t: Seq<i32>)
    ensures
        (s.sort_by(by_id()) == t.sort_by(by_id())) == (s.to_multiset() == t.to_multiset()),
{
    s.lemma_sort_by_ensures(by_id());
    t.lemma_sort_by_ensures(by_id());
    if s.to_multiset() == t.to_multiset() {
        lemma_sorted_unique(s.sort_by(by_id()), t.sort_by(by_id()), by_id());
    }
}

/// The ids in ascending order.
pub fn sorted_ids(v: &Vec<i32>) -> (r: Vec<i32>)
    ensures
        r@ == v@.sort_by(by_id()),
{
    broadcast use group_to_multiset_ensures;

    let mut out: Vec<i32> = Vec::new();
    let mut i: usize = 0;
    assert(v@.take(0) =~= out@);
    while i < v.len()
        invariant
            i <= v@.len(),
            sorted_by(out@, by_id()),
            out@.to_multiset() == v@.take(i as int).to_multiset(),
        decreases v@.len() - i,
    {
        let x: i32 = v[i];
        let mut p: usize = 0;
        while p < out.len() && out[p] <= x
            invariant
                p <= out@.len(),
                forall|j: int| 0 <= j < p ==> #[trigger] out@[j] <= x,
            decreases out@.len() - p,
        {
            p = p + 1;
        }
        let ghost before = out@;
        out.insert(p, x);
        proof {
            assert(v@.take(i + 1) =~= v@.take(i as int).push(x));
            to_multiset_build(v@.take(i as int), x);
            to_multiset_insert(before, p as int, x);
            assert forall|j: int, k: int| 0 <= j < k < out@.len() implies #[trigger] by_id()(
                out@[j],
                out@[k],
            ) by {
                let jj = if j < p { j } else { j - 1 };
                let kk = if k < p { k } else { k - 1 };
                if j != p && k != p {
                    assert(by_id()(before[jj], before[kk]));
                } else if j == p {
                    assert(by_id()(before[p as int], before[kk]) || kk == p);
                }
            }
        }
        i = i + 1;
    }
    proof {
        assert(v@.take(i as int) =~= v@);
        lemma_sorted_is(v@, out@, by_id());
    }
    out
}

/// The pairs in ascending order.
pub fn sorted_pairs(v: &Vec<(i32, i32)>) -> (r: Vec<(i32, i32)>)
    ensures
        r@ == v@.sort_by(by_rank()),
{
    broadcast use group_to_multiset_ensures;

    let mut out: Vec<(i32, i32)> = Vec::new();
    let mut i: usize = 0;
    assert(v@.take(0) =~= out@);
    while i < v.len()
        invariant
            i <= v@.len(),
            sorted_by(out@, by_rank()),
            out@.to_multiset() == v@.take(i as int).to_multiset(),
        decreases v@.len() - i,
    {
        let x: (i32, i32) = v[i];
        let mut p: usize = 0;
        while p < out.len() && (out[p].0 < x.0 || (out[p].0 == x.0 && out[p].1 <= x.1))
            invariant
                p <= out@.len(),
                forall|j: int| 0 <= j < p ==> by_rank()(#[trigger] out@[j], x),
            decreases out@.len() - p,
        {
            p = p + 1;
        }
        let ghost before = out@;
        out.insert(p, x);
        proof {
            assert(v@.take(i + 1) =~= v@.take(i as int).push(x));
            to_multiset_build(v@.take(i as int), x);
            to_multiset_insert(before, p as int, x);
            assert forall|j: int, k: int| 0 <= j < k < out@.len() implies #[trigger] by_rank()(
                out@[j],
                out@[k],
            ) by {
                let jj = if j < p { j } else { j - 1 };
                let kk = if k < p { k } else { k - 1 };
                if j != p && k != p {
                    assert(by_rank()(before[jj], before[kk]));
                } else if j == p {
                    assert(by_rank()(before[p as int], before[kk]) || kk == p);
                } else {
                    assert(by_rank()(before[j], x));
                }
            }
        }
        i = i + 1;
    }
    proof {
        assert(v@.take(i as int) =~= v@);
        lemma_sorted_is(v@, out@, by_rank());
    }
    out
}

/// What sorting pairs gives: the same pairs, in ascending order.
pub proof fn lemma_sorted_pairs(s: Seq<(i32, i32)>)
    ensures
        sorted_by(s.sort_by(by_rank()), by_rank()),
        s.sort_by(by_rank()).to_multiset() == s.to_multiset(),
        s.sort_by(by_rank()).len() == s.len(),
        forall|x: (i32, i32)| #[trigger] s.sort_by(by_rank()).contains(x) <==> s.contains(x),
{
    broadcast use group_to_multiset_ensures;

    s.lemma_sort_by_ensures(by_rank());
    let t = s.sort_by(by_rank());
    assert(t.to_multiset().len() == s.to_multiset().len());
    assert forall|x: (i32, i32)| #[trigger] t.contains(x) <==> s.contains(x) by {
        assert(t.to_multiset().count(x) == s.to_multiset().count(x));
    }
}

/// A pair behind all others stays behind when the list is sorted.
pub proof fn lemma_sort_push(s: Seq<(i32, i32)>, k: (i32, i32))
    requires
        forall|i: int| 0 <= i < s.len() ==> by_rank()(#[trigger] s[i], k),
    ensures
        s.push(k).sort_by(by_rank()) == s.sort_by(by_rank()).push(k),
{
    lemma_sorted_pairs(s);
    let sorted = s.sort_by(by_rank());
    let t = sorted.push(k);
    to_multiset_build(sorted, k);
    to_multiset_build(s, k);
    assert forall|i: int, j: int| 0 <= i < j < t.len() implies #[trigger] by_rank()(t[i], t[j]) by {
        if j < sorted.len() {
            assert(by_rank()(sorted[i], sorted[j]));
        } else {
            assert(sorted.contains(sorted[i]));
            let m = s.index_of(sorted[i]);
            assert(by_rank()(s[m], k));
        }
    }
    lemma_sorted_is(s.push(k), t, by_rank());
}

/// A list without repetitions that is in order and has the members of `s`, which has
/// none either, is what sorting `s` gives.
pub proof fn lemma_sorted_members(s: Seq<(i32, i32)>, t: Seq<(i32, i32)>)
    requires
        s.no_duplicates(),
        t.no_duplicates(),
        sorted_by(t, by_rank()),
        forall|x: (i32, i32)| #[trigger] s.contains(x) <==> t.contains(x),
    ensures
        s.sort_by(by_rank()) == t,
{
    broadcast use group_to_multiset_ensures;

    s.lemma_multiset_has_no_duplicates();
    t.lemma_multiset_has_no_duplicates();
    assert forall|x: (i32, i32)| #[trigger]
        s.to_multiset().count(x) == t.to_multiset().count(x) by {
        assert(s.contains(x) <==> t.contains(x));
        assert(s.contains(x) <==> s.to_multiset().count(x) > 0);
        assert(t.contains(x) <==> t.to_multiset().count(x) > 0);
        if s.contains(x) {
            assert(s.to_multiset().contains(x));
            assert(t.to_multiset().contains(x));
        }
    }
    assert(s.to_multiset() =~= t.to_multiset());
    lemma_sorted_is(s, t, by_rank());
}

/// Sorting puts ids in ascending order and keeps exactly the ids that were there.
pub proof fn law_ids_sorted(s: Seq<i32>)
    ensures
        ({
            let t = s.sort_by(by_id());
            &&& forall|i: int, j: int| 0 <= i < j < t.len() ==> #[trigger] t[i] <= #[trigger] t[j]
            &&& t.to_multiset() == s.to_multiset()
        }),
{
    s.lemma_sort_by_ensures(by_id());
    let t = s.sort_by(by_id());
    assert forall|i: int, j: int| 0 <= i < j < t.len() implies #[trigger] t[i] <= #[trigger] t[
        j
    ] by {
        assert(by_id()(t[i], t[j]));
    }
}

/// Sorting puts pairs in ascending order, by the first number and, where that is the
/// same, by the second, and keeps exactly the pairs that were there.
pub proof fn law_pairs_sorted(s: Seq<(i32, i32)>)
    ensures
        ({
            let t = s.sort_by(by_rank());
            &&& forall|i: int, j: int|
                0 <= i < j < t.len() ==> (#[trigger] t[i]).0 < (#[trigger] t[j]).0 || t[i].0
                    == t[j].0 && t[i].1 <= t[j].1
            &&& t.to_multiset() == s.to_multiset()
        }),
{
    lemma_sorted_pairs(s);
    let t = s.sort_by(by_rank());
    assert forall|i: int, j: int| 0 <= i < j < t.len() implies (#[trigger] t[i]).0 < (
    #[trigger] t[j]).0 || t[i].0 == t[j].0 && t[i].1 <= t[j].1 by {
        assert(by_rank()(t[i], t[j]));
    }
}

} // verus!
