//! Tables: rows in ascending order of their ids, with the next id to give out.

use vstd::prelude::*;

verus! {

/// A row of a table, known by its id.
pub trait Row: View + Sized {
    spec fn id_of(v: Self::V) -> i32;

    fn row_id(&self) -> (r: i32)
        ensures
            r == Self::id_of(self@),
    ;
}

/// A table of rows.
#[derive(Debug)]
pub struct Table<R> {
    pub rows: Vec<R>,
    pub next_id: i32,
}

/// What a table holds.
pub struct TableView<V> {
    pub rows: Seq<V>,
    pub next_id: i32,
}

/// What a table without rows holds: ids are given out from one.
pub open spec fn empty_table<V>() -> TableView<V> {
    TableView { rows: Seq::empty(), next_id: 1 }
}

/// What each item of a sequence holds.
pub open spec fn views<T: View>(s: Seq<T>) -> Seq<T::V> {
    s.map_values(|t: T| t@)
}

impl<R: View> View for Table<R> {
    type V = TableView<R::V>;

    open spec fn view(&self) -> TableView<R::V> {
        TableView { rows: views(self.rows@), next_id: self.next_id }
    }
}

/// The ids of the rows are strictly ascending.
pub open spec fn ids_ascend<R: Row>(rows: Seq<R::V>) -> bool {
    forall|i: int, j: int|
        0 <= i < j < rows.len() ==> R::id_of(#[trigger] rows[i]) < R::id_of(#[trigger] rows[j])
}

/// A well-formed table: ids ascend, and the next id is above all of them.
pub open spec fn table_wf<R: Row>(t: TableView<R::V>) -> bool {
    &&& ids_ascend::<R>(t.rows)
    &&& forall|i: int| 0 <= i < t.rows.len() ==> R::id_of(#[trigger] t.rows[i]) < t.next_id
}

/// `i` is the first place whose row meets `cond`.
pub open spec fn first_at<V>(rows: Seq<V>, cond: spec_fn(V) -> bool, i: int) -> bool {
    &&& 0 <= i < rows.len()
    &&& cond(rows[i])
    &&& forall|j: int| 0 <= j < i ==> !cond(#[trigger] rows[j])
}

/// The first row that meets `cond`.
pub open spec fn first_match<V>(rows: Seq<V>, cond: spec_fn(V) -> bool) -> Option<int> {
    if exists|i: int| first_at(rows, cond, i) {
        Some(choose|i: int| first_at(rows, cond, i))
    } else {
        None
    }
}

/// Whether some row meets `cond`.
pub open spec fn any_match<V>(rows: Seq<V>, cond: spec_fn(V) -> bool) -> bool {
    exists|i: int| 0 <= i < rows.len() && cond(#[trigger] rows[i])
}

/// The row has the given id.
pub open spec fn has_id<R: Row>(id: i32) -> spec_fn(R::V) -> bool {
    |v: R::V| R::id_of(v) == id
}

/// The place of the row with the given id.
pub open spec fn position<R: Row>(rows: Seq<R::V>, id: i32) -> Option<int> {
    first_match(rows, has_id::<R>(id))
}

/// The row with the given id.
pub open spec fn lookup<R: Row>(rows: Seq<R::V>, id: i32) -> Option<R::V> {
    match position::<R>(rows, id) {
        Some(i) => Some(rows[i]),
        None => None,
    }
}

/// `rows` with `f` applied to each row that meets `cond`.
pub open spec fn update_where<V>(
    rows: Seq<V>,
    cond: spec_fn(V) -> bool,
    f: spec_fn(V) -> V,
) -> Seq<V> {
    rows.map_values(
        |v: V|
            if cond(v) {
                f(v)
            } else {
                v
            },
    )
}

/// The last row that meets `cond`.
pub open spec fn last_match<V>(rows: Seq<V>, cond: spec_fn(V) -> bool) -> Option<V> {
    let found = rows.filter(cond);
    if found.len() == 0 {
        None
    } else {
        Some(found.last())
    }
}

/// How many rows meet `cond`.
pub open spec fn count_where<V>(rows: Seq<V>, cond: spec_fn(V) -> bool) -> nat {
    rows.filter(cond).len()
}

/// The table with one more row, which takes the next id.
pub open spec fn with_row<V>(t: TableView<V>, v: V) -> TableView<V> {
    TableView { rows: t.rows.push(v), next_id: (t.next_id + 1) as i32 }
}

/// The table with other rows.
pub open spec fn with_rows<V>(t: TableView<V>, rows: Seq<V>) -> TableView<V> {
    TableView { rows, next_id: t.next_id }
}

proof fn lemma_first_exists<V>(rows: Seq<V>, cond: spec_fn(V) -> bool, i: int)
    requires
        0 <= i < rows.len(),
        cond(rows[i]),
    ensures
        exists|k: int| first_at(rows, cond, k),
    decreases i,
{
    if exists|j: int| 0 <= j < i && cond(#[trigger] rows[j]) {
        let j = choose|j: int| 0 <= j < i && cond(#[trigger] rows[j]);
        lemma_first_exists(rows, cond, j);
    } else {
        assert(first_at(rows, cond, i));
    }
}

/// `first_match` finds the first match, and finds one whenever there is one.
pub proof fn lemma_first_match<V>(rows: Seq<V>, cond: spec_fn(V) -> bool)
    ensures
        match first_match(rows, cond) {
            Some(i) => first_at(rows, cond, i),
            None => forall|i: int| 0 <= i < rows.len() ==> !cond(#[trigger] rows[i]),
        },
        first_match(rows, cond) is Some <==> any_match(rows, cond),
{
    assert forall|i: int| 0 <= i < rows.len() && cond(#[trigger] rows[i]) implies exists|k: int|
        first_at(rows, cond, k) by {
        lemma_first_exists(rows, cond, i);
    }
}

/// A place that is first is the one `first_match` gives.
pub proof fn lemma_first_is<V>(rows: Seq<V>, cond: spec_fn(V) -> bool, i: int)
    requires
        first_at(rows, cond, i),
    ensures
        first_match(rows, cond) == Some(i),
{
    let k = choose|k: int| first_at(rows, cond, k);
    assert(first_at(rows, cond, k));
}

/// In a table with ascending ids, the row at a place is the one found by its id.
pub proof fn lemma_lookup_at<R: Row>(rows: Seq<R::V>, i: int)
    requires
        ids_ascend::<R>(rows),
        0 <= i < rows.len(),
    ensures
        position::<R>(rows, R::id_of(rows[i])) == Some(i),
        lookup::<R>(rows, R::id_of(rows[i])) == Some(rows[i]),
{
    lemma_first_is(rows, has_id::<R>(R::id_of(rows[i])), i);
}

/// What the lookup of an id gives.
pub proof fn lemma_lookup<R: Row>(rows: Seq<R::V>, id: i32)
    ensures
        match position::<R>(rows, id) {
            Some(i) => 0 <= i < rows.len() && R::id_of(rows[i]) == id && lookup::<R>(rows, id)
                == Some(rows[i]),
            None => lookup::<R>(rows, id) is None && forall|i: int|
                0 <= i < rows.len() ==> R::id_of(#[trigger] rows[i]) != id,
        },
{
    lemma_first_match(rows, has_id::<R>(id));
}

/// A sequence in the opposite order.
pub fn reversed<T>(v: Vec<T>) -> (r: Vec<T>)
    ensures
        r@ == v@.reverse(),
{
    let ghost all = v@;
    let mut from = v;
    let mut out: Vec<T> = Vec::new();
    while from.len() > 0
        invariant
            from@.len() + out@.len() == all.len(),
            from@ == all.take(from@.len() as int),
            forall|i: int| 0 <= i < out@.len() ==> out@[i] == all[all.len() - 1 - i],
        decreases from@.len(),
    {
        let ghost n = from@.len() as int;
        if let Some(x) = from.pop() {
            assert(x == all[n - 1]);
            assert(from@ =~= all.take(n - 1));
            out.push(x);
        }
    }
    assert(out@ =~= all.reverse());
    out
}

/// Counting one row more.
pub proof fn lemma_count_step<V>(rows: Seq<V>, cond: spec_fn(V) -> bool, i: int)
    requires
        0 <= i < rows.len(),
    ensures
        rows.take(i + 1).filter(cond) == (if cond(rows[i]) {
            rows.take(i).filter(cond).push(rows[i])
        } else {
            rows.take(i).filter(cond)
        }),
        count_where(rows.take(i + 1), cond) == count_where(rows.take(i), cond) + (if cond(rows[i]) {
            1nat
        } else {
            0nat
        }),
{
    reveal(Seq::filter);
    assert(rows.take(i + 1).drop_last() =~= rows.take(i));
}

pub proof fn lemma_count_bound<V>(rows: Seq<V>, cond: spec_fn(V) -> bool)
    ensures
        count_where(rows, cond) <= rows.len(),
    decreases rows.len(),
{
    reveal(Seq::filter);
    if rows.len() > 0 {
        lemma_count_bound(rows.drop_last(), cond);
    }
}

/// A table with ascending ids has no more rows than there are ids.
pub proof fn lemma_row_count<R: Row>(rows: Seq<R::V>)
    requires
        ids_ascend::<R>(rows),
    ensures
        rows.len() <= 0x1_0000_0000,
        forall|i: int| 0 <= i < rows.len() ==> R::id_of(#[trigger] rows[i]) >= i32::MIN + i,
    decreases rows.len(),
{
    if rows.len() > 0 {
        let front = rows.drop_last();
        assert(ids_ascend::<R>(front)) by {
            assert forall|i: int, j: int| 0 <= i < j < front.len() implies R::id_of(
                #[trigger] front[i],
            ) < R::id_of(#[trigger] front[j]) by {
                assert(front[i] == rows[i] && front[j] == rows[j]);
            }
        }
        lemma_row_count::<R>(front);
        let n = rows.len() - 1;
        assert forall|i: int| 0 <= i < rows.len() implies R::id_of(#[trigger] rows[i]) >= i32::MIN
            + i by {
            if i < n {
                assert(front[i] == rows[i]);
            } else if n > 0 {
                assert(front[n - 1] == rows[n - 1]);
                assert(R::id_of(rows[n - 1]) < R::id_of(rows[n]));
            }
        }
        assert(R::id_of(rows[n]) >= i32::MIN + n);
    }
}

/// An update that keeps ids keeps a table well-formed.
pub proof fn lemma_update_keeps_ids<R: Row>(
    rows: Seq<R::V>,
    cond: spec_fn(R::V) -> bool,
    f: spec_fn(R::V) -> R::V,
)
    requires
        forall|v: R::V| R::id_of(#[trigger] f(v)) == R::id_of(v),
        ids_ascend::<R>(rows),
    ensures
        ids_ascend::<R>(update_where(rows, cond, f)),
{
    let out = update_where(rows, cond, f);
    assert forall|i: int| 0 <= i < rows.len() implies R::id_of(#[trigger] out[i]) == R::id_of(
        rows[i],
    ) by {
        assert(R::id_of(f(rows[i])) == R::id_of(rows[i]));
    }
    assert forall|i: int, j: int| 0 <= i < j < out.len() implies R::id_of(#[trigger] out[i])
        < R::id_of(#[trigger] out[j]) by {
        assert(R::id_of(rows[i]) < R::id_of(rows[j]));
    }
}

impl<R: Row> Table<R> {
    /// A table without rows.
    pub fn new() -> (r: Self)
        ensures
            r@ == empty_table::<R::V>(),
            r.wf(),
    {
        let r = Table { rows: Vec::new(), next_id: 1 };
        assert(r@.rows =~= Seq::<R::V>::empty());
        r
    }

    /// Ids ascend, and the next id is above all of them.
    pub open spec fn wf(&self) -> bool {
        table_wf::<R>(self@)
    }

    /// The place of the row with the given id.
    pub fn find(&self, id: i32) -> (r: Option<usize>)
        ensures
            match r {
                Some(i) => position::<R>(self@.rows, id) == Some(i as int) && i < self.rows@.len()
                    && R::id_of(self@.rows[i as int]) == id,
                None => position::<R>(self@.rows, id) is None,
            },
    {
        let ghost rows = self@.rows;
        let ghost cond = has_id::<R>(id);
        let mut i: usize = 0;
        while i < self.rows.len()
            invariant
                i <= self.rows@.len(),
                rows == self@.rows,
                cond == has_id::<R>(id),
                forall|j: int| 0 <= j < i ==> R::id_of(#[trigger] rows[j]) != id,
            decreases self.rows@.len() - i,
        {
            if self.rows[i].row_id() == id {
                proof {
                    assert(rows[i as int] == self.rows@[i as int]@);
                    lemma_first_is(rows, cond, i as int);
                }
                return Some(i);
            }
            assert(rows[i as int] == self.rows@[i as int]@);
            i = i + 1;
        }
        proof {
            lemma_first_match(rows, cond);
        }
        None
    }

    /// Adds a row, which carries the next id.
    pub fn insert(&mut self, row: R)
        requires
            old(self).wf(),
            R::id_of(row@) == old(self).next_id,
            old(self).next_id < i32::MAX,
        ensures
            final(self)@ == with_row(old(self)@, row@),
            final(self).wf(),
            final(self).rows@ == old(self).rows@.push(row),
    {
        let ghost before = self@.rows;
        self.rows.push(row);
        self.next_id = self.next_id + 1;
        assert(self@.rows =~= before.push(row@));
        proof {
            let rows = self@.rows;
            assert forall|i: int, j: int| 0 <= i < j < rows.len() implies R::id_of(
                #[trigger] rows[i],
            ) < R::id_of(#[trigger] rows[j]) by {
                assert(rows[i] == before[i]);
                if j < before.len() {
                    assert(rows[j] == before[j]);
                }
            }
            assert forall|i: int| 0 <= i < rows.len() implies R::id_of(#[trigger] rows[i])
                < self.next_id by {
                if i < before.len() {
                    assert(rows[i] == before[i]);
                }
            }
        }
    }
}

impl<R: Row> Table<R> {
    /// Replaces the row at a place by one with the same id.
    pub fn set(&mut self, i: usize, row: R)
        requires
            old(self).wf(),
            i < old(self).rows@.len(),
            R::id_of(row@) == R::id_of(old(self)@.rows[i as int]),
        ensures
            final(self)@ == with_rows(old(self)@, old(self)@.rows.update(i as int, row@)),
            final(self).wf(),
    {
        let ghost before = self@;
        self.rows[i] = row;
        proof {
            assert(self@.rows =~= before.rows.update(i as int, row@));
            lemma_update_wf::<R>(before, i as int, row@);
        }
    }
}

/// Replacing a row by one with the same id keeps a table well-formed.
pub proof fn lemma_update_wf<R: Row>(t: TableView<R::V>, i: int, v: R::V)
    requires
        table_wf::<R>(t),
        0 <= i < t.rows.len(),
        R::id_of(v) == R::id_of(t.rows[i]),
    ensures
        table_wf::<R>(with_rows(t, t.rows.update(i, v))),
{
    let rows = t.rows.update(i, v);
    assert forall|j: int| 0 <= j < rows.len() implies R::id_of(#[trigger] rows[j]) == R::id_of(
        t.rows[j],
    ) by {
    }
    assert forall|j: int, k: int| 0 <= j < k < rows.len() implies R::id_of(#[trigger] rows[j])
        < R::id_of(#[trigger] rows[k]) by {
        assert(R::id_of(t.rows[j]) < R::id_of(t.rows[k]));
    }
}

/// Whatever a filter keeps is a row that meets the condition.
pub proof fn lemma_filter_from<V>(rows: Seq<V>, cond: spec_fn(V) -> bool, j: int)
    requires
        0 <= j < rows.filter(cond).len(),
    ensures
        cond(rows.filter(cond)[j]),
        exists|i: int| 0 <= i < rows.len() && #[trigger] rows[i] == rows.filter(cond)[j],
    decreases rows.len(),
{
    reveal(Seq::filter);
    let front = rows.drop_last();
    if j < front.filter(cond).len() {
        lemma_filter_from(front, cond, j);
        let i = choose|i: int| 0 <= i < front.len() && #[trigger] front[i] == front.filter(cond)[j];
        assert(rows[i] == front[i]);
    } else {
        assert(rows[rows.len() - 1] == rows.filter(cond)[j]);
    }
}

/// Rows with the ids of others in ascending order have their ids in ascending order.
pub proof fn lemma_ids_kept<R: Row>(a: Seq<R::V>, b: Seq<R::V>)
    requires
        ids_ascend::<R>(a),
        b.len() == a.len(),
        forall|i: int| 0 <= i < a.len() ==> R::id_of(#[trigger] b[i]) == R::id_of(a[i]),
    ensures
        ids_ascend::<R>(b),
{
    assert forall|i: int, j: int| 0 <= i < j < b.len() implies R::id_of(#[trigger] b[i])
        < R::id_of(#[trigger] b[j]) by {
        assert(R::id_of(a[i]) < R::id_of(a[j]));
    }
}

/// A filter keeps ids in ascending order.
pub proof fn lemma_filter_ids_ascend<R: Row>(rows: Seq<R::V>, cond: spec_fn(R::V) -> bool)
    requires
        ids_ascend::<R>(rows),
    ensures
        ids_ascend::<R>(rows.filter(cond)),
        forall|i: int|
            0 <= i < rows.filter(cond).len() && rows.len() > 0 ==> R::id_of(
                #[trigger] rows.filter(cond)[i],
            ) <= R::id_of(rows.last()),
    decreases rows.len(),
{
    reveal(Seq::filter);
    if rows.len() > 0 {
        let front = rows.drop_last();
        assert(ids_ascend::<R>(front)) by {
            assert forall|i: int, j: int| 0 <= i < j < front.len() implies R::id_of(
                #[trigger] front[i],
            ) < R::id_of(#[trigger] front[j]) by {
                assert(R::id_of(rows[i]) < R::id_of(rows[j]));
            }
        }
        lemma_filter_ids_ascend::<R>(front, cond);
        let kept = front.filter(cond);
        let all = rows.filter(cond);
        assert forall|i: int| 0 <= i < kept.len() implies R::id_of(#[trigger] kept[i]) < R::id_of(
            rows.last(),
        ) by {
            assert(front.len() > 0);
            assert(R::id_of(rows[front.len() - 1]) < R::id_of(rows[rows.len() - 1]));
        }
        assert forall|i: int, j: int| 0 <= i < j < all.len() implies R::id_of(#[trigger] all[i])
            < R::id_of(#[trigger] all[j]) by {
            if j < kept.len() {
                assert(R::id_of(kept[i]) < R::id_of(kept[j]));
            } else {
                assert(all[i] == kept[i]);
            }
        }
    }
}

/// A filter keeps the order of what it keeps.
pub proof fn lemma_filter_order<V>(rows: Seq<V>, cond: spec_fn(V) -> bool, k: int, l: int)
    requires
        0 <= k < l < rows.filter(cond).len(),
    ensures
        exists|i: int, j: int|
            0 <= i < j < rows.len() && #[trigger] rows[i] == rows.filter(cond)[k]
                && #[trigger] rows[j] == rows.filter(cond)[l],
    decreases rows.len(),
{
    reveal(Seq::filter);
    let front = rows.drop_last();
    let kept = front.filter(cond);
    if l < kept.len() {
        lemma_filter_order(front, cond, k, l);
        let (i, j) = choose|i: int, j: int|
            0 <= i < j < front.len() && #[trigger] front[i] == kept[k] && #[trigger] front[j]
                == kept[l];
        assert(rows[i] == rows.filter(cond)[k] && rows[j] == rows.filter(cond)[l]);
    } else {
        lemma_filter_from(front, cond, k);
        let i = choose|i: int| 0 <= i < front.len() && #[trigger] front[i] == kept[k];
        let j = rows.len() - 1;
        assert(rows[i] == rows.filter(cond)[k] && rows[j] == rows.filter(cond)[l]);
    }
}

/// A filter keeps every row that meets the condition, and only those.
pub proof fn lemma_filter_exact<V>(rows: Seq<V>, cond: spec_fn(V) -> bool)
    ensures
        forall|k: int|
            0 <= k < rows.len() && cond(#[trigger] rows[k]) ==> rows.filter(cond).contains(rows[k]),
        forall|j: int| 0 <= j < rows.filter(cond).len() ==> cond(#[trigger] rows.filter(cond)[j]),
{
    assert forall|k: int| 0 <= k < rows.len() && cond(#[trigger] rows[k]) implies rows.filter(
        cond,
    ).contains(rows[k]) by {
        rows.lemma_filter_contains(cond, k);
    }
    assert forall|j: int| 0 <= j < rows.filter(cond).len() implies cond(
        #[trigger] rows.filter(cond)[j],
    ) by {
        lemma_filter_from(rows, cond, j);
    }
}

/// A listing from the last row to the first shows every row that meets the condition.
pub proof fn lemma_listed_back<V, W>(
    rows: Seq<V>,
    cond: spec_fn(V) -> bool,
    f: spec_fn(V) -> W,
)
    ensures
        forall|k: int|
            0 <= k < rows.len() && cond(#[trigger] rows[k]) ==> rows.filter(cond).map_values(
                f,
            ).reverse().contains(f(rows[k])),
{
    let kept = rows.filter(cond);
    let listed = kept.map_values(f).reverse();
    assert forall|k: int| 0 <= k < rows.len() && cond(#[trigger] rows[k]) implies listed.contains(
        f(rows[k]),
    ) by {
        rows.lemma_filter_contains(cond, k);
        let j = choose|j: int| 0 <= j < kept.len() && kept[j] == rows[k];
        assert(listed[kept.len() - 1 - j] == f(rows[k]));
    }
}

} // verus!
