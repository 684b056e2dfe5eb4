//! Folder groups: named, ordered groups of folders. Groups and folders are removed by
//! marking them; a removed row takes part in nothing any more.

use crate::clock::Timestamp;
use crate::entities::{folder, folder_group};
use crate::models::{
    FolderGroup, FolderGroupDetail, FolderGroupDetailView, FolderGroupView, FolderHistoryEntry,
    FolderHistoryEntryView,
};
use crate::order::{
    by_rank, lemma_sort_push, lemma_sorted_members, lemma_sorted_pairs, sorted_pairs,
};
use crate::table::{
    any_match, count_where, ids_ascend, lemma_count_step, lemma_filter_from,
    lemma_filter_ids_ascend, lemma_ids_kept, lemma_lookup, lemma_lookup_at, lemma_update_keeps_ids,
    lookup, position, table_wf, update_where, views, with_row, with_rows, Table, TableView,
};
use vstd::prelude::*;
use vstd::relations::*;

verus! {

/// A group as its readers see it.
pub open spec fn group_view(m: folder_group::ModelView) -> FolderGroupView {
    FolderGroupView {
        id: m.id,
        name: m.name,
        sort_order: m.sort_order,
        created_at: m.created_at,
        updated_at: m.updated_at,
    }
}

fn to_model(m: folder_group::Model) -> (r: FolderGroup)
    ensures
        r@ == group_view(m@),
{
    FolderGroup {
        id: m.id,
        name: m.name,
        sort_order: m.sort_order,
        created_at: m.created_at,
        updated_at: m.updated_at,
    }
}

/// A folder as its readers see it.
pub open spec fn folder_view(m: folder::ModelView) -> FolderHistoryEntryView {
    FolderHistoryEntryView {
        id: m.id,
        path: m.path,
        name: m.name,
        last_opened_at: m.last_opened_at,
        group_id: m.group_id,
        sort_order_in_group: m.sort_order_in_group,
        git_branch: m.git_branch,
        is_open: m.is_open,
    }
}

pub fn to_folder_entry(m: folder::Model) -> (r: FolderHistoryEntry)
    ensures
        r@ == folder_view(m@),
{
    FolderHistoryEntry {
        id: m.id,
        path: m.path,
        name: m.name,
        last_opened_at: m.last_opened_at,
        group_id: m.group_id,
        sort_order_in_group: m.sort_order_in_group,
        git_branch: m.git_branch,
        is_open: m.is_open,
    }
}

/// The group was not removed.
pub open spec fn active_group() -> spec_fn(folder_group::ModelView) -> bool {
    |g: folder_group::ModelView| g.deleted_at is None
}

/// The folder is in the group and was not removed.
pub open spec fn folder_in(group_id: i32) -> spec_fn(folder::ModelView) -> bool {
    |f: folder::ModelView| f.group_id == Some(group_id) && f.deleted_at is None
}

/// The place of the group with the given id, unless it was removed.
pub open spec fn group_at(rows: Seq<folder_group::ModelView>, id: i32) -> Option<int> {
    match position::<folder_group::Model>(rows, id) {
        Some(i) => if rows[i].deleted_at is None {
            Some(i)
        } else {
            None
        },
        None => None,
    }
}

fn find_group(groups: &Table<folder_group::Model>, id: i32) -> (r: Option<usize>)
    ensures
        match r {
            Some(i) => group_at(groups@.rows, id) == Some(i as int) && i < groups.rows@.len()
                && groups@.rows[i as int].id == id,
            None => group_at(groups@.rows, id) is None,
        },
{
    match groups.find(id) {
        Some(i) => if groups.rows[i].deleted_at.is_none() {
            Some(i)
        } else {
            None
        },
        None => None,
    }
}

// ---------------------------------------------------------------------------
// Appending
// ---------------------------------------------------------------------------

/// The greatest number of a list.
pub open spec fn greatest(s: Seq<i32>) -> Option<i32>
    decreases s.len(),
{
    if s.len() == 0 {
        None
    } else {
        match greatest(s.drop_last()) {
            Some(m) => if m < s.last() {
                Some(s.last())
            } else {
                Some(m)
            },
            None => Some(s.last()),
        }
    }
}

/// The rank behind all of the ranks: zero when there are none.
pub open spec fn next_rank(s: Seq<i32>) -> int {
    match greatest(s) {
        Some(m) => m + 1,
        None => 0,
    }
}

/// The greatest number is a member and is exceeded by none.
pub proof fn lemma_greatest(s: Seq<i32>)
    ensures
        match greatest(s) {
            Some(m) => s.contains(m) && forall|i: int| 0 <= i < s.len() ==> #[trigger] s[i] <= m,
            None => s.len() == 0,
        },
    decreases s.len(),
{
    if s.len() > 0 {
        let front = s.drop_last();
        lemma_greatest(front);
        let m = greatest(s)->Some_0;
        assert(s[s.len() - 1] == s.last());
        assert forall|i: int| 0 <= i < s.len() implies #[trigger] s[i] <= m by {
            if i < front.len() {
                assert(front[i] == s[i]);
            }
        }
        if greatest(front) is Some && m == greatest(front)->Some_0 {
            let k = front.index_of(m);
            assert(s[k] == m);
        }
    }
}

/// The ranks of the groups that were not removed.
pub open spec fn group_ranks(rows: Seq<folder_group::ModelView>) -> Seq<i32> {
    rows.filter(active_group()).map_values(|g: folder_group::ModelView| g.sort_order)
}

/// The ranks of the folders of a group that were not removed.
pub open spec fn folder_ranks(rows: Seq<folder::ModelView>, group_id: i32) -> Seq<i32> {
    rows.filter(folder_in(group_id)).map_values(|f: folder::ModelView| f.sort_order_in_group)
}

fn next_sort_order(groups: &Table<folder_group::Model>) -> (r: i32)
    requires
        next_rank(group_ranks(groups@.rows)) <= i32::MAX,
    ensures
        r == next_rank(group_ranks(groups@.rows)),
{
    let ghost rows = groups@.rows;
    let ghost cond = active_group();
    let ghost f = |g: folder_group::ModelView| g.sort_order;
    let mut last: Option<i32> = None;
    let mut i: usize = 0;
    proof {
        reveal(Seq::filter);
        assert(group_ranks(rows.take(0)) =~= Seq::empty());
    }
    while i < groups.rows.len()
        invariant
            i <= groups.rows@.len(),
            rows == groups@.rows,
            cond == active_group(),
            f == (|g: folder_group::ModelView| g.sort_order),
            last == greatest(group_ranks(rows.take(i as int))),
        decreases groups.rows@.len() - i,
    {
        proof {
            lemma_count_step(rows, cond, i as int);
            assert(rows[i as int] == groups.rows@[i as int]@);
            let found = rows.take(i as int).filter(cond);
            assert(found.push(rows[i as int]).map_values(f) =~= found.map_values(f).push(
                rows[i as int].sort_order,
            ));
            assert(group_ranks(rows.take(i as int)).push(rows[i as int].sort_order).drop_last()
                =~= group_ranks(rows.take(i as int)));
        }
        if groups.rows[i].deleted_at.is_none() {
            let rank: i32 = groups.rows[i].sort_order;
            last = match last {
                Some(m) => if m < rank {
                    Some(rank)
                } else {
                    Some(m)
                },
                None => Some(rank),
            };
        }
        i = i + 1;
    }
    assert(rows.take(i as int) =~= rows);
    match last {
        Some(m) => m + 1,
        None => 0,
    }
}

/// Returns the next sort order in a group: one past the greatest, zero for an empty
/// group.
pub fn next_folder_sort_order(folders: &Table<folder::Model>, group_id: i32) -> (r: i32)
    requires
        next_rank(folder_ranks(folders@.rows, group_id)) <= i32::MAX,
    ensures
        r == next_rank(folder_ranks(folders@.rows, group_id)),
{
    let ghost rows = folders@.rows;
    let ghost cond = folder_in(group_id);
    let ghost f = |x: folder::ModelView| x.sort_order_in_group;
    let mut last: Option<i32> = None;
    let mut i: usize = 0;
    proof {
        reveal(Seq::filter);
        assert(folder_ranks(rows.take(0), group_id) =~= Seq::empty());
    }
    while i < folders.rows.len()
        invariant
            i <= folders.rows@.len(),
            rows == folders@.rows,
            cond == folder_in(group_id),
            f == (|x: folder::ModelView| x.sort_order_in_group),
            last == greatest(folder_ranks(rows.take(i as int), group_id)),
        decreases folders.rows@.len() - i,
    {
        proof {
            lemma_count_step(rows, cond, i as int);
            assert(rows[i as int] == folders.rows@[i as int]@);
            let found = rows.take(i as int).filter(cond);
            let ranks = folder_ranks(rows.take(i as int), group_id);
            assert(folder_ranks(rows.take(i + 1), group_id) =~= (if cond(rows[i as int]) {
                ranks.push(rows[i as int].sort_order_in_group)
            } else {
                ranks
            }));
            assert(ranks.push(rows[i as int].sort_order_in_group).drop_last() =~= ranks);
        }
        if is_folder_in(&folders.rows[i], group_id) {
            let rank: i32 = folders.rows[i].sort_order_in_group;
            last = match last {
                Some(m) => if m < rank {
                    Some(rank)
                } else {
                    Some(m)
                },
                None => Some(rank),
            };
        }
        i = i + 1;
    }
    assert(rows.take(i as int) =~= rows);
    match last {
        Some(m) => m + 1,
        None => 0,
    }
}

fn is_folder_in(f: &folder::Model, group_id: i32) -> (r: bool)
    ensures
        r == folder_in(group_id)(f@),
{
    let mine: bool = match f.group_id {
        Some(g) => g == group_id,
        None => false,
    };
    mine && f.deleted_at.is_none()
}

/// A new group, behind all others.
pub open spec fn new_group(
    t: TableView<folder_group::ModelView>,
    name: Seq<char>,
    now: Timestamp,
) -> folder_group::ModelView {
    folder_group::ModelView {
        id: t.next_id,
        name,
        sort_order: next_rank(group_ranks(t.rows)) as i32,
        created_at: now,
        updated_at: now,
        deleted_at: None,
    }
}

/// Inserts a new group with the given name, at the end of the current list.
pub fn create_group(groups: &mut Table<folder_group::Model>, name: &str, now: Timestamp) -> (r:
    FolderGroup)
    requires
        old(groups).wf(),
        old(groups).next_id < i32::MAX,
        next_rank(group_ranks(old(groups)@.rows)) <= i32::MAX,
    ensures
        final(groups)@ == with_row(old(groups)@, new_group(old(groups)@, name@, now)),
        r@ == group_view(new_group(old(groups)@, name@, now)),
        final(groups).wf(),
{
    proof {
        lemma_greatest(group_ranks(groups@.rows));
    }
    let row = folder_group::Model {
        id: groups.next_id,
        name: name.to_owned(),
        sort_order: next_sort_order(groups),
        created_at: now,
        updated_at: now,
        deleted_at: None,
    };
    let copy = row.clone();
    groups.insert(row);
    to_model(copy)
}

// ---------------------------------------------------------------------------
// Renaming and removing
// ---------------------------------------------------------------------------

/// The groups after one was renamed; unchanged when it is missing or removed.
pub open spec fn renamed(
    t: TableView<folder_group::ModelView>,
    group_id: i32,
    name: Seq<char>,
    now: Timestamp,
) -> (TableView<folder_group::ModelView>, Option<FolderGroupView>) {
    match group_at(t.rows, group_id) {
        Some(i) => {
            let row = folder_group::ModelView { name, updated_at: now, ..t.rows[i] };
            (with_rows(t, t.rows.update(i, row)), Some(group_view(row)))
        },
        None => (t, None),
    }
}

/// Rename a group by id. Nothing happens if the group is missing or removed.
pub fn rename_group(
    groups: &mut Table<folder_group::Model>,
    group_id: i32,
    name: &str,
    now: Timestamp,
) -> (r: Option<FolderGroup>)
    requires
        old(groups).wf(),
    ensures
        final(groups)@ == renamed(old(groups)@, group_id, name@, now).0,
        match r {
            Some(g) => renamed(old(groups)@, group_id, name@, now).1 == Some(g@),
            None => renamed(old(groups)@, group_id, name@, now).1 is None,
        },
        final(groups).wf(),
{
    match find_group(groups, group_id) {
        None => None,
        Some(i) => {
            let mut row = groups.rows[i].clone();
            row.name = name.to_owned();
            row.updated_at = now;
            let copy = row.clone();
            groups.set(i, row);
            Some(to_model(copy))
        },
    }
}

/// The groups after one was marked removed.
pub open spec fn group_removed(
    t: TableView<folder_group::ModelView>,
    i: int,
    now: Timestamp,
) -> TableView<folder_group::ModelView> {
    with_rows(
        t,
        t.rows.update(
            i,
            folder_group::ModelView { deleted_at: Some(now), updated_at: now, ..t.rows[i] },
        ),
    )
}

/// Removing a folder: it is marked and closed.
pub open spec fn removing(now: Timestamp) -> spec_fn(folder::ModelView) -> folder::ModelView {
    |f: folder::ModelView|
        folder::ModelView { deleted_at: Some(now), updated_at: now, is_open: false, ..f }
}

fn mark_group_removed(groups: &mut Table<folder_group::Model>, i: usize, now: Timestamp)
    requires
        old(groups).wf(),
        i < old(groups).rows@.len(),
    ensures
        final(groups)@ == group_removed(old(groups)@, i as int, now),
        final(groups).wf(),
{
    let mut row = groups.rows[i].clone();
    row.deleted_at = Some(now);
    row.updated_at = now;
    groups.set(i, row);
}

/// The groups after one was removed because no folder is left in it.
pub open spec fn pruned(
    t: TableView<folder_group::ModelView>,
    folders: Seq<folder::ModelView>,
    group_id: i32,
    now: Timestamp,
) -> TableView<folder_group::ModelView> {
    if any_match(folders, folder_in(group_id)) {
        t
    } else {
        match group_at(t.rows, group_id) {
            Some(i) => group_removed(t, i, now),
            None => t,
        }
    }
}

/// Remove a group if no folder that was not removed is left in it.
pub fn remove_group_if_empty(
    groups: &mut Table<folder_group::Model>,
    folders: &Table<folder::Model>,
    group_id: i32,
    now: Timestamp,
)
    requires
        old(groups).wf(),
    ensures
        final(groups)@ == pruned(old(groups)@, folders@.rows, group_id, now),
        final(groups).wf(),
{
    let ghost rows = folders@.rows;
    let mut i: usize = 0;
    while i < folders.rows.len()
        invariant
            i <= folders.rows@.len(),
            rows == folders@.rows,
            groups.wf(),
            groups@ == old(groups)@,
            forall|j: int| 0 <= j < i ==> !folder_in(group_id)(#[trigger] rows[j]),
        decreases folders.rows@.len() - i,
    {
        assert(rows[i as int] == folders.rows@[i as int]@);
        if is_folder_in(&folders.rows[i], group_id) {
            assert(folder_in(group_id)(rows[i as int]));
            return ;
        }
        i = i + 1;
    }
    if let Some(g) = find_group(groups, group_id) {
        mark_group_removed(groups, g, now);
    }
}

/// The groups, the folders and the number of folders removed, after a group was
/// removed with its folders. Nothing happens when it is missing or removed already.
pub open spec fn removed_with_folders(
    groups: TableView<folder_group::ModelView>,
    folders: TableView<folder::ModelView>,
    group_id: i32,
    now: Timestamp,
) -> (TableView<folder_group::ModelView>, TableView<folder::ModelView>, nat) {
    match group_at(groups.rows, group_id) {
        Some(i) => (
            group_removed(groups, i, now),
            with_rows(folders, update_where(folders.rows, folder_in(group_id), removing(now))),
            count_where(folders.rows, folder_in(group_id)),
        ),
        None => (groups, folders, 0),
    }
}

/// Remove a group and all its folders. Returns how many folders were removed.
pub fn remove_group(
    groups: &mut Table<folder_group::Model>,
    folders: &mut Table<folder::Model>,
    group_id: i32,
    now: Timestamp,
) -> (r: u64)
    requires
        old(groups).wf(),
        old(folders).wf(),
    ensures
        (final(groups)@, final(folders)@, r as nat) == removed_with_folders(
            old(groups)@,
            old(folders)@,
            group_id,
            now,
        ),
        final(groups).wf(),
        final(folders).wf(),
{
    match find_group(groups, group_id) {
        None => 0,
        Some(g) => {
            let ghost before = folders@;
            let ghost cond = folder_in(group_id);
            let ghost done = update_where(before.rows, cond, removing(now));
            let mut n: u64 = 0;
            let mut i: usize = 0;
            proof {
                reveal(Seq::filter);
            }
            while i < folders.rows.len()
                invariant
                    i <= folders.rows@.len() == before.rows.len(),
                    cond == folder_in(group_id),
                    done == update_where(before.rows, cond, removing(now)),
                    folders.next_id == before.next_id,
                    n == count_where(before.rows.take(i as int), cond),
                    n <= i,
                    forall|j: int|
                        0 <= j < before.rows.len() ==> (#[trigger] folders.rows@[j])@ == (if j < i {
                            done[j]
                        } else {
                            before.rows[j]
                        }),
                decreases folders.rows@.len() - i,
            {
                proof {
                    lemma_count_step(before.rows, cond, i as int);
                }
                if is_folder_in(&folders.rows[i], group_id) {
                    let mut row = folders.rows[i].clone();
                    row.deleted_at = Some(now);
                    row.updated_at = now;
                    row.is_open = false;
                    folders.rows[i] = row;
                    n = n + 1;
                }
                i = i + 1;
            }
            proof {
                assert(before.rows.take(i as int) =~= before.rows);
                assert(folders@.rows =~= done);
                lemma_update_keeps_ids::<folder::Model>(before.rows, cond, removing(now));
                assert forall|j: int| 0 <= j < done.len() implies (#[trigger] done[j]).id
                    < before.next_id by {
                    assert(before.rows[j].id < before.next_id);
                }
            }
            mark_group_removed(groups, g, now);
            n
        },
    }
}

// ---------------------------------------------------------------------------
// Reordering
// ---------------------------------------------------------------------------

/// The last place of an id in a list.
pub open spec fn last_place(ids: Seq<i32>, id: i32) -> Option<int>
    decreases ids.len(),
{
    if ids.len() == 0 {
        None
    } else if ids.last() == id {
        Some(ids.len() - 1)
    } else {
        last_place(ids.drop_last(), id)
    }
}

/// Giving each group that was not removed the rank of its place in the list.
pub open spec fn ranking_groups(ids: Seq<i32>, now: Timestamp) -> spec_fn(
    folder_group::ModelView,
) -> folder_group::ModelView {
    |g: folder_group::ModelView|
        match last_place(ids, g.id) {
            Some(p) => if g.deleted_at is None {
                folder_group::ModelView { sort_order: p as i32, updated_at: now, ..g }
            } else {
                g
            },
            None => g,
        }
}

/// Giving each folder of the group the rank of its place in the list.
pub open spec fn ranking_folders(group_id: i32, ids: Seq<i32>, now: Timestamp) -> spec_fn(
    folder::ModelView,
) -> folder::ModelView {
    |f: folder::ModelView|
        match last_place(ids, f.id) {
            Some(p) => if folder_in(group_id)(f) {
                folder::ModelView { sort_order_in_group: p as i32, updated_at: now, ..f }
            } else {
                f
            },
            None => f,
        }
}

/// A place as a rank, as a cast does it.
#[verifier::truncate]
fn rank_at(i: usize) -> (r: i32)
    ensures
        r == i as int as i32,
{
    i as i32
}

/// Apply a caller-supplied ordering to the groups. Only ids in the list are updated;
/// unknown ids are skipped, and of an id that is listed twice the later place counts.
pub fn reorder_groups(
    groups: &mut Table<folder_group::Model>,
    ordered_ids: &Vec<i32>,
    now: Timestamp,
)
    requires
        old(groups).wf(),
    ensures
        final(groups)@ == with_rows(
            old(groups)@,
            old(groups)@.rows.map_values(ranking_groups(ordered_ids@, now)),
        ),
        final(groups).wf(),
{
    let ghost before = groups@;
    let mut k: usize = 0;
    assert(groups@.rows =~= before.rows.map_values(ranking_groups(ordered_ids@.take(0), now)));
    while k < ordered_ids.len()
        invariant
            k <= ordered_ids@.len(),
            groups.wf(),
            table_wf::<folder_group::Model>(before),
            groups.next_id == before.next_id,
            groups@.rows == before.rows.map_values(
                ranking_groups(ordered_ids@.take(k as int), now),
            ),
        decreases ordered_ids@.len() - k,
    {
        let ghost done = ordered_ids@.take(k as int);
        let ghost more = ordered_ids@.take(k + 1);
        let ghost mid = groups@;
        proof {
            assert(more.drop_last() =~= done);
            lemma_lookup::<folder_group::Model>(mid.rows, ordered_ids@[k as int]);
        }
        if let Some(i) = find_group(groups, ordered_ids[k]) {
            let mut row = groups.rows[i].clone();
            row.sort_order = rank_at(k);
            row.updated_at = now;
            groups.set(i, row);
            proof {
                let f = ranking_groups(more, now);
                assert forall|j: int| 0 <= j < before.rows.len() implies #[trigger] groups@.rows[j]
                    == f(before.rows[j]) by {
                    lemma_lookup_at::<folder_group::Model>(before.rows, j);
                    lemma_lookup_at::<folder_group::Model>(mid.rows, j);
                }
            }
        } else {
            proof {
                let f = ranking_groups(more, now);
                assert forall|j: int| 0 <= j < before.rows.len() implies #[trigger] groups@.rows[j]
                    == f(before.rows[j]) by {
                    lemma_lookup_at::<folder_group::Model>(mid.rows, j);
                }
            }
        }
        assert(groups@.rows =~= before.rows.map_values(ranking_groups(more, now)));
        k = k + 1;
    }
    assert(ordered_ids@.take(k as int) =~= ordered_ids@);
}

/// Apply a caller-supplied ordering to the folders of a group.
pub fn reorder_folders_in_group(
    folders: &mut Table<folder::Model>,
    group_id: i32,
    ordered_folder_ids: &Vec<i32>,
    now: Timestamp,
)
    requires
        old(folders).wf(),
    ensures
        final(folders)@ == with_rows(
            old(folders)@,
            old(folders)@.rows.map_values(ranking_folders(group_id, ordered_folder_ids@, now)),
        ),
        final(folders).wf(),
{
    let ghost before = folders@;
    let ghost ids = ordered_folder_ids@;
    let mut k: usize = 0;
    assert(folders@.rows =~= before.rows.map_values(ranking_folders(group_id, ids.take(0), now)));
    while k < ordered_folder_ids.len()
        invariant
            k <= ids.len(),
            ids == ordered_folder_ids@,
            folders.wf(),
            table_wf::<folder::Model>(before),
            folders.next_id == before.next_id,
            folders@.rows == before.rows.map_values(
                ranking_folders(group_id, ids.take(k as int), now),
            ),
        decreases ids.len() - k,
    {
        let ghost done = ids.take(k as int);
        let ghost more = ids.take(k + 1);
        let ghost mid = folders@;
        proof {
            assert(more.drop_last() =~= done);
            lemma_lookup::<folder::Model>(mid.rows, ids[k as int]);
        }
        let found: Option<usize> = match folders.find(ordered_folder_ids[k]) {
            Some(i) => if is_folder_in(&folders.rows[i], group_id) {
                Some(i)
            } else {
                None
            },
            None => None,
        };
        if let Some(i) = found {
            let mut row = folders.rows[i].clone();
            row.sort_order_in_group = rank_at(k);
            row.updated_at = now;
            folders.set(i, row);
            proof {
                let f = ranking_folders(group_id, more, now);
                assert forall|j: int| 0 <= j < before.rows.len() implies #[trigger] folders@.rows[j]
                    == f(before.rows[j]) by {
                    lemma_lookup_at::<folder::Model>(before.rows, j);
                    lemma_lookup_at::<folder::Model>(mid.rows, j);
                }
            }
        } else {
            proof {
                let f = ranking_folders(group_id, more, now);
                assert forall|j: int| 0 <= j < before.rows.len() implies #[trigger] folders@.rows[j]
                    == f(before.rows[j]) by {
                    lemma_lookup_at::<folder::Model>(mid.rows, j);
                }
            }
        }
        assert(folders@.rows =~= before.rows.map_values(ranking_folders(group_id, more, now)));
        k = k + 1;
    }
    assert(ids.take(k as int) =~= ids);
}

// ---------------------------------------------------------------------------
// Listing
// ---------------------------------------------------------------------------

/// The `(sort order, id)` pairs of the groups that were not removed, ascending.
pub open spec fn group_order(rows: Seq<folder_group::ModelView>) -> Seq<(i32, i32)> {
    rows.filter(active_group()).map_values(
        |g: folder_group::ModelView| (g.sort_order, g.id),
    ).sort_by(by_rank())
}

/// The `(sort order, id)` pairs of the folders of a group, ascending.
pub open spec fn folder_order(rows: Seq<folder::ModelView>, group_id: i32) -> Seq<(i32, i32)> {
    rows.filter(folder_in(group_id)).map_values(
        |f: folder::ModelView| (f.sort_order_in_group, f.id),
    ).sort_by(by_rank())
}

/// The folder that a pair names.
pub open spec fn ranked_folder(rows: Seq<folder::ModelView>) -> spec_fn(
    (i32, i32),
) -> FolderHistoryEntryView {
    |k: (i32, i32)| folder_view(lookup::<folder::Model>(rows, k.1)->Some_0)
}

/// The group that a pair names, with its folders in order.
pub open spec fn ranked_group(
    groups: Seq<folder_group::ModelView>,
    folders: Seq<folder::ModelView>,
) -> spec_fn((i32, i32)) -> FolderGroupDetailView {
    |k: (i32, i32)|
        {
            let g = lookup::<folder_group::Model>(groups, k.1)->Some_0;
            FolderGroupDetailView {
                id: g.id,
                name: g.name,
                sort_order: g.sort_order,
                created_at: g.created_at,
                updated_at: g.updated_at,
                folders: folder_order(folders, g.id).map_values(ranked_folder(folders)),
            }
        }
}

proof fn lemma_folder_known(rows: Seq<folder::ModelView>, group_id: i32, i: int)
    requires
        ids_ascend::<folder::Model>(rows),
        0 <= i < folder_order(rows, group_id).len(),
    ensures
        lookup::<folder::Model>(rows, folder_order(rows, group_id)[i].1) is Some,
{
    let found = rows.filter(folder_in(group_id));
    let pairs = found.map_values(|f: folder::ModelView| (f.sort_order_in_group, f.id));
    lemma_sorted_pairs(pairs);
    let k = folder_order(rows, group_id)[i];
    assert(folder_order(rows, group_id).contains(k));
    let j = pairs.index_of(k);
    lemma_filter_from(rows, folder_in(group_id), j);
    let n = choose|n: int| 0 <= n < rows.len() && #[trigger] rows[n] == found[j];
    lemma_lookup_at::<folder::Model>(rows, n);
}

proof fn lemma_group_known(rows: Seq<folder_group::ModelView>, i: int)
    requires
        ids_ascend::<folder_group::Model>(rows),
        0 <= i < group_order(rows).len(),
    ensures
        lookup::<folder_group::Model>(rows, group_order(rows)[i].1) is Some,
{
    let found = rows.filter(active_group());
    let pairs = found.map_values(|g: folder_group::ModelView| (g.sort_order, g.id));
    lemma_sorted_pairs(pairs);
    let k = group_order(rows)[i];
    assert(group_order(rows).contains(k));
    let j = pairs.index_of(k);
    lemma_filter_from(rows, active_group(), j);
    let n = choose|n: int| 0 <= n < rows.len() && #[trigger] rows[n] == found[j];
    lemma_lookup_at::<folder_group::Model>(rows, n);
}

fn ranked_folders(folders: &Table<folder::Model>, group_id: i32) -> (r: Vec<(i32, i32)>)
    ensures
        r@ == folder_order(folders@.rows, group_id),
{
    let ghost rows = folders@.rows;
    let ghost cond = folder_in(group_id);
    let ghost f = |x: folder::ModelView| (x.sort_order_in_group, x.id);
    let mut pairs: Vec<(i32, i32)> = Vec::new();
    let mut i: usize = 0;
    proof {
        reveal(Seq::filter);
        assert(pairs@ =~= rows.take(0).filter(cond).map_values(f));
    }
    while i < folders.rows.len()
        invariant
            i <= folders.rows@.len(),
            rows == folders@.rows,
            cond == folder_in(group_id),
            f == (|x: folder::ModelView| (x.sort_order_in_group, x.id)),
            pairs@ == rows.take(i as int).filter(cond).map_values(f),
        decreases folders.rows@.len() - i,
    {
        proof {
            lemma_count_step(rows, cond, i as int);
            assert(rows[i as int] == folders.rows@[i as int]@);
            let found = rows.take(i as int).filter(cond);
            assert(found.push(rows[i as int]).map_values(f) =~= found.map_values(f).push(
                f(rows[i as int]),
            ));
        }
        if is_folder_in(&folders.rows[i], group_id) {
            pairs.push((folders.rows[i].sort_order_in_group, folders.rows[i].id));
        }
        i = i + 1;
    }
    proof {
        assert(rows.take(i as int) =~= rows);
        assert(rows.filter(cond).map_values(f) =~= rows.filter(cond).map_values(
            |x: folder::ModelView| (x.sort_order_in_group, x.id),
        ));
    }
    sorted_pairs(&pairs)
}

fn ranked_groups(groups: &Table<folder_group::Model>) -> (r: Vec<(i32, i32)>)
    ensures
        r@ == group_order(groups@.rows),
{
    let ghost rows = groups@.rows;
    let ghost cond = active_group();
    let ghost f = |g: folder_group::ModelView| (g.sort_order, g.id);
    let mut pairs: Vec<(i32, i32)> = Vec::new();
    let mut i: usize = 0;
    proof {
        reveal(Seq::filter);
        assert(pairs@ =~= rows.take(0).filter(cond).map_values(f));
    }
    while i < groups.rows.len()
        invariant
            i <= groups.rows@.len(),
            rows == groups@.rows,
            cond == active_group(),
            f == (|g: folder_group::ModelView| (g.sort_order, g.id)),
            pairs@ == rows.take(i as int).filter(cond).map_values(f),
        decreases groups.rows@.len() - i,
    {
        proof {
            lemma_count_step(rows, cond, i as int);
            assert(rows[i as int] == groups.rows@[i as int]@);
            let found = rows.take(i as int).filter(cond);
            assert(found.push(rows[i as int]).map_values(f) =~= found.map_values(f).push(
                f(rows[i as int]),
            ));
        }
        if groups.rows[i].deleted_at.is_none() {
            pairs.push((groups.rows[i].sort_order, groups.rows[i].id));
        }
        i = i + 1;
    }
    proof {
        assert(rows.take(i as int) =~= rows);
        assert(rows.filter(cond).map_values(f) =~= rows.filter(cond).map_values(
            |g: folder_group::ModelView| (g.sort_order, g.id),
        ));
    }
    sorted_pairs(&pairs)
}

fn folders_of(folders: &Table<folder::Model>, group_id: i32) -> (r: Vec<FolderHistoryEntry>)
    requires
        folders.wf(),
    ensures
        views(r@) == folder_order(folders@.rows, group_id).map_values(
            ranked_folder(folders@.rows),
        ),
{
    let ghost rows = folders@.rows;
    let ghost f = ranked_folder(rows);
    let order = ranked_folders(folders, group_id);
    let mut out: Vec<FolderHistoryEntry> = Vec::new();
    let mut i: usize = 0;
    assert(views(out@) =~= order@.take(0).map_values(f));
    while i < order.len()
        invariant
            i <= order@.len(),
            folders.wf(),
            rows == folders@.rows,
            f == ranked_folder(rows),
            order@ == folder_order(rows, group_id),
            views(out@) == order@.take(i as int).map_values(f),
        decreases order@.len() - i,
    {
        let (rank, id) = order[i];
        proof {
            lemma_folder_known(rows, group_id, i as int);
            lemma_lookup::<folder::Model>(rows, id);
            assert(order@.take(i + 1) =~= order@.take(i as int).push(order@[i as int]));
            assert(order@.take(i as int).push(order@[i as int]).map_values(f) =~= order@.take(
                i as int,
            ).map_values(f).push(f(order@[i as int])));
        }
        if let Some(n) = folders.find(id) {
            let ghost before = out@;
            let entry = to_folder_entry(folders.rows[n].clone());
            out.push(entry);
            assert(views(out@) =~= views(before).push(entry@));
        }
        i = i + 1;
    }
    assert(order@.take(i as int) =~= order@);
    out
}

/// List the groups in order, each with its folders in order.
pub fn list_groups_with_folders(
    groups: &Table<folder_group::Model>,
    folders: &Table<folder::Model>,
) -> (r: Vec<FolderGroupDetail>)
    requires
        groups.wf(),
        folders.wf(),
    ensures
        views(r@) == group_order(groups@.rows).map_values(
            ranked_group(groups@.rows, folders@.rows),
        ),
{
    let ghost rows = groups@.rows;
    let ghost f = ranked_group(rows, folders@.rows);
    let order = ranked_groups(groups);
    let mut out: Vec<FolderGroupDetail> = Vec::new();
    let mut i: usize = 0;
    assert(views(out@) =~= order@.take(0).map_values(f));
    while i < order.len()
        invariant
            i <= order@.len(),
            groups.wf(),
            folders.wf(),
            rows == groups@.rows,
            f == ranked_group(rows, folders@.rows),
            order@ == group_order(rows),
            views(out@) == order@.take(i as int).map_values(f),
        decreases order@.len() - i,
    {
        let (rank, id) = order[i];
        proof {
            lemma_group_known(rows, i as int);
            lemma_lookup::<folder_group::Model>(rows, id);
            assert(order@.take(i + 1) =~= order@.take(i as int).push(order@[i as int]));
            assert(order@.take(i as int).push(order@[i as int]).map_values(f) =~= order@.take(
                i as int,
            ).map_values(f).push(f(order@[i as int])));
        }
        if let Some(n) = groups.find(id) {
            let ghost before = out@;
            let g = groups.rows[n].clone();
            let group_folders = folders_of(folders, g.id);
            let detail = FolderGroupDetail {
                id: g.id,
                name: g.name,
                sort_order: g.sort_order,
                created_at: g.created_at,
                updated_at: g.updated_at,
                folders: group_folders,
            };
            out.push(detail);
            assert(views(out@) =~= views(before).push(detail@));
        }
        i = i + 1;
    }
    assert(order@.take(i as int) =~= order@);
    out
}

// ---------------------------------------------------------------------------
// Laws
// ---------------------------------------------------------------------------

/// A new group is listed behind all others, which keep their order.
pub proof fn lemma_create_appends(
    t: TableView<folder_group::ModelView>,
    name: Seq<char>,
    now: Timestamp,
)
    requires
        next_rank(group_ranks(t.rows)) <= i32::MAX,
    ensures
        group_order(with_row(t, new_group(t, name, now)).rows) == group_order(t.rows).push(
            (new_group(t, name, now).sort_order, t.next_id),
        ),
{
    reveal(Seq::filter);
    let g = new_group(t, name, now);
    let rows = t.rows.push(g);
    let f = |x: folder_group::ModelView| (x.sort_order, x.id);
    let found = t.rows.filter(active_group());
    let pairs = found.map_values(f);
    assert(rows.drop_last() =~= t.rows);
    assert(rows.filter(active_group()) =~= found.push(g));
    assert(found.push(g).map_values(f) =~= pairs.push((g.sort_order, g.id)));
    lemma_greatest(group_ranks(t.rows));
    assert forall|i: int| 0 <= i < pairs.len() implies by_rank()(
        #[trigger] pairs[i],
        (g.sort_order, g.id),
    ) by {
        assert(group_ranks(t.rows)[i] == found[i].sort_order);
    }
    lemma_sort_push(pairs, (g.sort_order, g.id));
}

/// Where an id is found in a list, it is at its last place.
proof fn lemma_last_place(ids: Seq<i32>, id: i32)
    ensures
        match last_place(ids, id) {
            Some(p) => 0 <= p < ids.len() && ids[p] == id,
            None => !ids.contains(id),
        },
    decreases ids.len(),
{
    if ids.len() > 0 && ids.last() != id {
        let front = ids.drop_last();
        lemma_last_place(front, id);
        if ids.contains(id) {
            let k = ids.index_of(id);
            assert(front[k] == id);
        }
    }
}

/// Reordering by a list that names every group once puts the groups in the order of
/// the list.
pub proof fn lemma_reorder_gives_order(
    t: TableView<folder_group::ModelView>,
    ids: Seq<i32>,
    now: Timestamp,
)
    requires
        table_wf::<folder_group::Model>(t),
        ids.no_duplicates(),
        ids.len() <= i32::MAX,
        forall|id: i32| #[trigger] ids.contains(id) <==> group_at(t.rows, id) is Some,
    ensures
        ({
            let order = group_order(t.rows.map_values(ranking_groups(ids, now)));
            &&& order.len() == ids.len()
            &&& forall|i: int| 0 <= i < ids.len() ==> (#[trigger] order[i]) == (i as i32, ids[i])
        }),
{
    let rank = ranking_groups(ids, now);
    let rows = t.rows.map_values(rank);
    let f = |x: folder_group::ModelView| (x.sort_order, x.id);
    let found = rows.filter(active_group());
    let pairs = found.map_values(f);
    let want = Seq::new(ids.len(), |i: int| (i as i32, ids[i]));
    assert forall|i: int| 0 <= i < t.rows.len() implies (#[trigger] rows[i]).id == t.rows[i].id
        && rows[i].deleted_at == t.rows[i].deleted_at by {
    }
    lemma_ids_kept::<folder_group::Model>(t.rows, rows);
    lemma_filter_ids_ascend::<folder_group::Model>(rows, active_group());
    assert forall|x: (i32, i32)| #[trigger] pairs.contains(x) <==> want.contains(x) by {
        if pairs.contains(x) {
            let j = pairs.index_of(x);
            lemma_filter_from(rows, active_group(), j);
            let n = choose|n: int| 0 <= n < rows.len() && #[trigger] rows[n] == found[j];
            lemma_lookup_at::<folder_group::Model>(t.rows, n);
            assert(ids.contains(t.rows[n].id));
            lemma_last_place(ids, t.rows[n].id);
            let p = last_place(ids, t.rows[n].id)->Some_0;
            assert(want[p] == x);
        }
        if want.contains(x) {
            let i = want.index_of(x);
            assert(ids.contains(ids[i]));
            lemma_lookup::<folder_group::Model>(t.rows, ids[i]);
            let n = group_at(t.rows, ids[i])->Some_0;
            lemma_last_place(ids, ids[i]);
            let p = last_place(ids, ids[i])->Some_0;
            assert(p == i);
            rows.lemma_filter_contains(active_group(), n);
            let j = found.index_of(rows[n]);
            assert(pairs[j] == x);
        }
    }
    assert(pairs.no_duplicates()) by {
        assert forall|i: int, j: int|
            0 <= i < pairs.len() && 0 <= j < pairs.len() && i != j implies pairs[i]
            != pairs[j] by {
            if i < j {
                assert(found[i].id < found[j].id);
            } else {
                assert(found[j].id < found[i].id);
            }
        }
    }
    assert(want.no_duplicates()) by {
        assert forall|i: int, j: int|
            0 <= i < want.len() && 0 <= j < want.len() && i != j implies want[i] != want[j] by {
            assert(ids[i] != ids[j]);
        }
    }
    lemma_sorted_members(pairs, want);
}

/// Reordering the folders of a group by a list that names every one of them once puts
/// them in the order of the list.
pub proof fn lemma_reorder_folders_gives_order(
    t: TableView<folder::ModelView>,
    group_id: i32,
    ids: Seq<i32>,
    now: Timestamp,
)
    requires
        table_wf::<folder::Model>(t),
        ids.no_duplicates(),
        ids.len() <= i32::MAX,
        forall|id: i32| #[trigger]
            ids.contains(id) <==> match lookup::<folder::Model>(t.rows, id) {
                Some(f) => folder_in(group_id)(f),
                None => false,
            },
    ensures
        ({
            let order = folder_order(
                t.rows.map_values(ranking_folders(group_id, ids, now)),
                group_id,
            );
            &&& order.len() == ids.len()
            &&& forall|i: int| 0 <= i < ids.len() ==> (#[trigger] order[i]) == (i as i32, ids[i])
        }),
{
    let rows = t.rows.map_values(ranking_folders(group_id, ids, now));
    let cond = folder_in(group_id);
    let f = |x: folder::ModelView| (x.sort_order_in_group, x.id);
    let found = rows.filter(cond);
    let pairs = found.map_values(f);
    let want = Seq::new(ids.len(), |i: int| (i as i32, ids[i]));
    assert forall|i: int| 0 <= i < t.rows.len() implies (#[trigger] rows[i]).id == t.rows[i].id
        && cond(rows[i]) == cond(t.rows[i]) by {
    }
    lemma_ids_kept::<folder::Model>(t.rows, rows);
    lemma_filter_ids_ascend::<folder::Model>(rows, cond);
    assert forall|x: (i32, i32)| #[trigger] pairs.contains(x) <==> want.contains(x) by {
        if pairs.contains(x) {
            let j = pairs.index_of(x);
            lemma_filter_from(rows, cond, j);
            let n = choose|n: int| 0 <= n < rows.len() && #[trigger] rows[n] == found[j];
            lemma_lookup_at::<folder::Model>(t.rows, n);
            assert(ids.contains(t.rows[n].id));
            lemma_last_place(ids, t.rows[n].id);
            let p = last_place(ids, t.rows[n].id)->Some_0;
            assert(want[p] == x);
        }
        if want.contains(x) {
            let i = want.index_of(x);
            assert(ids.contains(ids[i]));
            lemma_lookup::<folder::Model>(t.rows, ids[i]);
            let n = position::<folder::Model>(t.rows, ids[i])->Some_0;
            lemma_last_place(ids, ids[i]);
            let p = last_place(ids, ids[i])->Some_0;
            assert(p == i);
            rows.lemma_filter_contains(cond, n);
            let j = found.index_of(rows[n]);
            assert(pairs[j] == x);
        }
    }
    assert(pairs.no_duplicates()) by {
        assert forall|i: int, j: int|
            0 <= i < pairs.len() && 0 <= j < pairs.len() && i != j implies pairs[i]
            != pairs[j] by {
            if i < j {
                assert(found[i].id < found[j].id);
            } else {
                assert(found[j].id < found[i].id);
            }
        }
    }
    assert(want.no_duplicates()) by {
        assert forall|i: int, j: int|
            0 <= i < want.len() && 0 <= j < want.len() && i != j implies want[i] != want[j] by {
            assert(ids[i] != ids[j]);
        }
    }
    lemma_sorted_members(pairs, want);
}

/// Every group that was not removed is listed, and nothing else: the listing names each
/// of them, by rank and id.
pub proof fn lemma_listing_is_complete(rows: Seq<folder_group::ModelView>)
    ensures
        forall|k: (i32, i32)| #[trigger]
            group_order(rows).contains(k) <==> exists|i: int|
                0 <= i < rows.len() && active_group()(#[trigger] rows[i]) && k == (
                    rows[i].sort_order,
                    rows[i].id,
                ),
        sorted_by(group_order(rows), by_rank()),
{
    let f = |g: folder_group::ModelView| (g.sort_order, g.id);
    let found = rows.filter(active_group());
    let pairs = found.map_values(f);
    lemma_sorted_pairs(pairs);
    assert forall|k: (i32, i32)| #[trigger] group_order(rows).contains(k) <==> exists|i: int|
        0 <= i < rows.len() && active_group()(#[trigger] rows[i]) && k == (
            rows[i].sort_order,
            rows[i].id,
        ) by {
        if pairs.contains(k) {
            let j = pairs.index_of(k);
            lemma_filter_from(rows, active_group(), j);
        }
        if exists|i: int|
            0 <= i < rows.len() && active_group()(#[trigger] rows[i]) && k == (
                rows[i].sort_order,
                rows[i].id,
            ) {
            let i = choose|i: int|
                0 <= i < rows.len() && active_group()(#[trigger] rows[i]) && k == (
                    rows[i].sort_order,
                    rows[i].id,
                );
            rows.lemma_filter_contains(active_group(), i);
            let j = found.index_of(rows[i]);
            assert(pairs[j] == k);
        }
    }
}

/// Renaming a group leaves the order of the groups as it is.
pub proof fn lemma_rename_keeps_order(
    t: TableView<folder_group::ModelView>,
    group_id: i32,
    name: Seq<char>,
    now: Timestamp,
)
    ensures
        group_order(renamed(t, group_id, name, now).0.rows) == group_order(t.rows),
{
    let rows = renamed(t, group_id, name, now).0.rows;
    lemma_lookup::<folder_group::Model>(t.rows, group_id);
    lemma_same_pairs(t.rows, rows);
}

proof fn lemma_same_pairs(a: Seq<folder_group::ModelView>, b: Seq<folder_group::ModelView>)
    requires
        a.len() == b.len(),
        forall|i: int|
            0 <= i < a.len() ==> (#[trigger] b[i]).id == a[i].id && b[i].sort_order
                == a[i].sort_order && b[i].deleted_at == a[i].deleted_at,
    ensures
        a.filter(active_group()).map_values(|g: folder_group::ModelView| (g.sort_order, g.id))
            == b.filter(active_group()).map_values(
            |g: folder_group::ModelView| (g.sort_order, g.id),
        ),
    decreases a.len(),
{
    reveal(Seq::filter);
    let f = |g: folder_group::ModelView| (g.sort_order, g.id);
    if a.len() > 0 {
        let n = a.len() - 1;
        assert forall|i: int| 0 <= i < n implies (#[trigger] b.drop_last()[i]).id
            == a.drop_last()[i].id && b.drop_last()[i].sort_order == a.drop_last()[i].sort_order
            && b.drop_last()[i].deleted_at == a.drop_last()[i].deleted_at by {
            assert(b[i].id == a[i].id);
        }
        lemma_same_pairs(a.drop_last(), b.drop_last());
        assert(b[n].id == a[n].id);
        let x = a.drop_last().filter(active_group());
        let y = b.drop_last().filter(active_group());
        assert(x.push(a.last()).map_values(f) =~= x.map_values(f).push(f(a.last())));
        assert(y.push(b.last()).map_values(f) =~= y.map_values(f).push(f(b.last())));
    } else {
        assert(a =~= b);
    }
}

/// A removed group is not found any more, none of its folders is left in it, and
/// removing it again removes nothing.
pub proof fn lemma_remove_once(
    groups: TableView<folder_group::ModelView>,
    folders: TableView<folder::ModelView>,
    group_id: i32,
    now: Timestamp,
    later: Timestamp,
)
    requires
        table_wf::<folder_group::Model>(groups),
        group_at(groups.rows, group_id) is Some,
    ensures
        ({
            let (g, f, n) = removed_with_folders(groups, folders, group_id, now);
            &&& group_at(g.rows, group_id) is None
            &&& !any_match(f.rows, folder_in(group_id))
            &&& removed_with_folders(g, f, group_id, later) == (g, f, 0nat)
        }),
{
    let (g, f, n) = removed_with_folders(groups, folders, group_id, now);
    lemma_lookup::<folder_group::Model>(groups.rows, group_id);
    let i = group_at(groups.rows, group_id)->Some_0;
    crate::table::lemma_update_wf::<folder_group::Model>(groups, i, g.rows[i]);
    lemma_lookup_at::<folder_group::Model>(g.rows, i);
    if any_match(f.rows, folder_in(group_id)) {
        let k = choose|k: int|
            0 <= k < f.rows.len() && folder_in(group_id)(#[trigger] f.rows[k]);
        assert(folder_in(group_id)(folders.rows[k]) || f.rows[k] == folders.rows[k]);
    }
}

/// A group that still has folders is not removed for being empty.
pub proof fn lemma_prune_spares_filled_groups(
    t: TableView<folder_group::ModelView>,
    folders: Seq<folder::ModelView>,
    group_id: i32,
    now: Timestamp,
)
    requires
        any_match(folders, folder_in(group_id)),
    ensures
        pruned(t, folders, group_id, now) == t,
{
}

} // verus!
