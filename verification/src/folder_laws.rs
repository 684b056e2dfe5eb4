//! What the folder-group operations do and list, in the terms of the rows' columns.

use crate::clock::Timestamp;
use crate::entities::{folder, folder_group};
use crate::folder_group_service::{
    active_group, folder_in, folder_order, folder_ranks, folder_view, greatest, group_order,
    group_ranks, group_view, last_place, lemma_greatest, new_group, next_rank, pruned,
    ranked_folder, ranked_group, ranking_folders, ranking_groups, removed_with_folders, renamed,
};
use crate::folder_groups::{FolderBookView, FolderGroupEventView};
use crate::loop_engine::terms::lemma_filter_agrees;
use crate::models::{FolderGroupView, FolderHistoryEntryView};
use crate::order::{law_pairs_sorted, lemma_sorted_pairs};
use crate::table::{
    any_match, ids_ascend, lemma_filter_from, lemma_lookup, lemma_lookup_at, table_wf, TableView,
};
use vstd::prelude::*;

verus! {

/// The folder sits in the group: it names it, and was not removed.
pub open spec fn sits_in(f: folder::ModelView, group_id: i32) -> bool {
    &&& f.group_id == Some(group_id)
    &&& f.deleted_at is None
}

// ---------------------------------------------------------------------------
// Ranks
// ---------------------------------------------------------------------------

/// The rank of a new group is zero where every group was removed, and otherwise one more
/// than the greatest rank of a group that was not.
pub proof fn law_next_group_rank(rows: Seq<folder_group::ModelView>)
    ensures
        (forall|i: int| 0 <= i < rows.len() ==> (#[trigger] rows[i]).deleted_at is Some)
            ==> next_rank(group_ranks(rows)) == 0,
        forall|i: int|
            0 <= i < rows.len() && (#[trigger] rows[i]).deleted_at is None ==> rows[i].sort_order
                < next_rank(group_ranks(rows)),
        (exists|i: int| 0 <= i < rows.len() && (#[trigger] rows[i]).deleted_at is None)
            ==> exists|k: int|
            0 <= k < rows.len() && (#[trigger] rows[k]).deleted_at is None && next_rank(
                group_ranks(rows),
            ) == rows[k].sort_order + 1,
{
    let f = |g: folder_group::ModelView| g.sort_order;
    let found = rows.filter(active_group());
    let ranks = found.map_values(f);
    lemma_greatest(ranks);
    assert forall|i: int|
        0 <= i < rows.len() && (#[trigger] rows[i]).deleted_at is None implies ranks.len() > 0
        && rows[i].sort_order <= greatest(ranks)->Some_0 by {
        rows.lemma_filter_contains(active_group(), i);
        let j = found.index_of(rows[i]);
        assert(ranks[j] == rows[i].sort_order);
    }
    if let Some(m) = greatest(ranks) {
        let j = ranks.index_of(m);
        lemma_filter_from(rows, active_group(), j);
        let k = choose|k: int| 0 <= k < rows.len() && #[trigger] rows[k] == found[j];
        assert(rows[k].sort_order == m);
    }
}

/// The rank of a new folder in a group, in the same way.
pub proof fn law_next_folder_rank(rows: Seq<folder::ModelView>, group_id: i32)
    ensures
        (forall|i: int| 0 <= i < rows.len() ==> !sits_in(#[trigger] rows[i], group_id))
            ==> next_rank(folder_ranks(rows, group_id)) == 0,
        forall|i: int|
            0 <= i < rows.len() && sits_in(#[trigger] rows[i], group_id)
                ==> rows[i].sort_order_in_group < next_rank(folder_ranks(rows, group_id)),
        (exists|i: int| 0 <= i < rows.len() && sits_in(#[trigger] rows[i], group_id))
            ==> exists|k: int|
            0 <= k < rows.len() && sits_in(#[trigger] rows[k], group_id) && next_rank(
                folder_ranks(rows, group_id),
            ) == rows[k].sort_order_in_group + 1,
{
    let cond = folder_in(group_id);
    let f = |g: folder::ModelView| g.sort_order_in_group;
    let found = rows.filter(cond);
    let ranks = found.map_values(f);
    assert(ranks =~= folder_ranks(rows, group_id));
    lemma_greatest(ranks);
    assert forall|i: int|
        0 <= i < rows.len() && sits_in(#[trigger] rows[i], group_id) implies ranks.len() > 0
        && rows[i].sort_order_in_group <= greatest(ranks)->Some_0 by {
        rows.lemma_filter_contains(cond, i);
        let j = found.index_of(rows[i]);
        assert(ranks[j] == rows[i].sort_order_in_group);
    }
    if let Some(m) = greatest(ranks) {
        let j = ranks.index_of(m);
        lemma_filter_from(rows, cond, j);
        let k = choose|k: int| 0 <= k < rows.len() && #[trigger] rows[k] == found[j];
        assert(sits_in(rows[k], group_id));
    }
}

// ---------------------------------------------------------------------------
// Groups
// ---------------------------------------------------------------------------

/// A new group has the name it was given, the next id and the next rank; both its times
/// are the time of its creation, and it is not removed.
pub proof fn law_new_group(
    t: TableView<folder_group::ModelView>,
    name: Seq<char>,
    now: Timestamp,
)
    requires
        next_rank(group_ranks(t.rows)) <= i32::MAX,
    ensures
        ({
            let g = new_group(t, name, now);
            &&& g.id == t.next_id
            &&& g.name == name
            &&& g.sort_order == next_rank(group_ranks(t.rows))
            &&& g.created_at == now
            &&& g.updated_at == now
            &&& g.deleted_at is None
        }),
{
    lemma_greatest(group_ranks(t.rows));
}

/// A group and a folder are shown with their own columns.
pub proof fn law_shown(g: folder_group::ModelView, f: folder::ModelView)
    ensures
        group_view(g) == (FolderGroupView {
            id: g.id,
            name: g.name,
            sort_order: g.sort_order,
            created_at: g.created_at,
            updated_at: g.updated_at,
        }),
        folder_view(f) == (FolderHistoryEntryView {
            id: f.id,
            path: f.path,
            name: f.name,
            last_opened_at: f.last_opened_at,
            group_id: f.group_id,
            sort_order_in_group: f.sort_order_in_group,
            git_branch: f.git_branch,
            is_open: f.is_open,
        }),
{
}

/// Renaming writes the name and the time of the group with the id, and gives it back as it
/// is then; a removed group stays as it is, and nothing is given back. Every other group
/// stays.
pub proof fn law_rename(
    t: TableView<folder_group::ModelView>,
    group_id: i32,
    name: Seq<char>,
    now: Timestamp,
    k: int,
)
    requires
        table_wf::<folder_group::Model>(t),
        0 <= k < t.rows.len(),
    ensures
        ({
            let (u, shown) = renamed(t, group_id, name, now);
            let g = t.rows[k];
            &&& u.next_id == t.next_id
            &&& u.rows.len() == t.rows.len()
            &&& g.id != group_id ==> u.rows[k] == g
            &&& g.id == group_id && g.deleted_at is Some ==> u.rows[k] == g && shown is None
            &&& g.id == group_id && g.deleted_at is None ==> u.rows[k] == (
            folder_group::ModelView {
                id: g.id,
                name,
                sort_order: g.sort_order,
                created_at: g.created_at,
                updated_at: now,
                deleted_at: None,
            }) && shown == Some(
                FolderGroupView {
                    id: g.id,
                    name,
                    sort_order: g.sort_order,
                    created_at: g.created_at,
                    updated_at: now,
                },
            )
        }),
{
    lemma_lookup::<folder_group::Model>(t.rows, group_id);
    lemma_lookup_at::<folder_group::Model>(t.rows, k);
}

/// A group that is not there is not renamed or removed, and no folder goes with it.
pub proof fn law_missing_group(
    t: TableView<folder_group::ModelView>,
    folders: TableView<folder::ModelView>,
    group_id: i32,
    name: Seq<char>,
    now: Timestamp,
)
    requires
        forall|i: int|
            0 <= i < t.rows.len() ==> (#[trigger] t.rows[i]).id != group_id
                || t.rows[i].deleted_at is Some,
    ensures
        renamed(t, group_id, name, now) == (t, None::<FolderGroupView>),
        removed_with_folders(t, folders, group_id, now) == (t, folders, 0nat),
        pruned(t, folders.rows, group_id, now) == t,
{
    lemma_lookup::<folder_group::Model>(t.rows, group_id);
}

/// Removing a group marks it removed at the time, and every folder that sits in it, which
/// is closed too; no other column, group or folder changes. It is reported how many
/// folders sat in it.
pub proof fn law_remove(
    t: TableView<folder_group::ModelView>,
    folders: TableView<folder::ModelView>,
    group_id: i32,
    now: Timestamp,
    n: int,
    k: int,
    j: int,
)
    requires
        table_wf::<folder_group::Model>(t),
        0 <= n < t.rows.len(),
        t.rows[n].id == group_id,
        t.rows[n].deleted_at is None,
    ensures
        ({
            let (u, v, count) = removed_with_folders(t, folders, group_id, now);
            &&& u.next_id == t.next_id
            &&& v.next_id == folders.next_id
            &&& u.rows.len() == t.rows.len()
            &&& v.rows.len() == folders.rows.len()
            &&& count == folders.rows.filter(|f: folder::ModelView| sits_in(f, group_id)).len()
            &&& 0 <= k < t.rows.len() && k != n ==> u.rows[k] == t.rows[k]
            &&& u.rows[n] == (folder_group::ModelView {
                id: t.rows[n].id,
                name: t.rows[n].name,
                sort_order: t.rows[n].sort_order,
                created_at: t.rows[n].created_at,
                updated_at: now,
                deleted_at: Some(now),
            })
            &&& 0 <= j < folders.rows.len() ==> v.rows[j] == (if sits_in(
                folders.rows[j],
                group_id,
            ) {
                folder::ModelView {
                    id: folders.rows[j].id,
                    path: folders.rows[j].path,
                    name: folders.rows[j].name,
                    last_opened_at: folders.rows[j].last_opened_at,
                    group_id: folders.rows[j].group_id,
                    sort_order_in_group: folders.rows[j].sort_order_in_group,
                    git_branch: folders.rows[j].git_branch,
                    is_open: false,
                    updated_at: now,
                    deleted_at: Some(now),
                }
            } else {
                folders.rows[j]
            })
        }),
{
    lemma_lookup_at::<folder_group::Model>(t.rows, n);
    lemma_filter_agrees(
        folders.rows,
        folder_in(group_id),
        |f: folder::ModelView| sits_in(f, group_id),
    );
}

/// A group is removed for being empty exactly when no folder sits in it, and otherwise
/// stays as it is; only that group is.
pub proof fn law_prune(
    t: TableView<folder_group::ModelView>,
    folders: Seq<folder::ModelView>,
    group_id: i32,
    now: Timestamp,
    k: int,
)
    requires
        table_wf::<folder_group::Model>(t),
        0 <= k < t.rows.len(),
    ensures
        ({
            let u = pruned(t, folders, group_id, now);
            let g = t.rows[k];
            let empty = forall|j: int|
                0 <= j < folders.len() ==> !sits_in(#[trigger] folders[j], group_id);
            &&& u.next_id == t.next_id
            &&& u.rows.len() == t.rows.len()
            &&& u.rows[k] == (if empty && g.id == group_id && g.deleted_at is None {
                folder_group::ModelView {
                    id: g.id,
                    name: g.name,
                    sort_order: g.sort_order,
                    created_at: g.created_at,
                    updated_at: now,
                    deleted_at: Some(now),
                }
            } else {
                g
            })
        }),
{
    lemma_lookup::<folder_group::Model>(t.rows, group_id);
    lemma_lookup_at::<folder_group::Model>(t.rows, k);
    assert(any_match(folders, folder_in(group_id)) == !(forall|j: int|
        0 <= j < folders.len() ==> !sits_in(#[trigger] folders[j], group_id))) by {
        if any_match(folders, folder_in(group_id)) {
            let j = choose|j: int|
                0 <= j < folders.len() && folder_in(group_id)(#[trigger] folders[j]);
            assert(sits_in(folders[j], group_id));
        }
        assert forall|j: int| 0 <= j < folders.len() && sits_in(#[trigger] folders[j], group_id)
            implies folder_in(group_id)(folders[j]) by {
        }
    }
}

// ---------------------------------------------------------------------------
// Reordering
// ---------------------------------------------------------------------------

proof fn lemma_last_place_is(ids: Seq<i32>, id: i32, p: int)
    requires
        0 <= p < ids.len(),
        ids[p] == id,
        forall|q: int| p < q < ids.len() ==> #[trigger] ids[q] != id,
    ensures
        last_place(ids, id) == Some(p),
    decreases ids.len(),
{
    if p < ids.len() - 1 {
        let front = ids.drop_last();
        assert(ids[ids.len() - 1] != id);
        assert forall|q: int| p < q < front.len() implies #[trigger] front[q] != id by {
            assert(front[q] == ids[q]);
        }
        lemma_last_place_is(front, id, p);
    }
}

proof fn lemma_no_place(ids: Seq<i32>, id: i32)
    requires
        !ids.contains(id),
    ensures
        last_place(ids, id) is None,
    decreases ids.len(),
{
    if ids.len() > 0 {
        let front = ids.drop_last();
        assert(ids[ids.len() - 1] != id);
        assert(!front.contains(id)) by {
            if front.contains(id) {
                let q = front.index_of(id);
                assert(ids[q] == id);
            }
        }
        lemma_no_place(front, id);
    }
}

/// Reordering groups: a group that is listed and not removed gets its last place in the
/// list as its rank, and the time; its other columns stay.
pub proof fn law_reorder_listed_group(
    rows: Seq<folder_group::ModelView>,
    ids: Seq<i32>,
    now: Timestamp,
    k: int,
    p: int,
)
    requires
        0 <= k < rows.len(),
        rows[k].deleted_at is None,
        0 <= p < ids.len(),
        ids[p] == rows[k].id,
        forall|q: int| p < q < ids.len() ==> #[trigger] ids[q] != rows[k].id,
    ensures
        rows.map_values(ranking_groups(ids, now))[k] == (folder_group::ModelView {
            id: rows[k].id,
            name: rows[k].name,
            sort_order: p as i32,
            created_at: rows[k].created_at,
            updated_at: now,
            deleted_at: None,
        }),
{
    lemma_last_place_is(ids, rows[k].id, p);
}

/// Reordering groups: a group that is not listed, or was removed, stays as it is.
pub proof fn law_reorder_other_group(
    rows: Seq<folder_group::ModelView>,
    ids: Seq<i32>,
    now: Timestamp,
    k: int,
)
    requires
        0 <= k < rows.len(),
        rows[k].deleted_at is Some || !ids.contains(rows[k].id),
    ensures
        rows.map_values(ranking_groups(ids, now))[k] == rows[k],
        rows.map_values(ranking_groups(ids, now)).len() == rows.len(),
{
    if !ids.contains(rows[k].id) {
        lemma_no_place(ids, rows[k].id);
    }
}

/// Reordering the folders of a group: a folder that is listed and sits in the group gets
/// its last place in the list as its rank, and the time; its other columns stay.
pub proof fn law_reorder_listed_folder(
    rows: Seq<folder::ModelView>,
    group_id: i32,
    ids: Seq<i32>,
    now: Timestamp,
    k: int,
    p: int,
)
    requires
        0 <= k < rows.len(),
        sits_in(rows[k], group_id),
        0 <= p < ids.len(),
        ids[p] == rows[k].id,
        forall|q: int| p < q < ids.len() ==> #[trigger] ids[q] != rows[k].id,
    ensures
        rows.map_values(ranking_folders(group_id, ids, now))[k] == (folder::ModelView {
            id: rows[k].id,
            path: rows[k].path,
            name: rows[k].name,
            last_opened_at: rows[k].last_opened_at,
            group_id: rows[k].group_id,
            sort_order_in_group: p as i32,
            git_branch: rows[k].git_branch,
            is_open: rows[k].is_open,
            updated_at: now,
            deleted_at: None,
        }),
{
    lemma_last_place_is(ids, rows[k].id, p);
}

/// Reordering the folders of a group: a folder that is not listed, or does not sit in the
/// group, stays as it is.
pub proof fn law_reorder_other_folder(
    rows: Seq<folder::ModelView>,
    group_id: i32,
    ids: Seq<i32>,
    now: Timestamp,
    k: int,
)
    requires
        0 <= k < rows.len(),
        !sits_in(rows[k], group_id) || !ids.contains(rows[k].id),
    ensures
        rows.map_values(ranking_folders(group_id, ids, now))[k] == rows[k],
        rows.map_values(ranking_folders(group_id, ids, now)).len() == rows.len(),
{
    if !ids.contains(rows[k].id) {
        lemma_no_place(ids, rows[k].id);
    }
}

// ---------------------------------------------------------------------------
// Listing
// ---------------------------------------------------------------------------

/// As many groups are listed as were not removed, in the order of their ranks and, where
/// those are the same, of their ids; each of them is listed.
pub proof fn law_group_order(rows: Seq<folder_group::ModelView>)
    ensures
        ({
            let order = group_order(rows);
            &&& order.len() == rows.filter(
                |g: folder_group::ModelView| g.deleted_at is None,
            ).len()
            &&& forall|i: int, j: int|
                0 <= i < j < order.len() ==> (#[trigger] order[i]).0 < (#[trigger] order[j]).0
                    || order[i].0 == order[j].0 && order[i].1 <= order[j].1
            &&& forall|k: int|
                0 <= k < rows.len() && (#[trigger] rows[k]).deleted_at is None ==> order.contains(
                    (rows[k].sort_order, rows[k].id),
                )
        }),
{
    let f = |g: folder_group::ModelView| (g.sort_order, g.id);
    let found = rows.filter(active_group());
    let pairs = found.map_values(f);
    assert(group_order(rows) == pairs.sort_by(crate::order::by_rank()));
    lemma_sorted_pairs(pairs);
    law_pairs_sorted(pairs);
    lemma_filter_agrees(
        rows,
        active_group(),
        |g: folder_group::ModelView| g.deleted_at is None,
    );
    assert forall|k: int| 0 <= k < rows.len() && (#[trigger] rows[k]).deleted_at is None implies
        group_order(rows).contains((rows[k].sort_order, rows[k].id)) by {
        rows.lemma_filter_contains(active_group(), k);
        let j = found.index_of(rows[k]);
        assert(pairs[j] == (rows[k].sort_order, rows[k].id));
        assert(pairs.contains((rows[k].sort_order, rows[k].id)));
    }
}

/// Each listed group is one that was not removed, with its own columns and its folders.
pub proof fn law_listed_group(
    rows: Seq<folder_group::ModelView>,
    folders: Seq<folder::ModelView>,
    i: int,
) -> (n: int)
    requires
        ids_ascend::<folder_group::Model>(rows),
        0 <= i < group_order(rows).len(),
    ensures
        ({
            let shown = group_order(rows).map_values(ranked_group(rows, folders))[i];
            &&& 0 <= n < rows.len()
            &&& rows[n].deleted_at is None
            &&& group_order(rows)[i] == (rows[n].sort_order, rows[n].id)
            &&& shown.id == rows[n].id
            &&& shown.name == rows[n].name
            &&& shown.sort_order == rows[n].sort_order
            &&& shown.created_at == rows[n].created_at
            &&& shown.updated_at == rows[n].updated_at
            &&& shown.folders == folder_order(folders, rows[n].id).map_values(
                ranked_folder(folders),
            )
        }),
{
    let found = rows.filter(active_group());
    let pairs = found.map_values(|g: folder_group::ModelView| (g.sort_order, g.id));
    lemma_sorted_pairs(pairs);
    let k = group_order(rows)[i];
    assert(group_order(rows).contains(k));
    let j = pairs.index_of(k);
    lemma_filter_from(rows, active_group(), j);
    let n = choose|n: int| 0 <= n < rows.len() && #[trigger] rows[n] == found[j];
    lemma_lookup_at::<folder_group::Model>(rows, n);
    n
}

/// As many folders are listed in a group as sit in it, in the order of their ranks there
/// and, where those are the same, of their ids; each of them is listed.
pub proof fn law_folder_order(rows: Seq<folder::ModelView>, group_id: i32)
    ensures
        ({
            let order = folder_order(rows, group_id);
            &&& order.len() == rows.filter(|f: folder::ModelView| sits_in(f, group_id)).len()
            &&& forall|i: int, j: int|
                0 <= i < j < order.len() ==> (#[trigger] order[i]).0 < (#[trigger] order[j]).0
                    || order[i].0 == order[j].0 && order[i].1 <= order[j].1
            &&& forall|k: int|
                0 <= k < rows.len() && sits_in(#[trigger] rows[k], group_id) ==> order.contains(
                    (rows[k].sort_order_in_group, rows[k].id),
                )
        }),
{
    let f = |x: folder::ModelView| (x.sort_order_in_group, x.id);
    let found = rows.filter(folder_in(group_id));
    let pairs = found.map_values(f);
    assert(pairs =~= found.map_values(|f: folder::ModelView| (f.sort_order_in_group, f.id)));
    assert(folder_order(rows, group_id) == pairs.sort_by(crate::order::by_rank()));
    lemma_sorted_pairs(pairs);
    law_pairs_sorted(pairs);
    lemma_filter_agrees(
        rows,
        folder_in(group_id),
        |f: folder::ModelView| sits_in(f, group_id),
    );
    assert forall|k: int| 0 <= k < rows.len() && sits_in(#[trigger] rows[k], group_id) implies
        folder_order(rows, group_id).contains((rows[k].sort_order_in_group, rows[k].id)) by {
        rows.lemma_filter_contains(folder_in(group_id), k);
        let j = found.index_of(rows[k]);
        assert(pairs[j] == (rows[k].sort_order_in_group, rows[k].id));
        assert(pairs.contains((rows[k].sort_order_in_group, rows[k].id)));
    }
}

/// Each folder that is listed in a group sits in it, and shows its own columns.
pub proof fn law_listed_folder(rows: Seq<folder::ModelView>, group_id: i32, i: int) -> (n: int)
    requires
        ids_ascend::<folder::Model>(rows),
        0 <= i < folder_order(rows, group_id).len(),
    ensures
        ({
            let shown = folder_order(rows, group_id).map_values(ranked_folder(rows))[i];
            &&& 0 <= n < rows.len()
            &&& sits_in(rows[n], group_id)
            &&& folder_order(rows, group_id)[i] == (rows[n].sort_order_in_group, rows[n].id)
            &&& shown.id == rows[n].id
            &&& shown.path == rows[n].path
            &&& shown.name == rows[n].name
            &&& shown.last_opened_at == rows[n].last_opened_at
            &&& shown.group_id == Some(group_id)
            &&& shown.sort_order_in_group == rows[n].sort_order_in_group
            &&& shown.git_branch == rows[n].git_branch
            &&& shown.is_open == rows[n].is_open
        }),
{
    let found = rows.filter(folder_in(group_id));
    let pairs = found.map_values(|f: folder::ModelView| (f.sort_order_in_group, f.id));
    lemma_sorted_pairs(pairs);
    let k = folder_order(rows, group_id)[i];
    assert(folder_order(rows, group_id).contains(k));
    let j = pairs.index_of(k);
    lemma_filter_from(rows, folder_in(group_id), j);
    let n = choose|n: int| 0 <= n < rows.len() && #[trigger] rows[n] == found[j];
    lemma_lookup_at::<folder::Model>(rows, n);
    n
}

/// An announcement is added behind the others, and nothing else changes.
pub proof fn law_announce(b: FolderBookView, e: FolderGroupEventView)
    ensures
        b.announce(e).events == b.events.push(e),
        b.announce(e).groups == b.groups,
        b.announce(e).folders == b.folders,
{
}

} // verus!
