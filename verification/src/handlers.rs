//! The folder-group requests, as they arrive with their parameters.

use crate::clock::Timestamp;
use crate::folder_group_service::{
    group_order, group_ranks, group_view, new_group, next_rank, ranked_group, ranking_folders,
    ranking_groups, removed_with_folders, renamed,
};
use crate::folder_groups::{FolderBook, FolderBookView, FolderGroupEventView};
use crate::models::{FolderGroup, FolderGroupDetail};
use crate::table::{views, with_row, with_rows};
use crate::text::trimmed;
use vstd::prelude::*;

verus! {

#[derive(Debug)]
pub struct CreateFolderGroupParams {
    pub name: String,
}

#[derive(Debug)]
pub struct RenameFolderGroupParams {
    pub group_id: i32,
    pub name: String,
}

#[derive(Debug)]
pub struct RemoveFolderGroupParams {
    pub group_id: i32,
}

#[derive(Debug)]
pub struct ReorderFolderGroupsParams {
    pub ordered_ids: Vec<i32>,
}

#[derive(Debug)]
pub struct ReorderFoldersInGroupParams {
    pub group_id: i32,
    pub ordered_folder_ids: Vec<i32>,
}

/// The groups in order, each with its folders in order.
pub fn list_folder_groups(book: &FolderBook) -> (r: Vec<FolderGroupDetail>)
    requires
        book.wf(),
    ensures
        views(r@) == group_order(book@.groups.rows).map_values(
            ranked_group(book@.groups.rows, book@.folders.rows),
        ),
{
    book.list_folder_groups_core()
}

/// Creates a group.
pub fn create_folder_group(
    book: &mut FolderBook,
    params: CreateFolderGroupParams,
    now: Timestamp,
) -> (r: FolderGroup)
    requires
        old(book).wf(),
        old(book).groups.next_id < i32::MAX,
        next_rank(group_ranks(old(book)@.groups.rows)) <= i32::MAX,
    ensures
        ({
            let row = new_group(old(book)@.groups, trimmed(params.name@), now);
            &&& final(book)@ == (FolderBookView {
                groups: with_row(old(book)@.groups, row),
                ..old(book)@
            }).announce(FolderGroupEventView::Saved(group_view(row)))
            &&& r@ == group_view(row)
        }),
        final(book).wf(),
{
    book.create_folder_group_core(params.name, now)
}

/// Renames a group.
pub fn rename_folder_group(
    book: &mut FolderBook,
    params: RenameFolderGroupParams,
    now: Timestamp,
) -> (r: Option<FolderGroup>)
    requires
        old(book).wf(),
    ensures
        ({
            let (groups, saved) = renamed(
                old(book)@.groups,
                params.group_id,
                trimmed(params.name@),
                now,
            );
            let after = FolderBookView { groups, ..old(book)@ };
            match saved {
                Some(g) => r is Some && r->Some_0@ == g && final(book)@ == after.announce(
                    FolderGroupEventView::Saved(g),
                ),
                None => r is None && final(book)@ == after,
            }
        }),
        final(book).wf(),
{
    book.rename_folder_group_core(params.group_id, params.name, now)
}

/// Removes a group with its folders.
pub fn remove_folder_group(
    book: &mut FolderBook,
    params: RemoveFolderGroupParams,
    now: Timestamp,
) -> (r: u64)
    requires
        old(book).wf(),
    ensures
        ({
            let (groups, folders, n) = removed_with_folders(
                old(book)@.groups,
                old(book)@.folders,
                params.group_id,
                now,
            );
            &&& r == n
            &&& final(book)@ == (FolderBookView { groups, folders, ..old(book)@ }).announce(
                FolderGroupEventView::Removed { id: params.group_id, cascaded_folders: r },
            )
        }),
        final(book).wf(),
{
    book.remove_folder_group_core(params.group_id, now)
}

/// Reorders the groups.
pub fn reorder_folder_groups(
    book: &mut FolderBook,
    params: ReorderFolderGroupsParams,
    now: Timestamp,
)
    requires
        old(book).wf(),
    ensures
        final(book)@ == (FolderBookView {
            groups: with_rows(
                old(book)@.groups,
                old(book)@.groups.rows.map_values(ranking_groups(params.ordered_ids@, now)),
            ),
            ..old(book)@
        }).announce(FolderGroupEventView::Reordered(params.ordered_ids@)),
        final(book).wf(),
{
    book.reorder_folder_groups_core(params.ordered_ids, now)
}

/// Reorders the folders of a group.
pub fn reorder_folders_in_group(
    book: &mut FolderBook,
    params: ReorderFoldersInGroupParams,
    now: Timestamp,
)
    requires
        old(book).wf(),
    ensures
        final(book)@ == (FolderBookView {
            folders: with_rows(
                old(book)@.folders,
                old(book)@.folders.rows.map_values(
                    ranking_folders(params.group_id, params.ordered_folder_ids@, now),
                ),
            ),
            ..old(book)@
        }).announce(
            FolderGroupEventView::FoldersReordered {
                group_id: params.group_id,
                reordered_folders: params.ordered_folder_ids@,
            },
        ),
        final(book).wf(),
{
    book.reorder_folders_in_group_core(params.group_id, params.ordered_folder_ids, now)
}

} // verus!
