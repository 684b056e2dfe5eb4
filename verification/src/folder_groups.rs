//! The folder-group commands: each runs a service operation and announces what
//! changed.

use crate::clock::Timestamp;
use crate::entities::{folder, folder_group};
use crate::folder_group_service::{
    create_group, group_order, group_ranks, group_view, list_groups_with_folders, new_group,
    next_rank, ranked_group, ranking_folders, ranking_groups, remove_group, removed_with_folders,
    rename_group, renamed, reorder_folders_in_group, reorder_groups,
};
use crate::models::{FolderGroup, FolderGroupDetail, FolderGroupView};
use crate::table::{table_wf, views, with_row, with_rows, Table, TableView};
use crate::text::{trim, trimmed};
use vstd::prelude::*;

verus! {

broadcast use vstd::string::group_string_axioms;

/// The announcement of a change of the folder groups.
#[derive(Debug)]
pub enum FolderGroupEvent {
    /// A group was created or renamed.
    Saved(FolderGroup),
    /// A group was removed, with so many folders.
    Removed { id: i32, cascaded_folders: u64 },
    /// The groups were reordered.
    Reordered(Vec<i32>),
    /// The folders of a group were reordered.
    FoldersReordered { group_id: i32, reordered_folders: Vec<i32> },
}

/// What a [`FolderGroupEvent`] holds.
pub enum FolderGroupEventView {
    Saved(FolderGroupView),
    Removed { id: i32, cascaded_folders: u64 },
    Reordered(Seq<i32>),
    FoldersReordered { group_id: i32, reordered_folders: Seq<i32> },
}

impl View for FolderGroupEvent {
    type V = FolderGroupEventView;

    open spec fn view(&self) -> FolderGroupEventView {
        match *self {
            FolderGroupEvent::Saved(g) => FolderGroupEventView::Saved(g@),
            FolderGroupEvent::Removed { id, cascaded_folders } => FolderGroupEventView::Removed {
                id,
                cascaded_folders,
            },
            FolderGroupEvent::Reordered(ids) => FolderGroupEventView::Reordered(ids@),
            FolderGroupEvent::FoldersReordered { group_id, reordered_folders } => {
                FolderGroupEventView::FoldersReordered {
                    group_id,
                    reordered_folders: reordered_folders@,
                }
            },
        }
    }
}

impl Clone for FolderGroup {
    fn clone(&self) -> (r: Self)
        ensures
            r == *self,
    {
        FolderGroup {
            id: self.id,
            name: self.name.clone(),
            sort_order: self.sort_order,
            created_at: self.created_at,
            updated_at: self.updated_at,
        }
    }
}

/// The folder groups, their folders, and the announcements made.
#[derive(Debug)]
pub struct FolderBook {
    pub groups: Table<folder_group::Model>,
    pub folders: Table<folder::Model>,
    pub events: Vec<FolderGroupEvent>,
}

/// What a [`FolderBook`] holds.
pub struct FolderBookView {
    pub groups: TableView<folder_group::ModelView>,
    pub folders: TableView<folder::ModelView>,
    pub events: Seq<FolderGroupEventView>,
}

impl View for FolderBook {
    type V = FolderBookView;

    open spec fn view(&self) -> FolderBookView {
        FolderBookView {
            groups: self.groups@,
            folders: self.folders@,
            events: views(self.events@),
        }
    }
}

impl FolderBookView {
    /// Both tables are well-formed.
    pub open spec fn wf(self) -> bool {
        table_wf::<folder_group::Model>(self.groups) && table_wf::<folder::Model>(self.folders)
    }

    /// The book after one more announcement.
    pub open spec fn announce(self, e: FolderGroupEventView) -> FolderBookView {
        FolderBookView { events: self.events.push(e), ..self }
    }
}

impl FolderBook {
    /// Both tables are well-formed.
    pub open spec fn wf(&self) -> bool {
        self@.wf()
    }

    fn announce(&mut self, e: FolderGroupEvent)
        ensures
            final(self)@ == old(self)@.announce(e@),
    {
        let ghost before = self@;
        self.events.push(e);
        assert(self@.events =~= before.events.push(e@));
    }

    /// The groups in order, each with its folders in order.
    pub fn list_folder_groups_core(&self) -> (r: Vec<FolderGroupDetail>)
        requires
            self.wf(),
        ensures
            views(r@) == group_order(self@.groups.rows).map_values(
                ranked_group(self@.groups.rows, self@.folders.rows),
            ),
    {
        list_groups_with_folders(&self.groups, &self.folders)
    }

    /// Creates a group, behind the others, under the name without white space around
    /// it.
    pub fn create_folder_group_core(&mut self, name: String, now: Timestamp) -> (r: FolderGroup)
        requires
            old(self).wf(),
            old(self).groups.next_id < i32::MAX,
            next_rank(group_ranks(old(self)@.groups.rows)) <= i32::MAX,
        ensures
            ({
                let row = new_group(old(self)@.groups, trimmed(name@), now);
                &&& final(self)@ == (FolderBookView {
                    groups: with_row(old(self)@.groups, row),
                    ..old(self)@
                }).announce(FolderGroupEventView::Saved(group_view(row)))
                &&& r@ == group_view(row)
            }),
            final(self).wf(),
    {
        let group = create_group(&mut self.groups, trim(name.as_str()), now);
        self.announce(FolderGroupEvent::Saved(group.clone()));
        group
    }

    /// Renames a group. A group that is missing or removed is not, and nothing is
    /// announced.
    pub fn rename_folder_group_core(&mut self, group_id: i32, name: String, now: Timestamp) -> (r:
        Option<FolderGroup>)
        requires
            old(self).wf(),
        ensures
            ({
                let (groups, saved) = renamed(old(self)@.groups, group_id, trimmed(name@), now);
                let book = FolderBookView { groups, ..old(self)@ };
                match saved {
                    Some(g) => r is Some && r->Some_0@ == g && final(self)@ == book.announce(
                        FolderGroupEventView::Saved(g),
                    ),
                    None => r is None && final(self)@ == book,
                }
            }),
            final(self).wf(),
    {
        match rename_group(&mut self.groups, group_id, trim(name.as_str()), now) {
            Some(g) => {
                self.announce(FolderGroupEvent::Saved(g.clone()));
                Some(g)
            },
            None => None,
        }
    }

    /// Removes a group with its folders, and returns how many they were.
    pub fn remove_folder_group_core(&mut self, group_id: i32, now: Timestamp) -> (r: u64)
        requires
            old(self).wf(),
        ensures
            ({
                let (groups, folders, n) = removed_with_folders(
                    old(self)@.groups,
                    old(self)@.folders,
                    group_id,
                    now,
                );
                &&& r == n
                &&& final(self)@ == (FolderBookView {
                    groups,
                    folders,
                    ..old(self)@
                }).announce(FolderGroupEventView::Removed { id: group_id, cascaded_folders: r })
            }),
            final(self).wf(),
    {
        let cascaded: u64 = remove_group(&mut self.groups, &mut self.folders, group_id, now);
        self.announce(FolderGroupEvent::Removed { id: group_id, cascaded_folders: cascaded });
        cascaded
    }

    /// Reorders the groups.
    pub fn reorder_folder_groups_core(&mut self, ordered_ids: Vec<i32>, now: Timestamp)
        requires
            old(self).wf(),
        ensures
            final(self)@ == (FolderBookView {
                groups: with_rows(
                    old(self)@.groups,
                    old(self)@.groups.rows.map_values(ranking_groups(ordered_ids@, now)),
                ),
                ..old(self)@
            }).announce(FolderGroupEventView::Reordered(ordered_ids@)),
            final(self).wf(),
    {
        reorder_groups(&mut self.groups, &ordered_ids, now);
        self.announce(FolderGroupEvent::Reordered(ordered_ids));
    }

    /// Reorders the folders of a group.
    pub fn reorder_folders_in_group_core(
        &mut self,
        group_id: i32,
        ordered_folder_ids: Vec<i32>,
        now: Timestamp,
    )
        requires
            old(self).wf(),
        ensures
            final(self)@ == (FolderBookView {
                folders: with_rows(
                    old(self)@.folders,
                    old(self)@.folders.rows.map_values(
                        ranking_folders(group_id, ordered_folder_ids@, now),
                    ),
                ),
                ..old(self)@
            }).announce(
                FolderGroupEventView::FoldersReordered {
                    group_id,
                    reordered_folders: ordered_folder_ids@,
                },
            ),
            final(self).wf(),
    {
        reorder_folders_in_group(&mut self.folders, group_id, &ordered_folder_ids, now);
        self.announce(
            FolderGroupEvent::FoldersReordered { group_id, reordered_folders: ordered_folder_ids },
        );
    }
}

} // verus!
