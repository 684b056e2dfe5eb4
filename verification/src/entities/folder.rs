//! Folders: directories known to the application.

use crate::clock::Timestamp;
use crate::table::Row;
use crate::text::opt_text;
use vstd::prelude::*;

verus! {

/// One folder.
#[derive(Debug)]
pub struct Model {
    pub id: i32,
    pub path: String,
    pub name: String,
    pub last_opened_at: Timestamp,
    /// The group the folder is in.
    pub group_id: Option<i32>,
    pub sort_order_in_group: i32,
    pub git_branch: Option<String>,
    pub is_open: bool,
    pub updated_at: Timestamp,
    /// Set when the folder was removed; the row is kept.
    pub deleted_at: Option<Timestamp>,
}

/// What a row holds, with its texts as sequences of characters.
pub struct ModelView {
    pub id: i32,
    pub path: Seq<char>,
    pub name: Seq<char>,
    pub last_opened_at: Timestamp,
    pub group_id: Option<i32>,
    pub sort_order_in_group: i32,
    pub git_branch: Option<Seq<char>>,
    pub is_open: bool,
    pub updated_at: Timestamp,
    pub deleted_at: Option<Timestamp>,
}

impl View for Model {
    type V = ModelView;

    open spec fn view(&self) -> ModelView {
        ModelView {
            id: self.id,
            path: self.path@,
            name: self.name@,
            last_opened_at: self.last_opened_at,
            group_id: self.group_id,
            sort_order_in_group: self.sort_order_in_group,
            git_branch: opt_text(self.git_branch),
            is_open: self.is_open,
            updated_at: self.updated_at,
            deleted_at: self.deleted_at,
        }
    }
}

impl Clone for Model {
    fn clone(&self) -> (r: Self)
        ensures
            r == *self,
    {
        Model {
            id: self.id,
            path: self.path.clone(),
            name: self.name.clone(),
            last_opened_at: self.last_opened_at,
            group_id: self.group_id,
            sort_order_in_group: self.sort_order_in_group,
            git_branch: self.git_branch.clone(),
            is_open: self.is_open,
            updated_at: self.updated_at,
            deleted_at: self.deleted_at,
        }
    }
}

impl Row for Model {
    open spec fn id_of(v: ModelView) -> i32 {
        v.id
    }

    fn row_id(&self) -> (r: i32) {
        self.id
    }
}

} // verus!
