//! Folder groups: named, ordered groups of folders.

use crate::clock::Timestamp;
use crate::table::Row;
use vstd::prelude::*;

verus! {

/// One folder group.
#[derive(Debug)]
pub struct Model {
    pub id: i32,
    pub name: String,
    pub sort_order: i32,
    pub created_at: Timestamp,
    pub updated_at: Timestamp,
    /// Set when the group was removed; the row is kept.
    pub deleted_at: Option<Timestamp>,
}

/// What a row holds, with its texts as sequences of characters.
pub struct ModelView {
    pub id: i32,
    pub name: Seq<char>,
    pub sort_order: i32,
    pub created_at: Timestamp,
    pub updated_at: Timestamp,
    pub deleted_at: Option<Timestamp>,
}

impl View for Model {
    type V = ModelView;

    open spec fn view(&self) -> ModelView {
        ModelView {
            id: self.id,
            name: self.name@,
            sort_order: self.sort_order,
            created_at: self.created_at,
            updated_at: self.updated_at,
            deleted_at: self.deleted_at,
        }
    }
}

impl Clone for Model {
    fn clone(&self) -> (r: Self)
        ensures
            r == *self,
    {
        Model {
            id: self.id,
            name: self.name.clone(),
            sort_order: self.sort_order,
            created_at: self.created_at,
            updated_at: self.updated_at,
            deleted_at: self.deleted_at,
        }
    }
}

impl Row for Model {
    open spec fn id_of(v: ModelView) -> i32 {
        v.id
    }

    fn row_id(&self) -> (r: i32) {
        self.id
    }
}

} // verus!
