//! Spaces: a repository with its issues.

use crate::clock::Timestamp;
use crate::table::Row;
use vstd::prelude::*;

verus! {

/// One space.
#[derive(Debug)]
pub struct Model {
    pub id: i32,
    pub name: String,
    /// The bound root folder, which must be a git repository.
    pub folder_id: i32,
    /// Default issue configuration, as JSON.
    pub default_config: String,
    pub created_at: Timestamp,
    pub updated_at: Timestamp,
}

/// What a row holds, with its texts as sequences of characters.
pub struct ModelView {
    pub id: i32,
    pub name: Seq<char>,
    pub folder_id: i32,
    pub default_config: Seq<char>,
    pub created_at: Timestamp,
    pub updated_at: Timestamp,
}

impl View for Model {
    type V = ModelView;

    open spec fn view(&self) -> ModelView {
        ModelView {
            id: self.id,
            name: self.name@,
            folder_id: self.folder_id,
            default_config: self.default_config@,
            created_at: self.created_at,
            updated_at: self.updated_at,
        }
    }
}

impl Clone for Model {
    fn clone(&self) -> (r: Self)
        ensures
            r == *self,
    {
        Model {
            id: self.id,
            name: self.name.clone(),
            folder_id: self.folder_id,
            default_config: self.default_config.clone(),
            created_at: self.created_at,
            updated_at: self.updated_at,
        }
    }
}

impl Row for Model {
    open spec fn id_of(v: ModelView) -> i32 {
        v.id
    }

    fn row_id(&self) -> (r: i32) {
        self.id
    }
}

} // verus!
