//! Coverage: a task artifact claims that it satisfies a criterion.

use crate::clock::Timestamp;
use crate::table::Row;
use vstd::prelude::*;

verus! {

/// One coverage edge.
#[derive(Debug, Clone, Copy, PartialEq, Eq, Structural)]
pub struct Model {
    pub id: i32,
    pub space_id: i32,
    pub task_artifact_id: i32,
    pub criterion_id: i32,
    pub created_at: Timestamp,
}

impl View for Model {
    type V = Model;

    open spec fn view(&self) -> Model {
        *self
    }
}

impl Row for Model {
    open spec fn id_of(v: Model) -> i32 {
        v.id
    }

    fn row_id(&self) -> (r: i32) {
        self.id
    }
}

} // verus!
