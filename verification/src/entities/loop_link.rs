//! Links: directed edges between artifacts.

use crate::clock::Timestamp;
use crate::table::Row;
use vstd::prelude::*;

verus! {

/// What an edge says.
#[derive(Debug, Clone, Copy, PartialEq, Eq, Structural)]
pub enum LinkKind {
    /// The source was derived from the target.
    DerivesFrom,
    /// The source results from the target.
    ResultsFrom,
}

/// One edge.
#[derive(Debug, Clone, Copy, PartialEq, Eq, Structural)]
pub struct Model {
    pub id: i32,
    pub space_id: i32,
    pub from_artifact_id: i32,
    pub to_artifact_id: i32,
    pub kind: LinkKind,
    /// The target revision that the edge is bound to.
    pub source_revision_id: Option<i32>,
    pub created_at: Timestamp,
}

impl View for Model {
    type V = Model;

    open spec fn view(&self) -> Model {
        *self
    }
}

impl Row for Model {
    open spec fn id_of(v: Model) -> i32 {
        v.id
    }

    fn row_id(&self) -> (r: i32) {
        self.id
    }
}

} // verus!
