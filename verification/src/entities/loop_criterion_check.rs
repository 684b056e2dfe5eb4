//! Criterion checks: a structured pass or fail of one criterion.

use crate::clock::Timestamp;
use crate::table::Row;
use vstd::prelude::*;

verus! {

/// Whether the criterion holds.
#[derive(Debug, Clone, Copy, PartialEq, Eq, Structural)]
pub enum CheckVerdict {
    Pass,
    Fail,
}

/// One verdict on one criterion.
#[derive(Debug)]
pub struct Model {
    pub id: i32,
    pub space_id: i32,
    pub criterion_id: i32,
    /// The iteration that judged; its slot counts for the quorum.
    pub iteration_id: i32,
    /// The artifact that was judged: a task, or the result.
    pub scope_artifact_id: i32,
    pub verdict: CheckVerdict,
    pub evidence: String,
    pub created_at: Timestamp,
}

/// What a row holds, with its texts as sequences of characters.
pub struct ModelView {
    pub id: i32,
    pub space_id: i32,
    pub criterion_id: i32,
    pub iteration_id: i32,
    pub scope_artifact_id: i32,
    pub verdict: CheckVerdict,
    pub evidence: Seq<char>,
    pub created_at: Timestamp,
}

impl View for Model {
    type V = ModelView;

    open spec fn view(&self) -> ModelView {
        ModelView {
            id: self.id,
            space_id: self.space_id,
            criterion_id: self.criterion_id,
            iteration_id: self.iteration_id,
            scope_artifact_id: self.scope_artifact_id,
            verdict: self.verdict,
            evidence: self.evidence@,
            created_at: self.created_at,
        }
    }
}

impl Clone for Model {
    fn clone(&self) -> (r: Self)
        ensures
            r == *self,
    {
        Model {
            id: self.id,
            space_id: self.space_id,
            criterion_id: self.criterion_id,
            iteration_id: self.iteration_id,
            scope_artifact_id: self.scope_artifact_id,
            verdict: self.verdict,
            evidence: self.evidence.clone(),
            created_at: self.created_at,
        }
    }
}

impl Row for Model {
    open spec fn id_of(v: ModelView) -> i32 {
        v.id
    }

    fn row_id(&self) -> (r: i32) {
        self.id
    }
}

} // verus!
