//! Criteria: what an artifact is judged by.

use crate::table::Row;
use vstd::prelude::*;

verus! {

/// Criterion category. Requirements and tasks carry only acceptance criteria;
/// designs carry the cross-cutting kinds.
#[derive(Debug, Clone, Copy, PartialEq, Eq, Structural)]
pub enum CriterionKind {
    Acceptance,
    Constraint,
    Invariant,
    Obligation,
}

/// One criterion.
#[derive(Debug)]
pub struct Model {
    pub id: i32,
    /// The artifact that has the criterion.
    pub artifact_id: i32,
    /// Label like `AC-1`.
    pub label: String,
    pub text: String,
    pub sort: i32,
    pub kind: CriterionKind,
}

/// What a row holds, with its texts as sequences of characters.
pub struct ModelView {
    pub id: i32,
    pub artifact_id: i32,
    pub label: Seq<char>,
    pub text: Seq<char>,
    pub sort: i32,
    pub kind: CriterionKind,
}

impl View for Model {
    type V = ModelView;

    open spec fn view(&self) -> ModelView {
        ModelView {
            id: self.id,
            artifact_id: self.artifact_id,
            label: self.label@,
            text: self.text@,
            sort: self.sort,
            kind: self.kind,
        }
    }
}

impl Clone for Model {
    fn clone(&self) -> (r: Self)
        ensures
            r == *self,
    {
        Model {
            id: self.id,
            artifact_id: self.artifact_id,
            label: self.label.clone(),
            text: self.text.clone(),
            sort: self.sort,
            kind: self.kind,
        }
    }
}

impl Row for Model {
    open spec fn id_of(v: ModelView) -> i32 {
        v.id
    }

    fn row_id(&self) -> (r: i32) {
        self.id
    }
}

} // verus!
