//! Revisions: the content of an artifact over time.

use crate::clock::Timestamp;
use crate::table::Row;
use vstd::prelude::*;

verus! {

/// Who wrote something.
#[derive(Debug, Clone, Copy, PartialEq, Eq, Structural)]
pub enum ActorKind {
    Human,
    Agent,
}

/// One revision of an artifact.
#[derive(Debug)]
pub struct Model {
    pub id: i32,
    pub artifact_id: i32,
    pub content: String,
    pub actor_kind: ActorKind,
    pub produced_by_iteration_id: Option<i32>,
    pub created_at: Timestamp,
}

/// What a row holds, with its texts as sequences of characters.
pub struct ModelView {
    pub id: i32,
    pub artifact_id: i32,
    pub content: Seq<char>,
    pub actor_kind: ActorKind,
    pub produced_by_iteration_id: Option<i32>,
    pub created_at: Timestamp,
}

impl View for Model {
    type V = ModelView;

    open spec fn view(&self) -> ModelView {
        ModelView {
            id: self.id,
            artifact_id: self.artifact_id,
            content: self.content@,
            actor_kind: self.actor_kind,
            produced_by_iteration_id: self.produced_by_iteration_id,
            created_at: self.created_at,
        }
    }
}

impl Clone for Model {
    fn clone(&self) -> (r: Self)
        ensures
            r == *self,
    {
        Model {
            id: self.id,
            artifact_id: self.artifact_id,
            content: self.content.clone(),
            actor_kind: self.actor_kind,
            produced_by_iteration_id: self.produced_by_iteration_id,
            created_at: self.created_at,
        }
    }
}

impl Row for Model {
    open spec fn id_of(v: ModelView) -> i32 {
        v.id
    }

    fn row_id(&self) -> (r: i32) {
        self.id
    }
}

} // verus!
