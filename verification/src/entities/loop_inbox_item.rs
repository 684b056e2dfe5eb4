//! Inbox cards: what a person has to look at.

use crate::clock::Timestamp;
use crate::table::Row;
use crate::text::opt_text;
use vstd::prelude::*;

verus! {

/// What a card asks for.
#[derive(Debug, Clone, Copy, PartialEq, Eq, Structural)]
pub enum InboxKind {
    Approval,
    Blocked,
    BudgetExhausted,
    Question,
    ReflectionFailed,
}

/// Whether a card still waits for a person.
#[derive(Debug, Clone, Copy, PartialEq, Eq, Structural)]
pub enum InboxStatus {
    Pending,
    Handled,
}

/// One inbox card.
#[derive(Debug)]
pub struct Model {
    pub id: i32,
    pub space_id: i32,
    pub issue_id: i32,
    pub iteration_id: Option<i32>,
    pub kind: InboxKind,
    /// `{prefix}:{id}`: what the card is about.
    pub subject_key: String,
    /// JSON.
    pub payload: String,
    pub status: InboxStatus,
    /// JSON, once handled.
    pub resolution: Option<String>,
    pub created_at: Timestamp,
    pub handled_at: Option<Timestamp>,
}

/// What a row holds, with its texts as sequences of characters.
pub struct ModelView {
    pub id: i32,
    pub space_id: i32,
    pub issue_id: i32,
    pub iteration_id: Option<i32>,
    pub kind: InboxKind,
    pub subject_key: Seq<char>,
    pub payload: Seq<char>,
    pub status: InboxStatus,
    pub resolution: Option<Seq<char>>,
    pub created_at: Timestamp,
    pub handled_at: Option<Timestamp>,
}

impl View for Model {
    type V = ModelView;

    open spec fn view(&self) -> ModelView {
        ModelView {
            id: self.id,
            space_id: self.space_id,
            issue_id: self.issue_id,
            iteration_id: self.iteration_id,
            kind: self.kind,
            subject_key: self.subject_key@,
            payload: self.payload@,
            status: self.status,
            resolution: opt_text(self.resolution),
            created_at: self.created_at,
            handled_at: self.handled_at,
        }
    }
}

impl Clone for Model {
    fn clone(&self) -> (r: Self)
        ensures
            r == *self,
    {
        Model {
            id: self.id,
            space_id: self.space_id,
            issue_id: self.issue_id,
            iteration_id: self.iteration_id,
            kind: self.kind,
            subject_key: self.subject_key.clone(),
            payload: self.payload.clone(),
            status: self.status,
            resolution: self.resolution.clone(),
            created_at: self.created_at,
            handled_at: self.handled_at,
        }
    }
}

impl Row for Model {
    open spec fn id_of(v: ModelView) -> i32 {
        v.id
    }

    fn row_id(&self) -> (r: i32) {
        self.id
    }
}

} // verus!
