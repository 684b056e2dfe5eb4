//! Memories: durable lessons of a space.

use crate::clock::Timestamp;
use crate::entities::loop_artifact_revision::ActorKind;
use crate::table::Row;
use crate::text::opt_text;
use vstd::prelude::*;

verus! {

/// What a memory records.
#[derive(Debug, Clone, Copy, PartialEq, Eq, Structural)]
pub enum MemoryKind {
    Pitfall,
    Decision,
    Constraint,
    Preference,
    /// Injected whole into every briefing.
    Constitution,
}

/// Whether a memory is in the recall path.
#[derive(Debug, Clone, Copy, PartialEq, Eq, Structural)]
pub enum MemoryStatus {
    Active,
    Archived,
    Superseded,
}

/// How far a memory is trusted.
#[derive(Debug, Clone, Copy, PartialEq, Eq, Structural)]
pub enum TrustTier {
    Proposed,
    Human,
}

/// One memory.
#[derive(Debug)]
pub struct Model {
    pub id: i32,
    pub space_id: i32,
    pub kind: MemoryKind,
    pub source: ActorKind,
    pub title: String,
    pub summary: Option<String>,
    pub content: String,
    pub trust_tier: TrustTier,
    pub status: MemoryStatus,
    /// The memory that replaced this one.
    pub superseded_by: Option<i32>,
    pub source_issue_id: Option<i32>,
    pub source_artifact_id: Option<i32>,
    pub produced_by_iteration_id: Option<i32>,
    pub created_at: Timestamp,
    pub updated_at: Timestamp,
}

/// What a row holds, with its texts as sequences of characters.
pub struct ModelView {
    pub id: i32,
    pub space_id: i32,
    pub kind: MemoryKind,
    pub source: ActorKind,
    pub title: Seq<char>,
    pub summary: Option<Seq<char>>,
    pub content: Seq<char>,
    pub trust_tier: TrustTier,
    pub status: MemoryStatus,
    pub superseded_by: Option<i32>,
    pub source_issue_id: Option<i32>,
    pub source_artifact_id: Option<i32>,
    pub produced_by_iteration_id: Option<i32>,
    pub created_at: Timestamp,
    pub updated_at: Timestamp,
}

impl View for Model {
    type V = ModelView;

    open spec fn view(&self) -> ModelView {
        ModelView {
            id: self.id,
            space_id: self.space_id,
            kind: self.kind,
            source: self.source,
            title: self.title@,
            summary: opt_text(self.summary),
            content: self.content@,
            trust_tier: self.trust_tier,
            status: self.status,
            superseded_by: self.superseded_by,
            source_issue_id: self.source_issue_id,
            source_artifact_id: self.source_artifact_id,
            produced_by_iteration_id: self.produced_by_iteration_id,
            created_at: self.created_at,
            updated_at: self.updated_at,
        }
    }
}

impl Clone for Model {
    fn clone(&self) -> (r: Self)
        ensures
            r == *self,
    {
        Model {
            id: self.id,
            space_id: self.space_id,
            kind: self.kind,
            source: self.source,
            title: self.title.clone(),
            summary: self.summary.clone(),
            content: self.content.clone(),
            trust_tier: self.trust_tier,
            status: self.status,
            superseded_by: self.superseded_by,
            source_issue_id: self.source_issue_id,
            source_artifact_id: self.source_artifact_id,
            produced_by_iteration_id: self.produced_by_iteration_id,
            created_at: self.created_at,
            updated_at: self.updated_at,
        }
    }
}

impl Row for Model {
    open spec fn id_of(v: ModelView) -> i32 {
        v.id
    }

    fn row_id(&self) -> (r: i32) {
        self.id
    }
}

} // verus!
