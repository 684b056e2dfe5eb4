//! Artifacts: the nodes of an issue's lineage graph.

use crate::clock::Timestamp;
use crate::entities::loop_artifact_revision::ActorKind;
use crate::table::Row;
use crate::text::opt_text;
use vstd::prelude::*;

verus! {

/// Node kind, one column of the per-issue lineage graph.
#[derive(Debug, Clone, Copy, PartialEq, Eq, Structural)]
pub enum ArtifactKind {
    Issue,
    Requirement,
    Design,
    Task,
    Review,
    Result,
    /// Post-merge retrospective produced by the reflect stage. At most one per
    /// issue: the durable anchor that memory consolidation is done.
    Reflection,
}

/// Engine-driven node status (humans change it only through gates).
#[derive(Debug, Clone, Copy, PartialEq, Eq, Structural)]
pub enum ArtifactStatus {
    Pending,
    InProgress,
    AwaitingApproval,
    Done,
    Blocked,
    Superseded,
    Cancelled,
}

/// Verdict carried only by review artifacts.
#[derive(Debug, Clone, Copy, PartialEq, Eq, Structural)]
pub enum ReviewVerdict {
    Pass,
    Fail,
}

/// Whether a done task contributed a real diff (its frozen `fan_in_commit`) or was
/// an agent-declared no-op (already satisfied, without a commit).
#[derive(Debug, Clone, Copy, PartialEq, Eq, Structural)]
pub enum ContributionKind {
    Delta,
    NoOp,
}

/// One artifact.
#[derive(Debug)]
pub struct Model {
    pub id: i32,
    pub space_id: i32,
    pub issue_id: i32,
    pub kind: ArtifactKind,
    pub title: String,
    pub status: ArtifactStatus,
    pub origin: ActorKind,
    /// Iteration that produced this node.
    pub produced_by_iteration_id: Option<i32>,
    /// Only set for reviews.
    pub verdict: Option<ReviewVerdict>,
    /// Node-level rework counter (the no-progress circuit breaker reads it).
    pub attempt: i32,
    pub last_failure_sig: Option<String>,
    /// Frozen integration commit, recorded when a task turns done. The fan-in
    /// merges these, never live branch tips.
    pub fan_in_commit: Option<String>,
    pub sort: i32,
    pub created_at: Timestamp,
    pub updated_at: Timestamp,
    pub contribution_kind: ContributionKind,
    /// Consecutive blocks with the same signature.
    pub oscillation_count: i32,
    /// The signature of the current oscillation epoch.
    pub recent_failure_sig: Option<String>,
}

/// What a row holds, with its texts as sequences of characters.
pub struct ModelView {
    pub id: i32,
    pub space_id: i32,
    pub issue_id: i32,
    pub kind: ArtifactKind,
    pub title: Seq<char>,
    pub status: ArtifactStatus,
    pub origin: ActorKind,
    pub produced_by_iteration_id: Option<i32>,
    pub verdict: Option<ReviewVerdict>,
    pub attempt: i32,
    pub last_failure_sig: Option<Seq<char>>,
    pub fan_in_commit: Option<Seq<char>>,
    pub sort: i32,
    pub created_at: Timestamp,
    pub updated_at: Timestamp,
    pub contribution_kind: ContributionKind,
    pub oscillation_count: i32,
    pub recent_failure_sig: Option<Seq<char>>,
}

impl View for Model {
    type V = ModelView;

    open spec fn view(&self) -> ModelView {
        ModelView {
            id: self.id,
            space_id: self.space_id,
            issue_id: self.issue_id,
            kind: self.kind,
            title: self.title@,
            status: self.status,
            origin: self.origin,
            produced_by_iteration_id: self.produced_by_iteration_id,
            verdict: self.verdict,
            attempt: self.attempt,
            last_failure_sig: opt_text(self.last_failure_sig),
            fan_in_commit: opt_text(self.fan_in_commit),
            sort: self.sort,
            created_at: self.created_at,
            updated_at: self.updated_at,
            contribution_kind: self.contribution_kind,
            oscillation_count: self.oscillation_count,
            recent_failure_sig: opt_text(self.recent_failure_sig),
        }
    }
}

impl Clone for Model {
    fn clone(&self) -> (r: Self)
        ensures
            r == *self,
    {
        Model {
            id: self.id,
            space_id: self.space_id,
            issue_id: self.issue_id,
            kind: self.kind,
            title: self.title.clone(),
            status: self.status,
            origin: self.origin,
            produced_by_iteration_id: self.produced_by_iteration_id,
            verdict: self.verdict,
            attempt: self.attempt,
            last_failure_sig: self.last_failure_sig.clone(),
            fan_in_commit: self.fan_in_commit.clone(),
            sort: self.sort,
            created_at: self.created_at,
            updated_at: self.updated_at,
            contribution_kind: self.contribution_kind,
            oscillation_count: self.oscillation_count,
            recent_failure_sig: self.recent_failure_sig.clone(),
        }
    }
}

impl Row for Model {
    open spec fn id_of(v: ModelView) -> i32 {
        v.id
    }

    fn row_id(&self) -> (r: i32) {
        self.id
    }
}

} // verus!
