//! Iterations: one agent run each.

use crate::clock::Timestamp;
use crate::table::Row;
use crate::text::opt_text;
use vstd::prelude::*;

verus! {

/// What an iteration's agent run does.
#[derive(Debug, Clone, Copy, PartialEq, Eq, Structural)]
pub enum Stage {
    Triage,
    Refine,
    Design,
    Plan,
    Implement,
    Review,
    Finalize,
    /// Post-merge memory consolidation: issue-level, on a done issue, best-effort.
    Reflect,
}

/// Where an iteration stands.
#[derive(Debug, Clone, Copy, PartialEq, Eq, Structural)]
pub enum IterationStatus {
    Queued,
    Running,
    Succeeded,
    Failed,
    Interrupted,
    Cancelled,
}

/// Why an iteration ended. Written once; without one the run is still in flight,
/// or it is a settled implement run before its checkpoint.
#[derive(Debug, Clone, Copy, PartialEq, Eq, Structural)]
pub enum IterationOutcome {
    /// A read-stage run that produced its artifact, or a validated implement.
    Succeeded,
    /// An implement run whose checkpoint found no file changes.
    EmptyDiff,
    /// An implement run whose deterministic validation failed.
    ValidationFailed,
    /// The agent declared the task already complete.
    DeclaredComplete,
    /// A read-stage run that settled without producing its expected artifact.
    NoArtifacts,
    /// Cancelled, failed or interrupted before settling a real outcome.
    Abandoned,
}

/// Who launched the iteration.
#[derive(Debug, Clone, Copy, PartialEq, Eq, Structural)]
pub enum LaunchedBy {
    Engine,
    Human,
}

/// One iteration.
#[derive(Debug)]
pub struct Model {
    pub id: i32,
    pub space_id: i32,
    pub issue_id: i32,
    pub stage: Stage,
    /// Node being advanced or reviewed.
    pub target_artifact_id: Option<i32>,
    /// Review slot; none for other stages.
    pub slot_no: Option<i32>,
    /// Backing loop conversation; none between lease acquisition and its creation.
    pub conversation_id: Option<i32>,
    /// Unique secret by which the host finds this iteration again.
    pub capability_token: String,
    pub status: IterationStatus,
    pub launched_by: LaunchedBy,
    pub attempt: i32,
    pub tokens_used: i64,
    /// Settlement could not read the token total; a later sweep charges it.
    pub tokens_pending: bool,
    /// JSON-encoded briefing manifest.
    pub context_manifest: Option<String>,
    pub created_at: Timestamp,
    pub started_at: Option<Timestamp>,
    pub ended_at: Option<Timestamp>,
    /// Why the run ended; write-once.
    pub outcome: Option<IterationOutcome>,
    /// The agent's reason when it declares the task already satisfied.
    pub agent_completion_reason: Option<String>,
}

/// What a row holds, with its texts as sequences of characters.
pub struct ModelView {
    pub id: i32,
    pub space_id: i32,
    pub issue_id: i32,
    pub stage: Stage,
    pub target_artifact_id: Option<i32>,
    pub slot_no: Option<i32>,
    pub conversation_id: Option<i32>,
    pub capability_token: Seq<char>,
    pub status: IterationStatus,
    pub launched_by: LaunchedBy,
    pub attempt: i32,
    pub tokens_used: i64,
    pub tokens_pending: bool,
    pub context_manifest: Option<Seq<char>>,
    pub created_at: Timestamp,
    pub started_at: Option<Timestamp>,
    pub ended_at: Option<Timestamp>,
    pub outcome: Option<IterationOutcome>,
    pub agent_completion_reason: Option<Seq<char>>,
}

impl View for Model {
    type V = ModelView;

    open spec fn view(&self) -> ModelView {
        ModelView {
            id: self.id,
            space_id: self.space_id,
            issue_id: self.issue_id,
            stage: self.stage,
            target_artifact_id: self.target_artifact_id,
            slot_no: self.slot_no,
            conversation_id: self.conversation_id,
            capability_token: self.capability_token@,
            status: self.status,
            launched_by: self.launched_by,
            attempt: self.attempt,
            tokens_used: self.tokens_used,
            tokens_pending: self.tokens_pending,
            context_manifest: opt_text(self.context_manifest),
            created_at: self.created_at,
            started_at: self.started_at,
            ended_at: self.ended_at,
            outcome: self.outcome,
            agent_completion_reason: opt_text(self.agent_completion_reason),
        }
    }
}

impl Clone for Model {
    fn clone(&self) -> (r: Self)
        ensures
            r == *self,
    {
        Model {
            id: self.id,
            space_id: self.space_id,
            issue_id: self.issue_id,
            stage: self.stage,
            target_artifact_id: self.target_artifact_id,
            slot_no: self.slot_no,
            conversation_id: self.conversation_id,
            capability_token: self.capability_token.clone(),
            status: self.status,
            launched_by: self.launched_by,
            attempt: self.attempt,
            tokens_used: self.tokens_used,
            tokens_pending: self.tokens_pending,
            context_manifest: self.context_manifest.clone(),
            created_at: self.created_at,
            started_at: self.started_at,
            ended_at: self.ended_at,
            outcome: self.outcome,
            agent_completion_reason: self.agent_completion_reason.clone(),
        }
    }
}

impl Row for Model {
    open spec fn id_of(v: ModelView) -> i32 {
        v.id
    }

    fn row_id(&self) -> (r: i32) {
        self.id
    }
}

} // verus!
