//! Issues: the unit of work a loop drives to completion.

use crate::clock::Timestamp;
use crate::table::Row;
use crate::text::opt_text;
use vstd::prelude::*;

verus! {

/// Where an issue stands.
#[derive(Debug, Clone, Copy, PartialEq, Eq, Structural)]
pub enum IssueStatus {
    Pending,
    Running,
    Paused,
    Blocked,
    Done,
    Cancelled,
}

/// Why a paused issue is paused.
#[derive(Debug, Clone, Copy, PartialEq, Eq, Structural)]
pub enum PauseReason {
    /// A person paused it.
    Manual,
    /// It ran out of its token budget.
    Budget,
}

/// One issue.
#[derive(Debug)]
pub struct Model {
    pub id: i32,
    pub space_id: i32,
    /// Number of the issue within its space.
    pub seq_no: i32,
    pub title: String,
    pub status: IssueStatus,
    pub pause_reason: Option<PauseReason>,
    pub token_budget: Option<i64>,
    pub token_used: i64,
    /// The folder row of the issue worktree, once it exists.
    pub worktree_folder_id: Option<i32>,
    /// The branch the issue lands on.
    pub base_branch: Option<String>,
    /// The commit of the base branch that the issue branched from.
    pub base_commit: Option<String>,
    /// `parallel` for an issue whose tasks run side by side.
    pub execution_mode: Option<String>,
    /// The write-once fan-in session lock, as JSON.
    pub fan_in_manifest: Option<String>,
    /// The integrate tip that a conflict resolver was last dispatched from.
    pub fan_in_resolver_tip: Option<String>,
    pub created_at: Timestamp,
    pub updated_at: Timestamp,
    pub ended_at: Option<Timestamp>,
}

/// What a row holds, with its texts as sequences of characters.
pub struct ModelView {
    pub id: i32,
    pub space_id: i32,
    pub seq_no: i32,
    pub title: Seq<char>,
    pub status: IssueStatus,
    pub pause_reason: Option<PauseReason>,
    pub token_budget: Option<i64>,
    pub token_used: i64,
    pub worktree_folder_id: Option<i32>,
    pub base_branch: Option<Seq<char>>,
    pub base_commit: Option<Seq<char>>,
    pub execution_mode: Option<Seq<char>>,
    pub fan_in_manifest: Option<Seq<char>>,
    pub fan_in_resolver_tip: Option<Seq<char>>,
    pub created_at: Timestamp,
    pub updated_at: Timestamp,
    pub ended_at: Option<Timestamp>,
}

impl View for Model {
    type V = ModelView;

    open spec fn view(&self) -> ModelView {
        ModelView {
            id: self.id,
            space_id: self.space_id,
            seq_no: self.seq_no,
            title: self.title@,
            status: self.status,
            pause_reason: self.pause_reason,
            token_budget: self.token_budget,
            token_used: self.token_used,
            worktree_folder_id: self.worktree_folder_id,
            base_branch: opt_text(self.base_branch),
            base_commit: opt_text(self.base_commit),
            execution_mode: opt_text(self.execution_mode),
            fan_in_manifest: opt_text(self.fan_in_manifest),
            fan_in_resolver_tip: opt_text(self.fan_in_resolver_tip),
            created_at: self.created_at,
            updated_at: self.updated_at,
            ended_at: self.ended_at,
        }
    }
}

impl Clone for Model {
    fn clone(&self) -> (r: Self)
        ensures
            r == *self,
    {
        Model {
            id: self.id,
            space_id: self.space_id,
            seq_no: self.seq_no,
            title: self.title.clone(),
            status: self.status,
            pause_reason: self.pause_reason,
            token_budget: self.token_budget,
            token_used: self.token_used,
            worktree_folder_id: self.worktree_folder_id,
            base_branch: self.base_branch.clone(),
            base_commit: self.base_commit.clone(),
            execution_mode: self.execution_mode.clone(),
            fan_in_manifest: self.fan_in_manifest.clone(),
            fan_in_resolver_tip: self.fan_in_resolver_tip.clone(),
            created_at: self.created_at,
            updated_at: self.updated_at,
            ended_at: self.ended_at,
        }
    }
}

impl Row for Model {
    open spec fn id_of(v: ModelView) -> i32 {
        v.id
    }

    fn row_id(&self) -> (r: i32) {
        self.id
    }
}

} // verus!
