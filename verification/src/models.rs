//! Read models: what the services hand to their callers.

use crate::clock::Timestamp;
use crate::entities::loop_artifact_revision::ActorKind;
use crate::entities::loop_inbox_item::{InboxKind, InboxStatus};
use crate::entities::loop_iteration::{IterationStatus, LaunchedBy, Stage};
use crate::entities::loop_link::LinkKind;
use crate::entities::loop_memory::{MemoryKind, MemoryStatus, TrustTier};
use crate::json::{json_view, JsonView};
use crate::table::views;
use crate::text::opt_text;
use serde_json::Value;
use vstd::prelude::*;

verus! {

/// An inbox card with its subject resolved.
#[derive(Debug)]
pub struct LoopInboxItemRow {
    pub id: i32,
    pub issue_id: i32,
    pub issue_seq: i32,
    pub iteration_id: Option<i32>,
    pub kind: InboxKind,
    pub subject_key: String,
    pub payload: Value,
    pub status: InboxStatus,
    /// The artifact the card is about, if there is one.
    pub subject_artifact_id: Option<i32>,
    pub subject_title: Option<String>,
    pub created_at: Timestamp,
}

/// What a [`LoopInboxItemRow`] holds.
pub struct LoopInboxItemRowView {
    pub id: i32,
    pub issue_id: i32,
    pub issue_seq: i32,
    pub iteration_id: Option<i32>,
    pub kind: InboxKind,
    pub subject_key: Seq<char>,
    pub payload: JsonView,
    pub status: InboxStatus,
    pub subject_artifact_id: Option<i32>,
    pub subject_title: Option<Seq<char>>,
    pub created_at: Timestamp,
}

impl View for LoopInboxItemRow {
    type V = LoopInboxItemRowView;

    open spec fn view(&self) -> LoopInboxItemRowView {
        LoopInboxItemRowView {
            id: self.id,
            issue_id: self.issue_id,
            issue_seq: self.issue_seq,
            iteration_id: self.iteration_id,
            kind: self.kind,
            subject_key: self.subject_key@,
            payload: json_view(self.payload),
            status: self.status,
            subject_artifact_id: self.subject_artifact_id,
            subject_title: opt_text(self.subject_title),
            created_at: self.created_at,
        }
    }
}

/// How many pending cards of a space wait for a person.
#[derive(Debug, Clone, Copy, PartialEq, Eq, Structural)]
pub struct LoopSpaceAttention {
    pub space_id: i32,
    pub blocking: i64,
    pub notice: i64,
}

impl View for LoopSpaceAttention {
    type V = LoopSpaceAttention;

    open spec fn view(&self) -> LoopSpaceAttention {
        *self
    }
}

/// An iteration with the title of its target.
#[derive(Debug)]
pub struct LoopIterationRow {
    pub id: i32,
    pub issue_id: i32,
    pub issue_seq: i32,
    pub stage: Stage,
    pub target_artifact_id: Option<i32>,
    pub target_title: Option<String>,
    pub conversation_id: Option<i32>,
    pub status: IterationStatus,
    pub launched_by: LaunchedBy,
    pub attempt: i32,
    pub tokens_used: i64,
    pub created_at: Timestamp,
    pub started_at: Option<Timestamp>,
    pub ended_at: Option<Timestamp>,
}

/// What a [`LoopIterationRow`] holds.
pub struct LoopIterationRowView {
    pub id: i32,
    pub issue_id: i32,
    pub issue_seq: i32,
    pub stage: Stage,
    pub target_artifact_id: Option<i32>,
    pub target_title: Option<Seq<char>>,
    pub conversation_id: Option<i32>,
    pub status: IterationStatus,
    pub launched_by: LaunchedBy,
    pub attempt: i32,
    pub tokens_used: i64,
    pub created_at: Timestamp,
    pub started_at: Option<Timestamp>,
    pub ended_at: Option<Timestamp>,
}

impl View for LoopIterationRow {
    type V = LoopIterationRowView;

    open spec fn view(&self) -> LoopIterationRowView {
        LoopIterationRowView {
            id: self.id,
            issue_id: self.issue_id,
            issue_seq: self.issue_seq,
            stage: self.stage,
            target_artifact_id: self.target_artifact_id,
            target_title: opt_text(self.target_title),
            conversation_id: self.conversation_id,
            status: self.status,
            launched_by: self.launched_by,
            attempt: self.attempt,
            tokens_used: self.tokens_used,
            created_at: self.created_at,
            started_at: self.started_at,
            ended_at: self.ended_at,
        }
    }
}

/// A coverage edge.
#[derive(Debug, Clone, Copy, PartialEq, Eq, Structural)]
pub struct LoopCoverageRow {
    pub id: i32,
    pub task_artifact_id: i32,
    pub criterion_id: i32,
}

impl View for LoopCoverageRow {
    type V = LoopCoverageRow;

    open spec fn view(&self) -> LoopCoverageRow {
        *self
    }
}

/// A lineage edge.
#[derive(Debug, Clone, Copy, PartialEq, Eq, Structural)]
pub struct LoopLinkRow {
    pub id: i32,
    pub from_artifact_id: i32,
    pub to_artifact_id: i32,
    pub kind: LinkKind,
    pub source_revision_id: Option<i32>,
}

impl View for LoopLinkRow {
    type V = LoopLinkRow;

    open spec fn view(&self) -> LoopLinkRow {
        *self
    }
}

/// A memory.
#[derive(Debug)]
pub struct LoopMemoryRow {
    pub id: i32,
    pub kind: MemoryKind,
    pub source: ActorKind,
    pub title: String,
    pub summary: Option<String>,
    pub content: String,
    pub trust_tier: TrustTier,
    pub status: MemoryStatus,
    pub superseded_by: Option<i32>,
    pub source_issue_id: Option<i32>,
    pub source_artifact_id: Option<i32>,
    pub produced_by_iteration_id: Option<i32>,
    pub created_at: Timestamp,
    pub updated_at: Timestamp,
}

/// What a [`LoopMemoryRow`] holds.
pub struct LoopMemoryRowView {
    pub id: i32,
    pub kind: MemoryKind,
    pub source: ActorKind,
    pub title: Seq<char>,
    pub summary: Option<Seq<char>>,
    pub content: Seq<char>,
    pub trust_tier: TrustTier,
    pub status: MemoryStatus,
    pub superseded_by: Option<i32>,
    pub source_issue_id: Option<i32>,
    pub source_artifact_id: Option<i32>,
    pub produced_by_iteration_id: Option<i32>,
    pub created_at: Timestamp,
    pub updated_at: Timestamp,
}

impl View for LoopMemoryRow {
    type V = LoopMemoryRowView;

    open spec fn view(&self) -> LoopMemoryRowView {
        LoopMemoryRowView {
            id: self.id,
            kind: self.kind,
            source: self.source,
            title: self.title@,
            summary: opt_text(self.summary),
            content: self.content@,
            trust_tier: self.trust_tier,
            status: self.status,
            superseded_by: self.superseded_by,
            source_issue_id: self.source_issue_id,
            source_artifact_id: self.source_artifact_id,
            produced_by_iteration_id: self.produced_by_iteration_id,
            created_at: self.created_at,
            updated_at: self.updated_at,
        }
    }
}

/// A folder group.
#[derive(Debug)]
pub struct FolderGroup {
    pub id: i32,
    pub name: String,
    pub sort_order: i32,
    pub created_at: Timestamp,
    pub updated_at: Timestamp,
}

/// What a [`FolderGroup`] holds.
pub struct FolderGroupView {
    pub id: i32,
    pub name: Seq<char>,
    pub sort_order: i32,
    pub created_at: Timestamp,
    pub updated_at: Timestamp,
}

impl View for FolderGroup {
    type V = FolderGroupView;

    open spec fn view(&self) -> FolderGroupView {
        FolderGroupView {
            id: self.id,
            name: self.name@,
            sort_order: self.sort_order,
            created_at: self.created_at,
            updated_at: self.updated_at,
        }
    }
}

/// A folder.
#[derive(Debug)]
pub struct FolderHistoryEntry {
    pub id: i32,
    pub path: String,
    pub name: String,
    pub last_opened_at: Timestamp,
    pub group_id: Option<i32>,
    pub sort_order_in_group: i32,
    pub git_branch: Option<String>,
    pub is_open: bool,
}

/// What a [`FolderHistoryEntry`] holds.
pub struct FolderHistoryEntryView {
    pub id: i32,
    pub path: Seq<char>,
    pub name: Seq<char>,
    pub last_opened_at: Timestamp,
    pub group_id: Option<i32>,
    pub sort_order_in_group: i32,
    pub git_branch: Option<Seq<char>>,
    pub is_open: bool,
}

impl View for FolderHistoryEntry {
    type V = FolderHistoryEntryView;

    open spec fn view(&self) -> FolderHistoryEntryView {
        FolderHistoryEntryView {
            id: self.id,
            path: self.path@,
            name: self.name@,
            last_opened_at: self.last_opened_at,
            group_id: self.group_id,
            sort_order_in_group: self.sort_order_in_group,
            git_branch: opt_text(self.git_branch),
            is_open: self.is_open,
        }
    }
}

/// A folder group with its folders.
#[derive(Debug)]
pub struct FolderGroupDetail {
    pub id: i32,
    pub name: String,
    pub sort_order: i32,
    pub created_at: Timestamp,
    pub updated_at: Timestamp,
    pub folders: Vec<FolderHistoryEntry>,
}

/// What a [`FolderGroupDetail`] holds.
pub struct FolderGroupDetailView {
    pub id: i32,
    pub name: Seq<char>,
    pub sort_order: i32,
    pub created_at: Timestamp,
    pub updated_at: Timestamp,
    pub folders: Seq<FolderHistoryEntryView>,
}

impl View for FolderGroupDetail {
    type V = FolderGroupDetailView;

    open spec fn view(&self) -> FolderGroupDetailView {
        FolderGroupDetailView {
            id: self.id,
            name: self.name@,
            sort_order: self.sort_order,
            created_at: self.created_at,
            updated_at: self.updated_at,
            folders: views(self.folders@),
        }
    }
}

} // verus!
