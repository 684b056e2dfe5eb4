//! One tick of a parallel issue's result stage: integrate the frozen task commits onto
//! the issue branch, then make the result.
//!
//! The integration is deferred, recoverable and atomic:
//! 1. Claim the write-once session manifest, or adopt the one that is there.
//! 2. Merge each frozen commit in a temporary integrate worktree. A conflict is handed
//!    to an agent that resolves and commits it.
//! 3. Land the integrate tip on the issue branch, if that is still at its base. Only
//!    after landing is the result made, so that a failed landing never leaves one.
//!
//! Every step can be replayed after a crash:
//! - Whether the work has landed already is asked before any merge: if the issue branch
//!   has every frozen commit, the tick goes straight to the finish, without validating
//!   again.
//! - `fan_in_resolver_tip` tells a resolver that ran and failed (block) from a crash
//!   before it was dispatched (dispatch).
//!
//! The tick alternates decisions, made here, with git and agent work, done outside:
//! each [`FinalizeAction`] says what to do and what to come back with, and the next
//! [`FinalizeEvent`] brings the answer.

use crate::clock::Timestamp;
use crate::entities::loop_inbox_item::InboxKind;
use crate::entities::loop_issue::IssueStatus;
use crate::entities::loop_iteration::{IterationStatus, Stage};
use crate::error::{outcome, LoopError, LoopErrorView};
use crate::json::{integer_value, make_object2, object2, string_value, JsonView};
use crate::loop_engine::actions::in_flight;
use crate::loop_engine::fan_in::{
    build_manifest, built_manifest, decoded_view, gate_of, no_op_gate, parse_manifest,
    parsed_manifest, result_room, with_result, FanInManifest, FanInManifestView, NoOpGate,
};
use crate::loop_engine::merge::DispatchInput;
use crate::loop_engine::transitions::{
    cas_issue_status, clear_fan_in, fan_in_claim, fan_in_cleared, issue_cas, resolver_tip_set,
    set_fan_in_resolver_tip, try_claim_fan_in,
};
use crate::loop_engine::{
    branch_name, issue_changed, make_branch_name, numbered, numbered_text, Effect, EffectView,
    EngineView, LoopEngine,
};
use crate::loop_service::inbox::{card_room, key_for, make_key, upsert_inbox, upserted};
use crate::table::any_match;
use crate::text::{opt_text, same_text};
use vstd::prelude::*;

verus! {

broadcast use vstd::string::group_string_axioms;

/// How a tick ended.
#[derive(Debug, Clone, Copy, PartialEq, Eq, Structural)]
pub enum StepOutcome {
    /// An agent is in flight.
    Dispatched,
    /// Durable progress was made; tick again.
    Advanced,
    /// Waiting for work in flight.
    Idle,
}

/// How merging the frozen commits ended.
#[derive(Debug)]
pub enum FanInOutcome {
    /// All merged and validated; the tip of the integrate branch.
    Integrated { tip: String },
    /// A merge conflicted and is left in progress.
    Conflict,
    /// The integrated tree failed validation.
    RevalidationFailed,
}

/// What was read of the issue when the tick began.
#[derive(Debug)]
pub struct FanInStart {
    pub issue_id: i32,
    pub space_id: i32,
    pub seq_no: i32,
    pub worktree_folder_id: i32,
    pub repo_path: String,
    /// The integrate tip that a resolver was last dispatched from.
    pub resolver_tip: Option<String>,
}

pub struct FanInStartView {
    pub issue_id: i32,
    pub space_id: i32,
    pub seq_no: i32,
    pub worktree_folder_id: i32,
    pub repo_path: Seq<char>,
    pub resolver_tip: Option<Seq<char>>,
}

impl View for FanInStart {
    type V = FanInStartView;

    open spec fn view(&self) -> FanInStartView {
        FanInStartView {
            issue_id: self.issue_id,
            space_id: self.space_id,
            seq_no: self.seq_no,
            worktree_folder_id: self.worktree_folder_id,
            repo_path: self.repo_path@,
            resolver_tip: opt_text(self.resolver_tip),
        }
    }
}

/// A tick with its session: the manifest and the very text that is stored.
#[derive(Debug)]
pub struct FanInSession {
    pub start: FanInStart,
    pub manifest: FanInManifest,
    pub manifest_json: String,
}

pub struct FanInSessionView {
    pub start: FanInStartView,
    pub manifest: FanInManifestView,
    pub manifest_json: Seq<char>,
}

impl View for FanInSession {
    type V = FanInSessionView;

    open spec fn view(&self) -> FanInSessionView {
        FanInSessionView {
            start: self.start@,
            manifest: self.manifest@,
            manifest_json: self.manifest_json@,
        }
    }
}

/// A session with its integrate worktree.
#[derive(Debug)]
pub struct FanInTree {
    pub session: FanInSession,
    pub integrate_path: String,
    pub integrate_folder_id: i32,
}

pub struct FanInTreeView {
    pub session: FanInSessionView,
    pub integrate_path: Seq<char>,
    pub integrate_folder_id: i32,
}

impl View for FanInTree {
    type V = FanInTreeView;

    open spec fn view(&self) -> FanInTreeView {
        FanInTreeView {
            session: self.session@,
            integrate_path: self.integrate_path@,
            integrate_folder_id: self.integrate_folder_id,
        }
    }
}

/// What happened in a tick.
#[derive(Debug)]
pub enum FinalizeEvent {
    /// The tick begins.
    Tick { issue_id: i32, worktree_folder_id: i32 },
    /// A stored manifest was decoded.
    ManifestDecoded { start: FanInStart, json: String, decoded: Result<FanInManifest, String> },
    /// The head of the issue worktree was read.
    BaseRead { start: FanInStart, head: Result<String, LoopError> },
    /// A new manifest was encoded.
    ManifestEncoded { start: FanInStart, manifest: FanInManifest, encoded: Result<String, String> },
    /// The integrate worktree was created or attached: its path and its folder.
    IntegrateReady { session: FanInSession, integrate: Result<(String, i32), LoopError> },
    /// The tip of the issue branch was read.
    TipResolved { tree: FanInTree, found: Result<String, LoopError> },
    /// Whether the commit at `index` is an ancestor of the tip was looked up.
    AncestorChecked {
        tree: FanInTree,
        tip: String,
        index: usize,
        is_ancestor: Result<bool, LoopError>,
    },
    /// Whether a merge is in progress in the integrate worktree was looked up.
    InProgressChecked { tree: FanInTree, in_progress: bool },
    /// The head of the integrate worktree was read; `resumed` when a merge had been
    /// found in progress there.
    IntegrateHeadRead { tree: FanInTree, resumed: bool, head: Result<String, LoopError> },
    /// The integrate worktree was reset to its head.
    IntegrateReset { tree: FanInTree, result: Result<(), LoopError> },
    /// The frozen commits were merged.
    TasksMerged { tree: FanInTree, outcome: Result<FanInOutcome, LoopError> },
    /// The issue branch was advanced, or was found to have moved.
    BranchAdvanced { tree: FanInTree, advanced: Result<bool, LoopError> },
    /// The issue worktree was reset to the landed tip.
    WorktreeSynced { tree: FanInTree, result: Result<(), LoopError> },
    /// A resolver was dispatched, or its lease was taken.
    ResolverDispatched { dispatched: Result<bool, LoopError> },
}

/// What is to be done next in a tick.
#[derive(Debug)]
pub enum FinalizeAction {
    /// Decode the stored manifest.
    DecodeManifest { start: FanInStart, json: String },
    /// Read the head of the issue worktree.
    ReadBase { start: FanInStart, path: String },
    /// Encode the new manifest.
    EncodeManifest { start: FanInStart, manifest: FanInManifest },
    /// Create or attach the integrate worktree, based at the manifest's base.
    EnsureIntegrate { session: FanInSession },
    /// Read the tip of the issue branch.
    ResolveTip { tree: FanInTree, branch: String },
    /// Find out whether the commit at `index` is an ancestor of the tip.
    CheckAncestor { tree: FanInTree, tip: String, index: usize },
    /// Find out whether a merge is in progress in the integrate worktree.
    CheckInProgress { tree: FanInTree },
    /// Read the head of the integrate worktree.
    ReadIntegrateHead { tree: FanInTree, resumed: bool },
    /// Reset the integrate worktree to its head.
    ResetIntegrate { tree: FanInTree },
    /// Merge the manifest's commits, in order, in the integrate worktree.
    MergeTasks { tree: FanInTree },
    /// Advance the issue branch to the tip, if it is still at the manifest's base.
    AdvanceBranch { tree: FanInTree, branch: String, tip: String },
    /// Reset the issue worktree, if its directory exists, to the landed tip.
    SyncWorktree { tree: FanInTree, path: String },
    /// Dispatch an agent that resolves the merge in progress.
    DispatchResolver(DispatchInput),
    /// The tick is over.
    Return(Result<StepOutcome, LoopError>),
}

/// What a [`FinalizeAction`] holds.
pub enum FinalizeActionView {
    DecodeManifest { start: FanInStartView, json: Seq<char> },
    ReadBase { start: FanInStartView, path: Seq<char> },
    EncodeManifest { start: FanInStartView, manifest: FanInManifestView },
    EnsureIntegrate { session: FanInSessionView },
    ResolveTip { tree: FanInTreeView, branch: Seq<char> },
    CheckAncestor { tree: FanInTreeView, tip: Seq<char>, index: usize },
    CheckInProgress { tree: FanInTreeView },
    ReadIntegrateHead { tree: FanInTreeView, resumed: bool },
    ResetIntegrate { tree: FanInTreeView },
    MergeTasks { tree: FanInTreeView },
    AdvanceBranch { tree: FanInTreeView, branch: Seq<char>, tip: Seq<char> },
    SyncWorktree { tree: FanInTreeView, path: Seq<char> },
    DispatchResolver(DispatchInput),
    Return(Result<StepOutcome, LoopErrorView>),
}

impl View for FinalizeAction {
    type V = FinalizeActionView;

    open spec fn view(&self) -> FinalizeActionView {
        match *self {
            FinalizeAction::DecodeManifest { start, json } => FinalizeActionView::DecodeManifest {
                start: start@,
                json: json@,
            },
            FinalizeAction::ReadBase { start, path } => FinalizeActionView::ReadBase {
                start: start@,
                path: path@,
            },
            FinalizeAction::EncodeManifest { start, manifest } => {
                FinalizeActionView::EncodeManifest { start: start@, manifest: manifest@ }
            },
            FinalizeAction::EnsureIntegrate { session } => FinalizeActionView::EnsureIntegrate {
                session: session@,
            },
            FinalizeAction::ResolveTip { tree, branch } => FinalizeActionView::ResolveTip {
                tree: tree@,
                branch: branch@,
            },
            FinalizeAction::CheckAncestor { tree, tip, index } => {
                FinalizeActionView::CheckAncestor { tree: tree@, tip: tip@, index }
            },
            FinalizeAction::CheckInProgress { tree } => FinalizeActionView::CheckInProgress {
                tree: tree@,
            },
            FinalizeAction::ReadIntegrateHead { tree, resumed } => {
                FinalizeActionView::ReadIntegrateHead { tree: tree@, resumed }
            },
            FinalizeAction::ResetIntegrate { tree } => FinalizeActionView::ResetIntegrate {
                tree: tree@,
            },
            FinalizeAction::MergeTasks { tree } => FinalizeActionView::MergeTasks { tree: tree@ },
            FinalizeAction::AdvanceBranch { tree, branch, tip } => {
                FinalizeActionView::AdvanceBranch { tree: tree@, branch: branch@, tip: tip@ }
            },
            FinalizeAction::SyncWorktree { tree, path } => FinalizeActionView::SyncWorktree {
                tree: tree@,
                path: path@,
            },
            FinalizeAction::DispatchResolver(input) => FinalizeActionView::DispatchResolver(input),
            FinalizeAction::Return(r) => FinalizeActionView::Return(outcome(r)),
        }
    }
}

/// Ending a tick with an error.
pub open spec fn fail(e: EngineView, x: LoopErrorView) -> (EngineView, FinalizeActionView) {
    (e, FinalizeActionView::Return(Err(x)))
}

/// Blocking the issue on a structural fault, with a card that names it.
pub open spec fn fan_in_blocked(
    e: EngineView,
    start: FanInStartView,
    subject: Seq<char>,
    reason: Seq<char>,
    now: Timestamp,
) -> (EngineView, FinalizeActionView) {
    (
        EngineView {
            issues: issue_cas(
                e.issues,
                start.issue_id,
                IssueStatus::Running,
                IssueStatus::Blocked,
                now,
            ).0,
            inbox: upserted(
                e.inbox,
                start.space_id,
                start.issue_id,
                None,
                InboxKind::Blocked,
                key_for(subject, start.issue_id),
                object2("v"@, JsonView::Int(1), "reason"@, JsonView::Str(reason)),
                now,
            ).0,
            ..e
        }.say(issue_changed(start.space_id, start.issue_id, "blocked"@)),
        FinalizeActionView::Return(Ok(StepOutcome::Advanced)),
    )
}

/// Removing the integrate worktree and its branch, best-effort.
pub open spec fn integrate_cleaned(e: EngineView, tree: FanInTreeView) -> EngineView {
    let start = tree.session.start;
    e.say(
        EffectView::RemoveWorktree {
            repo_path: start.repo_path,
            worktree_path: tree.integrate_path,
        },
    ).say(
        EffectView::DeleteBranch {
            repo_path: start.repo_path,
            branch: branch_name(start.space_id, start.seq_no) + "-integrate"@,
            force: true,
        },
    )
}

/// Ending the session and the integrate worktree, and announcing progress.
pub open spec fn session_closed(e: EngineView, tree: FanInTreeView, now: Timestamp) -> (
    EngineView,
    FinalizeActionView,
) {
    let start = tree.session.start;
    let cleared = EngineView {
        issues: fan_in_cleared(e.issues, start.issue_id, tree.session.manifest_json, now),
        ..e
    };
    (
        integrate_cleaned(cleared, tree).say(
            issue_changed(start.space_id, start.issue_id, "iteration"@),
        ),
        FinalizeActionView::Return(Ok(StepOutcome::Advanced)),
    )
}

/// Completing a landed integration: the result is made while the session lock is
/// still held, and then the session is closed.
pub open spec fn completed(e: EngineView, tree: FanInTreeView, now: Timestamp) -> (
    EngineView,
    FinalizeActionView,
) {
    let start = tree.session.start;
    session_closed(
        with_result(
            e,
            start.space_id,
            start.issue_id,
            tree.session.manifest.members(),
            now,
        ),
        tree,
        now,
    )
}

/// Finishing a landed integration: the issue worktree is synced to the landed tip
/// before the result exists.
pub open spec fn finished(e: EngineView, tree: FanInTreeView, now: Timestamp) -> (
    EngineView,
    FinalizeActionView,
) {
    match e.folder(tree.session.start.worktree_folder_id) {
        Some(f) => (e, FinalizeActionView::SyncWorktree { tree, path: f.path }),
        None => completed(e, tree, now),
    }
}

/// Dispatching a resolver for the merge in progress at `tip`, which is recorded.
pub open spec fn resolver_dispatched(
    e: EngineView,
    tree: FanInTreeView,
    tip: Seq<char>,
    now: Timestamp,
) -> (EngineView, FinalizeActionView) {
    let start = tree.session.start;
    (
        EngineView { issues: resolver_tip_set(e.issues, start.issue_id, tip, now), ..e },
        FinalizeActionView::DispatchResolver(
            DispatchInput {
                space_id: start.space_id,
                issue_id: start.issue_id,
                stage: Stage::Finalize,
                target_artifact_id: None,
                slot_no: None,
                attempt: 0,
                worktree_folder_id: tree.integrate_folder_id,
            },
        ),
    )
}

/// The begin of a tick.
pub open spec fn tick_begun(e: EngineView, issue_id: i32, worktree_folder_id: i32) -> (
    EngineView,
    FinalizeActionView,
) {
    match e.issue(issue_id) {
        None => fail(e, LoopErrorView::NotFound(numbered("issue "@, issue_id))),
        Some(issue) => {
            if any_match(e.iterations.rows, in_flight(issue_id)) {
                (e, FinalizeActionView::Return(Ok(StepOutcome::Idle)))
            } else {
                match e.space(issue.space_id) {
                    None => fail(e, LoopErrorView::NotFound(numbered("space "@, issue.space_id))),
                    Some(space) => match e.folder(space.folder_id) {
                        None => fail(e, LoopErrorView::Detached),
                        Some(repo) => {
                            let start = FanInStartView {
                                issue_id,
                                space_id: issue.space_id,
                                seq_no: issue.seq_no,
                                worktree_folder_id,
                                repo_path: repo.path,
                                resolver_tip: issue.fan_in_resolver_tip,
                            };
                            match issue.fan_in_manifest {
                                Some(json) => (
                                    e,
                                    FinalizeActionView::DecodeManifest { start, json },
                                ),
                                None => match e.folder(worktree_folder_id) {
                                    None => fail(
                                        e,
                                        LoopErrorView::NotFound(
                                            numbered("worktree folder "@, worktree_folder_id),
                                        ),
                                    ),
                                    Some(f) => (
                                        e,
                                        FinalizeActionView::ReadBase { start, path: f.path },
                                    ),
                                },
                            }
                        },
                    },
                }
            }
        },
    }
}

/// A new manifest with its text: the session is claimed, or the one that another
/// claim has stored is adopted.
pub open spec fn session_claimed(
    e: EngineView,
    start: FanInStartView,
    manifest: FanInManifestView,
    json: Seq<char>,
    now: Timestamp,
) -> (EngineView, FinalizeActionView) {
    let (issues, won) = fan_in_claim(e.issues, start.issue_id, json, now);
    if won {
        (
            EngineView { issues, ..e },
            FinalizeActionView::EnsureIntegrate {
                session: FanInSessionView { start, manifest, manifest_json: json },
            },
        )
    } else {
        match e.issue(start.issue_id) {
            Some(issue) => match issue.fan_in_manifest {
                Some(fresh) => (e, FinalizeActionView::DecodeManifest { start, json: fresh }),
                None => fail(
                    e,
                    LoopErrorView::Git("fan-in manifest vanished after a lost claim"@),
                ),
            },
            None => fail(e, LoopErrorView::Git("fan-in manifest vanished after a lost claim"@)),
        }
    }
}

/// The tip of the issue branch is known. Whether nothing is to be merged is decided
/// first; then, if the branch has moved, whether the work has landed already.
pub open spec fn tip_known(e: EngineView, tree: FanInTreeView, tip: Seq<char>, now: Timestamp) -> (
    EngineView,
    FinalizeActionView,
) {
    match gate_of(tree.session.manifest, tip) {
        NoOpGate::FinishAtBase => finished(e, tree, now),
        NoOpGate::BlockMovedTip => fan_in_blocked(
            e,
            tree.session.start,
            "fan_in_all_no_op_unexpected_tip"@,
            "every task declared a no-op but the issue branch advanced past its base"@,
            now,
        ),
        NoOpGate::NotAllNoOp => if tip != tree.session.manifest.issue_base_oid {
            (e, FinalizeActionView::CheckAncestor { tree, tip, index: 0 })
        } else {
            (e, FinalizeActionView::CheckInProgress { tree })
        },
    }
}

/// One tick, step by step.
pub open spec fn finalize_step(e: EngineView, event: FinalizeEvent, now: Timestamp) -> (
    EngineView,
    FinalizeActionView,
) {
    match event {
        FinalizeEvent::Tick { issue_id, worktree_folder_id } => tick_begun(
            e,
            issue_id,
            worktree_folder_id,
        ),
        FinalizeEvent::ManifestDecoded { start, json, decoded } => match parsed_manifest(
            decoded_view(decoded),
        ) {
            Err(x) => fail(e, x),
            Ok(manifest) => (
                e,
                FinalizeActionView::EnsureIntegrate {
                    session: FanInSessionView { start: start@, manifest, manifest_json: json@ },
                },
            ),
        },
        FinalizeEvent::BaseRead { start, head } => match head {
            Err(x) => fail(e, x@),
            Ok(oid) => match built_manifest(e.artifacts.rows, start.issue_id, oid@) {
                Err(x) => fail(e, x),
                Ok(manifest) => (
                    e,
                    FinalizeActionView::EncodeManifest { start: start@, manifest },
                ),
            },
        },
        FinalizeEvent::ManifestEncoded { start, manifest, encoded } => match encoded {
            Err(x) => fail(e, LoopErrorView::InvalidInput("fan-in manifest encode: "@ + x@)),
            Ok(json) => session_claimed(e, start@, manifest@, json@, now),
        },
        FinalizeEvent::IntegrateReady { session, integrate } => match integrate {
            Err(x) => fail(e, x@),
            Ok((path, folder_id)) => (
                e,
                FinalizeActionView::ResolveTip {
                    tree: FanInTreeView {
                        session: session@,
                        integrate_path: path@,
                        integrate_folder_id: folder_id,
                    },
                    branch: branch_name(session.start.space_id, session.start.seq_no),
                },
            ),
        },
        FinalizeEvent::TipResolved { tree, found } => match found {
            Err(x) => fail(e, x@),
            Ok(tip) => tip_known(e, tree@, tip@, now),
        },
        FinalizeEvent::AncestorChecked { tree, tip, index, is_ancestor } => match is_ancestor {
            Err(x) => fail(e, x@),
            Ok(false) => (e, FinalizeActionView::CheckInProgress { tree: tree@ }),
            Ok(true) => if index + 1 < tree@.session.manifest.ordered.len() {
                (
                    e,
                    FinalizeActionView::CheckAncestor {
                        tree: tree@,
                        tip: tip@,
                        index: (index + 1) as usize,
                    },
                )
            } else {
                finished(e, tree@, now)
            },
        },
        FinalizeEvent::InProgressChecked { tree, in_progress } => if in_progress {
            (e, FinalizeActionView::ReadIntegrateHead { tree: tree@, resumed: true })
        } else {
            (e, FinalizeActionView::ResetIntegrate { tree: tree@ })
        },
        FinalizeEvent::IntegrateHeadRead { tree, resumed, head } => match head {
            Err(x) => fail(e, x@),
            Ok(tip) => if resumed && tree@.session.start.resolver_tip == Some(tip@) {
                fan_in_blocked(
                    e,
                    tree@.session.start,
                    "fan_in_conflict_unresolved"@,
                    "a fan-in merge conflict was left unresolved by the result-stage agent"@,
                    now,
                )
            } else {
                resolver_dispatched(e, tree@, tip@, now)
            },
        },
        FinalizeEvent::IntegrateReset { tree, result } => match result {
            Err(x) => fail(e, x@),
            Ok(_) => (e, FinalizeActionView::MergeTasks { tree: tree@ }),
        },
        FinalizeEvent::TasksMerged { tree, outcome } => match outcome {
            Err(x) => fail(e, x@),
            Ok(FanInOutcome::Conflict) => (
                e,
                FinalizeActionView::ReadIntegrateHead { tree: tree@, resumed: false },
            ),
            Ok(FanInOutcome::RevalidationFailed) => fan_in_blocked(
                e,
                tree@.session.start,
                "fan_in_revalidation_failed"@,
                "the integrated tree failed re-validation; the task combination broke"@,
                now,
            ),
            Ok(FanInOutcome::Integrated { tip }) => (
                e,
                FinalizeActionView::AdvanceBranch {
                    tree: tree@,
                    branch: branch_name(
                        tree.session.start.space_id,
                        tree.session.start.seq_no,
                    ),
                    tip: tip@,
                },
            ),
        },
        FinalizeEvent::BranchAdvanced { tree, advanced } => match advanced {
            Err(x) => fail(e, x@),
            Ok(false) => session_closed(e, tree@, now),
            Ok(true) => finished(e, tree@, now),
        },
        FinalizeEvent::WorktreeSynced { tree, result } => match result {
            Err(x) => fail(e, x@),
            Ok(_) => completed(e, tree@, now),
        },
        FinalizeEvent::ResolverDispatched { dispatched } => match dispatched {
            Err(x) => fail(e, x@),
            Ok(true) => (e, FinalizeActionView::Return(Ok(StepOutcome::Dispatched))),
            Ok(false) => (e, FinalizeActionView::Return(Ok(StepOutcome::Idle))),
        },
    }
}

/// The card of a fan-in fault can be filed.
pub open spec fn block_room(e: EngineView, start: FanInStartView, subject: Seq<char>) -> bool {
    card_room(e.inbox, start.issue_id, InboxKind::Blocked, key_for(subject, start.issue_id))
}

/// The result of the session can be made.
pub open spec fn completion_room(e: EngineView, tree: FanInTreeView, now: Timestamp) -> bool {
    let start = tree.session.start;
    result_room(e, start.space_id, start.issue_id, tree.session.manifest.members(), now)
}

/// Where finishing makes the result at once, it can be made.
pub open spec fn finish_room(e: EngineView, tree: FanInTreeView, now: Timestamp) -> bool {
    e.folder(tree.session.start.worktree_folder_id) is Some || completion_room(e, tree, now)
}

/// Where the known tip leads to a card or a result, that can be made.
pub open spec fn tip_room(e: EngineView, tree: FanInTreeView, tip: Seq<char>, now: Timestamp) -> bool {
    match gate_of(tree.session.manifest, tip) {
        NoOpGate::FinishAtBase => finish_room(e, tree, now),
        NoOpGate::BlockMovedTip => block_room(
            e,
            tree.session.start,
            "fan_in_all_no_op_unexpected_tip"@,
        ),
        NoOpGate::NotAllNoOp => true,
    }
}

/// Where the step files a card or makes the result, that can be done: what is to be
/// added is there already, or there is an id for it.
pub open spec fn finalize_room(e: EngineView, event: FinalizeEvent, now: Timestamp) -> bool {
    match event {
        FinalizeEvent::TipResolved { tree, found } => match found {
            Ok(tip) => tip_room(e, tree@, tip@, now),
            Err(_) => true,
        },
        FinalizeEvent::AncestorChecked { tree, tip, index, is_ancestor } => match is_ancestor {
            Ok(true) => index + 1 < tree@.session.manifest.ordered.len() || finish_room(
                e,
                tree@,
                now,
            ),
            _ => true,
        },
        FinalizeEvent::IntegrateHeadRead { tree, resumed, head } => match head {
            Ok(tip) => resumed && tree@.session.start.resolver_tip == Some(tip@) ==> block_room(
                e,
                tree@.session.start,
                "fan_in_conflict_unresolved"@,
            ),
            Err(_) => true,
        },
        FinalizeEvent::TasksMerged { tree, outcome } => match outcome {
            Ok(FanInOutcome::RevalidationFailed) => block_room(
                e,
                tree@.session.start,
                "fan_in_revalidation_failed"@,
            ),
            _ => true,
        },
        FinalizeEvent::BranchAdvanced { tree, advanced } => match advanced {
            Ok(true) => finish_room(e, tree@, now),
            _ => true,
        },
        FinalizeEvent::WorktreeSynced { tree, result } => match result {
            Ok(_) => completion_room(e, tree@, now),
            Err(_) => true,
        },
        _ => true,
    }
}

impl LoopEngine {
    /// Whether the issue has any iteration that has not settled.
    pub fn issue_has_inflight(&self, issue_id: i32) -> (r: bool)
        ensures
            r == any_match(self@.iterations.rows, in_flight(issue_id)),
    {
        let ghost rows = self@.iterations.rows;
        let mut i: usize = 0;
        while i < self.iterations.rows.len()
            invariant
                i <= self.iterations.rows@.len(),
                rows == self@.iterations.rows,
                forall|j: int| 0 <= j < i ==> !in_flight(issue_id)(#[trigger] rows[j]),
            decreases self.iterations.rows@.len() - i,
        {
            assert(rows[i as int] == self.iterations.rows@[i as int]@);
            if self.iterations.rows[i].issue_id == issue_id && (self.iterations.rows[i].status
                == IterationStatus::Queued || self.iterations.rows[i].status
                == IterationStatus::Running) {
                assert(in_flight(issue_id)(rows[i as int]));
                return true;
            }
            i = i + 1;
        }
        false
    }

    fn block_fan_in(
        &mut self,
        start: &FanInStart,
        subject: &str,
        reason: &str,
        now: Timestamp,
    ) -> (r: FinalizeAction)
        requires
            old(self).wf(),
            block_room(old(self)@, start@, subject@),
        ensures
            (final(self)@, r@) == fan_in_blocked(old(self)@, start@, subject@, reason@, now),
            final(self).wf(),
    {
        cas_issue_status(
            &mut self.issues,
            start.issue_id,
            IssueStatus::Running,
            IssueStatus::Blocked,
            now,
        );
        upsert_inbox(
            &mut self.inbox,
            start.space_id,
            start.issue_id,
            None,
            InboxKind::Blocked,
            make_key(subject, start.issue_id).as_str(),
            make_object2("v", integer_value(1), "reason", string_value(reason.to_owned())),
            now,
        );
        self.emit_changed(start.space_id, start.issue_id, "blocked");
        FinalizeAction::Return(Ok(StepOutcome::Advanced))
    }

    fn cleanup_integrate(&mut self, tree: &FanInTree)
        ensures
            final(self)@ == integrate_cleaned(old(self)@, tree@),
    {
        let start = &tree.session.start;
        self.say(
            Effect::RemoveWorktree {
                repo_path: start.repo_path.clone(),
                worktree_path: tree.integrate_path.clone(),
            },
        );
        let mut branch = make_branch_name(start.space_id, start.seq_no);
        branch.append("-integrate");
        self.say(Effect::DeleteBranch { repo_path: start.repo_path.clone(), branch, force: true });
    }

    fn close_session(&mut self, tree: &FanInTree, now: Timestamp) -> (r: FinalizeAction)
        requires
            old(self).wf(),
        ensures
            (final(self)@, r@) == session_closed(old(self)@, tree@, now),
            final(self).wf(),
    {
        let start = &tree.session.start;
        clear_fan_in(
            &mut self.issues,
            start.issue_id,
            tree.session.manifest_json.as_str(),
            now,
        );
        self.cleanup_integrate(tree);
        self.emit_changed(start.space_id, start.issue_id, "iteration");
        FinalizeAction::Return(Ok(StepOutcome::Advanced))
    }

    fn complete_landed(&mut self, tree: &FanInTree, now: Timestamp) -> (r: FinalizeAction)
        requires
            old(self).wf(),
            completion_room(old(self)@, tree@, now),
        ensures
            (final(self)@, r@) == completed(old(self)@, tree@, now),
            final(self).wf(),
    {
        let task_ids = tree.session.manifest.all_member_task_ids();
        let start = &tree.session.start;
        self.create_result_artifact(start.space_id, start.issue_id, &task_ids, now);
        self.close_session(tree, now)
    }

    fn finish_landed(&mut self, tree: FanInTree, now: Timestamp) -> (r: FinalizeAction)
        requires
            old(self).wf(),
            finish_room(old(self)@, tree@, now),
        ensures
            (final(self)@, r@) == finished(old(self)@, tree@, now),
            final(self).wf(),
    {
        match self.find_folder(tree.session.start.worktree_folder_id) {
            Some(f) => {
                let path = self.folders.rows[f].path.clone();
                FinalizeAction::SyncWorktree { tree, path }
            },
            None => self.complete_landed(&tree, now),
        }
    }

    fn dispatch_resolver_at(&mut self, tree: &FanInTree, tip: &str, now: Timestamp) -> (r:
        FinalizeAction)
        requires
            old(self).wf(),
        ensures
            (final(self)@, r@) == resolver_dispatched(old(self)@, tree@, tip@, now),
            final(self).wf(),
    {
        let start = &tree.session.start;
        set_fan_in_resolver_tip(&mut self.issues, start.issue_id, tip, now);
        FinalizeAction::DispatchResolver(
            DispatchInput {
                space_id: start.space_id,
                issue_id: start.issue_id,
                stage: Stage::Finalize,
                target_artifact_id: None,
                slot_no: None,
                attempt: 0,
                worktree_folder_id: tree.integrate_folder_id,
            },
        )
    }

    fn begin_tick(&self, issue_id: i32, worktree_folder_id: i32) -> (r: FinalizeAction)
        ensures
            (self@, r@) == tick_begun(self@, issue_id, worktree_folder_id),
    {
        let i: usize = match self.issues.find(issue_id) {
            Some(i) => i,
            None => {
                return FinalizeAction::Return(
                    Err(LoopError::NotFound(numbered_text("issue ", issue_id))),
                );
            },
        };
        if self.issue_has_inflight(issue_id) {
            return FinalizeAction::Return(Ok(StepOutcome::Idle));
        }
        let issue = &self.issues.rows[i];
        let s: usize = match self.spaces.find(issue.space_id) {
            Some(s) => s,
            None => {
                return FinalizeAction::Return(
                    Err(LoopError::NotFound(numbered_text("space ", issue.space_id))),
                );
            },
        };
        let repo: usize = match self.find_folder(self.spaces.rows[s].folder_id) {
            Some(f) => f,
            None => {
                return FinalizeAction::Return(Err(LoopError::Detached));
            },
        };
        let start = FanInStart {
            issue_id,
            space_id: issue.space_id,
            seq_no: issue.seq_no,
            worktree_folder_id,
            repo_path: self.folders.rows[repo].path.clone(),
            resolver_tip: issue.fan_in_resolver_tip.clone(),
        };
        match &issue.fan_in_manifest {
            Some(json) => FinalizeAction::DecodeManifest { start, json: json.clone() },
            None => match self.find_folder(worktree_folder_id) {
                None => FinalizeAction::Return(
                    Err(
                        LoopError::NotFound(
                            numbered_text("worktree folder ", worktree_folder_id),
                        ),
                    ),
                ),
                Some(f) => FinalizeAction::ReadBase {
                    start,
                    path: self.folders.rows[f].path.clone(),
                },
            },
        }
    }

    fn claim_session(
        &mut self,
        start: FanInStart,
        manifest: FanInManifest,
        json: String,
        now: Timestamp,
    ) -> (r: FinalizeAction)
        requires
            old(self).wf(),
        ensures
            (final(self)@, r@) == session_claimed(old(self)@, start@, manifest@, json@, now),
            final(self).wf(),
    {
        if try_claim_fan_in(&mut self.issues, start.issue_id, json.as_str(), now) {
            return FinalizeAction::EnsureIntegrate {
                session: FanInSession { start, manifest, manifest_json: json },
            };
        }
        let fresh: Option<String> = match self.issues.find(start.issue_id) {
            Some(i) => self.issues.rows[i].fan_in_manifest.clone(),
            None => None,
        };
        match fresh {
            Some(json) => FinalizeAction::DecodeManifest { start, json },
            None => FinalizeAction::Return(
                Err(LoopError::Git("fan-in manifest vanished after a lost claim".to_owned())),
            ),
        }
    }

    fn decide_at_tip(&mut self, tree: FanInTree, tip: String, now: Timestamp) -> (r: FinalizeAction)
        requires
            old(self).wf(),
            tip_room(old(self)@, tree@, tip@, now),
        ensures
            (final(self)@, r@) == tip_known(old(self)@, tree@, tip@, now),
            final(self).wf(),
    {
        match no_op_gate(&tree.session.manifest, tip.as_str()) {
            NoOpGate::FinishAtBase => self.finish_landed(tree, now),
            NoOpGate::BlockMovedTip => self.block_fan_in(
                &tree.session.start,
                "fan_in_all_no_op_unexpected_tip",
                "every task declared a no-op but the issue branch advanced past its base",
                now,
            ),
            NoOpGate::NotAllNoOp => {
                if !same_text(tip.as_str(), tree.session.manifest.issue_base_oid.as_str()) {
                    FinalizeAction::CheckAncestor { tree, tip, index: 0 }
                } else {
                    FinalizeAction::CheckInProgress { tree }
                }
            },
        }
    }

    /// Drive a parallel issue's result-stage fan-in for one tick, one decision at a
    /// time. The tick ends with [`StepOutcome::Dispatched`] (a conflict resolver is in
    /// flight), [`StepOutcome::Advanced`] (landed, blocked or restarted: tick again) or
    /// [`StepOutcome::Idle`] (waiting for work in flight).
    pub fn run_parallel_finalize(&mut self, event: FinalizeEvent, now: Timestamp) -> (r:
        FinalizeAction)
        requires
            old(self).wf(),
            finalize_room(old(self)@, event, now),
        ensures
            (final(self)@, r@) == finalize_step(old(self)@, event, now),
            final(self).wf(),
    {
        match event {
            FinalizeEvent::Tick { issue_id, worktree_folder_id } => self.begin_tick(
                issue_id,
                worktree_folder_id,
            ),
            FinalizeEvent::ManifestDecoded { start, json, decoded } => {
                match parse_manifest(decoded) {
                    Err(e) => FinalizeAction::Return(Err(e)),
                    Ok(manifest) => FinalizeAction::EnsureIntegrate {
                        session: FanInSession { start, manifest, manifest_json: json },
                    },
                }
            },
            FinalizeEvent::BaseRead { start, head } => match head {
                Err(e) => FinalizeAction::Return(Err(e)),
                Ok(oid) => match build_manifest(&self.artifacts, start.issue_id, oid) {
                    Err(e) => FinalizeAction::Return(Err(e)),
                    Ok(manifest) => FinalizeAction::EncodeManifest { start, manifest },
                },
            },
            FinalizeEvent::ManifestEncoded { start, manifest, encoded } => match encoded {
                Err(e) => {
                    let mut message = "fan-in manifest encode: ".to_owned();
                    message.append(e.as_str());
                    FinalizeAction::Return(Err(LoopError::InvalidInput(message)))
                },
                Ok(json) => self.claim_session(start, manifest, json, now),
            },
            FinalizeEvent::IntegrateReady { session, integrate } => match integrate {
                Err(e) => FinalizeAction::Return(Err(e)),
                Ok((integrate_path, integrate_folder_id)) => {
                    let branch = make_branch_name(session.start.space_id, session.start.seq_no);
                    FinalizeAction::ResolveTip {
                        tree: FanInTree { session, integrate_path, integrate_folder_id },
                        branch,
                    }
                },
            },
            FinalizeEvent::TipResolved { tree, found } => match found {
                Err(e) => FinalizeAction::Return(Err(e)),
                Ok(tip) => self.decide_at_tip(tree, tip, now),
            },
            FinalizeEvent::AncestorChecked { tree, tip, index, is_ancestor } => match is_ancestor {
                Err(e) => FinalizeAction::Return(Err(e)),
                Ok(false) => FinalizeAction::CheckInProgress { tree },
                Ok(true) => {
                    let n: usize = tree.session.manifest.ordered.len();
                    if n > 0 && index < n - 1 {
                        FinalizeAction::CheckAncestor { tree, tip, index: index + 1 }
                    } else {
                        self.finish_landed(tree, now)
                    }
                },
            },
            FinalizeEvent::InProgressChecked { tree, in_progress } => {
                if in_progress {
                    FinalizeAction::ReadIntegrateHead { tree, resumed: true }
                } else {
                    FinalizeAction::ResetIntegrate { tree }
                }
            },
            FinalizeEvent::IntegrateHeadRead { tree, resumed, head } => match head {
                Err(e) => FinalizeAction::Return(Err(e)),
                Ok(tip) => {
                    let same: bool = match &tree.session.start.resolver_tip {
                        Some(t) => same_text(t.as_str(), tip.as_str()),
                        None => false,
                    };
                    if resumed && same {
                        self.block_fan_in(
                            &tree.session.start,
                            "fan_in_conflict_unresolved",
                            "a fan-in merge conflict was left unresolved by the result-stage agent",
                            now,
                        )
                    } else {
                        self.dispatch_resolver_at(&tree, tip.as_str(), now)
                    }
                },
            },
            FinalizeEvent::IntegrateReset { tree, result } => match result {
                Err(e) => FinalizeAction::Return(Err(e)),
                Ok(_) => FinalizeAction::MergeTasks { tree },
            },
            FinalizeEvent::TasksMerged { tree, outcome } => match outcome {
                Err(e) => FinalizeAction::Return(Err(e)),
                Ok(FanInOutcome::Conflict) => FinalizeAction::ReadIntegrateHead {
                    tree,
                    resumed: false,
                },
                Ok(FanInOutcome::RevalidationFailed) => self.block_fan_in(
                    &tree.session.start,
                    "fan_in_revalidation_failed",
                    "the integrated tree failed re-validation; the task combination broke",
                    now,
                ),
                Ok(FanInOutcome::Integrated { tip }) => {
                    let branch = make_branch_name(
                        tree.session.start.space_id,
                        tree.session.start.seq_no,
                    );
                    FinalizeAction::AdvanceBranch { tree, branch, tip }
                },
            },
            FinalizeEvent::BranchAdvanced { tree, advanced } => match advanced {
                Err(e) => FinalizeAction::Return(Err(e)),
                Ok(false) => self.close_session(&tree, now),
                Ok(true) => self.finish_landed(tree, now),
            },
            FinalizeEvent::WorktreeSynced { tree, result } => match result {
                Err(e) => FinalizeAction::Return(Err(e)),
                Ok(_) => self.complete_landed(&tree, now),
            },
            FinalizeEvent::ResolverDispatched { dispatched } => match dispatched {
                Err(e) => FinalizeAction::Return(Err(e)),
                Ok(true) => FinalizeAction::Return(Ok(StepOutcome::Dispatched)),
                Ok(false) => FinalizeAction::Return(Ok(StepOutcome::Idle)),
            },
        }
    }
}

} // verus!
