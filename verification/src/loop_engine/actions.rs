//! Human-driven engine actions: the points where a person steers a loop. Each is a
//! guarded state transition: a miss (the issue is not in the expected state) is a
//! [`LoopError::Conflict`].
//! - **trigger**: pending to running, once the issue worktree exists; start a driver.
//! - **pause**: running to paused; stop the driver. In-flight agents are left alive.
//! - **resume**: paused to running; start a fresh driver.
//! - **cancel**: close the issue, stop the driver, shut down every in-flight agent,
//!   invalidate its iteration and remove the worktree.
//! - **approve / reject** the design gate.
//! - **retry**, **force-complete**, **override** and **add budget**: the ways out of a
//!   blocked or paused issue.

use crate::clock::Timestamp;
use crate::entities::loop_artifact::{self, ArtifactKind, ArtifactStatus};
use crate::entities::loop_artifact_revision::{self, ActorKind};
use crate::entities::loop_issue::{self, IssueStatus, PauseReason};
use crate::entities::loop_iteration::{self, IterationOutcome, IterationStatus};
use crate::error::{outcome, LoopError, LoopErrorView};
use crate::json::{make_object1, make_object2, object1, object2, string_value, JsonView};
use crate::loop_engine::transitions::{artifact_moved, cas_issue_status, issue_cas};
use crate::loop_engine::{
    issue_changed, numbered, numbered_text, Effect, EffectView, EngineView, LoopEngine,
};
use crate::loop_service::inbox::{approval_resolved, key_for, make_key, resolve_approval_card};
use crate::table::{
    any_match, count_where, lemma_count_step, lemma_update_keeps_ids, position, update_where,
    with_row, with_rows, Table, TableView,
};
use crate::text::{trim, trimmed};
use vstd::prelude::*;
use vstd::string::*;

verus! {

broadcast use vstd::string::group_string_axioms;

// ---------------------------------------------------------------------------
// Trigger, pause, resume
// ---------------------------------------------------------------------------

/// What happened on the way to triggering an issue.
#[derive(Debug)]
pub enum TriggerEvent {
    /// A person asked for it.
    Requested,
    /// The attempt to create the issue worktree ended.
    WorktreeEnsured(Result<(), LoopError>),
}

/// What is to be done next to trigger an issue.
#[derive(Debug)]
pub enum TriggerAction {
    /// Create the worktree and the branch, and record the merge base on the issue.
    EnsureWorktree,
    /// The action is over.
    Return(Result<(), LoopError>),
}

/// What a [`TriggerAction`] holds.
pub enum TriggerActionView {
    EnsureWorktree,
    Return(Result<(), LoopErrorView>),
}

impl View for TriggerAction {
    type V = TriggerActionView;

    open spec fn view(&self) -> TriggerActionView {
        match *self {
            TriggerAction::EnsureWorktree => TriggerActionView::EnsureWorktree,
            TriggerAction::Return(r) => TriggerActionView::Return(outcome(r)),
        }
    }
}

/// Triggering an issue: only a pending issue starts; its worktree is created before
/// the status flips, so that a git failure leaves it pending.
pub open spec fn trigger_step(e: EngineView, issue_id: i32, event: TriggerEvent, now: Timestamp) -> (
    EngineView,
    TriggerActionView,
) {
    match event {
        TriggerEvent::Requested => match e.issue(issue_id) {
            None => (
                e,
                TriggerActionView::Return(
                    Err(LoopErrorView::NotFound(numbered("issue "@, issue_id))),
                ),
            ),
            Some(issue) => if issue.status == IssueStatus::Pending {
                (e, TriggerActionView::EnsureWorktree)
            } else {
                (e, TriggerActionView::Return(Err(LoopErrorView::Conflict)))
            },
        },
        TriggerEvent::WorktreeEnsured(Err(x)) => (e, TriggerActionView::Return(Err(x@))),
        TriggerEvent::WorktreeEnsured(Ok(_)) => {
            let (issues, moved) = issue_cas(
                e.issues,
                issue_id,
                IssueStatus::Pending,
                IssueStatus::Running,
                now,
            );
            if moved {
                (
                    EngineView { issues, ..e }.say(EffectView::StartDriver(issue_id)),
                    TriggerActionView::Return(Ok(())),
                )
            } else {
                (e, TriggerActionView::Return(Err(LoopErrorView::Conflict)))
            }
        },
    }
}

/// An issue paused by hand.
pub open spec fn paused(v: loop_issue::ModelView, now: Timestamp) -> loop_issue::ModelView {
    loop_issue::ModelView {
        status: IssueStatus::Paused,
        pause_reason: Some(PauseReason::Manual),
        updated_at: now,
        ..v
    }
}

/// Pausing an issue.
pub open spec fn pause_post(e: EngineView, issue_id: i32, now: Timestamp) -> (
    EngineView,
    Result<(), LoopErrorView>,
) {
    match position::<loop_issue::Model>(e.issues.rows, issue_id) {
        Some(i) => if e.issues.rows[i].status == IssueStatus::Running {
            (
                e.set_issue(i, paused(e.issues.rows[i], now)).say(EffectView::StopDriver(issue_id)),
                Ok(()),
            )
        } else {
            (e, Err(LoopErrorView::Conflict))
        },
        None => (e, Err(LoopErrorView::Conflict)),
    }
}

/// An issue resumed.
pub open spec fn resumed(v: loop_issue::ModelView, now: Timestamp) -> loop_issue::ModelView {
    loop_issue::ModelView {
        status: IssueStatus::Running,
        pause_reason: None,
        updated_at: now,
        ..v
    }
}

/// Resuming an issue.
pub open spec fn resume_post(e: EngineView, issue_id: i32, now: Timestamp) -> (
    EngineView,
    Result<(), LoopErrorView>,
) {
    match position::<loop_issue::Model>(e.issues.rows, issue_id) {
        Some(i) => if e.issues.rows[i].status == IssueStatus::Paused {
            (
                e.set_issue(i, resumed(e.issues.rows[i], now)).say(
                    EffectView::StartDriver(issue_id),
                ),
                Ok(()),
            )
        } else {
            (e, Err(LoopErrorView::Conflict))
        },
        None => (e, Err(LoopErrorView::Conflict)),
    }
}

impl LoopEngine {
    /// Trigger a pending issue: create its worktree, flip it running, and start the
    /// driver. The worktree is created before the status flip, so any git failure
    /// leaves the issue pending.
    pub fn trigger_issue(&mut self, issue_id: i32, event: TriggerEvent, now: Timestamp) -> (r:
        TriggerAction)
        requires
            old(self).wf(),
        ensures
            (final(self)@, r@) == trigger_step(old(self)@, issue_id, event, now),
            final(self).wf(),
    {
        match event {
            TriggerEvent::Requested => match self.issues.find(issue_id) {
                None => TriggerAction::Return(
                    Err(LoopError::NotFound(numbered_text("issue ", issue_id))),
                ),
                Some(i) => if self.issues.rows[i].status == IssueStatus::Pending {
                    TriggerAction::EnsureWorktree
                } else {
                    TriggerAction::Return(Err(LoopError::Conflict))
                },
            },
            TriggerEvent::WorktreeEnsured(Err(e)) => TriggerAction::Return(Err(e)),
            TriggerEvent::WorktreeEnsured(Ok(_)) => {
                if !cas_issue_status(
                    &mut self.issues,
                    issue_id,
                    IssueStatus::Pending,
                    IssueStatus::Running,
                    now,
                ) {
                    return TriggerAction::Return(Err(LoopError::Conflict));
                }
                self.say(Effect::StartDriver(issue_id));
                TriggerAction::Return(Ok(()))
            },
        }
    }

    /// Pause a running issue: halt new dispatch without killing in-flight agents.
    pub fn pause_issue(&mut self, issue_id: i32, now: Timestamp) -> (r: Result<(), LoopError>)
        requires
            old(self).wf(),
        ensures
            (final(self)@, outcome(r)) == pause_post(old(self)@, issue_id, now),
            final(self).wf(),
    {
        match self.issues.find(issue_id) {
            Some(i) => {
                if self.issues.rows[i].status != IssueStatus::Running {
                    return Err(LoopError::Conflict);
                }
                let mut row = self.issues.rows[i].clone();
                row.status = IssueStatus::Paused;
                row.pause_reason = Some(PauseReason::Manual);
                row.updated_at = now;
                self.issues.set(i, row);
                self.say(Effect::StopDriver(issue_id));
                Ok(())
            },
            None => Err(LoopError::Conflict),
        }
    }

    /// Resume a paused issue: clear the pause reason and start a fresh driver.
    pub fn resume_issue(&mut self, issue_id: i32, now: Timestamp) -> (r: Result<(), LoopError>)
        requires
            old(self).wf(),
        ensures
            (final(self)@, outcome(r)) == resume_post(old(self)@, issue_id, now),
            final(self).wf(),
    {
        match self.issues.find(issue_id) {
            Some(i) => {
                if self.issues.rows[i].status != IssueStatus::Paused {
                    return Err(LoopError::Conflict);
                }
                let mut row = self.issues.rows[i].clone();
                row.status = IssueStatus::Running;
                row.pause_reason = None;
                row.updated_at = now;
                self.issues.set(i, row);
                self.say(Effect::StartDriver(issue_id));
                Ok(())
            },
            None => Err(LoopError::Conflict),
        }
    }
}

// ---------------------------------------------------------------------------
// Cancel
// ---------------------------------------------------------------------------

/// An issue closed by cancelling it.
pub open spec fn cancelled(v: loop_issue::ModelView, now: Timestamp) -> loop_issue::ModelView {
    loop_issue::ModelView {
        status: IssueStatus::Cancelled,
        ended_at: Some(now),
        updated_at: now,
        ..v
    }
}

/// A status that an issue does not leave any more.
pub open spec fn terminal(s: IssueStatus) -> bool {
    s == IssueStatus::Done || s == IssueStatus::Cancelled
}

/// The iteration is of the issue and has not settled.
pub open spec fn in_flight(issue_id: i32) -> spec_fn(loop_iteration::ModelView) -> bool {
    |it: loop_iteration::ModelView|
        it.issue_id == issue_id && (it.status == IterationStatus::Queued || it.status
            == IterationStatus::Running)
}

/// The iteration is of the issue, has not settled, and has a conversation.
pub open spec fn live_agent(issue_id: i32) -> spec_fn(loop_iteration::ModelView) -> bool {
    |it: loop_iteration::ModelView| in_flight(issue_id)(it) && it.conversation_id is Some
}

/// Shutting down the agent of an iteration.
pub open spec fn disconnection() -> spec_fn(loop_iteration::ModelView) -> EffectView {
    |it: loop_iteration::ModelView| EffectView::Disconnect(it.conversation_id->Some_0)
}

/// The shutdowns of the in-flight agents of an issue, in the order of the
/// iterations.
pub open spec fn disconnects(rows: Seq<loop_iteration::ModelView>, issue_id: i32) -> Seq<
    EffectView,
> {
    rows.filter(live_agent(issue_id)).map_values(disconnection())
}

/// Cancelling an iteration: its outcome is `abandoned` unless it has one already.
pub open spec fn abandoned(now: Timestamp) -> spec_fn(
    loop_iteration::ModelView,
) -> loop_iteration::ModelView {
    |it: loop_iteration::ModelView|
        loop_iteration::ModelView {
            status: IterationStatus::Cancelled,
            ended_at: Some(now),
            outcome: match it.outcome {
                Some(o) => Some(o),
                None => Some(IterationOutcome::Abandoned),
            },
            ..it
        }
}

/// The removal of an issue's worktree, when its folder and its repository are known.
pub open spec fn worktree_removal(e: EngineView, issue_id: i32) -> Option<EffectView> {
    match e.issue(issue_id) {
        Some(issue) => match issue.worktree_folder_id {
            Some(folder_id) => match (e.folder(folder_id), e.space_folder(issue.space_id)) {
                (Some(folder), Some(repo)) => Some(
                    EffectView::RemoveCancelledWorktree {
                        repo_path: repo.path,
                        worktree_path: folder.path,
                    },
                ),
                _ => None,
            },
            None => None,
        },
        None => None,
    }
}

/// The engine after the removal of an issue's worktree was asked for, best-effort.
pub open spec fn with_worktree_removed(e: EngineView, issue_id: i32) -> EngineView {
    match worktree_removal(e, issue_id) {
        Some(effect) => e.say(effect),
        None => e,
    }
}

/// The engine after the in-flight iterations of an issue were invalidated.
pub open spec fn with_iterations_cancelled(
    e: EngineView,
    issue_id: i32,
    now: Timestamp,
) -> EngineView {
    EngineView {
        iterations: with_rows(
            e.iterations,
            update_where(e.iterations.rows, in_flight(issue_id), abandoned(now)),
        ),
        ..e
    }
}

/// Cancelling an issue: from any state that is not terminal. The driver is stopped
/// and the agents are shut down before the worktree is removed.
pub open spec fn cancel_post(e: EngineView, issue_id: i32, now: Timestamp) -> (
    EngineView,
    Result<(), LoopErrorView>,
) {
    match position::<loop_issue::Model>(e.issues.rows, issue_id) {
        Some(i) => if terminal(e.issues.rows[i].status) {
            (e, Err(LoopErrorView::Conflict))
        } else {
            let closed = e.set_issue(i, cancelled(e.issues.rows[i], now)).say(
                EffectView::StopDriver(issue_id),
            );
            let killed = EngineView {
                outbox: closed.outbox + disconnects(e.iterations.rows, issue_id),
                ..closed
            };
            (
                with_worktree_removed(
                    with_iterations_cancelled(killed, issue_id, now),
                    issue_id,
                ),
                Ok(()),
            )
        },
        None => (e, Err(LoopErrorView::Conflict)),
    }
}

impl LoopEngine {
    /// Cancel an issue from any non-terminal state: close it, stop the driver, shut
    /// down its agents, invalidate its in-flight iterations, and remove the worktree.
    pub fn cancel_issue(&mut self, issue_id: i32, now: Timestamp) -> (r: Result<(), LoopError>)
        requires
            old(self).wf(),
        ensures
            (final(self)@, outcome(r)) == cancel_post(old(self)@, issue_id, now),
            final(self).wf(),
    {
        match self.issues.find(issue_id) {
            Some(i) => {
                if self.issues.rows[i].status == IssueStatus::Done || self.issues.rows[i].status
                    == IssueStatus::Cancelled {
                    return Err(LoopError::Conflict);
                }
                let mut row = self.issues.rows[i].clone();
                row.status = IssueStatus::Cancelled;
                row.ended_at = Some(now);
                row.updated_at = now;
                self.issues.set(i, row);
                self.say(Effect::StopDriver(issue_id));
                self.kill_in_flight_agents(issue_id);
                self.cancel_iterations(issue_id, now);
                self.remove_issue_worktree(issue_id);
                Ok(())
            },
            None => Err(LoopError::Conflict),
        }
    }

    /// Asks for the shutdown of the agents of an issue's in-flight iterations.
    fn kill_in_flight_agents(&mut self, issue_id: i32)
        requires
            old(self).wf(),
        ensures
            final(self)@ == (EngineView {
                outbox: old(self)@.outbox + disconnects(old(self)@.iterations.rows, issue_id),
                ..old(self)@
            }),
    {
        let ghost before = self@;
        let ghost rows = self@.iterations.rows;
        let ghost cond = live_agent(issue_id);
        let mut i: usize = 0;
        proof {
            reveal(Seq::filter);
            assert(disconnects(rows.take(0), issue_id) =~= Seq::empty());
            assert(before.outbox + disconnects(rows.take(0), issue_id) =~= before.outbox);
        }
        while i < self.iterations.rows.len()
            invariant
                i <= self.iterations.rows@.len() == rows.len(),
                rows == self@.iterations.rows,
                cond == live_agent(issue_id),
                self@ == (EngineView {
                    outbox: before.outbox + disconnects(rows.take(i as int), issue_id),
                    ..before
                }),
            decreases rows.len() - i,
        {
            proof {
                lemma_count_step(rows, cond, i as int);
                assert(rows[i as int] == self.iterations.rows@[i as int]@);
            }
            let ghost found = rows.take(i as int).filter(cond);
            let it = &self.iterations.rows[i];
            if it.issue_id == issue_id && (it.status == IterationStatus::Queued || it.status
                == IterationStatus::Running) {
                if let Some(cid) = it.conversation_id {
                    proof {
                        assert(found.push(rows[i as int]).map_values(disconnection())
                            =~= found.map_values(disconnection()).push(EffectView::Disconnect(cid)));
                        assert((before.outbox + found.map_values(disconnection())).push(
                            EffectView::Disconnect(cid),
                        ) =~= before.outbox + found.map_values(disconnection()).push(
                            EffectView::Disconnect(cid),
                        ));
                    }
                    self.say(Effect::Disconnect(cid));
                    assert(self@.iterations.rows.len() == self.iterations.rows@.len());
                }
            }
            i = i + 1;
        }
        assert(rows.take(i as int) =~= rows);
    }

    /// Invalidates the in-flight iterations of an issue, so that late submissions
    /// under their tokens are rejected. A recorded outcome is kept.
    fn cancel_iterations(&mut self, issue_id: i32, now: Timestamp)
        requires
            old(self).wf(),
        ensures
            final(self)@ == with_iterations_cancelled(old(self)@, issue_id, now),
            final(self).wf(),
    {
        let ghost before = self@;
        let ghost rows = self@.iterations.rows;
        let ghost done = update_where(rows, in_flight(issue_id), abandoned(now));
        let mut i: usize = 0;
        while i < self.iterations.rows.len()
            invariant
                i <= self.iterations.rows@.len() == rows.len(),
                rows == before.iterations.rows,
                done == update_where(rows, in_flight(issue_id), abandoned(now)),
                self@ == (EngineView { iterations: self.iterations@, ..before }),
                self.iterations.next_id == before.iterations.next_id,
                forall|j: int|
                    0 <= j < rows.len() ==> (#[trigger] self.iterations.rows@[j])@ == (if j < i {
                        done[j]
                    } else {
                        rows[j]
                    }),
            decreases self.iterations.rows@.len() - i,
        {
            if self.iterations.rows[i].issue_id == issue_id && (self.iterations.rows[i].status
                == IterationStatus::Queued || self.iterations.rows[i].status
                == IterationStatus::Running) {
                let mut row = self.iterations.rows[i].clone();
                row.status = IterationStatus::Cancelled;
                row.ended_at = Some(now);
                if row.outcome.is_none() {
                    row.outcome = Some(IterationOutcome::Abandoned);
                }
                self.iterations.rows[i] = row;
            }
            i = i + 1;
        }
        proof {
            assert(self@.iterations.rows =~= done);
            lemma_update_keeps_ids::<loop_iteration::Model>(
                rows,
                in_flight(issue_id),
                abandoned(now),
            );
        }
    }

    /// Asks for the removal of an issue's worktree. Best-effort: nothing is asked for
    /// when the folder or the repository is not known.
    fn remove_issue_worktree(&mut self, issue_id: i32)
        requires
            old(self).wf(),
        ensures
            final(self)@ == with_worktree_removed(old(self)@, issue_id),
            final(self).wf(),
    {
        if let Some(i) = self.issues.find(issue_id) {
            let space_id: i32 = self.issues.rows[i].space_id;
            if let Some(folder_id) = self.issues.rows[i].worktree_folder_id {
                if let Some(f) = self.find_folder(folder_id) {
                    let worktree_path = self.folders.rows[f].path.clone();
                    if let Some(repo_path) = self.space_path(space_id) {
                        self.say(Effect::RemoveCancelledWorktree { repo_path, worktree_path });
                    }
                }
            }
        }
    }
}

// ---------------------------------------------------------------------------
// Design gate
// ---------------------------------------------------------------------------

/// The artifact is a design of the issue that awaits approval.
pub open spec fn awaiting_design(issue_id: i32) -> spec_fn(loop_artifact::ModelView) -> bool {
    |a: loop_artifact::ModelView|
        a.issue_id == issue_id && a.kind == ArtifactKind::Design && a.status
            == ArtifactStatus::AwaitingApproval
}

/// Moving an artifact to a status.
pub open spec fn moving(to: ArtifactStatus, now: Timestamp) -> spec_fn(
    loop_artifact::ModelView,
) -> loop_artifact::ModelView {
    |a: loop_artifact::ModelView| artifact_moved(a, to, now)
}

/// The engine after every awaiting design of the issue was moved to a status.
pub open spec fn with_designs_moved(
    e: EngineView,
    issue_id: i32,
    to: ArtifactStatus,
    now: Timestamp,
) -> EngineView {
    EngineView {
        artifacts: with_rows(
            e.artifacts,
            update_where(e.artifacts.rows, awaiting_design(issue_id), moving(to, now)),
        ),
        ..e
    }
}

/// Approving the design gate.
pub open spec fn approve_design_post(e: EngineView, issue_id: i32, now: Timestamp) -> (
    EngineView,
    Result<(), LoopErrorView>,
) {
    match e.issue(issue_id) {
        None => (e, Err(LoopErrorView::NotFound(numbered("issue "@, issue_id)))),
        Some(issue) => if !any_match(e.artifacts.rows, awaiting_design(issue_id)) {
            (e, Err(LoopErrorView::Conflict))
        } else {
            let moved = with_designs_moved(e, issue_id, ArtifactStatus::Done, now);
            let cards = approval_resolved(
                e.inbox,
                issue_id,
                key_for("design"@, issue_id),
                object1("action"@, JsonView::Str("approve"@)),
                now,
            );
            (
                moved.with_inbox(cards).say(
                    issue_changed(issue.space_id, issue_id, "design_approved"@),
                ).say(EffectView::WakeDriver(issue_id)),
                Ok(()),
            )
        },
    }
}

/// The ids of the designs of the issue that await approval, ascending.
pub open spec fn awaiting_ids(rows: Seq<loop_artifact::ModelView>, issue_id: i32) -> Seq<i32> {
    rows.filter(awaiting_design(issue_id)).map_values(|a: loop_artifact::ModelView| a.id)
}

/// A revision that a person wrote on an artifact.
pub open spec fn human_revision(
    id: i32,
    artifact_id: i32,
    content: Seq<char>,
    now: Timestamp,
) -> loop_artifact_revision::ModelView {
    loop_artifact_revision::ModelView {
        id,
        artifact_id,
        content,
        actor_kind: ActorKind::Human,
        produced_by_iteration_id: None,
        created_at: now,
    }
}

/// The revisions after the same note was added to each of the artifacts.
pub open spec fn with_notes(
    t: TableView<loop_artifact_revision::ModelView>,
    ids: Seq<i32>,
    content: Seq<char>,
    now: Timestamp,
) -> TableView<loop_artifact_revision::ModelView>
    decreases ids.len(),
{
    if ids.len() == 0 {
        t
    } else {
        let before = with_notes(t, ids.drop_last(), content, now);
        with_row(before, human_revision(before.next_id, ids.last(), content, now))
    }
}

/// The text of an optional comment; empty without one.
pub open spec fn comment_text(comment: Option<String>) -> Seq<char> {
    match comment {
        Some(s) => s@,
        None => Seq::empty(),
    }
}

/// Rejecting the design gate: the comment, where it says something, is recorded on
/// each rejected design.
pub open spec fn reject_design_post(
    e: EngineView,
    issue_id: i32,
    comment: Seq<char>,
    now: Timestamp,
) -> (EngineView, Result<(), LoopErrorView>) {
    match e.issue(issue_id) {
        None => (e, Err(LoopErrorView::NotFound(numbered("issue "@, issue_id)))),
        Some(issue) => if !any_match(e.artifacts.rows, awaiting_design(issue_id)) {
            (e, Err(LoopErrorView::Conflict))
        } else {
            let moved = with_designs_moved(e, issue_id, ArtifactStatus::Superseded, now);
            let revisions = if trimmed(comment).len() > 0 {
                with_notes(
                    e.revisions,
                    awaiting_ids(e.artifacts.rows, issue_id),
                    "[design rejected] "@ + trimmed(comment),
                    now,
                )
            } else {
                e.revisions
            };
            let cards = approval_resolved(
                e.inbox,
                issue_id,
                key_for("design"@, issue_id),
                object2(
                    "action"@,
                    JsonView::Str("reject"@),
                    "comment"@,
                    JsonView::Str(comment),
                ),
                now,
            );
            (
                EngineView { revisions, ..moved.with_inbox(cards) }.say(
                    issue_changed(issue.space_id, issue_id, "design_rejected"@),
                ).say(EffectView::WakeDriver(issue_id)),
                Ok(()),
            )
        },
    }
}

/// The issue's design artifacts that await approval.
fn awaiting_design_ids(artifacts: &Table<loop_artifact::Model>, issue_id: i32) -> (r: Vec<i32>)
    ensures
        r@ == awaiting_ids(artifacts@.rows, issue_id),
        r@.len() == count_where(artifacts@.rows, awaiting_design(issue_id)),
        r@.len() > 0 <==> any_match(artifacts@.rows, awaiting_design(issue_id)),
{
    let ghost rows = artifacts@.rows;
    let ghost cond = awaiting_design(issue_id);
    let mut ids: Vec<i32> = Vec::new();
    let mut i: usize = 0;
    proof {
        reveal(Seq::filter);
        assert(ids@ =~= awaiting_ids(rows.take(0), issue_id));
    }
    while i < artifacts.rows.len()
        invariant
            i <= artifacts.rows@.len(),
            rows == artifacts@.rows,
            cond == awaiting_design(issue_id),
            ids@ == awaiting_ids(rows.take(i as int), issue_id),
            ids@.len() > 0 <==> exists|j: int| 0 <= j < i && cond(#[trigger] rows[j]),
        decreases artifacts.rows@.len() - i,
    {
        let ghost found = rows.take(i as int).filter(cond);
        proof {
            lemma_count_step(rows, cond, i as int);
            assert(rows[i as int] == artifacts.rows@[i as int]@);
            assert(found.push(rows[i as int]).map_values(|a: loop_artifact::ModelView| a.id)
                =~= found.map_values(|a: loop_artifact::ModelView| a.id).push(rows[i as int].id));
        }
        let a = &artifacts.rows[i];
        if a.issue_id == issue_id && a.kind == ArtifactKind::Design && a.status
            == ArtifactStatus::AwaitingApproval {
            ids.push(a.id);
            assert(cond(rows[i as int]));
        }
        i = i + 1;
    }
    assert(rows.take(i as int) =~= rows);
    ids
}

impl LoopEngine {
    /// Moves every awaiting design of the issue to a status.
    fn move_designs(&mut self, issue_id: i32, to: ArtifactStatus, now: Timestamp)
        requires
            old(self).wf(),
        ensures
            final(self)@ == with_designs_moved(old(self)@, issue_id, to, now),
            final(self).wf(),
    {
        let ghost before = self@;
        let ghost rows = self@.artifacts.rows;
        let ghost done = update_where(rows, awaiting_design(issue_id), moving(to, now));
        let mut i: usize = 0;
        while i < self.artifacts.rows.len()
            invariant
                i <= self.artifacts.rows@.len() == rows.len(),
                rows == before.artifacts.rows,
                done == update_where(rows, awaiting_design(issue_id), moving(to, now)),
                self@ == (EngineView { artifacts: self.artifacts@, ..before }),
                self.artifacts.next_id == before.artifacts.next_id,
                forall|j: int|
                    0 <= j < rows.len() ==> (#[trigger] self.artifacts.rows@[j])@ == (if j < i {
                        done[j]
                    } else {
                        rows[j]
                    }),
            decreases self.artifacts.rows@.len() - i,
        {
            if self.artifacts.rows[i].issue_id == issue_id && self.artifacts.rows[i].kind
                == ArtifactKind::Design && self.artifacts.rows[i].status
                == ArtifactStatus::AwaitingApproval {
                let mut row = self.artifacts.rows[i].clone();
                row.status = to;
                row.updated_at = now;
                self.artifacts.rows[i] = row;
            }
            i = i + 1;
        }
        proof {
            assert(self@.artifacts.rows =~= done);
            lemma_update_keeps_ids::<loop_artifact::Model>(
                rows,
                awaiting_design(issue_id),
                moving(to, now),
            );
        }
    }

    /// Approve the design gate: mark every design that is awaiting approval `done` and
    /// wake the driver. Conflict when no design is awaiting.
    pub fn approve_design(&mut self, issue_id: i32, now: Timestamp) -> (r: Result<(), LoopError>)
        requires
            old(self).wf(),
        ensures
            (final(self)@, outcome(r)) == approve_design_post(old(self)@, issue_id, now),
            final(self).wf(),
    {
        match self.issues.find(issue_id) {
            None => Err(LoopError::NotFound(numbered_text("issue ", issue_id))),
            Some(i) => {
                let space_id: i32 = self.issues.rows[i].space_id;
                let awaiting = awaiting_design_ids(&self.artifacts, issue_id);
                if awaiting.len() == 0 {
                    return Err(LoopError::Conflict);
                }
                self.move_designs(issue_id, ArtifactStatus::Done, now);
                resolve_approval_card(
                    &mut self.inbox,
                    issue_id,
                    make_key("design", issue_id).as_str(),
                    make_object1("action", string_value("approve".to_owned())),
                    now,
                );
                self.emit_changed(space_id, issue_id, "design_approved");
                self.say(Effect::WakeDriver(issue_id));
                Ok(())
            },
        }
    }

    /// Reject the design gate: supersede every awaiting design (recording the
    /// comment as a revision by a person, so the next design is not blind) and
    /// wake the driver. Conflict when no design is awaiting.
    pub fn reject_design(&mut self, issue_id: i32, comment: Option<String>, now: Timestamp) -> (r:
        Result<(), LoopError>)
        requires
            old(self).wf(),
            old(self)@.issue(issue_id) is Some && trimmed(comment_text(comment)).len() > 0 ==> old(
                self,
            )@.revisions.next_id + count_where(
                old(self)@.artifacts.rows,
                awaiting_design(issue_id),
            ) <= i32::MAX,
        ensures
            (final(self)@, outcome(r)) == reject_design_post(
                old(self)@,
                issue_id,
                comment_text(comment),
                now,
            ),
            final(self).wf(),
    {
        match self.issues.find(issue_id) {
            None => Err(LoopError::NotFound(numbered_text("issue ", issue_id))),
            Some(i) => {
                let space_id: i32 = self.issues.rows[i].space_id;
                let awaiting = awaiting_design_ids(&self.artifacts, issue_id);
                if awaiting.len() == 0 {
                    return Err(LoopError::Conflict);
                }
                let note = match comment {
                    Some(s) => s,
                    None => String::new(),
                };
                proof {
                    assert(note@ =~= comment_text(comment));
                }
                self.move_designs(issue_id, ArtifactStatus::Superseded, now);
                let said: &str = trim(note.as_str());
                if said.unicode_len() > 0 {
                    let mut content = "[design rejected] ".to_owned();
                    content.append(said);
                    add_notes(&mut self.revisions, &awaiting, content.as_str(), now);
                }
                resolve_approval_card(
                    &mut self.inbox,
                    issue_id,
                    make_key("design", issue_id).as_str(),
                    make_object2(
                        "action",
                        string_value("reject".to_owned()),
                        "comment",
                        string_value(note),
                    ),
                    now,
                );
                self.emit_changed(space_id, issue_id, "design_rejected");
                self.say(Effect::WakeDriver(issue_id));
                Ok(())
            },
        }
    }
}

/// Adds the same note, written by a person, to each of the artifacts.
fn add_notes(
    revisions: &mut Table<loop_artifact_revision::Model>,
    ids: &Vec<i32>,
    content: &str,
    now: Timestamp,
)
    requires
        old(revisions).wf(),
        old(revisions).next_id + ids@.len() <= i32::MAX,
    ensures
        final(revisions)@ == with_notes(old(revisions)@, ids@, content@, now),
        final(revisions).wf(),
{
    let ghost before = revisions@;
    let mut i: usize = 0;
    while i < ids.len()
        invariant
            i <= ids@.len(),
            revisions.wf(),
            revisions@ == with_notes(before, ids@.take(i as int), content@, now),
            revisions.next_id == before.next_id + i,
            before.next_id + ids@.len() <= i32::MAX,
        decreases ids@.len() - i,
    {
        assert(ids@.take(i + 1).drop_last() =~= ids@.take(i as int));
        let row = loop_artifact_revision::Model {
            id: revisions.next_id,
            artifact_id: ids[i],
            content: content.to_owned(),
            actor_kind: ActorKind::Human,
            produced_by_iteration_id: None,
            created_at: now,
        };
        revisions.insert(row);
        i = i + 1;
    }
    assert(ids@.take(i as int) =~= ids@);
}

} // verus!
