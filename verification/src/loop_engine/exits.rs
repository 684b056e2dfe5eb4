//! The ways out of a blocked or paused issue: retry, force-complete, override and
//! add budget.

use crate::clock::Timestamp;
use crate::entities::loop_artifact::{self, ArtifactKind, ArtifactStatus};
use crate::entities::loop_inbox_item::InboxKind;
use crate::entities::loop_issue::{self, IssueStatus};
use crate::error::{outcome, LoopError, LoopErrorView};
use crate::json::{
    integer_value, make_object1, make_object2, object1, object2, string_value, JsonView,
};
use crate::loop_engine::actions::resume_post;
use crate::loop_engine::transitions::{
    cas_issue_status, cas_task_force_done_no_op, clear_oscillation, force_done_cas, issue_cas,
    issue_moved, oscillation_cleared,
};
use crate::loop_engine::{
    issue_changed, numbered, numbered_text, Effect, EffectView, EngineView, LoopEngine,
};
use crate::loop_service::inbox::{
    blocker_sig, has_pending_oscillation_card, ordinary_block, oscillation_card, pending_of_kind,
    resolve_blocked_cards_except_oscillation, resolve_cards_of_kind, resolve_task_blocker_cards,
    swept, task_blocker, task_blocker_failure_sig,
};
use crate::table::{
    any_match, lemma_update_keeps_ids, lookup, position, update_where, with_rows, Table, TableView,
};
use crate::text::{has_prefix, same_text, starts_with};
use vstd::prelude::*;

verus! {

broadcast use vstd::string::group_string_axioms;

// ---------------------------------------------------------------------------
// Retry
// ---------------------------------------------------------------------------

/// The artifact is a blocked task of the issue.
pub open spec fn blocked_task(issue_id: i32) -> spec_fn(loop_artifact::ModelView) -> bool {
    |a: loop_artifact::ModelView|
        a.issue_id == issue_id && a.kind == ArtifactKind::Task && a.status
            == ArtifactStatus::Blocked
}

/// The task keeps failing in the same way: a plain retry cannot help it. A limit
/// that is not positive turns the breaker off.
pub open spec fn oscillating(a: loop_artifact::ModelView, limit: i32) -> bool {
    limit > 0 && a.oscillation_count >= limit && a.recent_failure_sig is Some
}

/// The artifact is a blocked task of the issue that a retry re-arms.
pub open spec fn rearmable(issue_id: i32, limit: i32) -> spec_fn(loop_artifact::ModelView) -> bool {
    |a: loop_artifact::ModelView| blocked_task(issue_id)(a) && !oscillating(a, limit)
}

/// Re-arming a task for a fresh run. The oscillation columns stay.
pub open spec fn rearming(now: Timestamp) -> spec_fn(
    loop_artifact::ModelView,
) -> loop_artifact::ModelView {
    |a: loop_artifact::ModelView|
        loop_artifact::ModelView {
            status: ArtifactStatus::Pending,
            attempt: 0,
            last_failure_sig: None,
            updated_at: now,
            ..a
        }
}

/// The engine after a retry that goes through.
pub open spec fn retried(
    e: EngineView,
    issue_id: i32,
    space_id: i32,
    limit: i32,
    now: Timestamp,
) -> EngineView {
    EngineView {
        issues: issue_cas(
            e.issues,
            issue_id,
            IssueStatus::Blocked,
            IssueStatus::Running,
            now,
        ).0,
        artifacts: with_rows(
            e.artifacts,
            update_where(e.artifacts.rows, rearmable(issue_id, limit), rearming(now)),
        ),
        inbox: swept(
            e.inbox,
            ordinary_block(issue_id),
            object1("action"@, JsonView::Str("retry"@)),
            now,
        ),
        ..e
    }.say(issue_changed(space_id, issue_id, "retried"@)).say(EffectView::StartDriver(issue_id))
}

/// Retrying a blocked issue, under the oscillation limit that its configuration
/// gives, where the configuration can be read.
pub open spec fn retry_post(
    e: EngineView,
    issue_id: i32,
    oscillation_limit: Result<u32, LoopErrorView>,
    now: Timestamp,
) -> (EngineView, Result<(), LoopErrorView>) {
    match e.issue(issue_id) {
        None => (e, Err(LoopErrorView::NotFound(numbered("issue "@, issue_id)))),
        Some(issue) => {
            let refused = e.say(issue_changed(issue.space_id, issue_id, "retry_unavailable"@));
            if issue.status != IssueStatus::Blocked {
                (refused, Err(LoopErrorView::Conflict))
            } else {
                match oscillation_limit {
                    Err(x) => (e, Err(x)),
                    Ok(l) => {
                        let limit = l as i32;
                        if any_match(e.artifacts.rows, blocked_task(issue_id)) && !any_match(
                            e.artifacts.rows,
                            rearmable(issue_id, limit),
                        ) {
                            (refused, Err(LoopErrorView::Conflict))
                        } else {
                            (retried(e, issue_id, issue.space_id, limit, now), Ok(()))
                        }
                    },
                }
            }
        },
    }
}

/// A `u32` as an `i32`, as a cast does it.
#[verifier::truncate]
fn limit_of(n: u32) -> (r: i32)
    ensures
        r == n as i32,
{
    n as i32
}

fn is_blocked_task(a: &loop_artifact::Model, issue_id: i32) -> (r: bool)
    ensures
        r == blocked_task(issue_id)(a@),
{
    a.issue_id == issue_id && a.kind == ArtifactKind::Task && a.status == ArtifactStatus::Blocked
}

fn is_rearmable(a: &loop_artifact::Model, issue_id: i32, limit: i32) -> (r: bool)
    ensures
        r == rearmable(issue_id, limit)(a@),
{
    is_blocked_task(a, issue_id) && !(limit > 0 && a.oscillation_count >= limit
        && a.recent_failure_sig.is_some())
}

impl LoopEngine {
    /// Whether the issue has blocked tasks, and whether any of them can be re-armed.
    fn blocked_tasks(&self, issue_id: i32, limit: i32) -> (r: (bool, bool))
        ensures
            r.0 == any_match(self@.artifacts.rows, blocked_task(issue_id)),
            r.1 == any_match(self@.artifacts.rows, rearmable(issue_id, limit)),
    {
        let ghost rows = self@.artifacts.rows;
        let mut blocked: bool = false;
        let mut rearm: bool = false;
        let mut i: usize = 0;
        while i < self.artifacts.rows.len()
            invariant
                i <= self.artifacts.rows@.len(),
                rows == self@.artifacts.rows,
                blocked == exists|j: int|
                    0 <= j < i && blocked_task(issue_id)(#[trigger] rows[j]),
                rearm == exists|j: int|
                    0 <= j < i && rearmable(issue_id, limit)(#[trigger] rows[j]),
            decreases self.artifacts.rows@.len() - i,
        {
            assert(rows[i as int] == self.artifacts.rows@[i as int]@);
            if is_blocked_task(&self.artifacts.rows[i], issue_id) {
                blocked = true;
                assert(blocked_task(issue_id)(rows[i as int]));
            }
            if is_rearmable(&self.artifacts.rows[i], issue_id, limit) {
                rearm = true;
                assert(rearmable(issue_id, limit)(rows[i as int]));
            }
            i = i + 1;
        }
        (blocked, rearm)
    }

    /// Re-arms the blocked tasks of the issue that are not oscillating.
    fn rearm_tasks(&mut self, issue_id: i32, limit: i32, now: Timestamp)
        requires
            old(self).wf(),
        ensures
            final(self)@ == (EngineView {
                artifacts: with_rows(
                    old(self)@.artifacts,
                    update_where(
                        old(self)@.artifacts.rows,
                        rearmable(issue_id, limit),
                        rearming(now),
                    ),
                ),
                ..old(self)@
            }),
            final(self).wf(),
    {
        let ghost before = self@;
        let ghost rows = self@.artifacts.rows;
        let ghost done = update_where(rows, rearmable(issue_id, limit), rearming(now));
        let mut i: usize = 0;
        while i < self.artifacts.rows.len()
            invariant
                i <= self.artifacts.rows@.len() == rows.len(),
                rows == before.artifacts.rows,
                done == update_where(rows, rearmable(issue_id, limit), rearming(now)),
                self@ == (EngineView { artifacts: self.artifacts@, ..before }),
                self.artifacts.next_id == before.artifacts.next_id,
                forall|j: int|
                    0 <= j < rows.len() ==> (#[trigger] self.artifacts.rows@[j])@ == (if j < i {
                        done[j]
                    } else {
                        rows[j]
                    }),
            decreases self.artifacts.rows@.len() - i,
        {
            if is_rearmable(&self.artifacts.rows[i], issue_id, limit) {
                let mut row = self.artifacts.rows[i].clone();
                row.status = ArtifactStatus::Pending;
                row.attempt = 0;
                row.last_failure_sig = None;
                row.updated_at = now;
                self.artifacts.rows[i] = row;
            }
            i = i + 1;
        }
        proof {
            assert(self@.artifacts.rows =~= done);
            lemma_update_keeps_ids::<loop_artifact::Model>(
                rows,
                rearmable(issue_id, limit),
                rearming(now),
            );
        }
    }

    /// Retry a blocked issue. Re-arms every blocked task for a fresh run with a fresh
    /// attempt budget, marks the blocking cards handled, and puts the issue back to
    /// running under a fresh driver. Oscillating tasks are excluded: they and their
    /// cards need an explicit override or force-complete, and when every blocked task
    /// oscillates the retry is a conflict. An issue-level block has no blocked task
    /// and is simply driven again.
    pub fn retry_issue(
        &mut self,
        issue_id: i32,
        oscillation_limit: Result<u32, LoopError>,
        now: Timestamp,
    ) -> (r: Result<(), LoopError>)
        requires
            old(self).wf(),
        ensures
            (final(self)@, outcome(r)) == retry_post(
                old(self)@,
                issue_id,
                outcome(oscillation_limit),
                now,
            ),
            final(self).wf(),
    {
        match self.issues.find(issue_id) {
            None => Err(LoopError::NotFound(numbered_text("issue ", issue_id))),
            Some(i) => {
                let space_id: i32 = self.issues.rows[i].space_id;
                if self.issues.rows[i].status != IssueStatus::Blocked {
                    self.emit_changed(space_id, issue_id, "retry_unavailable");
                    return Err(LoopError::Conflict);
                }
                let limit: i32 = match oscillation_limit {
                    Ok(l) => limit_of(l),
                    Err(e) => {
                        return Err(e);
                    },
                };
                let (blocked, rearm) = self.blocked_tasks(issue_id, limit);
                if blocked && !rearm {
                    self.emit_changed(space_id, issue_id, "retry_unavailable");
                    return Err(LoopError::Conflict);
                }
                cas_issue_status(
                    &mut self.issues,
                    issue_id,
                    IssueStatus::Blocked,
                    IssueStatus::Running,
                    now,
                );
                self.rearm_tasks(issue_id, limit, now);
                resolve_blocked_cards_except_oscillation(
                    &mut self.inbox,
                    issue_id,
                    make_object1("action", string_value("retry".to_owned())),
                    now,
                );
                self.emit_changed(space_id, issue_id, "retried");
                self.say(Effect::StartDriver(issue_id));
                Ok(())
            },
        }
    }
}

// ---------------------------------------------------------------------------
// Force-complete and override
// ---------------------------------------------------------------------------

/// The issues after one was anchored running for an exit action: only a running or
/// a blocked issue can be.
pub open spec fn anchored(t: TableView<loop_issue::ModelView>, issue_id: i32, now: Timestamp) -> (
    TableView<loop_issue::ModelView>,
    Result<(), LoopErrorView>,
) {
    match position::<loop_issue::Model>(t.rows, issue_id) {
        Some(i) => if t.rows[i].status == IssueStatus::Running || t.rows[i].status
            == IssueStatus::Blocked {
            (
                with_rows(t, t.rows.update(i, issue_moved(t.rows[i], IssueStatus::Running, now))),
                Ok(()),
            )
        } else {
            (t, Err(LoopErrorView::Conflict))
        },
        None => (t, Err(LoopErrorView::Conflict)),
    }
}

/// Anchor an issue running before a human exit action changes its tasks. It goes by
/// the live row, not by what the caller read before: an issue that was parked blocked
/// meanwhile is anchored again; a terminal or paused issue is a conflict.
pub fn ensure_running_for_exit(
    issues: &mut Table<loop_issue::Model>,
    issue_id: i32,
    now: Timestamp,
) -> (r: Result<(), LoopError>)
    requires
        old(issues).wf(),
    ensures
        (final(issues)@, outcome(r)) == anchored(old(issues)@, issue_id, now),
        final(issues).wf(),
{
    match issues.find(issue_id) {
        Some(i) => {
            if issues.rows[i].status == IssueStatus::Running || issues.rows[i].status
                == IssueStatus::Blocked {
                let mut row = issues.rows[i].clone();
                row.status = IssueStatus::Running;
                row.updated_at = now;
                issues.set(i, row);
                Ok(())
            } else {
                Err(LoopError::Conflict)
            }
        },
        None => Err(LoopError::Conflict),
    }
}

/// The task with the given id.
pub open spec fn task_of(e: EngineView, task_id: i32) -> Option<loop_artifact::ModelView> {
    match lookup::<loop_artifact::Model>(e.artifacts.rows, task_id) {
        Some(a) => if a.kind == ArtifactKind::Task {
            Some(a)
        } else {
            None
        },
        None => None,
    }
}

/// The task is blocked because its run changed nothing: the only cause that a no-op
/// can stand for.
pub open spec fn empty_diff_block(e: EngineView, issue_id: i32, task_id: i32) -> bool {
    match blocker_sig(e.inbox.rows, issue_id, task_id) {
        Some(s) => has_prefix(s, "empty_diff:implement"@),
        None => false,
    }
}

/// A force-complete under way: the task, and what was read of it and of its issue.
#[derive(Debug, Clone, Copy, PartialEq, Eq, Structural)]
pub struct ForceJob {
    pub task_id: i32,
    pub task_space_id: i32,
    pub issue_id: i32,
    pub issue_space_id: i32,
}

/// What happened on the way to force-completing a task.
#[derive(Debug)]
pub enum ForceEvent {
    /// A person asked for it.
    Requested { task_id: i32 },
    /// Whether the task branch is at its base was looked up; none when there is no
    /// branch to tell.
    BranchChecked { job: ForceJob, at_base: Result<Option<bool>, LoopError> },
}

/// What is to be done next to force-complete a task.
#[derive(Debug)]
pub enum ForceAction {
    /// Find out whether the task branch is still at its base.
    CheckBranch(ForceJob),
    /// The action is over.
    Return(Result<(), LoopError>),
}

/// What a [`ForceAction`] holds.
pub enum ForceActionView {
    CheckBranch(ForceJob),
    Return(Result<(), LoopErrorView>),
}

impl View for ForceAction {
    type V = ForceActionView;

    open spec fn view(&self) -> ForceActionView {
        match *self {
            ForceAction::CheckBranch(job) => ForceActionView::CheckBranch(job),
            ForceAction::Return(r) => ForceActionView::Return(outcome(r)),
        }
    }
}

/// The prefixes of the cards that block a single task.
pub open spec fn blocker_subjects() -> Seq<&'static str> {
    seq!["no_progress", "validation_blocked", "infra_failure", "oscillation"]
}

/// The engine after a force-complete that goes through.
pub open spec fn force_completed(e: EngineView, job: ForceJob, now: Timestamp) -> EngineView {
    EngineView {
        issues: anchored(e.issues, job.issue_id, now).0,
        artifacts: oscillation_cleared(
            force_done_cas(e.artifacts, job.task_id, now).0,
            job.task_id,
            now,
        ),
        inbox: swept(
            e.inbox,
            task_blocker(job.issue_id, job.task_id, blocker_subjects()),
            object2(
                "action"@,
                JsonView::Str("force_complete"@),
                "actor"@,
                JsonView::Str("human"@),
            ),
            now,
        ),
        ..e
    }.say(issue_changed(job.issue_space_id, job.issue_id, "force_completed"@)).say(
        EffectView::StartDriver(job.issue_id),
    )
}

/// The last part of a force-complete: everything is checked once more against the
/// current rows, and then changed as one.
pub open spec fn force_commit(e: EngineView, job: ForceJob, now: Timestamp) -> (
    EngineView,
    Result<(), LoopErrorView>,
) {
    if anchored(e.issues, job.issue_id, now).1 is Err {
        (e, Err(LoopErrorView::Conflict))
    } else if !empty_diff_block(e, job.issue_id, job.task_id) {
        (
            e.say(issue_changed(job.task_space_id, job.issue_id, "force_complete_unavailable"@)),
            Err(LoopErrorView::Conflict),
        )
    } else if !force_done_cas(e.artifacts, job.task_id, now).1 {
        (e, Err(LoopErrorView::Conflict))
    } else {
        (force_completed(e, job, now), Ok(()))
    }
}

/// Force-completing a task.
pub open spec fn force_step(e: EngineView, event: ForceEvent, now: Timestamp) -> (
    EngineView,
    ForceActionView,
) {
    match event {
        ForceEvent::Requested { task_id } => match task_of(e, task_id) {
            None => (
                e,
                ForceActionView::Return(Err(LoopErrorView::NotFound(numbered("task "@, task_id)))),
            ),
            Some(task) => {
                if task.status != ArtifactStatus::Blocked || !empty_diff_block(
                    e,
                    task.issue_id,
                    task_id,
                ) {
                    (
                        e.say(
                            issue_changed(
                                task.space_id,
                                task.issue_id,
                                "force_complete_unavailable"@,
                            ),
                        ),
                        ForceActionView::Return(Err(LoopErrorView::Conflict)),
                    )
                } else {
                    match e.issue(task.issue_id) {
                        None => (
                            e,
                            ForceActionView::Return(
                                Err(LoopErrorView::NotFound(numbered("issue "@, task.issue_id))),
                            ),
                        ),
                        Some(issue) => {
                            let job = ForceJob {
                                task_id,
                                task_space_id: task.space_id,
                                issue_id: issue.id,
                                issue_space_id: issue.space_id,
                            };
                            if issue.execution_mode == Some("parallel"@) {
                                (e, ForceActionView::CheckBranch(job))
                            } else {
                                let (next, r) = force_commit(e, job, now);
                                (next, ForceActionView::Return(r))
                            }
                        },
                    }
                }
            },
        },
        ForceEvent::BranchChecked { job, at_base } => match at_base {
            Err(x) => (e, ForceActionView::Return(Err(x@))),
            Ok(Some(false)) => (e, ForceActionView::Return(Err(LoopErrorView::Conflict))),
            Ok(_) => {
                let (next, r) = force_commit(e, job, now);
                (next, ForceActionView::Return(r))
            },
        },
    }
}

impl LoopEngine {
    fn is_empty_diff_block(&self, issue_id: i32, task_id: i32) -> (r: bool)
        ensures
            r == empty_diff_block(self@, issue_id, task_id),
    {
        match task_blocker_failure_sig(&self.inbox, issue_id, task_id) {
            Some(s) => starts_with(s.as_str(), "empty_diff:implement"),
            None => false,
        }
    }

    fn commit_force(&mut self, job: ForceJob, now: Timestamp) -> (r: Result<(), LoopError>)
        requires
            old(self).wf(),
        ensures
            (final(self)@, outcome(r)) == force_commit(old(self)@, job, now),
            final(self).wf(),
    {
        let can_anchor: bool = match self.issues.find(job.issue_id) {
            Some(i) => self.issues.rows[i].status == IssueStatus::Running
                || self.issues.rows[i].status == IssueStatus::Blocked,
            None => false,
        };
        if !can_anchor {
            return Err(LoopError::Conflict);
        }
        if !self.is_empty_diff_block(job.issue_id, job.task_id) {
            self.emit_changed(job.task_space_id, job.issue_id, "force_complete_unavailable");
            return Err(LoopError::Conflict);
        }
        let ghost before = self@;
        if !cas_task_force_done_no_op(&mut self.artifacts, job.task_id, now) {
            return Err(LoopError::Conflict);
        }
        let anchor = ensure_running_for_exit(&mut self.issues, job.issue_id, now);
        assert(outcome(anchor) == anchored(before.issues, job.issue_id, now).1);
        clear_oscillation(&mut self.artifacts, job.task_id, now);
        let subjects: [&'static str; 4] = [
            "no_progress",
            "validation_blocked",
            "infra_failure",
            "oscillation",
        ];
        assert(subjects@ =~= blocker_subjects());
        resolve_task_blocker_cards(
            &mut self.inbox,
            job.issue_id,
            job.task_id,
            &subjects,
            make_object2(
                "action",
                string_value("force_complete".to_owned()),
                "actor",
                string_value("human".to_owned()),
            ),
            now,
        );
        self.emit_changed(job.issue_space_id, job.issue_id, "force_completed");
        self.say(Effect::StartDriver(job.issue_id));
        Ok(())
    }

    /// Force-complete a blocked, empty-diff task: accept it as a no-op so a wedged
    /// issue can finish. Only the `empty_diff:implement` family of causes qualifies,
    /// by the current blocker card. A parallel task whose branch carries a committed
    /// delta is refused. Anchors the issue running, marks the task done as a no-op,
    /// clears its oscillation epoch and resolves its blocker cards, all or nothing.
    pub fn force_complete_task(&mut self, event: ForceEvent, now: Timestamp) -> (r: ForceAction)
        requires
            old(self).wf(),
        ensures
            (final(self)@, r@) == force_step(old(self)@, event, now),
            final(self).wf(),
    {
        match event {
            ForceEvent::Requested { task_id } => {
                let found: Option<usize> = match self.artifacts.find(task_id) {
                    Some(t) => if self.artifacts.rows[t].kind == ArtifactKind::Task {
                        Some(t)
                    } else {
                        None
                    },
                    None => None,
                };
                match found {
                    None => ForceAction::Return(
                        Err(LoopError::NotFound(numbered_text("task ", task_id))),
                    ),
                    Some(t) => {
                        let space_id: i32 = self.artifacts.rows[t].space_id;
                        let issue_id: i32 = self.artifacts.rows[t].issue_id;
                        if self.artifacts.rows[t].status != ArtifactStatus::Blocked
                            || !self.is_empty_diff_block(issue_id, task_id) {
                            self.emit_changed(space_id, issue_id, "force_complete_unavailable");
                            return ForceAction::Return(Err(LoopError::Conflict));
                        }
                        match self.issues.find(issue_id) {
                            None => ForceAction::Return(
                                Err(LoopError::NotFound(numbered_text("issue ", issue_id))),
                            ),
                            Some(i) => {
                                let job = ForceJob {
                                    task_id,
                                    task_space_id: space_id,
                                    issue_id: self.issues.rows[i].id,
                                    issue_space_id: self.issues.rows[i].space_id,
                                };
                                let parallel: bool = match &self.issues.rows[i].execution_mode {
                                    Some(m) => same_text(m.as_str(), "parallel"),
                                    None => false,
                                };
                                if parallel {
                                    ForceAction::CheckBranch(job)
                                } else {
                                    ForceAction::Return(self.commit_force(job, now))
                                }
                            },
                        }
                    },
                }
            },
            ForceEvent::BranchChecked { job, at_base } => match at_base {
                Err(e) => ForceAction::Return(Err(e)),
                Ok(Some(false)) => ForceAction::Return(Err(LoopError::Conflict)),
                Ok(_) => ForceAction::Return(self.commit_force(job, now)),
            },
        }
    }
}

/// A task whose oscillation breaker was overridden.
pub open spec fn overridden(a: loop_artifact::ModelView, now: Timestamp) -> loop_artifact::ModelView {
    loop_artifact::ModelView {
        status: ArtifactStatus::Pending,
        attempt: 0,
        last_failure_sig: None,
        oscillation_count: 0,
        recent_failure_sig: None,
        updated_at: now,
        ..a
    }
}

/// Overriding the oscillation breaker of a task.
pub open spec fn override_post(e: EngineView, task_id: i32, now: Timestamp) -> (
    EngineView,
    Result<(), LoopErrorView>,
) {
    match task_of(e, task_id) {
        None => (e, Err(LoopErrorView::NotFound(numbered("task "@, task_id)))),
        Some(task) => {
            if task.status != ArtifactStatus::Blocked || !any_match(
                e.inbox.rows,
                oscillation_card(task.issue_id, task_id),
            ) {
                (
                    e.say(issue_changed(task.space_id, task.issue_id, "override_unavailable"@)),
                    Err(LoopErrorView::Conflict),
                )
            } else {
                match e.issue(task.issue_id) {
                    None => (
                        e,
                        Err(LoopErrorView::NotFound(numbered("issue "@, task.issue_id))),
                    ),
                    Some(issue) => match anchored(e.issues, issue.id, now) {
                        (issues, Err(x)) => (e, Err(x)),
                        (issues, Ok(_)) => {
                            let t = position::<loop_artifact::Model>(
                                e.artifacts.rows,
                                task_id,
                            )->Some_0;
                            let inbox = swept(
                                e.inbox,
                                task_blocker(issue.id, task_id, blocker_subjects()),
                                object2(
                                    "action"@,
                                    JsonView::Str("override_oscillation"@),
                                    "actor"@,
                                    JsonView::Str("human"@),
                                ),
                                now,
                            );
                            (
                                EngineView { issues, inbox, ..e }.set_artifact(
                                    t,
                                    overridden(task, now),
                                ).say(
                                    issue_changed(
                                        issue.space_id,
                                        issue.id,
                                        "oscillation_override"@,
                                    ),
                                ).say(EffectView::StartDriver(issue.id)),
                                Ok(()),
                            )
                        },
                    },
                }
            }
        },
    }
}

impl LoopEngine {
    /// Override an oscillation breaker: clear the epoch and re-arm the task with a
    /// fresh attempt budget. Only for tasks with a pending `oscillation:` card, so
    /// that this is no generic reset of blocked tasks. Anchors the issue running and
    /// resolves all blocker cards of the task.
    pub fn override_oscillation(&mut self, task_id: i32, now: Timestamp) -> (r: Result<
        (),
        LoopError,
    >)
        requires
            old(self).wf(),
        ensures
            (final(self)@, outcome(r)) == override_post(old(self)@, task_id, now),
            final(self).wf(),
    {
        let found: Option<usize> = match self.artifacts.find(task_id) {
            Some(t) => if self.artifacts.rows[t].kind == ArtifactKind::Task {
                Some(t)
            } else {
                None
            },
            None => None,
        };
        match found {
            None => Err(LoopError::NotFound(numbered_text("task ", task_id))),
            Some(t) => {
                let space_id: i32 = self.artifacts.rows[t].space_id;
                let task_issue: i32 = self.artifacts.rows[t].issue_id;
                if self.artifacts.rows[t].status != ArtifactStatus::Blocked
                    || !has_pending_oscillation_card(&self.inbox, task_issue, task_id) {
                    self.emit_changed(space_id, task_issue, "override_unavailable");
                    return Err(LoopError::Conflict);
                }
                match self.issues.find(task_issue) {
                    None => Err(LoopError::NotFound(numbered_text("issue ", task_issue))),
                    Some(i) => {
                        let issue_id: i32 = self.issues.rows[i].id;
                        let issue_space: i32 = self.issues.rows[i].space_id;
                        if let Err(e) = ensure_running_for_exit(&mut self.issues, issue_id, now) {
                            return Err(e);
                        }
                        let mut row = self.artifacts.rows[t].clone();
                        row.status = ArtifactStatus::Pending;
                        row.attempt = 0;
                        row.last_failure_sig = None;
                        row.oscillation_count = 0;
                        row.recent_failure_sig = None;
                        row.updated_at = now;
                        self.artifacts.set(t, row);
                        let subjects: [&'static str; 4] = [
                            "no_progress",
                            "validation_blocked",
                            "infra_failure",
                            "oscillation",
                        ];
                        assert(subjects@ =~= blocker_subjects());
                        resolve_task_blocker_cards(
                            &mut self.inbox,
                            issue_id,
                            task_id,
                            &subjects,
                            make_object2(
                                "action",
                                string_value("override_oscillation".to_owned()),
                                "actor",
                                string_value("human".to_owned()),
                            ),
                            now,
                        );
                        self.emit_changed(issue_space, issue_id, "oscillation_override");
                        self.say(Effect::StartDriver(issue_id));
                        Ok(())
                    },
                }
            },
        }
    }
}

// ---------------------------------------------------------------------------
// Budget
// ---------------------------------------------------------------------------

/// A budget topped up: a negative top-up counts as nothing, and the sum stays
/// within range.
pub open spec fn topped_up(budget: Option<i64>, additional: i64) -> i64 {
    let base: int = match budget {
        Some(b) => b as int,
        None => 0,
    };
    let sum = base + (if additional > 0 { additional as int } else { 0 });
    if sum > i64::MAX {
        i64::MAX
    } else {
        sum as i64
    }
}

/// Adding budget to a paused issue.
pub open spec fn add_budget_post(
    e: EngineView,
    issue_id: i32,
    additional: i64,
    now: Timestamp,
) -> (EngineView, Result<(), LoopErrorView>) {
    match position::<loop_issue::Model>(e.issues.rows, issue_id) {
        None => (e, Err(LoopErrorView::NotFound(numbered("issue "@, issue_id)))),
        Some(i) => {
            let issue = e.issues.rows[i];
            if issue.status != IssueStatus::Paused {
                (e, Err(LoopErrorView::Conflict))
            } else {
                let funded = e.set_issue(
                    i,
                    loop_issue::ModelView {
                        token_budget: Some(topped_up(issue.token_budget, additional)),
                        updated_at: now,
                        ..issue
                    },
                );
                let cards = swept(
                    e.inbox,
                    pending_of_kind(issue_id, InboxKind::BudgetExhausted),
                    object2(
                        "action"@,
                        JsonView::Str("add_budget"@),
                        "additional"@,
                        JsonView::Int(additional as int),
                    ),
                    now,
                );
                resume_post(
                    funded.with_inbox(cards).say(
                        issue_changed(issue.space_id, issue_id, "budget_added"@),
                    ),
                    issue_id,
                    now,
                )
            }
        },
    }
}

impl LoopEngine {
    /// Top up a paused issue's token budget and resume it. `additional`, taken as at
    /// least zero, is added to the current budget; the budget cards are handled and
    /// the issue resumes under a fresh driver. Conflict when the issue is not paused.
    pub fn add_budget(&mut self, issue_id: i32, additional: i64, now: Timestamp) -> (r: Result<
        (),
        LoopError,
    >)
        requires
            old(self).wf(),
        ensures
            (final(self)@, outcome(r)) == add_budget_post(
                old(self)@,
                issue_id,
                additional,
                now,
            ),
            final(self).wf(),
    {
        match self.issues.find(issue_id) {
            None => Err(LoopError::NotFound(numbered_text("issue ", issue_id))),
            Some(i) => {
                if self.issues.rows[i].status != IssueStatus::Paused {
                    return Err(LoopError::Conflict);
                }
                let space_id: i32 = self.issues.rows[i].space_id;
                let budget: i64 = match self.issues.rows[i].token_budget {
                    Some(b) => b,
                    None => 0,
                };
                let more: i64 = if additional > 0 {
                    additional
                } else {
                    0
                };
                let total: i64 = match budget.checked_add(more) {
                    Some(n) => n,
                    None => i64::MAX,
                };
                let mut row = self.issues.rows[i].clone();
                row.token_budget = Some(total);
                row.updated_at = now;
                self.issues.set(i, row);
                resolve_cards_of_kind(
                    &mut self.inbox,
                    issue_id,
                    InboxKind::BudgetExhausted,
                    make_object2(
                        "action",
                        string_value("add_budget".to_owned()),
                        "additional",
                        integer_value(additional),
                    ),
                    now,
                );
                self.emit_changed(space_id, issue_id, "budget_added");
                self.resume_issue(issue_id, now)
            },
        }
    }
}

} // verus!
