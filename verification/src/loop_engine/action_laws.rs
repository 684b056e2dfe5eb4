//! What holds of the human actions, one by one and one after the other.

use crate::clock::Timestamp;
use crate::entities::loop_artifact::{self, ArtifactStatus, ContributionKind};
use crate::entities::loop_inbox_item::{self, InboxKind};
use crate::entities::loop_issue::{self, IssueStatus, PauseReason};
use crate::entities::loop_iteration::IterationStatus;
use crate::error::{LoopError, LoopErrorView};
use crate::json::{object2, JsonView};
use crate::loop_engine::actions::{
    abandoned, approve_design_post, awaiting_design, cancel_post, disconnects, in_flight,
    live_agent, pause_post, reject_design_post, resume_post, terminal, trigger_step,
    TriggerActionView, TriggerEvent,
};
use crate::loop_engine::exits::{
    add_budget_post, blocked_task, blocker_subjects, empty_diff_block, force_commit, oscillating,
    override_post, retry_post, task_of, topped_up, ForceJob,
};
use crate::loop_engine::transitions::force_done_cas;
use crate::loop_engine::{issue_changed, EffectView, EngineView};
use crate::loop_service::inbox::{
    blocks_task, is_blocker_prefix, key_for, ordinary_block, oscillation_card, pending_of_kind,
    swept, task_blocker,
};
use crate::loop_service::inbox_laws::lemma_retry_spares_oscillation;
use crate::table::{
    any_match, lemma_lookup, lemma_lookup_at, lemma_update_wf, lookup, position, TableView,
};
use vstd::prelude::*;

verus! {

/// In a table with ascending ids, a row replaced by one with the same id is found at
/// its place, and no other row is.
proof fn lemma_issue_set(e: EngineView, id: i32, i: int, v: loop_issue::ModelView)
    requires
        e.wf(),
        position::<loop_issue::Model>(e.issues.rows, id) == Some(i),
        v.id == id,
    ensures
        0 <= i < e.issues.rows.len(),
        e.issues.rows[i].id == id,
        e.set_issue(i, v).wf(),
        position::<loop_issue::Model>(e.set_issue(i, v).issues.rows, id) == Some(i),
        e.set_issue(i, v).issue(id) == Some(v),
{
    lemma_lookup::<loop_issue::Model>(e.issues.rows, id);
    lemma_update_wf::<loop_issue::Model>(e.issues, i, v);
    lemma_lookup_at::<loop_issue::Model>(e.set_issue(i, v).issues.rows, i);
}

/// A failed worktree leaves the issue as it was, so that the trigger can be repeated.
pub proof fn lemma_trigger_failure_keeps_state(
    e: EngineView,
    issue_id: i32,
    x: LoopError,
    now: Timestamp,
)
    ensures
        trigger_step(e, issue_id, TriggerEvent::WorktreeEnsured(Err(x)), now) == (
            e,
            TriggerActionView::Return(Err(x@)),
        ),
{
}

/// Pausing a running issue and resuming it restores it: running, without a reason.
pub proof fn lemma_pause_then_resume(
    e: EngineView,
    issue_id: i32,
    issue: loop_issue::ModelView,
    now: Timestamp,
    later: Timestamp,
)
    requires
        e.wf(),
        e.issue(issue_id) == Some(issue),
        issue.status == IssueStatus::Running,
    ensures
        ({
            let (a, r) = pause_post(e, issue_id, now);
            let (b, s) = resume_post(a, issue_id, later);
            &&& r is Ok
            &&& a.issue(issue_id) is Some
            &&& a.issue(issue_id)->Some_0.status == IssueStatus::Paused
            &&& a.issue(issue_id)->Some_0.pause_reason == Some(PauseReason::Manual)
            &&& s is Ok
            &&& b.issue(issue_id) == Some(
                loop_issue::ModelView { pause_reason: None, updated_at: later, ..issue },
            )
            &&& b.outbox == e.outbox.push(EffectView::StopDriver(issue_id)).push(
                EffectView::StartDriver(issue_id),
            )
        }),
{
    let i = position::<loop_issue::Model>(e.issues.rows, issue_id)->Some_0;
    let (a, r) = pause_post(e, issue_id, now);
    let (b, s) = resume_post(a, issue_id, later);
    lemma_lookup::<loop_issue::Model>(e.issues.rows, issue_id);
    lemma_issue_set(e, issue_id, i, a.issues.rows[i]);
    lemma_issue_set(a, issue_id, i, b.issues.rows[i]);
}

/// A second pause is a conflict and changes nothing.
pub proof fn lemma_pause_twice_conflicts(
    e: EngineView,
    issue_id: i32,
    now: Timestamp,
    later: Timestamp,
)
    requires
        e.wf(),
        pause_post(e, issue_id, now).1 is Ok,
    ensures
        ({
            let a = pause_post(e, issue_id, now).0;
            pause_post(a, issue_id, later) == (a, Err::<(), LoopErrorView>(LoopErrorView::Conflict))
        }),
{
    let i = position::<loop_issue::Model>(e.issues.rows, issue_id)->Some_0;
    let a = pause_post(e, issue_id, now).0;
    lemma_lookup::<loop_issue::Model>(e.issues.rows, issue_id);
    lemma_issue_set(e, issue_id, i, a.issues.rows[i]);
}

/// Cancelling an issue that is not terminal succeeds and closes it: no iteration of it
/// is in flight any more, each that was has an outcome, and cancelling again is a
/// conflict that changes nothing.
pub proof fn lemma_cancel_closes(
    e: EngineView,
    issue_id: i32,
    issue: loop_issue::ModelView,
    now: Timestamp,
    later: Timestamp,
)
    requires
        e.wf(),
        e.issue(issue_id) == Some(issue),
        !terminal(issue.status),
    ensures
        ({
            let (a, r) = cancel_post(e, issue_id, now);
            &&& r is Ok
            &&& a.issue(issue_id) is Some
            &&& a.issue(issue_id)->Some_0.status == IssueStatus::Cancelled
            &&& a.issue(issue_id)->Some_0.ended_at == Some(now)
            &&& !any_match(a.iterations.rows, in_flight(issue_id))
            &&& forall|i: int|
                0 <= i < e.iterations.rows.len() && in_flight(issue_id)(e.iterations.rows[i])
                    ==> (#[trigger] a.iterations.rows[i]).status == IterationStatus::Cancelled
                    && a.iterations.rows[i].outcome is Some
            &&& cancel_post(a, issue_id, later) == (
                a,
                Err::<(), LoopErrorView>(LoopErrorView::Conflict),
            )
        }),
{
    let i = position::<loop_issue::Model>(e.issues.rows, issue_id)->Some_0;
    let a = cancel_post(e, issue_id, now).0;
    lemma_lookup::<loop_issue::Model>(e.issues.rows, issue_id);
    lemma_issue_set(e, issue_id, i, a.issues.rows[i]);
    assert(a.issues == e.set_issue(i, a.issues.rows[i]).issues);
    if any_match(a.iterations.rows, in_flight(issue_id)) {
        let k = choose|k: int|
            0 <= k < a.iterations.rows.len() && in_flight(issue_id)(
                #[trigger] a.iterations.rows[k],
            );
        assert(a.iterations.rows[k] == (if in_flight(issue_id)(e.iterations.rows[k]) {
            abandoned(now)(e.iterations.rows[k])
        } else {
            e.iterations.rows[k]
        }));
    }
}

/// When an issue is cancelled, every agent of it in flight is shut down before the
/// worktree is removed.
pub proof fn lemma_cancel_kills_before_removal(
    e: EngineView,
    issue_id: i32,
    now: Timestamp,
    i: int,
)
    requires
        e.wf(),
        cancel_post(e, issue_id, now).1 is Ok,
        0 <= i < e.iterations.rows.len(),
        live_agent(issue_id)(e.iterations.rows[i]),
    ensures
        ({
            let out = cancel_post(e, issue_id, now).0.outbox;
            let kill = EffectView::Disconnect(e.iterations.rows[i].conversation_id->Some_0);
            exists|k: int|
                e.outbox.len() < k < out.len() && #[trigger] out[k] == kill && forall|m: int|
                    e.outbox.len() <= m < out.len() && (
                    #[trigger] out[m]) is RemoveCancelledWorktree ==> k < m
        }),
{
    let rows = e.iterations.rows;
    let cond = live_agent(issue_id);
    let kills = disconnects(rows, issue_id);
    let out = cancel_post(e, issue_id, now).0.outbox;
    let kill = EffectView::Disconnect(rows[i].conversation_id->Some_0);
    rows.lemma_filter_contains(cond, i);
    let j = rows.filter(cond).index_of(rows[i]);
    assert(kills[j] == kill);
    let k = e.outbox.len() + 1 + j;
    let base = e.outbox.push(EffectView::StopDriver(issue_id)) + kills;
    assert(base[k] == kill);
    assert(out[k] == kill);
    assert forall|m: int|
        e.outbox.len() <= m < out.len() && (#[trigger] out[m]) is RemoveCancelledWorktree implies k
        < m by {
        if m < base.len() {
            assert(out[m] == base[m]);
            if m > e.outbox.len() {
                assert(base[m] == kills[m - e.outbox.len() - 1]);
            }
        }
    }
}

/// After an approval no design of the issue awaits approval, and approving again is a
/// conflict that changes nothing.
pub proof fn lemma_approve_clears_gate(
    e: EngineView,
    issue_id: i32,
    now: Timestamp,
    later: Timestamp,
)
    requires
        approve_design_post(e, issue_id, now).1 is Ok,
    ensures
        ({
            let a = approve_design_post(e, issue_id, now).0;
            &&& !any_match(a.artifacts.rows, awaiting_design(issue_id))
            &&& forall|i: int|
                0 <= i < e.artifacts.rows.len() && awaiting_design(issue_id)(e.artifacts.rows[i])
                    ==> (#[trigger] a.artifacts.rows[i]).status == ArtifactStatus::Done
            &&& approve_design_post(a, issue_id, later) == (
                a,
                Err::<(), LoopErrorView>(LoopErrorView::Conflict),
            )
        }),
{
    let a = approve_design_post(e, issue_id, now).0;
    if any_match(a.artifacts.rows, awaiting_design(issue_id)) {
        let k = choose|k: int|
            0 <= k < a.artifacts.rows.len() && awaiting_design(issue_id)(
                #[trigger] a.artifacts.rows[k],
            );
        assert(awaiting_design(issue_id)(e.artifacts.rows[k]) || a.artifacts.rows[k]
            == e.artifacts.rows[k]);
    }
}

/// After a rejection no design of the issue awaits approval, each that did is
/// superseded, and rejecting or approving again is a conflict that changes nothing.
pub proof fn lemma_reject_clears_gate(
    e: EngineView,
    issue_id: i32,
    comment: Seq<char>,
    now: Timestamp,
    again: Seq<char>,
    later: Timestamp,
)
    requires
        reject_design_post(e, issue_id, comment, now).1 is Ok,
    ensures
        ({
            let a = reject_design_post(e, issue_id, comment, now).0;
            &&& !any_match(a.artifacts.rows, awaiting_design(issue_id))
            &&& forall|i: int|
                0 <= i < e.artifacts.rows.len() && awaiting_design(issue_id)(e.artifacts.rows[i])
                    ==> (#[trigger] a.artifacts.rows[i]).status == ArtifactStatus::Superseded
            &&& reject_design_post(a, issue_id, again, later) == (
                a,
                Err::<(), LoopErrorView>(LoopErrorView::Conflict),
            )
            &&& approve_design_post(a, issue_id, later) == (
                a,
                Err::<(), LoopErrorView>(LoopErrorView::Conflict),
            )
        }),
{
    let a = reject_design_post(e, issue_id, comment, now).0;
    if any_match(a.artifacts.rows, awaiting_design(issue_id)) {
        let k = choose|k: int|
            0 <= k < a.artifacts.rows.len() && awaiting_design(issue_id)(
                #[trigger] a.artifacts.rows[k],
            );
        assert(awaiting_design(issue_id)(e.artifacts.rows[k]) || a.artifacts.rows[k]
            == e.artifacts.rows[k]);
    }
}

/// A retry that goes through: the issue runs; an oscillating task and its oscillation
/// card are as they were; every other blocked task of the issue starts afresh; and
/// retrying again is a conflict that changes no row.
pub proof fn lemma_retry(
    e: EngineView,
    issue_id: i32,
    limit: u32,
    now: Timestamp,
    again: Result<u32, LoopErrorView>,
    later: Timestamp,
)
    requires
        e.wf(),
        retry_post(e, issue_id, Ok(limit), now).1 is Ok,
    ensures
        ({
            let a = retry_post(e, issue_id, Ok(limit), now).0;
            &&& a.issue(issue_id) is Some
            &&& a.issue(issue_id)->Some_0.status == IssueStatus::Running
            &&& forall|i: int|
                0 <= i < e.artifacts.rows.len() && oscillating(e.artifacts.rows[i], limit as i32)
                    ==> #[trigger] a.artifacts.rows[i] == e.artifacts.rows[i]
            &&& forall|i: int|
                0 <= i < e.artifacts.rows.len() && blocked_task(issue_id)(e.artifacts.rows[i])
                    && !oscillating(e.artifacts.rows[i], limit as i32) ==> (
                #[trigger] a.artifacts.rows[i]).status == ArtifactStatus::Pending
                    && a.artifacts.rows[i].attempt == 0 && a.artifacts.rows[i].last_failure_sig
                    is None && a.artifacts.rows[i].oscillation_count
                    == e.artifacts.rows[i].oscillation_count
            &&& forall|task_id: i32, i: int|
                0 <= i < e.inbox.rows.len() && #[trigger] oscillation_card(issue_id, task_id)(
                    e.inbox.rows[i],
                ) ==> a.inbox.rows[i] == e.inbox.rows[i]
            &&& !any_match(a.inbox.rows, ordinary_block(issue_id))
            &&& retry_post(a, issue_id, again, later) == (
                a.say(
                    issue_changed(
                        a.issue(issue_id)->Some_0.space_id,
                        issue_id,
                        "retry_unavailable"@,
                    ),
                ),
                Err::<(), LoopErrorView>(LoopErrorView::Conflict),
            )
        }),
{
    let i = position::<loop_issue::Model>(e.issues.rows, issue_id)->Some_0;
    let a = retry_post(e, issue_id, Ok(limit), now).0;
    lemma_lookup::<loop_issue::Model>(e.issues.rows, issue_id);
    lemma_issue_set(e, issue_id, i, a.issues.rows[i]);
    assert(a.issues == e.set_issue(i, a.issues.rows[i]).issues);
    assert forall|task_id: i32, i: int|
        0 <= i < e.inbox.rows.len() && #[trigger] oscillation_card(issue_id, task_id)(
            e.inbox.rows[i],
        ) implies a.inbox.rows[i] == e.inbox.rows[i] by {
        lemma_retry_spares_oscillation(issue_id, task_id, e.inbox.rows[i]);
    }
    if any_match(a.inbox.rows, ordinary_block(issue_id)) {
        let k = choose|k: int|
            0 <= k < a.inbox.rows.len() && ordinary_block(issue_id)(#[trigger] a.inbox.rows[k]);
        assert(ordinary_block(issue_id)(e.inbox.rows[k]) || a.inbox.rows[k] == e.inbox.rows[k]);
    }
}

/// Where every blocked task oscillates, a retry is refused and changes no row.
pub proof fn lemma_retry_all_oscillating_conflicts(
    e: EngineView,
    issue_id: i32,
    issue: loop_issue::ModelView,
    limit: u32,
    now: Timestamp,
)
    requires
        e.issue(issue_id) == Some(issue),
        issue.status == IssueStatus::Blocked,
        any_match(e.artifacts.rows, blocked_task(issue_id)),
        forall|i: int|
            0 <= i < e.artifacts.rows.len() && blocked_task(issue_id)(#[trigger] e.artifacts.rows[i])
                ==> oscillating(e.artifacts.rows[i], limit as i32),
    ensures
        retry_post(e, issue_id, Ok(limit), now) == (
            e.say(issue_changed(issue.space_id, issue_id, "retry_unavailable"@)),
            Err::<(), LoopErrorView>(LoopErrorView::Conflict),
        ),
{
}

/// The cards that an exit clears are exactly those that block the task.
pub proof fn lemma_exit_clears_blockers(issue_id: i32, task_id: i32, c: loop_inbox_item::ModelView)
    ensures
        task_blocker(issue_id, task_id, blocker_subjects())(c) == blocks_task(issue_id, task_id)(c),
{
    let subjects = blocker_subjects();
    assert(subjects[0]@ == "no_progress"@);
    assert(subjects[1]@ == "validation_blocked"@);
    assert(subjects[2]@ == "infra_failure"@);
    assert(subjects[3]@ == "oscillation"@);
    if task_blocker(issue_id, task_id, subjects)(c) {
        let i = choose|i: int|
            0 <= i < subjects.len() && c.subject_key == key_for((#[trigger] subjects[i])@, task_id);
        assert(is_blocker_prefix(subjects[i]@));
        assert(c.subject_key == key_for(subjects[i]@, task_id));
    }
    if blocks_task(issue_id, task_id)(c) {
        let p = choose|p: Seq<char>|
            is_blocker_prefix(p) && c.subject_key == #[trigger] key_for(p, task_id);
        assert(p == subjects[0]@ || p == subjects[1]@ || p == subjects[2]@ || p == subjects[3]@);
    }
}

proof fn lemma_no_blocker_left(
    t: TableView<loop_inbox_item::ModelView>,
    issue_id: i32,
    task_id: i32,
    resolution: JsonView,
    now: Timestamp,
)
    ensures
        !any_match(
            swept(
                t,
                task_blocker(issue_id, task_id, blocker_subjects()),
                resolution,
                now,
            ).rows,
            blocks_task(issue_id, task_id),
        ),
{
    let cond = task_blocker(issue_id, task_id, blocker_subjects());
    let rows = swept(t, cond, resolution, now).rows;
    assert forall|k: int| 0 <= k < rows.len() implies !blocks_task(issue_id, task_id)(
        #[trigger] rows[k],
    ) by {
        lemma_exit_clears_blockers(issue_id, task_id, t.rows[k]);
    }
}

/// A force-complete goes through only for a blocked task whose current blocker is an
/// empty diff, in an issue that runs or is blocked. Then the task is done as a no-op
/// without a commit and without an oscillation epoch, the issue runs, and no card
/// blocks the task.
pub proof fn lemma_force_complete(e: EngineView, job: ForceJob, now: Timestamp)
    requires
        e.wf(),
        force_commit(e, job, now).1 is Ok,
    ensures
        empty_diff_block(e, job.issue_id, job.task_id),
        ({
            let before = lookup::<loop_artifact::Model>(e.artifacts.rows, job.task_id);
            before is Some && before->Some_0.status == ArtifactStatus::Blocked
        }),
        ({
            let a = force_commit(e, job, now).0;
            let task = lookup::<loop_artifact::Model>(a.artifacts.rows, job.task_id);
            &&& task is Some
            &&& task->Some_0.status == ArtifactStatus::Done
            &&& task->Some_0.contribution_kind == ContributionKind::NoOp
            &&& task->Some_0.fan_in_commit is None
            &&& task->Some_0.oscillation_count == 0
            &&& task->Some_0.recent_failure_sig is None
            &&& a.issue(job.issue_id) is Some
            &&& a.issue(job.issue_id)->Some_0.status == IssueStatus::Running
            &&& !any_match(a.inbox.rows, blocks_task(job.issue_id, job.task_id))
        }),
{
    let a = force_commit(e, job, now).0;
    let i = position::<loop_issue::Model>(e.issues.rows, job.issue_id)->Some_0;
    lemma_lookup::<loop_issue::Model>(e.issues.rows, job.issue_id);
    lemma_issue_set(e, job.issue_id, i, a.issues.rows[i]);
    assert(a.issues == e.set_issue(i, a.issues.rows[i]).issues);
    lemma_lookup::<loop_artifact::Model>(e.artifacts.rows, job.task_id);
    let t = position::<loop_artifact::Model>(e.artifacts.rows, job.task_id)->Some_0;
    let done = force_done_cas(e.artifacts, job.task_id, now).0;
    lemma_update_wf::<loop_artifact::Model>(e.artifacts, t, done.rows[t]);
    lemma_lookup_at::<loop_artifact::Model>(done.rows, t);
    lemma_update_wf::<loop_artifact::Model>(done, t, a.artifacts.rows[t]);
    lemma_lookup_at::<loop_artifact::Model>(a.artifacts.rows, t);
    lemma_no_blocker_left(
        e.inbox,
        job.issue_id,
        job.task_id,
        object2(
            "action"@,
            JsonView::Str("force_complete"@),
            "actor"@,
            JsonView::Str("human"@),
        ),
        now,
    );
}

/// A force-complete that is refused changes no row.
pub proof fn lemma_force_complete_refused(e: EngineView, job: ForceJob, now: Timestamp)
    requires
        force_commit(e, job, now).1 is Err,
    ensures
        ({
            let a = force_commit(e, job, now).0;
            a == (EngineView { outbox: a.outbox, ..e })
        }),
{
}

/// An override goes through only for a blocked task with a pending oscillation card.
/// Then the task starts afresh without an oscillation epoch, the issue runs, no card
/// blocks the task, and overriding again is refused.
pub proof fn lemma_override(e: EngineView, task_id: i32, now: Timestamp, later: Timestamp)
    requires
        e.wf(),
        override_post(e, task_id, now).1 is Ok,
    ensures
        task_of(e, task_id) is Some,
        ({
            let before = task_of(e, task_id)->Some_0;
            &&& before.status == ArtifactStatus::Blocked
            &&& any_match(e.inbox.rows, oscillation_card(before.issue_id, task_id))
            &&& {
                let a = override_post(e, task_id, now).0;
                let task = task_of(a, task_id);
                &&& task is Some
                &&& task->Some_0.status == ArtifactStatus::Pending
                &&& task->Some_0.attempt == 0
                &&& task->Some_0.oscillation_count == 0
                &&& task->Some_0.recent_failure_sig is None
                &&& a.issue(before.issue_id) is Some
                &&& a.issue(before.issue_id)->Some_0.status == IssueStatus::Running
                &&& !any_match(a.inbox.rows, blocks_task(before.issue_id, task_id))
                &&& override_post(a, task_id, later).1 == Err::<(), LoopErrorView>(
                    LoopErrorView::Conflict,
                )
            }
        }),
{
    lemma_lookup::<loop_artifact::Model>(e.artifacts.rows, task_id);
    let before = task_of(e, task_id)->Some_0;
    let a = override_post(e, task_id, now).0;
    lemma_lookup::<loop_issue::Model>(e.issues.rows, before.issue_id);
    let i = position::<loop_issue::Model>(e.issues.rows, before.issue_id)->Some_0;
    lemma_issue_set(e, before.issue_id, i, a.issues.rows[i]);
    assert(a.issues == e.set_issue(i, a.issues.rows[i]).issues);
    let t = position::<loop_artifact::Model>(e.artifacts.rows, task_id)->Some_0;
    lemma_update_wf::<loop_artifact::Model>(e.artifacts, t, a.artifacts.rows[t]);
    lemma_lookup_at::<loop_artifact::Model>(a.artifacts.rows, t);
    lemma_no_blocker_left(
        e.inbox,
        before.issue_id,
        task_id,
        object2(
            "action"@,
            JsonView::Str("override_oscillation"@),
            "actor"@,
            JsonView::Str("human"@),
        ),
        now,
    );
}

/// Adding budget to a paused issue succeeds: the budget never shrinks, the issue runs
/// without a pause reason, and no budget card of it is pending.
pub proof fn lemma_add_budget(
    e: EngineView,
    issue_id: i32,
    issue: loop_issue::ModelView,
    additional: i64,
    now: Timestamp,
)
    requires
        e.wf(),
        e.issue(issue_id) == Some(issue),
        issue.status == IssueStatus::Paused,
    ensures
        ({
            let (a, r) = add_budget_post(e, issue_id, additional, now);
            &&& r is Ok
            &&& a.issue(issue_id) == Some(
                loop_issue::ModelView {
                    status: IssueStatus::Running,
                    pause_reason: None,
                    token_budget: Some(topped_up(issue.token_budget, additional)),
                    updated_at: now,
                    ..issue
                },
            )
            &&& issue.token_budget is Some ==> topped_up(issue.token_budget, additional)
                >= issue.token_budget->Some_0
            &&& !any_match(
                a.inbox.rows,
                pending_of_kind(issue_id, InboxKind::BudgetExhausted),
            )
            &&& a.outbox == e.outbox.push(
                issue_changed(issue.space_id, issue_id, "budget_added"@),
            ).push(EffectView::StartDriver(issue_id))
        }),
{
    lemma_lookup::<loop_issue::Model>(e.issues.rows, issue_id);
    let i = position::<loop_issue::Model>(e.issues.rows, issue_id)->Some_0;
    let (a, r) = add_budget_post(e, issue_id, additional, now);
    let funded = loop_issue::ModelView {
        token_budget: Some(topped_up(issue.token_budget, additional)),
        updated_at: now,
        ..issue
    };
    lemma_issue_set(e, issue_id, i, funded);
    let mid = e.set_issue(i, funded);
    lemma_issue_set(mid, issue_id, i, a.issues.rows[i]);
    assert(a.issues.rows =~= mid.set_issue(i, a.issues.rows[i]).issues.rows);
    let cond = pending_of_kind(issue_id, InboxKind::BudgetExhausted);
    assert forall|k: int| 0 <= k < a.inbox.rows.len() implies !cond(
        #[trigger] a.inbox.rows[k],
    ) by {
        assert(cond(e.inbox.rows[k]) || a.inbox.rows[k] == e.inbox.rows[k]);
    }
}

/// An issue that is blocked without a blocked task is driven again by a retry.
pub proof fn lemma_retry_redrives_issue_level_block(
    e: EngineView,
    issue_id: i32,
    issue: loop_issue::ModelView,
    limit: u32,
    now: Timestamp,
)
    requires
        e.issue(issue_id) == Some(issue),
        issue.status == IssueStatus::Blocked,
        !any_match(e.artifacts.rows, blocked_task(issue_id)),
    ensures
        retry_post(e, issue_id, Ok(limit), now).1 is Ok,
        retry_post(e, issue_id, Ok(limit), now).0.artifacts.rows == e.artifacts.rows,
{
    let rows = e.artifacts.rows;
    let after = retry_post(e, issue_id, Ok(limit), now).0.artifacts.rows;
    assert forall|i: int| 0 <= i < rows.len() implies after[i] == rows[i] by {
        assert(!blocked_task(issue_id)(rows[i]));
    }
    assert(after =~= rows);
}

} // verus!
