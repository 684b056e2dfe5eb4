//! What triggering, pausing, resuming and cancelling an issue, and answering its design
//! gate, do to each row, and what they leave alone.

use crate::clock::Timestamp;
use crate::entities::loop_artifact::{self, ArtifactKind, ArtifactStatus};
use crate::entities::loop_artifact_revision::{self, ActorKind};
use crate::entities::loop_inbox_item::{self, InboxKind, InboxStatus};
use crate::entities::loop_issue::{self, IssueStatus, PauseReason};
use crate::entities::loop_iteration::{self, IterationOutcome, IterationStatus};
use crate::entities::{folder, loop_space};
use crate::error::LoopErrorView;
use crate::json::JsonView;
use crate::loop_engine::actions::{
    approve_design_post, awaiting_design, awaiting_ids, cancel_post, disconnects, live_agent,
    pause_post, reject_design_post, resume_post, trigger_step, with_notes, TriggerActionView,
    TriggerEvent,
};
use crate::loop_engine::terms::{
    announcement, answered, colon_key, lemma_announcement, lemma_filter_agrees, lemma_key,
    one_member, two_members,
};
use crate::loop_engine::{EffectView, EngineView};
use crate::loop_service::inbox::{approval_resolved, pending_card};
use crate::table::{
    any_match, first_match, lemma_first_match, lemma_lookup, lemma_lookup_at, position, TableView,
};
use crate::text::{int_digits, trimmed};
use vstd::prelude::*;

verus! {

/// Only a pending issue is triggered: its worktree is asked for first, and nothing
/// changes until it is there. Any other issue is a conflict, and a missing one is named.
pub proof fn law_trigger_request(e: EngineView, issue_id: i32, now: Timestamp)
    requires
        e.wf(),
    ensures
        ({
            let (a, r) = trigger_step(e, issue_id, TriggerEvent::Requested, now);
            &&& a == e
            &&& r is EnsureWorktree <==> exists|i: int|
                0 <= i < e.issues.rows.len() && (#[trigger] e.issues.rows[i]).id == issue_id
                    && e.issues.rows[i].status == IssueStatus::Pending
            &&& !(r is EnsureWorktree) ==> r == TriggerActionView::Return(
                Err(
                    if exists|i: int|
                        0 <= i < e.issues.rows.len() && (#[trigger] e.issues.rows[i]).id
                            == issue_id {
                        LoopErrorView::Conflict
                    } else {
                        LoopErrorView::NotFound("issue "@ + int_digits(issue_id as int))
                    },
                ),
            )
        }),
{
    lemma_lookup::<loop_issue::Model>(e.issues.rows, issue_id);
    if let Some(k) = position::<loop_issue::Model>(e.issues.rows, issue_id) {
        assert(e.issues.rows[k].id == issue_id);
        assert forall|i: int|
            0 <= i < e.issues.rows.len() && (#[trigger] e.issues.rows[i]).id
                == issue_id implies i == k by {
            lemma_lookup_at::<loop_issue::Model>(e.issues.rows, i);
        }
    }
}

/// Once the worktree is there, a pending issue runs and a driver is started for it; the
/// rest of the issue, every other issue and every other table stay. An issue that is not
/// pending any more is left alone.
pub proof fn law_trigger_starts(e: EngineView, i: int, now: Timestamp)
    requires
        e.wf(),
        0 <= i < e.issues.rows.len(),
    ensures
        ({
            let row = e.issues.rows[i];
            let (a, r) = trigger_step(e, row.id, TriggerEvent::WorktreeEnsured(Ok(())), now);
            if row.status == IssueStatus::Pending {
                &&& r == TriggerActionView::Return(Ok(()))
                &&& a == (EngineView {
                    issues: TableView {
                        rows: e.issues.rows.update(
                            i,
                            loop_issue::ModelView {
                                status: IssueStatus::Running,
                                updated_at: now,
                                ..row
                            },
                        ),
                        next_id: e.issues.next_id,
                    },
                    outbox: e.outbox.push(EffectView::StartDriver(row.id)),
                    ..e
                })
            } else {
                &&& r == TriggerActionView::Return(Err(LoopErrorView::Conflict))
                &&& a == e
            }
        }),
{
    lemma_lookup_at::<loop_issue::Model>(e.issues.rows, i);
}

/// Pausing: exactly a running issue is paused, by hand, and its driver stopped; nothing
/// else changes.
pub proof fn law_pause(e: EngineView, i: int, now: Timestamp)
    requires
        e.wf(),
        0 <= i < e.issues.rows.len(),
    ensures
        ({
            let row = e.issues.rows[i];
            let (a, r) = pause_post(e, row.id, now);
            if row.status == IssueStatus::Running {
                &&& r is Ok
                &&& a == (EngineView {
                    issues: TableView {
                        rows: e.issues.rows.update(
                            i,
                            loop_issue::ModelView {
                                status: IssueStatus::Paused,
                                pause_reason: Some(PauseReason::Manual),
                                updated_at: now,
                                ..row
                            },
                        ),
                        next_id: e.issues.next_id,
                    },
                    outbox: e.outbox.push(EffectView::StopDriver(row.id)),
                    ..e
                })
            } else {
                r == Err::<(), LoopErrorView>(LoopErrorView::Conflict) && a == e
            }
        }),
{
    lemma_lookup_at::<loop_issue::Model>(e.issues.rows, i);
}

/// Resuming: exactly a paused issue runs again, without a pause reason, under a fresh
/// driver; nothing else changes.
pub proof fn law_resume(e: EngineView, i: int, now: Timestamp)
    requires
        e.wf(),
        0 <= i < e.issues.rows.len(),
    ensures
        ({
            let row = e.issues.rows[i];
            let (a, r) = resume_post(e, row.id, now);
            if row.status == IssueStatus::Paused {
                &&& r is Ok
                &&& a == (EngineView {
                    issues: TableView {
                        rows: e.issues.rows.update(
                            i,
                            loop_issue::ModelView {
                                status: IssueStatus::Running,
                                pause_reason: None,
                                updated_at: now,
                                ..row
                            },
                        ),
                        next_id: e.issues.next_id,
                    },
                    outbox: e.outbox.push(EffectView::StartDriver(row.id)),
                    ..e
                })
            } else {
                r == Err::<(), LoopErrorView>(LoopErrorView::Conflict) && a == e
            }
        }),
{
    lemma_lookup_at::<loop_issue::Model>(e.issues.rows, i);
}

/// An issue that is not there cannot be steered: each action leaves everything as it is
/// and says so.
pub proof fn law_missing_issue(
    e: EngineView,
    issue_id: i32,
    comment: Seq<char>,
    now: Timestamp,
)
    requires
        forall|i: int| 0 <= i < e.issues.rows.len() ==> (#[trigger] e.issues.rows[i]).id != issue_id,
    ensures
        trigger_step(e, issue_id, TriggerEvent::WorktreeEnsured(Ok(())), now) == (
            e,
            TriggerActionView::Return(Err(LoopErrorView::Conflict)),
        ),
        pause_post(e, issue_id, now) == (
            e,
            Err::<(), LoopErrorView>(LoopErrorView::Conflict),
        ),
        resume_post(e, issue_id, now) == (
            e,
            Err::<(), LoopErrorView>(LoopErrorView::Conflict),
        ),
        cancel_post(e, issue_id, now) == (
            e,
            Err::<(), LoopErrorView>(LoopErrorView::Conflict),
        ),
        approve_design_post(e, issue_id, now) == (
            e,
            Err::<(), LoopErrorView>(
                LoopErrorView::NotFound("issue "@ + int_digits(issue_id as int)),
            ),
        ),
        reject_design_post(e, issue_id, comment, now) == (
            e,
            Err::<(), LoopErrorView>(
                LoopErrorView::NotFound("issue "@ + int_digits(issue_id as int)),
            ),
        ),
{
    lemma_lookup::<loop_issue::Model>(e.issues.rows, issue_id);
}

// ---------------------------------------------------------------------------
// Cancel
// ---------------------------------------------------------------------------

/// Cancelling closes exactly the named issue, and only while it is neither done nor
/// cancelled. Of the iterations exactly those of this issue that are queued or running
/// are cancelled, with the outcome they had or, without one, as abandoned. No other
/// issue, iteration or table changes.
pub proof fn law_cancel_rows(e: EngineView, i: int, now: Timestamp)
    requires
        e.wf(),
        0 <= i < e.issues.rows.len(),
    ensures
        ({
            let row = e.issues.rows[i];
            let (a, r) = cancel_post(e, row.id, now);
            if row.status == IssueStatus::Done || row.status == IssueStatus::Cancelled {
                r == Err::<(), LoopErrorView>(LoopErrorView::Conflict) && a == e
            } else {
                &&& r is Ok
                &&& a.issues.next_id == e.issues.next_id
                &&& a.issues.rows == e.issues.rows.update(
                    i,
                    loop_issue::ModelView {
                        status: IssueStatus::Cancelled,
                        ended_at: Some(now),
                        updated_at: now,
                        ..row
                    },
                )
                &&& a.iterations.next_id == e.iterations.next_id
                &&& a.iterations.rows.len() == e.iterations.rows.len()
                &&& forall|k: int|
                    0 <= k < e.iterations.rows.len() ==> {
                        let it = e.iterations.rows[k];
                        #[trigger] a.iterations.rows[k] == (if it.issue_id == row.id && (it.status
                            == IterationStatus::Queued || it.status == IterationStatus::Running) {
                            loop_iteration::ModelView {
                                status: IterationStatus::Cancelled,
                                ended_at: Some(now),
                                outcome: Some(
                                    if it.outcome is Some {
                                        it.outcome->Some_0
                                    } else {
                                        IterationOutcome::Abandoned
                                    },
                                ),
                                ..it
                            }
                        } else {
                            it
                        })
                    }
                &&& a.artifacts == e.artifacts
                &&& a.revisions == e.revisions
                &&& a.links == e.links
                &&& a.inbox == e.inbox
                &&& a.spaces == e.spaces
                &&& a.folders == e.folders
            }
        }),
{
    lemma_lookup_at::<loop_issue::Model>(e.issues.rows, i);
}

/// What cancelling asks for, in order: the driver of the issue is stopped; the agent of
/// each queued or running iteration of this issue, and of no other, is shut down once;
/// and last, where the folders of the issue's worktree and of its space are known and
/// were not removed, that worktree is removed.
pub proof fn law_cancel_effects(e: EngineView, i: int, now: Timestamp)
    requires
        e.wf(),
        0 <= i < e.issues.rows.len(),
        e.issues.rows[i].status != IssueStatus::Done,
        e.issues.rows[i].status != IssueStatus::Cancelled,
    ensures
        ({
            let row = e.issues.rows[i];
            let a = cancel_post(e, row.id, now).0;
            let kills = e.iterations.rows.filter(
                |it: loop_iteration::ModelView|
                    it.issue_id == row.id && (it.status == IterationStatus::Queued || it.status
                        == IterationStatus::Running) && it.conversation_id is Some,
            ).map_values(
                |it: loop_iteration::ModelView|
                    EffectView::Disconnect(it.conversation_id->Some_0),
            );
            let before = e.outbox.push(EffectView::StopDriver(row.id)) + kills;
            &&& a.outbox == before || a.outbox.len() == before.len() + 1 && a.outbox.drop_last()
                == before
            &&& forall|w: int, s: int, f: int|
                #![trigger e.folders.rows[w], e.spaces.rows[s], e.folders.rows[f]]
                0 <= w < e.folders.rows.len() && 0 <= s < e.spaces.rows.len() && 0 <= f
                    < e.folders.rows.len() && row.worktree_folder_id == Some(e.folders.rows[w].id)
                    && e.folders.rows[w].deleted_at is None && e.spaces.rows[s].id == row.space_id
                    && e.folders.rows[f].id == e.spaces.rows[s].folder_id
                    && e.folders.rows[f].deleted_at is None ==> a.outbox == before.push(
                    EffectView::RemoveCancelledWorktree {
                        repo_path: e.folders.rows[f].path,
                        worktree_path: e.folders.rows[w].path,
                    },
                )
            &&& a.outbox != before ==> exists|w: int, s: int, f: int|
                #![trigger e.folders.rows[w], e.spaces.rows[s], e.folders.rows[f]]
                0 <= w < e.folders.rows.len() && 0 <= s < e.spaces.rows.len() && 0 <= f
                    < e.folders.rows.len() && row.worktree_folder_id == Some(e.folders.rows[w].id)
                    && e.folders.rows[w].deleted_at is None && e.spaces.rows[s].id == row.space_id
                    && e.folders.rows[f].id == e.spaces.rows[s].folder_id
                    && e.folders.rows[f].deleted_at is None
        }),
{
    let row = e.issues.rows[i];
    let a = cancel_post(e, row.id, now).0;
    let cond = |it: loop_iteration::ModelView|
        it.issue_id == row.id && (it.status == IterationStatus::Queued || it.status
            == IterationStatus::Running) && it.conversation_id is Some;
    let to = |it: loop_iteration::ModelView| EffectView::Disconnect(it.conversation_id->Some_0);
    lemma_lookup_at::<loop_issue::Model>(e.issues.rows, i);
    lemma_filter_agrees(e.iterations.rows, live_agent(row.id), cond);
    let kills = e.iterations.rows.filter(cond).map_values(to);
    assert(disconnects(e.iterations.rows, row.id) =~= kills);
    let before = e.outbox.push(EffectView::StopDriver(row.id)) + kills;
    let closed = a.issues.rows;
    assert(closed == e.issues.rows.update(i, closed[i]));
    crate::table::lemma_update_wf::<loop_issue::Model>(e.issues, i, closed[i]);
    lemma_lookup_at::<loop_issue::Model>(closed, i);
    assert(a.outbox == before || a.outbox.drop_last() =~= before);
    lemma_lookup::<loop_space::Model>(e.spaces.rows, row.space_id);
    if let Some(id) = row.worktree_folder_id {
        lemma_lookup::<folder::Model>(e.folders.rows, id);
    }
    if let Some(s) = position::<loop_space::Model>(e.spaces.rows, row.space_id) {
        lemma_lookup::<folder::Model>(e.folders.rows, e.spaces.rows[s].folder_id);
    }
    assert forall|w: int, s: int, f: int|
        #![trigger e.folders.rows[w], e.spaces.rows[s], e.folders.rows[f]]
        0 <= w < e.folders.rows.len() && 0 <= s < e.spaces.rows.len() && 0 <= f
            < e.folders.rows.len() && row.worktree_folder_id == Some(e.folders.rows[w].id)
            && e.folders.rows[w].deleted_at is None && e.spaces.rows[s].id == row.space_id
            && e.folders.rows[f].id == e.spaces.rows[s].folder_id
            && e.folders.rows[f].deleted_at is None implies a.outbox == before.push(
        EffectView::RemoveCancelledWorktree {
            repo_path: e.folders.rows[f].path,
            worktree_path: e.folders.rows[w].path,
        },
    ) by {
        lemma_lookup_at::<folder::Model>(e.folders.rows, w);
        lemma_lookup_at::<loop_space::Model>(e.spaces.rows, s);
        lemma_lookup_at::<folder::Model>(e.folders.rows, f);
    }
    if a.outbox != before {
        let w = position::<folder::Model>(e.folders.rows, row.worktree_folder_id->Some_0)->Some_0;
        let s = position::<loop_space::Model>(e.spaces.rows, row.space_id)->Some_0;
        let f = position::<folder::Model>(e.folders.rows, e.spaces.rows[s].folder_id)->Some_0;
        assert(e.folders.rows[w].deleted_at is None && e.folders.rows[f].deleted_at is None);
    }
}

// ---------------------------------------------------------------------------
// Design gate
// ---------------------------------------------------------------------------

/// The artifact is a design of the issue, and awaits approval.
pub open spec fn awaits(a: loop_artifact::ModelView, issue_id: i32) -> bool {
    &&& a.issue_id == issue_id
    &&& a.kind == ArtifactKind::Design
    &&& a.status == ArtifactStatus::AwaitingApproval
}

/// Approving the design gate goes through exactly when a design of the issue awaits
/// approval. Then each of those is done, no other artifact changes, the pending
/// `design:` approval of the issue is answered, the change is announced and the driver
/// of the issue woken. Otherwise it is a conflict, and nothing changes.
pub proof fn law_approve_design(e: EngineView, i: int, now: Timestamp)
    requires
        e.wf(),
        0 <= i < e.issues.rows.len(),
    ensures
        ({
            let row = e.issues.rows[i];
            let (a, r) = approve_design_post(e, row.id, now);
            if exists|k: int|
                0 <= k < e.artifacts.rows.len() && awaits(#[trigger] e.artifacts.rows[k], row.id) {
                &&& r is Ok
                &&& a.artifacts.next_id == e.artifacts.next_id
                &&& a.artifacts.rows.len() == e.artifacts.rows.len()
                &&& forall|k: int|
                    0 <= k < e.artifacts.rows.len() ==> #[trigger] a.artifacts.rows[k] == (
                    if awaits(e.artifacts.rows[k], row.id) {
                        loop_artifact::ModelView {
                            status: ArtifactStatus::Done,
                            updated_at: now,
                            ..e.artifacts.rows[k]
                        }
                    } else {
                        e.artifacts.rows[k]
                    })
                &&& a == (EngineView {
                    artifacts: a.artifacts,
                    inbox: approval_resolved(
                        e.inbox,
                        row.id,
                        colon_key("design"@, row.id),
                        one_member("action"@, JsonView::Str("approve"@)),
                        now,
                    ),
                    outbox: e.outbox.push(
                        announcement(row.space_id, row.id, "design_approved"@),
                    ).push(EffectView::WakeDriver(row.id)),
                    ..e
                })
            } else {
                r == Err::<(), LoopErrorView>(LoopErrorView::Conflict) && a == e
            }
        }),
{
    let row = e.issues.rows[i];
    lemma_lookup_at::<loop_issue::Model>(e.issues.rows, i);
    lemma_key("design"@, row.id);
    lemma_announcement(row.space_id, row.id, "design_approved"@);
    lemma_awaiting(e.artifacts.rows, row.id);
}

proof fn lemma_awaiting(rows: Seq<loop_artifact::ModelView>, issue_id: i32)
    ensures
        forall|a: loop_artifact::ModelView| #[trigger]
            awaiting_design(issue_id)(a) == awaits(a, issue_id),
        any_match(rows, awaiting_design(issue_id)) == exists|k: int|
            0 <= k < rows.len() && awaits(#[trigger] rows[k], issue_id),
{
    if exists|k: int| 0 <= k < rows.len() && awaits(#[trigger] rows[k], issue_id) {
        let k = choose|k: int| 0 <= k < rows.len() && awaits(#[trigger] rows[k], issue_id);
        assert(awaiting_design(issue_id)(rows[k]));
    }
    if any_match(rows, awaiting_design(issue_id)) {
        let k = choose|k: int|
            0 <= k < rows.len() && awaiting_design(issue_id)(#[trigger] rows[k]);
        assert(awaits(rows[k], issue_id));
    }
}

/// Rejecting the design gate goes through exactly when a design of the issue awaits
/// approval. Then each of those is superseded and no other artifact changes; the pending
/// `design:` approval of the issue is answered with the comment as it was given; the
/// change is announced and the driver of the issue woken. Otherwise it is a conflict,
/// and nothing changes.
pub proof fn law_reject_design(e: EngineView, i: int, comment: Seq<char>, now: Timestamp)
    requires
        e.wf(),
        0 <= i < e.issues.rows.len(),
    ensures
        ({
            let row = e.issues.rows[i];
            let (a, r) = reject_design_post(e, row.id, comment, now);
            if exists|k: int|
                0 <= k < e.artifacts.rows.len() && awaits(#[trigger] e.artifacts.rows[k], row.id) {
                &&& r is Ok
                &&& a.artifacts.next_id == e.artifacts.next_id
                &&& a.artifacts.rows.len() == e.artifacts.rows.len()
                &&& forall|k: int|
                    0 <= k < e.artifacts.rows.len() ==> #[trigger] a.artifacts.rows[k] == (
                    if awaits(e.artifacts.rows[k], row.id) {
                        loop_artifact::ModelView {
                            status: ArtifactStatus::Superseded,
                            updated_at: now,
                            ..e.artifacts.rows[k]
                        }
                    } else {
                        e.artifacts.rows[k]
                    })
                &&& a == (EngineView {
                    artifacts: a.artifacts,
                    revisions: a.revisions,
                    inbox: approval_resolved(
                        e.inbox,
                        row.id,
                        colon_key("design"@, row.id),
                        two_members(
                            "action"@,
                            JsonView::Str("reject"@),
                            "comment"@,
                            JsonView::Str(comment),
                        ),
                        now,
                    ),
                    outbox: e.outbox.push(
                        announcement(row.space_id, row.id, "design_rejected"@),
                    ).push(EffectView::WakeDriver(row.id)),
                    ..e
                })
            } else {
                r == Err::<(), LoopErrorView>(LoopErrorView::Conflict) && a == e
            }
        }),
{
    let row = e.issues.rows[i];
    lemma_lookup_at::<loop_issue::Model>(e.issues.rows, i);
    lemma_key("design"@, row.id);
    lemma_announcement(row.space_id, row.id, "design_rejected"@);
    lemma_awaiting(e.artifacts.rows, row.id);
}

/// What rejecting writes down: nothing for a comment that is white space only; otherwise
/// one revision by a person per rejected design, in their order, with the trimmed comment
/// behind the words `[design rejected] `. The revisions that were there stay.
pub proof fn law_reject_notes(e: EngineView, i: int, comment: Seq<char>, now: Timestamp)
    requires
        e.wf(),
        0 <= i < e.issues.rows.len(),
        reject_design_post(e, e.issues.rows[i].id, comment, now).1 is Ok,
        e.revisions.next_id + e.artifacts.rows.len() <= i32::MAX,
    ensures
        ({
            let row = e.issues.rows[i];
            let a = reject_design_post(e, row.id, comment, now).0;
            let rejected = e.artifacts.rows.filter(
                |x: loop_artifact::ModelView| awaits(x, row.id),
            );
            let n = e.revisions.rows.len() as int;
            if trimmed(comment).len() == 0 {
                a.revisions == e.revisions
            } else {
                &&& a.revisions.rows.len() == n + rejected.len()
                &&& a.revisions.next_id == e.revisions.next_id + rejected.len()
                &&& forall|k: int|
                    0 <= k < n ==> #[trigger] a.revisions.rows[k] == e.revisions.rows[k]
                &&& forall|k: int|
                    0 <= k < rejected.len() ==> #[trigger] a.revisions.rows[n + k] == (
                    loop_artifact_revision::ModelView {
                        id: (e.revisions.next_id + k) as i32,
                        artifact_id: rejected[k].id,
                        content: "[design rejected] "@ + trimmed(comment),
                        actor_kind: ActorKind::Human,
                        produced_by_iteration_id: None,
                        created_at: now,
                    })
            }
        }),
{
    let row = e.issues.rows[i];
    let raw = |x: loop_artifact::ModelView| awaits(x, row.id);
    lemma_lookup_at::<loop_issue::Model>(e.issues.rows, i);
    lemma_awaiting(e.artifacts.rows, row.id);
    lemma_filter_agrees(e.artifacts.rows, awaiting_design(row.id), raw);
    crate::table::lemma_count_bound(e.artifacts.rows, raw);
    let ids = awaiting_ids(e.artifacts.rows, row.id);
    let content = "[design rejected] "@ + trimmed(comment);
    lemma_notes_rows(e.revisions, ids, content, now);
}

proof fn lemma_notes_rows(
    t: TableView<loop_artifact_revision::ModelView>,
    ids: Seq<i32>,
    content: Seq<char>,
    now: Timestamp,
)
    requires
        t.next_id + ids.len() <= i32::MAX,
    ensures
        ({
            let u = with_notes(t, ids, content, now);
            let n = t.rows.len() as int;
            &&& u.rows.len() == n + ids.len()
            &&& u.next_id == t.next_id + ids.len()
            &&& forall|k: int| 0 <= k < n ==> #[trigger] u.rows[k] == t.rows[k]
            &&& forall|k: int|
                0 <= k < ids.len() ==> #[trigger] u.rows[n + k] == (
                loop_artifact_revision::ModelView {
                    id: (t.next_id + k) as i32,
                    artifact_id: ids[k],
                    content,
                    actor_kind: ActorKind::Human,
                    produced_by_iteration_id: None,
                    created_at: now,
                })
        }),
    decreases ids.len(),
{
    if ids.len() > 0 {
        lemma_notes_rows(t, ids.drop_last(), content, now);
        let n = t.rows.len() as int;
        let b = with_notes(t, ids.drop_last(), content, now);
        let u = with_notes(t, ids, content, now);
        assert forall|k: int| 0 <= k < ids.len() implies #[trigger] u.rows[n + k] == (
        loop_artifact_revision::ModelView {
            id: (t.next_id + k) as i32,
            artifact_id: ids[k],
            content,
            actor_kind: ActorKind::Human,
            produced_by_iteration_id: None,
            created_at: now,
        }) by {
            if k < ids.len() - 1 {
                assert(u.rows[n + k] == b.rows[n + k]);
            }
        }
    }
}

/// Answering an approval: of the pending approval cards of the issue with the subject
/// the first is handled with the answer; every other card stays as it is.
pub proof fn law_approval_answered(
    t: TableView<loop_inbox_item::ModelView>,
    issue_id: i32,
    subject: Seq<char>,
    answer: JsonView,
    now: Timestamp,
    k: int,
)
    requires
        0 <= k < t.rows.len(),
    ensures
        ({
            let u = approval_resolved(t, issue_id, subject, answer, now);
            let waits = |c: loop_inbox_item::ModelView|
                c.issue_id == issue_id && c.kind == InboxKind::Approval && c.subject_key == subject
                    && c.status == InboxStatus::Pending;
            &&& u.next_id == t.next_id
            &&& u.rows.len() == t.rows.len()
            &&& u.rows[k] == (if waits(t.rows[k]) && forall|j: int|
                0 <= j < k ==> !waits(#[trigger] t.rows[j]) {
                answered(t.rows[k], answer, now)
            } else {
                t.rows[k]
            })
        }),
{
    let cond = pending_card(issue_id, InboxKind::Approval, subject);
    let waits = |c: loop_inbox_item::ModelView|
        c.issue_id == issue_id && c.kind == InboxKind::Approval && c.subject_key == subject
            && c.status == InboxStatus::Pending;
    lemma_first_match(t.rows, cond);
    assert(forall|c: loop_inbox_item::ModelView| #[trigger] cond(c) == waits(c));
    if let Some(i) = first_match(t.rows, cond) {
        assert(cond(t.rows[i]));
        if waits(t.rows[k]) && k < i {
            assert(!cond(t.rows[k]));
        }
        if waits(t.rows[k]) && k > i {
            assert(waits(t.rows[i]));
        }
    } else {
        assert(!cond(t.rows[k]));
    }
}

} // verus!
