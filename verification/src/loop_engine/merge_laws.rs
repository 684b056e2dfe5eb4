//! What holds of the merge gate and of the reflection after it.

use crate::clock::Timestamp;
use crate::entities::loop_inbox_item::InboxKind;
use crate::entities::loop_issue::{self, IssueStatus};
use crate::entities::loop_iteration::Stage;
use crate::error::{LoopError, LoopErrorView};
use crate::json::{object2, JsonView};
use crate::loop_engine::merge::{
    fault_detail, fault_message, fault_reason, merge_faulted, merge_landed, merge_step,
    reflect_attempts, reflect_post, reflection_of, MergeActionView, MergeEvent, MergeJob,
    MergeJobView, MergeOutcome, MergeOutcomeView,
};
use crate::loop_engine::{issue_changed, EffectView, EngineView};
use crate::loop_service::inbox::{key_for, pending_card, upserted};
use crate::loop_service::inbox_laws::{
    lemma_approval_resolved, lemma_upsert_files, lemma_upsert_keeps_pending_unique, pending_unique,
};
use crate::table::{
    any_match, first_match, lemma_first_match, lemma_lookup, lemma_lookup_at, lemma_update_wf,
    position,
};
use vstd::prelude::*;

verus! {

/// Merging an issue that is done already succeeds, and does no more than announce it.
pub proof fn lemma_merge_is_idempotent(
    e: EngineView,
    issue_id: i32,
    repo_path: String,
    issue: loop_issue::ModelView,
    now: Timestamp,
)
    requires
        e.issue(issue_id) == Some(issue),
        issue.status == IssueStatus::Done,
    ensures
        merge_step(e, MergeEvent::Locked { issue_id, repo_path }, now) == (
            e.say(issue_changed(issue.space_id, issue_id, "merged"@)),
            MergeActionView::Return(Ok(())),
        ),
{
}

/// An issue that does not run, or has not passed integration, is not merged: that is
/// announced, and nothing else happens.
pub proof fn lemma_unverified_is_not_mergeable(
    e: EngineView,
    issue_id: i32,
    repo_path: String,
    passed: bool,
    issue: loop_issue::ModelView,
    now: Timestamp,
)
    requires
        e.issue(issue_id) == Some(issue),
        issue.status != IssueStatus::Running || !passed,
    ensures
        merge_step(
            e,
            MergeEvent::IntegrationChecked { issue_id, repo_path, passed: Ok(passed) },
            now,
        ) == (
            e.say(issue_changed(issue.space_id, issue_id, "merge_unavailable"@)),
            MergeActionView::Return(Err(LoopErrorView::NotMergeable)),
        ),
{
}

/// Git is asked to merge only for an issue that runs and has passed integration.
pub proof fn lemma_merge_runs_only_when_verified(e: EngineView, event: MergeEvent, now: Timestamp)
    requires
        merge_step(e, event, now).1 is RunMerge,
    ensures
        merge_step(e, event, now).0 == e,
        match event {
            MergeEvent::IntegrationChecked { issue_id, repo_path, passed } => passed == Ok::<
                bool,
                LoopError,
            >(true) && e.issue(issue_id) is Some && e.issue(issue_id)->Some_0.status
                == IssueStatus::Running,
            _ => false,
        },
{
}

/// Whether the integration passed is asked only once the merge lock is held, and the
/// lock is asked for only when the merge is requested.
pub proof fn lemma_gate_is_under_the_lock(e: EngineView, event: MergeEvent, now: Timestamp)
    ensures
        merge_step(e, event, now).1 is CheckIntegration ==> event is Locked,
        merge_step(e, event, now).1 is LockRepo ==> event is Requested,
{
}

/// A merge that was run succeeds exactly when it landed: a fault is never silent.
pub proof fn lemma_merge_fault_is_not_silent(
    e: EngineView,
    job: MergeJob,
    o: MergeOutcome,
    now: Timestamp,
)
    ensures
        ({
            let r = merge_step(e, MergeEvent::MergeRun { job, outcome: Ok(o) }, now).1;
            &&& (o is Merged) == (r == MergeActionView::Return(Ok(())))
            &&& !(o is Merged) ==> r == MergeActionView::Return(
                Err(LoopErrorView::MergeFailed(fault_message(o@))),
            )
        }),
{
}

/// A fault blocks a running issue, with a pending card that names the reason, and no
/// merge approval stays pending.
pub proof fn lemma_merge_fault_blocks(
    e: EngineView,
    job: MergeJobView,
    o: MergeOutcomeView,
    issue: loop_issue::ModelView,
    now: Timestamp,
)
    requires
        e.wf(),
        pending_unique(e.inbox.rows),
        e.issue(job.issue_id) == Some(issue),
        issue.status == IssueStatus::Running,
    ensures
        ({
            let a = merge_faulted(e, job, o, now);
            &&& a.issue(job.issue_id) is Some
            &&& a.issue(job.issue_id)->Some_0.status == IssueStatus::Blocked
            &&& any_match(
                a.inbox.rows,
                pending_card(
                    job.issue_id,
                    InboxKind::Blocked,
                    key_for("merge_blocked"@, job.issue_id),
                ),
            )
            &&& !any_match(
                a.inbox.rows,
                pending_card(job.issue_id, InboxKind::Approval, key_for("merge"@, job.issue_id)),
            )
        }),
{
    let a = merge_faulted(e, job, o, now);
    let i = position::<loop_issue::Model>(e.issues.rows, job.issue_id)->Some_0;
    lemma_lookup::<loop_issue::Model>(e.issues.rows, job.issue_id);
    lemma_update_wf::<loop_issue::Model>(e.issues, i, a.issues.rows[i]);
    lemma_lookup_at::<loop_issue::Model>(a.issues.rows, i);
    let key = key_for("merge_blocked"@, job.issue_id);
    let payload = object2(
        "reason"@,
        JsonView::Str(fault_reason(o)),
        "detail"@,
        JsonView::Str(fault_detail(o)),
    );
    lemma_upsert_files(
        e.inbox,
        job.space_id,
        job.issue_id,
        None,
        InboxKind::Blocked,
        key,
        payload,
        now,
    );
    lemma_upsert_keeps_pending_unique(
        e.inbox,
        job.space_id,
        job.issue_id,
        None,
        InboxKind::Blocked,
        key,
        payload,
        now,
    );
    let filed = upserted(
        e.inbox,
        job.space_id,
        job.issue_id,
        None,
        InboxKind::Blocked,
        key,
        payload,
        now,
    ).0;
    let cond = pending_card(job.issue_id, InboxKind::Blocked, key);
    lemma_first_match(filed.rows, cond);
    let k = first_match(filed.rows, cond)->Some_0;
    let approval = key_for("merge"@, job.issue_id);
    let resolution = object2(
        "action"@,
        JsonView::Str("merge_failed"@),
        "reason"@,
        JsonView::Str(fault_reason(o)),
    );
    lemma_approval_resolved(filed, job.issue_id, approval, resolution, now);
    lemma_first_match(filed.rows, pending_card(job.issue_id, InboxKind::Approval, approval));
    assert(cond(a.inbox.rows[k]));
}

/// A landing closes a running issue; the merge lock is released before the reflection
/// is tried, which comes last.
pub proof fn lemma_landing_closes(
    e: EngineView,
    job: MergeJobView,
    issue: loop_issue::ModelView,
    now: Timestamp,
)
    requires
        e.wf(),
        e.issue(job.issue_id) == Some(issue),
        issue.status == IssueStatus::Running,
    ensures
        ({
            let a = merge_landed(e, job, now);
            &&& a.issue(job.issue_id) == Some(
                loop_issue::ModelView {
                    status: IssueStatus::Done,
                    ended_at: Some(now),
                    updated_at: now,
                    ..issue
                },
            )
            &&& a.outbox[a.outbox.len() - 1] == EffectView::Reflect(job.issue_id)
            &&& a.outbox[a.outbox.len() - 2] == EffectView::ReleaseRepoLock
        }),
{
    let a = merge_landed(e, job, now);
    let i = position::<loop_issue::Model>(e.issues.rows, job.issue_id)->Some_0;
    lemma_lookup::<loop_issue::Model>(e.issues.rows, job.issue_id);
    lemma_update_wf::<loop_issue::Model>(e.issues, i, a.issues.rows[i]);
    lemma_lookup_at::<loop_issue::Model>(a.issues.rows, i);
}

/// Reflection touches no table but the inbox: it never disturbs a merge.
pub proof fn lemma_reflect_touches_inbox_only(
    e: EngineView,
    issue: loop_issue::ModelView,
    max_attempts: Option<u32>,
    now: Timestamp,
)
    ensures
        ({
            let a = reflect_post(e, issue, max_attempts, now).0;
            a == (EngineView { inbox: a.inbox, outbox: a.outbox, ..e })
        }),
{
}

/// Where a reflection exists, nothing is done.
pub proof fn lemma_reflect_once(
    e: EngineView,
    issue: loop_issue::ModelView,
    max_attempts: Option<u32>,
    now: Timestamp,
)
    requires
        any_match(e.artifacts.rows, reflection_of(issue.id)),
    ensures
        reflect_post(e, issue, max_attempts, now) == (
            e,
            None::<crate::loop_engine::merge::DispatchInput>,
        ),
{
}

/// A reflect run is dispatched only while attempts are left, without a target, in the
/// root folder of the space; once they are spent, a pending card says so instead.
pub proof fn lemma_reflect_is_bounded(
    e: EngineView,
    issue: loop_issue::ModelView,
    limit: u32,
    now: Timestamp,
)
    ensures
        ({
            let (a, r) = reflect_post(e, issue, Some(limit), now);
            let attempts = reflect_attempts(e.iterations.rows, issue.id);
            &&& r is Some ==> {
                &&& limit == 0 || attempts < limit
                &&& r->Some_0.stage == Stage::Reflect
                &&& r->Some_0.target_artifact_id is None
                &&& e.space(issue.space_id) is Some
                &&& r->Some_0.worktree_folder_id == e.space(issue.space_id)->Some_0.folder_id
            }
            &&& limit > 0 && attempts >= limit && !any_match(
                e.artifacts.rows,
                reflection_of(issue.id),
            ) ==> r is None && any_match(
                a.inbox.rows,
                pending_card(
                    issue.id,
                    InboxKind::ReflectionFailed,
                    key_for("reflect_failed"@, issue.id),
                ),
            )
        }),
{
    let attempts = reflect_attempts(e.iterations.rows, issue.id);
    let key = key_for("reflect_failed"@, issue.id);
    let payload = object2(
        "reason"@,
        JsonView::Str("reflect_exhausted"@),
        "attempts"@,
        JsonView::Int(attempts as int),
    );
    lemma_upsert_files(
        e.inbox,
        issue.space_id,
        issue.id,
        None,
        InboxKind::ReflectionFailed,
        key,
        payload,
        now,
    );
    let filed = upserted(
        e.inbox,
        issue.space_id,
        issue.id,
        None,
        InboxKind::ReflectionFailed,
        key,
        payload,
        now,
    ).0;
    lemma_first_match(filed.rows, pending_card(issue.id, InboxKind::ReflectionFailed, key));
}

} // verus!
