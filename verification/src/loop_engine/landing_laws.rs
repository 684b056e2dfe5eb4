//! What each step of a merge asks for and does, in the terms of the rows it reads, and
//! when a reflection is tried.

use crate::clock::Timestamp;
use crate::entities::loop_artifact::ArtifactKind;
use crate::entities::loop_inbox_item::InboxKind;
use crate::entities::loop_issue::{self, IssueStatus};
use crate::entities::loop_iteration::{self, IterationStatus, Stage};
use crate::entities::{folder, loop_space};
use crate::error::{LoopError, LoopErrorView};
use crate::json::JsonView;
use crate::loop_engine::merge::{
    fault_detail, fault_message, fault_reason, merge_landed, merge_step, reflect_post,
    reflection_of, spent_reflect, DispatchInput, MergeActionView, MergeEvent, MergeJob,
    MergeJobView, MergeOutcome, MergeOutcomeView,
};
use crate::loop_engine::terms::{
    announcement, colon_key, issue_branch, lemma_announcement, lemma_branch, lemma_filter_agrees,
    lemma_key, one_member, two_members,
};
use crate::loop_engine::{EffectView, EngineView};
use crate::loop_service::inbox::{approval_resolved, upserted};
use crate::table::{any_match, lemma_lookup, lemma_lookup_at, position, TableView};
use crate::text::int_digits;
use vstd::prelude::*;

verus! {

/// A merge is requested: the lock that is asked for is that of the space's root folder,
/// and nothing changes.
pub proof fn law_merge_locks_space_repository(
    e: EngineView,
    i: int,
    s: int,
    f: int,
    now: Timestamp,
)
    requires
        e.wf(),
        0 <= i < e.issues.rows.len(),
        0 <= s < e.spaces.rows.len(),
        e.spaces.rows[s].id == e.issues.rows[i].space_id,
        0 <= f < e.folders.rows.len(),
        e.folders.rows[f].id == e.spaces.rows[s].folder_id,
    ensures
        merge_step(e, MergeEvent::Requested { issue_id: e.issues.rows[i].id }, now) == (
            e,
            if e.folders.rows[f].deleted_at is None {
                MergeActionView::LockRepo { repo_path: e.folders.rows[f].path }
            } else {
                MergeActionView::Return(Err(LoopErrorView::Detached))
            },
        ),
{
    lemma_lookup_at::<loop_issue::Model>(e.issues.rows, i);
    lemma_lookup_at::<loop_space::Model>(e.spaces.rows, s);
    lemma_lookup_at::<folder::Model>(e.folders.rows, f);
}

/// What is missing when a merge is requested is named: the issue, the space, or the
/// folder, and nothing changes.
pub proof fn law_merge_missing(e: EngineView, issue_id: i32, now: Timestamp)
    requires
        e.wf(),
    ensures
        (forall|i: int|
            0 <= i < e.issues.rows.len() ==> (#[trigger] e.issues.rows[i]).id != issue_id) ==> {
            &&& merge_step(e, MergeEvent::Requested { issue_id }, now) == (
                e,
                MergeActionView::Return(
                    Err(LoopErrorView::NotFound("issue "@ + int_digits(issue_id as int))),
                ),
            )
        },
        forall|i: int|
            0 <= i < e.issues.rows.len() && (#[trigger] e.issues.rows[i]).id == issue_id && (forall|
                s: int,
            |
                0 <= s < e.spaces.rows.len() ==> (#[trigger] e.spaces.rows[s]).id
                    != e.issues.rows[i].space_id) ==> merge_step(
                e,
                MergeEvent::Requested { issue_id },
                now,
            ) == (
                e,
                MergeActionView::Return(
                    Err(
                        LoopErrorView::NotFound(
                            "space "@ + int_digits(e.issues.rows[i].space_id as int),
                        ),
                    ),
                ),
            ),
        forall|i: int, s: int|
            #![trigger e.issues.rows[i], e.spaces.rows[s]]
            0 <= i < e.issues.rows.len() && e.issues.rows[i].id == issue_id && 0 <= s
                < e.spaces.rows.len() && e.spaces.rows[s].id == e.issues.rows[i].space_id && (
            forall|f: int|
                0 <= f < e.folders.rows.len() ==> (#[trigger] e.folders.rows[f]).id
                    != e.spaces.rows[s].folder_id) ==> merge_step(
                e,
                MergeEvent::Requested { issue_id },
                now,
            ) == (e, MergeActionView::Return(Err(LoopErrorView::Detached))),
{
    lemma_lookup::<loop_issue::Model>(e.issues.rows, issue_id);
    assert forall|i: int|
        0 <= i < e.issues.rows.len() && (#[trigger] e.issues.rows[i]).id
            == issue_id implies position::<loop_issue::Model>(e.issues.rows, issue_id) == Some(
        i,
    ) by {
        lemma_lookup_at::<loop_issue::Model>(e.issues.rows, i);
    }
    if let Some(i) = position::<loop_issue::Model>(e.issues.rows, issue_id) {
        lemma_lookup::<loop_space::Model>(e.spaces.rows, e.issues.rows[i].space_id);
        assert forall|s: int|
            0 <= s < e.spaces.rows.len() && (#[trigger] e.spaces.rows[s]).id
                == e.issues.rows[i].space_id implies position::<loop_space::Model>(
            e.spaces.rows,
            e.issues.rows[i].space_id,
        ) == Some(s) by {
            lemma_lookup_at::<loop_space::Model>(e.spaces.rows, s);
        }
        if let Some(s) = position::<loop_space::Model>(e.spaces.rows, e.issues.rows[i].space_id) {
            lemma_lookup::<folder::Model>(e.folders.rows, e.spaces.rows[s].folder_id);
        }
    }
}

/// Under the lock: an issue that is done is a success, announced once more; any other is
/// asked whether it passed integration; nothing changes.
pub proof fn law_merge_under_lock(e: EngineView, i: int, repo_path: String, now: Timestamp)
    requires
        e.wf(),
        0 <= i < e.issues.rows.len(),
    ensures
        ({
            let row = e.issues.rows[i];
            merge_step(e, MergeEvent::Locked { issue_id: row.id, repo_path }, now) == (
            if row.status == IssueStatus::Done {
                (
                    EngineView {
                        outbox: e.outbox.push(announcement(row.space_id, row.id, "merged"@)),
                        ..e
                    },
                    MergeActionView::Return(Ok(())),
                )
            } else {
                (e, MergeActionView::CheckIntegration { repo_path: repo_path@ })
            })
        }),
{
    let row = e.issues.rows[i];
    lemma_lookup_at::<loop_issue::Model>(e.issues.rows, i);
    lemma_announcement(row.space_id, row.id, "merged"@);
}

/// What git is asked to merge, once integration has passed: for a running issue its own
/// branch `loop/{space}/issue-{number}`, from its own worktree folder, onto the base
/// branch and commit that it recorded, in the repository that is locked. What is missing
/// is named instead. An issue that does not run, or did not pass, is not mergeable, which
/// is announced. No row changes.
pub proof fn law_merge_job(
    e: EngineView,
    i: int,
    repo_path: String,
    passed: bool,
    now: Timestamp,
)
    requires
        e.wf(),
        0 <= i < e.issues.rows.len(),
    ensures
        ({
            let row = e.issues.rows[i];
            let (a, r) = merge_step(
                e,
                MergeEvent::IntegrationChecked { issue_id: row.id, repo_path, passed: Ok(passed) },
                now,
            );
            if row.status != IssueStatus::Running || !passed {
                &&& r == MergeActionView::Return(Err(LoopErrorView::NotMergeable))
                &&& a == (EngineView {
                    outbox: e.outbox.push(
                        announcement(row.space_id, row.id, "merge_unavailable"@),
                    ),
                    ..e
                })
            } else {
                &&& a == e
                &&& row.worktree_folder_id is None ==> r == MergeActionView::Return(
                    Err(
                        LoopErrorView::NotFound(
                            "issue "@ + int_digits(row.id as int) + " worktree"@,
                        ),
                    ),
                )
                &&& row.worktree_folder_id is Some && (forall|f: int|
                    0 <= f < e.folders.rows.len() && (#[trigger] e.folders.rows[f]).id
                        == row.worktree_folder_id->Some_0 ==> e.folders.rows[f].deleted_at is Some)
                    ==> r == MergeActionView::Return(Err(LoopErrorView::Detached))
                &&& forall|f: int|
                    0 <= f < e.folders.rows.len() && row.worktree_folder_id == Some(
                        (#[trigger] e.folders.rows[f]).id,
                    ) && e.folders.rows[f].deleted_at is None ==> r == (
                    if row.base_branch is None {
                        MergeActionView::Return(
                            Err(LoopErrorView::Git("issue has no recorded base branch"@)),
                        )
                    } else if row.base_commit is None {
                        MergeActionView::Return(
                            Err(LoopErrorView::Git("issue has no recorded base commit"@)),
                        )
                    } else {
                        MergeActionView::RunMerge(
                            MergeJobView {
                                issue_id: row.id,
                                space_id: row.space_id,
                                repo_path: repo_path@,
                                worktree_path: e.folders.rows[f].path,
                                branch: issue_branch(row.space_id, row.seq_no),
                                base_branch: row.base_branch->Some_0,
                                base_commit: row.base_commit->Some_0,
                            },
                        )
                    })
            }
        }),
{
    let row = e.issues.rows[i];
    lemma_lookup_at::<loop_issue::Model>(e.issues.rows, i);
    lemma_announcement(row.space_id, row.id, "merge_unavailable"@);
    lemma_branch(row.space_id, row.seq_no);
    if let Some(id) = row.worktree_folder_id {
        lemma_lookup::<folder::Model>(e.folders.rows, id);
        assert forall|f: int|
            0 <= f < e.folders.rows.len() && (#[trigger] e.folders.rows[f]).id
                == id implies position::<folder::Model>(e.folders.rows, id) == Some(f) by {
            lemma_lookup_at::<folder::Model>(e.folders.rows, f);
        }
    }
}

/// An issue that is gone by the time of a step is named, and an error of the outside is
/// handed on; nothing changes.
pub proof fn law_merge_step_errors(
    e: EngineView,
    issue_id: i32,
    repo_path: String,
    passed: bool,
    job: MergeJob,
    x: LoopError,
    now: Timestamp,
)
    ensures
        merge_step(
            e,
            MergeEvent::IntegrationChecked { issue_id, repo_path, passed: Err(x) },
            now,
        ) == (e, MergeActionView::Return(Err(x@))),
        merge_step(e, MergeEvent::MergeRun { job, outcome: Err(x) }, now) == (
            e,
            MergeActionView::Return(Err(x@)),
        ),
        (forall|i: int|
            0 <= i < e.issues.rows.len() ==> (#[trigger] e.issues.rows[i]).id != issue_id) ==> {
            let gone = MergeActionView::Return(
                Err(LoopErrorView::NotFound("issue "@ + int_digits(issue_id as int))),
            );
            &&& merge_step(e, MergeEvent::Locked { issue_id, repo_path }, now) == (e, gone)
            &&& merge_step(
                e,
                MergeEvent::IntegrationChecked { issue_id, repo_path, passed: Ok(passed) },
                now,
            ) == (e, gone)
        },
{
    lemma_lookup::<loop_issue::Model>(e.issues.rows, issue_id);
}

/// A merge that did not land: a running issue is blocked and no other issue changes; a
/// `merge_blocked:` card with the reason and the detail is filed; a pending `merge:`
/// approval is answered as failed; it is announced, and the driver woken. The person is
/// told the message of the outcome.
pub proof fn law_merge_fault(
    e: EngineView,
    job: MergeJob,
    o: MergeOutcome,
    i: int,
    reason: Seq<char>,
    message: Seq<char>,
    detail: Seq<char>,
    now: Timestamp,
)
    requires
        e.wf(),
        0 <= i < e.issues.rows.len(),
        e.issues.rows[i].id == job.issue_id,
        match o {
            MergeOutcome::Merged => false,
            MergeOutcome::BaseGone => reason == "base_gone"@ && message
                == "The base branch no longer exists."@ && detail == "base branch no longer exists"@,
            MergeOutcome::BaseDirty => reason == "base_dirty"@ && message
                == "The base repository has uncommitted changes to tracked files. Commit or stash them, then merge again."@
                && detail == "base repo working tree has uncommitted tracked changes"@,
            MergeOutcome::Conflict { stage, detail: d } => detail == d@ && (if stage@
                == "integrate"@ {
                reason == "merge_conflict_integrate"@ && message
                    == "Merge conflict while integrating the latest base into the issue branch."@
            } else {
                reason == "merge_conflict"@ && message
                    == "Merge conflict while landing the issue branch onto the base branch."@
            }),
            MergeOutcome::RevalidationFailed { output } => reason == "revalidation_failed"@
                && message == "Re-validation failed on the merged result."@ && detail == output@,
        },
    ensures
        ({
            let row = e.issues.rows[i];
            let (a, r) = merge_step(e, MergeEvent::MergeRun { job, outcome: Ok(o) }, now);
            &&& r == MergeActionView::Return(Err(LoopErrorView::MergeFailed(message)))
            &&& a == (EngineView {
                issues: TableView {
                    rows: if row.status == IssueStatus::Running {
                        e.issues.rows.update(
                            i,
                            loop_issue::ModelView {
                                status: IssueStatus::Blocked,
                                updated_at: now,
                                ..row
                            },
                        )
                    } else {
                        e.issues.rows
                    },
                    next_id: e.issues.next_id,
                },
                inbox: approval_resolved(
                    upserted(
                        e.inbox,
                        job.space_id,
                        job.issue_id,
                        None,
                        InboxKind::Blocked,
                        colon_key("merge_blocked"@, job.issue_id),
                        two_members(
                            "reason"@,
                            JsonView::Str(reason),
                            "detail"@,
                            JsonView::Str(detail),
                        ),
                        now,
                    ).0,
                    job.issue_id,
                    colon_key("merge"@, job.issue_id),
                    two_members(
                        "action"@,
                        JsonView::Str("merge_failed"@),
                        "reason"@,
                        JsonView::Str(reason),
                    ),
                    now,
                ),
                outbox: e.outbox.push(
                    announcement(job.space_id, job.issue_id, "blocked"@),
                ).push(EffectView::WakeDriver(job.issue_id)),
                ..e
            })
        }),
{
    lemma_lookup_at::<loop_issue::Model>(e.issues.rows, i);
    lemma_announcement(job.space_id, job.issue_id, "blocked"@);
    lemma_key("merge_blocked"@, job.issue_id);
    lemma_key("merge"@, job.issue_id);
}

/// A merge that landed: a running issue is done and ended, and no other issue changes; a
/// pending `merge:` approval is answered as merged. Asked for are, in this order: the
/// removal of the worktree that was merged, of the worktrees below it, of the branch
/// that was merged (only if it is merged), and of the worktree's folder; then the
/// announcement, the driver's wake-up, the release of the lock, and last a reflection on
/// the issue.
pub proof fn law_merge_landed(e: EngineView, job: MergeJob, i: int, now: Timestamp)
    requires
        e.wf(),
        0 <= i < e.issues.rows.len(),
        e.issues.rows[i].id == job.issue_id,
    ensures
        ({
            let row = e.issues.rows[i];
            let (a, r) = merge_step(
                e,
                MergeEvent::MergeRun { job, outcome: Ok(MergeOutcome::Merged) },
                now,
            );
            &&& r == MergeActionView::Return(Ok(()))
            &&& a == (EngineView {
                issues: TableView {
                    rows: if row.status == IssueStatus::Running {
                        e.issues.rows.update(
                            i,
                            loop_issue::ModelView {
                                status: IssueStatus::Done,
                                ended_at: Some(now),
                                updated_at: now,
                                ..row
                            },
                        )
                    } else {
                        e.issues.rows
                    },
                    next_id: e.issues.next_id,
                },
                inbox: approval_resolved(
                    e.inbox,
                    job.issue_id,
                    colon_key("merge"@, job.issue_id),
                    one_member("action"@, JsonView::Str("merged"@)),
                    now,
                ),
                outbox: e.outbox + seq![
                    EffectView::RemoveWorktree {
                        repo_path: job.repo_path@,
                        worktree_path: job.worktree_path@,
                    },
                    EffectView::RemoveSubtree {
                        repo_path: job.repo_path@,
                        worktree_path: job.worktree_path@,
                    },
                    EffectView::DeleteBranch {
                        repo_path: job.repo_path@,
                        branch: job.branch@,
                        force: false,
                    },
                    EffectView::RemoveFolder { path: job.worktree_path@ },
                    announcement(job.space_id, job.issue_id, "merged"@),
                    EffectView::WakeDriver(job.issue_id),
                    EffectView::ReleaseRepoLock,
                    EffectView::Reflect(job.issue_id),
                ],
                ..e
            })
        }),
{
    let a = merge_landed(e, job@, now);
    lemma_lookup_at::<loop_issue::Model>(e.issues.rows, i);
    lemma_announcement(job.space_id, job.issue_id, "merged"@);
    lemma_key("merge"@, job.issue_id);
    assert(a.outbox =~= e.outbox + seq![
        EffectView::RemoveWorktree {
            repo_path: job.repo_path@,
            worktree_path: job.worktree_path@,
        },
        EffectView::RemoveSubtree {
            repo_path: job.repo_path@,
            worktree_path: job.worktree_path@,
        },
        EffectView::DeleteBranch {
            repo_path: job.repo_path@,
            branch: job.branch@,
            force: false,
        },
        EffectView::RemoveFolder { path: job.worktree_path@ },
        announcement(job.space_id, job.issue_id, "merged"@),
        EffectView::WakeDriver(job.issue_id),
        EffectView::ReleaseRepoLock,
        EffectView::Reflect(job.issue_id),
    ]);
}

// ---------------------------------------------------------------------------
// Reflection
// ---------------------------------------------------------------------------

/// The reflection on an issue: nothing where the issue has a reflection artifact or its
/// configuration could not be read. Else, of the reflect runs of this issue those that
/// have ended count as attempts. Where the limit is set and reached, the notice card
/// `reflect_failed:` with the count is filed and announced, and nothing is dispatched;
/// else a reflect run of this issue is dispatched into the root folder of its space, as
/// the next attempt, without a target or slot, and nothing changes.
pub proof fn law_reflect(
    e: EngineView,
    issue: loop_issue::ModelView,
    max_attempts: Option<u32>,
    s: int,
    now: Timestamp,
)
    requires
        e.wf(),
        0 <= s < e.spaces.rows.len(),
        e.spaces.rows[s].id == issue.space_id,
    ensures
        ({
            let (a, r) = reflect_post(e, issue, max_attempts, now);
            let spent = e.iterations.rows.filter(
                |it: loop_iteration::ModelView|
                    it.issue_id == issue.id && it.stage == Stage::Reflect && (it.status
                        == IterationStatus::Succeeded || it.status == IterationStatus::Failed
                        || it.status == IterationStatus::Interrupted || it.status
                        == IterationStatus::Cancelled),
            ).len() as u32;
            if max_attempts is None || exists|k: int|
                0 <= k < e.artifacts.rows.len() && (#[trigger] e.artifacts.rows[k]).issue_id
                    == issue.id && e.artifacts.rows[k].kind == ArtifactKind::Reflection {
                a == e && r is None
            } else if max_attempts->Some_0 > 0 && spent >= max_attempts->Some_0 {
                &&& r is None
                &&& a == (EngineView {
                    inbox: upserted(
                        e.inbox,
                        issue.space_id,
                        issue.id,
                        None,
                        InboxKind::ReflectionFailed,
                        colon_key("reflect_failed"@, issue.id),
                        two_members(
                            "reason"@,
                            JsonView::Str("reflect_exhausted"@),
                            "attempts"@,
                            JsonView::Int(spent as int),
                        ),
                        now,
                    ).0,
                    outbox: e.outbox.push(
                        announcement(issue.space_id, issue.id, "reflect_exhausted"@),
                    ),
                    ..e
                })
            } else {
                &&& a == e
                &&& r == Some(
                    DispatchInput {
                        space_id: issue.space_id,
                        issue_id: issue.id,
                        stage: Stage::Reflect,
                        target_artifact_id: None,
                        slot_no: None,
                        attempt: spent as i32,
                        worktree_folder_id: e.spaces.rows[s].folder_id,
                    },
                )
            }
        }),
{
    let cond = |it: loop_iteration::ModelView|
        it.issue_id == issue.id && it.stage == Stage::Reflect && (it.status
            == IterationStatus::Succeeded || it.status == IterationStatus::Failed || it.status
            == IterationStatus::Interrupted || it.status == IterationStatus::Cancelled);
    lemma_lookup_at::<loop_space::Model>(e.spaces.rows, s);
    lemma_key("reflect_failed"@, issue.id);
    lemma_announcement(issue.space_id, issue.id, "reflect_exhausted"@);
    lemma_filter_agrees(e.iterations.rows, spent_reflect(issue.id), cond);
    let rows = e.artifacts.rows;
    assert forall|k: int| 0 <= k < rows.len() implies reflection_of(issue.id)(
        #[trigger] rows[k],
    ) == (rows[k].issue_id == issue.id && rows[k].kind == ArtifactKind::Reflection) by {
    }
    if any_match(rows, reflection_of(issue.id)) {
        let k = choose|k: int| 0 <= k < rows.len() && reflection_of(issue.id)(#[trigger] rows[k]);
        assert(rows[k].issue_id == issue.id);
    }
}

/// Without its space an issue has no folder to reflect in: nothing is dispatched, and
/// unless the attempts are spent nothing changes.
pub proof fn law_reflect_without_space(
    e: EngineView,
    issue: loop_issue::ModelView,
    max_attempts: Option<u32>,
    now: Timestamp,
)
    requires
        forall|s: int|
            0 <= s < e.spaces.rows.len() ==> (#[trigger] e.spaces.rows[s]).id != issue.space_id,
    ensures
        reflect_post(e, issue, max_attempts, now).1 is None,
        max_attempts is None || max_attempts->Some_0 == 0 ==> reflect_post(
            e,
            issue,
            max_attempts,
            now,
        ).0 == e,
{
    lemma_lookup::<loop_space::Model>(e.spaces.rows, issue.space_id);
}

/// What is reported of each outcome of a merge: its reason, its message and its detail. A
/// conflict in the stage `integrate` is told apart from one in any other stage.
pub proof fn law_fault_report(stage: Seq<char>, detail: Seq<char>, output: Seq<char>)
    ensures
        ({
            let o = MergeOutcomeView::BaseGone;
            &&& fault_reason(o) == "base_gone"@
            &&& fault_message(o) == "The base branch no longer exists."@
            &&& fault_detail(o) == "base branch no longer exists"@
        }),
        ({
            let o = MergeOutcomeView::BaseDirty;
            &&& fault_reason(o) == "base_dirty"@
            &&& fault_message(o)
                == "The base repository has uncommitted changes to tracked files. Commit or stash them, then merge again."@
            &&& fault_detail(o) == "base repo working tree has uncommitted tracked changes"@
        }),
        ({
            let o = MergeOutcomeView::Conflict { stage, detail };
            &&& stage == "integrate"@ ==> fault_reason(o) == "merge_conflict_integrate"@
                && fault_message(o)
                == "Merge conflict while integrating the latest base into the issue branch."@
            &&& stage != "integrate"@ ==> fault_reason(o) == "merge_conflict"@ && fault_message(o)
                == "Merge conflict while landing the issue branch onto the base branch."@
            &&& fault_detail(o) == detail
        }),
        ({
            let o = MergeOutcomeView::RevalidationFailed { output };
            &&& fault_reason(o) == "revalidation_failed"@
            &&& fault_message(o) == "Re-validation failed on the merged result."@
            &&& fault_detail(o) == output
        }),
        ({
            let o = MergeOutcomeView::Merged;
            &&& fault_reason(o) == "merged"@
            &&& fault_message(o) == "Merge failed."@
            &&& fault_detail(o).len() == 0
        }),
{
}

} // verus!
