//! What the ways out of a blocked or paused issue do to each row, and when they are open.

use crate::clock::Timestamp;
use crate::entities::loop_artifact::{self, ArtifactKind, ArtifactStatus, ContributionKind};
use crate::entities::loop_inbox_item::{self, InboxKind, InboxStatus};
use crate::entities::loop_issue::{self, IssueStatus};
use crate::error::{LoopError, LoopErrorView};
use crate::json::{json_parsed, JsonView};
use crate::loop_engine::action_laws::lemma_exit_clears_blockers;
use crate::loop_engine::exits::{
    add_budget_post, anchored, blocked_task, blocker_subjects, empty_diff_block, force_commit,
    force_step, override_post, rearmable, retry_post, ForceActionView, ForceEvent, ForceJob,
};
use crate::loop_engine::terms::{
    announcement, answered, colon_key, lemma_announcement, lemma_key, one_member, two_members,
};
use crate::loop_engine::transitions::force_done_cas;
use crate::loop_engine::{EffectView, EngineView};
use crate::loop_service::inbox::{
    blocks_task, is_blocker_prefix, key_for, oscillation_card, task_blocker,
};
use crate::table::{any_match, lemma_lookup, lemma_lookup_at, lemma_update_wf, TableView};
use crate::text::int_digits;
use vstd::prelude::*;

verus! {

// ---------------------------------------------------------------------------
// Retry
// ---------------------------------------------------------------------------

/// The task is stuck: it is of the issue and blocked.
pub open spec fn stuck(a: loop_artifact::ModelView, issue_id: i32) -> bool {
    &&& a.issue_id == issue_id
    &&& a.kind == ArtifactKind::Task
    &&& a.status == ArtifactStatus::Blocked
}

/// The breaker holds the task back: it has blocked with the same signature at least as
/// often as the limit, where there is one.
pub open spec fn held_back(a: loop_artifact::ModelView, limit: i32) -> bool {
    &&& limit > 0
    &&& a.oscillation_count >= limit
    &&& a.recent_failure_sig is Some
}

/// The card starts with the twelve characters `oscillation:`.
pub open spec fn names_oscillation(c: loop_inbox_item::ModelView) -> bool {
    c.subject_key.len() >= 12 && c.subject_key.take(12) == seq![
        'o',
        's',
        'c',
        'i',
        'l',
        'l',
        'a',
        't',
        'i',
        'o',
        'n',
        ':',
    ]
}

/// When a retry goes through: the issue is blocked, its configuration could be read, and
/// not all of its stuck tasks are held back. Each refusal is a conflict that is announced
/// and changes no row; a configuration error is handed on.
pub proof fn law_retry_open(
    e: EngineView,
    i: int,
    limit: Result<u32, LoopErrorView>,
    now: Timestamp,
)
    requires
        e.wf(),
        0 <= i < e.issues.rows.len(),
    ensures
        ({
            let row = e.issues.rows[i];
            let (a, r) = retry_post(e, row.id, limit, now);
            let refused = EngineView {
                outbox: e.outbox.push(announcement(row.space_id, row.id, "retry_unavailable"@)),
                ..e
            };
            let any_stuck = exists|k: int|
                0 <= k < e.artifacts.rows.len() && stuck(#[trigger] e.artifacts.rows[k], row.id);
            if row.status != IssueStatus::Blocked {
                r == Err::<(), LoopErrorView>(LoopErrorView::Conflict) && a == refused
            } else if limit is Err {
                r == Err::<(), LoopErrorView>(limit->Err_0) && a == e
            } else if any_stuck && forall|k: int|
                0 <= k < e.artifacts.rows.len() && stuck(#[trigger] e.artifacts.rows[k], row.id)
                    ==> held_back(e.artifacts.rows[k], limit->Ok_0 as i32) {
                r == Err::<(), LoopErrorView>(LoopErrorView::Conflict) && a == refused
            } else {
                r is Ok
            }
        }),
{
    let row = e.issues.rows[i];
    lemma_lookup_at::<loop_issue::Model>(e.issues.rows, i);
    lemma_announcement(row.space_id, row.id, "retry_unavailable"@);
    if let Ok(l) = limit {
        let rows = e.artifacts.rows;
        if any_match(rows, blocked_task(row.id)) {
            let k = choose|k: int| 0 <= k < rows.len() && blocked_task(row.id)(#[trigger] rows[k]);
            assert(stuck(rows[k], row.id));
        }
        if any_match(rows, rearmable(row.id, l as i32)) {
            let k = choose|k: int|
                0 <= k < rows.len() && rearmable(row.id, l as i32)(#[trigger] rows[k]);
            assert(stuck(rows[k], row.id) && !held_back(rows[k], l as i32));
        }
        assert forall|k: int|
            0 <= k < rows.len() && stuck(#[trigger] rows[k], row.id) implies blocked_task(row.id)(
            rows[k],
        ) && (held_back(rows[k], l as i32) || rearmable(row.id, l as i32)(rows[k])) by {
        }
    }
}

/// What a retry does: the issue runs; each stuck task of it that is not held back is
/// pending again, with no attempts spent and no failure signature, and keeps its
/// oscillation columns; each pending `Blocked` card of the issue whose key does not start
/// with `oscillation:` is answered; a fresh driver is started. No other row changes.
pub proof fn law_retry_rows(e: EngineView, i: int, limit: u32, now: Timestamp)
    requires
        e.wf(),
        0 <= i < e.issues.rows.len(),
        retry_post(e, e.issues.rows[i].id, Ok(limit), now).1 is Ok,
    ensures
        ({
            let row = e.issues.rows[i];
            let a = retry_post(e, row.id, Ok(limit), now).0;
            &&& a == (EngineView {
                issues: TableView {
                    rows: e.issues.rows.update(
                        i,
                        loop_issue::ModelView {
                            status: IssueStatus::Running,
                            updated_at: now,
                            ..row
                        },
                    ),
                    next_id: e.issues.next_id,
                },
                artifacts: a.artifacts,
                inbox: a.inbox,
                outbox: e.outbox.push(announcement(row.space_id, row.id, "retried"@)).push(
                    EffectView::StartDriver(row.id),
                ),
                ..e
            })
            &&& a.artifacts.next_id == e.artifacts.next_id
            &&& a.artifacts.rows.len() == e.artifacts.rows.len()
            &&& forall|k: int|
                0 <= k < e.artifacts.rows.len() ==> #[trigger] a.artifacts.rows[k] == (if stuck(
                    e.artifacts.rows[k],
                    row.id,
                ) && !held_back(e.artifacts.rows[k], limit as i32) {
                    loop_artifact::ModelView {
                        status: ArtifactStatus::Pending,
                        attempt: 0,
                        last_failure_sig: None,
                        updated_at: now,
                        ..e.artifacts.rows[k]
                    }
                } else {
                    e.artifacts.rows[k]
                })
            &&& a.inbox.next_id == e.inbox.next_id
            &&& a.inbox.rows.len() == e.inbox.rows.len()
            &&& forall|k: int|
                0 <= k < e.inbox.rows.len() ==> {
                    let c = e.inbox.rows[k];
                    #[trigger] a.inbox.rows[k] == (if c.issue_id == row.id && c.kind
                        == InboxKind::Blocked && c.status == InboxStatus::Pending
                        && !names_oscillation(c) {
                        answered(c, one_member("action"@, JsonView::Str("retry"@)), now)
                    } else {
                        c
                    })
                }
        }),
{
    let row = e.issues.rows[i];
    lemma_lookup_at::<loop_issue::Model>(e.issues.rows, i);
    lemma_announcement(row.space_id, row.id, "retried"@);
    reveal_strlit("oscillation:");
    assert("oscillation:"@ =~= seq!['o', 's', 'c', 'i', 'l', 'l', 'a', 't', 'i', 'o', 'n', ':']);
}

// ---------------------------------------------------------------------------
// Force-complete and override
// ---------------------------------------------------------------------------

/// The card blocks the task: it is pending, of the issue, and its key is the task's
/// under one of the four names of a task's blocker.
pub open spec fn holds_task(c: loop_inbox_item::ModelView, issue_id: i32, task_id: i32) -> bool {
    &&& c.issue_id == issue_id
    &&& c.status == InboxStatus::Pending
    &&& {
        ||| c.subject_key == colon_key("no_progress"@, task_id)
        ||| c.subject_key == colon_key("validation_blocked"@, task_id)
        ||| c.subject_key == colon_key("infra_failure"@, task_id)
        ||| c.subject_key == colon_key("oscillation"@, task_id)
    }
}

/// The payload is an object whose member `failure_sig` is a text that begins with the
/// twenty characters `empty_diff:implement`.
pub open spec fn says_empty_diff(payload: Seq<char>) -> bool {
    match json_parsed(payload) {
        Some(JsonView::Object(m)) => m.contains_key("failure_sig"@) && match m["failure_sig"@] {
            JsonView::Str(s) => s.len() >= 20 && s.take(20) == seq![
                'e',
                'm',
                'p',
                't',
                'y',
                '_',
                'd',
                'i',
                'f',
                'f',
                ':',
                'i',
                'm',
                'p',
                'l',
                'e',
                'm',
                'e',
                'n',
                't',
            ],
            _ => false,
        },
        _ => false,
    }
}

/// The latest card that blocks the task says that its run changed nothing.
pub open spec fn changed_nothing(
    cards: Seq<loop_inbox_item::ModelView>,
    issue_id: i32,
    task_id: i32,
) -> bool {
    exists|k: int|
        0 <= k < cards.len() && holds_task(#[trigger] cards[k], issue_id, task_id) && (forall|j: int|
            k < j < cards.len() ==> !holds_task(#[trigger] cards[j], issue_id, task_id))
            && says_empty_diff(cards[k].payload)
}

proof fn lemma_holds(c: loop_inbox_item::ModelView, issue_id: i32, task_id: i32)
    ensures
        blocks_task(issue_id, task_id)(c) == holds_task(c, issue_id, task_id),
        task_blocker(issue_id, task_id, blocker_subjects())(c) == holds_task(c, issue_id, task_id),
{
    lemma_exit_clears_blockers(issue_id, task_id, c);
    lemma_key("no_progress"@, task_id);
    lemma_key("validation_blocked"@, task_id);
    lemma_key("infra_failure"@, task_id);
    lemma_key("oscillation"@, task_id);
    if holds_task(c, issue_id, task_id) {
        assert(is_blocker_prefix("no_progress"@));
        assert(is_blocker_prefix("validation_blocked"@));
        assert(is_blocker_prefix("infra_failure"@));
        assert(is_blocker_prefix("oscillation"@));
    }
    if blocks_task(issue_id, task_id)(c) {
        let p = choose|p: Seq<char>|
            is_blocker_prefix(p) && c.subject_key == #[trigger] key_for(p, task_id);
        assert(p == "no_progress"@ || p == "validation_blocked"@ || p == "infra_failure"@ || p
            == "oscillation"@);
    }
}

pub proof fn lemma_last_blocker(
    cards: Seq<loop_inbox_item::ModelView>,
    issue_id: i32,
    task_id: i32,
)
    ensures
        match crate::table::last_match(cards, blocks_task(issue_id, task_id)) {
            Some(c) => exists|k: int|
                0 <= k < cards.len() && #[trigger] cards[k] == c && holds_task(
                    cards[k],
                    issue_id,
                    task_id,
                ) && forall|j: int|
                    k < j < cards.len() ==> !holds_task(#[trigger] cards[j], issue_id, task_id),
            None => forall|j: int|
                0 <= j < cards.len() ==> !holds_task(#[trigger] cards[j], issue_id, task_id),
        },
    decreases cards.len(),
{
    reveal(Seq::filter);
    let cond = blocks_task(issue_id, task_id);
    if cards.len() > 0 {
        let front = cards.drop_last();
        let n = cards.len() - 1;
        lemma_last_blocker(front, issue_id, task_id);
        lemma_holds(cards[n], issue_id, task_id);
        if cond(cards[n]) {
            assert(cards.filter(cond).last() == cards[n]);
        } else {
            match crate::table::last_match(front, cond) {
                Some(c) => {
                    let k = choose|k: int|
                        0 <= k < front.len() && #[trigger] front[k] == c && holds_task(
                            front[k],
                            issue_id,
                            task_id,
                        ) && forall|j: int|
                            k < j < front.len() ==> !holds_task(
                                #[trigger] front[j],
                                issue_id,
                                task_id,
                            );
                    assert(cards[k] == c);
                    assert forall|j: int| k < j < cards.len() implies !holds_task(
                        #[trigger] cards[j],
                        issue_id,
                        task_id,
                    ) by {
                        if j < n {
                            assert(front[j] == cards[j]);
                        }
                    }
                },
                None => {
                    assert forall|j: int| 0 <= j < cards.len() implies !holds_task(
                        #[trigger] cards[j],
                        issue_id,
                        task_id,
                    ) by {
                        if j < n {
                            assert(front[j] == cards[j]);
                        }
                    }
                },
            }
        }
    }
}

/// Whether a task may pass as a no-op is read off its latest pending blocker card: the
/// signature there begins with `empty_diff:implement`. Any other signature, or none, is
/// no empty diff.
pub proof fn law_empty_diff(e: EngineView, issue_id: i32, task_id: i32)
    ensures
        empty_diff_block(e, issue_id, task_id) == changed_nothing(
            e.inbox.rows,
            issue_id,
            task_id,
        ),
{
    let cards = e.inbox.rows;
    lemma_last_blocker(cards, issue_id, task_id);
    reveal_strlit("empty_diff:implement");
    assert("empty_diff:implement"@ =~= seq![
        'e',
        'm',
        'p',
        't',
        'y',
        '_',
        'd',
        'i',
        'f',
        'f',
        ':',
        'i',
        'm',
        'p',
        'l',
        'e',
        'm',
        'e',
        'n',
        't',
    ]);
    if let Some(c) = crate::table::last_match(cards, blocks_task(issue_id, task_id)) {
        let k = choose|k: int|
            0 <= k < cards.len() && #[trigger] cards[k] == c && holds_task(
                cards[k],
                issue_id,
                task_id,
            ) && forall|j: int|
                k < j < cards.len() ==> !holds_task(#[trigger] cards[j], issue_id, task_id);
        assert(says_empty_diff(c.payload) == empty_diff_block(e, issue_id, task_id));
        if changed_nothing(cards, issue_id, task_id) {
            let m = choose|m: int|
                0 <= m < cards.len() && holds_task(#[trigger] cards[m], issue_id, task_id) && (
                forall|j: int|
                    m < j < cards.len() ==> !holds_task(#[trigger] cards[j], issue_id, task_id))
                    && says_empty_diff(cards[m].payload);
            assert(m == k);
        }
    }
}

/// A force-complete is asked for. It is refused for anything that is not a task (with
/// the number of the task named), and, with an announcement, for a task that is not
/// blocked or whose latest blocker is no empty diff; no row changes. A task of a
/// `parallel` issue has its branch looked at first; any other is decided at once.
pub proof fn law_force_request(e: EngineView, task_id: i32, t: int, i: int, now: Timestamp)
    requires
        e.wf(),
        0 <= t < e.artifacts.rows.len(),
        e.artifacts.rows[t].id == task_id,
        e.artifacts.rows[t].kind == ArtifactKind::Task,
        0 <= i < e.issues.rows.len(),
        e.issues.rows[i].id == e.artifacts.rows[t].issue_id,
    ensures
        ({
            let task = e.artifacts.rows[t];
            let issue = e.issues.rows[i];
            let (a, r) = force_step(e, ForceEvent::Requested { task_id }, now);
            let job = ForceJob {
                task_id,
                task_space_id: task.space_id,
                issue_id: issue.id,
                issue_space_id: issue.space_id,
            };
            if task.status != ArtifactStatus::Blocked || !changed_nothing(
                e.inbox.rows,
                task.issue_id,
                task_id,
            ) {
                &&& r == ForceActionView::Return(Err(LoopErrorView::Conflict))
                &&& a == (EngineView {
                    outbox: e.outbox.push(
                        announcement(task.space_id, task.issue_id, "force_complete_unavailable"@),
                    ),
                    ..e
                })
            } else if issue.execution_mode == Some("parallel"@) {
                r == ForceActionView::CheckBranch(job) && a == e
            } else {
                r == ForceActionView::Return(force_commit(e, job, now).1) && a == force_commit(
                    e,
                    job,
                    now,
                ).0
            }
        }),
{
    let task = e.artifacts.rows[t];
    lemma_lookup_at::<loop_artifact::Model>(e.artifacts.rows, t);
    lemma_lookup_at::<loop_issue::Model>(e.issues.rows, i);
    law_empty_diff(e, task.issue_id, task_id);
    lemma_announcement(task.space_id, task.issue_id, "force_complete_unavailable"@);
}

/// What is no task is not force-completed or overridden: it is named as not found, and
/// nothing changes.
pub proof fn law_no_task(e: EngineView, task_id: i32, now: Timestamp)
    requires
        e.wf(),
        forall|t: int|
            0 <= t < e.artifacts.rows.len() && (#[trigger] e.artifacts.rows[t]).id == task_id
                ==> e.artifacts.rows[t].kind != ArtifactKind::Task,
    ensures
        force_step(e, ForceEvent::Requested { task_id }, now) == (
            e,
            ForceActionView::Return(
                Err(LoopErrorView::NotFound("task "@ + int_digits(task_id as int))),
            ),
        ),
        override_post(e, task_id, now) == (
            e,
            Err::<(), LoopErrorView>(
                LoopErrorView::NotFound("task "@ + int_digits(task_id as int)),
            ),
        ),
{
    lemma_lookup::<loop_artifact::Model>(e.artifacts.rows, task_id);
}

/// The branch of a parallel task was looked at: one that carries work of its own is
/// refused, an error is handed on, and in both cases nothing changes; a branch at its
/// base, or none, lets the force-complete be decided.
pub proof fn law_force_branch(e: EngineView, job: ForceJob, x: LoopError, now: Timestamp)
    ensures
        force_step(e, ForceEvent::BranchChecked { job, at_base: Ok(Some(false)) }, now) == (
            e,
            ForceActionView::Return(Err(LoopErrorView::Conflict)),
        ),
        force_step(e, ForceEvent::BranchChecked { job, at_base: Err(x) }, now) == (
            e,
            ForceActionView::Return(Err(x@)),
        ),
        force_step(e, ForceEvent::BranchChecked { job, at_base: Ok(Some(true)) }, now) == (
            force_commit(e, job, now).0,
            ForceActionView::Return(force_commit(e, job, now).1),
        ),
        force_step(e, ForceEvent::BranchChecked { job, at_base: Ok(None) }, now) == (
            force_commit(e, job, now).0,
            ForceActionView::Return(force_commit(e, job, now).1),
        ),
{
}

/// The decision: a force-complete goes through exactly when the issue runs or is
/// blocked, the latest blocker of the task is an empty diff, and the task is blocked.
/// Then the issue runs; the task is done as a no-op, without a commit and without an
/// oscillation epoch; each card that blocks the task is answered; a driver is started.
/// No other row changes. A refusal is a conflict and changes no row; it is announced
/// exactly when only the cause stands in the way.
pub proof fn law_force_decision(e: EngineView, job: ForceJob, i: int, t: int, now: Timestamp)
    requires
        e.wf(),
        0 <= i < e.issues.rows.len(),
        e.issues.rows[i].id == job.issue_id,
        0 <= t < e.artifacts.rows.len(),
        e.artifacts.rows[t].id == job.task_id,
    ensures
        ({
            let issue = e.issues.rows[i];
            let task = e.artifacts.rows[t];
            let (a, r) = force_commit(e, job, now);
            let can_run = issue.status == IssueStatus::Running || issue.status
                == IssueStatus::Blocked;
            let cause = changed_nothing(e.inbox.rows, job.issue_id, job.task_id);
            if !(can_run && cause && task.status == ArtifactStatus::Blocked) {
                &&& r == Err::<(), LoopErrorView>(LoopErrorView::Conflict)
                &&& a == (EngineView {
                    outbox: if can_run && !cause {
                        e.outbox.push(
                            announcement(
                                job.task_space_id,
                                job.issue_id,
                                "force_complete_unavailable"@,
                            ),
                        )
                    } else {
                        e.outbox
                    },
                    ..e
                })
            } else {
                &&& r is Ok
                &&& a == (EngineView {
                    issues: TableView {
                        rows: e.issues.rows.update(
                            i,
                            loop_issue::ModelView {
                                status: IssueStatus::Running,
                                updated_at: now,
                                ..issue
                            },
                        ),
                        next_id: e.issues.next_id,
                    },
                    artifacts: TableView {
                        rows: e.artifacts.rows.update(
                            t,
                            loop_artifact::ModelView {
                                status: ArtifactStatus::Done,
                                contribution_kind: ContributionKind::NoOp,
                                fan_in_commit: None,
                                oscillation_count: 0,
                                recent_failure_sig: None,
                                updated_at: now,
                                ..task
                            },
                        ),
                        next_id: e.artifacts.next_id,
                    },
                    inbox: a.inbox,
                    outbox: e.outbox.push(
                        announcement(job.issue_space_id, job.issue_id, "force_completed"@),
                    ).push(EffectView::StartDriver(job.issue_id)),
                    ..e
                })
                &&& blockers_answered(
                    e.inbox,
                    a.inbox,
                    job.issue_id,
                    job.task_id,
                    two_members(
                        "action"@,
                        JsonView::Str("force_complete"@),
                        "actor"@,
                        JsonView::Str("human"@),
                    ),
                    now,
                )
            }
        }),
{
    lemma_lookup_at::<loop_issue::Model>(e.issues.rows, i);
    lemma_lookup_at::<loop_artifact::Model>(e.artifacts.rows, t);
    law_empty_diff(e, job.issue_id, job.task_id);
    lemma_announcement(job.task_space_id, job.issue_id, "force_complete_unavailable"@);
    lemma_announcement(job.issue_space_id, job.issue_id, "force_completed"@);
    let (a, r) = force_commit(e, job, now);
    if r is Ok {
        let done = force_done_cas(e.artifacts, job.task_id, now).0;
        lemma_update_wf::<loop_artifact::Model>(e.artifacts, t, done.rows[t]);
        lemma_lookup_at::<loop_artifact::Model>(done.rows, t);
        assert(a.artifacts.rows =~= e.artifacts.rows.update(t, a.artifacts.rows[t]));
        assert forall|k: int| 0 <= k < e.inbox.rows.len() implies #[trigger] a.inbox.rows[k] == (
        if holds_task(e.inbox.rows[k], job.issue_id, job.task_id) {
            answered(
                e.inbox.rows[k],
                two_members(
                    "action"@,
                    JsonView::Str("force_complete"@),
                    "actor"@,
                    JsonView::Str("human"@),
                ),
                now,
            )
        } else {
            e.inbox.rows[k]
        }) by {
            lemma_holds(e.inbox.rows[k], job.issue_id, job.task_id);
        }
    }
}

/// Exactly the cards that block the task are answered; every other card stays.
pub open spec fn blockers_answered(
    t: TableView<loop_inbox_item::ModelView>,
    u: TableView<loop_inbox_item::ModelView>,
    issue_id: i32,
    task_id: i32,
    answer: JsonView,
    now: Timestamp,
) -> bool {
    &&& u.next_id == t.next_id
    &&& u.rows.len() == t.rows.len()
    &&& forall|k: int|
        0 <= k < t.rows.len() ==> #[trigger] u.rows[k] == (if holds_task(
            t.rows[k],
            issue_id,
            task_id,
        ) {
            answered(t.rows[k], answer, now)
        } else {
            t.rows[k]
        })
}

/// An override goes through exactly when the task is blocked, a pending card named
/// `oscillation:` and its number is there, and the issue runs or is blocked. Then the
/// issue runs; the task is pending again with no attempts spent, no failure signatures
/// and no oscillation epoch; each card that blocks the task is answered; a driver is
/// started. No other row changes. A refusal is a conflict and changes no row; it is
/// announced unless only the state of the issue stands in the way.
pub proof fn law_override(e: EngineView, t: int, i: int, now: Timestamp)
    requires
        e.wf(),
        0 <= t < e.artifacts.rows.len(),
        e.artifacts.rows[t].kind == ArtifactKind::Task,
        0 <= i < e.issues.rows.len(),
        e.issues.rows[i].id == e.artifacts.rows[t].issue_id,
    ensures
        ({
            let task = e.artifacts.rows[t];
            let issue = e.issues.rows[i];
            let (a, r) = override_post(e, task.id, now);
            let promoted = exists|k: int|
                0 <= k < e.inbox.rows.len() && (#[trigger] e.inbox.rows[k]).issue_id
                    == task.issue_id && e.inbox.rows[k].subject_key == colon_key(
                    "oscillation"@,
                    task.id,
                ) && e.inbox.rows[k].status == InboxStatus::Pending;
            if task.status != ArtifactStatus::Blocked || !promoted {
                &&& r == Err::<(), LoopErrorView>(LoopErrorView::Conflict)
                &&& a == (EngineView {
                    outbox: e.outbox.push(
                        announcement(task.space_id, task.issue_id, "override_unavailable"@),
                    ),
                    ..e
                })
            } else if issue.status != IssueStatus::Running && issue.status
                != IssueStatus::Blocked {
                r == Err::<(), LoopErrorView>(LoopErrorView::Conflict) && a == e
            } else {
                &&& r is Ok
                &&& a == (EngineView {
                    issues: TableView {
                        rows: e.issues.rows.update(
                            i,
                            loop_issue::ModelView {
                                status: IssueStatus::Running,
                                updated_at: now,
                                ..issue
                            },
                        ),
                        next_id: e.issues.next_id,
                    },
                    artifacts: TableView {
                        rows: e.artifacts.rows.update(
                            t,
                            loop_artifact::ModelView {
                                status: ArtifactStatus::Pending,
                                attempt: 0,
                                last_failure_sig: None,
                                oscillation_count: 0,
                                recent_failure_sig: None,
                                updated_at: now,
                                ..task
                            },
                        ),
                        next_id: e.artifacts.next_id,
                    },
                    inbox: a.inbox,
                    outbox: e.outbox.push(
                        announcement(issue.space_id, issue.id, "oscillation_override"@),
                    ).push(EffectView::StartDriver(issue.id)),
                    ..e
                })
                &&& blockers_answered(
                    e.inbox,
                    a.inbox,
                    issue.id,
                    task.id,
                    two_members(
                        "action"@,
                        JsonView::Str("override_oscillation"@),
                        "actor"@,
                        JsonView::Str("human"@),
                    ),
                    now,
                )
            }
        }),
{
    let task = e.artifacts.rows[t];
    let issue = e.issues.rows[i];
    let (a, r) = override_post(e, task.id, now);
    lemma_lookup_at::<loop_artifact::Model>(e.artifacts.rows, t);
    lemma_lookup_at::<loop_issue::Model>(e.issues.rows, i);
    lemma_key("oscillation"@, task.id);
    lemma_announcement(task.space_id, task.issue_id, "override_unavailable"@);
    lemma_announcement(issue.space_id, issue.id, "oscillation_override"@);
    let cards = e.inbox.rows;
    let cond = oscillation_card(task.issue_id, task.id);
    assert forall|k: int| 0 <= k < cards.len() implies cond(#[trigger] cards[k]) == (
    cards[k].issue_id == task.issue_id && cards[k].subject_key == colon_key("oscillation"@, task.id)
        && cards[k].status == InboxStatus::Pending) by {
    }
    if any_match(cards, cond) {
        let k = choose|k: int| 0 <= k < cards.len() && cond(#[trigger] cards[k]);
        assert(cards[k].subject_key == colon_key("oscillation"@, task.id));
    }
    if r is Ok {
        assert forall|k: int| 0 <= k < cards.len() implies #[trigger] a.inbox.rows[k] == (
        if holds_task(cards[k], issue.id, task.id) {
            answered(
                cards[k],
                two_members(
                    "action"@,
                    JsonView::Str("override_oscillation"@),
                    "actor"@,
                    JsonView::Str("human"@),
                ),
                now,
            )
        } else {
            cards[k]
        }) by {
            lemma_holds(cards[k], issue.id, task.id);
        }
    }
}

// ---------------------------------------------------------------------------
// Budget
// ---------------------------------------------------------------------------

/// Adding budget goes through exactly for a paused issue: the budget, none counting as
/// zero, grows by the top-up, a negative one counting as zero, and stops at the greatest
/// number; each pending budget card of the issue is answered with the top-up as it was
/// given; and the issue runs again under a fresh driver. No other row changes.
pub proof fn law_add_budget(e: EngineView, i: int, additional: i64, now: Timestamp)
    requires
        e.wf(),
        0 <= i < e.issues.rows.len(),
    ensures
        ({
            let row = e.issues.rows[i];
            let (a, r) = add_budget_post(e, row.id, additional, now);
            if row.status != IssueStatus::Paused {
                r == Err::<(), LoopErrorView>(LoopErrorView::Conflict) && a == e
            } else {
                let had: int = if row.token_budget is Some {
                    row.token_budget->Some_0 as int
                } else {
                    0
                };
                let has = a.issues.rows[i].token_budget;
                &&& r is Ok
                &&& has is Some
                &&& additional <= 0 ==> has->Some_0 == had
                &&& additional > 0 && had + additional <= i64::MAX ==> has->Some_0 == had
                    + additional
                &&& additional > 0 && had + additional > i64::MAX ==> has->Some_0 == i64::MAX
                &&& a == (EngineView {
                    issues: TableView {
                        rows: e.issues.rows.update(
                            i,
                            loop_issue::ModelView {
                                status: IssueStatus::Running,
                                pause_reason: None,
                                token_budget: has,
                                updated_at: now,
                                ..row
                            },
                        ),
                        next_id: e.issues.next_id,
                    },
                    inbox: a.inbox,
                    outbox: e.outbox.push(
                        announcement(row.space_id, row.id, "budget_added"@),
                    ).push(EffectView::StartDriver(row.id)),
                    ..e
                })
                &&& a.inbox.next_id == e.inbox.next_id
                &&& a.inbox.rows.len() == e.inbox.rows.len()
                &&& forall|k: int|
                    0 <= k < e.inbox.rows.len() ==> {
                        let c = e.inbox.rows[k];
                        #[trigger] a.inbox.rows[k] == (if c.issue_id == row.id && c.kind
                            == InboxKind::BudgetExhausted && c.status == InboxStatus::Pending {
                            answered(
                                c,
                                two_members(
                                    "action"@,
                                    JsonView::Str("add_budget"@),
                                    "additional"@,
                                    JsonView::Int(additional as int),
                                ),
                                now,
                            )
                        } else {
                            c
                        })
                    }
            }
        }),
{
    let row = e.issues.rows[i];
    lemma_lookup_at::<loop_issue::Model>(e.issues.rows, i);
    lemma_announcement(row.space_id, row.id, "budget_added"@);
    if row.status == IssueStatus::Paused {
        let (a, r) = add_budget_post(e, row.id, additional, now);
        crate::loop_engine::action_laws::lemma_add_budget(e, row.id, row, additional, now);
        let funded = loop_issue::ModelView {
            token_budget: Some(
                crate::loop_engine::exits::topped_up(row.token_budget, additional),
            ),
            updated_at: now,
            ..row
        };
        lemma_update_wf::<loop_issue::Model>(e.issues, i, funded);
        lemma_lookup_at::<loop_issue::Model>(e.issues.rows.update(i, funded), i);
        assert(a.issues.rows =~= e.issues.rows.update(i, a.issues.rows[i]));
    }
}

/// An issue that is not there is named as not found, and nothing changes.
pub proof fn law_missing_issue(
    e: EngineView,
    issue_id: i32,
    limit: Result<u32, LoopErrorView>,
    additional: i64,
    now: Timestamp,
)
    requires
        forall|i: int| 0 <= i < e.issues.rows.len() ==> (#[trigger] e.issues.rows[i]).id != issue_id,
    ensures
        retry_post(e, issue_id, limit, now) == (
            e,
            Err::<(), LoopErrorView>(
                LoopErrorView::NotFound("issue "@ + int_digits(issue_id as int)),
            ),
        ),
        add_budget_post(e, issue_id, additional, now) == (
            e,
            Err::<(), LoopErrorView>(
                LoopErrorView::NotFound("issue "@ + int_digits(issue_id as int)),
            ),
        ),
        anchored(e.issues, issue_id, now) == (
            e.issues,
            Err::<(), LoopErrorView>(LoopErrorView::Conflict),
        ),
{
    lemma_lookup::<loop_issue::Model>(e.issues.rows, issue_id);
}

/// Anchoring an issue for an exit: exactly a running or blocked issue runs then, and
/// nothing else of it or of any other issue changes but its time stamp.
pub proof fn law_anchor(t: TableView<loop_issue::ModelView>, i: int, now: Timestamp)
    requires
        crate::table::table_wf::<loop_issue::Model>(t),
        0 <= i < t.rows.len(),
    ensures
        ({
            let row = t.rows[i];
            let (u, r) = anchored(t, row.id, now);
            if row.status == IssueStatus::Running || row.status == IssueStatus::Blocked {
                &&& r is Ok
                &&& u.next_id == t.next_id
                &&& u.rows == t.rows.update(
                    i,
                    loop_issue::ModelView {
                        status: IssueStatus::Running,
                        updated_at: now,
                        ..row
                    },
                )
            } else {
                r == Err::<(), LoopErrorView>(LoopErrorView::Conflict) && u == t
            }
        }),
{
    lemma_lookup_at::<loop_issue::Model>(t.rows, i);
}

/// A task whose issue is not there cannot be exited: the issue is named as not found,
/// and no row changes.
pub proof fn law_task_without_issue(e: EngineView, t: int, now: Timestamp)
    requires
        e.wf(),
        0 <= t < e.artifacts.rows.len(),
        e.artifacts.rows[t].kind == ArtifactKind::Task,
        e.artifacts.rows[t].status == ArtifactStatus::Blocked,
        forall|i: int|
            0 <= i < e.issues.rows.len() ==> (#[trigger] e.issues.rows[i]).id
                != e.artifacts.rows[t].issue_id,
    ensures
        ({
            let task = e.artifacts.rows[t];
            let lost = LoopErrorView::NotFound("issue "@ + int_digits(task.issue_id as int));
            &&& changed_nothing(e.inbox.rows, task.issue_id, task.id) ==> force_step(
                e,
                ForceEvent::Requested { task_id: task.id },
                now,
            ) == (e, ForceActionView::Return(Err(lost)))
            &&& any_match(e.inbox.rows, oscillation_card(task.issue_id, task.id)) ==> override_post(
                e,
                task.id,
                now,
            ) == (e, Err::<(), LoopErrorView>(lost))
        }),
{
    let task = e.artifacts.rows[t];
    lemma_lookup_at::<loop_artifact::Model>(e.artifacts.rows, t);
    lemma_lookup::<loop_issue::Model>(e.issues.rows, task.issue_id);
    law_empty_diff(e, task.issue_id, task.id);
}

} // verus!
