//! What holds of the engine whatever is done with it.

use crate::clock::Timestamp;
use crate::entities::loop_artifact::{self, ArtifactKind, ArtifactStatus};
use crate::entities::loop_artifact_revision;
use crate::entities::loop_inbox_item::{self, InboxKind, InboxStatus};
use crate::entities::loop_issue::{self, IssueStatus};
use crate::entities::loop_iteration::{self, IterationStatus};
use crate::entities::loop_link::{self, LinkKind};
use crate::error::LoopErrorView;
use crate::json::{object1, object2, JsonView};
use crate::loop_engine::actions::{
    approve_design_post, awaiting_ids, cancel_post, pause_post, reject_design_post, resume_post,
    terminal, trigger_step, with_notes, TriggerEvent,
};
use crate::loop_engine::exits::{
    add_budget_post, blocker_subjects, force_commit, force_step, override_post, retry_post, task_of,
    topped_up, ForceEvent, ForceJob,
};
use crate::loop_engine::fan_in::{linked_to_all, result_ensured, result_of, with_result};
use crate::loop_engine::finalize::{
    completed, fan_in_blocked, finalize_step, finished, session_closed, FanInStartView,
    FanInTreeView, FinalizeEvent,
};
use crate::loop_engine::merge::{
    fault_detail, fault_reason, merge_step, reflect_attempts, reflect_post, MergeEvent,
};
use crate::loop_engine::transitions::{force_done_cas, issue_cas};
use crate::loop_engine::{issue_changed, EngineView};
use crate::loop_service::inbox::{
    approval_resolved, key_for, ordinary_block, pending_card, pending_of_kind, swept, task_blocker,
    upserted,
};
use crate::loop_service::inbox_laws::{
    lemma_approval_resolved, lemma_sweep, lemma_upsert_keeps_pending_unique, pending_unique,
};
use crate::loop_service::link::{lemma_create_link_keeps_unique, links_unique};
use crate::table::{
    first_at, has_id, lemma_first_is, lemma_first_match, lemma_lookup, position, TableView,
};
use crate::text::trimmed;
use vstd::prelude::*;

verus! {

/// Something done with the engine.
pub enum EngineOp {
    Trigger { issue_id: i32, trigger: TriggerEvent, now: Timestamp },
    Pause { issue_id: i32, now: Timestamp },
    Resume { issue_id: i32, now: Timestamp },
    Cancel { issue_id: i32, now: Timestamp },
    ApproveDesign { issue_id: i32, now: Timestamp },
    RejectDesign { issue_id: i32, comment: Seq<char>, now: Timestamp },
    Retry { issue_id: i32, oscillation_limit: Result<u32, LoopErrorView>, now: Timestamp },
    ForceComplete { force: ForceEvent, now: Timestamp },
    OverrideOscillation { task_id: i32, now: Timestamp },
    AddBudget { issue_id: i32, additional: i64, now: Timestamp },
    Merge { merge: MergeEvent, now: Timestamp },
    Reflect { issue: loop_issue::ModelView, max_attempts: Option<u32>, now: Timestamp },
    Finalize { tick: FinalizeEvent, now: Timestamp },
}

/// The engine after it.
pub open spec fn apply(e: EngineView, op: EngineOp) -> EngineView {
    match op {
        EngineOp::Trigger { issue_id, trigger, now } => trigger_step(e, issue_id, trigger, now).0,
        EngineOp::Pause { issue_id, now } => pause_post(e, issue_id, now).0,
        EngineOp::Resume { issue_id, now } => resume_post(e, issue_id, now).0,
        EngineOp::Cancel { issue_id, now } => cancel_post(e, issue_id, now).0,
        EngineOp::ApproveDesign { issue_id, now } => approve_design_post(e, issue_id, now).0,
        EngineOp::RejectDesign { issue_id, comment, now } => {
            reject_design_post(e, issue_id, comment, now).0
        },
        EngineOp::Retry { issue_id, oscillation_limit, now } => {
            retry_post(e, issue_id, oscillation_limit, now).0
        },
        EngineOp::ForceComplete { force, now } => force_step(e, force, now).0,
        EngineOp::OverrideOscillation { task_id, now } => override_post(e, task_id, now).0,
        EngineOp::AddBudget { issue_id, additional, now } => {
            add_budget_post(e, issue_id, additional, now).0
        },
        EngineOp::Merge { merge, now } => merge_step(e, merge, now).0,
        EngineOp::Reflect { issue, max_attempts, now } => {
            reflect_post(e, issue, max_attempts, now).0
        },
        EngineOp::Finalize { tick, now } => finalize_step(e, tick, now).0,
    }
}

// ---------------------------------------------------------------------------
// What every action keeps
// ---------------------------------------------------------------------------

/// An issue keeps its identity, and a done or cancelled issue keeps its status.
pub open spec fn issue_evolves(x: loop_issue::ModelView, y: loop_issue::ModelView) -> bool {
    &&& y.id == x.id
    &&& y.space_id == x.space_id
    &&& y.seq_no == x.seq_no
    &&& y.title == x.title
    &&& terminal(x.status) ==> y.status == x.status
}

/// A settled iteration stays as it is, and an outcome that was recorded stays.
pub open spec fn iteration_evolves(
    x: loop_iteration::ModelView,
    y: loop_iteration::ModelView,
) -> bool {
    &&& y.id == x.id
    &&& y.issue_id == x.issue_id
    &&& y.stage == x.stage
    &&& x.status != IterationStatus::Queued && x.status != IterationStatus::Running ==> y == x
    &&& x.outcome is Some ==> y.outcome == x.outcome
}

/// An artifact keeps its identity, and only one that is blocked or awaits approval
/// changes at all.
pub open spec fn artifact_evolves(
    x: loop_artifact::ModelView,
    y: loop_artifact::ModelView,
) -> bool {
    &&& y.id == x.id
    &&& y.issue_id == x.issue_id
    &&& y.kind == x.kind
    &&& y.title == x.title
    &&& x.status != ArtifactStatus::Blocked && x.status != ArtifactStatus::AwaitingApproval ==> y
        == x
}

/// A card keeps its identity, and a handled card stays as it is.
pub open spec fn card_evolves(
    x: loop_inbox_item::ModelView,
    y: loop_inbox_item::ModelView,
) -> bool {
    &&& y.id == x.id
    &&& y.space_id == x.space_id
    &&& y.issue_id == x.issue_id
    &&& y.iteration_id == x.iteration_id
    &&& y.kind == x.kind
    &&& y.subject_key == x.subject_key
    &&& y.created_at == x.created_at
    &&& x.status == InboxStatus::Handled ==> y == x
}

pub open spec fn issues_evolve(
    a: TableView<loop_issue::ModelView>,
    b: TableView<loop_issue::ModelView>,
) -> bool {
    &&& b.next_id == a.next_id
    &&& b.rows.len() == a.rows.len()
    &&& forall|i: int| 0 <= i < a.rows.len() ==> issue_evolves(a.rows[i], #[trigger] b.rows[i])
}

pub open spec fn iterations_evolve(
    a: TableView<loop_iteration::ModelView>,
    b: TableView<loop_iteration::ModelView>,
) -> bool {
    &&& b.next_id == a.next_id
    &&& b.rows.len() == a.rows.len()
    &&& forall|i: int| 0 <= i < a.rows.len() ==> iteration_evolves(a.rows[i], #[trigger] b.rows[i])
}

/// At most one artifact is the result of an issue.
pub open spec fn results_unique(rows: Seq<loop_artifact::ModelView>) -> bool {
    forall|i: int, j: int|
        0 <= i < j < rows.len() && (#[trigger] rows[i]).kind == ArtifactKind::Result && (
        #[trigger] rows[j]).kind == ArtifactKind::Result ==> rows[i].issue_id != rows[j].issue_id
}

pub open spec fn artifacts_evolve(
    a: TableView<loop_artifact::ModelView>,
    b: TableView<loop_artifact::ModelView>,
) -> bool {
    &&& b.rows.len() >= a.rows.len()
    &&& forall|i: int| 0 <= i < a.rows.len() ==> artifact_evolves(a.rows[i], #[trigger] b.rows[i])
    &&& results_unique(a.rows) ==> results_unique(b.rows)
}

pub open spec fn inbox_evolves(
    a: TableView<loop_inbox_item::ModelView>,
    b: TableView<loop_inbox_item::ModelView>,
) -> bool {
    &&& b.rows.len() >= a.rows.len()
    &&& forall|i: int| 0 <= i < a.rows.len() ==> card_evolves(a.rows[i], #[trigger] b.rows[i])
    &&& pending_unique(a.rows) ==> pending_unique(b.rows)
}

/// What every action keeps: no row is lost or changes its identity; what is settled
/// stays settled; at most one card is pending per issue, kind and subject; at most one
/// artifact is the result of an issue; revisions, edges and effects are only added, and
/// no edge twice; spaces and folders are not touched.
pub open spec fn evolves(a: EngineView, b: EngineView) -> bool {
    &&& issues_evolve(a.issues, b.issues)
    &&& iterations_evolve(a.iterations, b.iterations)
    &&& artifacts_evolve(a.artifacts, b.artifacts)
    &&& inbox_evolves(a.inbox, b.inbox)
    &&& a.revisions.rows.is_prefix_of(b.revisions.rows)
    &&& a.links.rows.is_prefix_of(b.links.rows)
    &&& links_unique(a.links.rows) ==> links_unique(b.links.rows)
    &&& a.outbox.is_prefix_of(b.outbox)
    &&& b.spaces == a.spaces
    &&& b.folders == a.folders
}

proof fn lemma_evolves_transitive(a: EngineView, b: EngineView, c: EngineView)
    requires
        evolves(a, b),
        evolves(b, c),
    ensures
        evolves(a, c),
{
    assert forall|i: int| 0 <= i < a.issues.rows.len() implies issue_evolves(
        a.issues.rows[i],
        #[trigger] c.issues.rows[i],
    ) by {
        assert(issue_evolves(a.issues.rows[i], b.issues.rows[i]));
    }
    assert forall|i: int| 0 <= i < a.iterations.rows.len() implies iteration_evolves(
        a.iterations.rows[i],
        #[trigger] c.iterations.rows[i],
    ) by {
        assert(iteration_evolves(a.iterations.rows[i], b.iterations.rows[i]));
    }
    assert forall|i: int| 0 <= i < a.artifacts.rows.len() implies artifact_evolves(
        a.artifacts.rows[i],
        #[trigger] c.artifacts.rows[i],
    ) by {
        assert(artifact_evolves(a.artifacts.rows[i], b.artifacts.rows[i]));
        assert(artifact_evolves(b.artifacts.rows[i], c.artifacts.rows[i]));
    }
    assert forall|i: int| 0 <= i < a.inbox.rows.len() implies card_evolves(
        a.inbox.rows[i],
        #[trigger] c.inbox.rows[i],
    ) by {
        assert(card_evolves(a.inbox.rows[i], b.inbox.rows[i]));
        assert(card_evolves(b.inbox.rows[i], c.inbox.rows[i]));
    }
}

// The parts of an engine step, one by one.

proof fn lemma_issue_cas(
    t: TableView<loop_issue::ModelView>,
    id: i32,
    from: IssueStatus,
    to: IssueStatus,
    now: Timestamp,
)
    requires
        !terminal(from),
    ensures
        issues_evolve(t, issue_cas(t, id, from, to, now).0),
{
    lemma_lookup::<loop_issue::Model>(t.rows, id);
}

proof fn lemma_upsert(
    t: TableView<loop_inbox_item::ModelView>,
    space_id: i32,
    issue_id: i32,
    iteration_id: Option<i32>,
    kind: InboxKind,
    key: Seq<char>,
    payload: JsonView,
    now: Timestamp,
)
    ensures
        inbox_evolves(
            t,
            upserted(t, space_id, issue_id, iteration_id, kind, key, payload, now).0,
        ),
{
    lemma_first_match(t.rows, pending_card(issue_id, kind, key));
    if pending_unique(t.rows) {
        lemma_upsert_keeps_pending_unique(
            t,
            space_id,
            issue_id,
            iteration_id,
            kind,
            key,
            payload,
            now,
        );
    }
}

proof fn lemma_approval(
    t: TableView<loop_inbox_item::ModelView>,
    issue_id: i32,
    subject: Seq<char>,
    resolution: JsonView,
    now: Timestamp,
)
    ensures
        inbox_evolves(t, approval_resolved(t, issue_id, subject, resolution, now)),
{
    lemma_first_match(t.rows, pending_card(issue_id, InboxKind::Approval, subject));
    if pending_unique(t.rows) {
        lemma_approval_resolved(t, issue_id, subject, resolution, now);
    }
}

proof fn lemma_swept(
    t: TableView<loop_inbox_item::ModelView>,
    cond: spec_fn(loop_inbox_item::ModelView) -> bool,
    resolution: JsonView,
    now: Timestamp,
)
    requires
        forall|c: loop_inbox_item::ModelView| #[trigger]
            cond(c) ==> c.status == InboxStatus::Pending,
    ensures
        inbox_evolves(t, swept(t, cond, resolution, now)),
{
    if pending_unique(t.rows) {
        lemma_sweep(t, cond, resolution, now);
    }
}

proof fn lemma_inbox_transitive(
    a: TableView<loop_inbox_item::ModelView>,
    b: TableView<loop_inbox_item::ModelView>,
    c: TableView<loop_inbox_item::ModelView>,
)
    requires
        inbox_evolves(a, b),
        inbox_evolves(b, c),
    ensures
        inbox_evolves(a, c),
{
    assert forall|i: int| 0 <= i < a.rows.len() implies card_evolves(
        a.rows[i],
        #[trigger] c.rows[i],
    ) by {
        assert(card_evolves(a.rows[i], b.rows[i]));
        assert(card_evolves(b.rows[i], c.rows[i]));
    }
}

proof fn lemma_notes(
    t: TableView<loop_artifact_revision::ModelView>,
    ids: Seq<i32>,
    content: Seq<char>,
    now: Timestamp,
)
    ensures
        t.rows.is_prefix_of(with_notes(t, ids, content, now).rows),
    decreases ids.len(),
{
    if ids.len() > 0 {
        lemma_notes(t, ids.drop_last(), content, now);
    }
}

proof fn lemma_links(
    t: TableView<loop_link::Model>,
    space_id: i32,
    from: i32,
    tasks: Seq<i32>,
    now: Timestamp,
)
    ensures
        t.rows.is_prefix_of(linked_to_all(t, space_id, from, tasks, now).rows),
        links_unique(t.rows) ==> links_unique(linked_to_all(t, space_id, from, tasks, now).rows),
    decreases tasks.len(),
{
    if tasks.len() > 0 {
        lemma_links(t, space_id, from, tasks.drop_last(), now);
        if links_unique(t.rows) {
            lemma_create_link_keeps_unique(
                linked_to_all(t, space_id, from, tasks.drop_last(), now),
                space_id,
                from,
                tasks.last(),
                LinkKind::ResultsFrom,
                None,
                now,
            );
        }
    }
}

proof fn lemma_with_result(
    e: EngineView,
    space_id: i32,
    issue_id: i32,
    tasks: Seq<i32>,
    now: Timestamp,
)
    ensures
        evolves(e, with_result(e, space_id, issue_id, tasks, now)),
{
    let (artifacts, id) = result_ensured(e.artifacts, space_id, issue_id, now);
    lemma_links(e.links, space_id, id, tasks, now);
    lemma_first_match(e.artifacts.rows, result_of(issue_id));
    if results_unique(e.artifacts.rows) {
        assert forall|i: int, j: int|
            0 <= i < j < artifacts.rows.len() && (#[trigger] artifacts.rows[i]).kind
                == ArtifactKind::Result && (#[trigger] artifacts.rows[j]).kind
                == ArtifactKind::Result implies artifacts.rows[i].issue_id
            != artifacts.rows[j].issue_id by {
            assert(artifacts.rows[i] == e.artifacts.rows[i]);
            if j < e.artifacts.rows.len() {
                assert(artifacts.rows[j] == e.artifacts.rows[j]);
            } else {
                assert(!result_of(issue_id)(e.artifacts.rows[i]));
            }
        }
    }
}

proof fn lemma_finalize_evolves(e: EngineView, event: FinalizeEvent, now: Timestamp)
    ensures
        evolves(e, finalize_step(e, event, now).0),
{
    let after = finalize_step(e, event, now).0;
    assert(evolves(e, e));
    match event {
        FinalizeEvent::ManifestEncoded { start, manifest, encoded } => {
            lemma_lookup::<loop_issue::Model>(e.issues.rows, start.issue_id);
        },
        FinalizeEvent::TipResolved { tree, found } => {
            lemma_completed(e, tree@, now);
            lemma_blocked(e, tree@.session.start, now);
        },
        FinalizeEvent::AncestorChecked { tree, tip, index, is_ancestor } => {
            lemma_completed(e, tree@, now);
        },
        FinalizeEvent::IntegrateHeadRead { tree, resumed, head } => {
            lemma_blocked(e, tree@.session.start, now);
            lemma_lookup::<loop_issue::Model>(e.issues.rows, tree.session.start.issue_id);
        },
        FinalizeEvent::TasksMerged { tree, outcome } => {
            lemma_blocked(e, tree@.session.start, now);
        },
        FinalizeEvent::BranchAdvanced { tree, advanced } => {
            lemma_completed(e, tree@, now);
            lemma_closed(e, tree@, now);
        },
        FinalizeEvent::WorktreeSynced { tree, result } => {
            lemma_completed(e, tree@, now);
        },
        _ => {},
    }
}

proof fn lemma_blocked(
    e: EngineView,
    start: FanInStartView,
    now: Timestamp,
)
    ensures
        forall|subject: Seq<char>, reason: Seq<char>|
            evolves(
                e,
                (#[trigger] fan_in_blocked(
                    e,
                    start,
                    subject,
                    reason,
                    now,
                )).0,
            ),
{
    assert forall|subject: Seq<char>, reason: Seq<char>|
        evolves(
            e,
            (#[trigger] fan_in_blocked(
                e,
                start,
                subject,
                reason,
                now,
            )).0,
        ) by {
        lemma_issue_cas(e.issues, start.issue_id, IssueStatus::Running, IssueStatus::Blocked, now);
        lemma_upsert(
            e.inbox,
            start.space_id,
            start.issue_id,
            None,
            InboxKind::Blocked,
            key_for(subject, start.issue_id),
            object2("v"@, JsonView::Int(1), "reason"@, JsonView::Str(reason)),
            now,
        );
    }
}

proof fn lemma_closed(
    e: EngineView,
    tree: FanInTreeView,
    now: Timestamp,
)
    ensures
        evolves(e, session_closed(e, tree, now).0),
{
    lemma_lookup::<loop_issue::Model>(e.issues.rows, tree.session.start.issue_id);
}

proof fn lemma_completed(
    e: EngineView,
    tree: FanInTreeView,
    now: Timestamp,
)
    ensures
        evolves(e, completed(e, tree, now).0),
        evolves(e, finished(e, tree, now).0),
{
    let start = tree.session.start;
    let members = tree.session.manifest.members();
    let mid = with_result(e, start.space_id, start.issue_id, members, now);
    lemma_with_result(e, start.space_id, start.issue_id, members, now);
    lemma_closed(mid, tree, now);
    lemma_evolves_transitive(
        e,
        mid,
        completed(e, tree, now).0,
    );
}

proof fn lemma_cancel_evolves(e: EngineView, issue_id: i32, now: Timestamp)
    ensures
        evolves(e, cancel_post(e, issue_id, now).0),
{
    lemma_lookup::<loop_issue::Model>(e.issues.rows, issue_id);
}

proof fn lemma_retry_evolves(
    e: EngineView,
    issue_id: i32,
    limit: Result<u32, LoopErrorView>,
    now: Timestamp,
)
    ensures
        evolves(e, retry_post(e, issue_id, limit, now).0),
{
    lemma_issue_cas(e.issues, issue_id, IssueStatus::Blocked, IssueStatus::Running, now);
    lemma_swept(
        e.inbox,
        ordinary_block(issue_id),
        object1("action"@, JsonView::Str("retry"@)),
        now,
    );
}

proof fn lemma_force_commit_evolves(e: EngineView, job: ForceJob, now: Timestamp)
    ensures
        evolves(e, force_commit(e, job, now).0),
{
    lemma_lookup::<loop_issue::Model>(e.issues.rows, job.issue_id);
    lemma_lookup::<loop_artifact::Model>(e.artifacts.rows, job.task_id);
    let done = force_done_cas(e.artifacts, job.task_id, now).0;
    lemma_lookup::<loop_artifact::Model>(done.rows, job.task_id);
    if let Some(i) = position::<loop_artifact::Model>(e.artifacts.rows, job.task_id) {
        lemma_first_match(e.artifacts.rows, has_id::<loop_artifact::Model>(job.task_id));
        assert(forall|j: int|
            0 <= j < done.rows.len() ==> #[trigger] done.rows[j].id == e.artifacts.rows[j].id);
        assert(first_at(done.rows, has_id::<loop_artifact::Model>(job.task_id), i));
        lemma_first_is(done.rows, has_id::<loop_artifact::Model>(job.task_id), i);
    }
    lemma_swept(
        e.inbox,
        task_blocker(job.issue_id, job.task_id, blocker_subjects()),
        object2(
            "action"@,
            JsonView::Str("force_complete"@),
            "actor"@,
            JsonView::Str("human"@),
        ),
        now,
    );
}

proof fn lemma_override_evolves(e: EngineView, task_id: i32, now: Timestamp)
    ensures
        evolves(e, override_post(e, task_id, now).0),
{
    lemma_lookup::<loop_artifact::Model>(e.artifacts.rows, task_id);
    if let Some(task) = task_of(e, task_id) {
        lemma_lookup::<loop_issue::Model>(e.issues.rows, task.issue_id);
        lemma_swept(
            e.inbox,
            task_blocker(task.issue_id, task_id, blocker_subjects()),
            object2(
                "action"@,
                JsonView::Str("override_oscillation"@),
                "actor"@,
                JsonView::Str("human"@),
            ),
            now,
        );
    }
}

proof fn lemma_resume_evolves(e: EngineView, issue_id: i32, now: Timestamp)
    ensures
        evolves(e, resume_post(e, issue_id, now).0),
{
    lemma_lookup::<loop_issue::Model>(e.issues.rows, issue_id);
}

proof fn lemma_add_budget_evolves(e: EngineView, issue_id: i32, additional: i64, now: Timestamp)
    ensures
        evolves(e, add_budget_post(e, issue_id, additional, now).0),
{
    lemma_lookup::<loop_issue::Model>(e.issues.rows, issue_id);
    if let Some(i) = position::<loop_issue::Model>(e.issues.rows, issue_id) {
        let issue = e.issues.rows[i];
        if issue.status == IssueStatus::Paused {
            let resolution = object2(
                "action"@,
                JsonView::Str("add_budget"@),
                "additional"@,
                JsonView::Int(additional as int),
            );
            let cond = pending_of_kind(issue_id, InboxKind::BudgetExhausted);
            lemma_swept(e.inbox, cond, resolution, now);
            let mid = e.set_issue(
                i,
                loop_issue::ModelView {
                    token_budget: Some(topped_up(issue.token_budget, additional)),
                    updated_at: now,
                    ..issue
                },
            ).with_inbox(swept(e.inbox, cond, resolution, now)).say(
                issue_changed(issue.space_id, issue_id, "budget_added"@),
            );
            assert(evolves(e, mid));
            lemma_resume_evolves(mid, issue_id, now);
            lemma_evolves_transitive(e, mid, resume_post(mid, issue_id, now).0);
        }
    }
}

proof fn lemma_merge_evolves(e: EngineView, event: MergeEvent, now: Timestamp)
    ensures
        evolves(e, merge_step(e, event, now).0),
{
    if let MergeEvent::MergeRun { job, outcome } = event {
        let key = key_for("merge"@, job.issue_id);
        lemma_lookup::<loop_issue::Model>(e.issues.rows, job.issue_id);
        lemma_approval(
            e.inbox,
            job.issue_id,
            key,
            object1("action"@, JsonView::Str("merged"@)),
            now,
        );
        if let Ok(o) = outcome {
            let payload = object2(
                "reason"@,
                JsonView::Str(fault_reason(o@)),
                "detail"@,
                JsonView::Str(fault_detail(o@)),
            );
            let blocked = key_for("merge_blocked"@, job.issue_id);
            lemma_upsert(
                e.inbox,
                job.space_id,
                job.issue_id,
                None,
                InboxKind::Blocked,
                blocked,
                payload,
                now,
            );
            let filed = upserted(
                e.inbox,
                job.space_id,
                job.issue_id,
                None,
                InboxKind::Blocked,
                blocked,
                payload,
                now,
            ).0;
            let resolution = object2(
                "action"@,
                JsonView::Str("merge_failed"@),
                "reason"@,
                JsonView::Str(fault_reason(o@)),
            );
            lemma_approval(filed, job.issue_id, key, resolution, now);
            lemma_inbox_transitive(
                e.inbox,
                filed,
                approval_resolved(filed, job.issue_id, key, resolution, now),
            );
        }
    }
}

/// Whatever is done with the engine: no row is lost or changes its identity; a done or
/// cancelled issue keeps its status; a settled iteration stays as it is and a recorded
/// outcome is never overwritten; only artifacts that are blocked or await approval
/// change; a handled card stays as it is; at most one card stays pending per issue,
/// kind and subject; an issue never gets a second result; revisions, edges and effects
/// are only added, and no edge twice; spaces and folders are not touched.
pub proof fn lemma_engine_evolves(e: EngineView, op: EngineOp)
    ensures
        evolves(e, apply(e, op)),
{
    match op {
        EngineOp::Trigger { issue_id, trigger, now } => {
            lemma_issue_cas(e.issues, issue_id, IssueStatus::Pending, IssueStatus::Running, now);
        },
        EngineOp::Pause { issue_id, now } => {
            lemma_lookup::<loop_issue::Model>(e.issues.rows, issue_id);
        },
        EngineOp::Resume { issue_id, now } => {
            lemma_resume_evolves(e, issue_id, now);
        },
        EngineOp::Cancel { issue_id, now } => {
            lemma_cancel_evolves(e, issue_id, now);
        },
        EngineOp::ApproveDesign { issue_id, now } => {
            lemma_approval(
                e.inbox,
                issue_id,
                key_for("design"@, issue_id),
                object1("action"@, JsonView::Str("approve"@)),
                now,
            );
        },
        EngineOp::RejectDesign { issue_id, comment, now } => {
            lemma_approval(
                e.inbox,
                issue_id,
                key_for("design"@, issue_id),
                object2(
                    "action"@,
                    JsonView::Str("reject"@),
                    "comment"@,
                    JsonView::Str(comment),
                ),
                now,
            );
            lemma_notes(
                e.revisions,
                awaiting_ids(e.artifacts.rows, issue_id),
                "[design rejected] "@ + trimmed(comment),
                now,
            );
        },
        EngineOp::Retry { issue_id, oscillation_limit, now } => {
            lemma_retry_evolves(e, issue_id, oscillation_limit, now);
        },
        EngineOp::ForceComplete { force, now } => {
            match force {
                ForceEvent::Requested { task_id } => {
                    if let Some(task) = task_of(e, task_id) {
                        if let Some(issue) = e.issue(task.issue_id) {
                            lemma_force_commit_evolves(
                                e,
                                ForceJob {
                                    task_id,
                                    task_space_id: task.space_id,
                                    issue_id: issue.id,
                                    issue_space_id: issue.space_id,
                                },
                                now,
                            );
                        }
                    }
                },
                ForceEvent::BranchChecked { job, at_base } => {
                    lemma_force_commit_evolves(e, job, now);
                },
            }
        },
        EngineOp::OverrideOscillation { task_id, now } => {
            lemma_override_evolves(e, task_id, now);
        },
        EngineOp::AddBudget { issue_id, additional, now } => {
            lemma_add_budget_evolves(e, issue_id, additional, now);
        },
        EngineOp::Merge { merge, now } => {
            lemma_merge_evolves(e, merge, now);
        },
        EngineOp::Reflect { issue, max_attempts, now } => {
            lemma_upsert(
                e.inbox,
                issue.space_id,
                issue.id,
                None,
                InboxKind::ReflectionFailed,
                key_for("reflect_failed"@, issue.id),
                object2(
                    "reason"@,
                    JsonView::Str("reflect_exhausted"@),
                    "attempts"@,
                    JsonView::Int(reflect_attempts(e.iterations.rows, issue.id) as int),
                ),
                now,
            );
        },
        EngineOp::Finalize { tick, now } => {
            lemma_finalize_evolves(e, tick, now);
        },
    }
}

/// The same over any run of actions.
pub open spec fn run(e: EngineView, ops: Seq<EngineOp>) -> EngineView
    decreases ops.len(),
{
    if ops.len() == 0 {
        e
    } else {
        apply(run(e, ops.drop_last()), ops.last())
    }
}

/// What every action keeps, every run of actions keeps.
pub proof fn lemma_run_evolves(e: EngineView, ops: Seq<EngineOp>)
    ensures
        evolves(e, run(e, ops)),
    decreases ops.len(),
{
    if ops.len() > 0 {
        let before = run(e, ops.drop_last());
        lemma_run_evolves(e, ops.drop_last());
        lemma_engine_evolves(before, ops.last());
        lemma_evolves_transitive(e, before, run(e, ops));
    }
}

} // verus!
