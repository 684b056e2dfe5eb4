//! What is recorded and listed of iterations, lineage edges and coverage edges, in the
//! terms of their columns.

use crate::clock::Timestamp;
use crate::entities::loop_iteration::{self, IterationOutcome};
use crate::entities::loop_link::LinkKind;
use crate::entities::{loop_artifact, loop_coverage, loop_issue, loop_link};
use crate::loop_service::coverage::{self, coverage_row, covered, covers};
use crate::loop_service::iteration::{
    issue_listing, of_issue, of_space, outcome_recorded, space_listing,
};
use crate::loop_service::link::{joins, link_row, linked};
use crate::models::{LoopCoverageRow, LoopLinkRow};
use crate::table::{
    ids_ascend, lemma_filter_from, lemma_first_is, lemma_first_match, lemma_lookup, lemma_lookup_at,
    position, table_wf, TableView,
};
use vstd::prelude::*;

verus! {

// ---------------------------------------------------------------------------
// Iterations
// ---------------------------------------------------------------------------

/// The iterations of an issue, and of a space, are all of those and no other, whatever
/// their stage, status or outcome.
pub proof fn law_listed_iterations(
    rows: Seq<loop_iteration::ModelView>,
    issue_id: i32,
    space_id: i32,
    k: int,
    j: int,
)
    ensures
        0 <= k < rows.len() && rows[k].issue_id == issue_id ==> rows.filter(
            of_issue(issue_id),
        ).contains(rows[k]),
        0 <= j < rows.filter(of_issue(issue_id)).len() ==> rows.filter(
            of_issue(issue_id),
        )[j].issue_id == issue_id && rows.contains(rows.filter(of_issue(issue_id))[j]),
        0 <= k < rows.len() && rows[k].space_id == space_id ==> rows.filter(
            of_space(space_id),
        ).contains(rows[k]),
        0 <= j < rows.filter(of_space(space_id)).len() ==> rows.filter(
            of_space(space_id),
        )[j].space_id == space_id && rows.contains(rows.filter(of_space(space_id))[j]),
{
    if 0 <= k < rows.len() && rows[k].issue_id == issue_id {
        rows.lemma_filter_contains(of_issue(issue_id), k);
    }
    if 0 <= k < rows.len() && rows[k].space_id == space_id {
        rows.lemma_filter_contains(of_space(space_id), k);
    }
    if 0 <= j < rows.filter(of_issue(issue_id)).len() {
        lemma_filter_from(rows, of_issue(issue_id), j);
    }
    if 0 <= j < rows.filter(of_space(space_id)).len() {
        lemma_filter_from(rows, of_space(space_id), j);
    }
}

/// A listed iteration shows its own columns in either listing.
pub proof fn law_iteration_columns(
    issues: Seq<loop_issue::ModelView>,
    artifacts: Seq<loop_artifact::ModelView>,
    issue_id: i32,
    space_id: i32,
    m: loop_iteration::ModelView,
)
    ensures
        ({
            let a = issue_listing(issues, artifacts, issue_id)(m);
            let b = space_listing(issues, artifacts, space_id)(m);
            &&& a.id == m.id && b.id == m.id
            &&& a.issue_id == m.issue_id && b.issue_id == m.issue_id
            &&& a.stage == m.stage && b.stage == m.stage
            &&& a.target_artifact_id == m.target_artifact_id && b.target_artifact_id
                == m.target_artifact_id
            &&& a.conversation_id == m.conversation_id && b.conversation_id == m.conversation_id
            &&& a.status == m.status && b.status == m.status
            &&& a.launched_by == m.launched_by && b.launched_by == m.launched_by
            &&& a.attempt == m.attempt && b.attempt == m.attempt
            &&& a.tokens_used == m.tokens_used && b.tokens_used == m.tokens_used
            &&& a.created_at == m.created_at && b.created_at == m.created_at
            &&& a.started_at == m.started_at && b.started_at == m.started_at
            &&& a.ended_at == m.ended_at && b.ended_at == m.ended_at
        }),
{
}

/// The number shown with an iteration is that of the issue: in the listing of an issue,
/// of that issue; in the listing of a space, of the iteration's own issue, where that is
/// of the space. Without such an issue it is zero.
pub proof fn law_iteration_issue(
    issues: Seq<loop_issue::ModelView>,
    artifacts: Seq<loop_artifact::ModelView>,
    issue_id: i32,
    space_id: i32,
    m: loop_iteration::ModelView,
    i: int,
)
    requires
        ids_ascend::<loop_issue::Model>(issues),
    ensures
        0 <= i < issues.len() && issues[i].id == issue_id ==> issue_listing(
            issues,
            artifacts,
            issue_id,
        )(m).issue_seq == issues[i].seq_no,
        (forall|j: int| 0 <= j < issues.len() ==> (#[trigger] issues[j]).id != issue_id)
            ==> issue_listing(issues, artifacts, issue_id)(m).issue_seq == 0,
        0 <= i < issues.len() && issues[i].id == m.issue_id ==> space_listing(
            issues,
            artifacts,
            space_id,
        )(m).issue_seq == (if issues[i].space_id == space_id {
            issues[i].seq_no
        } else {
            0
        }),
        (forall|j: int| 0 <= j < issues.len() ==> (#[trigger] issues[j]).id != m.issue_id)
            ==> space_listing(issues, artifacts, space_id)(m).issue_seq == 0,
{
    lemma_lookup::<loop_issue::Model>(issues, issue_id);
    lemma_lookup::<loop_issue::Model>(issues, m.issue_id);
    if 0 <= i < issues.len() {
        lemma_lookup_at::<loop_issue::Model>(issues, i);
    }
}

/// The title shown with an iteration is that of its target artifact; without a target, or
/// where that is not there, there is none.
pub proof fn law_iteration_title(
    issues: Seq<loop_issue::ModelView>,
    artifacts: Seq<loop_artifact::ModelView>,
    issue_id: i32,
    space_id: i32,
    m: loop_iteration::ModelView,
    k: int,
)
    requires
        ids_ascend::<loop_artifact::Model>(artifacts),
    ensures
        ({
            let a = issue_listing(issues, artifacts, issue_id)(m).target_title;
            let b = space_listing(issues, artifacts, space_id)(m).target_title;
            &&& a == b
            &&& 0 <= k < artifacts.len() && m.target_artifact_id == Some(artifacts[k].id) ==> a
                == Some(artifacts[k].title)
            &&& m.target_artifact_id is None ==> a is None
            &&& (forall|j: int|
                0 <= j < artifacts.len() ==> m.target_artifact_id != Some(
                    (#[trigger] artifacts[j]).id,
                )) ==> a is None
        }),
{
    if let Some(id) = m.target_artifact_id {
        lemma_lookup::<loop_artifact::Model>(artifacts, id);
        if let Some(p) = position::<loop_artifact::Model>(artifacts, id) {
            assert(artifacts[p].id == id);
        }
        if 0 <= k < artifacts.len() {
            lemma_lookup_at::<loop_artifact::Model>(artifacts, k);
        }
    }
}

/// An outcome is written exactly to the iteration with the id, and only where it has none
/// yet; no other column and no other iteration changes.
pub proof fn law_outcome(
    t: TableView<loop_iteration::ModelView>,
    id: i32,
    o: IterationOutcome,
    k: int,
)
    requires
        table_wf::<loop_iteration::Model>(t),
        0 <= k < t.rows.len(),
    ensures
        ({
            let (u, written) = outcome_recorded(t, id, o);
            let m = t.rows[k];
            &&& u.next_id == t.next_id
            &&& u.rows.len() == t.rows.len()
            &&& m.id != id ==> u.rows[k] == m
            &&& m.id == id && m.outcome is Some ==> u.rows[k] == m && !written
            &&& m.id == id && m.outcome is None ==> written && u.rows[k] == (
            loop_iteration::ModelView {
                id: m.id,
                space_id: m.space_id,
                issue_id: m.issue_id,
                stage: m.stage,
                target_artifact_id: m.target_artifact_id,
                slot_no: m.slot_no,
                conversation_id: m.conversation_id,
                capability_token: m.capability_token,
                status: m.status,
                launched_by: m.launched_by,
                attempt: m.attempt,
                tokens_used: m.tokens_used,
                tokens_pending: m.tokens_pending,
                context_manifest: m.context_manifest,
                created_at: m.created_at,
                started_at: m.started_at,
                ended_at: m.ended_at,
                outcome: Some(o),
                agent_completion_reason: m.agent_completion_reason,
            })
        }),
{
    lemma_lookup::<loop_iteration::Model>(t.rows, id);
    lemma_lookup_at::<loop_iteration::Model>(t.rows, k);
}

/// An iteration that is not there takes no outcome.
pub proof fn law_outcome_missing(
    t: TableView<loop_iteration::ModelView>,
    id: i32,
    o: IterationOutcome,
)
    requires
        forall|i: int| 0 <= i < t.rows.len() ==> (#[trigger] t.rows[i]).id != id,
    ensures
        outcome_recorded(t, id, o) == (t, false),
{
    lemma_lookup::<loop_iteration::Model>(t.rows, id);
}

// ---------------------------------------------------------------------------
// Lineage
// ---------------------------------------------------------------------------

/// An edge that is asked for the first time is added with the columns as they were given.
pub proof fn law_link_first(
    t: TableView<loop_link::Model>,
    space_id: i32,
    from: i32,
    to: i32,
    kind: LinkKind,
    source_revision_id: Option<i32>,
    now: Timestamp,
)
    requires
        t.next_id < i32::MAX,
        forall|i: int|
            0 <= i < t.rows.len() ==> (#[trigger] t.rows[i]).from_artifact_id != from
                || t.rows[i].to_artifact_id != to || t.rows[i].kind != kind,
    ensures
        ({
            let edge = loop_link::Model {
                id: t.next_id,
                space_id,
                from_artifact_id: from,
                to_artifact_id: to,
                kind,
                source_revision_id,
                created_at: now,
            };
            let (u, r) = linked(t, space_id, from, to, kind, source_revision_id, now);
            &&& u.rows == t.rows.push(edge)
            &&& u.next_id == t.next_id + 1
            &&& r == edge
        }),
{
    lemma_first_match(t.rows, joins(from, to, kind));
}

/// An edge that is there is given back as it is, the first one of its source, target and
/// kind, and nothing changes.
pub proof fn law_link_again(
    t: TableView<loop_link::Model>,
    space_id: i32,
    from: i32,
    to: i32,
    kind: LinkKind,
    source_revision_id: Option<i32>,
    now: Timestamp,
    i: int,
)
    requires
        0 <= i < t.rows.len(),
        t.rows[i].from_artifact_id == from,
        t.rows[i].to_artifact_id == to,
        t.rows[i].kind == kind,
        forall|j: int|
            0 <= j < i ==> (#[trigger] t.rows[j]).from_artifact_id != from
                || t.rows[j].to_artifact_id != to || t.rows[j].kind != kind,
    ensures
        linked(t, space_id, from, to, kind, source_revision_id, now) == (t, t.rows[i]),
{
    lemma_first_is(t.rows, joins(from, to, kind), i);
}

/// Edges are shown with their own columns.
pub proof fn law_edges_shown(l: loop_link::Model, c: loop_coverage::Model)
    ensures
        link_row(l) == (LoopLinkRow {
            id: l.id,
            from_artifact_id: l.from_artifact_id,
            to_artifact_id: l.to_artifact_id,
            kind: l.kind,
            source_revision_id: l.source_revision_id,
        }),
        coverage_row(c) == (LoopCoverageRow {
            id: c.id,
            task_artifact_id: c.task_artifact_id,
            criterion_id: c.criterion_id,
        }),
{
}

// ---------------------------------------------------------------------------
// Coverage
// ---------------------------------------------------------------------------

/// A claim that is made the first time is added with the columns as they were given.
pub proof fn law_cover_first(
    t: TableView<loop_coverage::Model>,
    space_id: i32,
    task: i32,
    criterion: i32,
    now: Timestamp,
)
    requires
        t.next_id < i32::MAX,
        forall|i: int|
            0 <= i < t.rows.len() ==> (#[trigger] t.rows[i]).task_artifact_id != task
                || t.rows[i].criterion_id != criterion,
    ensures
        ({
            let edge = loop_coverage::Model {
                id: t.next_id,
                space_id,
                task_artifact_id: task,
                criterion_id: criterion,
                created_at: now,
            };
            let (u, r) = covered(t, space_id, task, criterion, now);
            &&& u.rows == t.rows.push(edge)
            &&& u.next_id == t.next_id + 1
            &&& r == edge
        }),
{
    lemma_first_match(t.rows, covers(task, criterion));
}

/// A claim that is there is given back as it is, and nothing changes.
pub proof fn law_cover_again(
    t: TableView<loop_coverage::Model>,
    space_id: i32,
    task: i32,
    criterion: i32,
    now: Timestamp,
    i: int,
)
    requires
        0 <= i < t.rows.len(),
        t.rows[i].task_artifact_id == task,
        t.rows[i].criterion_id == criterion,
        forall|j: int|
            0 <= j < i ==> (#[trigger] t.rows[j]).task_artifact_id != task || t.rows[j].criterion_id
                != criterion,
    ensures
        covered(t, space_id, task, criterion, now) == (t, t.rows[i]),
{
    lemma_first_is(t.rows, covers(task, criterion), i);
}

/// A claim is listed for an issue when the artifact that makes it is of the issue.
pub proof fn law_cover_listed(
    artifacts: Seq<loop_artifact::ModelView>,
    rows: Seq<loop_coverage::Model>,
    issue_id: i32,
    k: int,
    a: int,
)
    requires
        ids_ascend::<loop_artifact::Model>(artifacts),
        0 <= k < rows.len(),
        0 <= a < artifacts.len(),
        artifacts[a].id == rows[k].task_artifact_id,
        artifacts[a].issue_id == issue_id,
    ensures
        rows.filter(coverage::of_issue(artifacts, issue_id)).contains(rows[k]),
{
    lemma_lookup_at::<loop_artifact::Model>(artifacts, a);
    rows.lemma_filter_contains(coverage::of_issue(artifacts, issue_id), k);
}

/// A claim that is listed for an issue was made by an artifact of the issue.
pub proof fn law_cover_of_issue(
    artifacts: Seq<loop_artifact::ModelView>,
    rows: Seq<loop_coverage::Model>,
    issue_id: i32,
    j: int,
)
    requires
        0 <= j < rows.filter(coverage::of_issue(artifacts, issue_id)).len(),
    ensures
        ({
            let c = rows.filter(coverage::of_issue(artifacts, issue_id))[j];
            &&& rows.contains(c)
            &&& exists|a: int|
                0 <= a < artifacts.len() && (#[trigger] artifacts[a]).id == c.task_artifact_id
                    && artifacts[a].issue_id == issue_id
        }),
{
    lemma_filter_from(rows, coverage::of_issue(artifacts, issue_id), j);
    let c = rows.filter(coverage::of_issue(artifacts, issue_id))[j];
    lemma_lookup::<loop_artifact::Model>(artifacts, c.task_artifact_id);
    let a = position::<loop_artifact::Model>(artifacts, c.task_artifact_id)->Some_0;
    assert(artifacts[a].id == c.task_artifact_id);
}

} // verus!
