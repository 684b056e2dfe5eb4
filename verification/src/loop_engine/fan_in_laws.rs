//! What the fan-in manifest holds, in the terms of the task rows, and what the result
//! consists of.

use crate::clock::Timestamp;
use crate::entities::loop_artifact::{self, ArtifactKind, ArtifactStatus, ContributionKind};
use crate::entities::loop_artifact_revision::{self, ActorKind};
use crate::entities::loop_link::{self, LinkKind};
use crate::error::LoopErrorView;
use crate::loop_engine::fan_in::{
    built_manifest, done_task, gate_of, is_delta, is_no_op, lacks_commit,
    lemma_create_result_complete, lemma_order_known, linked_to_all, parsed_manifest, rank_of,
    ranked_task, result_ensured, result_of, revision_of, second, task_order, with_result,
    FanInManifestView,
};
use crate::loop_engine::EngineView;
use crate::loop_service::link::joins;
use crate::order::{law_ids_sorted, law_pairs_sorted, lemma_sorted_pairs};
use crate::table::{
    any_match, first_match, ids_ascend, lemma_filter_from, lemma_filter_ids_ascend,
    lemma_filter_order, lemma_first_match, lemma_lookup_at, lookup, TableView,
};
use crate::text::{int_digits, nat_digits};
use vstd::prelude::*;
use vstd::seq_lib::*;

verus! {

/// The members of a manifest are the tasks of its commits, in order, and then its
/// no-ops; none is dropped.
pub proof fn law_members(m: FanInManifestView)
    ensures
        m.members().len() == m.ordered.len() + m.skipped_no_op_task_ids.len(),
        forall|k: int| 0 <= k < m.ordered.len() ==> #[trigger] m.members()[k] == m.ordered[k].task_id,
        forall|k: int|
            0 <= k < m.skipped_no_op_task_ids.len() ==> m.members()[m.ordered.len() + k]
                == #[trigger] m.skipped_no_op_task_ids[k],
{
}

/// A stored manifest is taken back as it is exactly when it has no active set, or every
/// id is among its commits and no-ops as often as it is in the active set. What does not
/// decode is invalid input, with the decoder's words.
pub proof fn law_parse(m: FanInManifestView, words: Seq<char>)
    ensures
        parsed_manifest(Err(words)) == Err::<FanInManifestView, LoopErrorView>(
            LoopErrorView::InvalidInput("fan-in manifest decode: "@ + words),
        ),
        ({
            let covered = Seq::new(m.ordered.len(), |k: int| m.ordered[k].task_id)
                + m.skipped_no_op_task_ids;
            parsed_manifest(Ok(m)) == (if m.active_task_ids.len() == 0 || forall|id: i32|
                covered.to_multiset().count(id) == #[trigger] m.active_task_ids.to_multiset().count(
                    id,
                ) {
                Ok::<FanInManifestView, LoopErrorView>(m)
            } else {
                Err(
                    LoopErrorView::Git(
                        "fan-in manifest partition does not cover the active task set (resume)"@,
                    ),
                )
            })
        }),
{
    let covered = Seq::new(m.ordered.len(), |k: int| m.ordered[k].task_id)
        + m.skipped_no_op_task_ids;
    assert(covered =~= m.members());
    if forall|id: i32|
        covered.to_multiset().count(id) == #[trigger] m.active_task_ids.to_multiset().count(id) {
        assert(covered.to_multiset() =~= m.active_task_ids.to_multiset());
    }
}

/// Only a manifest without commits takes the short way, and only where the branch is at
/// the manifest's base; with the branch anywhere else it is blocked.
pub proof fn law_no_op_gate(m: FanInManifestView, tip: Seq<char>)
    ensures
        gate_of(m, tip) is NotAllNoOp <==> m.ordered.len() > 0,
        gate_of(m, tip) is FinishAtBase <==> m.ordered.len() == 0 && tip == m.issue_base_oid,
        gate_of(m, tip) is BlockMovedTip <==> m.ordered.len() == 0 && tip != m.issue_base_oid,
{
}

// ---------------------------------------------------------------------------
// Building
// ---------------------------------------------------------------------------

/// The row is a done task of the issue.
pub open spec fn finished_task(a: loop_artifact::ModelView, issue_id: i32) -> bool {
    &&& a.issue_id == issue_id
    &&& a.kind == ArtifactKind::Task
    &&& a.status == ArtifactStatus::Done
}

/// One task comes before another: by its sort number, then by its id.
pub open spec fn sorts_before(a: loop_artifact::ModelView, b: loop_artifact::ModelView) -> bool {
    a.sort < b.sort || a.sort == b.sort && a.id < b.id
}

/// The done task that the task order has at a place.
proof fn lemma_order_row(rows: Seq<loop_artifact::ModelView>, issue_id: i32, k: int) -> (t: int)
    requires
        ids_ascend::<loop_artifact::Model>(rows),
        0 <= k < task_order(rows, issue_id).len(),
    ensures
        0 <= t < rows.len(),
        finished_task(rows[t], issue_id),
        task_order(rows, issue_id)[k] == (rows[t].sort, rows[t].id),
        ranked_task(rows, task_order(rows, issue_id)[k]) == rows[t],
{
    let p = task_order(rows, issue_id)[k];
    assert(task_order(rows, issue_id).contains(p));
    lemma_order_known(rows, issue_id, p);
    choose|t: int|
        0 <= t < rows.len() && #[trigger] rows[t].id == p.1 && rows[t].sort == p.0 && done_task(
            issue_id,
        )(rows[t]) && lookup::<loop_artifact::Model>(rows, p.1) == Some(rows[t])
}

/// The place of a done task in the task order.
proof fn lemma_row_order(rows: Seq<loop_artifact::ModelView>, issue_id: i32, t: int) -> (k: int)
    requires
        ids_ascend::<loop_artifact::Model>(rows),
        0 <= t < rows.len(),
        finished_task(rows[t], issue_id),
    ensures
        0 <= k < task_order(rows, issue_id).len(),
        task_order(rows, issue_id)[k] == (rows[t].sort, rows[t].id),
        ranked_task(rows, task_order(rows, issue_id)[k]) == rows[t],
{
    let found = rows.filter(done_task(issue_id));
    let pairs = found.map_values(rank_of());
    lemma_sorted_pairs(pairs);
    rows.lemma_filter_contains(done_task(issue_id), t);
    let j = found.index_of(rows[t]);
    assert(pairs[j] == (rows[t].sort, rows[t].id));
    assert(task_order(rows, issue_id).contains((rows[t].sort, rows[t].id)));
    lemma_lookup_at::<loop_artifact::Model>(rows, t);
    task_order(rows, issue_id).index_of((rows[t].sort, rows[t].id))
}

/// The task order is strict.
proof fn lemma_order_strict(rows: Seq<loop_artifact::ModelView>, issue_id: i32, k: int, l: int)
    requires
        ids_ascend::<loop_artifact::Model>(rows),
        0 <= k < l < task_order(rows, issue_id).len(),
    ensures
        sorts_before(
            ranked_task(rows, task_order(rows, issue_id)[k]),
            ranked_task(rows, task_order(rows, issue_id)[l]),
        ),
{
    let order = task_order(rows, issue_id);
    let found = rows.filter(done_task(issue_id));
    let pairs = found.map_values(rank_of());
    lemma_sorted_pairs(pairs);
    law_pairs_sorted(pairs);
    lemma_filter_ids_ascend::<loop_artifact::Model>(rows, done_task(issue_id));
    assert(pairs.no_duplicates()) by {
        assert forall|i: int, j: int|
            0 <= i < pairs.len() && 0 <= j < pairs.len() && i != j implies pairs[i]
            != pairs[j] by {
            if i < j {
                assert(found[i].id < found[j].id);
            } else {
                assert(found[j].id < found[i].id);
            }
        }
    }
    pairs.lemma_multiset_has_no_duplicates();
    order.lemma_multiset_has_no_duplicates_conv();
    let t = lemma_order_row(rows, issue_id, k);
    let u = lemma_order_row(rows, issue_id, l);
    assert(order[k] != order[l]);
}

/// The task made a difference, and its commit is missing.
pub open spec fn commit_missing(a: loop_artifact::ModelView, issue_id: i32) -> bool {
    &&& finished_task(a, issue_id)
    &&& a.contribution_kind == ContributionKind::Delta
    &&& a.fan_in_commit is None
}

/// The manifest can be built exactly when no done task of the issue that made a
/// difference lacks its commit. If one does, the first of them, in merge order, is named.
pub proof fn law_build_open(
    rows: Seq<loop_artifact::ModelView>,
    issue_id: i32,
    base_oid: Seq<char>,
)
    requires
        ids_ascend::<loop_artifact::Model>(rows),
    ensures
        match built_manifest(rows, issue_id, base_oid) {
            Ok(_) => forall|t: int|
                0 <= t < rows.len() ==> !commit_missing(#[trigger] rows[t], issue_id),
            Err(x) => exists|t: int|
                0 <= t < rows.len() && commit_missing(#[trigger] rows[t], issue_id) && x
                    == LoopErrorView::Git(
                    "delta task "@ + int_digits(rows[t].id as int)
                        + " has no frozen commit (invariant)"@,
                ) && forall|u: int|
                    0 <= u < rows.len() && commit_missing(#[trigger] rows[u], issue_id) && u != t
                        ==> sorts_before(rows[t], rows[u]),
        },
{
    let order = task_order(rows, issue_id);
    let bad = lacks_commit(rows);
    lemma_first_match(order, bad);
    match first_match(order, bad) {
        Some(k) => {
            let t = lemma_order_row(rows, issue_id, k);
            assert(bad(order[k]));
            assert forall|u: int|
                0 <= u < rows.len() && commit_missing(#[trigger] rows[u], issue_id) && u
                    != t implies sorts_before(rows[t], rows[u]) by {
                let l = lemma_row_order(rows, issue_id, u);
                assert(bad(order[l]));
                lemma_lookup_at::<loop_artifact::Model>(rows, t);
                lemma_lookup_at::<loop_artifact::Model>(rows, u);
                if k < l {
                    lemma_order_strict(rows, issue_id, k, l);
                }
            }
            assert(commit_missing(rows[t], issue_id));
        },
        None => {
            assert forall|t: int| 0 <= t < rows.len() implies !commit_missing(
                #[trigger] rows[t],
                issue_id,
            ) by {
                if commit_missing(rows[t], issue_id) {
                    let l = lemma_row_order(rows, issue_id, t);
                    assert(bad(order[l]));
                }
            }
        },
    }
}

/// A manifest is built in version 2, on the base that it was given.
pub proof fn law_manifest_head(
    rows: Seq<loop_artifact::ModelView>,
    issue_id: i32,
    base_oid: Seq<char>,
)
    ensures
        match built_manifest(rows, issue_id, base_oid) {
            Ok(m) => m.v == 2 && m.issue_base_oid == base_oid,
            Err(_) => true,
        },
{
}

/// Each commit of the manifest is that of a done task of the issue that made a
/// difference, under its id.
pub proof fn law_manifest_commits(
    rows: Seq<loop_artifact::ModelView>,
    issue_id: i32,
    base_oid: Seq<char>,
    k: int,
)
    requires
        ids_ascend::<loop_artifact::Model>(rows),
        built_manifest(rows, issue_id, base_oid) is Ok,
        0 <= k < built_manifest(rows, issue_id, base_oid)->Ok_0.ordered.len(),
    ensures
        exists|t: int|
            0 <= t < rows.len() && finished_task(#[trigger] rows[t], issue_id)
                && rows[t].contribution_kind == ContributionKind::Delta && rows[t].fan_in_commit
                == Some(built_manifest(rows, issue_id, base_oid)->Ok_0.ordered[k].sha)
                && rows[t].id == built_manifest(rows, issue_id, base_oid)->Ok_0.ordered[k].task_id,
{
    let order = task_order(rows, issue_id);
    law_build_open(rows, issue_id, base_oid);
    lemma_filter_from(order, is_delta(rows), k);
    let j = choose|j: int|
        0 <= j < order.len() && #[trigger] order[j] == order.filter(is_delta(rows))[k];
    let t = lemma_order_row(rows, issue_id, j);
    assert(!commit_missing(rows[t], issue_id));
}

/// Each done task of the issue is in the manifest: with its commit where it made a
/// difference, and among the skipped ones where it was a no-op.
pub proof fn law_manifest_is_complete(
    rows: Seq<loop_artifact::ModelView>,
    issue_id: i32,
    base_oid: Seq<char>,
    t: int,
)
    requires
        ids_ascend::<loop_artifact::Model>(rows),
        built_manifest(rows, issue_id, base_oid) is Ok,
        0 <= t < rows.len(),
        finished_task(rows[t], issue_id),
    ensures
        ({
            let m = built_manifest(rows, issue_id, base_oid)->Ok_0;
            match rows[t].contribution_kind {
                ContributionKind::Delta => exists|k: int|
                    0 <= k < m.ordered.len() && (#[trigger] m.ordered[k]).task_id == rows[t].id
                        && Some(m.ordered[k].sha) == rows[t].fan_in_commit,
                ContributionKind::NoOp => exists|k: int|
                    0 <= k < m.skipped_no_op_task_ids.len()
                        && #[trigger] m.skipped_no_op_task_ids[k] == rows[t].id,
            }
        }),
{
    let m = built_manifest(rows, issue_id, base_oid)->Ok_0;
    let order = task_order(rows, issue_id);
    law_build_open(rows, issue_id, base_oid);
    assert(!commit_missing(rows[t], issue_id));
    let j = lemma_row_order(rows, issue_id, t);
    match rows[t].contribution_kind {
        ContributionKind::Delta => {
            order.lemma_filter_contains(is_delta(rows), j);
            let k = order.filter(is_delta(rows)).index_of(order[j]);
            assert(m.ordered[k].task_id == rows[t].id);
        },
        ContributionKind::NoOp => {
            order.lemma_filter_contains(is_no_op(rows), j);
            let k = order.filter(is_no_op(rows)).index_of(order[j]);
            assert(m.skipped_no_op_task_ids[k] == rows[t].id);
        },
    }
}

/// The commits are in merge order: by the sort numbers of their tasks, then by the ids.
pub proof fn law_manifest_order(
    rows: Seq<loop_artifact::ModelView>,
    issue_id: i32,
    base_oid: Seq<char>,
    k: int,
    l: int,
    t: int,
    u: int,
)
    requires
        ids_ascend::<loop_artifact::Model>(rows),
        built_manifest(rows, issue_id, base_oid) is Ok,
        0 <= k < l < built_manifest(rows, issue_id, base_oid)->Ok_0.ordered.len(),
        0 <= t < rows.len(),
        0 <= u < rows.len(),
        rows[t].id == built_manifest(rows, issue_id, base_oid)->Ok_0.ordered[k].task_id,
        rows[u].id == built_manifest(rows, issue_id, base_oid)->Ok_0.ordered[l].task_id,
    ensures
        sorts_before(rows[t], rows[u]),
{
    let order = task_order(rows, issue_id);
    let kept = order.filter(is_delta(rows));
    lemma_filter_order(order, is_delta(rows), k, l);
    let (i, j) = choose|i: int, j: int|
        0 <= i < j < order.len() && #[trigger] order[i] == kept[k] && #[trigger] order[j]
            == kept[l];
    lemma_lookup_at::<loop_artifact::Model>(rows, t);
    lemma_lookup_at::<loop_artifact::Model>(rows, u);
    lemma_order_strict(rows, issue_id, i, j);
}

/// Each skipped task is a done task of the issue that was a no-op; they are in the order
/// of their sort numbers and ids, and none is listed twice.
pub proof fn law_manifest_skips(
    rows: Seq<loop_artifact::ModelView>,
    issue_id: i32,
    base_oid: Seq<char>,
    k: int,
)
    requires
        ids_ascend::<loop_artifact::Model>(rows),
        built_manifest(rows, issue_id, base_oid) is Ok,
        0 <= k < built_manifest(rows, issue_id, base_oid)->Ok_0.skipped_no_op_task_ids.len(),
    ensures
        ({
            let m = built_manifest(rows, issue_id, base_oid)->Ok_0;
            exists|t: int|
                0 <= t < rows.len() && finished_task(#[trigger] rows[t], issue_id)
                    && rows[t].contribution_kind == ContributionKind::NoOp && rows[t].id
                    == m.skipped_no_op_task_ids[k] && forall|l: int, u: int|
                    #![trigger m.skipped_no_op_task_ids[l], rows[u]]
                    k < l < m.skipped_no_op_task_ids.len() && 0 <= u < rows.len() && rows[u].id
                        == m.skipped_no_op_task_ids[l] ==> sorts_before(rows[t], rows[u])
        }),
{
    let m = built_manifest(rows, issue_id, base_oid)->Ok_0;
    let order = task_order(rows, issue_id);
    let no_op = is_no_op(rows);
    let kept = order.filter(no_op);
    lemma_filter_from(order, no_op, k);
    let j = choose|j: int| 0 <= j < order.len() && #[trigger] order[j] == kept[k];
    let t = lemma_order_row(rows, issue_id, j);
    assert forall|l: int, u: int|
        #![trigger m.skipped_no_op_task_ids[l], rows[u]]
        k < l < m.skipped_no_op_task_ids.len() && 0 <= u < rows.len() && rows[u].id
            == m.skipped_no_op_task_ids[l] implies sorts_before(rows[t], rows[u]) by {
        lemma_filter_order(order, no_op, k, l);
        let (x, y) = choose|x: int, y: int|
            0 <= x < y < order.len() && #[trigger] order[x] == kept[k] && #[trigger] order[y]
                == kept[l];
        lemma_lookup_at::<loop_artifact::Model>(rows, t);
        lemma_lookup_at::<loop_artifact::Model>(rows, u);
        lemma_order_strict(rows, issue_id, x, y);
    }
}

/// The active set is the ids of the done tasks of the issue, ascending.
pub proof fn law_manifest_active(
    rows: Seq<loop_artifact::ModelView>,
    issue_id: i32,
    base_oid: Seq<char>,
    id: i32,
)
    requires
        ids_ascend::<loop_artifact::Model>(rows),
        built_manifest(rows, issue_id, base_oid) is Ok,
    ensures
        ({
            let m = built_manifest(rows, issue_id, base_oid)->Ok_0;
            &&& forall|k: int, l: int|
                0 <= k < l < m.active_task_ids.len() ==> #[trigger] m.active_task_ids[k]
                    <= #[trigger] m.active_task_ids[l]
            &&& m.active_task_ids.contains(id) <==> exists|t: int|
                0 <= t < rows.len() && finished_task(#[trigger] rows[t], issue_id) && rows[t].id
                    == id
        }),
{
    broadcast use group_to_multiset_ensures;

    let m = built_manifest(rows, issue_id, base_oid)->Ok_0;
    let order = task_order(rows, issue_id);
    let ids = order.map_values(second());
    law_ids_sorted(ids);
    assert(m.active_task_ids.to_multiset().count(id) == ids.to_multiset().count(id));
    if m.active_task_ids.contains(id) {
        assert(ids.contains(id));
        let j = ids.index_of(id);
        let t = lemma_order_row(rows, issue_id, j);
        assert(rows[t].id == id);
    }
    if exists|t: int|
        0 <= t < rows.len() && finished_task(#[trigger] rows[t], issue_id) && rows[t].id == id {
        let t = choose|t: int|
            0 <= t < rows.len() && finished_task(#[trigger] rows[t], issue_id) && rows[t].id == id;
        let j = lemma_row_order(rows, issue_id, t);
        assert(ids[j] == id);
    }
}

// ---------------------------------------------------------------------------
// The result
// ---------------------------------------------------------------------------

/// The result of an issue: an artifact that is one already is taken, and then no
/// artifact changes; else one is added, done, made by an agent, titled `Result`.
pub proof fn law_result_row(
    e: EngineView,
    space_id: i32,
    issue_id: i32,
    tasks: Seq<i32>,
    now: Timestamp,
)
    ensures
        ({
            let a = with_result(e, space_id, issue_id, tasks, now);
            if exists|k: int|
                0 <= k < e.artifacts.rows.len() && (#[trigger] e.artifacts.rows[k]).issue_id
                    == issue_id && e.artifacts.rows[k].kind == ArtifactKind::Result {
                a.artifacts == e.artifacts
            } else {
                a.artifacts.rows == e.artifacts.rows.push(
                    loop_artifact::ModelView {
                        id: e.artifacts.next_id,
                        space_id,
                        issue_id,
                        kind: ArtifactKind::Result,
                        title: "Result"@,
                        status: ArtifactStatus::Done,
                        origin: ActorKind::Agent,
                        produced_by_iteration_id: None,
                        verdict: None,
                        attempt: 0,
                        last_failure_sig: None,
                        fan_in_commit: None,
                        sort: 0,
                        created_at: now,
                        updated_at: now,
                        contribution_kind: ContributionKind::Delta,
                        oscillation_count: 0,
                        recent_failure_sig: None,
                    },
                )
            }
        }),
        ({
            let a = with_result(e, space_id, issue_id, tasks, now);
            a == (EngineView {
                artifacts: a.artifacts,
                revisions: a.revisions,
                links: a.links,
                ..e
            })
        }),
{
    lemma_result(e.artifacts.rows, issue_id);
}

proof fn lemma_result(rows: Seq<loop_artifact::ModelView>, issue_id: i32)
    ensures
        match first_match(rows, result_of(issue_id)) {
            Some(k) => 0 <= k < rows.len() && rows[k].issue_id == issue_id && rows[k].kind
                == ArtifactKind::Result && forall|j: int|
                0 <= j < k ==> !((#[trigger] rows[j]).issue_id == issue_id && rows[j].kind
                    == ArtifactKind::Result),
            None => forall|j: int|
                0 <= j < rows.len() ==> !((#[trigger] rows[j]).issue_id == issue_id && rows[j].kind
                    == ArtifactKind::Result),
        },
{
    let cond = result_of(issue_id);
    lemma_first_match(rows, cond);
    assert(forall|v: loop_artifact::ModelView| #[trigger]
        cond(v) == (v.issue_id == issue_id && v.kind == ArtifactKind::Result));
    match first_match(rows, cond) {
        Some(k) => {
            assert(cond(rows[k]));
            assert forall|j: int| 0 <= j < k implies !((#[trigger] rows[j]).issue_id == issue_id
                && rows[j].kind == ArtifactKind::Result) by {
                assert(!cond(rows[j]));
            }
        },
        None => {
            assert forall|j: int| 0 <= j < rows.len() implies !((#[trigger] rows[j]).issue_id
                == issue_id && rows[j].kind == ArtifactKind::Result) by {
                assert(!cond(rows[j]));
            }
        },
    }
}

/// What hangs on the result with the id `id`, which is the first result of the issue
/// that is there, or the one that was added. It has a revision; where it had none, one
/// by an agent is added that says how many tasks were integrated. It has an edge
/// `ResultsFrom` to each of the tasks; each edge that is added is such an edge. What was
/// there stays.
pub proof fn law_result_parts(
    e: EngineView,
    space_id: i32,
    issue_id: i32,
    tasks: Seq<i32>,
    id: i32,
    now: Timestamp,
)
    requires
        (exists|k: int|
            0 <= k < e.artifacts.rows.len() && (#[trigger] e.artifacts.rows[k]).issue_id
                == issue_id && e.artifacts.rows[k].kind == ArtifactKind::Result
                && e.artifacts.rows[k].id == id && forall|j: int|
                0 <= j < k ==> !((#[trigger] e.artifacts.rows[j]).issue_id == issue_id
                    && e.artifacts.rows[j].kind == ArtifactKind::Result)) || (id
            == e.artifacts.next_id && forall|k: int|
            0 <= k < e.artifacts.rows.len() ==> !((#[trigger] e.artifacts.rows[k]).issue_id
                == issue_id && e.artifacts.rows[k].kind == ArtifactKind::Result)),
    ensures
        ({
            let a = with_result(e, space_id, issue_id, tasks, now);
            let had = exists|k: int|
                0 <= k < e.revisions.rows.len() && (#[trigger] e.revisions.rows[k]).artifact_id
                    == id;
            &&& had ==> a.revisions == e.revisions
            &&& !had ==> a.revisions.rows == e.revisions.rows.push(
                loop_artifact_revision::ModelView {
                    id: e.revisions.next_id,
                    artifact_id: id,
                    content: "Integrated "@ + nat_digits(tasks.len())
                        + " parallel task(s) into the issue branch."@,
                    actor_kind: ActorKind::Agent,
                    produced_by_iteration_id: None,
                    created_at: now,
                },
            )
            &&& a.links.rows.len() >= e.links.rows.len()
            &&& forall|k: int|
                0 <= k < e.links.rows.len() ==> #[trigger] a.links.rows[k] == e.links.rows[k]
            &&& forall|k: int|
                e.links.rows.len() <= k < a.links.rows.len() ==> {
                    let l = #[trigger] a.links.rows[k];
                    &&& l.space_id == space_id
                    &&& l.from_artifact_id == id
                    &&& tasks.contains(l.to_artifact_id)
                    &&& l.kind == LinkKind::ResultsFrom
                    &&& l.source_revision_id is None
                    &&& l.created_at == now
                }
            &&& forall|n: int|
                0 <= n < tasks.len() ==> exists|k: int|
                    0 <= k < a.links.rows.len() && (#[trigger] a.links.rows[k]).from_artifact_id
                        == id && a.links.rows[k].to_artifact_id == #[trigger] tasks[n]
                        && a.links.rows[k].kind == LinkKind::ResultsFrom
        }),
{
    let a = with_result(e, space_id, issue_id, tasks, now);
    lemma_result(e.artifacts.rows, issue_id);
    assert(result_ensured(e.artifacts, space_id, issue_id, now).1 == id);
    lemma_create_result_complete(e, space_id, issue_id, tasks, now);
    lemma_links_made(e.links, space_id, id, tasks, now);
    let rows = e.revisions.rows;
    if any_match(rows, revision_of(id)) {
        let k = choose|k: int| 0 <= k < rows.len() && revision_of(id)(#[trigger] rows[k]);
        assert(rows[k].artifact_id == id);
    }
    if exists|k: int| 0 <= k < rows.len() && (#[trigger] rows[k]).artifact_id == id {
        let k = choose|k: int| 0 <= k < rows.len() && (#[trigger] rows[k]).artifact_id == id;
        assert(revision_of(id)(rows[k]));
    }
    assert forall|n: int| 0 <= n < tasks.len() implies exists|k: int|
        0 <= k < a.links.rows.len() && (#[trigger] a.links.rows[k]).from_artifact_id == id
            && a.links.rows[k].to_artifact_id == #[trigger] tasks[n] && a.links.rows[k].kind
            == LinkKind::ResultsFrom by {
        let c = joins(id, tasks[n], LinkKind::ResultsFrom);
        assert(any_match(a.links.rows, c));
        let k = choose|k: int| 0 <= k < a.links.rows.len() && c(#[trigger] a.links.rows[k]);
        assert(a.links.rows[k].from_artifact_id == id);
    }
}

proof fn lemma_links_made(
    t: TableView<loop_link::Model>,
    space_id: i32,
    from: i32,
    tasks: Seq<i32>,
    now: Timestamp,
)
    ensures
        ({
            let u = linked_to_all(t, space_id, from, tasks, now);
            &&& u.rows.len() >= t.rows.len()
            &&& forall|k: int| 0 <= k < t.rows.len() ==> #[trigger] u.rows[k] == t.rows[k]
            &&& forall|k: int|
                t.rows.len() <= k < u.rows.len() ==> (#[trigger] u.rows[k]).space_id == space_id
                    && u.rows[k].source_revision_id is None && u.rows[k].created_at == now
        }),
    decreases tasks.len(),
{
    if tasks.len() > 0 {
        lemma_links_made(t, space_id, from, tasks.drop_last(), now);
    }
}

} // verus!
