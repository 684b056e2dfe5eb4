//! What each step of the result stage answers and changes, in the terms of the rows that
//! it reads and of what was handed back.

use crate::clock::Timestamp;
use crate::entities::loop_inbox_item::InboxKind;
use crate::entities::loop_issue::{self, IssueStatus};
use crate::entities::loop_iteration::{IterationStatus, Stage};
use crate::entities::{folder, loop_space};
use crate::error::{LoopError, LoopErrorView};
use crate::json::JsonView;
use crate::loop_engine::actions::in_flight;
use crate::loop_engine::fan_in::{
    built_manifest, decoded_view, parsed_manifest, with_result, FanInManifest,
};
use crate::loop_engine::finalize::{
    completed, fan_in_blocked, finalize_step, finished, session_closed, FanInOutcome, FanInSession,
    FanInSessionView, FanInStart, FanInStartView, FanInTree, FanInTreeView, FinalizeActionView,
    FinalizeEvent, StepOutcome,
};
use crate::loop_engine::merge::DispatchInput;
use crate::loop_engine::terms::{
    announcement, colon_key, issue_branch, lemma_announcement, lemma_branch, lemma_key, two_members,
};
use crate::loop_engine::{EffectView, EngineView};
use crate::loop_service::inbox::upserted;
use crate::table::{any_match, lemma_lookup, lemma_lookup_at, position, TableView};
use crate::text::int_digits;
use vstd::prelude::*;

verus! {

/// Handing on an error ends the tick and changes nothing.
pub open spec fn ended_by(e: EngineView, x: LoopErrorView) -> (EngineView, FinalizeActionView) {
    (e, FinalizeActionView::Return(Err(x)))
}

/// The issue has work in flight: an iteration of it that is queued or running.
pub open spec fn busy(e: EngineView, issue_id: i32) -> bool {
    exists|k: int|
        0 <= k < e.iterations.rows.len() && (#[trigger] e.iterations.rows[k]).issue_id == issue_id
            && (e.iterations.rows[k].status == IterationStatus::Queued
            || e.iterations.rows[k].status == IterationStatus::Running)
}

proof fn lemma_busy(e: EngineView, issue_id: i32)
    ensures
        any_match(e.iterations.rows, in_flight(issue_id)) == busy(e, issue_id),
{
    let rows = e.iterations.rows;
    if any_match(rows, in_flight(issue_id)) {
        let k = choose|k: int| 0 <= k < rows.len() && in_flight(issue_id)(#[trigger] rows[k]);
        assert(rows[k].issue_id == issue_id);
    }
    if busy(e, issue_id) {
        let k = choose|k: int|
            0 <= k < rows.len() && (#[trigger] rows[k]).issue_id == issue_id && (rows[k].status
                == IterationStatus::Queued || rows[k].status == IterationStatus::Running);
        assert(in_flight(issue_id)(rows[k]));
    }
}

/// A tick begins. It waits exactly while the issue has work in flight. Else the tick is
/// for this issue, with its space, its number there and the resolver tip it recorded, in
/// the repository of its space; a stored manifest is decoded, and without one the head of
/// the issue's worktree is read. Nothing changes.
pub proof fn law_tick(
    e: EngineView,
    i: int,
    s: int,
    f: int,
    w: int,
    now: Timestamp,
)
    requires
        e.wf(),
        0 <= i < e.issues.rows.len(),
        0 <= s < e.spaces.rows.len(),
        e.spaces.rows[s].id == e.issues.rows[i].space_id,
        0 <= f < e.folders.rows.len(),
        e.folders.rows[f].id == e.spaces.rows[s].folder_id,
        0 <= w < e.folders.rows.len(),
    ensures
        ({
            let row = e.issues.rows[i];
            let tree = e.folders.rows[w];
            let start = FanInStartView {
                issue_id: row.id,
                space_id: row.space_id,
                seq_no: row.seq_no,
                worktree_folder_id: tree.id,
                repo_path: e.folders.rows[f].path,
                resolver_tip: row.fan_in_resolver_tip,
            };
            finalize_step(
                e,
                FinalizeEvent::Tick { issue_id: row.id, worktree_folder_id: tree.id },
                now,
            ) == (if busy(e, row.id) {
                (e, FinalizeActionView::Return(Ok(StepOutcome::Idle)))
            } else if e.folders.rows[f].deleted_at is Some {
                ended_by(e, LoopErrorView::Detached)
            } else if row.fan_in_manifest is Some {
                (
                    e,
                    FinalizeActionView::DecodeManifest {
                        start,
                        json: row.fan_in_manifest->Some_0,
                    },
                )
            } else if tree.deleted_at is Some {
                ended_by(
                    e,
                    LoopErrorView::NotFound("worktree folder "@ + int_digits(tree.id as int)),
                )
            } else {
                (e, FinalizeActionView::ReadBase { start, path: tree.path })
            })
        }),
{
    lemma_busy(e, e.issues.rows[i].id);
    lemma_lookup_at::<loop_issue::Model>(e.issues.rows, i);
    lemma_lookup_at::<loop_space::Model>(e.spaces.rows, s);
    lemma_lookup_at::<folder::Model>(e.folders.rows, f);
    lemma_lookup_at::<folder::Model>(e.folders.rows, w);
}

/// What is missing when a tick begins is named, and nothing changes: the issue, and,
/// where nothing is in flight, the space, its folder, and, without a stored manifest,
/// the folder of the worktree.
pub proof fn law_tick_missing(e: EngineView, issue_id: i32, folder_id: i32, now: Timestamp)
    requires
        e.wf(),
    ensures
        ({
            let r = finalize_step(
                e,
                FinalizeEvent::Tick { issue_id, worktree_folder_id: folder_id },
                now,
            );
            &&& (forall|i: int|
                0 <= i < e.issues.rows.len() ==> (#[trigger] e.issues.rows[i]).id != issue_id)
                ==> r == ended_by(
                e,
                LoopErrorView::NotFound("issue "@ + int_digits(issue_id as int)),
            )
            &&& forall|i: int|
                0 <= i < e.issues.rows.len() && (#[trigger] e.issues.rows[i]).id == issue_id
                    && !busy(e, issue_id) && (forall|s: int|
                    0 <= s < e.spaces.rows.len() ==> (#[trigger] e.spaces.rows[s]).id
                        != e.issues.rows[i].space_id) ==> r == ended_by(
                    e,
                    LoopErrorView::NotFound(
                        "space "@ + int_digits(e.issues.rows[i].space_id as int),
                    ),
                )
            &&& forall|i: int, s: int|
                #![trigger e.issues.rows[i], e.spaces.rows[s]]
                0 <= i < e.issues.rows.len() && e.issues.rows[i].id == issue_id && 0 <= s
                    < e.spaces.rows.len() && e.spaces.rows[s].id == e.issues.rows[i].space_id
                    && !busy(e, issue_id) && (forall|f: int|
                    0 <= f < e.folders.rows.len() ==> (#[trigger] e.folders.rows[f]).id
                        != e.spaces.rows[s].folder_id) ==> r == ended_by(
                    e,
                    LoopErrorView::Detached,
                )
            &&& forall|i: int, s: int, f: int|
                #![trigger e.issues.rows[i], e.spaces.rows[s], e.folders.rows[f]]
                0 <= i < e.issues.rows.len() && e.issues.rows[i].id == issue_id && 0 <= s
                    < e.spaces.rows.len() && e.spaces.rows[s].id == e.issues.rows[i].space_id && 0
                    <= f < e.folders.rows.len() && e.folders.rows[f].id
                    == e.spaces.rows[s].folder_id && e.folders.rows[f].deleted_at is None && !busy(
                    e,
                    issue_id,
                ) && e.issues.rows[i].fan_in_manifest is None && (forall|g: int|
                    0 <= g < e.folders.rows.len() ==> (#[trigger] e.folders.rows[g]).id
                        != folder_id) ==> r == ended_by(
                    e,
                    LoopErrorView::NotFound("worktree folder "@ + int_digits(folder_id as int)),
                )
        }),
{
    lemma_busy(e, issue_id);
    lemma_lookup::<loop_issue::Model>(e.issues.rows, issue_id);
    lemma_lookup::<folder::Model>(e.folders.rows, folder_id);
    assert forall|i: int|
        0 <= i < e.issues.rows.len() && (#[trigger] e.issues.rows[i]).id
            == issue_id implies position::<loop_issue::Model>(e.issues.rows, issue_id) == Some(
        i,
    ) by {
        lemma_lookup_at::<loop_issue::Model>(e.issues.rows, i);
    }
    if let Some(i) = position::<loop_issue::Model>(e.issues.rows, issue_id) {
        lemma_lookup::<loop_space::Model>(e.spaces.rows, e.issues.rows[i].space_id);
        assert forall|s: int|
            0 <= s < e.spaces.rows.len() && (#[trigger] e.spaces.rows[s]).id
                == e.issues.rows[i].space_id implies position::<loop_space::Model>(
            e.spaces.rows,
            e.issues.rows[i].space_id,
        ) == Some(s) by {
            lemma_lookup_at::<loop_space::Model>(e.spaces.rows, s);
        }
        if let Some(s) = position::<loop_space::Model>(e.spaces.rows, e.issues.rows[i].space_id) {
            lemma_lookup::<folder::Model>(e.folders.rows, e.spaces.rows[s].folder_id);
            assert forall|f: int|
                0 <= f < e.folders.rows.len() && (#[trigger] e.folders.rows[f]).id
                    == e.spaces.rows[s].folder_id implies position::<folder::Model>(
                e.folders.rows,
                e.spaces.rows[s].folder_id,
            ) == Some(f) by {
                lemma_lookup_at::<folder::Model>(e.folders.rows, f);
            }
        }
    }
}

/// From a manifest to its session: a stored text with the manifest it holds, or a new
/// manifest built for this issue from its task rows and the head that was read; what
/// cannot be read or built ends the tick. Nothing changes.
pub proof fn law_session(
    e: EngineView,
    start: FanInStart,
    json: String,
    decoded: Result<FanInManifest, String>,
    head: String,
    x: LoopError,
    now: Timestamp,
)
    ensures
        finalize_step(e, FinalizeEvent::ManifestDecoded { start, json, decoded }, now) == (
        match parsed_manifest(decoded_view(decoded)) {
            Ok(manifest) => (
                e,
                FinalizeActionView::EnsureIntegrate {
                    session: FanInSessionView { start: start@, manifest, manifest_json: json@ },
                },
            ),
            Err(err) => ended_by(e, err),
        }),
        finalize_step(e, FinalizeEvent::BaseRead { start, head: Ok(head) }, now) == (
        match built_manifest(e.artifacts.rows, start.issue_id, head@) {
            Ok(manifest) => (e, FinalizeActionView::EncodeManifest { start: start@, manifest }),
            Err(err) => ended_by(e, err),
        }),
        finalize_step(e, FinalizeEvent::BaseRead { start, head: Err(x) }, now) == ended_by(e, x@),
{
}

/// A new manifest is stored on the issue exactly when the issue has none; nothing else
/// of the issue changes but its time stamp. Where it has one, that one is decoded, and
/// nothing changes. One that cannot be encoded is invalid input.
pub proof fn law_claim(
    e: EngineView,
    start: FanInStart,
    manifest: FanInManifest,
    json: String,
    i: int,
    now: Timestamp,
)
    requires
        e.wf(),
        0 <= i < e.issues.rows.len(),
        e.issues.rows[i].id == start.issue_id,
    ensures
        finalize_step(
            e,
            FinalizeEvent::ManifestEncoded { start, manifest, encoded: Ok(json) },
            now,
        ) == (match e.issues.rows[i].fan_in_manifest {
            None => (
                EngineView {
                    issues: TableView {
                        rows: e.issues.rows.update(
                            i,
                            loop_issue::ModelView {
                                fan_in_manifest: Some(json@),
                                updated_at: now,
                                ..e.issues.rows[i]
                            },
                        ),
                        next_id: e.issues.next_id,
                    },
                    ..e
                },
                FinalizeActionView::EnsureIntegrate {
                    session: FanInSessionView {
                        start: start@,
                        manifest: manifest@,
                        manifest_json: json@,
                    },
                },
            ),
            Some(stored) => (
                e,
                FinalizeActionView::DecodeManifest { start: start@, json: stored },
            ),
        }),
        finalize_step(
            e,
            FinalizeEvent::ManifestEncoded { start, manifest, encoded: Err(json) },
            now,
        ) == ended_by(e, LoopErrorView::InvalidInput("fan-in manifest encode: "@ + json@)),
{
    lemma_lookup_at::<loop_issue::Model>(e.issues.rows, i);
}

/// A manifest for an issue that is gone is not stored.
pub proof fn law_claim_vanished(
    e: EngineView,
    start: FanInStart,
    manifest: FanInManifest,
    json: String,
    now: Timestamp,
)
    requires
        forall|i: int|
            0 <= i < e.issues.rows.len() ==> (#[trigger] e.issues.rows[i]).id != start.issue_id,
    ensures
        finalize_step(
            e,
            FinalizeEvent::ManifestEncoded { start, manifest, encoded: Ok(json) },
            now,
        ) == ended_by(e, LoopErrorView::Git("fan-in manifest vanished after a lost claim"@)),
{
    lemma_lookup::<loop_issue::Model>(e.issues.rows, start.issue_id);
}

/// The branch whose tip is read, and onto which an integrated tip is landed, is that of
/// the issue: `loop/{space}/issue-{number}`.
pub proof fn law_issue_branch(
    e: EngineView,
    session: FanInSession,
    path: String,
    folder_id: i32,
    tree: FanInTree,
    tip: String,
    now: Timestamp,
)
    ensures
        finalize_step(
            e,
            FinalizeEvent::IntegrateReady { session, integrate: Ok((path, folder_id)) },
            now,
        ) == (
            e,
            FinalizeActionView::ResolveTip {
                tree: FanInTreeView {
                    session: session@,
                    integrate_path: path@,
                    integrate_folder_id: folder_id,
                },
                branch: issue_branch(session.start.space_id, session.start.seq_no),
            },
        ),
        finalize_step(
            e,
            FinalizeEvent::TasksMerged { tree, outcome: Ok(FanInOutcome::Integrated { tip }) },
            now,
        ) == (
            e,
            FinalizeActionView::AdvanceBranch {
                tree: tree@,
                branch: issue_branch(
                    tree.session.start.space_id,
                    tree.session.start.seq_no,
                ),
                tip: tip@,
            },
        ),
{
    lemma_branch(session.start.space_id, session.start.seq_no);
    lemma_branch(tree.session.start.space_id, tree.session.start.seq_no);
}

/// The tip of the issue branch is known. Without commits to merge: at the manifest's base
/// the session is finished, elsewhere the issue is blocked under
/// `fan_in_all_no_op_unexpected_tip:`. With commits: a branch that has moved from the base
/// is first searched for them, from the first on; one at its base has its integrate
/// worktree looked at.
pub proof fn law_tip(e: EngineView, tree: FanInTree, tip: String, now: Timestamp)
    ensures
        ({
            let m = tree@.session.manifest;
            finalize_step(e, FinalizeEvent::TipResolved { tree, found: Ok(tip) }, now) == (
            if m.ordered.len() == 0 && tip@ == m.issue_base_oid {
                finished(e, tree@, now)
            } else if m.ordered.len() == 0 {
                fan_in_blocked(
                    e,
                    tree@.session.start,
                    "fan_in_all_no_op_unexpected_tip"@,
                    "every task declared a no-op but the issue branch advanced past its base"@,
                    now,
                )
            } else if tip@ == m.issue_base_oid {
                (e, FinalizeActionView::CheckInProgress { tree: tree@ })
            } else {
                (e, FinalizeActionView::CheckAncestor { tree: tree@, tip: tip@, index: 0 })
            })
        }),
{
}

/// A commit that is not on the branch sends the tick on to the merge; one that is, to
/// the next commit, and the last one to the finish.
pub proof fn law_ancestor(
    e: EngineView,
    tree: FanInTree,
    tip: String,
    index: usize,
    now: Timestamp,
)
    requires
        index < tree@.session.manifest.ordered.len(),
    ensures
        finalize_step(
            e,
            FinalizeEvent::AncestorChecked { tree, tip, index, is_ancestor: Ok(false) },
            now,
        ) == (e, FinalizeActionView::CheckInProgress { tree: tree@ }),
        finalize_step(
            e,
            FinalizeEvent::AncestorChecked { tree, tip, index, is_ancestor: Ok(true) },
            now,
        ) == (if index == tree@.session.manifest.ordered.len() - 1 {
            finished(e, tree@, now)
        } else {
            (
                e,
                FinalizeActionView::CheckAncestor {
                    tree: tree@,
                    tip: tip@,
                    index: (index + 1) as usize,
                },
            )
        }),
{
}

/// A merge in progress has its head read, to be resumed; otherwise the integrate worktree
/// is reset, and then the commits are merged in it. A merge that conflicts has the head
/// read too, as a fresh one; one whose result fails validation blocks the issue under
/// `fan_in_revalidation_failed:`. No other step changes anything.
pub proof fn law_integrate(e: EngineView, tree: FanInTree, now: Timestamp)
    ensures
        finalize_step(e, FinalizeEvent::InProgressChecked { tree, in_progress: true }, now) == (
            e,
            FinalizeActionView::ReadIntegrateHead { tree: tree@, resumed: true },
        ),
        finalize_step(e, FinalizeEvent::InProgressChecked { tree, in_progress: false }, now) == (
            e,
            FinalizeActionView::ResetIntegrate { tree: tree@ },
        ),
        finalize_step(e, FinalizeEvent::IntegrateReset { tree, result: Ok(()) }, now) == (
            e,
            FinalizeActionView::MergeTasks { tree: tree@ },
        ),
        finalize_step(
            e,
            FinalizeEvent::TasksMerged { tree, outcome: Ok(FanInOutcome::Conflict) },
            now,
        ) == (e, FinalizeActionView::ReadIntegrateHead { tree: tree@, resumed: false }),
        finalize_step(
            e,
            FinalizeEvent::TasksMerged { tree, outcome: Ok(FanInOutcome::RevalidationFailed) },
            now,
        ) == fan_in_blocked(
            e,
            tree@.session.start,
            "fan_in_revalidation_failed"@,
            "the integrated tree failed re-validation; the task combination broke"@,
            now,
        ),
{
}

/// A conflict is handed to an agent that runs for the issue whose tick it is, in that
/// issue's space, as a finalize run in the integrate worktree's folder, without a target
/// or slot. The tip it starts from is recorded on the issue, and nothing else changes.
/// Only a merge that was found in progress at the very tip that is recorded already
/// blocks the issue instead, under `fan_in_conflict_unresolved:`.
pub proof fn law_conflict_is_handed_over(
    e: EngineView,
    tree: FanInTree,
    resumed: bool,
    head: String,
    i: int,
    now: Timestamp,
)
    requires
        e.wf(),
        0 <= i < e.issues.rows.len(),
        e.issues.rows[i].id == tree.session.start.issue_id,
    ensures
        ({
            let start = tree.session.start;
            finalize_step(
                e,
                FinalizeEvent::IntegrateHeadRead { tree, resumed, head: Ok(head) },
                now,
            ) == (if resumed && start.resolver_tip is Some && start.resolver_tip->Some_0@
                == head@ {
                fan_in_blocked(
                    e,
                    start@,
                    "fan_in_conflict_unresolved"@,
                    "a fan-in merge conflict was left unresolved by the result-stage agent"@,
                    now,
                )
            } else {
                (
                    EngineView {
                        issues: TableView {
                            rows: e.issues.rows.update(
                                i,
                                loop_issue::ModelView {
                                    fan_in_resolver_tip: Some(head@),
                                    updated_at: now,
                                    ..e.issues.rows[i]
                                },
                            ),
                            next_id: e.issues.next_id,
                        },
                        ..e
                    },
                    FinalizeActionView::DispatchResolver(
                        DispatchInput {
                            space_id: start.space_id,
                            issue_id: start.issue_id,
                            stage: Stage::Finalize,
                            target_artifact_id: None,
                            slot_no: None,
                            attempt: 0,
                            worktree_folder_id: tree.integrate_folder_id,
                        },
                    ),
                )
            })
        }),
{
    lemma_lookup_at::<loop_issue::Model>(e.issues.rows, i);
}

/// A dispatched resolver ends the tick as dispatched, one whose lease is held as idle; a
/// landing goes on to the finish, a lost one closes the session.
pub proof fn law_answers(e: EngineView, tree: FanInTree, now: Timestamp)
    ensures
        finalize_step(e, FinalizeEvent::ResolverDispatched { dispatched: Ok(true) }, now) == (
            e,
            FinalizeActionView::Return(Ok(StepOutcome::Dispatched)),
        ),
        finalize_step(e, FinalizeEvent::ResolverDispatched { dispatched: Ok(false) }, now) == (
            e,
            FinalizeActionView::Return(Ok(StepOutcome::Idle)),
        ),
        finalize_step(e, FinalizeEvent::BranchAdvanced { tree, advanced: Ok(true) }, now)
            == finished(e, tree@, now),
        finalize_step(e, FinalizeEvent::BranchAdvanced { tree, advanced: Ok(false) }, now)
            == session_closed(e, tree@, now),
        finalize_step(e, FinalizeEvent::WorktreeSynced { tree, result: Ok(()) }, now) == completed(
            e,
            tree@,
            now,
        ),
{
}

/// An error of the outside ends the tick as it is, at every step, and changes nothing.
pub proof fn law_outside_errors(
    e: EngineView,
    session: FanInSession,
    tree: FanInTree,
    tip: String,
    index: usize,
    resumed: bool,
    x: LoopError,
    now: Timestamp,
)
    ensures
        finalize_step(e, FinalizeEvent::IntegrateReady { session, integrate: Err(x) }, now)
            == ended_by(e, x@),
        finalize_step(e, FinalizeEvent::TipResolved { tree, found: Err(x) }, now) == ended_by(e, x@),
        finalize_step(
            e,
            FinalizeEvent::AncestorChecked { tree, tip, index, is_ancestor: Err(x) },
            now,
        ) == ended_by(e, x@),
        finalize_step(
            e,
            FinalizeEvent::IntegrateHeadRead { tree, resumed, head: Err(x) },
            now,
        ) == ended_by(e, x@),
        finalize_step(e, FinalizeEvent::IntegrateReset { tree, result: Err(x) }, now) == ended_by(
            e,
            x@,
        ),
        finalize_step(e, FinalizeEvent::TasksMerged { tree, outcome: Err(x) }, now) == ended_by(
            e,
            x@,
        ),
        finalize_step(e, FinalizeEvent::BranchAdvanced { tree, advanced: Err(x) }, now) == ended_by(
            e,
            x@,
        ),
        finalize_step(e, FinalizeEvent::WorktreeSynced { tree, result: Err(x) }, now) == ended_by(
            e,
            x@,
        ),
        finalize_step(e, FinalizeEvent::ResolverDispatched { dispatched: Err(x) }, now) == ended_by(
            e,
            x@,
        ),
{
}

/// Finishing: where the folder of the issue's worktree is there, that worktree is synced
/// first and nothing changes; where it is gone or was removed, the result is made at
/// once.
pub proof fn law_finish(e: EngineView, tree: FanInTreeView, now: Timestamp)
    requires
        e.wf(),
    ensures
        forall|w: int|
            0 <= w < e.folders.rows.len() && (#[trigger] e.folders.rows[w]).id
                == tree.session.start.worktree_folder_id && e.folders.rows[w].deleted_at is None
                ==> finished(e, tree, now) == (
                e,
                FinalizeActionView::SyncWorktree { tree, path: e.folders.rows[w].path },
            ),
        (forall|w: int|
            0 <= w < e.folders.rows.len() && (#[trigger] e.folders.rows[w]).id
                == tree.session.start.worktree_folder_id ==> e.folders.rows[w].deleted_at is Some)
            ==> finished(e, tree, now) == completed(e, tree, now),
{
    let id = tree.session.start.worktree_folder_id;
    lemma_lookup::<folder::Model>(e.folders.rows, id);
    assert forall|w: int|
        0 <= w < e.folders.rows.len() && (#[trigger] e.folders.rows[w]).id == id implies position::<
        folder::Model,
    >(e.folders.rows, id) == Some(w) by {
        lemma_lookup_at::<folder::Model>(e.folders.rows, w);
    }
}

/// Closing a session: the manifest and the resolver tip leave the issue exactly when the
/// manifest stored there is the session's, and no other issue changes; the integrate
/// worktree and, by force, its branch `loop/{space}/issue-{number}-integrate` are removed;
/// progress is announced. No other table changes.
pub proof fn law_close(e: EngineView, tree: FanInTreeView, i: int, now: Timestamp)
    requires
        e.wf(),
        0 <= i < e.issues.rows.len(),
        e.issues.rows[i].id == tree.session.start.issue_id,
    ensures
        ({
            let start = tree.session.start;
            let row = e.issues.rows[i];
            session_closed(e, tree, now) == (
                EngineView {
                    issues: TableView {
                        rows: if row.fan_in_manifest == Some(tree.session.manifest_json) {
                            e.issues.rows.update(
                                i,
                                loop_issue::ModelView {
                                    fan_in_manifest: None,
                                    fan_in_resolver_tip: None,
                                    updated_at: now,
                                    ..row
                                },
                            )
                        } else {
                            e.issues.rows
                        },
                        next_id: e.issues.next_id,
                    },
                    outbox: e.outbox.push(
                        EffectView::RemoveWorktree {
                            repo_path: start.repo_path,
                            worktree_path: tree.integrate_path,
                        },
                    ).push(
                        EffectView::DeleteBranch {
                            repo_path: start.repo_path,
                            branch: issue_branch(start.space_id, start.seq_no) + "-integrate"@,
                            force: true,
                        },
                    ).push(announcement(start.space_id, start.issue_id, "iteration"@)),
                    ..e
                },
                FinalizeActionView::Return(Ok(StepOutcome::Advanced)),
            )
        }),
{
    let start = tree.session.start;
    lemma_lookup_at::<loop_issue::Model>(e.issues.rows, i);
    lemma_branch(start.space_id, start.seq_no);
    lemma_announcement(start.space_id, start.issue_id, "iteration"@);
}

/// Completing: the result of this issue is made from all members of the manifest, its
/// commits' tasks and its no-ops, and then the session is closed.
pub proof fn law_complete(e: EngineView, tree: FanInTreeView, now: Timestamp)
    ensures
        ({
            let m = tree.session.manifest;
            completed(e, tree, now) == session_closed(
                with_result(
                    e,
                    tree.session.start.space_id,
                    tree.session.start.issue_id,
                    Seq::new(m.ordered.len(), |k: int| m.ordered[k].task_id)
                        + m.skipped_no_op_task_ids,
                    now,
                ),
                tree,
                now,
            )
        }),
{
    let m = tree.session.manifest;
    assert(m.members() =~= Seq::new(m.ordered.len(), |k: int| m.ordered[k].task_id)
        + m.skipped_no_op_task_ids);
}

/// Blocking on a fan-in fault: a running issue is blocked, no other issue changes; a
/// blocked card under the subject and the number of the issue is filed with the reason;
/// it is announced, and the tick has advanced.
pub proof fn law_block(
    e: EngineView,
    start: FanInStartView,
    subject: Seq<char>,
    reason: Seq<char>,
    i: int,
    now: Timestamp,
)
    requires
        e.wf(),
        0 <= i < e.issues.rows.len(),
        e.issues.rows[i].id == start.issue_id,
    ensures
        fan_in_blocked(e, start, subject, reason, now) == (
            EngineView {
                issues: TableView {
                    rows: if e.issues.rows[i].status == IssueStatus::Running {
                        e.issues.rows.update(
                            i,
                            loop_issue::ModelView {
                                status: IssueStatus::Blocked,
                                updated_at: now,
                                ..e.issues.rows[i]
                            },
                        )
                    } else {
                        e.issues.rows
                    },
                    next_id: e.issues.next_id,
                },
                inbox: upserted(
                    e.inbox,
                    start.space_id,
                    start.issue_id,
                    None,
                    InboxKind::Blocked,
                    colon_key(subject, start.issue_id),
                    two_members("v"@, JsonView::Int(1), "reason"@, JsonView::Str(reason)),
                    now,
                ).0,
                outbox: e.outbox.push(
                    announcement(start.space_id, start.issue_id, "blocked"@),
                ),
                ..e
            },
            FinalizeActionView::Return(Ok(StepOutcome::Advanced)),
        ),
{
    lemma_lookup_at::<loop_issue::Model>(e.issues.rows, i);
    lemma_key(subject, start.issue_id);
    lemma_announcement(start.space_id, start.issue_id, "blocked"@);
}

} // verus!
