//! What holds of the result stage of a parallel issue.

use crate::clock::Timestamp;
use crate::entities::loop_inbox_item::InboxKind;
use crate::entities::loop_issue::{self, IssueStatus};
use crate::error::LoopError;
use crate::json::{object2, JsonView};
use crate::loop_engine::actions::in_flight;
use crate::loop_engine::exits::topped_up;
use crate::loop_engine::fan_in::{
    gate_of, lemma_create_result_complete, lemma_create_result_idempotent, result_of, with_result,
    FanInManifestView, NoOpGate,
};
use crate::loop_engine::finalize::{
    completed, fan_in_blocked, finalize_step, finished, resolver_dispatched, session_claimed,
    session_closed, tip_known, FanInOutcome, FanInStartView, FanInTree, FanInTreeView,
    FinalizeActionView, FinalizeEvent, StepOutcome,
};
use crate::loop_engine::laws::{apply, EngineOp};
use crate::loop_engine::{branch_name, EngineView};
use crate::loop_service::inbox::{key_for, pending_card};
use crate::loop_service::inbox_laws::lemma_upsert_files;
use crate::table::{
    any_match, lemma_first_match, lemma_lookup, lemma_lookup_at, lemma_update_wf, position,
};
use vstd::prelude::*;

verus! {

/// While an iteration of the issue is in flight, a tick does nothing.
pub proof fn lemma_waits_while_in_flight(
    e: EngineView,
    issue_id: i32,
    worktree_folder_id: i32,
    now: Timestamp,
)
    requires
        e.issue(issue_id) is Some,
        any_match(e.iterations.rows, in_flight(issue_id)),
    ensures
        finalize_step(e, FinalizeEvent::Tick { issue_id, worktree_folder_id }, now) == (
            e,
            FinalizeActionView::Return(Ok(StepOutcome::Idle)),
        ),
{
}

/// The event shows that the work is on the issue branch: there is nothing to merge and
/// the branch is at its base; or every frozen commit was found on it; or it was just
/// advanced.
pub open spec fn shows_landing(event: FinalizeEvent) -> bool {
    match event {
        FinalizeEvent::TipResolved { tree, found } => match found {
            Ok(t) => gate_of(tree@.session.manifest, t@) == NoOpGate::FinishAtBase,
            Err(_) => false,
        },
        FinalizeEvent::AncestorChecked { tree, tip, index, is_ancestor } => is_ancestor == Ok::<
            bool,
            LoopError,
        >(true) && index + 1 >= tree@.session.manifest.ordered.len(),
        FinalizeEvent::BranchAdvanced { tree, advanced } => advanced == Ok::<bool, LoopError>(true),
        _ => false,
    }
}

/// A result is made only after landing: either the worktree was synced to a landed tip
/// just now, or the event shows the landing and there is no worktree to sync. And a
/// worktree is synced only after the landing was shown.
pub proof fn lemma_result_only_after_landing(e: EngineView, event: FinalizeEvent, now: Timestamp)
    ensures
        ({
            let (a, action) = finalize_step(e, event, now);
            &&& a.artifacts != e.artifacts ==> shows_landing(event) || match event {
                FinalizeEvent::WorktreeSynced { tree, result } => result is Ok,
                _ => false,
            }
            &&& action is SyncWorktree ==> shows_landing(event) && a == e
        }),
{
}

/// Where every task was a no-op, nothing is ever merged: at its base the branch is
/// finished as it is, and anywhere else the issue is blocked and no result is made.
pub proof fn lemma_all_no_op(e: EngineView, tree: FanInTreeView, tip: Seq<char>, now: Timestamp)
    requires
        tree.session.manifest.ordered.len() == 0,
    ensures
        tip == tree.session.manifest.issue_base_oid ==> tip_known(e, tree, tip, now) == finished(
            e,
            tree,
            now,
        ),
        tip != tree.session.manifest.issue_base_oid ==> tip_known(e, tree, tip, now).1
            == FinalizeActionView::Return(Ok(StepOutcome::Advanced)) && tip_known(
            e,
            tree,
            tip,
            now,
        ).0.artifacts == e.artifacts,
{
}

/// Work that has landed is not merged or validated again: once the branch has moved,
/// its frozen commits are looked for one by one, and when each is found the tick goes
/// on to the finish.
pub proof fn lemma_landed_work_is_not_merged_again(
    e: EngineView,
    tree: FanInTree,
    tip: String,
    index: usize,
    now: Timestamp,
)
    requires
        tip@ != tree@.session.manifest.issue_base_oid,
        index < tree@.session.manifest.ordered.len(),
    ensures
        finalize_step(e, FinalizeEvent::TipResolved { tree, found: Ok(tip) }, now) == (
            e,
            FinalizeActionView::CheckAncestor { tree: tree@, tip: tip@, index: 0 },
        ),
        finalize_step(
            e,
            FinalizeEvent::AncestorChecked { tree, tip, index, is_ancestor: Ok(true) },
            now,
        ) == (if index + 1 == tree@.session.manifest.ordered.len() {
            finished(e, tree@, now)
        } else {
            (
                e,
                FinalizeActionView::CheckAncestor {
                    tree: tree@,
                    tip: tip@,
                    index: (index + 1) as usize,
                },
            )
        }),
{
}

/// The frozen commits are asked about in order: the first once the tip is known, each
/// other one only after the one before it was found on the branch. And the one asked
/// about is one of the manifest's.
pub proof fn lemma_ancestors_are_asked_in_order(e: EngineView, event: FinalizeEvent, now: Timestamp)
    ensures
        match finalize_step(e, event, now).1 {
            FinalizeActionView::CheckAncestor { tree, tip, index } => {
                &&& index < tree.session.manifest.ordered.len()
                &&& match event {
                    FinalizeEvent::TipResolved { tree: t, found } => index == 0 && t@ == tree
                        && found is Ok && found->Ok_0@ == tip,
                    FinalizeEvent::AncestorChecked {
                        tree: t,
                        tip: found,
                        index: before,
                        is_ancestor,
                    } => index == before + 1 && t@ == tree && found@ == tip && is_ancestor == Ok::<
                        bool,
                        LoopError,
                    >(true),
                    _ => false,
                }
            },
            _ => true,
        },
{
    if let FinalizeEvent::AncestorChecked { tree, tip, index, is_ancestor } = event {
        let n = tree.session.manifest.ordered.len();
        assert(n == tree@.session.manifest.ordered.len());
    }
}

/// The branch is advanced only to a tip that was integrated and validated, and only the
/// manifest's base is what it may be advanced from.
pub proof fn lemma_lands_only_integrated_tips(e: EngineView, event: FinalizeEvent, now: Timestamp)
    ensures
        match finalize_step(e, event, now).1 {
            FinalizeActionView::AdvanceBranch { tree, branch, tip } => match event {
                FinalizeEvent::TasksMerged { tree: t, outcome } => t@ == tree && match outcome {
                    Ok(FanInOutcome::Integrated { tip: done }) => done@ == tip && branch
                        == branch_name(tree.session.start.space_id, tree.session.start.seq_no),
                    _ => false,
                },
                _ => false,
            },
            _ => true,
        },
{
}

/// Of two claims one wins: while a session is stored, another claim adopts it as it is
/// stored.
pub proof fn lemma_claim_is_exclusive(
    e: EngineView,
    start: FanInStartView,
    manifest: FanInManifestView,
    json: Seq<char>,
    now: Timestamp,
    other: FanInManifestView,
    other_json: Seq<char>,
    later: Timestamp,
)
    requires
        e.wf(),
        session_claimed(e, start, manifest, json, now).1 is EnsureIntegrate,
    ensures
        ({
            let a = session_claimed(e, start, manifest, json, now).0;
            &&& a.issue(start.issue_id) is Some
            &&& a.issue(start.issue_id)->Some_0.fan_in_manifest == Some(json)
            &&& session_claimed(a, start, other, other_json, later) == (
                a,
                FinalizeActionView::DecodeManifest { start, json },
            )
        }),
{
    let a = session_claimed(e, start, manifest, json, now).0;
    lemma_lookup::<loop_issue::Model>(e.issues.rows, start.issue_id);
    let i = position::<loop_issue::Model>(e.issues.rows, start.issue_id)->Some_0;
    lemma_update_wf::<loop_issue::Model>(e.issues, i, a.issues.rows[i]);
    lemma_lookup_at::<loop_issue::Model>(a.issues.rows, i);
}

/// A resolver is not dispatched twice from the same tip: where a merge is found in
/// progress at the recorded tip, the issue is blocked; else the tip is recorded with
/// the dispatch.
pub proof fn lemma_resolver_once_per_tip(
    e: EngineView,
    tree: FanInTree,
    head: String,
    now: Timestamp,
)
    requires
        e.wf(),
        e.issue(tree.session.start.issue_id) is Some,
    ensures
        ({
            let (a, action) = finalize_step(
                e,
                FinalizeEvent::IntegrateHeadRead { tree, resumed: true, head: Ok(head) },
                now,
            );
            let id = tree.session.start.issue_id;
            if tree@.session.start.resolver_tip == Some(head@) {
                action == FinalizeActionView::Return(Ok(StepOutcome::Advanced))
            } else {
                action is DispatchResolver && a.issue(id) is Some && a.issue(
                    id,
                )->Some_0.fan_in_resolver_tip == Some(head@)
            }
        }),
{
    let id = tree.session.start.issue_id;
    let a = resolver_dispatched(e, tree@, head@, now).0;
    lemma_lookup::<loop_issue::Model>(e.issues.rows, id);
    let i = position::<loop_issue::Model>(e.issues.rows, id)->Some_0;
    lemma_update_wf::<loop_issue::Model>(e.issues, i, a.issues.rows[i]);
    lemma_lookup_at::<loop_issue::Model>(a.issues.rows, i);
}

/// A structural fault blocks a running issue, with a pending card.
pub proof fn lemma_fault_blocks(
    e: EngineView,
    start: FanInStartView,
    subject: Seq<char>,
    reason: Seq<char>,
    now: Timestamp,
)
    requires
        e.wf(),
        e.issue(start.issue_id) is Some,
        e.issue(start.issue_id)->Some_0.status == IssueStatus::Running,
    ensures
        ({
            let a = fan_in_blocked(e, start, subject, reason, now).0;
            &&& a.issue(start.issue_id) is Some
            &&& a.issue(start.issue_id)->Some_0.status == IssueStatus::Blocked
            &&& any_match(
                a.inbox.rows,
                pending_card(start.issue_id, InboxKind::Blocked, key_for(subject, start.issue_id)),
            )
        }),
{
    let a = fan_in_blocked(e, start, subject, reason, now).0;
    lemma_lookup::<loop_issue::Model>(e.issues.rows, start.issue_id);
    let i = position::<loop_issue::Model>(e.issues.rows, start.issue_id)->Some_0;
    lemma_update_wf::<loop_issue::Model>(e.issues, i, a.issues.rows[i]);
    lemma_lookup_at::<loop_issue::Model>(a.issues.rows, i);
    let key = key_for(subject, start.issue_id);
    let payload = object2("v"@, JsonView::Int(1), "reason"@, JsonView::Str(reason));
    lemma_upsert_files(
        e.inbox,
        start.space_id,
        start.issue_id,
        None,
        InboxKind::Blocked,
        key,
        payload,
        now,
    );
    lemma_first_match(a.inbox.rows, pending_card(start.issue_id, InboxKind::Blocked, key));
}

/// A landing that is lost to a branch that moved leaves no result, and frees the
/// session so that the next tick starts afresh.
pub proof fn lemma_lost_landing_restarts(e: EngineView, tree: FanInTree, now: Timestamp)
    requires
        e.wf(),
        e.issue(tree.session.start.issue_id) is Some,
        e.issue(tree.session.start.issue_id)->Some_0.fan_in_manifest == Some(
            tree@.session.manifest_json,
        ),
    ensures
        ({
            let (a, action) = finalize_step(
                e,
                FinalizeEvent::BranchAdvanced { tree, advanced: Ok(false) },
                now,
            );
            let issue = a.issue(tree.session.start.issue_id);
            &&& action == FinalizeActionView::Return(Ok(StepOutcome::Advanced))
            &&& a.artifacts == e.artifacts
            &&& a.links == e.links
            &&& issue is Some
            &&& issue->Some_0.fan_in_manifest is None
            &&& issue->Some_0.fan_in_resolver_tip is None
        }),
{
    let id = tree.session.start.issue_id;
    let a = session_closed(e, tree@, now).0;
    lemma_lookup::<loop_issue::Model>(e.issues.rows, id);
    let i = position::<loop_issue::Model>(e.issues.rows, id)->Some_0;
    lemma_update_wf::<loop_issue::Model>(e.issues, i, a.issues.rows[i]);
    lemma_lookup_at::<loop_issue::Model>(a.issues.rows, i);
}

/// Completing a landed integration makes the result, and completing it again adds
/// nothing: a crash anywhere can be replayed.
pub proof fn lemma_completion_can_be_replayed(
    e: EngineView,
    tree: FanInTreeView,
    now: Timestamp,
    later: Timestamp,
)
    ensures
        ({
            let a = completed(e, tree, now).0;
            let b = completed(a, tree, later).0;
            &&& any_match(a.artifacts.rows, result_of(tree.session.start.issue_id))
            &&& b.artifacts == a.artifacts
            &&& b.revisions == a.revisions
            &&& b.links == a.links
        }),
{
    let start = tree.session.start;
    let members = tree.session.manifest.members();
    let mid = with_result(e, start.space_id, start.issue_id, members, now);
    let a = completed(e, tree, now).0;
    lemma_create_result_complete(e, start.space_id, start.issue_id, members, now);
    lemma_create_result_idempotent(e, start.space_id, start.issue_id, members, now, later);
    let k = choose|k: int|
        0 <= k < mid.artifacts.rows.len() && result_of(start.issue_id)(
            #[trigger] mid.artifacts.rows[k],
        );
    assert(result_of(start.issue_id)(a.artifacts.rows[k]));
    let again = with_result(a, start.space_id, start.issue_id, members, later);
    let twice = with_result(mid, start.space_id, start.issue_id, members, later);
    assert(again.artifacts == twice.artifacts);
    assert(again.revisions == twice.revisions);
    assert(again.links == twice.links);
}

/// No stored manifest is replaced by another: it stays as it is or is cleared.
pub open spec fn manifests_kept(
    a: Seq<loop_issue::ModelView>,
    b: Seq<loop_issue::ModelView>,
) -> bool {
    &&& b.len() == a.len()
    &&& forall|i: int|
        0 <= i < a.len() && a[i].fan_in_manifest is Some ==> (
        #[trigger] b[i]).fan_in_manifest == a[i].fan_in_manifest || b[i].fan_in_manifest is None
}

proof fn lemma_kept_by_controls(e: EngineView, op: EngineOp)
    requires
        op is Trigger || op is Pause || op is Resume || op is Cancel,
    ensures
        manifests_kept(e.issues.rows, apply(e, op).issues.rows),
{
}

proof fn lemma_kept_by_gates(e: EngineView, op: EngineOp)
    requires
        op is ApproveDesign || op is RejectDesign || op is Reflect,
    ensures
        manifests_kept(e.issues.rows, apply(e, op).issues.rows),
{
}

proof fn lemma_kept_by_merge(e: EngineView, op: EngineOp)
    requires
        op is Merge,
    ensures
        manifests_kept(e.issues.rows, apply(e, op).issues.rows),
{
}

proof fn lemma_kept_by_exits(e: EngineView, op: EngineOp)
    requires
        op is Retry || op is ForceComplete || op is OverrideOscillation,
    ensures
        manifests_kept(e.issues.rows, apply(e, op).issues.rows),
{
}

proof fn lemma_kept_by_budget(e: EngineView, op: EngineOp)
    requires
        op is AddBudget,
    ensures
        manifests_kept(e.issues.rows, apply(e, op).issues.rows),
{
    if let EngineOp::AddBudget { issue_id, additional, now } = op {
        if let Some(k) = position::<loop_issue::Model>(e.issues.rows, issue_id) {
            let issue = e.issues.rows[k];
            let mid = e.set_issue(
                k,
                loop_issue::ModelView {
                    token_budget: Some(topped_up(issue.token_budget, additional)),
                    updated_at: now,
                    ..issue
                },
            );
            assert(manifests_kept(e.issues.rows, mid.issues.rows));
        }
    }
}

proof fn lemma_kept_by_finalize(e: EngineView, op: EngineOp)
    requires
        op is Finalize,
    ensures
        manifests_kept(e.issues.rows, apply(e, op).issues.rows),
{
}

/// A stored manifest is written once: whatever is done with the engine, it stays as it
/// is or is cleared.
pub proof fn lemma_manifest_write_once(e: EngineView, op: EngineOp)
    ensures
        manifests_kept(e.issues.rows, apply(e, op).issues.rows),
{
    if op is Trigger || op is Pause || op is Resume || op is Cancel {
        lemma_kept_by_controls(e, op);
    } else if op is ApproveDesign || op is RejectDesign || op is Reflect {
        lemma_kept_by_gates(e, op);
    } else if op is Merge {
        lemma_kept_by_merge(e, op);
    } else if op is AddBudget {
        lemma_kept_by_budget(e, op);
    } else if op is Finalize {
        lemma_kept_by_finalize(e, op);
    } else {
        lemma_kept_by_exits(e, op);
    }
}

} // verus!
