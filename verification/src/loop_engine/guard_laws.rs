//! What the guarded transitions change and when, in the terms of the rows' columns.

use crate::clock::Timestamp;
use crate::entities::loop_artifact::{self, ArtifactStatus, ContributionKind};
use crate::entities::loop_issue::{self, IssueStatus};
use crate::entities::{folder, loop_space};
use crate::loop_engine::actions::comment_text;
use crate::loop_engine::transitions::{
    fan_in_claim, fan_in_cleared, force_done_cas, issue_cas, oscillation_cleared, resolver_tip_set,
};
use crate::loop_engine::EngineView;
use crate::table::{ids_ascend, lemma_lookup, lemma_lookup_at, table_wf, TableView};
use vstd::prelude::*;

verus! {

/// An issue moves exactly when it is the one with the id and has the first status. Only
/// its status and its time change, and no other issue does.
pub proof fn law_issue_moves(
    t: TableView<loop_issue::ModelView>,
    id: i32,
    from: IssueStatus,
    to: IssueStatus,
    now: Timestamp,
    k: int,
)
    requires
        table_wf::<loop_issue::Model>(t),
        0 <= k < t.rows.len(),
    ensures
        ({
            let (u, moved) = issue_cas(t, id, from, to, now);
            let v = t.rows[k];
            &&& u.next_id == t.next_id
            &&& u.rows.len() == t.rows.len()
            &&& v.id == id ==> moved == (v.status == from)
            &&& u.rows[k] == (if v.id == id && v.status == from {
                loop_issue::ModelView {
                    id: v.id,
                    space_id: v.space_id,
                    seq_no: v.seq_no,
                    title: v.title,
                    status: to,
                    pause_reason: v.pause_reason,
                    token_budget: v.token_budget,
                    token_used: v.token_used,
                    worktree_folder_id: v.worktree_folder_id,
                    base_branch: v.base_branch,
                    base_commit: v.base_commit,
                    execution_mode: v.execution_mode,
                    fan_in_manifest: v.fan_in_manifest,
                    fan_in_resolver_tip: v.fan_in_resolver_tip,
                    created_at: v.created_at,
                    updated_at: now,
                    ended_at: v.ended_at,
                }
            } else {
                v
            })
        }),
{
    lemma_lookup::<loop_issue::Model>(t.rows, id);
    lemma_lookup_at::<loop_issue::Model>(t.rows, k);
}

/// A session is claimed exactly when the issue with the id has no manifest. Only its
/// manifest and its time change.
pub proof fn law_claim_writes_once(
    t: TableView<loop_issue::ModelView>,
    id: i32,
    manifest: Seq<char>,
    now: Timestamp,
    k: int,
)
    requires
        table_wf::<loop_issue::Model>(t),
        0 <= k < t.rows.len(),
    ensures
        ({
            let (u, claimed) = fan_in_claim(t, id, manifest, now);
            let v = t.rows[k];
            &&& u.next_id == t.next_id
            &&& u.rows.len() == t.rows.len()
            &&& v.id == id ==> claimed == (v.fan_in_manifest is None)
            &&& u.rows[k] == (if v.id == id && v.fan_in_manifest is None {
                loop_issue::ModelView {
                    id: v.id,
                    space_id: v.space_id,
                    seq_no: v.seq_no,
                    title: v.title,
                    status: v.status,
                    pause_reason: v.pause_reason,
                    token_budget: v.token_budget,
                    token_used: v.token_used,
                    worktree_folder_id: v.worktree_folder_id,
                    base_branch: v.base_branch,
                    base_commit: v.base_commit,
                    execution_mode: v.execution_mode,
                    fan_in_manifest: Some(manifest),
                    fan_in_resolver_tip: v.fan_in_resolver_tip,
                    created_at: v.created_at,
                    updated_at: now,
                    ended_at: v.ended_at,
                }
            } else {
                v
            })
        }),
{
    lemma_lookup::<loop_issue::Model>(t.rows, id);
    lemma_lookup_at::<loop_issue::Model>(t.rows, k);
}

/// A session is cleared, with the tip of its resolver, exactly when the issue with the id
/// holds this very manifest; another session is left alone.
pub proof fn law_clear_own_session(
    t: TableView<loop_issue::ModelView>,
    id: i32,
    manifest: Seq<char>,
    now: Timestamp,
    k: int,
)
    requires
        table_wf::<loop_issue::Model>(t),
        0 <= k < t.rows.len(),
    ensures
        ({
            let u = fan_in_cleared(t, id, manifest, now);
            let v = t.rows[k];
            &&& u.next_id == t.next_id
            &&& u.rows.len() == t.rows.len()
            &&& u.rows[k] == (if v.id == id && v.fan_in_manifest == Some(manifest) {
                loop_issue::ModelView {
                    id: v.id,
                    space_id: v.space_id,
                    seq_no: v.seq_no,
                    title: v.title,
                    status: v.status,
                    pause_reason: v.pause_reason,
                    token_budget: v.token_budget,
                    token_used: v.token_used,
                    worktree_folder_id: v.worktree_folder_id,
                    base_branch: v.base_branch,
                    base_commit: v.base_commit,
                    execution_mode: v.execution_mode,
                    fan_in_manifest: None,
                    fan_in_resolver_tip: None,
                    created_at: v.created_at,
                    updated_at: now,
                    ended_at: v.ended_at,
                }
            } else {
                v
            })
        }),
{
    lemma_lookup::<loop_issue::Model>(t.rows, id);
    lemma_lookup_at::<loop_issue::Model>(t.rows, k);
}

/// The tip of a resolver is written to the issue with the id, with the time; nothing else
/// changes.
pub proof fn law_resolver_tip(
    t: TableView<loop_issue::ModelView>,
    id: i32,
    tip: Seq<char>,
    now: Timestamp,
    k: int,
)
    requires
        table_wf::<loop_issue::Model>(t),
        0 <= k < t.rows.len(),
    ensures
        ({
            let u = resolver_tip_set(t, id, tip, now);
            let v = t.rows[k];
            &&& u.next_id == t.next_id
            &&& u.rows.len() == t.rows.len()
            &&& u.rows[k] == (if v.id == id {
                loop_issue::ModelView {
                    id: v.id,
                    space_id: v.space_id,
                    seq_no: v.seq_no,
                    title: v.title,
                    status: v.status,
                    pause_reason: v.pause_reason,
                    token_budget: v.token_budget,
                    token_used: v.token_used,
                    worktree_folder_id: v.worktree_folder_id,
                    base_branch: v.base_branch,
                    base_commit: v.base_commit,
                    execution_mode: v.execution_mode,
                    fan_in_manifest: v.fan_in_manifest,
                    fan_in_resolver_tip: Some(tip),
                    created_at: v.created_at,
                    updated_at: now,
                    ended_at: v.ended_at,
                }
            } else {
                v
            })
        }),
{
    lemma_lookup::<loop_issue::Model>(t.rows, id);
    lemma_lookup_at::<loop_issue::Model>(t.rows, k);
}

/// Nothing moves, is claimed, cleared or recorded for an issue that is not there.
pub proof fn law_issue_missing(
    t: TableView<loop_issue::ModelView>,
    id: i32,
    from: IssueStatus,
    to: IssueStatus,
    text: Seq<char>,
    now: Timestamp,
)
    requires
        forall|i: int| 0 <= i < t.rows.len() ==> (#[trigger] t.rows[i]).id != id,
    ensures
        issue_cas(t, id, from, to, now) == (t, false),
        fan_in_claim(t, id, text, now) == (t, false),
        fan_in_cleared(t, id, text, now) == t,
        resolver_tip_set(t, id, text, now) == t,
{
    lemma_lookup::<loop_issue::Model>(t.rows, id);
}

/// A task is forced done exactly when it is the one with the id and is blocked: it is then
/// done, contributes nothing and has no commit. Its other columns stay, and every other
/// artifact does.
pub proof fn law_forced_done(
    t: TableView<loop_artifact::ModelView>,
    id: i32,
    now: Timestamp,
    k: int,
)
    requires
        table_wf::<loop_artifact::Model>(t),
        0 <= k < t.rows.len(),
    ensures
        ({
            let (u, forced) = force_done_cas(t, id, now);
            let v = t.rows[k];
            &&& u.next_id == t.next_id
            &&& u.rows.len() == t.rows.len()
            &&& v.id == id ==> forced == (v.status == ArtifactStatus::Blocked)
            &&& u.rows[k] == (if v.id == id && v.status == ArtifactStatus::Blocked {
                loop_artifact::ModelView {
                    id: v.id,
                    space_id: v.space_id,
                    issue_id: v.issue_id,
                    kind: v.kind,
                    title: v.title,
                    status: ArtifactStatus::Done,
                    origin: v.origin,
                    produced_by_iteration_id: v.produced_by_iteration_id,
                    verdict: v.verdict,
                    attempt: v.attempt,
                    last_failure_sig: v.last_failure_sig,
                    fan_in_commit: None,
                    sort: v.sort,
                    created_at: v.created_at,
                    updated_at: now,
                    contribution_kind: ContributionKind::NoOp,
                    oscillation_count: v.oscillation_count,
                    recent_failure_sig: v.recent_failure_sig,
                }
            } else {
                v
            })
        }),
{
    lemma_lookup::<loop_artifact::Model>(t.rows, id);
    lemma_lookup_at::<loop_artifact::Model>(t.rows, k);
}

/// Clearing the oscillation of a task sets its count to zero and forgets its recent
/// signature; its other columns but the time stay, and every other artifact does.
pub proof fn law_oscillation_cleared(
    t: TableView<loop_artifact::ModelView>,
    id: i32,
    now: Timestamp,
    k: int,
)
    requires
        table_wf::<loop_artifact::Model>(t),
        0 <= k < t.rows.len(),
    ensures
        ({
            let u = oscillation_cleared(t, id, now);
            let v = t.rows[k];
            &&& u.next_id == t.next_id
            &&& u.rows.len() == t.rows.len()
            &&& u.rows[k] == (if v.id == id {
                loop_artifact::ModelView {
                    id: v.id,
                    space_id: v.space_id,
                    issue_id: v.issue_id,
                    kind: v.kind,
                    title: v.title,
                    status: v.status,
                    origin: v.origin,
                    produced_by_iteration_id: v.produced_by_iteration_id,
                    verdict: v.verdict,
                    attempt: v.attempt,
                    last_failure_sig: v.last_failure_sig,
                    fan_in_commit: v.fan_in_commit,
                    sort: v.sort,
                    created_at: v.created_at,
                    updated_at: now,
                    contribution_kind: v.contribution_kind,
                    oscillation_count: 0,
                    recent_failure_sig: None,
                }
            } else {
                v
            })
        }),
{
    lemma_lookup::<loop_artifact::Model>(t.rows, id);
    lemma_lookup_at::<loop_artifact::Model>(t.rows, k);
}

/// Nothing is forced or cleared for an artifact that is not there.
pub proof fn law_artifact_missing(t: TableView<loop_artifact::ModelView>, id: i32, now: Timestamp)
    requires
        forall|i: int| 0 <= i < t.rows.len() ==> (#[trigger] t.rows[i]).id != id,
    ensures
        force_done_cas(t, id, now) == (t, false),
        oscillation_cleared(t, id, now) == t,
{
    lemma_lookup::<loop_artifact::Model>(t.rows, id);
}

/// A rejection without a comment has the empty text, and otherwise the comment's own.
pub proof fn law_comment(comment: Option<String>)
    ensures
        comment is None ==> comment_text(comment).len() == 0,
        comment is Some ==> comment_text(comment) == comment->Some_0@,
{
}

/// The root folder of a space is the folder that its row names, unless that was removed.
pub proof fn law_space_folder(e: EngineView, s: int, f: int)
    requires
        ids_ascend::<loop_space::Model>(e.spaces.rows),
        ids_ascend::<folder::Model>(e.folders.rows),
        0 <= s < e.spaces.rows.len(),
        0 <= f < e.folders.rows.len(),
        e.folders.rows[f].id == e.spaces.rows[s].folder_id,
    ensures
        e.space_folder(e.spaces.rows[s].id) == (if e.folders.rows[f].deleted_at is None {
            Some(e.folders.rows[f])
        } else {
            None
        }),
        e.folder(e.folders.rows[f].id) == (if e.folders.rows[f].deleted_at is None {
            Some(e.folders.rows[f])
        } else {
            None
        }),
{
    lemma_lookup_at::<loop_space::Model>(e.spaces.rows, s);
    lemma_lookup_at::<folder::Model>(e.folders.rows, f);
}

/// A space that is not there has no root folder.
pub proof fn law_no_space_folder(e: EngineView, space_id: i32)
    requires
        forall|i: int|
            0 <= i < e.spaces.rows.len() ==> (#[trigger] e.spaces.rows[i]).id != space_id,
    ensures
        e.space_folder(space_id) is None,
{
    lemma_lookup::<loop_space::Model>(e.spaces.rows, space_id);
}

} // verus!
