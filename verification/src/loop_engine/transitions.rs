//! Guarded transitions: each changes a row only when it is in the expected state,
//! and says whether it did.

use crate::clock::Timestamp;
use crate::entities::loop_artifact::{self, ArtifactStatus, ContributionKind};
use crate::entities::loop_issue::{self, IssueStatus};
use crate::table::{position, with_rows, Table, TableView};
use crate::text::same_text;
use vstd::prelude::*;

verus! {

/// An issue moved to a status.
pub open spec fn issue_moved(
    v: loop_issue::ModelView,
    to: IssueStatus,
    now: Timestamp,
) -> loop_issue::ModelView {
    loop_issue::ModelView { status: to, updated_at: now, ..v }
}

/// The issues after the one with `id` was moved from `from` to `to`; unchanged when
/// it is not in `from`.
pub open spec fn issue_cas(
    t: TableView<loop_issue::ModelView>,
    id: i32,
    from: IssueStatus,
    to: IssueStatus,
    now: Timestamp,
) -> (TableView<loop_issue::ModelView>, bool) {
    match position::<loop_issue::Model>(t.rows, id) {
        Some(i) => if t.rows[i].status == from {
            (with_rows(t, t.rows.update(i, issue_moved(t.rows[i], to, now))), true)
        } else {
            (t, false)
        },
        None => (t, false),
    }
}

/// Moves an issue from one status to another, if it is in the first.
pub fn cas_issue_status(
    issues: &mut Table<loop_issue::Model>,
    id: i32,
    from: IssueStatus,
    to: IssueStatus,
    now: Timestamp,
) -> (r: bool)
    requires
        old(issues).wf(),
    ensures
        (final(issues)@, r) == issue_cas(old(issues)@, id, from, to, now),
        final(issues).wf(),
{
    match issues.find(id) {
        Some(i) => if issues.rows[i].status == from {
            let mut row = issues.rows[i].clone();
            row.status = to;
            row.updated_at = now;
            issues.set(i, row);
            true
        } else {
            false
        },
        None => false,
    }
}

/// An artifact moved to a status.
pub open spec fn artifact_moved(
    v: loop_artifact::ModelView,
    to: ArtifactStatus,
    now: Timestamp,
) -> loop_artifact::ModelView {
    loop_artifact::ModelView { status: to, updated_at: now, ..v }
}

/// A blocked task accepted as done without a contribution.
pub open spec fn forced_done(v: loop_artifact::ModelView, now: Timestamp) -> loop_artifact::ModelView {
    loop_artifact::ModelView {
        status: ArtifactStatus::Done,
        contribution_kind: ContributionKind::NoOp,
        fan_in_commit: None,
        updated_at: now,
        ..v
    }
}

/// A task without an oscillation epoch.
pub open spec fn calm(v: loop_artifact::ModelView, now: Timestamp) -> loop_artifact::ModelView {
    loop_artifact::ModelView { oscillation_count: 0, recent_failure_sig: None, updated_at: now, ..v }
}

/// The artifacts after the task with `id` was accepted as a no-op; unchanged when it
/// is not blocked.
pub open spec fn force_done_cas(
    t: TableView<loop_artifact::ModelView>,
    id: i32,
    now: Timestamp,
) -> (TableView<loop_artifact::ModelView>, bool) {
    match position::<loop_artifact::Model>(t.rows, id) {
        Some(i) => if t.rows[i].status == ArtifactStatus::Blocked {
            (with_rows(t, t.rows.update(i, forced_done(t.rows[i], now))), true)
        } else {
            (t, false)
        },
        None => (t, false),
    }
}

/// Accepts a blocked task as done without a contribution.
pub fn cas_task_force_done_no_op(
    artifacts: &mut Table<loop_artifact::Model>,
    task_id: i32,
    now: Timestamp,
) -> (r: bool)
    requires
        old(artifacts).wf(),
    ensures
        (final(artifacts)@, r) == force_done_cas(old(artifacts)@, task_id, now),
        final(artifacts).wf(),
{
    match artifacts.find(task_id) {
        Some(i) => if artifacts.rows[i].status == ArtifactStatus::Blocked {
            let mut row = artifacts.rows[i].clone();
            row.status = ArtifactStatus::Done;
            row.contribution_kind = ContributionKind::NoOp;
            row.fan_in_commit = None;
            row.updated_at = now;
            artifacts.set(i, row);
            true
        } else {
            false
        },
        None => false,
    }
}

/// The artifacts after the oscillation epoch of the task with `id` was cleared.
pub open spec fn oscillation_cleared(
    t: TableView<loop_artifact::ModelView>,
    id: i32,
    now: Timestamp,
) -> TableView<loop_artifact::ModelView> {
    match position::<loop_artifact::Model>(t.rows, id) {
        Some(i) => with_rows(t, t.rows.update(i, calm(t.rows[i], now))),
        None => t,
    }
}

/// Clears the oscillation epoch of a task.
pub fn clear_oscillation(artifacts: &mut Table<loop_artifact::Model>, task_id: i32, now: Timestamp)
    requires
        old(artifacts).wf(),
    ensures
        final(artifacts)@ == oscillation_cleared(old(artifacts)@, task_id, now),
        final(artifacts).wf(),
{
    if let Some(i) = artifacts.find(task_id) {
        let mut row = artifacts.rows[i].clone();
        row.oscillation_count = 0;
        row.recent_failure_sig = None;
        row.updated_at = now;
        artifacts.set(i, row);
    }
}

/// The issues after a fan-in session was claimed for the one with `id`: the manifest
/// is written once, so only an issue without one takes it.
pub open spec fn fan_in_claim(
    t: TableView<loop_issue::ModelView>,
    id: i32,
    manifest: Seq<char>,
    now: Timestamp,
) -> (TableView<loop_issue::ModelView>, bool) {
    match position::<loop_issue::Model>(t.rows, id) {
        Some(i) => if t.rows[i].fan_in_manifest is None {
            (
                with_rows(
                    t,
                    t.rows.update(
                        i,
                        loop_issue::ModelView {
                            fan_in_manifest: Some(manifest),
                            updated_at: now,
                            ..t.rows[i]
                        },
                    ),
                ),
                true,
            )
        } else {
            (t, false)
        },
        None => (t, false),
    }
}

/// Claims the fan-in session of an issue, if it is free.
pub fn try_claim_fan_in(
    issues: &mut Table<loop_issue::Model>,
    id: i32,
    manifest: &str,
    now: Timestamp,
) -> (r: bool)
    requires
        old(issues).wf(),
    ensures
        (final(issues)@, r) == fan_in_claim(old(issues)@, id, manifest@, now),
        final(issues).wf(),
{
    match issues.find(id) {
        Some(i) => if issues.rows[i].fan_in_manifest.is_none() {
            let mut row = issues.rows[i].clone();
            row.fan_in_manifest = Some(manifest.to_owned());
            row.updated_at = now;
            issues.set(i, row);
            true
        } else {
            false
        },
        None => false,
    }
}

/// The issues after the fan-in session with this manifest was cleared: another
/// session is left alone.
pub open spec fn fan_in_cleared(
    t: TableView<loop_issue::ModelView>,
    id: i32,
    manifest: Seq<char>,
    now: Timestamp,
) -> TableView<loop_issue::ModelView> {
    match position::<loop_issue::Model>(t.rows, id) {
        Some(i) => if t.rows[i].fan_in_manifest == Some(manifest) {
            with_rows(
                t,
                t.rows.update(
                    i,
                    loop_issue::ModelView {
                        fan_in_manifest: None,
                        fan_in_resolver_tip: None,
                        updated_at: now,
                        ..t.rows[i]
                    },
                ),
            )
        } else {
            t
        },
        None => t,
    }
}

/// Clears the fan-in session of an issue, if it is the one with this manifest.
pub fn clear_fan_in(
    issues: &mut Table<loop_issue::Model>,
    id: i32,
    manifest: &str,
    now: Timestamp,
)
    requires
        old(issues).wf(),
    ensures
        final(issues)@ == fan_in_cleared(old(issues)@, id, manifest@, now),
        final(issues).wf(),
{
    if let Some(i) = issues.find(id) {
        let same: bool = match &issues.rows[i].fan_in_manifest {
            Some(m) => same_text(m.as_str(), manifest),
            None => false,
        };
        if same {
            let mut row = issues.rows[i].clone();
            row.fan_in_manifest = None;
            row.fan_in_resolver_tip = None;
            row.updated_at = now;
            issues.set(i, row);
        }
    }
}

/// The issues after the tip that a conflict resolver is dispatched from was recorded.
pub open spec fn resolver_tip_set(
    t: TableView<loop_issue::ModelView>,
    id: i32,
    tip: Seq<char>,
    now: Timestamp,
) -> TableView<loop_issue::ModelView> {
    match position::<loop_issue::Model>(t.rows, id) {
        Some(i) => with_rows(
            t,
            t.rows.update(
                i,
                loop_issue::ModelView {
                    fan_in_resolver_tip: Some(tip),
                    updated_at: now,
                    ..t.rows[i]
                },
            ),
        ),
        None => t,
    }
}

/// Records the tip that a conflict resolver is dispatched from.
pub fn set_fan_in_resolver_tip(
    issues: &mut Table<loop_issue::Model>,
    id: i32,
    tip: &str,
    now: Timestamp,
)
    requires
        old(issues).wf(),
    ensures
        final(issues)@ == resolver_tip_set(old(issues)@, id, tip@, now),
        final(issues).wf(),
{
    if let Some(i) = issues.find(id) {
        let mut row = issues.rows[i].clone();
        row.fan_in_resolver_tip = Some(tip.to_owned());
        row.updated_at = now;
        issues.set(i, row);
    }
}

} // verus!
