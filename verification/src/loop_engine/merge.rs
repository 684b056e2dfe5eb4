//! The merge gate: landing a finalized issue's branch onto its base branch under a
//! per-repository lock. A clean landing closes the issue; any fault blocks it with an
//! inbox card. A merge is idempotent: an issue that is already done is a success.
//! After a landing, a reflect run is dispatched, best-effort.

use crate::clock::Timestamp;
use crate::entities::loop_artifact::{self, ArtifactKind};
use crate::entities::loop_inbox_item::InboxKind;
use crate::entities::loop_issue::{self, IssueStatus};
use crate::entities::loop_iteration::{self, IterationStatus, Stage};
use crate::error::{outcome, LoopError, LoopErrorView};
use crate::json::{
    integer_value, make_object1, make_object2, object1, object2, string_value, JsonView,
};
use crate::loop_engine::transitions::{cas_issue_status, issue_cas};
use crate::loop_engine::{
    branch_name, issue_changed, make_branch_name, numbered, numbered_text, Effect, EffectView,
    EngineView, LoopEngine,
};
use crate::loop_service::inbox::{
    approval_resolved, card_room, key_for, make_key, resolve_approval_card, upsert_inbox, upserted,
};
use crate::table::{any_match, count_where, lemma_count_step, position, with_rows, TableView};
use crate::text::same_text;
use vstd::prelude::*;

verus! {

broadcast use vstd::string::group_string_axioms;

/// How an attempt to land an issue branch ended.
#[derive(Debug)]
pub enum MergeOutcome {
    /// The branch landed on its base.
    Merged,
    /// The base branch does not exist any more.
    BaseGone,
    /// The base repository has uncommitted changes to tracked files.
    BaseDirty,
    /// The merge conflicted, at the named stage.
    Conflict { stage: String, detail: String },
    /// Validation failed on the merged result.
    RevalidationFailed { output: String },
}

/// What a [`MergeOutcome`] holds.
pub enum MergeOutcomeView {
    Merged,
    BaseGone,
    BaseDirty,
    Conflict { stage: Seq<char>, detail: Seq<char> },
    RevalidationFailed { output: Seq<char> },
}

impl View for MergeOutcome {
    type V = MergeOutcomeView;

    open spec fn view(&self) -> MergeOutcomeView {
        match *self {
            MergeOutcome::Merged => MergeOutcomeView::Merged,
            MergeOutcome::BaseGone => MergeOutcomeView::BaseGone,
            MergeOutcome::BaseDirty => MergeOutcomeView::BaseDirty,
            MergeOutcome::Conflict { stage, detail } => MergeOutcomeView::Conflict {
                stage: stage@,
                detail: detail@,
            },
            MergeOutcome::RevalidationFailed { output } => MergeOutcomeView::RevalidationFailed {
                output: output@,
            },
        }
    }
}

/// The reason code of an outcome, which keys the inbox card.
pub open spec fn fault_reason(o: MergeOutcomeView) -> Seq<char> {
    match o {
        MergeOutcomeView::Merged => "merged"@,
        MergeOutcomeView::BaseGone => "base_gone"@,
        MergeOutcomeView::BaseDirty => "base_dirty"@,
        MergeOutcomeView::Conflict { stage, detail } => if stage == "integrate"@ {
            "merge_conflict_integrate"@
        } else {
            "merge_conflict"@
        },
        MergeOutcomeView::RevalidationFailed { output } => "revalidation_failed"@,
    }
}

/// The message for the person.
pub open spec fn fault_message(o: MergeOutcomeView) -> Seq<char> {
    match o {
        MergeOutcomeView::Merged => "Merge failed."@,
        MergeOutcomeView::BaseGone => "The base branch no longer exists."@,
        MergeOutcomeView::BaseDirty => {
            "The base repository has uncommitted changes to tracked files. Commit or stash them, then merge again."@
        },
        MergeOutcomeView::Conflict { stage, detail } => if stage == "integrate"@ {
            "Merge conflict while integrating the latest base into the issue branch."@
        } else {
            "Merge conflict while landing the issue branch onto the base branch."@
        },
        MergeOutcomeView::RevalidationFailed { output } => {
            "Re-validation failed on the merged result."@
        },
    }
}

/// The diagnostic detail.
pub open spec fn fault_detail(o: MergeOutcomeView) -> Seq<char> {
    match o {
        MergeOutcomeView::Merged => Seq::empty(),
        MergeOutcomeView::BaseGone => "base branch no longer exists"@,
        MergeOutcomeView::BaseDirty => {
            "base repo working tree has uncommitted tracked changes"@
        },
        MergeOutcomeView::Conflict { stage, detail } => detail,
        MergeOutcomeView::RevalidationFailed { output } => output,
    }
}

/// Map an outcome that did not land to `(reason code, message, detail)`. The reason
/// code keys the inbox card; the message is what the person sees; the detail carries
/// the git or validation output.
pub fn merge_fault_report(outcome: &MergeOutcome) -> (r: (&'static str, String, String))
    ensures
        r.0@ == fault_reason(outcome@),
        r.1@ == fault_message(outcome@),
        r.2@ == fault_detail(outcome@),
{
    match outcome {
        MergeOutcome::BaseGone => (
            "base_gone",
            "The base branch no longer exists.".to_owned(),
            "base branch no longer exists".to_owned(),
        ),
        MergeOutcome::BaseDirty => (
            "base_dirty",
            "The base repository has uncommitted changes to tracked files. Commit or stash them, then merge again.".to_owned(),
            "base repo working tree has uncommitted tracked changes".to_owned(),
        ),
        MergeOutcome::Conflict { stage, detail } => {
            if same_text(stage.as_str(), "integrate") {
                (
                    "merge_conflict_integrate",
                    "Merge conflict while integrating the latest base into the issue branch.".to_owned(),
                    detail.clone(),
                )
            } else {
                (
                    "merge_conflict",
                    "Merge conflict while landing the issue branch onto the base branch.".to_owned(),
                    detail.clone(),
                )
            }
        },
        MergeOutcome::RevalidationFailed { output } => (
            "revalidation_failed",
            "Re-validation failed on the merged result.".to_owned(),
            output.clone(),
        ),
        MergeOutcome::Merged => ("merged", "Merge failed.".to_owned(), String::new()),
    }
}

/// A merge to be run in git.
#[derive(Debug)]
pub struct MergeJob {
    pub issue_id: i32,
    pub space_id: i32,
    pub repo_path: String,
    pub worktree_path: String,
    pub branch: String,
    pub base_branch: String,
    pub base_commit: String,
}

/// What a [`MergeJob`] holds.
pub struct MergeJobView {
    pub issue_id: i32,
    pub space_id: i32,
    pub repo_path: Seq<char>,
    pub worktree_path: Seq<char>,
    pub branch: Seq<char>,
    pub base_branch: Seq<char>,
    pub base_commit: Seq<char>,
}

impl View for MergeJob {
    type V = MergeJobView;

    open spec fn view(&self) -> MergeJobView {
        MergeJobView {
            issue_id: self.issue_id,
            space_id: self.space_id,
            repo_path: self.repo_path@,
            worktree_path: self.worktree_path@,
            branch: self.branch@,
            base_branch: self.base_branch@,
            base_commit: self.base_commit@,
        }
    }
}

/// What happened on the way to merging an issue.
#[derive(Debug)]
pub enum MergeEvent {
    /// A person or the driver asked for it.
    Requested { issue_id: i32 },
    /// The merge lock of the repository is held.
    Locked { issue_id: i32, repo_path: String },
    /// Whether the live result has passed integration was looked up.
    IntegrationChecked { issue_id: i32, repo_path: String, passed: Result<bool, LoopError> },
    /// The merge was run.
    MergeRun { job: MergeJob, outcome: Result<MergeOutcome, LoopError> },
}

/// What is to be done next to merge an issue.
#[derive(Debug)]
pub enum MergeAction {
    /// Take the merge lock of the repository. It is held until the action is over.
    LockRepo { repo_path: String },
    /// Find out whether the live result has passed integration.
    CheckIntegration { repo_path: String },
    /// Run the merge, with the validation that the issue's configuration asks for.
    RunMerge(MergeJob),
    /// The action is over.
    Return(Result<(), LoopError>),
}

/// What a [`MergeAction`] holds.
pub enum MergeActionView {
    LockRepo { repo_path: Seq<char> },
    CheckIntegration { repo_path: Seq<char> },
    RunMerge(MergeJobView),
    Return(Result<(), LoopErrorView>),
}

impl View for MergeAction {
    type V = MergeActionView;

    open spec fn view(&self) -> MergeActionView {
        match *self {
            MergeAction::LockRepo { repo_path } => MergeActionView::LockRepo {
                repo_path: repo_path@,
            },
            MergeAction::CheckIntegration { repo_path } => MergeActionView::CheckIntegration {
                repo_path: repo_path@,
            },
            MergeAction::RunMerge(job) => MergeActionView::RunMerge(job@),
            MergeAction::Return(r) => MergeActionView::Return(outcome(r)),
        }
    }
}

/// The job that merges an issue, or what stands in its way.
pub open spec fn merge_job(e: EngineView, issue: loop_issue::ModelView, repo_path: Seq<char>) -> Result<
    MergeJobView,
    LoopErrorView,
> {
    match issue.worktree_folder_id {
        None => Err(LoopErrorView::NotFound(numbered("issue "@, issue.id) + " worktree"@)),
        Some(folder_id) => match e.folder(folder_id) {
            None => Err(LoopErrorView::Detached),
            Some(folder) => match (issue.base_branch, issue.base_commit) {
                (None, _) => Err(LoopErrorView::Git("issue has no recorded base branch"@)),
                (Some(_), None) => Err(LoopErrorView::Git("issue has no recorded base commit"@)),
                (Some(base_branch), Some(base_commit)) => Ok(
                    MergeJobView {
                        issue_id: issue.id,
                        space_id: issue.space_id,
                        repo_path,
                        worktree_path: folder.path,
                        branch: branch_name(issue.space_id, issue.seq_no),
                        base_branch,
                        base_commit,
                    },
                ),
            },
        },
    }
}

/// The issues after the one with `id` was closed by a landing; unchanged when it is
/// not running.
pub open spec fn landed(t: TableView<loop_issue::ModelView>, id: i32, now: Timestamp) -> TableView<
    loop_issue::ModelView,
> {
    match position::<loop_issue::Model>(t.rows, id) {
        Some(i) => if t.rows[i].status == IssueStatus::Running {
            with_rows(
                t,
                t.rows.update(
                    i,
                    loop_issue::ModelView {
                        status: IssueStatus::Done,
                        ended_at: Some(now),
                        updated_at: now,
                        ..t.rows[i]
                    },
                ),
            )
        } else {
            t
        },
        None => t,
    }
}

/// The engine after a merge that could not land: the issue is blocked with a card
/// that names the cause, and a pending merge approval is superseded.
pub open spec fn merge_faulted(
    e: EngineView,
    job: MergeJobView,
    o: MergeOutcomeView,
    now: Timestamp,
) -> EngineView {
    let filed = upserted(
        e.inbox,
        job.space_id,
        job.issue_id,
        None,
        InboxKind::Blocked,
        key_for("merge_blocked"@, job.issue_id),
        object2(
            "reason"@,
            JsonView::Str(fault_reason(o)),
            "detail"@,
            JsonView::Str(fault_detail(o)),
        ),
        now,
    ).0;
    EngineView {
        issues: issue_cas(
            e.issues,
            job.issue_id,
            IssueStatus::Running,
            IssueStatus::Blocked,
            now,
        ).0,
        inbox: approval_resolved(
            filed,
            job.issue_id,
            key_for("merge"@, job.issue_id),
            object2(
                "action"@,
                JsonView::Str("merge_failed"@),
                "reason"@,
                JsonView::Str(fault_reason(o)),
            ),
            now,
        ),
        ..e
    }.say(issue_changed(job.space_id, job.issue_id, "blocked"@)).say(
        EffectView::WakeDriver(job.issue_id),
    )
}

/// The engine after a merge that landed: the worktrees, the branch and the folder go,
/// the issue is done, and only then, with the lock released, reflection is tried.
pub open spec fn merge_landed(e: EngineView, job: MergeJobView, now: Timestamp) -> EngineView {
    let torn_down = e.say(
        EffectView::RemoveWorktree { repo_path: job.repo_path, worktree_path: job.worktree_path },
    ).say(
        EffectView::RemoveSubtree { repo_path: job.repo_path, worktree_path: job.worktree_path },
    ).say(
        EffectView::DeleteBranch { repo_path: job.repo_path, branch: job.branch, force: false },
    ).say(EffectView::RemoveFolder { path: job.worktree_path });
    let closed = EngineView {
        issues: landed(e.issues, job.issue_id, now),
        inbox: approval_resolved(
            e.inbox,
            job.issue_id,
            key_for("merge"@, job.issue_id),
            object1("action"@, JsonView::Str("merged"@)),
            now,
        ),
        ..torn_down
    }.say(issue_changed(job.space_id, job.issue_id, "merged"@)).say(
        EffectView::WakeDriver(job.issue_id),
    ).say(EffectView::ReleaseRepoLock);
    if e.issue(job.issue_id) is Some {
        closed.say(EffectView::Reflect(job.issue_id))
    } else {
        closed
    }
}

/// Merging an issue.
pub open spec fn merge_step(e: EngineView, event: MergeEvent, now: Timestamp) -> (
    EngineView,
    MergeActionView,
) {
    match event {
        MergeEvent::Requested { issue_id } => match e.issue(issue_id) {
            None => (
                e,
                MergeActionView::Return(Err(LoopErrorView::NotFound(numbered("issue "@, issue_id)))),
            ),
            Some(issue) => match e.space(issue.space_id) {
                None => (
                    e,
                    MergeActionView::Return(
                        Err(LoopErrorView::NotFound(numbered("space "@, issue.space_id))),
                    ),
                ),
                Some(space) => match e.folder(space.folder_id) {
                    None => (e, MergeActionView::Return(Err(LoopErrorView::Detached))),
                    Some(repo) => (e, MergeActionView::LockRepo { repo_path: repo.path }),
                },
            },
        },
        MergeEvent::Locked { issue_id, repo_path } => match e.issue(issue_id) {
            None => (
                e,
                MergeActionView::Return(Err(LoopErrorView::NotFound(numbered("issue "@, issue_id)))),
            ),
            Some(issue) => if issue.status == IssueStatus::Done {
                (
                    e.say(issue_changed(issue.space_id, issue_id, "merged"@)),
                    MergeActionView::Return(Ok(())),
                )
            } else {
                (e, MergeActionView::CheckIntegration { repo_path: repo_path@ })
            },
        },
        MergeEvent::IntegrationChecked { issue_id, repo_path, passed } => match passed {
            Err(x) => (e, MergeActionView::Return(Err(x@))),
            Ok(passed) => match e.issue(issue_id) {
                None => (
                    e,
                    MergeActionView::Return(
                        Err(LoopErrorView::NotFound(numbered("issue "@, issue_id))),
                    ),
                ),
                Some(issue) => if issue.status != IssueStatus::Running || !passed {
                    (
                        e.say(issue_changed(issue.space_id, issue_id, "merge_unavailable"@)),
                        MergeActionView::Return(Err(LoopErrorView::NotMergeable)),
                    )
                } else {
                    match merge_job(e, issue, repo_path@) {
                        Err(x) => (e, MergeActionView::Return(Err(x))),
                        Ok(job) => (e, MergeActionView::RunMerge(job)),
                    }
                },
            },
        },
        MergeEvent::MergeRun { job, outcome } => match outcome {
            Err(x) => (e, MergeActionView::Return(Err(x@))),
            Ok(o) => match o@ {
                MergeOutcomeView::Merged => (
                    merge_landed(e, job@, now),
                    MergeActionView::Return(Ok(())),
                ),
                fault => (
                    merge_faulted(e, job@, fault, now),
                    MergeActionView::Return(Err(LoopErrorView::MergeFailed(fault_message(fault)))),
                ),
            },
        },
    }
}

/// The card of a fault can be filed.
pub open spec fn fault_room(e: EngineView, job: MergeJobView) -> bool {
    card_room(
        e.inbox,
        job.issue_id,
        InboxKind::Blocked,
        key_for("merge_blocked"@, job.issue_id),
    )
}

/// Where the step files a card, it can be filed.
pub open spec fn merge_room(e: EngineView, event: MergeEvent) -> bool {
    match event {
        MergeEvent::MergeRun { job, outcome } => match outcome {
            Ok(o) => o is Merged || fault_room(e, job@),
            Err(_) => true,
        },
        _ => true,
    }
}

impl LoopEngine {
    /// The job that merges an issue, or what stands in its way.
    fn make_merge_job(&self, i: usize, repo_path: String) -> (r: Result<MergeJob, LoopError>)
        requires
            i < self.issues.rows@.len(),
        ensures
            match r {
                Ok(job) => merge_job(self@, self.issues.rows@[i as int]@, repo_path@) == Ok::<
                    MergeJobView,
                    LoopErrorView,
                >(job@),
                Err(e) => merge_job(self@, self.issues.rows@[i as int]@, repo_path@) == Err::<
                    MergeJobView,
                    LoopErrorView,
                >(e@),
            },
    {
        let issue = &self.issues.rows[i];
        let folder_id: i32 = match issue.worktree_folder_id {
            Some(id) => id,
            None => {
                let mut what = numbered_text("issue ", issue.id);
                what.append(" worktree");
                return Err(LoopError::NotFound(what));
            },
        };
        let f: usize = match self.find_folder(folder_id) {
            Some(f) => f,
            None => {
                return Err(LoopError::Detached);
            },
        };
        match &issue.base_branch {
            None => Err(LoopError::Git("issue has no recorded base branch".to_owned())),
            Some(base_branch) => match &issue.base_commit {
                None => Err(LoopError::Git("issue has no recorded base commit".to_owned())),
                Some(base_commit) => Ok(
                    MergeJob {
                        issue_id: issue.id,
                        space_id: issue.space_id,
                        repo_path,
                        worktree_path: self.folders.rows[f].path.clone(),
                        branch: make_branch_name(issue.space_id, issue.seq_no),
                        base_branch: base_branch.clone(),
                        base_commit: base_commit.clone(),
                    },
                ),
            },
        }
    }

    fn fault_merge(&mut self, job: &MergeJob, outcome: &MergeOutcome, now: Timestamp) -> (message:
        String)
        requires
            old(self).wf(),
            fault_room(old(self)@, job@),
        ensures
            final(self)@ == merge_faulted(old(self)@, job@, outcome@, now),
            final(self).wf(),
            message@ == fault_message(outcome@),
    {
        let (reason, message, detail) = merge_fault_report(outcome);
        cas_issue_status(
            &mut self.issues,
            job.issue_id,
            IssueStatus::Running,
            IssueStatus::Blocked,
            now,
        );
        upsert_inbox(
            &mut self.inbox,
            job.space_id,
            job.issue_id,
            None,
            InboxKind::Blocked,
            make_key("merge_blocked", job.issue_id).as_str(),
            make_object2(
                "reason",
                string_value(reason.to_owned()),
                "detail",
                string_value(detail),
            ),
            now,
        );
        resolve_approval_card(
            &mut self.inbox,
            job.issue_id,
            make_key("merge", job.issue_id).as_str(),
            make_object2(
                "action",
                string_value("merge_failed".to_owned()),
                "reason",
                string_value(reason.to_owned()),
            ),
            now,
        );
        self.emit_changed(job.space_id, job.issue_id, "blocked");
        self.say(Effect::WakeDriver(job.issue_id));
        message
    }

    fn land_merge(&mut self, job: &MergeJob, now: Timestamp)
        requires
            old(self).wf(),
        ensures
            final(self)@ == merge_landed(old(self)@, job@, now),
            final(self).wf(),
    {
        let known: bool = self.issues.find(job.issue_id).is_some();
        self.say(
            Effect::RemoveWorktree {
                repo_path: job.repo_path.clone(),
                worktree_path: job.worktree_path.clone(),
            },
        );
        self.say(
            Effect::RemoveSubtree {
                repo_path: job.repo_path.clone(),
                worktree_path: job.worktree_path.clone(),
            },
        );
        self.say(
            Effect::DeleteBranch {
                repo_path: job.repo_path.clone(),
                branch: job.branch.clone(),
                force: false,
            },
        );
        self.say(Effect::RemoveFolder { path: job.worktree_path.clone() });
        resolve_approval_card(
            &mut self.inbox,
            job.issue_id,
            make_key("merge", job.issue_id).as_str(),
            make_object1("action", string_value("merged".to_owned())),
            now,
        );
        if let Some(i) = self.issues.find(job.issue_id) {
            if self.issues.rows[i].status == IssueStatus::Running {
                let mut row = self.issues.rows[i].clone();
                row.status = IssueStatus::Done;
                row.ended_at = Some(now);
                row.updated_at = now;
                self.issues.set(i, row);
            }
        }
        self.emit_changed(job.space_id, job.issue_id, "merged");
        self.say(Effect::WakeDriver(job.issue_id));
        self.say(Effect::ReleaseRepoLock);
        if known {
            self.say(Effect::Reflect(job.issue_id));
        }
    }

    /// Land a finalized issue's work onto its base branch. The preconditions are
    /// evaluated under the repository's merge lock, so that two actors cannot both
    /// land it. A clean landing closes the issue; any fault blocks it with an
    /// inbox card that names the cause and returns [`LoopError::MergeFailed`]. A call
    /// after the issue is done returns `Ok` and announces `merged` once more; any
    /// other state that cannot merge returns [`LoopError::NotMergeable`] and announces
    /// it, so that a stale view is refreshed.
    pub fn merge_issue(&mut self, event: MergeEvent, now: Timestamp) -> (r: MergeAction)
        requires
            old(self).wf(),
            merge_room(old(self)@, event),
        ensures
            (final(self)@, r@) == merge_step(old(self)@, event, now),
            final(self).wf(),
    {
        match event {
            MergeEvent::Requested { issue_id } => match self.issues.find(issue_id) {
                None => MergeAction::Return(
                    Err(LoopError::NotFound(numbered_text("issue ", issue_id))),
                ),
                Some(i) => {
                    let space_id: i32 = self.issues.rows[i].space_id;
                    match self.spaces.find(space_id) {
                        None => MergeAction::Return(
                            Err(LoopError::NotFound(numbered_text("space ", space_id))),
                        ),
                        Some(s) => match self.find_folder(self.spaces.rows[s].folder_id) {
                            None => MergeAction::Return(Err(LoopError::Detached)),
                            Some(f) => MergeAction::LockRepo {
                                repo_path: self.folders.rows[f].path.clone(),
                            },
                        },
                    }
                },
            },
            MergeEvent::Locked { issue_id, repo_path } => match self.issues.find(issue_id) {
                None => MergeAction::Return(
                    Err(LoopError::NotFound(numbered_text("issue ", issue_id))),
                ),
                Some(i) => {
                    if self.issues.rows[i].status == IssueStatus::Done {
                        let space_id: i32 = self.issues.rows[i].space_id;
                        self.emit_changed(space_id, issue_id, "merged");
                        MergeAction::Return(Ok(()))
                    } else {
                        MergeAction::CheckIntegration { repo_path }
                    }
                },
            },
            MergeEvent::IntegrationChecked { issue_id, repo_path, passed } => {
                let passed: bool = match passed {
                    Ok(p) => p,
                    Err(e) => {
                        return MergeAction::Return(Err(e));
                    },
                };
                match self.issues.find(issue_id) {
                    None => MergeAction::Return(
                        Err(LoopError::NotFound(numbered_text("issue ", issue_id))),
                    ),
                    Some(i) => {
                        if self.issues.rows[i].status != IssueStatus::Running || !passed {
                            let space_id: i32 = self.issues.rows[i].space_id;
                            self.emit_changed(space_id, issue_id, "merge_unavailable");
                            return MergeAction::Return(Err(LoopError::NotMergeable));
                        }
                        match self.make_merge_job(i, repo_path) {
                            Ok(job) => MergeAction::RunMerge(job),
                            Err(e) => MergeAction::Return(Err(e)),
                        }
                    },
                }
            },
            MergeEvent::MergeRun { job, outcome } => match outcome {
                Err(e) => MergeAction::Return(Err(e)),
                Ok(MergeOutcome::Merged) => {
                    self.land_merge(&job, now);
                    MergeAction::Return(Ok(()))
                },
                Ok(fault) => {
                    let message = self.fault_merge(&job, &fault, now);
                    MergeAction::Return(Err(LoopError::MergeFailed(message)))
                },
            },
        }
    }
}

// ---------------------------------------------------------------------------
// Reflection
// ---------------------------------------------------------------------------

/// An agent run to be dispatched.
#[derive(Debug, Clone, Copy, PartialEq, Eq, Structural)]
pub struct DispatchInput {
    pub space_id: i32,
    pub issue_id: i32,
    pub stage: Stage,
    pub target_artifact_id: Option<i32>,
    pub slot_no: Option<i32>,
    pub attempt: i32,
    pub worktree_folder_id: i32,
}

/// The artifact is a reflection of the issue.
pub open spec fn reflection_of(issue_id: i32) -> spec_fn(loop_artifact::ModelView) -> bool {
    |a: loop_artifact::ModelView| a.issue_id == issue_id && a.kind == ArtifactKind::Reflection
}

/// The iteration is a reflect run of the issue that has ended. A run in flight is
/// not yet a spent attempt.
pub open spec fn spent_reflect(issue_id: i32) -> spec_fn(loop_iteration::ModelView) -> bool {
    |it: loop_iteration::ModelView|
        it.issue_id == issue_id && it.stage == Stage::Reflect && it.status
            != IterationStatus::Queued && it.status != IterationStatus::Running
}

/// How many reflect runs of the issue have been spent.
pub open spec fn reflect_attempts(rows: Seq<loop_iteration::ModelView>, issue_id: i32) -> u32 {
    count_where(rows, spent_reflect(issue_id)) as u32
}

/// The engine and the run to dispatch for the reflection on a done issue, under the
/// attempt limit of its configuration (none when that could not be read).
pub open spec fn reflect_post(
    e: EngineView,
    issue: loop_issue::ModelView,
    max_attempts: Option<u32>,
    now: Timestamp,
) -> (EngineView, Option<DispatchInput>) {
    if any_match(e.artifacts.rows, reflection_of(issue.id)) {
        (e, None)
    } else {
        match max_attempts {
            None => (e, None),
            Some(limit) => {
                let attempts = reflect_attempts(e.iterations.rows, issue.id);
                if limit > 0 && attempts >= limit {
                    let inbox = upserted(
                        e.inbox,
                        issue.space_id,
                        issue.id,
                        None,
                        InboxKind::ReflectionFailed,
                        key_for("reflect_failed"@, issue.id),
                        object2(
                            "reason"@,
                            JsonView::Str("reflect_exhausted"@),
                            "attempts"@,
                            JsonView::Int(attempts as int),
                        ),
                        now,
                    ).0;
                    (
                        e.with_inbox(inbox).say(
                            issue_changed(issue.space_id, issue.id, "reflect_exhausted"@),
                        ),
                        None,
                    )
                } else {
                    match e.space(issue.space_id) {
                        None => (e, None),
                        Some(space) => (
                            e,
                            Some(
                                DispatchInput {
                                    space_id: issue.space_id,
                                    issue_id: issue.id,
                                    stage: Stage::Reflect,
                                    target_artifact_id: None,
                                    slot_no: None,
                                    attempt: attempts as i32,
                                    worktree_folder_id: space.folder_id,
                                },
                            ),
                        ),
                    }
                }
            },
        }
    }
}

/// The reflection on the issue was tried as often as the limit allows, in vain.
pub open spec fn reflect_exhausted(
    e: EngineView,
    issue: loop_issue::ModelView,
    max_attempts: Option<u32>,
) -> bool {
    &&& !any_match(e.artifacts.rows, reflection_of(issue.id))
    &&& max_attempts is Some
    &&& max_attempts->Some_0 > 0
    &&& reflect_attempts(e.iterations.rows, issue.id) >= max_attempts->Some_0
}

/// Where the dispatch files a card, it can be filed.
pub open spec fn reflect_room(
    e: EngineView,
    issue: loop_issue::ModelView,
    max_attempts: Option<u32>,
) -> bool {
    reflect_exhausted(e, issue, max_attempts) ==> card_room(
        e.inbox,
        issue.id,
        InboxKind::ReflectionFailed,
        key_for("reflect_failed"@, issue.id),
    )
}

#[verifier::truncate]
fn low_u32(n: u64) -> (r: u32)
    ensures
        r == n as u32,
{
    n as u32
}

#[verifier::truncate]
fn attempt_no(n: u32) -> (r: i32)
    ensures
        r == n as i32,
{
    n as i32
}

impl LoopEngine {
    fn has_reflection(&self, issue_id: i32) -> (r: bool)
        ensures
            r == any_match(self@.artifacts.rows, reflection_of(issue_id)),
    {
        let ghost rows = self@.artifacts.rows;
        let mut i: usize = 0;
        while i < self.artifacts.rows.len()
            invariant
                i <= self.artifacts.rows@.len(),
                rows == self@.artifacts.rows,
                forall|j: int| 0 <= j < i ==> !reflection_of(issue_id)(#[trigger] rows[j]),
            decreases self.artifacts.rows@.len() - i,
        {
            assert(rows[i as int] == self.artifacts.rows@[i as int]@);
            if self.artifacts.rows[i].issue_id == issue_id && self.artifacts.rows[i].kind
                == ArtifactKind::Reflection {
                assert(reflection_of(issue_id)(rows[i as int]));
                return true;
            }
            i = i + 1;
        }
        false
    }

    fn count_reflects(&self, issue_id: i32) -> (n: u32)
        ensures
            n == reflect_attempts(self@.iterations.rows, issue_id),
    {
        let ghost rows = self@.iterations.rows;
        let ghost cond = spent_reflect(issue_id);
        let mut n: u64 = 0;
        let mut i: usize = 0;
        proof {
            reveal(Seq::filter);
        }
        while i < self.iterations.rows.len()
            invariant
                i <= self.iterations.rows@.len(),
                rows == self@.iterations.rows,
                cond == spent_reflect(issue_id),
                n == count_where(rows.take(i as int), cond),
                n <= i,
            decreases self.iterations.rows@.len() - i,
        {
            proof {
                lemma_count_step(rows, cond, i as int);
                assert(rows[i as int] == self.iterations.rows@[i as int]@);
            }
            let it = &self.iterations.rows[i];
            if it.issue_id == issue_id && it.stage == Stage::Reflect && it.status
                != IterationStatus::Queued && it.status != IterationStatus::Running {
                n = n + 1;
            }
            i = i + 1;
        }
        assert(rows.take(i as int) =~= rows);
        low_u32(n)
    }

    /// Best-effort reflect dispatch for a completed issue. It never fails and never
    /// changes an issue. When a reflection exists already, nothing is done. Bounded by
    /// `max_attempts` (zero is no bound): exhaustion files an informational inbox card.
    /// Otherwise a run in the base repository is to be dispatched.
    pub fn dispatch_reflect_best_effort(
        &mut self,
        issue: &loop_issue::Model,
        max_attempts: Option<u32>,
        now: Timestamp,
    ) -> (r: Option<DispatchInput>)
        requires
            old(self).wf(),
            reflect_room(old(self)@, issue@, max_attempts),
        ensures
            (final(self)@, r) == reflect_post(old(self)@, issue@, max_attempts, now),
            final(self).wf(),
    {
        if self.has_reflection(issue.id) {
            return None;
        }
        let limit: u32 = match max_attempts {
            Some(n) => n,
            None => {
                return None;
            },
        };
        let attempts: u32 = self.count_reflects(issue.id);
        if limit > 0 && attempts >= limit {
            upsert_inbox(
                &mut self.inbox,
                issue.space_id,
                issue.id,
                None,
                InboxKind::ReflectionFailed,
                make_key("reflect_failed", issue.id).as_str(),
                make_object2(
                    "reason",
                    string_value("reflect_exhausted".to_owned()),
                    "attempts",
                    integer_value(attempts as i64),
                ),
                now,
            );
            self.emit_changed(issue.space_id, issue.id, "reflect_exhausted");
            return None;
        }
        match self.spaces.find(issue.space_id) {
            None => None,
            Some(s) => Some(
                DispatchInput {
                    space_id: issue.space_id,
                    issue_id: issue.id,
                    stage: Stage::Reflect,
                    target_artifact_id: None,
                    slot_no: None,
                    attempt: attempt_no(attempts),
                    worktree_folder_id: self.spaces.rows[s].folder_id,
                },
            ),
        }
    }
}

} // verus!
