//! The loop engine: the tables it works on, and the effects it asks for. An action
//! changes the tables and appends to the outbox what is to be done outside, in
//! order: announcements, driver control, agent shutdown, worktree removal.

use crate::entities::{
    folder, loop_artifact, loop_artifact_revision, loop_inbox_item, loop_issue, loop_iteration,
    loop_link, loop_space,
};
use crate::table::{empty_table, lookup, table_wf, views, with_rows, Table, TableView};
use crate::text::{int_digits, int_text};
use vstd::prelude::*;

pub mod action_laws;
pub mod actions;
pub mod exit_laws;
pub mod exits;
pub mod fan_in;
pub mod fan_in_laws;
pub mod finalize;
pub mod finalize_laws;
pub mod guard_laws;
pub mod health;
pub mod landing_laws;
pub mod laws;
pub mod merge;
pub mod merge_laws;
pub mod metrics;
pub mod steering_laws;
pub mod terms;
pub mod tick_laws;
pub mod transitions;

verus! {

broadcast use vstd::string::group_string_axioms;

/// The refetch signal for one subject.
#[derive(Debug)]
pub struct LoopChanged {
    pub v: u32,
    pub space_id: i32,
    pub issue_id: Option<i32>,
    pub subject_kind: String,
    pub subject_id: i32,
    pub kind: String,
}

pub struct LoopChangedView {
    pub v: u32,
    pub space_id: i32,
    pub issue_id: Option<i32>,
    pub subject_kind: Seq<char>,
    pub subject_id: i32,
    pub kind: Seq<char>,
}

impl View for LoopChanged {
    type V = LoopChangedView;

    open spec fn view(&self) -> LoopChangedView {
        LoopChangedView {
            v: self.v,
            space_id: self.space_id,
            issue_id: self.issue_id,
            subject_kind: self.subject_kind@,
            subject_id: self.subject_id,
            kind: self.kind@,
        }
    }
}

/// Something to be done outside the tables.
#[derive(Debug)]
pub enum Effect {
    /// Announce a change.
    Changed(LoopChanged),
    /// Start a fresh driver for the issue.
    StartDriver(i32),
    /// Stop the driver of the issue.
    StopDriver(i32),
    /// Nudge the driver of the issue.
    WakeDriver(i32),
    /// Shut down the agent connection behind the conversation.
    Disconnect(i32),
    /// Remove the worktree of a cancelled issue, if its directory exists, and the
    /// worktrees below it; their branches stay.
    RemoveCancelledWorktree { repo_path: String, worktree_path: String },
    /// Remove a worktree.
    RemoveWorktree { repo_path: String, worktree_path: String },
    /// Remove the worktrees below an issue's worktree, with their branches.
    RemoveSubtree { repo_path: String, worktree_path: String },
    /// Delete a branch; unless forced, only when it is merged.
    DeleteBranch { repo_path: String, branch: String, force: bool },
    /// Remove the folder with the path.
    RemoveFolder { path: String },
    /// Release the merge lock of the repository.
    ReleaseRepoLock,
    /// Try to dispatch a reflect run for the issue.
    Reflect(i32),
}

/// What an [`Effect`] holds.
pub enum EffectView {
    Changed(LoopChangedView),
    StartDriver(i32),
    StopDriver(i32),
    WakeDriver(i32),
    Disconnect(i32),
    RemoveCancelledWorktree { repo_path: Seq<char>, worktree_path: Seq<char> },
    RemoveWorktree { repo_path: Seq<char>, worktree_path: Seq<char> },
    RemoveSubtree { repo_path: Seq<char>, worktree_path: Seq<char> },
    DeleteBranch { repo_path: Seq<char>, branch: Seq<char>, force: bool },
    RemoveFolder { path: Seq<char> },
    ReleaseRepoLock,
    Reflect(i32),
}

impl View for Effect {
    type V = EffectView;

    open spec fn view(&self) -> EffectView {
        match *self {
            Effect::Changed(c) => EffectView::Changed(c@),
            Effect::StartDriver(id) => EffectView::StartDriver(id),
            Effect::StopDriver(id) => EffectView::StopDriver(id),
            Effect::WakeDriver(id) => EffectView::WakeDriver(id),
            Effect::Disconnect(id) => EffectView::Disconnect(id),
            Effect::RemoveCancelledWorktree { repo_path, worktree_path } => {
                EffectView::RemoveCancelledWorktree {
                    repo_path: repo_path@,
                    worktree_path: worktree_path@,
                }
            },
            Effect::RemoveWorktree { repo_path, worktree_path } => EffectView::RemoveWorktree {
                repo_path: repo_path@,
                worktree_path: worktree_path@,
            },
            Effect::RemoveSubtree { repo_path, worktree_path } => EffectView::RemoveSubtree {
                repo_path: repo_path@,
                worktree_path: worktree_path@,
            },
            Effect::DeleteBranch { repo_path, branch, force } => EffectView::DeleteBranch {
                repo_path: repo_path@,
                branch: branch@,
                force,
            },
            Effect::RemoveFolder { path } => EffectView::RemoveFolder { path: path@ },
            Effect::ReleaseRepoLock => EffectView::ReleaseRepoLock,
            Effect::Reflect(id) => EffectView::Reflect(id),
        }
    }
}

/// The announcement of a change of an issue.
pub open spec fn issue_changed(space_id: i32, issue_id: i32, kind: Seq<char>) -> EffectView {
    EffectView::Changed(
        LoopChangedView {
            v: 1,
            space_id,
            issue_id: Some(issue_id),
            subject_kind: "issue"@,
            subject_id: issue_id,
            kind,
        },
    )
}

/// The engine: its tables, and what it asks to be done outside.
#[derive(Debug)]
pub struct LoopEngine {
    pub issues: Table<loop_issue::Model>,
    pub artifacts: Table<loop_artifact::Model>,
    pub revisions: Table<loop_artifact_revision::Model>,
    pub links: Table<loop_link::Model>,
    pub iterations: Table<loop_iteration::Model>,
    pub inbox: Table<loop_inbox_item::Model>,
    pub spaces: Table<loop_space::Model>,
    pub folders: Table<folder::Model>,
    pub outbox: Vec<Effect>,
}

/// What the engine holds.
pub struct EngineView {
    pub issues: TableView<loop_issue::ModelView>,
    pub artifacts: TableView<loop_artifact::ModelView>,
    pub revisions: TableView<loop_artifact_revision::ModelView>,
    pub links: TableView<loop_link::Model>,
    pub iterations: TableView<loop_iteration::ModelView>,
    pub inbox: TableView<loop_inbox_item::ModelView>,
    pub spaces: TableView<loop_space::ModelView>,
    pub folders: TableView<folder::ModelView>,
    pub outbox: Seq<EffectView>,
}

impl View for LoopEngine {
    type V = EngineView;

    open spec fn view(&self) -> EngineView {
        EngineView {
            issues: self.issues@,
            artifacts: self.artifacts@,
            revisions: self.revisions@,
            links: self.links@,
            iterations: self.iterations@,
            inbox: self.inbox@,
            spaces: self.spaces@,
            folders: self.folders@,
            outbox: views(self.outbox@),
        }
    }
}

impl EngineView {
    /// Every table is well-formed.
    pub open spec fn wf(self) -> bool {
        &&& table_wf::<loop_issue::Model>(self.issues)
        &&& table_wf::<loop_artifact::Model>(self.artifacts)
        &&& table_wf::<loop_artifact_revision::Model>(self.revisions)
        &&& table_wf::<loop_link::Model>(self.links)
        &&& table_wf::<loop_iteration::Model>(self.iterations)
        &&& table_wf::<loop_inbox_item::Model>(self.inbox)
        &&& table_wf::<loop_space::Model>(self.spaces)
        &&& table_wf::<folder::Model>(self.folders)
    }

    /// The engine after it asked for one more effect.
    pub open spec fn say(self, e: EffectView) -> EngineView {
        EngineView { outbox: self.outbox.push(e), ..self }
    }

    /// The engine with another issue row at a place.
    pub open spec fn set_issue(self, i: int, v: loop_issue::ModelView) -> EngineView {
        EngineView { issues: with_rows(self.issues, self.issues.rows.update(i, v)), ..self }
    }

    /// The engine with another artifact row at a place.
    pub open spec fn set_artifact(self, i: int, v: loop_artifact::ModelView) -> EngineView {
        EngineView {
            artifacts: with_rows(self.artifacts, self.artifacts.rows.update(i, v)),
            ..self
        }
    }

    /// The engine with other inbox contents.
    pub open spec fn with_inbox(self, inbox: TableView<loop_inbox_item::ModelView>) -> EngineView {
        EngineView { inbox, ..self }
    }

    /// The issue with the given id.
    pub open spec fn issue(self, id: i32) -> Option<loop_issue::ModelView> {
        lookup::<loop_issue::Model>(self.issues.rows, id)
    }

    /// The space with the given id.
    pub open spec fn space(self, id: i32) -> Option<loop_space::ModelView> {
        lookup::<loop_space::Model>(self.spaces.rows, id)
    }

    /// The folder with the given id, unless it was removed.
    pub open spec fn folder(self, id: i32) -> Option<folder::ModelView> {
        match lookup::<folder::Model>(self.folders.rows, id) {
            Some(f) => if f.deleted_at is None {
                Some(f)
            } else {
                None
            },
            None => None,
        }
    }

    /// The root folder of a space.
    pub open spec fn space_folder(self, space_id: i32) -> Option<folder::ModelView> {
        match self.space(space_id) {
            Some(s) => self.folder(s.folder_id),
            None => None,
        }
    }
}

impl LoopEngine {
    /// Every table is well-formed.
    pub open spec fn wf(&self) -> bool {
        self@.wf()
    }

    /// An engine with empty tables, whose first rows get the id one, and nothing to be
    /// done outside.
    pub fn new() -> (r: Self)
        ensures
            r.wf(),
            r@ == (EngineView {
                issues: empty_table(),
                artifacts: empty_table(),
                revisions: empty_table(),
                links: empty_table(),
                iterations: empty_table(),
                inbox: empty_table(),
                spaces: empty_table(),
                folders: empty_table(),
                outbox: Seq::empty(),
            }),
    {
        let r = LoopEngine {
            issues: Table::new(),
            artifacts: Table::new(),
            revisions: Table::new(),
            links: Table::new(),
            iterations: Table::new(),
            inbox: Table::new(),
            spaces: Table::new(),
            folders: Table::new(),
            outbox: Vec::new(),
        };
        assert(r@.outbox =~= Seq::empty());
        r
    }

    /// Asks for one more effect.
    pub(crate) fn say(&mut self, e: Effect)
        ensures
            final(self)@ == old(self)@.say(e@),
    {
        let ghost before = self@;
        self.outbox.push(e);
        assert(self@.outbox =~= before.outbox.push(e@));
    }

    /// Announces a change of an issue.
    pub fn emit_changed(&mut self, space_id: i32, issue_id: i32, kind: &str)
        ensures
            final(self)@ == old(self)@.say(issue_changed(space_id, issue_id, kind@)),
    {
        self.say(
            Effect::Changed(
                LoopChanged {
                    v: 1,
                    space_id,
                    issue_id: Some(issue_id),
                    subject_kind: "issue".to_owned(),
                    subject_id: issue_id,
                    kind: kind.to_owned(),
                },
            ),
        );
    }

    /// The place of the folder with the given id, unless it was removed.
    pub(crate) fn find_folder(&self, id: i32) -> (r: Option<usize>)
        ensures
            match r {
                Some(i) => i < self.folders.rows@.len() && self@.folder(id) == Some(
                    self.folders.rows@[i as int]@,
                ),
                None => self@.folder(id) is None,
            },
    {
        match self.folders.find(id) {
            Some(i) => if self.folders.rows[i].deleted_at.is_none() {
                Some(i)
            } else {
                None
            },
            None => None,
        }
    }

    /// The path of the root folder of a space.
    pub(crate) fn space_path(&self, space_id: i32) -> (r: Option<String>)
        ensures
            match r {
                Some(p) => self@.space_folder(space_id) is Some && p@ == self@.space_folder(
                    space_id,
                )->Some_0.path,
                None => self@.space_folder(space_id) is None,
            },
    {
        match self.spaces.find(space_id) {
            Some(s) => match self.find_folder(self.spaces.rows[s].folder_id) {
                Some(f) => Some(self.folders.rows[f].path.clone()),
                None => None,
            },
            None => None,
        }
    }
}

/// A name followed by a number.
pub open spec fn numbered(name: Seq<char>, n: i32) -> Seq<char> {
    name + int_digits(n as int)
}

pub(crate) fn numbered_text(name: &str, n: i32) -> (r: String)
    ensures
        r@ == numbered(name@, n),
{
    let mut s = name.to_owned();
    s.append(int_text(n).as_str());
    s
}

/// The branch of an issue: `loop/{space}/issue-{number}`.
pub open spec fn branch_name(space_id: i32, seq_no: i32) -> Seq<char> {
    numbered(numbered("loop/"@, space_id) + "/issue-"@, seq_no)
}

pub(crate) fn make_branch_name(space_id: i32, seq_no: i32) -> (r: String)
    ensures
        r@ == branch_name(space_id, seq_no),
{
    let mut s = numbered_text("loop/", space_id);
    s.append("/issue-");
    s.append(int_text(seq_no).as_str());
    s
}

} // verus!
