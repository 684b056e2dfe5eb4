//! The parallel fan-in: the session manifest that freezes what is to be integrated,
//! and the result that stands for it once it has landed.

use crate::clock::Timestamp;
use crate::entities::loop_artifact::{self, ArtifactKind, ArtifactStatus, ContributionKind};
use crate::entities::loop_artifact_revision::{self, ActorKind};
use crate::entities::loop_link::{self, LinkKind};
use crate::error::{LoopError, LoopErrorView};
use crate::loop_engine::{numbered, numbered_text, EngineView, LoopEngine};
use crate::loop_service::link::{create_link, joins, linked};
use crate::order::{by_id, by_rank, lemma_same_sorted, lemma_sorted_pairs, sorted_ids, sorted_pairs};
use crate::table::{
    any_match, first_at, first_match, ids_ascend, lemma_count_step, lemma_filter_from,
    lemma_first_is, lemma_first_match, lemma_lookup, lemma_lookup_at, lookup, views, with_row,
    Table, TableView,
};
use crate::text::{nat_digits, nat_text, same_text};
use vstd::prelude::*;
use vstd::seq_lib::*;

verus! {

broadcast use vstd::string::group_string_axioms;

/// One frozen task commit in the fan-in manifest.
#[derive(Debug)]
pub struct FanInEntry {
    pub task_id: i32,
    pub sha: String,
}

/// What a [`FanInEntry`] holds.
pub struct FanInEntryView {
    pub task_id: i32,
    pub sha: Seq<char>,
}

impl View for FanInEntry {
    type V = FanInEntryView;

    open spec fn view(&self) -> FanInEntryView {
        FanInEntryView { task_id: self.task_id, sha: self.sha@ }
    }
}

impl Clone for FanInEntry {
    fn clone(&self) -> (r: Self)
        ensures
            r == *self,
    {
        FanInEntry { task_id: self.task_id, sha: self.sha.clone() }
    }
}

/// Versioned, write-once fan-in session manifest. `ordered` is the merge order frozen
/// at claim time: a resume replays it, and never computes it from tables that may
/// have changed.
#[derive(Debug)]
pub struct FanInManifest {
    pub v: u32,
    /// The issue branch tip at claim time: the base of the integrate branch, and what
    /// the issue branch must still be at to land.
    pub issue_base_oid: String,
    /// The active task set at claim time, sorted. A version 1 manifest lacks it.
    pub active_task_ids: Vec<i32>,
    /// The tasks that carry a frozen commit, in merge order.
    pub ordered: Vec<FanInEntry>,
    /// The tasks without a commit: recorded for provenance, skipped by the merge.
    pub skipped_no_op_task_ids: Vec<i32>,
}

/// What a [`FanInManifest`] holds.
pub struct FanInManifestView {
    pub v: u32,
    pub issue_base_oid: Seq<char>,
    pub active_task_ids: Seq<i32>,
    pub ordered: Seq<FanInEntryView>,
    pub skipped_no_op_task_ids: Seq<i32>,
}

impl View for FanInManifest {
    type V = FanInManifestView;

    open spec fn view(&self) -> FanInManifestView {
        FanInManifestView {
            v: self.v,
            issue_base_oid: self.issue_base_oid@,
            active_task_ids: self.active_task_ids@,
            ordered: views(self.ordered@),
            skipped_no_op_task_ids: self.skipped_no_op_task_ids@,
        }
    }
}

impl FanInManifestView {
    /// All members: the tasks to merge, then the no-ops.
    pub open spec fn members(self) -> Seq<i32> {
        self.ordered.map_values(|e: FanInEntryView| e.task_id) + self.skipped_no_op_task_ids
    }

    /// The members are the active tasks, each once. A manifest without an active set
    /// claims nothing.
    pub open spec fn partition_ok(self) -> bool {
        self.active_task_ids.len() == 0 || self.members().to_multiset()
            == self.active_task_ids.to_multiset()
    }
}

impl FanInManifest {
    /// The commits to merge, in order.
    pub fn ordered_pairs(&self) -> (r: Vec<(i32, String)>)
        ensures
            r@.len() == self.ordered@.len(),
            forall|i: int|
                0 <= i < r@.len() ==> (#[trigger] r@[i]).0 == self@.ordered[i].task_id && r@[i].1@
                    == self@.ordered[i].sha,
    {
        let mut out: Vec<(i32, String)> = Vec::new();
        let mut i: usize = 0;
        while i < self.ordered.len()
            invariant
                i <= self.ordered@.len(),
                out@.len() == i,
                forall|j: int|
                    0 <= j < i ==> (#[trigger] out@[j]).0 == self@.ordered[j].task_id && out@[j].1@
                        == self@.ordered[j].sha,
            decreases self.ordered@.len() - i,
        {
            out.push((self.ordered[i].task_id, self.ordered[i].sha.clone()));
            i = i + 1;
        }
        out
    }

    /// All member task ids: those to merge, then the no-ops. The provenance set that
    /// the result is linked to, so that no-op tasks are not dropped from the lineage.
    pub fn all_member_task_ids(&self) -> (r: Vec<i32>)
        ensures
            r@ == self@.members(),
    {
        let mut out: Vec<i32> = Vec::new();
        let mut i: usize = 0;
        while i < self.ordered.len()
            invariant
                i <= self.ordered@.len(),
                out@.len() == i,
                forall|j: int| 0 <= j < i ==> #[trigger] out@[j] == self@.ordered[j].task_id,
            decreases self.ordered@.len() - i,
        {
            out.push(self.ordered[i].task_id);
            i = i + 1;
        }
        let n: usize = i;
        let mut k: usize = 0;
        while k < self.skipped_no_op_task_ids.len()
            invariant
                k <= self.skipped_no_op_task_ids@.len(),
                n == self.ordered@.len(),
                out@.len() == n + k,
                forall|j: int| 0 <= j < n ==> #[trigger] out@[j] == self@.ordered[j].task_id,
                forall|j: int|
                    n <= j < n + k ==> #[trigger] out@[j] == self.skipped_no_op_task_ids@[j - n],
            decreases self.skipped_no_op_task_ids@.len() - k,
        {
            out.push(self.skipped_no_op_task_ids[k]);
            k = k + 1;
        }
        assert(out@ =~= self@.members());
        out
    }
}

/// Reading back a stored manifest: one that does not decode is invalid input, and one
/// whose members are not its active tasks is refused.
pub open spec fn parsed_manifest(decoded: Result<FanInManifestView, Seq<char>>) -> Result<
    FanInManifestView,
    LoopErrorView,
> {
    match decoded {
        Err(e) => Err(LoopErrorView::InvalidInput("fan-in manifest decode: "@ + e)),
        Ok(m) => if m.partition_ok() {
            Ok(m)
        } else {
            Err(
                LoopErrorView::Git(
                    "fan-in manifest partition does not cover the active task set (resume)"@,
                ),
            )
        },
    }
}

/// A decoded manifest, or the decoder's message.
pub open spec fn decoded_view(d: Result<FanInManifest, String>) -> Result<
    FanInManifestView,
    Seq<char>,
> {
    match d {
        Ok(m) => Ok(m@),
        Err(e) => Err(e@),
    }
}

/// A manifest result by its views.
pub open spec fn manifest_outcome(r: Result<FanInManifest, LoopError>) -> Result<
    FanInManifestView,
    LoopErrorView,
> {
    match r {
        Ok(m) => Ok(m@),
        Err(e) => Err(e@),
    }
}

/// Check a manifest decoded from its stored text. The partition is validated on resume
/// too, not only when the manifest is built: a corrupted or hand-edited one must not
/// strand a task. A manifest without an active set skips the check.
pub fn parse_manifest(decoded: Result<FanInManifest, String>) -> (r: Result<
    FanInManifest,
    LoopError,
>)
    ensures
        manifest_outcome(r) == parsed_manifest(decoded_view(decoded)),
{
    match decoded {
        Err(e) => {
            let mut message = "fan-in manifest decode: ".to_owned();
            message.append(e.as_str());
            Err(LoopError::InvalidInput(message))
        },
        Ok(m) => {
            if m.active_task_ids.len() > 0 {
                let members = m.all_member_task_ids();
                let covered = sorted_ids(&members);
                let active = sorted_ids(&m.active_task_ids);
                proof {
                    lemma_same_sorted(members@, m.active_task_ids@);
                }
                if !same_ids(&covered, &active) {
                    return Err(
                        LoopError::Git(
                            "fan-in manifest partition does not cover the active task set (resume)".to_owned(),
                        ),
                    );
                }
            }
            Ok(m)
        },
    }
}

fn same_ids(a: &Vec<i32>, b: &Vec<i32>) -> (r: bool)
    ensures
        r == (a@ == b@),
{
    if a.len() != b.len() {
        return false;
    }
    let mut i: usize = 0;
    while i < a.len()
        invariant
            i <= a@.len() == b@.len(),
            forall|j: int| 0 <= j < i ==> #[trigger] a@[j] == b@[j],
        decreases a@.len() - i,
    {
        if a[i] != b[i] {
            return false;
        }
        i = i + 1;
    }
    assert(a@ =~= b@);
    true
}

/// The all-no-op fast-path decision. A manifest without commits means that the
/// integration must be exactly the issue base. This is decided before asking whether
/// every frozen commit has landed, which holds of an empty list at any tip.
#[derive(Debug, Clone, Copy, PartialEq, Eq, Structural)]
pub enum NoOpGate {
    /// No commits, and the branch is at base: finish.
    FinishAtBase,
    /// No commits, but the branch moved past base: block, and never make a result of
    /// an unreviewed tip.
    BlockMovedTip,
    /// There are commits: the normal flow.
    NotAllNoOp,
}

pub open spec fn gate_of(m: FanInManifestView, tip: Seq<char>) -> NoOpGate {
    if m.ordered.len() > 0 {
        NoOpGate::NotAllNoOp
    } else if tip == m.issue_base_oid {
        NoOpGate::FinishAtBase
    } else {
        NoOpGate::BlockMovedTip
    }
}

pub fn no_op_gate(manifest: &FanInManifest, issue_tip: &str) -> (r: NoOpGate)
    ensures
        r == gate_of(manifest@, issue_tip@),
{
    if manifest.ordered.len() > 0 {
        return NoOpGate::NotAllNoOp;
    }
    if same_text(issue_tip, manifest.issue_base_oid.as_str()) {
        NoOpGate::FinishAtBase
    } else {
        NoOpGate::BlockMovedTip
    }
}

// ---------------------------------------------------------------------------
// Building the manifest
// ---------------------------------------------------------------------------

/// The artifact is a done task of the issue.
pub open spec fn done_task(issue_id: i32) -> spec_fn(loop_artifact::ModelView) -> bool {
    |a: loop_artifact::ModelView|
        a.issue_id == issue_id && a.kind == ArtifactKind::Task && a.status == ArtifactStatus::Done
}

/// The rank of a task in the merge order.
pub open spec fn rank_of() -> spec_fn(loop_artifact::ModelView) -> (i32, i32) {
    |a: loop_artifact::ModelView| (a.sort, a.id)
}

pub open spec fn second() -> spec_fn((i32, i32)) -> i32 {
    |k: (i32, i32)| k.1
}

/// The `(sort, id)` pairs of the done tasks of the issue, ascending. A task that
/// depends on another has the larger `sort`, so that this is a topological order.
pub open spec fn task_order(rows: Seq<loop_artifact::ModelView>, issue_id: i32) -> Seq<(i32, i32)> {
    rows.filter(done_task(issue_id)).map_values(rank_of()).sort_by(by_rank())
}

/// The task that a pair names.
pub open spec fn ranked_task(rows: Seq<loop_artifact::ModelView>, k: (i32, i32)) -> loop_artifact::ModelView {
    lookup::<loop_artifact::Model>(rows, k.1)->Some_0
}

/// The task carries a diff.
pub open spec fn is_delta(rows: Seq<loop_artifact::ModelView>) -> spec_fn((i32, i32)) -> bool {
    |k: (i32, i32)| ranked_task(rows, k).contribution_kind == ContributionKind::Delta
}

/// The task was a no-op.
pub open spec fn is_no_op(rows: Seq<loop_artifact::ModelView>) -> spec_fn((i32, i32)) -> bool {
    |k: (i32, i32)| ranked_task(rows, k).contribution_kind == ContributionKind::NoOp
}

/// The task should carry a commit and does not.
pub open spec fn lacks_commit(rows: Seq<loop_artifact::ModelView>) -> spec_fn((i32, i32)) -> bool {
    |k: (i32, i32)| is_delta(rows)(k) && ranked_task(rows, k).fan_in_commit is None
}

/// The manifest entry of a task.
pub open spec fn entry_of(rows: Seq<loop_artifact::ModelView>) -> spec_fn(
    (i32, i32),
) -> FanInEntryView {
    |k: (i32, i32)|
        FanInEntryView { task_id: k.1, sha: ranked_task(rows, k).fan_in_commit->Some_0 }
}

/// The manifest of the done tasks of an issue: each either to be merged, in order, or
/// skipped. A task with a diff but without a frozen commit is a fault.
pub open spec fn built_manifest(
    rows: Seq<loop_artifact::ModelView>,
    issue_id: i32,
    base_oid: Seq<char>,
) -> Result<FanInManifestView, LoopErrorView> {
    let order = task_order(rows, issue_id);
    match first_match(order, lacks_commit(rows)) {
        Some(i) => Err(
            LoopErrorView::Git(
                numbered("delta task "@, order[i].1) + " has no frozen commit (invariant)"@,
            ),
        ),
        None => Ok(
            FanInManifestView {
                v: 2,
                issue_base_oid: base_oid,
                active_task_ids: order.map_values(second()).sort_by(by_id()),
                ordered: order.filter(is_delta(rows)).map_values(entry_of(rows)),
                skipped_no_op_task_ids: order.filter(is_no_op(rows)).map_values(second()),
            },
        ),
    }
}

/// Every pair of the task order names a row of the table.
pub proof fn lemma_order_known(rows: Seq<loop_artifact::ModelView>, issue_id: i32, k: (i32, i32))
    requires
        ids_ascend::<loop_artifact::Model>(rows),
        task_order(rows, issue_id).contains(k),
    ensures
        exists|i: int|
            0 <= i < rows.len() && #[trigger] rows[i].id == k.1 && rows[i].sort == k.0 && done_task(
                issue_id,
            )(rows[i]) && lookup::<loop_artifact::Model>(rows, k.1) == Some(rows[i]),
{
    let done = rows.filter(done_task(issue_id));
    let pairs = done.map_values(rank_of());
    lemma_sorted_pairs(pairs);
    assert(pairs.contains(k));
    let j = pairs.index_of(k);
    assert(pairs[j] == k);
    lemma_filter_from(rows, done_task(issue_id), j);
    let i = choose|i: int| 0 <= i < rows.len() && #[trigger] rows[i] == done[j];
    lemma_lookup_at::<loop_artifact::Model>(rows, i);
}

fn done_task_ranks(artifacts: &Table<loop_artifact::Model>, issue_id: i32) -> (r: Vec<(i32, i32)>)
    ensures
        r@ == task_order(artifacts@.rows, issue_id),
{
    let ghost rows = artifacts@.rows;
    let ghost cond = done_task(issue_id);
    let ghost f = rank_of();
    let mut pairs: Vec<(i32, i32)> = Vec::new();
    let mut i: usize = 0;
    proof {
        reveal(Seq::filter);
        assert(pairs@ =~= rows.take(0).filter(cond).map_values(f));
    }
    while i < artifacts.rows.len()
        invariant
            i <= artifacts.rows@.len(),
            rows == artifacts@.rows,
            cond == done_task(issue_id),
            f == rank_of(),
            pairs@ == rows.take(i as int).filter(cond).map_values(f),
        decreases artifacts.rows@.len() - i,
    {
        proof {
            lemma_count_step(rows, cond, i as int);
            assert(rows[i as int] == artifacts.rows@[i as int]@);
            let found = rows.take(i as int).filter(cond);
            assert(found.push(rows[i as int]).map_values(f) =~= found.map_values(f).push(
                f(rows[i as int]),
            ));
        }
        let a = &artifacts.rows[i];
        if a.issue_id == issue_id && a.kind == ArtifactKind::Task && a.status
            == ArtifactStatus::Done {
            pairs.push((a.sort, a.id));
        }
        i = i + 1;
    }
    assert(rows.take(i as int) =~= rows);
    sorted_pairs(&pairs)
}

/// Build the manifest from the current done tasks of the issue. `base_oid` is the
/// issue branch tip.
pub fn build_manifest(
    artifacts: &Table<loop_artifact::Model>,
    issue_id: i32,
    base_oid: String,
) -> (r: Result<FanInManifest, LoopError>)
    requires
        artifacts.wf(),
    ensures
        manifest_outcome(r) == built_manifest(artifacts@.rows, issue_id, base_oid@),
{
    let ghost rows = artifacts@.rows;
    let order = done_task_ranks(artifacts, issue_id);
    let mut ordered: Vec<FanInEntry> = Vec::new();
    let mut skipped: Vec<i32> = Vec::new();
    let mut ids: Vec<i32> = Vec::new();
    let mut i: usize = 0;
    let ghost delta = is_delta(rows);
    let ghost no_op = is_no_op(rows);
    let ghost bad = lacks_commit(rows);
    proof {
        reveal(Seq::filter);
        assert(views(ordered@) =~= order@.take(0).filter(delta).map_values(entry_of(rows)));
        assert(skipped@ =~= order@.take(0).filter(no_op).map_values(second()));
        assert(ids@ =~= order@.take(0).map_values(second()));
    }
    while i < order.len()
        invariant
            i <= order@.len(),
            artifacts.wf(),
            rows == artifacts@.rows,
            order@ == task_order(rows, issue_id),
            delta == is_delta(rows),
            no_op == is_no_op(rows),
            bad == lacks_commit(rows),
            views(ordered@) == order@.take(i as int).filter(delta).map_values(entry_of(rows)),
            skipped@ == order@.take(i as int).filter(no_op).map_values(second()),
            ids@ == order@.take(i as int).map_values(second()),
            forall|j: int| 0 <= j < i ==> !bad(#[trigger] order@[j]),
        decreases order@.len() - i,
    {
        let (sort, id) = order[i];
        let ghost k = order@[i as int];
        proof {
            assert(order@.contains(k));
            lemma_order_known(rows, issue_id, k);
            lemma_count_step(order@, delta, i as int);
            lemma_count_step(order@, no_op, i as int);
            let d = order@.take(i as int).filter(delta);
            assert(d.push(k).map_values(entry_of(rows)) =~= d.map_values(entry_of(rows)).push(
                entry_of(rows)(k),
            ));
            let s = order@.take(i as int).filter(no_op);
            assert(s.push(k).map_values(second()) =~= s.map_values(second()).push(k.1));
            assert(order@.take(i + 1) =~= order@.take(i as int).push(k));
            assert(order@.take(i as int).push(k).map_values(second()) =~= order@.take(
                i as int,
            ).map_values(second()).push(k.1));
            lemma_lookup::<loop_artifact::Model>(rows, k.1);
        }
        if let Some(a) = artifacts.find(id) {
            assert(ranked_task(rows, k) == artifacts.rows@[a as int]@);
            match artifacts.rows[a].contribution_kind {
                ContributionKind::Delta => {
                    match &artifacts.rows[a].fan_in_commit {
                        Some(sha) => {
                            let ghost before = ordered@;
                            let entry = FanInEntry { task_id: id, sha: sha.clone() };
                            ordered.push(entry);
                            assert(views(ordered@) =~= views(before).push(entry@));
                        },
                        None => {
                            proof {
                                lemma_first_is(order@, bad, i as int);
                            }
                            let mut message = numbered_text("delta task ", id);
                            message.append(" has no frozen commit (invariant)");
                            return Err(LoopError::Git(message));
                        },
                    }
                },
                ContributionKind::NoOp => {
                    skipped.push(id);
                },
            }
        }
        ids.push(id);
        i = i + 1;
    }
    proof {
        assert(order@.take(i as int) =~= order@);
        lemma_first_match(order@, bad);
    }
    Ok(
        FanInManifest {
            v: 2,
            issue_base_oid: base_oid,
            active_task_ids: sorted_ids(&ids),
            ordered,
            skipped_no_op_task_ids: skipped,
        },
    )
}

/// Splitting a list by a condition keeps its members, counted.
proof fn lemma_split_members(
    order: Seq<(i32, i32)>,
    p: spec_fn((i32, i32)) -> bool,
    q: spec_fn((i32, i32)) -> bool,
)
    requires
        forall|k: (i32, i32)| #[trigger] p(k) != q(k),
    ensures
        (order.filter(p).map_values(second()) + order.filter(q).map_values(second())).to_multiset()
            == order.map_values(second()).to_multiset(),
    decreases order.len(),
{
    reveal(Seq::filter);
    broadcast use group_to_multiset_ensures;
    broadcast use vstd::multiset::group_multiset_axioms;

    let f = second();
    if order.len() == 0 {
        assert(order.filter(p).map_values(f) + order.filter(q).map_values(f)
            =~= order.map_values(f));
    } else {
        let front = order.drop_last();
        let k = order.last();
        lemma_split_members(front, p, q);
        let a = front.filter(p).map_values(f);
        let b = front.filter(q).map_values(f);
        assert(order.map_values(f) =~= front.map_values(f).push(k.1));
        to_multiset_build(front.map_values(f), k.1);
        if p(k) {
            assert(order.filter(p).map_values(f) =~= a.push(k.1));
            assert(order.filter(q).map_values(f) =~= b);
            assert(a.push(k.1) + b =~= (a + b).insert(a.len() as int, k.1));
            to_multiset_insert(a + b, a.len() as int, k.1);
        } else {
            assert(q(k));
            assert(order.filter(p).map_values(f) =~= a);
            assert(order.filter(q).map_values(f) =~= b.push(k.1));
            assert(a + b.push(k.1) =~= (a + b).push(k.1));
            to_multiset_build(a + b, k.1);
        }
    }
}

/// A manifest that was built covers the active tasks: every done task of the issue is
/// either merged or skipped, and none is both. So it is accepted when it is read back.
pub proof fn lemma_built_manifest_is_accepted(
    rows: Seq<loop_artifact::ModelView>,
    issue_id: i32,
    base_oid: Seq<char>,
)
    requires
        built_manifest(rows, issue_id, base_oid) is Ok,
    ensures
        ({
            let m = built_manifest(rows, issue_id, base_oid)->Ok_0;
            &&& m.members().to_multiset() == m.active_task_ids.to_multiset()
            &&& m.active_task_ids.to_multiset() == rows.filter(done_task(issue_id)).map_values(
                rank_of(),
            ).map_values(second()).to_multiset()
            &&& parsed_manifest(Ok(m)) == Ok::<FanInManifestView, LoopErrorView>(m)
        }),
{
    broadcast use group_to_multiset_ensures;

    let m = built_manifest(rows, issue_id, base_oid)->Ok_0;
    let pairs = rows.filter(done_task(issue_id)).map_values(rank_of());
    let order = task_order(rows, issue_id);
    let delta = is_delta(rows);
    let no_op = is_no_op(rows);
    lemma_split_members(order, delta, no_op);
    assert(m.ordered.map_values(|e: FanInEntryView| e.task_id) =~= order.filter(delta).map_values(
        second(),
    ));
    order.map_values(second()).lemma_sort_by_ensures(by_id());
    lemma_sorted_pairs(pairs);
    lemma_map_keeps_members(order, pairs);
}

/// Lists with the same members, counted, have the same second numbers, counted.
proof fn lemma_map_keeps_members(s: Seq<(i32, i32)>, t: Seq<(i32, i32)>)
    requires
        s.to_multiset() == t.to_multiset(),
    ensures
        s.map_values(second()).to_multiset() == t.map_values(second()).to_multiset(),
    decreases s.len(),
{
    broadcast use group_to_multiset_ensures;
    broadcast use vstd::multiset::group_multiset_axioms;

    let f = second();
    assert(s.len() == s.to_multiset().len() && t.len() == t.to_multiset().len());
    if s.len() == 0 {
        assert(s.map_values(f) =~= t.map_values(f));
    } else {
        let k = s.last();
        let front = s.drop_last();
        assert(s =~= front.push(k));
        assert(s.to_multiset().count(k) > 0);
        assert(t.contains(k));
        let j = t.index_of(k);
        let rest = t.remove(j);
        to_multiset_remove(t, j);
        to_multiset_build(front, k);
        assert(front.to_multiset() =~= rest.to_multiset());
        lemma_map_keeps_members(front, rest);
        assert(s.map_values(f) =~= front.map_values(f).push(k.1));
        to_multiset_build(front.map_values(f), k.1);
        assert(t.map_values(f) =~= rest.map_values(f).insert(j, k.1));
        to_multiset_insert(rest.map_values(f), j, k.1);
    }
}

// ---------------------------------------------------------------------------
// The result
// ---------------------------------------------------------------------------

/// The artifact is a result of the issue.
pub open spec fn result_of(issue_id: i32) -> spec_fn(loop_artifact::ModelView) -> bool {
    |a: loop_artifact::ModelView| a.issue_id == issue_id && a.kind == ArtifactKind::Result
}

/// The revision is of the artifact.
pub open spec fn revision_of(artifact_id: i32) -> spec_fn(
    loop_artifact_revision::ModelView,
) -> bool {
    |r: loop_artifact_revision::ModelView| r.artifact_id == artifact_id
}

/// The result of an integration, as the engine makes it.
pub open spec fn new_result(
    id: i32,
    space_id: i32,
    issue_id: i32,
    now: Timestamp,
) -> loop_artifact::ModelView {
    loop_artifact::ModelView {
        id,
        space_id,
        issue_id,
        kind: ArtifactKind::Result,
        title: "Result"@,
        status: ArtifactStatus::Done,
        origin: ActorKind::Agent,
        produced_by_iteration_id: None,
        verdict: None,
        attempt: 0,
        last_failure_sig: None,
        fan_in_commit: None,
        sort: 0,
        created_at: now,
        updated_at: now,
        contribution_kind: ContributionKind::Delta,
        oscillation_count: 0,
        recent_failure_sig: None,
    }
}

/// What the result says.
pub open spec fn summary_text(tasks: nat) -> Seq<char> {
    "Integrated "@ + nat_digits(tasks) + " parallel task(s) into the issue branch."@
}

/// The revision that says it.
pub open spec fn summary_revision(
    id: i32,
    artifact_id: i32,
    tasks: nat,
    now: Timestamp,
) -> loop_artifact_revision::ModelView {
    loop_artifact_revision::ModelView {
        id,
        artifact_id,
        content: summary_text(tasks),
        actor_kind: ActorKind::Agent,
        produced_by_iteration_id: None,
        created_at: now,
    }
}

/// The edges after the result was linked to each of the tasks.
pub open spec fn linked_to_all(
    t: TableView<loop_link::Model>,
    space_id: i32,
    from: i32,
    tasks: Seq<i32>,
    now: Timestamp,
) -> TableView<loop_link::Model>
    decreases tasks.len(),
{
    if tasks.len() == 0 {
        t
    } else {
        linked(
            linked_to_all(t, space_id, from, tasks.drop_last(), now),
            space_id,
            from,
            tasks.last(),
            LinkKind::ResultsFrom,
            None,
            now,
        ).0
    }
}

/// The artifacts with a result of the issue, and the id of that result.
pub open spec fn result_ensured(
    t: TableView<loop_artifact::ModelView>,
    space_id: i32,
    issue_id: i32,
    now: Timestamp,
) -> (TableView<loop_artifact::ModelView>, i32) {
    match first_match(t.rows, result_of(issue_id)) {
        Some(i) => (t, t.rows[i].id),
        None => (with_row(t, new_result(t.next_id, space_id, issue_id, now)), t.next_id),
    }
}

/// The revisions with one of the artifact.
pub open spec fn summary_ensured(
    t: TableView<loop_artifact_revision::ModelView>,
    artifact_id: i32,
    tasks: nat,
    now: Timestamp,
) -> TableView<loop_artifact_revision::ModelView> {
    if any_match(t.rows, revision_of(artifact_id)) {
        t
    } else {
        with_row(t, summary_revision(t.next_id, artifact_id, tasks, now))
    }
}

/// The engine after the result of an integration was made: whatever a partial earlier
/// run left out, row, revision or edge, is added; what is there stays.
pub open spec fn with_result(
    e: EngineView,
    space_id: i32,
    issue_id: i32,
    tasks: Seq<i32>,
    now: Timestamp,
) -> EngineView {
    let (artifacts, result_id) = result_ensured(e.artifacts, space_id, issue_id, now);
    EngineView {
        artifacts,
        revisions: summary_ensured(e.revisions, result_id, tasks.len(), now),
        links: linked_to_all(e.links, space_id, result_id, tasks, now),
        ..e
    }
}

/// Every task is linked already or can be: each new edge has an id.
pub open spec fn links_room(
    t: TableView<loop_link::Model>,
    space_id: i32,
    from: i32,
    tasks: Seq<i32>,
    now: Timestamp,
) -> bool
    decreases tasks.len(),
{
    tasks.len() == 0 || {
        let before = linked_to_all(t, space_id, from, tasks.drop_last(), now);
        &&& links_room(t, space_id, from, tasks.drop_last(), now)
        &&& any_match(before.rows, joins(from, tasks.last(), LinkKind::ResultsFrom))
            || before.next_id < i32::MAX
    }
}

/// The result can be made: of its row, its revision and its edges each is there already
/// or has an id to take.
pub open spec fn result_room(
    e: EngineView,
    space_id: i32,
    issue_id: i32,
    tasks: Seq<i32>,
    now: Timestamp,
) -> bool {
    let result_id = result_ensured(e.artifacts, space_id, issue_id, now).1;
    &&& any_match(e.artifacts.rows, result_of(issue_id)) || e.artifacts.next_id < i32::MAX
    &&& any_match(e.revisions.rows, revision_of(result_id)) || e.revisions.next_id < i32::MAX
    &&& links_room(e.links, space_id, result_id, tasks, now)
}

/// An id for every task is room enough.
pub proof fn lemma_links_room(
    t: TableView<loop_link::Model>,
    space_id: i32,
    from: i32,
    tasks: Seq<i32>,
    now: Timestamp,
)
    requires
        t.next_id + tasks.len() <= i32::MAX,
    ensures
        links_room(t, space_id, from, tasks, now),
        linked_to_all(t, space_id, from, tasks, now).next_id <= t.next_id + tasks.len(),
    decreases tasks.len(),
{
    if tasks.len() > 0 {
        lemma_links_room(t, space_id, from, tasks.drop_last(), now);
    }
}

/// Room for a list of tasks is room for its first ones.
proof fn lemma_links_room_prefix(
    t: TableView<loop_link::Model>,
    space_id: i32,
    from: i32,
    tasks: Seq<i32>,
    now: Timestamp,
    n: int,
)
    requires
        links_room(t, space_id, from, tasks, now),
        0 <= n <= tasks.len(),
    ensures
        links_room(t, space_id, from, tasks.take(n), now),
    decreases tasks.len(),
{
    if n == tasks.len() {
        assert(tasks.take(n) =~= tasks);
    } else {
        assert(tasks.drop_last().take(n) =~= tasks.take(n));
        lemma_links_room_prefix(t, space_id, from, tasks.drop_last(), now, n);
    }
}

impl LoopEngine {
    /// The id of the result of the issue, which is made where there is none.
    fn ensure_result(&mut self, space_id: i32, issue_id: i32, now: Timestamp) -> (id: i32)
        requires
            old(self).wf(),
            any_match(old(self)@.artifacts.rows, result_of(issue_id)) || old(
                self,
            ).artifacts.next_id < i32::MAX,
        ensures
            final(self)@ == (EngineView {
                artifacts: result_ensured(old(self)@.artifacts, space_id, issue_id, now).0,
                ..old(self)@
            }),
            id == result_ensured(old(self)@.artifacts, space_id, issue_id, now).1,
            final(self).wf(),
    {
        let ghost rows = self@.artifacts.rows;
        let ghost cond = result_of(issue_id);
        let mut i: usize = 0;
        while i < self.artifacts.rows.len()
            invariant
                i <= self.artifacts.rows@.len(),
                self.wf(),
                rows == self@.artifacts.rows,
                cond == result_of(issue_id),
                forall|j: int| 0 <= j < i ==> !cond(#[trigger] rows[j]),
            decreases self.artifacts.rows@.len() - i,
        {
            assert(rows[i as int] == self.artifacts.rows@[i as int]@);
            if self.artifacts.rows[i].issue_id == issue_id && self.artifacts.rows[i].kind
                == ArtifactKind::Result {
                proof {
                    lemma_first_is(rows, cond, i as int);
                }
                return self.artifacts.rows[i].id;
            }
            i = i + 1;
        }
        proof {
            lemma_first_match(rows, cond);
        }
        let id: i32 = self.artifacts.next_id;
        let row = loop_artifact::Model {
            id,
            space_id,
            issue_id,
            kind: ArtifactKind::Result,
            title: "Result".to_owned(),
            status: ArtifactStatus::Done,
            origin: ActorKind::Agent,
            produced_by_iteration_id: None,
            verdict: None,
            attempt: 0,
            last_failure_sig: None,
            fan_in_commit: None,
            sort: 0,
            created_at: now,
            updated_at: now,
            contribution_kind: ContributionKind::Delta,
            oscillation_count: 0,
            recent_failure_sig: None,
        };
        self.artifacts.insert(row);
        id
    }

    fn has_revision(&self, artifact_id: i32) -> (r: bool)
        ensures
            r == any_match(self@.revisions.rows, revision_of(artifact_id)),
    {
        let ghost rows = self@.revisions.rows;
        let mut i: usize = 0;
        while i < self.revisions.rows.len()
            invariant
                i <= self.revisions.rows@.len(),
                rows == self@.revisions.rows,
                forall|j: int| 0 <= j < i ==> !revision_of(artifact_id)(#[trigger] rows[j]),
            decreases self.revisions.rows@.len() - i,
        {
            assert(rows[i as int] == self.revisions.rows@[i as int]@);
            if self.revisions.rows[i].artifact_id == artifact_id {
                assert(revision_of(artifact_id)(rows[i as int]));
                return true;
            }
            i = i + 1;
        }
        false
    }

    /// Make the result that stands for an integration. Idempotent and repairing: a
    /// prior partial run that made the row but not its revision or edges is completed,
    /// not skipped. It is linked to the integrated tasks that are given, not to
    /// whatever tasks the tables hold by now.
    pub fn create_result_artifact(
        &mut self,
        space_id: i32,
        issue_id: i32,
        task_ids: &Vec<i32>,
        now: Timestamp,
    )
        requires
            old(self).wf(),
            result_room(old(self)@, space_id, issue_id, task_ids@, now),
        ensures
            final(self)@ == with_result(old(self)@, space_id, issue_id, task_ids@, now),
            final(self).wf(),
    {
        let result_id: i32 = self.ensure_result(space_id, issue_id, now);
        if !self.has_revision(result_id) {
            let mut content = "Integrated ".to_owned();
            content.append(nat_text(task_ids.len() as u64).as_str());
            content.append(" parallel task(s) into the issue branch.");
            let row = loop_artifact_revision::Model {
                id: self.revisions.next_id,
                artifact_id: result_id,
                content,
                actor_kind: ActorKind::Agent,
                produced_by_iteration_id: None,
                created_at: now,
            };
            self.revisions.insert(row);
        }
        let ghost mid = self@;
        let mut i: usize = 0;
        while i < task_ids.len()
            invariant
                i <= task_ids@.len(),
                self.wf(),
                links_room(mid.links, space_id, result_id, task_ids@, now),
                self@ == (EngineView {
                    links: linked_to_all(
                        mid.links,
                        space_id,
                        result_id,
                        task_ids@.take(i as int),
                        now,
                    ),
                    ..mid
                }),
            decreases task_ids@.len() - i,
        {
            proof {
                assert(task_ids@.take(i + 1).drop_last() =~= task_ids@.take(i as int));
                lemma_links_room_prefix(
                    mid.links,
                    space_id,
                    result_id,
                    task_ids@,
                    now,
                    i + 1,
                );
            }
            create_link(
                &mut self.links,
                space_id,
                result_id,
                task_ids[i],
                LinkKind::ResultsFrom,
                None,
                now,
            );
            i = i + 1;
        }
        assert(task_ids@.take(i as int) =~= task_ids@);
    }
}

/// The edges of `t` are still the first edges after linking, each task is linked, and
/// every new edge leads from the result to one of the tasks.
proof fn lemma_linked_to_all(
    t: TableView<loop_link::Model>,
    space_id: i32,
    from: i32,
    tasks: Seq<i32>,
    now: Timestamp,
)
    ensures
        ({
            let u = linked_to_all(t, space_id, from, tasks, now);
            &&& u.rows.len() >= t.rows.len()
            &&& forall|i: int| 0 <= i < t.rows.len() ==> #[trigger] u.rows[i] == t.rows[i]
            &&& forall|k: int|
                0 <= k < tasks.len() ==> any_match(
                    u.rows,
                    joins(from, #[trigger] tasks[k], LinkKind::ResultsFrom),
                )
            &&& forall|i: int|
                t.rows.len() <= i < u.rows.len() ==> (#[trigger] u.rows[i]).from_artifact_id == from
                    && u.rows[i].kind == LinkKind::ResultsFrom && tasks.contains(
                    u.rows[i].to_artifact_id,
                )
        }),
    decreases tasks.len(),
{
    if tasks.len() > 0 {
        let front = tasks.drop_last();
        lemma_linked_to_all(t, space_id, from, front, now);
        let v = linked_to_all(t, space_id, from, front, now);
        let u = linked_to_all(t, space_id, from, tasks, now);
        let last = tasks.last();
        let cond = joins(from, last, LinkKind::ResultsFrom);
        lemma_first_match(v.rows, cond);
        assert forall|k: int| 0 <= k < tasks.len() implies any_match(
            u.rows,
            joins(from, #[trigger] tasks[k], LinkKind::ResultsFrom),
        ) by {
            let c = joins(from, tasks[k], LinkKind::ResultsFrom);
            if k < front.len() {
                assert(front[k] == tasks[k]);
                assert(any_match(v.rows, joins(from, front[k], LinkKind::ResultsFrom)));
                let i = choose|i: int| 0 <= i < v.rows.len() && c(#[trigger] v.rows[i]);
                assert(u.rows[i] == v.rows[i]);
            } else if first_match(v.rows, cond) is None {
                assert(c(u.rows[v.rows.len() as int]));
            }
        }
        assert forall|i: int| t.rows.len() <= i < u.rows.len() implies (
        #[trigger] u.rows[i]).from_artifact_id == from && u.rows[i].kind == LinkKind::ResultsFrom
            && tasks.contains(u.rows[i].to_artifact_id) by {
            if i < v.rows.len() {
                assert(u.rows[i] == v.rows[i]);
                let k = front.index_of(v.rows[i].to_artifact_id);
                assert(tasks[k] == v.rows[i].to_artifact_id);
            } else {
                assert(tasks[tasks.len() - 1] == last);
            }
        }
    }
}

/// Where every task is linked already, linking adds nothing.
proof fn lemma_linked_again(
    t: TableView<loop_link::Model>,
    space_id: i32,
    from: i32,
    tasks: Seq<i32>,
    now: Timestamp,
)
    requires
        forall|k: int|
            0 <= k < tasks.len() ==> any_match(
                t.rows,
                joins(from, #[trigger] tasks[k], LinkKind::ResultsFrom),
            ),
    ensures
        linked_to_all(t, space_id, from, tasks, now) == t,
        links_room(t, space_id, from, tasks, now),
    decreases tasks.len(),
{
    if tasks.len() > 0 {
        let front = tasks.drop_last();
        assert forall|k: int| 0 <= k < front.len() implies any_match(
            t.rows,
            joins(from, #[trigger] front[k], LinkKind::ResultsFrom),
        ) by {
            assert(front[k] == tasks[k]);
        }
        lemma_linked_again(t, space_id, from, front, now);
        assert(any_match(
            t.rows,
            joins(from, tasks[tasks.len() - 1], LinkKind::ResultsFrom),
        ));
        lemma_first_match(t.rows, joins(from, tasks.last(), LinkKind::ResultsFrom));
    }
}

/// Making the result a second time is always possible and changes nothing: it can be
/// replayed after a crash anywhere.
pub proof fn lemma_create_result_idempotent(
    e: EngineView,
    space_id: i32,
    issue_id: i32,
    tasks: Seq<i32>,
    now: Timestamp,
    later: Timestamp,
)
    ensures
        ({
            let once = with_result(e, space_id, issue_id, tasks, now);
            &&& with_result(once, space_id, issue_id, tasks, later) == once
            &&& result_room(once, space_id, issue_id, tasks, later)
        }),
{
    let once = with_result(e, space_id, issue_id, tasks, now);
    let cond = result_of(issue_id);
    let (artifacts, id) = result_ensured(e.artifacts, space_id, issue_id, now);
    lemma_first_match(e.artifacts.rows, cond);
    if first_match(e.artifacts.rows, cond) is None {
        let n = e.artifacts.rows.len() as int;
        assert(first_at(artifacts.rows, cond, n));
        lemma_first_is(artifacts.rows, cond, n);
    }
    assert(result_ensured(once.artifacts, space_id, issue_id, later) == (artifacts, id));
    if !any_match(e.revisions.rows, revision_of(id)) {
        assert(revision_of(id)(once.revisions.rows[e.revisions.rows.len() as int]));
    }
    assert(any_match(once.revisions.rows, revision_of(id)));
    lemma_linked_to_all(e.links, space_id, id, tasks, now);
    lemma_linked_again(once.links, space_id, id, tasks, later);
}

/// The result exists afterwards, has a revision, is linked to every integrated task,
/// and gains no other edge; every row that was there is still there.
pub proof fn lemma_create_result_complete(
    e: EngineView,
    space_id: i32,
    issue_id: i32,
    tasks: Seq<i32>,
    now: Timestamp,
)
    ensures
        ({
            let after = with_result(e, space_id, issue_id, tasks, now);
            let id = result_ensured(e.artifacts, space_id, issue_id, now).1;
            &&& exists|i: int|
                0 <= i < after.artifacts.rows.len() && result_of(issue_id)(
                    #[trigger] after.artifacts.rows[i],
                ) && after.artifacts.rows[i].id == id
            &&& any_match(after.revisions.rows, revision_of(id))
            &&& forall|k: int|
                0 <= k < tasks.len() ==> any_match(
                    after.links.rows,
                    joins(id, #[trigger] tasks[k], LinkKind::ResultsFrom),
                )
            &&& forall|i: int|
                e.links.rows.len() <= i < after.links.rows.len() ==> (
                #[trigger] after.links.rows[i]).from_artifact_id == id
                    && after.links.rows[i].kind == LinkKind::ResultsFrom && tasks.contains(
                    after.links.rows[i].to_artifact_id,
                )
            &&& e.artifacts.rows.is_prefix_of(after.artifacts.rows)
            &&& e.revisions.rows.is_prefix_of(after.revisions.rows)
            &&& e.links.rows.is_prefix_of(after.links.rows)
        }),
{
    let after = with_result(e, space_id, issue_id, tasks, now);
    let cond = result_of(issue_id);
    let (artifacts, id) = result_ensured(e.artifacts, space_id, issue_id, now);
    lemma_first_match(e.artifacts.rows, cond);
    match first_match(e.artifacts.rows, cond) {
        Some(i) => {
            assert(cond(after.artifacts.rows[i]));
        },
        None => {
            assert(cond(after.artifacts.rows[e.artifacts.rows.len() as int]));
        },
    }
    if !any_match(e.revisions.rows, revision_of(id)) {
        assert(revision_of(id)(after.revisions.rows[e.revisions.rows.len() as int]));
    }
    lemma_linked_to_all(e.links, space_id, id, tasks, now);
}

} // verus!
