//! Coverage edges: a task claims that it satisfies a criterion; at most one edge per
//! task and criterion.

use crate::clock::Timestamp;
use crate::entities::loop_artifact;
use crate::entities::loop_coverage::{self, Model};
use crate::models::LoopCoverageRow;
use crate::table::{
    any_match, first_at, first_match, lemma_count_step, lemma_first_is, lemma_first_match, lookup,
    with_row, Table, TableView,
};
use vstd::prelude::*;

verus! {

/// The edge as its readers see it.
pub open spec fn coverage_row(m: Model) -> LoopCoverageRow {
    LoopCoverageRow {
        id: m.id,
        task_artifact_id: m.task_artifact_id,
        criterion_id: m.criterion_id,
    }
}

pub fn to_coverage_row(m: loop_coverage::Model) -> (r: LoopCoverageRow)
    ensures
        r == coverage_row(m),
{
    LoopCoverageRow {
        id: m.id,
        task_artifact_id: m.task_artifact_id,
        criterion_id: m.criterion_id,
    }
}

/// The edge says that the task covers the criterion.
pub open spec fn covers(task: i32, criterion: i32) -> spec_fn(Model) -> bool {
    |m: Model| m.task_artifact_id == task && m.criterion_id == criterion
}

/// The edges, and the edge that is returned, after an edge was asked for: an
/// existing one is returned unchanged.
pub open spec fn covered(
    t: TableView<Model>,
    space_id: i32,
    task: i32,
    criterion: i32,
    now: Timestamp,
) -> (TableView<Model>, Model) {
    match first_match(t.rows, covers(task, criterion)) {
        Some(i) => (t, t.rows[i]),
        None => {
            let row = Model {
                id: t.next_id,
                space_id,
                task_artifact_id: task,
                criterion_id: criterion,
                created_at: now,
            };
            (with_row(t, row), row)
        },
    }
}

/// Idempotent: a repeated `(task, criterion)` pair returns the existing row instead of
/// inserting a duplicate.
pub fn create_coverage(
    coverage: &mut Table<loop_coverage::Model>,
    space_id: i32,
    task_artifact_id: i32,
    criterion_id: i32,
    now: Timestamp,
) -> (r: loop_coverage::Model)
    requires
        old(coverage).wf(),
        any_match(old(coverage)@.rows, covers(task_artifact_id, criterion_id)) || old(
            coverage,
        ).next_id < i32::MAX,
    ensures
        (final(coverage)@, r) == covered(
            old(coverage)@,
            space_id,
            task_artifact_id,
            criterion_id,
            now,
        ),
        final(coverage).wf(),
{
    let ghost rows = coverage@.rows;
    let ghost cond = covers(task_artifact_id, criterion_id);
    let mut i: usize = 0;
    while i < coverage.rows.len()
        invariant
            i <= coverage.rows@.len(),
            coverage.wf(),
            rows == coverage@.rows,
            cond == covers(task_artifact_id, criterion_id),
            forall|j: int| 0 <= j < i ==> !cond(#[trigger] rows[j]),
        decreases coverage.rows@.len() - i,
    {
        assert(rows[i as int] == coverage.rows@[i as int]);
        let m: loop_coverage::Model = coverage.rows[i];
        if m.task_artifact_id == task_artifact_id && m.criterion_id == criterion_id {
            proof {
                lemma_first_is(rows, cond, i as int);
            }
            return m;
        }
        i = i + 1;
    }
    proof {
        lemma_first_match(rows, cond);
    }
    let row = loop_coverage::Model {
        id: coverage.next_id,
        space_id,
        task_artifact_id,
        criterion_id,
        created_at: now,
    };
    coverage.insert(row);
    row
}

/// The edge's task artifact belongs to the issue.
pub open spec fn of_issue(artifacts: Seq<loop_artifact::ModelView>, issue_id: i32) -> spec_fn(
    Model,
) -> bool {
    |m: Model|
        match lookup::<loop_artifact::Model>(artifacts, m.task_artifact_id) {
            Some(a) => a.issue_id == issue_id,
            None => false,
        }
}

/// All coverage edges whose task artifact belongs to the issue.
pub fn list_for_issue(
    artifacts: &Table<loop_artifact::Model>,
    coverage: &Table<loop_coverage::Model>,
    issue_id: i32,
) -> (r: Vec<LoopCoverageRow>)
    ensures
        r@ == coverage@.rows.filter(of_issue(artifacts@.rows, issue_id)).map_values(
            |m: Model| coverage_row(m),
        ),
{
    let ghost rows = coverage@.rows;
    let ghost cond = of_issue(artifacts@.rows, issue_id);
    let ghost f = |m: Model| coverage_row(m);
    let mut out: Vec<LoopCoverageRow> = Vec::new();
    let mut i: usize = 0;
    proof {
        reveal(Seq::filter);
        assert(out@ =~= rows.take(0).filter(cond).map_values(f));
    }
    while i < coverage.rows.len()
        invariant
            i <= coverage.rows@.len(),
            rows == coverage@.rows,
            cond == of_issue(artifacts@.rows, issue_id),
            f == (|m: Model| coverage_row(m)),
            out@ == rows.take(i as int).filter(cond).map_values(f),
        decreases coverage.rows@.len() - i,
    {
        proof {
            lemma_count_step(rows, cond, i as int);
            assert(rows[i as int] == coverage.rows@[i as int]);
            let found = rows.take(i as int).filter(cond);
            assert(found.push(rows[i as int]).map_values(f) =~= found.map_values(f).push(
                f(rows[i as int]),
            ));
        }
        let m: loop_coverage::Model = coverage.rows[i];
        let mine: bool = match artifacts.find(m.task_artifact_id) {
            Some(a) => artifacts.rows[a].issue_id == issue_id,
            None => false,
        };
        if mine {
            out.push(to_coverage_row(m));
        }
        i = i + 1;
    }
    assert(rows.take(i as int) =~= rows);
    out
}

/// No two edges say the same.
pub open spec fn coverage_unique(rows: Seq<Model>) -> bool {
    forall|i: int, j: int|
        0 <= i < j < rows.len() ==> !((#[trigger] rows[i]).task_artifact_id == (
        #[trigger] rows[j]).task_artifact_id && rows[i].criterion_id == rows[j].criterion_id)
}

/// Asking for the same edge a second time returns the first edge and changes nothing.
pub proof fn lemma_create_coverage_idempotent(
    t: TableView<Model>,
    space_id: i32,
    task: i32,
    criterion: i32,
    now: Timestamp,
    later: Timestamp,
)
    ensures
        ({
            let once = covered(t, space_id, task, criterion, now);
            covered(once.0, space_id, task, criterion, later) == once
        }),
{
    let cond = covers(task, criterion);
    let once = covered(t, space_id, task, criterion, now);
    lemma_first_match(t.rows, cond);
    if first_match(t.rows, cond) is None {
        let n = t.rows.len() as int;
        assert(first_at(once.0.rows, cond, n));
        lemma_first_is(once.0.rows, cond, n);
    }
}

/// Edges stay unique.
pub proof fn lemma_create_coverage_keeps_unique(
    t: TableView<Model>,
    space_id: i32,
    task: i32,
    criterion: i32,
    now: Timestamp,
)
    requires
        coverage_unique(t.rows),
    ensures
        coverage_unique(covered(t, space_id, task, criterion, now).0.rows),
{
    lemma_first_match(t.rows, covers(task, criterion));
    let rows = covered(t, space_id, task, criterion, now).0.rows;
    assert forall|i: int, j: int| 0 <= i < j < rows.len() implies !((
    #[trigger] rows[i]).task_artifact_id == (#[trigger] rows[j]).task_artifact_id
        && rows[i].criterion_id == rows[j].criterion_id) by {
        if j < t.rows.len() {
            assert(rows[i] == t.rows[i] && rows[j] == t.rows[j]);
        } else {
            assert(rows[i] == t.rows[i]);
            assert(!covers(task, criterion)(t.rows[i]));
        }
    }
}

} // verus!
