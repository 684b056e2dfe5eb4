//! Iterations: listings, and the outcome that is written once.

use crate::entities::loop_iteration::{self, IterationOutcome, ModelView};
use crate::entities::{loop_artifact, loop_issue};
use crate::loop_service::subject::{find_seq_in_space, find_title, seq_in_space, title_of};
use crate::models::{LoopIterationRow, LoopIterationRowView};
use crate::table::{
    lemma_count_step, lemma_filter_ids_ascend, lemma_listed_back, lemma_lookup, lemma_lookup_at,
    lemma_update_wf, lookup, position, reversed, table_wf, views, with_rows, Table, TableView,
};
use crate::text::opt_text;
use vstd::prelude::*;

verus! {

/// An iteration as the listings show it.
pub open spec fn iteration_row(
    m: ModelView,
    issue_seq: i32,
    target_title: Option<Seq<char>>,
) -> LoopIterationRowView {
    LoopIterationRowView {
        id: m.id,
        issue_id: m.issue_id,
        issue_seq,
        stage: m.stage,
        target_artifact_id: m.target_artifact_id,
        target_title,
        conversation_id: m.conversation_id,
        status: m.status,
        launched_by: m.launched_by,
        attempt: m.attempt,
        tokens_used: m.tokens_used,
        created_at: m.created_at,
        started_at: m.started_at,
        ended_at: m.ended_at,
    }
}

pub fn to_iteration_row(
    m: &loop_iteration::Model,
    issue_seq: i32,
    target_title: Option<String>,
) -> (r: LoopIterationRow)
    ensures
        r@ == iteration_row(m@, issue_seq, opt_text(target_title)),
{
    LoopIterationRow {
        id: m.id,
        issue_id: m.issue_id,
        issue_seq,
        stage: m.stage,
        target_artifact_id: m.target_artifact_id,
        target_title,
        conversation_id: m.conversation_id,
        status: m.status,
        launched_by: m.launched_by,
        attempt: m.attempt,
        tokens_used: m.tokens_used,
        created_at: m.created_at,
        started_at: m.started_at,
        ended_at: m.ended_at,
    }
}

/// The iteration with the given id.
pub fn get_iteration(iterations: &Table<loop_iteration::Model>, id: i32) -> (r: Option<
    loop_iteration::Model,
>)
    ensures
        match r {
            Some(m) => lookup::<loop_iteration::Model>(iterations@.rows, id) == Some(m@),
            None => lookup::<loop_iteration::Model>(iterations@.rows, id) is None,
        },
{
    match iterations.find(id) {
        Some(i) => Some(iterations.rows[i].clone()),
        None => None,
    }
}

/// The iteration is of the issue.
pub open spec fn of_issue(issue_id: i32) -> spec_fn(ModelView) -> bool {
    |m: ModelView| m.issue_id == issue_id
}

/// The iteration is of the space.
pub open spec fn of_space(space_id: i32) -> spec_fn(ModelView) -> bool {
    |m: ModelView| m.space_id == space_id
}

/// The number of an issue; zero for an issue that is not there.
pub open spec fn seq_of(issues: Seq<loop_issue::ModelView>, issue_id: i32) -> i32 {
    match lookup::<loop_issue::Model>(issues, issue_id) {
        Some(i) => i.seq_no,
        None => 0,
    }
}

/// How each iteration of an issue is listed.
pub open spec fn issue_listing(
    issues: Seq<loop_issue::ModelView>,
    artifacts: Seq<loop_artifact::ModelView>,
    issue_id: i32,
) -> spec_fn(ModelView) -> LoopIterationRowView {
    |m: ModelView|
        iteration_row(m, seq_of(issues, issue_id), title_of(artifacts, m.target_artifact_id))
}

/// How each iteration of a space is listed.
pub open spec fn space_listing(
    issues: Seq<loop_issue::ModelView>,
    artifacts: Seq<loop_artifact::ModelView>,
    space_id: i32,
) -> spec_fn(ModelView) -> LoopIterationRowView {
    |m: ModelView|
        iteration_row(
            m,
            seq_in_space(issues, space_id, m.issue_id),
            title_of(artifacts, m.target_artifact_id),
        )
}

/// The iterations of an issue, newest first, with the titles of their targets.
pub fn list_iterations(
    issues: &Table<loop_issue::Model>,
    artifacts: &Table<loop_artifact::Model>,
    iterations: &Table<loop_iteration::Model>,
    issue_id: i32,
) -> (r: Vec<LoopIterationRow>)
    ensures
        views(r@) == iterations@.rows.filter(of_issue(issue_id)).map_values(
            issue_listing(issues@.rows, artifacts@.rows, issue_id),
        ).reverse(),
        forall|k: int|
            0 <= k < iterations@.rows.len() && iterations@.rows[k].issue_id == issue_id ==> views(
                r@,
            ).contains(
                issue_listing(issues@.rows, artifacts@.rows, issue_id)(#[trigger] iterations@.rows[k]),
            ),
        iterations.wf() ==> forall|i: int, j: int|
            0 <= i < j < r@.len() ==> (#[trigger] r@[i]).id > (#[trigger] r@[j]).id,
{
    let issue_seq: i32 = match issues.find(issue_id) {
        Some(i) => issues.rows[i].seq_no,
        None => 0,
    };
    let ghost rows = iterations@.rows;
    let ghost cond = of_issue(issue_id);
    let ghost f = issue_listing(issues@.rows, artifacts@.rows, issue_id);
    let mut out: Vec<LoopIterationRow> = Vec::new();
    let mut i: usize = 0;
    proof {
        reveal(Seq::filter);
        assert(views(out@) =~= rows.take(0).filter(cond).map_values(f));
    }
    while i < iterations.rows.len()
        invariant
            i <= iterations.rows@.len(),
            rows == iterations@.rows,
            cond == of_issue(issue_id),
            f == issue_listing(issues@.rows, artifacts@.rows, issue_id),
            issue_seq == seq_of(issues@.rows, issue_id),
            views(out@) == rows.take(i as int).filter(cond).map_values(f),
        decreases iterations.rows@.len() - i,
    {
        proof {
            lemma_count_step(rows, cond, i as int);
            assert(rows[i as int] == iterations.rows@[i as int]@);
            let found = rows.take(i as int).filter(cond);
            assert(found.push(rows[i as int]).map_values(f) =~= found.map_values(f).push(
                f(rows[i as int]),
            ));
        }
        let m = &iterations.rows[i];
        if m.issue_id == issue_id {
            let ghost before = out@;
            let row = to_iteration_row(m, issue_seq, find_title(artifacts, m.target_artifact_id));
            out.push(row);
            assert(views(out@) =~= views(before).push(row@));
        }
        i = i + 1;
    }
    assert(rows.take(i as int) =~= rows);
    let ghost listed = out@;
    let r = reversed(out);
    assert(views(r@) =~= views(listed).reverse());
    proof {
        lemma_listed_back(rows, cond, f);
        if iterations.wf() {
            lemma_filter_ids_ascend::<loop_iteration::Model>(rows, cond);
        }
        let kept = rows.filter(cond);
        let n = kept.len();
        assert forall|i: int| 0 <= i < r@.len() implies (#[trigger] r@[i]).id == kept[n - 1
            - i].id by {
            assert(views(r@)[i] == r@[i]@);
        }
    }
    r
}

/// The iterations of a space, newest first, with the titles of their targets.
pub fn list_iterations_for_space(
    issues: &Table<loop_issue::Model>,
    artifacts: &Table<loop_artifact::Model>,
    iterations: &Table<loop_iteration::Model>,
    space_id: i32,
) -> (r: Vec<LoopIterationRow>)
    ensures
        views(r@) == iterations@.rows.filter(of_space(space_id)).map_values(
            space_listing(issues@.rows, artifacts@.rows, space_id),
        ).reverse(),
        forall|k: int|
            0 <= k < iterations@.rows.len() && iterations@.rows[k].space_id == space_id ==> views(
                r@,
            ).contains(
                space_listing(issues@.rows, artifacts@.rows, space_id)(#[trigger] iterations@.rows[k]),
            ),
        iterations.wf() ==> forall|i: int, j: int|
            0 <= i < j < r@.len() ==> (#[trigger] r@[i]).id > (#[trigger] r@[j]).id,
{
    let ghost rows = iterations@.rows;
    let ghost cond = of_space(space_id);
    let ghost f = space_listing(issues@.rows, artifacts@.rows, space_id);
    let mut out: Vec<LoopIterationRow> = Vec::new();
    let mut i: usize = 0;
    proof {
        reveal(Seq::filter);
        assert(views(out@) =~= rows.take(0).filter(cond).map_values(f));
    }
    while i < iterations.rows.len()
        invariant
            i <= iterations.rows@.len(),
            rows == iterations@.rows,
            cond == of_space(space_id),
            f == space_listing(issues@.rows, artifacts@.rows, space_id),
            views(out@) == rows.take(i as int).filter(cond).map_values(f),
        decreases iterations.rows@.len() - i,
    {
        proof {
            lemma_count_step(rows, cond, i as int);
            assert(rows[i as int] == iterations.rows@[i as int]@);
            let found = rows.take(i as int).filter(cond);
            assert(found.push(rows[i as int]).map_values(f) =~= found.map_values(f).push(
                f(rows[i as int]),
            ));
        }
        let m = &iterations.rows[i];
        if m.space_id == space_id {
            let ghost before = out@;
            let row = to_iteration_row(
                m,
                find_seq_in_space(issues, space_id, m.issue_id),
                find_title(artifacts, m.target_artifact_id),
            );
            out.push(row);
            assert(views(out@) =~= views(before).push(row@));
        }
        i = i + 1;
    }
    assert(rows.take(i as int) =~= rows);
    let ghost listed = out@;
    let r = reversed(out);
    assert(views(r@) =~= views(listed).reverse());
    proof {
        lemma_listed_back(rows, cond, f);
        if iterations.wf() {
            lemma_filter_ids_ascend::<loop_iteration::Model>(rows, cond);
        }
        let kept = rows.filter(cond);
        let n = kept.len();
        assert forall|i: int| 0 <= i < r@.len() implies (#[trigger] r@[i]).id == kept[n - 1
            - i].id by {
            assert(views(r@)[i] == r@[i]@);
        }
    }
    r
}

/// The iterations after an outcome was recorded, and whether it was: only an iteration
/// without an outcome takes one.
pub open spec fn outcome_recorded(t: TableView<ModelView>, id: i32, o: IterationOutcome) -> (
    TableView<ModelView>,
    bool,
) {
    match position::<loop_iteration::Model>(t.rows, id) {
        Some(i) => if t.rows[i].outcome is None {
            (with_rows(t, t.rows.update(i, ModelView { outcome: Some(o), ..t.rows[i] })), true)
        } else {
            (t, false)
        },
        None => (t, false),
    }
}

/// Records why an iteration ended, once. A later write is a no-op and returns `false`.
pub fn set_iteration_outcome(
    iterations: &mut Table<loop_iteration::Model>,
    id: i32,
    outcome: IterationOutcome,
) -> (r: bool)
    requires
        old(iterations).wf(),
    ensures
        (final(iterations)@, r) == outcome_recorded(old(iterations)@, id, outcome),
        final(iterations).wf(),
{
    match iterations.find(id) {
        Some(i) => if iterations.rows[i].outcome.is_none() {
            let mut row = iterations.rows[i].clone();
            row.outcome = Some(outcome);
            iterations.set(i, row);
            true
        } else {
            false
        },
        None => false,
    }
}

/// An outcome that was recorded is never overwritten.
pub proof fn lemma_outcome_write_once(
    t: TableView<ModelView>,
    id: i32,
    first: IterationOutcome,
    second: IterationOutcome,
)
    requires
        table_wf::<loop_iteration::Model>(t),
        outcome_recorded(t, id, first).1,
    ensures
        ({
            let once = outcome_recorded(t, id, first).0;
            &&& lookup::<loop_iteration::Model>(once.rows, id) is Some
            &&& lookup::<loop_iteration::Model>(once.rows, id)->Some_0.outcome == Some(first)
            &&& outcome_recorded(once, id, second) == (once, false)
        }),
{
    let once = outcome_recorded(t, id, first).0;
    lemma_lookup::<loop_iteration::Model>(t.rows, id);
    let i = position::<loop_iteration::Model>(t.rows, id)->Some_0;
    lemma_update_wf::<loop_iteration::Model>(t, i, once.rows[i]);
    lemma_lookup_at::<loop_iteration::Model>(once.rows, i);
}

} // verus!
