//! Memories: durable lessons of a space, and the recall path over the active ones.

use crate::clock::Timestamp;
use crate::entities::loop_artifact_revision::ActorKind;
use crate::entities::loop_memory::{self, MemoryKind, MemoryStatus, ModelView, TrustTier};
use crate::error::{DbError, DbErrorView};
use crate::models::{LoopMemoryRow, LoopMemoryRowView};
use crate::table::{
    lemma_count_step, lemma_filter_exact, lemma_filter_from, lemma_filter_ids_ascend,
    lemma_listed_back, lemma_lookup, lemma_lookup_at, lookup, position, reversed, table_wf, views,
    with_row, with_rows, Table, TableView,
};
use crate::text::{int_digits, int_text};
use vstd::prelude::*;

verus! {

broadcast use vstd::string::group_string_axioms;

/// A memory as its readers see it.
pub open spec fn memory_row(m: ModelView) -> LoopMemoryRowView {
    LoopMemoryRowView {
        id: m.id,
        kind: m.kind,
        source: m.source,
        title: m.title,
        summary: m.summary,
        content: m.content,
        trust_tier: m.trust_tier,
        status: m.status,
        superseded_by: m.superseded_by,
        source_issue_id: m.source_issue_id,
        source_artifact_id: m.source_artifact_id,
        produced_by_iteration_id: m.produced_by_iteration_id,
        created_at: m.created_at,
        updated_at: m.updated_at,
    }
}

pub fn to_row(m: loop_memory::Model) -> (r: LoopMemoryRow)
    ensures
        r@ == memory_row(m@),
{
    LoopMemoryRow {
        id: m.id,
        kind: m.kind,
        source: m.source,
        title: m.title,
        summary: m.summary,
        content: m.content,
        trust_tier: m.trust_tier,
        status: m.status,
        superseded_by: m.superseded_by,
        source_issue_id: m.source_issue_id,
        source_artifact_id: m.source_artifact_id,
        produced_by_iteration_id: m.produced_by_iteration_id,
        created_at: m.created_at,
        updated_at: m.updated_at,
    }
}

/// Where an agent-produced memory came from. Empty for a memory that a person wrote.
#[derive(Debug, Clone, Copy, PartialEq, Eq, Structural)]
pub struct MemoryProvenance {
    pub source_issue_id: Option<i32>,
    pub source_artifact_id: Option<i32>,
    pub produced_by_iteration_id: Option<i32>,
}

impl Default for MemoryProvenance {
    fn default() -> (r: Self)
        ensures
            r == (MemoryProvenance {
                source_issue_id: None,
                source_artifact_id: None,
                produced_by_iteration_id: None,
            }),
    {
        MemoryProvenance {
            source_issue_id: None,
            source_artifact_id: None,
            produced_by_iteration_id: None,
        }
    }
}

/// A memory as it is created: active, and superseded by none.
pub open spec fn new_memory(
    id: i32,
    space_id: i32,
    kind: MemoryKind,
    source: ActorKind,
    title: Seq<char>,
    summary: Option<Seq<char>>,
    content: Seq<char>,
    trust_tier: TrustTier,
    provenance: MemoryProvenance,
    now: Timestamp,
) -> ModelView {
    ModelView {
        id,
        space_id,
        kind,
        source,
        title,
        summary,
        content,
        trust_tier,
        status: MemoryStatus::Active,
        superseded_by: None,
        source_issue_id: provenance.source_issue_id,
        source_artifact_id: provenance.source_artifact_id,
        produced_by_iteration_id: provenance.produced_by_iteration_id,
        created_at: now,
        updated_at: now,
    }
}

/// The characters of an optional borrowed text.
pub open spec fn opt_str(s: Option<&str>) -> Option<Seq<char>> {
    match s {
        Some(t) => Some(t@),
        None => None,
    }
}

/// Adds an active memory.
pub fn create_memory(
    memory: &mut Table<loop_memory::Model>,
    space_id: i32,
    kind: MemoryKind,
    source: ActorKind,
    title: &str,
    summary: Option<&str>,
    content: &str,
    trust_tier: TrustTier,
    provenance: MemoryProvenance,
    now: Timestamp,
) -> (r: loop_memory::Model)
    requires
        old(memory).wf(),
        old(memory).next_id < i32::MAX,
    ensures
        r@ == new_memory(
            old(memory).next_id,
            space_id,
            kind,
            source,
            title@,
            opt_str(summary),
            content@,
            trust_tier,
            provenance,
            now,
        ),
        final(memory)@ == with_row(old(memory)@, r@),
        final(memory).wf(),
{
    let row = loop_memory::Model {
        id: memory.next_id,
        space_id,
        kind,
        source,
        title: title.to_owned(),
        summary: match summary {
            Some(s) => Some(s.to_owned()),
            None => None,
        },
        content: content.to_owned(),
        trust_tier,
        status: MemoryStatus::Active,
        superseded_by: None,
        source_issue_id: provenance.source_issue_id,
        source_artifact_id: provenance.source_artifact_id,
        produced_by_iteration_id: provenance.produced_by_iteration_id,
        created_at: now,
        updated_at: now,
    };
    let copy = row.clone();
    memory.insert(row);
    copy
}

/// The memories after one was edited; unchanged when it is not there.
pub open spec fn edited(
    t: TableView<ModelView>,
    id: i32,
    title: Seq<char>,
    content: Seq<char>,
    status: MemoryStatus,
    now: Timestamp,
) -> TableView<ModelView> {
    match position::<loop_memory::Model>(t.rows, id) {
        Some(i) => with_rows(
            t,
            t.rows.update(i, ModelView { title, content, status, updated_at: now, ..t.rows[i] }),
        ),
        None => t,
    }
}

/// Edits a memory; an error when there is none with the id.
pub fn update_memory(
    memory: &mut Table<loop_memory::Model>,
    id: i32,
    title: &str,
    content: &str,
    status: MemoryStatus,
    now: Timestamp,
) -> (r: Result<(), DbError>)
    requires
        old(memory).wf(),
    ensures
        final(memory)@ == edited(old(memory)@, id, title@, content@, status, now),
        final(memory).wf(),
        match lookup::<loop_memory::Model>(old(memory)@.rows, id) {
            Some(_) => r is Ok,
            None => r is Err && r->Err_0@ == DbErrorView::RecordNotFound(
                "loop_memory "@ + int_digits(id as int),
            ),
        },
{
    match memory.find(id) {
        Some(i) => {
            let mut row = memory.rows[i].clone();
            row.title = title.to_owned();
            row.content = content.to_owned();
            row.status = status;
            row.updated_at = now;
            memory.set(i, row);
            Ok(())
        },
        None => {
            let mut message = "loop_memory ".to_owned();
            message.append(int_text(id).as_str());
            Err(DbError::RecordNotFound(message))
        },
    }
}

/// The memories without the one with the id.
pub open spec fn deleted(t: TableView<ModelView>, id: i32) -> TableView<ModelView> {
    match position::<loop_memory::Model>(t.rows, id) {
        Some(i) => with_rows(t, t.rows.remove(i)),
        None => t,
    }
}

/// Removes a memory; nothing happens when there is none with the id.
pub fn delete_memory(memory: &mut Table<loop_memory::Model>, id: i32)
    requires
        old(memory).wf(),
    ensures
        final(memory)@ == deleted(old(memory)@, id),
        final(memory).wf(),
{
    let ghost before = memory@;
    if let Some(i) = memory.find(id) {
        memory.rows.remove(i);
        proof {
            assert(memory@.rows =~= before.rows.remove(i as int));
            let rows = memory@.rows;
            assert forall|j: int| 0 <= j < rows.len() implies #[trigger] rows[j] == before.rows[if j
                < i {
                j
            } else {
                j + 1
            }] by {
            }
        }
    }
}

/// The memories after `old_id` was superseded by `new_id`, and whether it was: only an
/// active memory is, so that the pointer to its successor is written once.
pub open spec fn superseded(t: TableView<ModelView>, old_id: i32, new_id: i32, now: Timestamp) -> (
    TableView<ModelView>,
    bool,
) {
    match position::<loop_memory::Model>(t.rows, old_id) {
        Some(i) => if t.rows[i].status == MemoryStatus::Active {
            (
                with_rows(
                    t,
                    t.rows.update(
                        i,
                        ModelView {
                            status: MemoryStatus::Superseded,
                            superseded_by: Some(new_id),
                            updated_at: now,
                            ..t.rows[i]
                        },
                    ),
                ),
                true,
            )
        } else {
            (t, false)
        },
        None => (t, false),
    }
}

/// Supersede a memory: mark it so and point it at the memory that replaces it, if it is
/// still active. Returns whether it applied; a miss never overwrites the pointer.
pub fn supersede_memory(
    memory: &mut Table<loop_memory::Model>,
    old_id: i32,
    new_id: i32,
    now: Timestamp,
) -> (r: bool)
    requires
        old(memory).wf(),
    ensures
        (final(memory)@, r) == superseded(old(memory)@, old_id, new_id, now),
        final(memory).wf(),
{
    match memory.find(old_id) {
        Some(i) => if memory.rows[i].status == MemoryStatus::Active {
            let mut row = memory.rows[i].clone();
            row.status = MemoryStatus::Superseded;
            row.superseded_by = Some(new_id);
            row.updated_at = now;
            memory.set(i, row);
            true
        } else {
            false
        },
        None => false,
    }
}

// ---------------------------------------------------------------------------
// Listings
// ---------------------------------------------------------------------------

/// The memory is of the space.
pub open spec fn of_space(space_id: i32) -> spec_fn(ModelView) -> bool {
    |m: ModelView| m.space_id == space_id
}

/// The memory is an active constitution memory of the space.
pub open spec fn constitutional(space_id: i32) -> spec_fn(ModelView) -> bool {
    |m: ModelView|
        m.space_id == space_id && m.status == MemoryStatus::Active && m.kind
            == MemoryKind::Constitution
}

/// The memory is in the recall path of the space: active, and no constitution memory.
pub open spec fn recallable(space_id: i32) -> spec_fn(ModelView) -> bool {
    |m: ModelView|
        m.space_id == space_id && m.status == MemoryStatus::Active && m.kind
            != MemoryKind::Constitution
}

/// The memory is in the recall path of the space, and its id is among those asked for.
pub open spec fn readable(space_id: i32, ids: Seq<i32>) -> spec_fn(ModelView) -> bool {
    |m: ModelView| recallable(space_id)(m) && ids.contains(m.id)
}

/// The memories of a space, newest first.
pub fn list_memory(memory: &Table<loop_memory::Model>, space_id: i32) -> (r: Vec<LoopMemoryRow>)
    ensures
        views(r@) == memory@.rows.filter(of_space(space_id)).map_values(
            |m: ModelView| memory_row(m),
        ).reverse(),
        forall|k: int|
            0 <= k < memory@.rows.len() && memory@.rows[k].space_id == space_id ==> views(
                r@,
            ).contains(memory_row(#[trigger] memory@.rows[k])),
        memory.wf() ==> forall|i: int, j: int|
            0 <= i < j < r@.len() ==> (#[trigger] r@[i]).id > (#[trigger] r@[j]).id,
{
    let ghost rows = memory@.rows;
    let ghost cond = of_space(space_id);
    let ghost f = |m: ModelView| memory_row(m);
    let mut out: Vec<LoopMemoryRow> = Vec::new();
    let mut i: usize = 0;
    proof {
        reveal(Seq::filter);
        assert(views(out@) =~= rows.take(0).filter(cond).map_values(f));
    }
    while i < memory.rows.len()
        invariant
            i <= memory.rows@.len(),
            rows == memory@.rows,
            cond == of_space(space_id),
            f == (|m: ModelView| memory_row(m)),
            views(out@) == rows.take(i as int).filter(cond).map_values(f),
        decreases memory.rows@.len() - i,
    {
        proof {
            lemma_count_step(rows, cond, i as int);
            assert(rows[i as int] == memory.rows@[i as int]@);
            let found = rows.take(i as int).filter(cond);
            assert(found.push(rows[i as int]).map_values(f) =~= found.map_values(f).push(
                f(rows[i as int]),
            ));
        }
        if memory.rows[i].space_id == space_id {
            let ghost before = out@;
            let row = to_row(memory.rows[i].clone());
            out.push(row);
            assert(views(out@) =~= views(before).push(row@));
        }
        i = i + 1;
    }
    assert(rows.take(i as int) =~= rows);
    let ghost listed = out@;
    let r = reversed(out);
    assert(views(r@) =~= views(listed).reverse());
    proof {
        lemma_listed_back(rows, cond, f);
        if memory.wf() {
            lemma_filter_ids_ascend::<loop_memory::Model>(rows, cond);
        }
        let kept = rows.filter(cond);
        let n = kept.len();
        assert forall|i: int| 0 <= i < r@.len() implies (#[trigger] r@[i]).id == kept[n - 1 - i].id by {
            assert(views(r@)[i] == r@[i]@);
        }
    }
    r
}

/// The constitution memories of a space, by id: always put first in a briefing.
pub fn list_constitution(memory: &Table<loop_memory::Model>, space_id: i32) -> (r: Vec<
    loop_memory::Model,
>)
    ensures
        views(r@) == memory@.rows.filter(constitutional(space_id)),
        forall|k: int|
            0 <= k < memory@.rows.len() && memory@.rows[k].space_id == space_id && memory@.rows[k].status == MemoryStatus::Active && memory@.rows[k].kind == MemoryKind::Constitution
                ==> views(r@).contains(#[trigger] memory@.rows[k]),
        forall|j: int|
            0 <= j < r@.len() ==> (#[trigger] r@[j])@.space_id == space_id && r@[j]@.status == MemoryStatus::Active && r@[j]@.kind == MemoryKind::Constitution,
{
    let ghost rows = memory@.rows;
    let ghost cond = constitutional(space_id);
    let mut out: Vec<loop_memory::Model> = Vec::new();
    let mut i: usize = 0;
    proof {
        reveal(Seq::filter);
        assert(views(out@) =~= rows.take(0).filter(cond));
    }
    while i < memory.rows.len()
        invariant
            i <= memory.rows@.len(),
            rows == memory@.rows,
            cond == constitutional(space_id),
            views(out@) == rows.take(i as int).filter(cond),
        decreases memory.rows@.len() - i,
    {
        proof {
            lemma_count_step(rows, cond, i as int);
            assert(rows[i as int] == memory.rows@[i as int]@);
        }
        let m = &memory.rows[i];
        if m.space_id == space_id && m.status == MemoryStatus::Active && m.kind
            == MemoryKind::Constitution {
            let ghost before = out@;
            out.push(m.clone());
            assert(views(out@) =~= views(before).push(rows[i as int]));
        }
        i = i + 1;
    }
    assert(rows.take(i as int) =~= rows);
    proof {
        lemma_filter_exact(rows, cond);
        assert forall|j: int| 0 <= j < out@.len() implies cond((#[trigger] out@[j])@) by {
            assert(views(out@)[j] == out@[j]@);
        }
    }
    out
}

/// The full memory index for a space's briefing: every active memory except the
/// constitution, by id. No relevance order, no scoring, no truncation: what leaves the
/// index leaves it by no longer being active.
pub fn build_index(memory: &Table<loop_memory::Model>, space_id: i32) -> (r: Vec<
    loop_memory::Model,
>)
    ensures
        views(r@) == memory@.rows.filter(recallable(space_id)),
        forall|k: int|
            0 <= k < memory@.rows.len() && memory@.rows[k].space_id == space_id && memory@.rows[k].status == MemoryStatus::Active && memory@.rows[k].kind != MemoryKind::Constitution
                ==> views(r@).contains(#[trigger] memory@.rows[k]),
        forall|j: int|
            0 <= j < r@.len() ==> (#[trigger] r@[j])@.space_id == space_id && r@[j]@.status == MemoryStatus::Active && r@[j]@.kind != MemoryKind::Constitution,
{
    let ghost rows = memory@.rows;
    let ghost cond = recallable(space_id);
    let mut out: Vec<loop_memory::Model> = Vec::new();
    let mut i: usize = 0;
    proof {
        reveal(Seq::filter);
        assert(views(out@) =~= rows.take(0).filter(cond));
    }
    while i < memory.rows.len()
        invariant
            i <= memory.rows@.len(),
            rows == memory@.rows,
            cond == recallable(space_id),
            views(out@) == rows.take(i as int).filter(cond),
        decreases memory.rows@.len() - i,
    {
        proof {
            lemma_count_step(rows, cond, i as int);
            assert(rows[i as int] == memory.rows@[i as int]@);
        }
        let m = &memory.rows[i];
        if m.space_id == space_id && m.status == MemoryStatus::Active && m.kind
            != MemoryKind::Constitution {
            let ghost before = out@;
            out.push(m.clone());
            assert(views(out@) =~= views(before).push(rows[i as int]));
        }
        i = i + 1;
    }
    assert(rows.take(i as int) =~= rows);
    proof {
        lemma_filter_exact(rows, cond);
        assert forall|j: int| 0 <= j < out@.len() implies cond((#[trigger] out@[j])@) by {
            assert(views(out@)[j] == out@[j]@);
        }
    }
    out
}

fn contains_id(ids: &Vec<i32>, id: i32) -> (r: bool)
    ensures
        r == ids@.contains(id),
{
    let mut i: usize = 0;
    while i < ids.len()
        invariant
            i <= ids@.len(),
            forall|j: int| 0 <= j < i ==> #[trigger] ids@[j] != id,
        decreases ids@.len() - i,
    {
        if ids[i] == id {
            return true;
        }
        i = i + 1;
    }
    false
}

/// Fetch the memories named by `ids` that are still in the recall path of the space:
/// scoped to the space, whatever the ids; active; and no constitution memory. Anything
/// else returns no row. By id.
pub fn get_for_read(memory: &Table<loop_memory::Model>, space_id: i32, ids: &Vec<i32>) -> (r: Vec<
    loop_memory::Model,
>)
    ensures
        views(r@) == memory@.rows.filter(readable(space_id, ids@)),
        forall|k: int|
            0 <= k < memory@.rows.len() && memory@.rows[k].space_id == space_id && memory@.rows[k].status == MemoryStatus::Active && memory@.rows[k].kind != MemoryKind::Constitution && ids@.contains(memory@.rows[k].id)
                ==> views(r@).contains(#[trigger] memory@.rows[k]),
        forall|j: int|
            0 <= j < r@.len() ==> (#[trigger] r@[j])@.space_id == space_id && r@[j]@.status == MemoryStatus::Active && r@[j]@.kind != MemoryKind::Constitution && ids@.contains(r@[j]@.id),
{
    let ghost rows = memory@.rows;
    let ghost cond = readable(space_id, ids@);
    let mut out: Vec<loop_memory::Model> = Vec::new();
    let mut i: usize = 0;
    proof {
        reveal(Seq::filter);
        assert(views(out@) =~= rows.take(0).filter(cond));
    }
    while i < memory.rows.len()
        invariant
            i <= memory.rows@.len(),
            rows == memory@.rows,
            cond == readable(space_id, ids@),
            views(out@) == rows.take(i as int).filter(cond),
        decreases memory.rows@.len() - i,
    {
        proof {
            lemma_count_step(rows, cond, i as int);
            assert(rows[i as int] == memory.rows@[i as int]@);
        }
        let m = &memory.rows[i];
        if m.space_id == space_id && m.status == MemoryStatus::Active && m.kind
            != MemoryKind::Constitution && contains_id(ids, m.id) {
            let ghost before = out@;
            out.push(m.clone());
            assert(views(out@) =~= views(before).push(rows[i as int]));
        }
        i = i + 1;
    }
    assert(rows.take(i as int) =~= rows);
    proof {
        lemma_filter_exact(rows, cond);
        assert forall|j: int| 0 <= j < out@.len() implies cond((#[trigger] out@[j])@) by {
            assert(views(out@)[j] == out@[j]@);
        }
    }
    out
}

// ---------------------------------------------------------------------------
// Laws
// ---------------------------------------------------------------------------

/// Superseding the same memory again does not apply and changes nothing, whichever
/// memory it names: the pointer to the successor is written once.
pub proof fn lemma_supersede_once(
    t: TableView<ModelView>,
    old_id: i32,
    new_id: i32,
    now: Timestamp,
    other_id: i32,
    later: Timestamp,
)
    requires
        table_wf::<loop_memory::Model>(t),
    ensures
        ({
            let once = superseded(t, old_id, new_id, now).0;
            superseded(once, old_id, other_id, later) == (once, false)
        }),
{
    let once = superseded(t, old_id, new_id, now).0;
    lemma_lookup::<loop_memory::Model>(t.rows, old_id);
    if superseded(t, old_id, new_id, now).1 {
        let i = position::<loop_memory::Model>(t.rows, old_id)->Some_0;
        crate::table::lemma_update_wf::<loop_memory::Model>(t, i, once.rows[i]);
        lemma_lookup_at::<loop_memory::Model>(once.rows, i);
    }
}

/// A superseded memory is in neither the index nor any read.
pub proof fn lemma_superseded_leaves_recall(
    t: TableView<ModelView>,
    old_id: i32,
    new_id: i32,
    now: Timestamp,
    space_id: i32,
    ids: Seq<i32>,
    j: int,
)
    requires
        table_wf::<loop_memory::Model>(t),
        superseded(t, old_id, new_id, now).1,
    ensures
        ({
            let rows = superseded(t, old_id, new_id, now).0.rows;
            &&& 0 <= j < rows.filter(recallable(space_id)).len() ==> rows.filter(
                recallable(space_id),
            )[j].id != old_id
            &&& 0 <= j < rows.filter(readable(space_id, ids)).len() ==> rows.filter(
                readable(space_id, ids),
            )[j].id != old_id
        }),
{
    let once = superseded(t, old_id, new_id, now).0;
    let rows = once.rows;
    lemma_lookup::<loop_memory::Model>(t.rows, old_id);
    let i = position::<loop_memory::Model>(t.rows, old_id)->Some_0;
    crate::table::lemma_update_wf::<loop_memory::Model>(t, i, rows[i]);
    if 0 <= j < rows.filter(recallable(space_id)).len() {
        lemma_filter_from(rows, recallable(space_id), j);
        let k = choose|k: int|
            0 <= k < rows.len() && #[trigger] rows[k] == rows.filter(recallable(space_id))[j];
        lemma_lookup_at::<loop_memory::Model>(rows, k);
        lemma_lookup_at::<loop_memory::Model>(rows, i);
    }
    if 0 <= j < rows.filter(readable(space_id, ids)).len() {
        lemma_filter_from(rows, readable(space_id, ids), j);
        let k = choose|k: int|
            0 <= k < rows.len() && #[trigger] rows[k] == rows.filter(readable(space_id, ids))[j];
        lemma_lookup_at::<loop_memory::Model>(rows, k);
        lemma_lookup_at::<loop_memory::Model>(rows, i);
    }
}

/// Every memory that a read returns is of the space, active, asked for, no constitution
/// memory, and in the index of the space.
pub proof fn lemma_read_is_scoped(rows: Seq<ModelView>, space_id: i32, ids: Seq<i32>, j: int)
    requires
        0 <= j < rows.filter(readable(space_id, ids)).len(),
    ensures
        ({
            let m = rows.filter(readable(space_id, ids))[j];
            &&& m.space_id == space_id
            &&& m.status == MemoryStatus::Active
            &&& m.kind != MemoryKind::Constitution
            &&& ids.contains(m.id)
            &&& rows.filter(recallable(space_id)).contains(m)
        }),
{
    lemma_filter_from(rows, readable(space_id, ids), j);
    let m = rows.filter(readable(space_id, ids))[j];
    let k = choose|k: int| 0 <= k < rows.len() && #[trigger] rows[k] == m;
    rows.lemma_filter_contains(recallable(space_id), k);
}

/// A read that asks for nothing returns nothing.
pub proof fn lemma_read_of_nothing(rows: Seq<ModelView>, space_id: i32)
    ensures
        rows.filter(readable(space_id, Seq::<i32>::empty())).len() == 0,
{
    let none = Seq::<i32>::empty();
    if rows.filter(readable(space_id, none)).len() > 0 {
        lemma_filter_from(rows, readable(space_id, none), 0);
    }
}

} // verus!
