//! What is written to the memories of a space and what is recalled of them, in the terms
//! of their columns.

use crate::clock::Timestamp;
use crate::entities::loop_artifact_revision::ActorKind;
use crate::entities::loop_memory::{self, MemoryKind, MemoryStatus, ModelView, TrustTier};
use crate::loop_engine::terms::lemma_filter_agrees;
use crate::loop_service::memory::{
    constitutional, deleted, edited, memory_row, new_memory, of_space, opt_str, readable,
    recallable, superseded, MemoryProvenance,
};
use crate::table::{
    ids_ascend, lemma_filter_from, lemma_filter_ids_ascend, lemma_lookup, lemma_lookup_at, table_wf,
    TableView,
};
use vstd::prelude::*;

verus! {

// ---------------------------------------------------------------------------
// Recall
// ---------------------------------------------------------------------------

/// The index of a space leaves nothing out: every memory of the space that is active and
/// no constitution memory is in it, whatever its kind, source, trust, texts, origin and
/// times.
pub proof fn law_index_is_complete(rows: Seq<ModelView>, space_id: i32, k: int)
    requires
        0 <= k < rows.len(),
        rows[k].space_id == space_id,
        rows[k].status == MemoryStatus::Active,
        rows[k].kind != MemoryKind::Constitution,
    ensures
        rows.filter(recallable(space_id)).contains(rows[k]),
{
    rows.lemma_filter_contains(recallable(space_id), k);
}

/// The index of a space adds nothing: what is in it is a memory of the space, active and
/// no constitution memory.
pub proof fn law_index_is_sound(rows: Seq<ModelView>, space_id: i32, j: int)
    requires
        0 <= j < rows.filter(recallable(space_id)).len(),
    ensures
        ({
            let m = rows.filter(recallable(space_id))[j];
            &&& rows.contains(m)
            &&& m.space_id == space_id
            &&& m.status == MemoryStatus::Active
            &&& m.kind != MemoryKind::Constitution
        }),
{
    lemma_filter_from(rows, recallable(space_id), j);
}

/// A read leaves nothing out: every memory of the space that is active and no constitution
/// memory is in it when its id is among those asked for, whatever its other columns.
pub proof fn law_read_is_complete(rows: Seq<ModelView>, space_id: i32, ids: Seq<i32>, k: int)
    requires
        0 <= k < rows.len(),
        rows[k].space_id == space_id,
        rows[k].status == MemoryStatus::Active,
        rows[k].kind != MemoryKind::Constitution,
        ids.contains(rows[k].id),
    ensures
        rows.filter(readable(space_id, ids)).contains(rows[k]),
{
    rows.lemma_filter_contains(readable(space_id, ids), k);
}

/// A read adds nothing.
pub proof fn law_read_is_sound(rows: Seq<ModelView>, space_id: i32, ids: Seq<i32>, j: int)
    requires
        0 <= j < rows.filter(readable(space_id, ids)).len(),
    ensures
        ({
            let m = rows.filter(readable(space_id, ids))[j];
            &&& rows.contains(m)
            &&& m.space_id == space_id
            &&& m.status == MemoryStatus::Active
            &&& m.kind != MemoryKind::Constitution
            &&& ids.contains(m.id)
        }),
{
    lemma_filter_from(rows, readable(space_id, ids), j);
}

/// The index, a read and the constitution are exactly the rows that their columns single
/// out, each as often as the table holds it and in the order of the table.
pub proof fn law_recall(rows: Seq<ModelView>, space_id: i32, ids: Seq<i32>)
    ensures
        rows.filter(recallable(space_id)) == rows.filter(
            |m: ModelView|
                m.space_id == space_id && m.status == MemoryStatus::Active && (m.kind
                    == MemoryKind::Pitfall || m.kind == MemoryKind::Decision || m.kind
                    == MemoryKind::Constraint || m.kind == MemoryKind::Preference),
        ),
        rows.filter(readable(space_id, ids)) == rows.filter(
            |m: ModelView|
                m.space_id == space_id && m.status == MemoryStatus::Active && m.kind
                    != MemoryKind::Constitution && ids.contains(m.id),
        ),
        rows.filter(constitutional(space_id)) == rows.filter(
            |m: ModelView|
                m.space_id == space_id && m.status == MemoryStatus::Active && m.kind
                    == MemoryKind::Constitution,
        ),
{
    lemma_filter_agrees(
        rows,
        recallable(space_id),
        |m: ModelView|
            m.space_id == space_id && m.status == MemoryStatus::Active && (m.kind
                    == MemoryKind::Pitfall || m.kind == MemoryKind::Decision || m.kind
                    == MemoryKind::Constraint || m.kind == MemoryKind::Preference),
    );
    lemma_filter_agrees(
        rows,
        readable(space_id, ids),
        |m: ModelView|
            m.space_id == space_id && m.status == MemoryStatus::Active && m.kind
                != MemoryKind::Constitution && ids.contains(m.id),
    );
    lemma_filter_agrees(
        rows,
        constitutional(space_id),
        |m: ModelView|
            m.space_id == space_id && m.status == MemoryStatus::Active && m.kind
                == MemoryKind::Constitution,
    );
}

/// The constitution of a space is every active constitution memory of it, and no other.
pub proof fn law_constitution(rows: Seq<ModelView>, space_id: i32, k: int, j: int)
    ensures
        0 <= k < rows.len() && rows[k].space_id == space_id && rows[k].status
            == MemoryStatus::Active && rows[k].kind == MemoryKind::Constitution ==> rows.filter(
            constitutional(space_id),
        ).contains(rows[k]),
        0 <= j < rows.filter(constitutional(space_id)).len() ==> ({
            let m = rows.filter(constitutional(space_id))[j];
            &&& rows.contains(m)
            &&& m.space_id == space_id
            &&& m.status == MemoryStatus::Active
            &&& m.kind == MemoryKind::Constitution
        }),
{
    if 0 <= k < rows.len() && constitutional(space_id)(rows[k]) {
        rows.lemma_filter_contains(constitutional(space_id), k);
    }
    if 0 <= j < rows.filter(constitutional(space_id)).len() {
        lemma_filter_from(rows, constitutional(space_id), j);
    }
}

/// What is recalled comes in ascending order of the ids.
pub proof fn law_recall_order(rows: Seq<ModelView>, space_id: i32, ids: Seq<i32>, i: int, j: int)
    requires
        ids_ascend::<loop_memory::Model>(rows),
        0 <= i < j,
    ensures
        j < rows.filter(recallable(space_id)).len() ==> rows.filter(recallable(space_id))[i].id
            < rows.filter(recallable(space_id))[j].id,
        j < rows.filter(readable(space_id, ids)).len() ==> rows.filter(
            readable(space_id, ids),
        )[i].id < rows.filter(readable(space_id, ids))[j].id,
        j < rows.filter(constitutional(space_id)).len() ==> rows.filter(
            constitutional(space_id),
        )[i].id < rows.filter(constitutional(space_id))[j].id,
{
    lemma_filter_ids_ascend::<loop_memory::Model>(rows, recallable(space_id));
    lemma_filter_ids_ascend::<loop_memory::Model>(rows, readable(space_id, ids));
    lemma_filter_ids_ascend::<loop_memory::Model>(rows, constitutional(space_id));
}

/// The memories of a space are listed whatever their status and kind: a memory is in the
/// listing exactly when it is of the space.
pub proof fn law_listed_memories(rows: Seq<ModelView>, space_id: i32, k: int, j: int)
    ensures
        0 <= k < rows.len() && rows[k].space_id == space_id ==> rows.filter(
            of_space(space_id),
        ).contains(rows[k]),
        0 <= j < rows.filter(of_space(space_id)).len() ==> rows.filter(of_space(space_id))[j].space_id
            == space_id && rows.contains(rows.filter(of_space(space_id))[j]),
{
    if 0 <= k < rows.len() && rows[k].space_id == space_id {
        rows.lemma_filter_contains(of_space(space_id), k);
    }
    if 0 <= j < rows.filter(of_space(space_id)).len() {
        lemma_filter_from(rows, of_space(space_id), j);
    }
}

/// A listed memory shows its own columns.
pub proof fn law_memory_row(m: ModelView)
    ensures
        memory_row(m).id == m.id,
        memory_row(m).kind == m.kind,
        memory_row(m).source == m.source,
        memory_row(m).title == m.title,
        memory_row(m).summary == m.summary,
        memory_row(m).content == m.content,
        memory_row(m).trust_tier == m.trust_tier,
        memory_row(m).status == m.status,
        memory_row(m).superseded_by == m.superseded_by,
        memory_row(m).source_issue_id == m.source_issue_id,
        memory_row(m).source_artifact_id == m.source_artifact_id,
        memory_row(m).produced_by_iteration_id == m.produced_by_iteration_id,
        memory_row(m).created_at == m.created_at,
        memory_row(m).updated_at == m.updated_at,
{
}

// ---------------------------------------------------------------------------
// Writing
// ---------------------------------------------------------------------------

/// A new memory is active and superseded by none; it holds what it was given, and both
/// its times are the time of its creation.
pub proof fn law_new_memory(
    id: i32,
    space_id: i32,
    kind: MemoryKind,
    source: ActorKind,
    title: Seq<char>,
    summary: Option<Seq<char>>,
    content: Seq<char>,
    trust_tier: TrustTier,
    provenance: MemoryProvenance,
    now: Timestamp,
)
    ensures
        ({
            let m = new_memory(
                id,
                space_id,
                kind,
                source,
                title,
                summary,
                content,
                trust_tier,
                provenance,
                now,
            );
            &&& m.id == id
            &&& m.space_id == space_id
            &&& m.kind == kind
            &&& m.source == source
            &&& m.title == title
            &&& m.summary == summary
            &&& m.content == content
            &&& m.trust_tier == trust_tier
            &&& m.status == MemoryStatus::Active
            &&& m.superseded_by is None
            &&& m.source_issue_id == provenance.source_issue_id
            &&& m.source_artifact_id == provenance.source_artifact_id
            &&& m.produced_by_iteration_id == provenance.produced_by_iteration_id
            &&& m.created_at == now
            &&& m.updated_at == now
        }),
{
}

/// A summary is kept as it was given, and is absent only where none was given.
pub proof fn law_summary(s: Option<&str>)
    ensures
        opt_str(s) is None <==> s is None,
        s is Some ==> opt_str(s)->Some_0 == s->Some_0@,
{
}

/// An edit writes the title, the content, the status and the time of the memory with the
/// id; its other columns and every other memory stay.
pub proof fn law_edit(
    t: TableView<ModelView>,
    id: i32,
    title: Seq<char>,
    content: Seq<char>,
    status: MemoryStatus,
    now: Timestamp,
    k: int,
)
    requires
        table_wf::<loop_memory::Model>(t),
        0 <= k < t.rows.len(),
    ensures
        ({
            let u = edited(t, id, title, content, status, now);
            let m = t.rows[k];
            &&& u.next_id == t.next_id
            &&& u.rows.len() == t.rows.len()
            &&& m.id != id ==> u.rows[k] == m
            &&& m.id == id ==> u.rows[k] == (ModelView {
                id: m.id,
                space_id: m.space_id,
                kind: m.kind,
                source: m.source,
                title,
                summary: m.summary,
                content,
                trust_tier: m.trust_tier,
                status,
                superseded_by: m.superseded_by,
                source_issue_id: m.source_issue_id,
                source_artifact_id: m.source_artifact_id,
                produced_by_iteration_id: m.produced_by_iteration_id,
                created_at: m.created_at,
                updated_at: now,
            })
        }),
{
    lemma_lookup::<loop_memory::Model>(t.rows, id);
    lemma_lookup_at::<loop_memory::Model>(t.rows, k);
}

/// A deletion removes the memory with the id, and only that; the order stays, and no id
/// is given out again.
pub proof fn law_delete(t: TableView<ModelView>, id: i32, k: int)
    requires
        table_wf::<loop_memory::Model>(t),
    ensures
        deleted(t, id).next_id == t.next_id,
        0 <= k < t.rows.len() && t.rows[k].id == id ==> deleted(t, id).rows == t.rows.subrange(0, k)
            + t.rows.subrange(k + 1, t.rows.len() as int),
        (forall|i: int| 0 <= i < t.rows.len() ==> (#[trigger] t.rows[i]).id != id) ==> deleted(
            t,
            id,
        ).rows == t.rows,
{
    lemma_lookup::<loop_memory::Model>(t.rows, id);
    if 0 <= k < t.rows.len() && t.rows[k].id == id {
        lemma_lookup_at::<loop_memory::Model>(t.rows, k);
        assert(t.rows.remove(k) =~= t.rows.subrange(0, k) + t.rows.subrange(
            k + 1,
            t.rows.len() as int,
        ));
    }
}

/// Superseding applies exactly when the memory with the id is active. It marks that memory
/// superseded and points it at its successor; its other columns and every other memory
/// stay.
pub proof fn law_supersede(
    t: TableView<ModelView>,
    old_id: i32,
    new_id: i32,
    now: Timestamp,
    k: int,
)
    requires
        table_wf::<loop_memory::Model>(t),
        0 <= k < t.rows.len(),
    ensures
        ({
            let (u, applied) = superseded(t, old_id, new_id, now);
            let m = t.rows[k];
            &&& u.next_id == t.next_id
            &&& u.rows.len() == t.rows.len()
            &&& m.id != old_id ==> u.rows[k] == m
            &&& m.id == old_id && m.status != MemoryStatus::Active ==> u.rows[k] == m && !applied
            &&& m.id == old_id && m.status == MemoryStatus::Active ==> applied && u.rows[k] == (
            ModelView {
                id: m.id,
                space_id: m.space_id,
                kind: m.kind,
                source: m.source,
                title: m.title,
                summary: m.summary,
                content: m.content,
                trust_tier: m.trust_tier,
                status: MemoryStatus::Superseded,
                superseded_by: Some(new_id),
                source_issue_id: m.source_issue_id,
                source_artifact_id: m.source_artifact_id,
                produced_by_iteration_id: m.produced_by_iteration_id,
                created_at: m.created_at,
                updated_at: now,
            })
        }),
{
    lemma_lookup::<loop_memory::Model>(t.rows, old_id);
    lemma_lookup_at::<loop_memory::Model>(t.rows, k);
}

/// Superseding or editing a memory that is not there changes nothing.
pub proof fn law_missing_memory(
    t: TableView<ModelView>,
    id: i32,
    new_id: i32,
    title: Seq<char>,
    content: Seq<char>,
    status: MemoryStatus,
    now: Timestamp,
)
    requires
        forall|i: int| 0 <= i < t.rows.len() ==> (#[trigger] t.rows[i]).id != id,
    ensures
        superseded(t, id, new_id, now) == (t, false),
        edited(t, id, title, content, status, now) == t,
{
    lemma_lookup::<loop_memory::Model>(t.rows, id);
}

} // verus!
