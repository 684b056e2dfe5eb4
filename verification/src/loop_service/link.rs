//! Lineage edges between artifacts: at most one per source, target and kind.

use crate::clock::Timestamp;
use crate::entities::loop_link::{self, LinkKind, Model};
use crate::models::LoopLinkRow;
use crate::table::{
    any_match, first_at, first_match, lemma_first_is, lemma_first_match, with_row, Table, TableView,
};
use vstd::prelude::*;

verus! {

/// The edge as its readers see it.
pub open spec fn link_row(m: Model) -> LoopLinkRow {
    LoopLinkRow {
        id: m.id,
        from_artifact_id: m.from_artifact_id,
        to_artifact_id: m.to_artifact_id,
        kind: m.kind,
        source_revision_id: m.source_revision_id,
    }
}

pub fn to_link_row(m: loop_link::Model) -> (r: LoopLinkRow)
    ensures
        r == link_row(m),
{
    LoopLinkRow {
        id: m.id,
        from_artifact_id: m.from_artifact_id,
        to_artifact_id: m.to_artifact_id,
        kind: m.kind,
        source_revision_id: m.source_revision_id,
    }
}

/// The edge joins the two artifacts in the given way.
pub open spec fn joins(from: i32, to: i32, kind: LinkKind) -> spec_fn(Model) -> bool {
    |l: Model| l.from_artifact_id == from && l.to_artifact_id == to && l.kind == kind
}

/// The edges, and the edge that is returned, after an edge was asked for: an
/// existing one is returned unchanged.
pub open spec fn linked(
    t: TableView<Model>,
    space_id: i32,
    from: i32,
    to: i32,
    kind: LinkKind,
    source_revision_id: Option<i32>,
    now: Timestamp,
) -> (TableView<Model>, Model) {
    match first_match(t.rows, joins(from, to, kind)) {
        Some(i) => (t, t.rows[i]),
        None => {
            let row = Model {
                id: t.next_id,
                space_id,
                from_artifact_id: from,
                to_artifact_id: to,
                kind,
                source_revision_id,
                created_at: now,
            };
            (with_row(t, row), row)
        },
    }
}

/// Idempotent: a repeated `(from, to, kind)` triple returns the existing edge instead
/// of inserting a duplicate; the first write fixes the bound revision.
///
/// `source_revision_id` snapshots the content that a design was derived from; `None`
/// for edges that bind no source.
pub fn create_link(
    links: &mut Table<loop_link::Model>,
    space_id: i32,
    from_artifact_id: i32,
    to_artifact_id: i32,
    kind: LinkKind,
    source_revision_id: Option<i32>,
    now: Timestamp,
) -> (r: loop_link::Model)
    requires
        old(links).wf(),
        any_match(old(links)@.rows, joins(from_artifact_id, to_artifact_id, kind)) || old(
            links,
        ).next_id < i32::MAX,
    ensures
        (final(links)@, r) == linked(
            old(links)@,
            space_id,
            from_artifact_id,
            to_artifact_id,
            kind,
            source_revision_id,
            now,
        ),
        final(links).wf(),
{
    let ghost rows = links@.rows;
    let ghost cond = joins(from_artifact_id, to_artifact_id, kind);
    let mut i: usize = 0;
    while i < links.rows.len()
        invariant
            i <= links.rows@.len(),
            links.wf(),
            rows == links@.rows,
            cond == joins(from_artifact_id, to_artifact_id, kind),
            forall|j: int| 0 <= j < i ==> !cond(#[trigger] rows[j]),
        decreases links.rows@.len() - i,
    {
        assert(rows[i as int] == links.rows@[i as int]);
        let l: loop_link::Model = links.rows[i];
        if l.from_artifact_id == from_artifact_id && l.to_artifact_id == to_artifact_id && l.kind
            == kind {
            proof {
                lemma_first_is(rows, cond, i as int);
            }
            return l;
        }
        i = i + 1;
    }
    proof {
        lemma_first_match(rows, cond);
    }
    let row = loop_link::Model {
        id: links.next_id,
        space_id,
        from_artifact_id,
        to_artifact_id,
        kind,
        source_revision_id,
        created_at: now,
    };
    links.insert(row);
    row
}

/// No two edges join the same artifacts in the same way.
pub open spec fn links_unique(rows: Seq<Model>) -> bool {
    forall|i: int, j: int|
        0 <= i < j < rows.len() ==> !((#[trigger] rows[i]).from_artifact_id == (
        #[trigger] rows[j]).from_artifact_id && rows[i].to_artifact_id == rows[j].to_artifact_id
            && rows[i].kind == rows[j].kind)
}

/// Asking for the same edge a second time returns the first edge and changes nothing,
/// whatever source revision it names.
pub proof fn lemma_create_link_idempotent(
    t: TableView<Model>,
    space_id: i32,
    from: i32,
    to: i32,
    kind: LinkKind,
    source: Option<i32>,
    now: Timestamp,
    again_source: Option<i32>,
    later: Timestamp,
)
    ensures
        ({
            let once = linked(t, space_id, from, to, kind, source, now);
            linked(once.0, space_id, from, to, kind, again_source, later) == once
        }),
{
    let cond = joins(from, to, kind);
    let once = linked(t, space_id, from, to, kind, source, now);
    lemma_first_match(t.rows, cond);
    if first_match(t.rows, cond) is None {
        let n = t.rows.len() as int;
        assert(first_at(once.0.rows, cond, n));
        lemma_first_is(once.0.rows, cond, n);
    }
}

/// Edges stay unique.
pub proof fn lemma_create_link_keeps_unique(
    t: TableView<Model>,
    space_id: i32,
    from: i32,
    to: i32,
    kind: LinkKind,
    source: Option<i32>,
    now: Timestamp,
)
    requires
        links_unique(t.rows),
    ensures
        links_unique(linked(t, space_id, from, to, kind, source, now).0.rows),
{
    lemma_first_match(t.rows, joins(from, to, kind));
    let rows = linked(t, space_id, from, to, kind, source, now).0.rows;
    assert forall|i: int, j: int| 0 <= i < j < rows.len() implies !((
    #[trigger] rows[i]).from_artifact_id == (#[trigger] rows[j]).from_artifact_id
        && rows[i].to_artifact_id == rows[j].to_artifact_id && rows[i].kind == rows[j].kind) by {
        if j < t.rows.len() {
            assert(rows[i] == t.rows[i] && rows[j] == t.rows[j]);
        } else {
            assert(rows[i] == t.rows[i]);
            assert(!joins(from, to, kind)(t.rows[i]));
        }
    }
}

} // verus!
