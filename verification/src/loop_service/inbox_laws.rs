//! What holds of the inbox whatever is filed and handled.

use crate::clock::Timestamp;
use crate::entities::loop_inbox_item::{self, InboxKind, InboxStatus, ModelView};
use crate::json::{
    double_free, json_parsed, json_text, lemma_json_equal_exact, lemma_json_equal_reflexive, member,
    merged_json, stored_json, JsonView,
};
use crate::loop_service::inbox::{
    after_handling, approval_resolved, handled, kept_payload, key_for, ordinary_block,
    oscillation_card, pending_card, swept, tally_of, upserted, InboxUpsertView,
};
use crate::table::{
    any_match, first_at, first_match, lemma_first_is, lemma_first_match, lemma_lookup,
    lemma_lookup_at, lemma_update_wf, position, table_wf, with_rows, TableView,
};
use crate::text::{int_digits, lemma_int_digits_injective};
use vstd::prelude::*;

verus! {

/// Two cards that are both pending and ask the same of the same subject.
pub open spec fn same_pending(a: ModelView, b: ModelView) -> bool {
    &&& a.status == InboxStatus::Pending
    &&& b.status == InboxStatus::Pending
    &&& a.issue_id == b.issue_id
    &&& a.kind == b.kind
    &&& a.subject_key == b.subject_key
}

/// At most one card is pending per issue, kind and subject key.
pub open spec fn pending_unique(rows: Seq<ModelView>) -> bool {
    forall|i: int, j: int|
        0 <= i < j < rows.len() ==> !same_pending(#[trigger] rows[i], #[trigger] rows[j])
}

/// Filing a card never stacks a second pending one.
pub proof fn lemma_upsert_keeps_pending_unique(
    t: TableView<ModelView>,
    space_id: i32,
    issue_id: i32,
    iteration_id: Option<i32>,
    kind: InboxKind,
    subject_key: Seq<char>,
    payload: JsonView,
    now: Timestamp,
)
    requires
        pending_unique(t.rows),
    ensures
        pending_unique(
            upserted(
                t,
                space_id,
                issue_id,
                iteration_id,
                kind,
                subject_key,
                payload,
                now,
            ).0.rows,
        ),
{
    let cond = pending_card(issue_id, kind, subject_key);
    lemma_first_match(t.rows, cond);
    let rows = upserted(
        t,
        space_id,
        issue_id,
        iteration_id,
        kind,
        subject_key,
        payload,
        now,
    ).0.rows;
    assert forall|i: int, j: int| 0 <= i < j < rows.len() implies !same_pending(
        #[trigger] rows[i],
        #[trigger] rows[j],
    ) by {
        if j < t.rows.len() {
            assert(!same_pending(t.rows[i], t.rows[j]));
        } else {
            assert(rows[i] == t.rows[i]);
            assert(!cond(t.rows[i]));
        }
    }
}

/// After filing, the card is there, pending, under its key, and it is the one that was
/// handed back.
pub proof fn lemma_upsert_files(
    t: TableView<ModelView>,
    space_id: i32,
    issue_id: i32,
    iteration_id: Option<i32>,
    kind: InboxKind,
    subject_key: Seq<char>,
    payload: JsonView,
    now: Timestamp,
)
    ensures
        ({
            let (after, r) = upserted(
                t,
                space_id,
                issue_id,
                iteration_id,
                kind,
                subject_key,
                payload,
                now,
            );
            let card = match r {
                InboxUpsertView::Created(c) => c,
                InboxUpsertView::Updated(c) => c,
                InboxUpsertView::Unchanged(c) => c,
            };
            match first_match(after.rows, pending_card(issue_id, kind, subject_key)) {
                Some(i) => 0 <= i < after.rows.len() && after.rows[i] == card,
                None => false,
            }
        }),
{
    let cond = pending_card(issue_id, kind, subject_key);
    lemma_first_match(t.rows, cond);
    let after = upserted(
        t,
        space_id,
        issue_id,
        iteration_id,
        kind,
        subject_key,
        payload,
        now,
    ).0;
    match first_match(t.rows, cond) {
        Some(i) => {
            assert(first_at(after.rows, cond, i));
            lemma_first_is(after.rows, cond, i);
        },
        None => {
            let n = t.rows.len() as int;
            assert(first_at(after.rows, cond, n));
            lemma_first_is(after.rows, cond, n);
        },
    }
}

/// A recurrence with the same payload changes nothing, where the stored text of the
/// payload, or of its merge into a pending card, reads back: filing a card on every
/// tick announces it once.
pub proof fn lemma_upsert_again_unchanged(
    t: TableView<ModelView>,
    space_id: i32,
    issue_id: i32,
    iteration_id: Option<i32>,
    kind: InboxKind,
    subject_key: Seq<char>,
    payload: JsonView,
    now: Timestamp,
    later: Timestamp,
)
    requires
        ({
            let kept = kept_payload(t, issue_id, kind, subject_key, payload);
            json_parsed(json_text(kept)) == Some(kept)
        }),
    ensures
        ({
            let once = upserted(
                t,
                space_id,
                issue_id,
                iteration_id,
                kind,
                subject_key,
                payload,
                now,
            ).0;
            let (after, r) = upserted(
                once,
                space_id,
                issue_id,
                iteration_id,
                kind,
                subject_key,
                payload,
                later,
            );
            after == once && r is Unchanged
        }),
{
    let cond = pending_card(issue_id, kind, subject_key);
    let once = upserted(
        t,
        space_id,
        issue_id,
        iteration_id,
        kind,
        subject_key,
        payload,
        now,
    ).0;
    lemma_first_match(t.rows, cond);
    match first_match(t.rows, cond) {
        Some(i) => {
            let existing = stored_json(t.rows[i].payload);
            let merged = merged_json(existing, payload);
            assert(first_at(once.rows, cond, i));
            lemma_first_is(once.rows, cond, i);
            lemma_merge_again(existing, payload);
            lemma_json_equal_reflexive(merged);
        },
        None => {
            let n = t.rows.len() as int;
            assert(first_at(once.rows, cond, n));
            lemma_first_is(once.rows, cond, n);
            lemma_merge_with_itself(payload);
            lemma_json_equal_reflexive(payload);
        },
    }
}

/// Where filing a card reports no change, the merge is the very value that is stored,
/// unless doubles are in it, which compare as numbers.
pub proof fn lemma_unchanged_means_equal(
    t: TableView<ModelView>,
    space_id: i32,
    issue_id: i32,
    iteration_id: Option<i32>,
    kind: InboxKind,
    subject_key: Seq<char>,
    payload: JsonView,
    now: Timestamp,
)
    requires
        upserted(
            t,
            space_id,
            issue_id,
            iteration_id,
            kind,
            subject_key,
            payload,
            now,
        ).1 is Unchanged,
    ensures
        match first_match(t.rows, pending_card(issue_id, kind, subject_key)) {
            Some(i) => {
                let existing = stored_json(t.rows[i].payload);
                let merged = merged_json(existing, payload);
                double_free(merged) ==> merged == existing
            },
            None => false,
        },
{
    if let Some(i) = first_match(t.rows, pending_card(issue_id, kind, subject_key)) {
        let existing = stored_json(t.rows[i].payload);
        let merged = merged_json(existing, payload);
        if double_free(merged) {
            lemma_json_equal_exact(merged, existing);
        }
    }
}

/// Merging the same payload again changes nothing.
pub proof fn lemma_merge_again(base: JsonView, new: JsonView)
    ensures
        merged_json(merged_json(base, new), new) == merged_json(base, new),
{
    match (base, new) {
        (JsonView::Object(b), JsonView::Object(n)) => {
            assert(b.union_prefer_right(n).union_prefer_right(n) =~= b.union_prefer_right(n));
        },
        _ => {
            lemma_merge_with_itself(new);
        },
    }
}

proof fn lemma_merge_with_itself(v: JsonView)
    ensures
        merged_json(v, v) == v,
{
    if let JsonView::Object(m) = v {
        assert(m.union_prefer_right(m) =~= m);
    }
}

/// Merging objects loses no member: those of the new payload win, the others of the
/// base are kept.
pub proof fn lemma_merge_preserves(
    base: Map<Seq<char>, JsonView>,
    new: Map<Seq<char>, JsonView>,
    key: Seq<char>,
)
    ensures
        member(merged_json(JsonView::Object(base), JsonView::Object(new)), key) == (
        if new.contains_key(key) {
            Some(new[key])
        } else if base.contains_key(key) {
            Some(base[key])
        } else {
            None
        }),
{
}

/// Handling a card again changes nothing, whatever the resolution.
pub proof fn lemma_handle_once(
    t: TableView<ModelView>,
    id: i32,
    resolution: JsonView,
    now: Timestamp,
    other: JsonView,
    later: Timestamp,
)
    requires
        table_wf::<loop_inbox_item::Model>(t),
    ensures
        ({
            let once = after_handling(t, id, resolution, now);
            after_handling(once, id, other, later) == once
        }),
{
    let once = after_handling(t, id, resolution, now);
    lemma_lookup::<loop_inbox_item::Model>(t.rows, id);
    if let Some(i) = position::<loop_inbox_item::Model>(t.rows, id) {
        if t.rows[i].status != InboxStatus::Handled {
            lemma_update_wf::<loop_inbox_item::Model>(t, i, once.rows[i]);
            lemma_lookup_at::<loop_inbox_item::Model>(once.rows, i);
        }
    }
}

/// Once a card is handled, the same key is filed as a fresh card.
pub proof fn lemma_handled_card_reopens(
    t: TableView<ModelView>,
    i: int,
    resolution: Seq<char>,
    handled_at: Timestamp,
    space_id: i32,
    iteration_id: Option<i32>,
    payload: JsonView,
    now: Timestamp,
)
    requires
        pending_unique(t.rows),
        0 <= i < t.rows.len(),
        t.rows[i].status == InboxStatus::Pending,
    ensures
        ({
            let c = t.rows[i];
            let u = with_rows(t, t.rows.update(i, handled(c, resolution, handled_at)));
            upserted(
                u,
                space_id,
                c.issue_id,
                iteration_id,
                c.kind,
                c.subject_key,
                payload,
                now,
            ).1 is Created
        }),
{
    let c = t.rows[i];
    let rows = t.rows.update(i, handled(c, resolution, handled_at));
    let cond = pending_card(c.issue_id, c.kind, c.subject_key);
    assert forall|j: int| 0 <= j < rows.len() implies !cond(#[trigger] rows[j]) by {
        if j < i {
            assert(!same_pending(t.rows[j], t.rows[i]));
        } else if j > i {
            assert(!same_pending(t.rows[i], t.rows[j]));
        }
    }
    lemma_first_match(rows, cond);
}

/// A sweep handles every card that it is for, leaves every other card alone, and keeps
/// pending cards unique.
pub proof fn lemma_sweep(
    t: TableView<ModelView>,
    cond: spec_fn(ModelView) -> bool,
    resolution: JsonView,
    now: Timestamp,
)
    requires
        pending_unique(t.rows),
    ensures
        ({
            let rows = swept(t, cond, resolution, now).rows;
            &&& rows.len() == t.rows.len()
            &&& pending_unique(rows)
            &&& forall|i: int|
                0 <= i < rows.len() ==> #[trigger] rows[i] == (if cond(t.rows[i]) {
                    handled(t.rows[i], json_text(resolution), now)
                } else {
                    t.rows[i]
                })
            &&& forall|i: int|
                0 <= i < rows.len() && (#[trigger] rows[i]).status == InboxStatus::Pending ==> !cond(
                    t.rows[i],
                ) && rows[i] == t.rows[i]
        }),
{
    let rows = swept(t, cond, resolution, now).rows;
    assert forall|i: int, j: int| 0 <= i < j < rows.len() implies !same_pending(
        #[trigger] rows[i],
        #[trigger] rows[j],
    ) by {
        assert(!same_pending(t.rows[i], t.rows[j]));
    }
}

/// Resolving an approval keeps pending cards unique and leaves no such approval
/// pending.
pub proof fn lemma_approval_resolved(
    t: TableView<ModelView>,
    issue_id: i32,
    subject: Seq<char>,
    resolution: JsonView,
    now: Timestamp,
)
    requires
        pending_unique(t.rows),
    ensures
        ({
            let rows = approval_resolved(t, issue_id, subject, resolution, now).rows;
            &&& pending_unique(rows)
            &&& !any_match(rows, pending_card(issue_id, InboxKind::Approval, subject))
        }),
{
    let cond = pending_card(issue_id, InboxKind::Approval, subject);
    lemma_first_match(t.rows, cond);
    let rows = approval_resolved(t, issue_id, subject, resolution, now).rows;
    assert forall|i: int, j: int| 0 <= i < j < rows.len() implies !same_pending(
        #[trigger] rows[i],
        #[trigger] rows[j],
    ) by {
        assert(!same_pending(t.rows[i], t.rows[j]));
    }
    if let Some(i) = first_match(t.rows, cond) {
        assert forall|j: int| 0 <= j < rows.len() implies !cond(#[trigger] rows[j]) by {
            if j > i {
                assert(!same_pending(t.rows[i], t.rows[j]));
            }
        }
    }
}

/// Keys of one prefix and different ids are different.
pub proof fn lemma_key_injective(prefix: Seq<char>, a: i32, b: i32)
    requires
        key_for(prefix, a) == key_for(prefix, b),
    ensures
        a == b,
{
    let head = prefix + ":"@;
    assert(key_for(prefix, a).skip(head.len() as int) =~= int_digits(a as int));
    assert(key_for(prefix, b).skip(head.len() as int) =~= int_digits(b as int));
    lemma_int_digits_injective(a as int, b as int);
}

/// An oscillation card is never swept by a retry.
pub proof fn lemma_retry_spares_oscillation(issue_id: i32, task_id: i32, c: ModelView)
    requires
        oscillation_card(issue_id, task_id)(c),
    ensures
        !ordinary_block(issue_id)(c),
{
    reveal_strlit("oscillation");
    reveal_strlit(":");
    reveal_strlit("oscillation:");
    let key = key_for("oscillation"@, task_id);
    assert(key.take("oscillation:"@.len() as int) =~= "oscillation:"@);
}

/// Every pending card counts once: blocking and notice together are all of them.
pub proof fn lemma_tally_total(kinds: Seq<InboxKind>)
    ensures
        tally_of(kinds).0 + tally_of(kinds).1 == kinds.len(),
    decreases kinds.len(),
{
    reveal(Seq::filter);
    if kinds.len() > 0 {
        lemma_tally_total(kinds.drop_last());
    }
}

} // verus!
