//! What the inbox counts, files, answers and lists, in the terms of the cards' columns.

use crate::clock::Timestamp;
use crate::entities::loop_artifact::{self, ArtifactKind, ArtifactStatus};
use crate::entities::loop_inbox_item::{self, InboxKind, InboxStatus, ModelView};
use crate::entities::{loop_issue, loop_iteration};
use crate::json::{json_equal, json_parsed, json_text, member, merged_json, JsonView};
use crate::loop_engine::exit_laws::{holds_task, lemma_last_blocker, names_oscillation};
use crate::loop_engine::terms::{answered, colon_key, lemma_key};
use crate::loop_service::inbox::{
    after_handling, blocker_sig, blocks_task, class_of, key_for, kinds_where, ordinary_block,
    oscillation_card, pending_card, pending_in_space, pending_of_issue, pending_of_kind, swept,
    tally_of, task_blocker, upserted, AttentionClass, InboxUpsertView,
};
use crate::loop_service::subject::{
    classified, in_listing, is_colon, listing_of, live_artifact, live_of, payload_artifact,
    resolved, subject_of, subject_parts, SubjectResolution,
};
use crate::table::{
    any_match, first_match, ids_ascend, last_match, lemma_first_is, lemma_first_match, lemma_lookup,
    lemma_lookup_at, position, table_wf, TableView,
};
use crate::text::i32_value;
use vstd::prelude::*;

verus! {

// ---------------------------------------------------------------------------
// Attention
// ---------------------------------------------------------------------------

/// Every kind of card blocks, but for a failed reflection, which is a notice.
pub proof fn law_attention_class(kind: InboxKind)
    ensures
        match kind {
            InboxKind::Approval => class_of(kind) == AttentionClass::Blocking,
            InboxKind::Blocked => class_of(kind) == AttentionClass::Blocking,
            InboxKind::BudgetExhausted => class_of(kind) == AttentionClass::Blocking,
            InboxKind::Question => class_of(kind) == AttentionClass::Blocking,
            InboxKind::ReflectionFailed => class_of(kind) == AttentionClass::Notice,
        },
{
}

proof fn lemma_tally(
    rows: Seq<ModelView>,
    cond: spec_fn(ModelView) -> bool,
    blocking: spec_fn(ModelView) -> bool,
    notice: spec_fn(ModelView) -> bool,
)
    requires
        forall|c: ModelView| #[trigger]
            blocking(c) == (cond(c) && c.kind != InboxKind::ReflectionFailed),
        forall|c: ModelView| #[trigger]
            notice(c) == (cond(c) && c.kind == InboxKind::ReflectionFailed),
    ensures
        tally_of(kinds_where(rows, cond)) == (
            rows.filter(blocking).len() as int,
            rows.filter(notice).len() as int,
        ),
    decreases rows.len(),
{
    reveal(Seq::filter);
    let f = |c: ModelView| c.kind;
    if rows.len() == 0 {
        assert(kinds_where(rows, cond) =~= Seq::empty());
    } else {
        let front = rows.drop_last();
        let c = rows.last();
        lemma_tally(front, cond, blocking, notice);
        let kinds = kinds_where(front, cond);
        assert(blocking(c) == (cond(c) && c.kind != InboxKind::ReflectionFailed));
        assert(notice(c) == (cond(c) && c.kind == InboxKind::ReflectionFailed));
        if cond(c) {
            assert(kinds_where(rows, cond) =~= kinds.push(c.kind));
            assert(kinds.push(c.kind).drop_last() =~= kinds);
        } else {
            assert(kinds_where(rows, cond) =~= kinds);
        }
    }
}

/// What a space needs: its pending cards, the failed reflections counted as notices and
/// all others as blocking. Handled cards and cards of other spaces do not count.
pub proof fn law_space_attention(rows: Seq<ModelView>, space_id: i32)
    ensures
        tally_of(kinds_where(rows, pending_in_space(space_id))) == (
            rows.filter(
                |c: ModelView|
                    c.space_id == space_id && c.status == InboxStatus::Pending && c.kind
                        != InboxKind::ReflectionFailed,
            ).len() as int,
            rows.filter(
                |c: ModelView|
                    c.space_id == space_id && c.status == InboxStatus::Pending && c.kind
                        == InboxKind::ReflectionFailed,
            ).len() as int,
        ),
{
    lemma_tally(
        rows,
        pending_in_space(space_id),
        |c: ModelView|
            c.space_id == space_id && c.status == InboxStatus::Pending && c.kind
                != InboxKind::ReflectionFailed,
        |c: ModelView|
            c.space_id == space_id && c.status == InboxStatus::Pending && c.kind
                == InboxKind::ReflectionFailed,
    );
}

/// What an issue needs, in the same way.
pub proof fn law_issue_attention(rows: Seq<ModelView>, issue_id: i32)
    ensures
        tally_of(kinds_where(rows, pending_of_issue(issue_id))) == (
            rows.filter(
                |c: ModelView|
                    c.issue_id == issue_id && c.status == InboxStatus::Pending && c.kind
                        != InboxKind::ReflectionFailed,
            ).len() as int,
            rows.filter(
                |c: ModelView|
                    c.issue_id == issue_id && c.status == InboxStatus::Pending && c.kind
                        == InboxKind::ReflectionFailed,
            ).len() as int,
        ),
{
    lemma_tally(
        rows,
        pending_of_issue(issue_id),
        |c: ModelView|
            c.issue_id == issue_id && c.status == InboxStatus::Pending && c.kind
                != InboxKind::ReflectionFailed,
        |c: ModelView|
            c.issue_id == issue_id && c.status == InboxStatus::Pending && c.kind
                == InboxKind::ReflectionFailed,
    );
}

/// A space or an issue is in a rollup exactly when it has a pending card.
pub proof fn law_in_rollup(rows: Seq<ModelView>, id: i32)
    ensures
        any_match(rows, pending_in_space(id)) <==> exists|k: int|
            0 <= k < rows.len() && (#[trigger] rows[k]).space_id == id && rows[k].status
                == InboxStatus::Pending,
        any_match(rows, pending_of_issue(id)) <==> exists|k: int|
            0 <= k < rows.len() && (#[trigger] rows[k]).issue_id == id && rows[k].status
                == InboxStatus::Pending,
{
    if any_match(rows, pending_in_space(id)) {
        let k = choose|k: int| 0 <= k < rows.len() && pending_in_space(id)(#[trigger] rows[k]);
        assert(rows[k].space_id == id);
    }
    if any_match(rows, pending_of_issue(id)) {
        let k = choose|k: int| 0 <= k < rows.len() && pending_of_issue(id)(#[trigger] rows[k]);
        assert(rows[k].issue_id == id);
    }
    assert forall|k: int|
        0 <= k < rows.len() && (#[trigger] rows[k]).space_id == id && rows[k].status
            == InboxStatus::Pending implies pending_in_space(id)(rows[k]) by {
    }
    assert forall|k: int|
        0 <= k < rows.len() && (#[trigger] rows[k]).issue_id == id && rows[k].status
            == InboxStatus::Pending implies pending_of_issue(id)(rows[k]) by {
    }
}

// ---------------------------------------------------------------------------
// Filing and answering
// ---------------------------------------------------------------------------

/// The card waits: it is pending, for the issue, of the kind, under the key.
pub open spec fn waits(c: ModelView, issue_id: i32, kind: InboxKind, key: Seq<char>) -> bool {
    &&& c.issue_id == issue_id
    &&& c.kind == kind
    &&& c.subject_key == key
    &&& c.status == InboxStatus::Pending
}

/// Filing where no such card waits: exactly one card is added, pending, with the columns
/// as they were given, and it is handed back as created.
pub proof fn law_file_first(
    t: TableView<ModelView>,
    space_id: i32,
    issue_id: i32,
    iteration_id: Option<i32>,
    kind: InboxKind,
    key: Seq<char>,
    payload: JsonView,
    now: Timestamp,
)
    requires
        t.next_id < i32::MAX,
        forall|k: int| 0 <= k < t.rows.len() ==> !waits(#[trigger] t.rows[k], issue_id, kind, key),
    ensures
        ({
            let card = ModelView {
                id: t.next_id,
                space_id,
                issue_id,
                iteration_id,
                kind,
                subject_key: key,
                payload: json_text(payload),
                status: InboxStatus::Pending,
                resolution: None,
                created_at: now,
                handled_at: None,
            };
            let (u, r) = upserted(t, space_id, issue_id, iteration_id, kind, key, payload, now);
            &&& u.rows == t.rows.push(card)
            &&& u.next_id == t.next_id + 1
            &&& r == InboxUpsertView::Created(card)
        }),
{
    lemma_first_match(t.rows, pending_card(issue_id, kind, key));
    if let Some(i) = first_match(t.rows, pending_card(issue_id, kind, key)) {
        assert(waits(t.rows[i], issue_id, kind, key));
    }
}

/// Filing where such a card waits: no card is added. The new payload is merged over what
/// the first such card holds, a text that is no JSON counting as null. If that is equal
/// to what it holds, nothing changes; else only its payload changes. The card is handed
/// back either way.
pub proof fn law_file_again(
    t: TableView<ModelView>,
    space_id: i32,
    issue_id: i32,
    iteration_id: Option<i32>,
    kind: InboxKind,
    key: Seq<char>,
    payload: JsonView,
    now: Timestamp,
    i: int,
)
    requires
        0 <= i < t.rows.len(),
        waits(t.rows[i], issue_id, kind, key),
        forall|k: int| 0 <= k < i ==> !waits(#[trigger] t.rows[k], issue_id, kind, key),
    ensures
        ({
            let held = if json_parsed(t.rows[i].payload) is Some {
                json_parsed(t.rows[i].payload)->Some_0
            } else {
                JsonView::Null
            };
            let merged = merged_json(held, payload);
            let card = ModelView { payload: json_text(merged), ..t.rows[i] };
            let (u, r) = upserted(t, space_id, issue_id, iteration_id, kind, key, payload, now);
            if json_equal(merged, held) {
                u == t && r == InboxUpsertView::Unchanged(t.rows[i])
            } else {
                &&& u.rows == t.rows.update(i, card)
                &&& u.next_id == t.next_id
                &&& r == InboxUpsertView::Updated(card)
            }
        }),
{
    let cond = pending_card(issue_id, kind, key);
    assert forall|k: int| 0 <= k < i implies !cond(#[trigger] t.rows[k]) by {
        assert(!waits(t.rows[k], issue_id, kind, key));
    }
    lemma_first_is(t.rows, cond, i);
}

/// Merging: of two objects the members join, and the new one's win; anything else is
/// replaced.
pub proof fn law_merge(base: JsonView, new: JsonView, key: Seq<char>)
    ensures
        match (base, new) {
            (JsonView::Object(b), JsonView::Object(n)) => match merged_json(base, new) {
                JsonView::Object(m) => (m.contains_key(key) <==> b.contains_key(key)
                    || n.contains_key(key)) && (n.contains_key(key) ==> m[key] == n[key]) && (
                b.contains_key(key) && !n.contains_key(key) ==> m[key] == b[key]),
                _ => false,
            },
            _ => merged_json(base, new) == new,
        },
{
}

/// Handling a card: the card with the id, if it is pending, is answered; every other card
/// stays, and so does a card that was handled before.
pub proof fn law_handle(
    t: TableView<ModelView>,
    id: i32,
    answer: JsonView,
    now: Timestamp,
    k: int,
)
    requires
        table_wf::<loop_inbox_item::Model>(t),
        0 <= k < t.rows.len(),
    ensures
        after_handling(t, id, answer, now).next_id == t.next_id,
        after_handling(t, id, answer, now).rows.len() == t.rows.len(),
        after_handling(t, id, answer, now).rows[k] == (if t.rows[k].id == id && t.rows[k].status
            == InboxStatus::Pending {
            answered(t.rows[k], answer, now)
        } else {
            t.rows[k]
        }),
{
    lemma_lookup::<loop_inbox_item::Model>(t.rows, id);
    if t.rows[k].id == id {
        lemma_lookup_at::<loop_inbox_item::Model>(t.rows, k);
    }
}

/// A sweep answers exactly the cards that it is for.
pub proof fn law_sweep(
    t: TableView<ModelView>,
    cond: spec_fn(ModelView) -> bool,
    answer: JsonView,
    now: Timestamp,
    k: int,
)
    requires
        0 <= k < t.rows.len(),
    ensures
        swept(t, cond, answer, now).next_id == t.next_id,
        swept(t, cond, answer, now).rows.len() == t.rows.len(),
        swept(t, cond, answer, now).rows[k] == (if cond(t.rows[k]) {
            answered(t.rows[k], answer, now)
        } else {
            t.rows[k]
        }),
{
}

/// Which cards the sweeps are for: a task's blockers are pending cards of the issue whose
/// key is one of the prefixes, a colon and the number of the task; a retry's are pending
/// blocked cards of the issue whose key does not start with `oscillation:`; a kind's are
/// pending cards of the issue of that kind; and a card that the breaker filed is pending,
/// of the issue, under `oscillation:` and the number of the task.
pub proof fn law_swept_cards(
    c: ModelView,
    issue_id: i32,
    task_id: i32,
    subjects: Seq<&str>,
    kind: InboxKind,
)
    ensures
        task_blocker(issue_id, task_id, subjects)(c) <==> c.issue_id == issue_id && c.status
            == InboxStatus::Pending && exists|i: int|
            0 <= i < subjects.len() && c.subject_key == colon_key((#[trigger] subjects[i])@, task_id),
        ordinary_block(issue_id)(c) <==> c.issue_id == issue_id && c.kind == InboxKind::Blocked
            && c.status == InboxStatus::Pending && !names_oscillation(c),
        pending_of_kind(issue_id, kind)(c) <==> c.issue_id == issue_id && c.kind == kind
            && c.status == InboxStatus::Pending,
        oscillation_card(issue_id, task_id)(c) <==> c.issue_id == issue_id && c.status
            == InboxStatus::Pending && c.subject_key == colon_key("oscillation"@, task_id),
{
    lemma_key("oscillation"@, task_id);
    reveal_strlit("oscillation:");
    assert("oscillation:"@ =~= seq!['o', 's', 'c', 'i', 'l', 'l', 'a', 't', 'i', 'o', 'n', ':']);
    if task_blocker(issue_id, task_id, subjects)(c) {
        let i = choose|i: int|
            0 <= i < subjects.len() && c.subject_key == key_for((#[trigger] subjects[i])@, task_id);
        lemma_key(subjects[i]@, task_id);
        assert(c.subject_key == colon_key(subjects[i]@, task_id));
    }
    if exists|i: int|
        0 <= i < subjects.len() && c.subject_key == colon_key((#[trigger] subjects[i])@, task_id) {
        let i = choose|i: int|
            0 <= i < subjects.len() && c.subject_key == colon_key(
                (#[trigger] subjects[i])@,
                task_id,
            );
        lemma_key(subjects[i]@, task_id);
        assert(c.subject_key == key_for(subjects[i]@, task_id));
    }
}

/// The current block reason of a task is the text under `failure_sig` in the payload of
/// the latest pending card that blocks it; there is none without such a card, payload or
/// member.
pub proof fn law_blocker_sig(rows: Seq<ModelView>, issue_id: i32, task_id: i32)
    ensures
        (forall|k: int|
            0 <= k < rows.len() ==> !holds_task(#[trigger] rows[k], issue_id, task_id))
            ==> blocker_sig(rows, issue_id, task_id) is None,
        forall|k: int|
            0 <= k < rows.len() && holds_task(#[trigger] rows[k], issue_id, task_id) && (forall|
                j: int,
            |
                k < j < rows.len() ==> !holds_task(#[trigger] rows[j], issue_id, task_id))
                ==> blocker_sig(rows, issue_id, task_id) == (match json_parsed(rows[k].payload) {
                Some(JsonView::Object(m)) => if m.contains_key("failure_sig"@) {
                    match m["failure_sig"@] {
                        JsonView::Str(s) => Some(s),
                        _ => None,
                    }
                } else {
                    None
                },
                _ => None,
            }),
{
    lemma_last_blocker(rows, issue_id, task_id);
    if let Some(c) = last_match(rows, blocks_task(issue_id, task_id)) {
        let n = choose|n: int|
            0 <= n < rows.len() && #[trigger] rows[n] == c && holds_task(
                rows[n],
                issue_id,
                task_id,
            ) && forall|j: int|
                n < j < rows.len() ==> !holds_task(#[trigger] rows[j], issue_id, task_id);
        assert forall|k: int|
            0 <= k < rows.len() && holds_task(#[trigger] rows[k], issue_id, task_id) && (forall|
                j: int,
            |
                k < j < rows.len() ==> !holds_task(
                    #[trigger] rows[j],
                    issue_id,
                    task_id,
                )) implies k == n by {
        }
    }
}

// ---------------------------------------------------------------------------
// Subjects
// ---------------------------------------------------------------------------

/// A key splits at its first colon, and only where a number follows: before it stands the
/// prefix, behind it the number.
pub proof fn law_subject_parts(key: Seq<char>, i: int)
    requires
        0 <= i < key.len(),
        key[i] == ':',
        forall|j: int| 0 <= j < i ==> #[trigger] key[j] != ':',
    ensures
        subject_parts(key) == (match i32_value(key.subrange(i + 1, key.len() as int)) {
            Some(id) => Some((key.subrange(0, i), id)),
            None => None,
        }),
{
    lemma_first_is(key, is_colon(), i);
    assert(key.skip(i + 1) =~= key.subrange(i + 1, key.len() as int));
    assert(key.take(i) =~= key.subrange(0, i));
}

/// A key without a colon does not split.
pub proof fn law_no_subject(key: Seq<char>)
    requires
        forall|j: int| 0 <= j < key.len() ==> #[trigger] key[j] != ':',
    ensures
        subject_parts(key) is None,
{
    lemma_first_match(key, is_colon());
}

/// What each prefix means. Under the four task prefixes the artifact is the one that the
/// payload names as `task_artifact_id`, or else as `node_artifact_id`, where that is an
/// integer, and otherwise the number itself. Under the design and result prefixes the
/// number is an issue. Under the iteration prefixes it is the card's iteration, or else
/// the number; under `question` only the card's iteration. Everything else has none.
pub proof fn law_classify(
    prefix: Seq<char>,
    number: i32,
    key: Seq<char>,
    payload: JsonView,
    iteration_id: Option<i32>,
)
    requires
        subject_parts(key) == Some((prefix, number)),
    ensures
        ({
            let r = classified(key, payload, iteration_id);
            &&& prefix == "no_progress"@ || prefix == "validation_blocked"@ || prefix
                == "infra_failure"@ || prefix == "oscillation"@ ==> r
                == SubjectResolution::Artifact(
                if payload_artifact(payload) is Some {
                    payload_artifact(payload)->Some_0
                } else {
                    number
                },
            )
            &&& prefix == "design"@ || prefix == "design_rejected"@ ==> r
                == SubjectResolution::DesignOf(number)
            &&& prefix == "merge"@ || prefix == "merge_blocked"@ || prefix == "merge_rejected"@
                || prefix == "finalize_dirty"@ || prefix == "unverifiable"@ || prefix
                == "integration_gap"@ ==> r == SubjectResolution::ResultOf(number)
            &&& prefix == "dispatch_failed"@ || prefix == "stalled"@ ==> r
                == SubjectResolution::IterationTarget(
                if iteration_id is Some {
                    iteration_id->Some_0
                } else {
                    number
                },
            )
            &&& prefix == "question"@ ==> r == (if iteration_id is Some {
                SubjectResolution::IterationTarget(iteration_id->Some_0)
            } else {
                SubjectResolution::NoArtifact
            })
            &&& prefix != "no_progress"@ && prefix != "validation_blocked"@ && prefix
                != "infra_failure"@ && prefix != "oscillation"@ && prefix != "design"@ && prefix
                != "design_rejected"@ && prefix != "merge"@ && prefix != "merge_blocked"@ && prefix
                != "merge_rejected"@ && prefix != "finalize_dirty"@ && prefix != "unverifiable"@
                && prefix != "integration_gap"@ && prefix != "dispatch_failed"@ && prefix
                != "stalled"@ && prefix != "question"@ ==> r == SubjectResolution::NoArtifact
        }),
{
    reveal_strlit("no_progress");
    reveal_strlit("validation_blocked");
    reveal_strlit("infra_failure");
    reveal_strlit("oscillation");
    reveal_strlit("design");
    reveal_strlit("design_rejected");
    reveal_strlit("merge");
    reveal_strlit("merge_blocked");
    reveal_strlit("merge_rejected");
    reveal_strlit("finalize_dirty");
    reveal_strlit("unverifiable");
    reveal_strlit("integration_gap");
    reveal_strlit("dispatch_failed");
    reveal_strlit("stalled");
    reveal_strlit("question");
    // The families tell themselves apart by their first letters and lengths.
    if prefix.len() > 2 {
        let (a, b, c) = (prefix[0], prefix[1], prefix[2]);
        assert(prefix == "infra_failure"@ ==> c == 'f');
        assert(prefix == "integration_gap"@ ==> c == 't');
        assert(prefix == "design"@ || prefix == "design_rejected"@ ==> a == 'd' && b == 'e');
        assert(prefix == "dispatch_failed"@ ==> a == 'd' && b == 'i');
        assert(prefix == "stalled"@ ==> a == 's');
        assert(prefix == "question"@ ==> a == 'q');
    }
}

/// The artifact that a payload names: under `task_artifact_id`, and only without such a
/// member under `node_artifact_id`; an integer that fits into 64 bits, cut to 32.
pub proof fn law_payload_artifact(m: Map<Seq<char>, JsonView>, other: JsonView)
    ensures
        !(other is Object) ==> payload_artifact(other) is None,
        ({
            let named = if m.contains_key("task_artifact_id"@) {
                Some(m["task_artifact_id"@])
            } else if m.contains_key("node_artifact_id"@) {
                Some(m["node_artifact_id"@])
            } else {
                None
            };
            payload_artifact(JsonView::Object(m)) == (match named {
                Some(JsonView::Int(n)) => if i64::MIN <= n <= i64::MAX {
                    Some((n as i64) as i32)
                } else {
                    None
                },
                _ => None,
            })
        }),
{
}

/// Where a resolution leads: to the artifact itself; to the latest design or result of
/// the issue that is neither superseded nor cancelled; to the target of the iteration.
pub proof fn law_resolve(
    r: SubjectResolution,
    artifacts: Seq<loop_artifact::ModelView>,
    iterations: Seq<loop_iteration::ModelView>,
)
    requires
        ids_ascend::<loop_iteration::Model>(iterations),
    ensures
        match r {
            SubjectResolution::Artifact(id) => resolved(r, artifacts, iterations) == Some(id),
            SubjectResolution::DesignOf(id) => resolved(r, artifacts, iterations) == live_artifact(
                artifacts,
                id,
                ArtifactKind::Design,
            ),
            SubjectResolution::ResultOf(id) => resolved(r, artifacts, iterations) == live_artifact(
                artifacts,
                id,
                ArtifactKind::Result,
            ),
            SubjectResolution::IterationTarget(id) => {
                &&& forall|k: int|
                    0 <= k < iterations.len() && (#[trigger] iterations[k]).id == id ==> resolved(
                        r,
                        artifacts,
                        iterations,
                    ) == iterations[k].target_artifact_id
                &&& (forall|k: int|
                    0 <= k < iterations.len() ==> (#[trigger] iterations[k]).id != id) ==> resolved(
                    r,
                    artifacts,
                    iterations,
                ) is None
            },
            SubjectResolution::NoArtifact => resolved(r, artifacts, iterations) is None,
        },
{
    if let SubjectResolution::IterationTarget(id) = r {
        lemma_lookup::<loop_iteration::Model>(iterations, id);
        assert forall|k: int|
            0 <= k < iterations.len() && (#[trigger] iterations[k]).id == id implies position::<
            loop_iteration::Model,
        >(iterations, id) == Some(k) by {
            lemma_lookup_at::<loop_iteration::Model>(iterations, k);
        }
    }
}

/// The live artifact of an issue and a kind is one of them that is neither superseded nor
/// cancelled, and none of those comes later; there is none only where there is none.
pub proof fn law_live_artifact(
    rows: Seq<loop_artifact::ModelView>,
    issue_id: i32,
    kind: ArtifactKind,
)
    ensures
        match live_artifact(rows, issue_id, kind) {
            Some(id) => exists|k: int|
                0 <= k < rows.len() && (#[trigger] rows[k]).id == id && rows[k].issue_id == issue_id
                    && rows[k].kind == kind && rows[k].status != ArtifactStatus::Superseded
                    && rows[k].status != ArtifactStatus::Cancelled && forall|j: int|
                    k < j < rows.len() ==> !((#[trigger] rows[j]).issue_id == issue_id
                        && rows[j].kind == kind && rows[j].status != ArtifactStatus::Superseded
                        && rows[j].status != ArtifactStatus::Cancelled),
            None => forall|j: int|
                0 <= j < rows.len() ==> !((#[trigger] rows[j]).issue_id == issue_id && rows[j].kind
                    == kind && rows[j].status != ArtifactStatus::Superseded && rows[j].status
                    != ArtifactStatus::Cancelled),
        },
    decreases rows.len(),
{
    reveal(Seq::filter);
    let cond = live_of(issue_id, kind);
    if rows.len() > 0 {
        let front = rows.drop_last();
        let n = rows.len() - 1;
        law_live_artifact(front, issue_id, kind);
        if cond(rows[n]) {
            assert(rows.filter(cond).last() == rows[n]);
            assert(rows[n].id == live_artifact(rows, issue_id, kind)->Some_0);
        } else {
            match live_artifact(front, issue_id, kind) {
                Some(id) => {
                    let k = choose|k: int|
                        0 <= k < front.len() && (#[trigger] front[k]).id == id && front[k].issue_id
                            == issue_id && front[k].kind == kind && front[k].status
                            != ArtifactStatus::Superseded && front[k].status
                            != ArtifactStatus::Cancelled && forall|j: int|
                            k < j < front.len() ==> !((#[trigger] front[j]).issue_id == issue_id
                                && front[j].kind == kind && front[j].status
                                != ArtifactStatus::Superseded && front[j].status
                                != ArtifactStatus::Cancelled);
                    assert(rows[k] == front[k]);
                    assert forall|j: int| k < j < rows.len() implies !((
                    #[trigger] rows[j]).issue_id == issue_id && rows[j].kind == kind
                        && rows[j].status != ArtifactStatus::Superseded && rows[j].status
                        != ArtifactStatus::Cancelled) by {
                        if j < n {
                            assert(front[j] == rows[j]);
                        }
                    }
                },
                None => {
                    assert forall|j: int| 0 <= j < rows.len() implies !((
                    #[trigger] rows[j]).issue_id == issue_id && rows[j].kind == kind
                        && rows[j].status != ArtifactStatus::Superseded && rows[j].status
                        != ArtifactStatus::Cancelled) by {
                        if j < n {
                            assert(front[j] == rows[j]);
                        }
                    }
                },
            }
        }
    }
}

// ---------------------------------------------------------------------------
// Listing
// ---------------------------------------------------------------------------

/// Which cards are listed: those of the space and, where a status is asked for, with it.
pub proof fn law_listed_cards(c: ModelView, space_id: i32, status: Option<InboxStatus>)
    ensures
        in_listing(space_id, status)(c) <==> c.space_id == space_id && (match status {
            Some(s) => c.status == s,
            None => true,
        }),
{
}

/// How a card is listed: its own columns, with the payload read (null where it is no
/// JSON); the number of its issue, where that is of the space, and zero otherwise; the
/// artifact that its key, payload and iteration lead to; and that artifact's title.
pub proof fn law_listed_columns(
    issues: Seq<loop_issue::ModelView>,
    artifacts: Seq<loop_artifact::ModelView>,
    iterations: Seq<loop_iteration::ModelView>,
    space_id: i32,
    c: ModelView,
)
    requires
        ids_ascend::<loop_issue::Model>(issues),
        ids_ascend::<loop_artifact::Model>(artifacts),
    ensures
        ({
            let r = listing_of(issues, artifacts, iterations, space_id)(c);
            let payload = if json_parsed(c.payload) is Some {
                json_parsed(c.payload)->Some_0
            } else {
                JsonView::Null
            };
            let subject = resolved(
                classified(c.subject_key, payload, c.iteration_id),
                artifacts,
                iterations,
            );
            &&& r.id == c.id
            &&& r.issue_id == c.issue_id
            &&& r.iteration_id == c.iteration_id
            &&& r.kind == c.kind
            &&& r.subject_key == c.subject_key
            &&& r.payload == payload
            &&& r.status == c.status
            &&& r.created_at == c.created_at
            &&& r.subject_artifact_id == subject
            &&& forall|i: int|
                0 <= i < issues.len() && (#[trigger] issues[i]).id == c.issue_id ==> r.issue_seq == (
                if issues[i].space_id == space_id {
                    issues[i].seq_no
                } else {
                    0
                })
            &&& (forall|i: int| 0 <= i < issues.len() ==> (#[trigger] issues[i]).id != c.issue_id)
                ==> r.issue_seq == 0
            &&& forall|k: int|
                0 <= k < artifacts.len() && subject == Some((#[trigger] artifacts[k]).id)
                    ==> r.subject_title == Some(artifacts[k].title)
            &&& (subject is None || forall|k: int|
                0 <= k < artifacts.len() ==> (#[trigger] artifacts[k]).id != subject->Some_0)
                ==> r.subject_title is None
        }),
{
    lemma_lookup::<loop_issue::Model>(issues, c.issue_id);
    assert forall|i: int|
        0 <= i < issues.len() && (#[trigger] issues[i]).id == c.issue_id implies position::<
        loop_issue::Model,
    >(issues, c.issue_id) == Some(i) by {
        lemma_lookup_at::<loop_issue::Model>(issues, i);
    }
    if let Some(id) = subject_of(c, artifacts, iterations) {
        lemma_lookup::<loop_artifact::Model>(artifacts, id);
        assert forall|k: int|
            0 <= k < artifacts.len() && (#[trigger] artifacts[k]).id == id implies position::<
            loop_artifact::Model,
        >(artifacts, id) == Some(k) by {
            lemma_lookup_at::<loop_artifact::Model>(artifacts, k);
        }
    }
}

} // verus!
