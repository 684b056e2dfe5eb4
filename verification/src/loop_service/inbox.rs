//! The inbox: cards that ask a person for something, at most one pending per
//! issue, kind and subject, with the attention rollups over them.

use crate::clock::Timestamp;
use crate::entities::loop_inbox_item::{self, InboxKind, InboxStatus, ModelView};
use crate::error::{DbError, DbErrorView};
use crate::json::{
    as_str, clone_json, exact_within, get_member, json_equal, json_parsed, json_text, json_to_text,
    json_view, member, merged_json, parse_json, read_stored, same_json, shallow_merge, stored_json,
    string_of, JsonView,
};
use crate::loop_service::inbox_laws::{lemma_upsert_again_unchanged, lemma_upsert_files};
use crate::models::LoopSpaceAttention;
use crate::table::{
    any_match, count_where, first_match, last_match, lemma_count_bound, lemma_count_step,
    lemma_first_is, lemma_first_match, lemma_row_count, lookup, position, table_wf, update_where,
    with_row, with_rows, Table, TableView,
};
use crate::text::{has_prefix, int_digits, int_text, opt_text, same_text, starts_with};
use serde_json::Value;
use std::collections::HashMap;
use vstd::prelude::*;
use vstd::std_specs::hash::*;

verus! {

broadcast use {vstd::std_specs::hash::group_hash_axioms, vstd::string::group_string_axioms};

// ---------------------------------------------------------------------------
// Attention
// ---------------------------------------------------------------------------

/// Whether a pending inbox card demands a human before the issue can proceed
/// (`Blocking`) or is merely informational (`Notice`).
#[derive(Clone, Copy, PartialEq, Eq, Debug, Structural)]
pub enum AttentionClass {
    Blocking,
    Notice,
}

/// The class of each kind: only a failed reflection is a notice.
pub open spec fn class_of(kind: InboxKind) -> AttentionClass {
    if kind == InboxKind::ReflectionFailed {
        AttentionClass::Notice
    } else {
        AttentionClass::Blocking
    }
}

/// Classify an inbox kind for the attention rollup. Exhaustive over the kinds, so
/// a new kind must be classified here. A question is blocking: it needs an answer
/// before the issue can advance.
pub fn attention_class(kind: InboxKind) -> (r: AttentionClass)
    ensures
        r == class_of(kind),
{
    match kind {
        InboxKind::Approval
        | InboxKind::Blocked
        | InboxKind::BudgetExhausted
        | InboxKind::Question => AttentionClass::Blocking,
        InboxKind::ReflectionFailed => AttentionClass::Notice,
    }
}

pub open spec fn is_blocking() -> spec_fn(InboxKind) -> bool {
    |k: InboxKind| class_of(k) == AttentionClass::Blocking
}

pub open spec fn is_notice() -> spec_fn(InboxKind) -> bool {
    |k: InboxKind| class_of(k) == AttentionClass::Notice
}

/// How many of the kinds are blocking, and how many are notices.
pub open spec fn tally_of(kinds: Seq<InboxKind>) -> (int, int) {
    (count_where(kinds, is_blocking()) as int, count_where(kinds, is_notice()) as int)
}

/// Fold pending-card kinds into `(blocking, notice)` counts.
pub fn tally(kinds: &Vec<InboxKind>) -> (r: (i64, i64))
    requires
        kinds@.len() <= i64::MAX,
    ensures
        (r.0 as int, r.1 as int) == tally_of(kinds@),
{
    let mut blocking: i64 = 0;
    let mut notice: i64 = 0;
    let mut i: usize = 0;
    proof {
        reveal(Seq::filter);
    }
    while i < kinds.len()
        invariant
            i <= kinds@.len() <= i64::MAX,
            blocking == count_where(kinds@.take(i as int), is_blocking()),
            notice == count_where(kinds@.take(i as int), is_notice()),
        decreases kinds@.len() - i,
    {
        proof {
            lemma_count_step(kinds@, is_blocking(), i as int);
            lemma_count_step(kinds@, is_notice(), i as int);
            lemma_count_bound(kinds@.take(i as int), is_blocking());
            lemma_count_bound(kinds@.take(i as int), is_notice());
        }
        match attention_class(kinds[i]) {
            AttentionClass::Blocking => blocking = blocking + 1,
            AttentionClass::Notice => notice = notice + 1,
        }
        i = i + 1;
    }
    assert(kinds@.take(i as int) =~= kinds@);
    (blocking, notice)
}

pub open spec fn pending_in_space(space_id: i32) -> spec_fn(ModelView) -> bool {
    |c: ModelView| c.space_id == space_id && c.status == InboxStatus::Pending
}

pub open spec fn pending_of_issue(issue_id: i32) -> spec_fn(ModelView) -> bool {
    |c: ModelView| c.issue_id == issue_id && c.status == InboxStatus::Pending
}

/// The kinds of the cards that meet `cond`, in order.
pub open spec fn kinds_where(rows: Seq<ModelView>, cond: spec_fn(ModelView) -> bool) -> Seq<
    InboxKind,
> {
    rows.filter(cond).map_values(|c: ModelView| c.kind)
}

proof fn lemma_kinds_step(rows: Seq<ModelView>, cond: spec_fn(ModelView) -> bool, i: int)
    requires
        0 <= i < rows.len(),
    ensures
        kinds_where(rows.take(i + 1), cond) == (if cond(rows[i]) {
            kinds_where(rows.take(i), cond).push(rows[i].kind)
        } else {
            kinds_where(rows.take(i), cond)
        }),
        kinds_where(rows.take(i), cond).len() <= i,
{
    lemma_count_step(rows, cond, i);
    lemma_count_bound(rows.take(i), cond);
    assert(rows.take(i).filter(cond).push(rows[i]).map_values(|c: ModelView| c.kind) =~= rows.take(
        i,
    ).filter(cond).map_values(|c: ModelView| c.kind).push(rows[i].kind));
}

/// `(blocking, notice)` pending-inbox counts for one space.
pub fn aggregate_for_space(inbox: &Table<loop_inbox_item::Model>, space_id: i32) -> (r: (i64, i64))
    requires
        inbox.wf(),
    ensures
        (r.0 as int, r.1 as int) == tally_of(kinds_where(inbox@.rows, pending_in_space(space_id))),
{
    let ghost rows = inbox@.rows;
    let mut kinds: Vec<InboxKind> = Vec::new();
    let mut i: usize = 0;
    proof {
        reveal(Seq::filter);
        lemma_row_count::<loop_inbox_item::Model>(rows);
        assert(kinds@ =~= kinds_where(rows.take(0), pending_in_space(space_id)));
    }
    while i < inbox.rows.len()
        invariant
            i <= inbox.rows@.len(),
            rows == inbox@.rows,
            rows.len() <= 0x1_0000_0000,
            kinds@ == kinds_where(rows.take(i as int), pending_in_space(space_id)),
            kinds@.len() <= i,
        decreases inbox.rows@.len() - i,
    {
        proof {
            lemma_kinds_step(rows, pending_in_space(space_id), i as int);
            assert(rows[i as int] == inbox.rows@[i as int]@);
        }
        if inbox.rows[i].space_id == space_id && inbox.rows[i].status == InboxStatus::Pending {
            kinds.push(inbox.rows[i].kind);
        }
        i = i + 1;
    }
    assert(rows.take(i as int) =~= rows);
    tally(&kinds)
}

/// `(blocking, notice)` pending-inbox counts per issue. Issues without pending
/// cards are absent from the map (the caller takes them as zero).
pub fn aggregate_for_issues(inbox: &Table<loop_inbox_item::Model>, issue_ids: &Vec<i32>) -> (r:
    HashMap<i32, (i64, i64)>)
    requires
        inbox.wf(),
    ensures
        forall|id: i32| #[trigger]
            r@.contains_key(id) <==> issue_ids@.contains(id) && any_match(
                inbox@.rows,
                pending_of_issue(id),
            ),
        forall|id: i32| #[trigger]
            r@.contains_key(id) ==> (r@[id].0 as int, r@[id].1 as int) == tally_of(
                kinds_where(inbox@.rows, pending_of_issue(id)),
            ),
{
    let ghost rows = inbox@.rows;
    let mut map: HashMap<i32, (i64, i64)> = HashMap::new();
    let mut k: usize = 0;
    while k < issue_ids.len()
        invariant
            k <= issue_ids@.len(),
            inbox.wf(),
            rows == inbox@.rows,
            forall|id: i32| #[trigger]
                map@.contains_key(id) <==> issue_ids@.take(k as int).contains(id) && any_match(
                    rows,
                    pending_of_issue(id),
                ),
            forall|id: i32| #[trigger]
                map@.contains_key(id) ==> (map@[id].0 as int, map@[id].1 as int) == tally_of(
                    kinds_where(rows, pending_of_issue(id)),
                ),
        decreases issue_ids@.len() - k,
    {
        let issue_id: i32 = issue_ids[k];
        let kinds = pending_kinds_of_issue(inbox, issue_id);
        proof {
            lemma_kinds_nonempty(rows, pending_of_issue(issue_id));
            lemma_row_count::<loop_inbox_item::Model>(rows);
            lemma_count_bound(rows, pending_of_issue(issue_id));
            let more = issue_ids@.take(k + 1);
            assert forall|id: i32| more.contains(id) <==> issue_ids@.take(k as int).contains(id)
                || id == issue_id by {
                assert(more =~= issue_ids@.take(k as int).push(issue_id));
                if issue_ids@.take(k as int).contains(id) {
                    let j = issue_ids@.take(k as int).index_of(id);
                    assert(more[j] == id);
                }
                assert(more[k as int] == issue_id);
            }
        }
        if kinds.len() > 0 {
            let counts = tally(&kinds);
            map.insert(issue_id, counts);
        }
        k = k + 1;
    }
    assert(issue_ids@.take(k as int) =~= issue_ids@);
    map
}

proof fn lemma_kinds_nonempty(rows: Seq<ModelView>, cond: spec_fn(ModelView) -> bool)
    ensures
        kinds_where(rows, cond).len() > 0 <==> any_match(rows, cond),
    decreases rows.len(),
{
    reveal(Seq::filter);
    if rows.len() > 0 {
        lemma_kinds_nonempty(rows.drop_last(), cond);
        if any_match(rows.drop_last(), cond) {
            let i = choose|i: int|
                0 <= i < rows.drop_last().len() && cond(#[trigger] rows.drop_last()[i]);
            assert(cond(rows[i]));
        }
        if any_match(rows, cond) && !cond(rows.last()) {
            let i = choose|i: int| 0 <= i < rows.len() && cond(#[trigger] rows[i]);
            assert(cond(rows.drop_last()[i]));
        }
    }
}

fn pending_kinds_of_issue(inbox: &Table<loop_inbox_item::Model>, issue_id: i32) -> (r: Vec<
    InboxKind,
>)
    ensures
        r@ == kinds_where(inbox@.rows, pending_of_issue(issue_id)),
{
    let ghost rows = inbox@.rows;
    let mut kinds: Vec<InboxKind> = Vec::new();
    let mut i: usize = 0;
    proof {
        reveal(Seq::filter);
        assert(kinds@ =~= kinds_where(rows.take(0), pending_of_issue(issue_id)));
    }
    while i < inbox.rows.len()
        invariant
            i <= inbox.rows@.len(),
            rows == inbox@.rows,
            kinds@ == kinds_where(rows.take(i as int), pending_of_issue(issue_id)),
        decreases inbox.rows@.len() - i,
    {
        proof {
            lemma_kinds_step(rows, pending_of_issue(issue_id), i as int);
            assert(rows[i as int] == inbox.rows@[i as int]@);
        }
        if inbox.rows[i].issue_id == issue_id && inbox.rows[i].status == InboxStatus::Pending {
            kinds.push(inbox.rows[i].kind);
        }
        i = i + 1;
    }
    assert(rows.take(i as int) =~= rows);
    kinds
}

/// The numbers are strictly ascending.
pub open spec fn ascending(s: Seq<i32>) -> bool {
    forall|i: int, j: int| 0 <= i < j < s.len() ==> #[trigger] s[i] < #[trigger] s[j]
}

/// Adds a number to an ascending list, unless it is there.
fn insert_ascending(ids: &mut Vec<i32>, id: i32)
    requires
        ascending(old(ids)@),
    ensures
        ascending(final(ids)@),
        forall|x: i32| #[trigger] final(ids)@.contains(x) <==> old(ids)@.contains(x) || x == id,
{
    let mut p: usize = 0;
    while p < ids.len() && ids[p] < id
        invariant
            p <= ids@.len(),
            forall|j: int| 0 <= j < p ==> #[trigger] ids@[j] < id,
        decreases ids@.len() - p,
    {
        p = p + 1;
    }
    if p < ids.len() && ids[p] == id {
        assert(ids@.contains(id));
        return ;
    }
    let ghost before = ids@;
    ids.insert(p, id);
    proof {
        let after = ids@;
        assert(after[p as int] == id);
        assert forall|x: i32| #[trigger] after.contains(x) <==> before.contains(x) || x == id by {
            if before.contains(x) {
                let j = before.index_of(x);
                assert(after[if j < p { j } else { j + 1 }] == x);
            }
            if after.contains(x) {
                let j = after.index_of(x);
                if j < p {
                    assert(before[j] == x);
                } else if j > p {
                    assert(before[j - 1] == x);
                }
            }
        }
    }
}

/// The spaces with pending cards, ascending.
fn pending_spaces(inbox: &Table<loop_inbox_item::Model>) -> (r: Vec<i32>)
    ensures
        ascending(r@),
        forall|s: i32| #[trigger]
            r@.contains(s) <==> any_match(inbox@.rows, pending_in_space(s)),
{
    let ghost rows = inbox@.rows;
    let mut ids: Vec<i32> = Vec::new();
    let mut i: usize = 0;
    while i < inbox.rows.len()
        invariant
            i <= inbox.rows@.len(),
            rows == inbox@.rows,
            ascending(ids@),
            forall|s: i32| #[trigger]
                ids@.contains(s) <==> exists|j: int|
                    0 <= j < i && pending_in_space(s)(#[trigger] rows[j]),
        decreases inbox.rows@.len() - i,
    {
        let ghost before = ids@;
        assert(rows[i as int] == inbox.rows@[i as int]@);
        if inbox.rows[i].status == InboxStatus::Pending {
            insert_ascending(&mut ids, inbox.rows[i].space_id);
        }
        proof {
            assert forall|s: i32| #[trigger] ids@.contains(s) <==> exists|j: int|
                0 <= j < i + 1 && pending_in_space(s)(#[trigger] rows[j]) by {
                if before.contains(s) {
                    let j = choose|j: int| 0 <= j < i && pending_in_space(s)(#[trigger] rows[j]);
                    assert(0 <= j < i + 1 && pending_in_space(s)(rows[j]));
                }
                if pending_in_space(s)(rows[i as int]) {
                    assert(0 <= i as int && i < i + 1 && pending_in_space(s)(rows[i as int]));
                }
            }
        }
        i = i + 1;
    }
    ids
}

/// Per-space attention across all spaces: the spaces with pending cards, ascending
/// by id, each with its counts.
pub fn aggregate_all(inbox: &Table<loop_inbox_item::Model>) -> (r: Vec<LoopSpaceAttention>)
    requires
        inbox.wf(),
    ensures
        forall|i: int, j: int| 0 <= i < j < r@.len() ==> r@[i].space_id < r@[j].space_id,
        forall|s: i32|
            any_match(inbox@.rows, #[trigger] pending_in_space(s)) <==> exists|i: int|
                0 <= i < r@.len() && (#[trigger] r@[i]).space_id == s,
        forall|i: int|
            0 <= i < r@.len() ==> ((#[trigger] r@[i]).blocking as int, r@[i].notice as int)
                == tally_of(kinds_where(inbox@.rows, pending_in_space(r@[i].space_id))),
{
    let spaces = pending_spaces(inbox);
    let mut out: Vec<LoopSpaceAttention> = Vec::new();
    let mut i: usize = 0;
    while i < spaces.len()
        invariant
            i <= spaces@.len(),
            inbox.wf(),
            ascending(spaces@),
            out@.len() == i,
            forall|j: int| 0 <= j < i ==> (#[trigger] out@[j]).space_id == spaces@[j],
            forall|j: int|
                0 <= j < i ==> ((#[trigger] out@[j]).blocking as int, out@[j].notice as int)
                    == tally_of(kinds_where(inbox@.rows, pending_in_space(out@[j].space_id))),
        decreases spaces@.len() - i,
    {
        let space_id: i32 = spaces[i];
        let (blocking, notice) = aggregate_for_space(inbox, space_id);
        out.push(LoopSpaceAttention { space_id, blocking, notice });
        i = i + 1;
    }
    proof {
        assert forall|s: i32| any_match(inbox@.rows, #[trigger] pending_in_space(s)) <==> exists|
            i: int,
        |
            0 <= i < out@.len() && (#[trigger] out@[i]).space_id == s by {
            if spaces@.contains(s) {
                let j = spaces@.index_of(s);
                assert(out@[j].space_id == s);
            }
            if exists|i: int| 0 <= i < out@.len() && (#[trigger] out@[i]).space_id == s {
                let j = choose|i: int| 0 <= i < out@.len() && (#[trigger] out@[i]).space_id == s;
                assert(spaces@[j] == s);
                assert(spaces@.contains(s));
            }
        }
    }
    out
}

// ---------------------------------------------------------------------------
// Filing and handling cards
// ---------------------------------------------------------------------------

/// Outcome of [`upsert_inbox`]. Lets callers announce only a real change
/// (`Created` or `Updated`) and stay silent on a no-op recurrence (`Unchanged`).
/// The resulting row is carried in every variant.
#[derive(Debug)]
pub enum InboxUpsert {
    Created(loop_inbox_item::Model),
    Updated(loop_inbox_item::Model),
    Unchanged(loop_inbox_item::Model),
}

/// What an [`InboxUpsert`] holds.
pub enum InboxUpsertView {
    Created(ModelView),
    Updated(ModelView),
    Unchanged(ModelView),
}

impl View for InboxUpsert {
    type V = InboxUpsertView;

    open spec fn view(&self) -> InboxUpsertView {
        match *self {
            InboxUpsert::Created(m) => InboxUpsertView::Created(m@),
            InboxUpsert::Updated(m) => InboxUpsertView::Updated(m@),
            InboxUpsert::Unchanged(m) => InboxUpsertView::Unchanged(m@),
        }
    }
}

impl InboxUpsert {
    /// The row that an outcome carries.
    pub open spec fn row(&self) -> loop_inbox_item::Model {
        match *self {
            InboxUpsert::Created(m) => m,
            InboxUpsert::Updated(m) => m,
            InboxUpsert::Unchanged(m) => m,
        }
    }

    /// The resulting row, whether or not it changed.
    pub fn into_model(self) -> (r: loop_inbox_item::Model)
        ensures
            r == self.row(),
    {
        match self {
            InboxUpsert::Created(m) | InboxUpsert::Updated(m) | InboxUpsert::Unchanged(m) => m,
        }
    }

    /// Borrow the resulting row.
    pub fn model(&self) -> (r: &loop_inbox_item::Model)
        ensures
            *r == self.row(),
    {
        match self {
            InboxUpsert::Created(m) | InboxUpsert::Updated(m) | InboxUpsert::Unchanged(m) => m,
        }
    }

    /// True when a card was created or its payload changed, that is, when the
    /// caller should announce a change. `Unchanged` returns false.
    pub fn changed(&self) -> (r: bool)
        ensures
            r == !(self is Unchanged),
    {
        matches!(self, InboxUpsert::Created(_) | InboxUpsert::Updated(_))
    }
}

/// The card is pending, with the given issue, kind and subject key.
pub open spec fn pending_card(issue_id: i32, kind: InboxKind, subject_key: Seq<char>) -> spec_fn(
    ModelView,
) -> bool {
    |c: ModelView|
        c.issue_id == issue_id && c.kind == kind && c.subject_key == subject_key && c.status
            == InboxStatus::Pending
}

/// A card can be filed: one is pending already, or there is an id for it.
pub open spec fn card_room(
    t: TableView<ModelView>,
    issue_id: i32,
    kind: InboxKind,
    subject_key: Seq<char>,
) -> bool {
    any_match(t.rows, pending_card(issue_id, kind, subject_key)) || t.next_id < i32::MAX
}

/// A freshly filed card.
pub open spec fn new_card(
    id: i32,
    space_id: i32,
    issue_id: i32,
    iteration_id: Option<i32>,
    kind: InboxKind,
    subject_key: Seq<char>,
    payload: JsonView,
    now: Timestamp,
) -> ModelView {
    ModelView {
        id,
        space_id,
        issue_id,
        iteration_id,
        kind,
        subject_key,
        payload: json_text(payload),
        status: InboxStatus::Pending,
        resolution: None,
        created_at: now,
        handled_at: None,
    }
}

/// The card table and the outcome after filing a card: a first occurrence is
/// appended; a recurrence is merged into the pending card with the same issue, kind
/// and subject key, which is left alone when the merge changes nothing.
pub open spec fn upserted(
    t: TableView<ModelView>,
    space_id: i32,
    issue_id: i32,
    iteration_id: Option<i32>,
    kind: InboxKind,
    subject_key: Seq<char>,
    payload: JsonView,
    now: Timestamp,
) -> (TableView<ModelView>, InboxUpsertView) {
    match first_match(t.rows, pending_card(issue_id, kind, subject_key)) {
        Some(i) => {
            let existing = stored_json(t.rows[i].payload);
            let merged = merged_json(existing, payload);
            if json_equal(merged, existing) {
                (t, InboxUpsertView::Unchanged(t.rows[i]))
            } else {
                let card = ModelView { payload: json_text(merged), ..t.rows[i] };
                (with_rows(t, t.rows.update(i, card)), InboxUpsertView::Updated(card))
            }
        },
        None => {
            let card = new_card(
                t.next_id,
                space_id,
                issue_id,
                iteration_id,
                kind,
                subject_key,
                payload,
                now,
            );
            (with_row(t, card), InboxUpsertView::Created(card))
        },
    }
}

/// The payload that a card has after it was filed: on recurrence the merge.
pub open spec fn kept_payload(
    t: TableView<ModelView>,
    issue_id: i32,
    kind: InboxKind,
    subject_key: Seq<char>,
    payload: JsonView,
) -> JsonView {
    match first_match(t.rows, pending_card(issue_id, kind, subject_key)) {
        Some(i) => merged_json(stored_json(t.rows[i].payload), payload),
        None => payload,
    }
}

/// The place of the pending card with the given issue, kind and subject key.
pub(crate) fn find_pending_card(
    inbox: &Table<loop_inbox_item::Model>,
    issue_id: i32,
    kind: InboxKind,
    subject_key: &str,
) -> (r: Option<usize>)
    ensures
        match r {
            Some(i) => first_match(inbox@.rows, pending_card(issue_id, kind, subject_key@)) == Some(
                i as int,
            ) && i < inbox.rows@.len() && pending_card(issue_id, kind, subject_key@)(
                inbox@.rows[i as int],
            ),
            None => first_match(inbox@.rows, pending_card(issue_id, kind, subject_key@)) is None,
        },
{
    let ghost rows = inbox@.rows;
    let ghost cond = pending_card(issue_id, kind, subject_key@);
    let mut i: usize = 0;
    while i < inbox.rows.len()
        invariant
            i <= inbox.rows@.len(),
            rows == inbox@.rows,
            cond == pending_card(issue_id, kind, subject_key@),
            forall|j: int| 0 <= j < i ==> !cond(#[trigger] rows[j]),
        decreases inbox.rows@.len() - i,
    {
        assert(rows[i as int] == inbox.rows@[i as int]@);
        let c = &inbox.rows[i];
        if c.issue_id == issue_id && c.kind == kind && same_text(c.subject_key.as_str(), subject_key)
            && c.status == InboxStatus::Pending {
            proof {
                lemma_first_is(rows, cond, i as int);
            }
            return Some(i);
        }
        i = i + 1;
    }
    proof {
        lemma_first_match(rows, cond);
    }
    None
}

/// The payload of a card after a recurrence: the new one merged over the existing one;
/// none when that leaves the existing one as it is.
pub fn fold_payload(existing: Value, payload: Value) -> (r: Option<Value>)
    ensures
        ({
            let merged = merged_json(json_view(existing), json_view(payload));
            match r {
                Some(v) => json_view(v) == merged && !json_equal(merged, json_view(existing)),
                None => json_equal(merged, json_view(existing)),
            }
        }),
{
    let merged = shallow_merge(clone_json(&existing), payload);
    if same_json(&merged, &existing) {
        None
    } else {
        Some(merged)
    }
}

/// Insert a pending inbox card, or fold a recurrence into the existing pending one
/// with the same `(issue_id, kind, subject_key)`: repeated ticks never stack
/// duplicate cards.
///
/// On recurrence the new payload is merged over the existing one (fields that a
/// thinner payload omits are kept): an equal merge yields `Unchanged`, a differing
/// one is stored and yields `Updated`. A first occurrence yields `Created`. Filing the
/// same payload once more is `Unchanged`, where the stored text reads back.
pub fn upsert_inbox(
    inbox: &mut Table<loop_inbox_item::Model>,
    space_id: i32,
    issue_id: i32,
    iteration_id: Option<i32>,
    kind: InboxKind,
    subject_key: &str,
    payload: Value,
    now: Timestamp,
) -> (r: InboxUpsert)
    requires
        old(inbox).wf(),
        card_room(old(inbox)@, issue_id, kind, subject_key@),
    ensures
        (final(inbox)@, r@) == upserted(
            old(inbox)@,
            space_id,
            issue_id,
            iteration_id,
            kind,
            subject_key@,
            json_view(payload),
            now,
        ),
        final(inbox).wf(),
        exact_within(
            kept_payload(old(inbox)@, issue_id, kind, subject_key@, json_view(payload)),
            127,
        ) ==> {
            &&& !(r is Unchanged) ==> stored_json(r.row().payload@) == kept_payload(
                old(inbox)@,
                issue_id,
                kind,
                subject_key@,
                json_view(payload),
            )
            &&& forall|later: Timestamp| #[trigger]
                upserted(
                    final(inbox)@,
                    space_id,
                    issue_id,
                    iteration_id,
                    kind,
                    subject_key@,
                    json_view(payload),
                    later,
                ) == (final(inbox)@, InboxUpsertView::Unchanged(r.row()@))
        },
{
    let ghost before = inbox@;
    match find_pending_card(inbox, issue_id, kind, subject_key) {
        Some(i) => {
            let existing = read_stored(inbox.rows[i].payload.as_str());
            let merged: Value = match fold_payload(existing, payload) {
                Some(merged) => merged,
                None => {
                    return InboxUpsert::Unchanged(inbox.rows[i].clone());
                },
            };
            inbox.rows[i].payload = json_to_text(&merged);
            let card = inbox.rows[i].clone();
            proof {
                assert(inbox@.rows =~= before.rows.update(i as int, card@));
                assert(table_wf::<loop_inbox_item::Model>(inbox@));
                lemma_filed(
                    before,
                    space_id,
                    issue_id,
                    iteration_id,
                    kind,
                    subject_key@,
                    json_view(payload),
                    now,
                );
            }
            InboxUpsert::Updated(card)
        },
        None => {
            proof {
                lemma_first_match(before.rows, pending_card(issue_id, kind, subject_key@));
            }
            let card = loop_inbox_item::Model {
                id: inbox.next_id,
                space_id,
                issue_id,
                iteration_id,
                kind,
                subject_key: subject_key.to_owned(),
                payload: json_to_text(&payload),
                status: InboxStatus::Pending,
                resolution: None,
                created_at: now,
                handled_at: None,
            };
            let copy = card.clone();
            inbox.insert(card);
            proof {
                lemma_filed(
                    before,
                    space_id,
                    issue_id,
                    iteration_id,
                    kind,
                    subject_key@,
                    json_view(payload),
                    now,
                );
            }
            InboxUpsert::Created(copy)
        },
    }
}

/// Where the payload that was kept reads back, filing it again leaves the card alone.
proof fn lemma_filed(
    t: TableView<ModelView>,
    space_id: i32,
    issue_id: i32,
    iteration_id: Option<i32>,
    kind: InboxKind,
    subject_key: Seq<char>,
    payload: JsonView,
    now: Timestamp,
)
    ensures
        ({
            let kept = kept_payload(t, issue_id, kind, subject_key, payload);
            let (once, r) = upserted(
                t,
                space_id,
                issue_id,
                iteration_id,
                kind,
                subject_key,
                payload,
                now,
            );
            let card = match r {
                InboxUpsertView::Created(c) => c,
                InboxUpsertView::Updated(c) => c,
                InboxUpsertView::Unchanged(c) => c,
            };
            json_parsed(json_text(kept)) == Some(kept) ==> forall|later: Timestamp| #[trigger]
                upserted(
                    once,
                    space_id,
                    issue_id,
                    iteration_id,
                    kind,
                    subject_key,
                    payload,
                    later,
                ) == (once, InboxUpsertView::Unchanged(card))
        }),
{
    let kept = kept_payload(t, issue_id, kind, subject_key, payload);
    let once = upserted(
        t,
        space_id,
        issue_id,
        iteration_id,
        kind,
        subject_key,
        payload,
        now,
    ).0;
    if json_parsed(json_text(kept)) == Some(kept) {
        lemma_upsert_files(
            t,
            space_id,
            issue_id,
            iteration_id,
            kind,
            subject_key,
            payload,
            now,
        );
        assert forall|later: Timestamp| #[trigger]
            upserted(
                once,
                space_id,
                issue_id,
                iteration_id,
                kind,
                subject_key,
                payload,
                later,
            ) == (
                once,
                InboxUpsertView::Unchanged(
                    once.rows[first_match(
                        once.rows,
                        pending_card(issue_id, kind, subject_key),
                    )->Some_0],
                ),
            ) by {
            lemma_upsert_again_unchanged(
                t,
                space_id,
                issue_id,
                iteration_id,
                kind,
                subject_key,
                payload,
                now,
                later,
            );
        }
    }
}

/// A card once it is handled.
pub open spec fn handled(c: ModelView, resolution: Seq<char>, now: Timestamp) -> ModelView {
    ModelView {
        status: InboxStatus::Handled,
        resolution: Some(resolution),
        handled_at: Some(now),
        ..c
    }
}

fn mark_handled(card: &mut loop_inbox_item::Model, resolution: &str, now: Timestamp)
    ensures
        final(card)@ == handled(old(card)@, resolution@, now),
{
    card.status = InboxStatus::Handled;
    card.resolution = Some(resolution.to_owned());
    card.handled_at = Some(now);
}

/// Fetch a single inbox card by id.
pub fn get_inbox(inbox: &Table<loop_inbox_item::Model>, id: i32) -> (r: Option<
    loop_inbox_item::Model,
>)
    ensures
        match r {
            Some(m) => lookup::<loop_inbox_item::Model>(inbox@.rows, id) == Some(m@),
            None => lookup::<loop_inbox_item::Model>(inbox@.rows, id) is None,
        },
{
    match inbox.find(id) {
        Some(i) => Some(inbox.rows[i].clone()),
        None => None,
    }
}

/// The card table after the card with `id` was handled: a pending card becomes
/// handled, anything else is unchanged.
pub open spec fn after_handling(
    t: TableView<ModelView>,
    id: i32,
    resolution: JsonView,
    now: Timestamp,
) -> TableView<ModelView> {
    match position::<loop_inbox_item::Model>(t.rows, id) {
        Some(i) => if t.rows[i].status == InboxStatus::Handled {
            t
        } else {
            with_rows(t, t.rows.update(i, handled(t.rows[i], json_text(resolution), now)))
        },
        None => t,
    }
}

/// Mark a pending card handled. Returns `true` if it took a pending card to
/// handled, `false` if it was handled already, and an error when no card has the
/// id.
pub fn handle_inbox(
    inbox: &mut Table<loop_inbox_item::Model>,
    id: i32,
    resolution: Value,
    now: Timestamp,
) -> (r: Result<bool, DbError>)
    requires
        old(inbox).wf(),
    ensures
        final(inbox).wf(),
        final(inbox)@ == after_handling(old(inbox)@, id, json_view(resolution), now),
        match lookup::<loop_inbox_item::Model>(old(inbox)@.rows, id) {
            Some(c) => r == Ok::<bool, DbError>(c.status == InboxStatus::Pending),
            None => r is Err && r->Err_0@ == DbErrorView::RecordNotFound(
                "loop_inbox_item "@ + int_digits(id as int),
            ),
        },
{
    let ghost before = inbox@;
    match inbox.find(id) {
        Some(i) => {
            if inbox.rows[i].status == InboxStatus::Handled {
                return Ok(false);
            }
            let text = json_to_text(&resolution);
            mark_handled(&mut inbox.rows[i], text.as_str(), now);
            proof {
                let card = handled(before.rows[i as int], text@, now);
                assert(inbox@.rows =~= before.rows.update(i as int, card));
                assert(table_wf::<loop_inbox_item::Model>(inbox@));
            }
            Ok(true)
        },
        None => {
            let mut message = "loop_inbox_item ".to_owned();
            message.append(int_text(id).as_str());
            Err(DbError::RecordNotFound(message))
        },
    }
}

// ---------------------------------------------------------------------------
// Sweeps
// ---------------------------------------------------------------------------

/// The subject key `{prefix}:{id}`.
pub open spec fn key_for(prefix: Seq<char>, id: i32) -> Seq<char> {
    prefix + ":"@ + int_digits(id as int)
}

/// The subject key `{prefix}:{id}`.
pub fn make_key(prefix: &str, id: i32) -> (r: String)
    ensures
        r@ == key_for(prefix@, id),
{
    let mut key = prefix.to_owned();
    key.append(":");
    key.append(int_text(id).as_str());
    key
}

/// Taking a card to handled.
pub open spec fn handling(resolution: JsonView, now: Timestamp) -> spec_fn(ModelView) -> ModelView {
    |c: ModelView| handled(c, json_text(resolution), now)
}

/// The card table after every card that meets `cond` was handled.
pub open spec fn swept(
    t: TableView<ModelView>,
    cond: spec_fn(ModelView) -> bool,
    resolution: JsonView,
    now: Timestamp,
) -> TableView<ModelView> {
    with_rows(t, update_where(t.rows, cond, handling(resolution, now)))
}

/// The card is a pending card of the issue whose subject key names the task under
/// one of the prefixes.
pub open spec fn task_blocker(issue_id: i32, task_id: i32, subjects: Seq<&str>) -> spec_fn(
    ModelView,
) -> bool {
    |c: ModelView|
        c.issue_id == issue_id && c.status == InboxStatus::Pending && exists|i: int|
            0 <= i < subjects.len() && c.subject_key == key_for((#[trigger] subjects[i])@, task_id)
}

/// The card is a pending `Blocked` card of the issue, but not an oscillation card.
pub open spec fn ordinary_block(issue_id: i32) -> spec_fn(ModelView) -> bool {
    |c: ModelView|
        c.issue_id == issue_id && c.kind == InboxKind::Blocked && c.status == InboxStatus::Pending
            && !has_prefix(c.subject_key, "oscillation:"@)
}

/// The card is a pending card of the issue and the kind.
pub open spec fn pending_of_kind(issue_id: i32, kind: InboxKind) -> spec_fn(ModelView) -> bool {
    |c: ModelView| c.issue_id == issue_id && c.kind == kind && c.status == InboxStatus::Pending
}

fn task_keys(task_id: i32, subjects: &[&str]) -> (r: Vec<String>)
    ensures
        r@.len() == subjects@.len(),
        forall|i: int|
            0 <= i < r@.len() ==> (#[trigger] r@[i])@ == key_for(subjects@[i]@, task_id),
{
    let mut keys: Vec<String> = Vec::new();
    let mut i: usize = 0;
    while i < subjects.len()
        invariant
            i <= subjects@.len(),
            keys@.len() == i,
            forall|j: int| 0 <= j < i ==> (#[trigger] keys@[j])@ == key_for(subjects@[j]@, task_id),
        decreases subjects@.len() - i,
    {
        keys.push(make_key(subjects[i], task_id));
        i = i + 1;
    }
    keys
}

fn contains_text(keys: &Vec<String>, s: &String) -> (r: bool)
    ensures
        r == exists|i: int| 0 <= i < keys@.len() && (#[trigger] keys@[i])@ == s@,
{
    let mut i: usize = 0;
    while i < keys.len()
        invariant
            i <= keys@.len(),
            forall|j: int| 0 <= j < i ==> (#[trigger] keys@[j])@ != s@,
        decreases keys@.len() - i,
    {
        if same_text(keys[i].as_str(), s.as_str()) {
            return true;
        }
        i = i + 1;
    }
    false
}

/// Whether a card is a pending blocker of the task, given the keys to look for.
fn is_task_blocker(
    c: &loop_inbox_item::Model,
    issue_id: i32,
    task_id: i32,
    subjects: &[&str],
    keys: &Vec<String>,
) -> (r: bool)
    requires
        keys@.len() == subjects@.len(),
        forall|i: int|
            0 <= i < keys@.len() ==> (#[trigger] keys@[i])@ == key_for(subjects@[i]@, task_id),
    ensures
        r == task_blocker(issue_id, task_id, subjects@)(c@),
{
    let named: bool = contains_text(keys, &c.subject_key);
    proof {
        if named {
            let i = choose|i: int| 0 <= i < keys@.len() && (#[trigger] keys@[i])@ == c.subject_key@;
            assert(c.subject_key@ == key_for(subjects@[i]@, task_id));
        } else if exists|i: int|
            0 <= i < subjects@.len() && c.subject_key@ == key_for(
                (#[trigger] subjects@[i])@,
                task_id,
            ) {
            let i = choose|i: int|
                0 <= i < subjects@.len() && c.subject_key@ == key_for(
                    (#[trigger] subjects@[i])@,
                    task_id,
                );
            assert(keys@[i]@ == c.subject_key@);
        }
    }
    c.issue_id == issue_id && c.status == InboxStatus::Pending && named
}

/// Resolve a single task's pending blocker cards by subject key (`{prefix}:{task_id}`
/// for each prefix in `subjects`). Returns how many cards it handled.
pub fn resolve_task_blocker_cards(
    inbox: &mut Table<loop_inbox_item::Model>,
    issue_id: i32,
    task_id: i32,
    subjects: &[&str],
    resolution: Value,
    now: Timestamp,
) -> (n: u64)
    requires
        old(inbox).wf(),
    ensures
        final(inbox).wf(),
        final(inbox)@ == swept(
            old(inbox)@,
            task_blocker(issue_id, task_id, subjects@),
            json_view(resolution),
            now,
        ),
        n == count_where(old(inbox)@.rows, task_blocker(issue_id, task_id, subjects@)),
{
    let ghost cond = task_blocker(issue_id, task_id, subjects@);
    let ghost before = inbox@;
    let keys = task_keys(task_id, subjects);
    let text = json_to_text(&resolution);
    let mut n: u64 = 0;
    let mut i: usize = 0;
    proof {
        reveal(Seq::filter);
    }
    while i < inbox.rows.len()
        invariant
            i <= inbox.rows@.len() == before.rows.len(),
            inbox.next_id == before.next_id,
            cond == task_blocker(issue_id, task_id, subjects@),
            text@ == json_text(json_view(resolution)),
            keys@.len() == subjects@.len(),
            forall|j: int|
                0 <= j < keys@.len() ==> (#[trigger] keys@[j])@ == key_for(subjects@[j]@, task_id),
            n == count_where(before.rows.take(i as int), cond),
            n <= i,
            forall|j: int|
                0 <= j < inbox.rows@.len() ==> (#[trigger] inbox.rows@[j])@ == (if j < i && cond(
                    before.rows[j],
                ) {
                    handled(before.rows[j], text@, now)
                } else {
                    before.rows[j]
                }),
        decreases inbox.rows@.len() - i,
    {
        proof {
            lemma_count_step(before.rows, cond, i as int);
        }
        if is_task_blocker(&inbox.rows[i], issue_id, task_id, subjects, &keys) {
            mark_handled(&mut inbox.rows[i], text.as_str(), now);
            n = n + 1;
        }
        i = i + 1;
    }
    proof {
        assert(before.rows.take(i as int) =~= before.rows);
        assert(inbox@.rows =~= update_where(
            before.rows,
            cond,
            handling(json_view(resolution), now),
        ));
        lemma_sweep_wf(before, cond, json_view(resolution), now);
    }
    n
}

/// A sweep keeps the card table well-formed.
pub proof fn lemma_sweep_wf(
    t: TableView<ModelView>,
    cond: spec_fn(ModelView) -> bool,
    resolution: JsonView,
    now: Timestamp,
)
    requires
        table_wf::<loop_inbox_item::Model>(t),
    ensures
        table_wf::<loop_inbox_item::Model>(swept(t, cond, resolution, now)),
{
    let rows = swept(t, cond, resolution, now).rows;
    assert forall|i: int| 0 <= i < t.rows.len() implies (#[trigger] rows[i]).id == t.rows[i].id by {
    }
}

/// Resolve all of an issue's pending `Blocked` cards except the task-level
/// `oscillation:` cards, which clear only through an explicit exit. Returns how many
/// it handled.
pub fn resolve_blocked_cards_except_oscillation(
    inbox: &mut Table<loop_inbox_item::Model>,
    issue_id: i32,
    resolution: Value,
    now: Timestamp,
) -> (n: u64)
    requires
        old(inbox).wf(),
    ensures
        final(inbox).wf(),
        final(inbox)@ == swept(
            old(inbox)@,
            ordinary_block(issue_id),
            json_view(resolution),
            now,
        ),
        n == count_where(old(inbox)@.rows, ordinary_block(issue_id)),
{
    let ghost cond = ordinary_block(issue_id);
    let ghost before = inbox@;
    let text = json_to_text(&resolution);
    let mut n: u64 = 0;
    let mut i: usize = 0;
    proof {
        reveal(Seq::filter);
    }
    while i < inbox.rows.len()
        invariant
            i <= inbox.rows@.len() == before.rows.len(),
            inbox.next_id == before.next_id,
            cond == ordinary_block(issue_id),
            text@ == json_text(json_view(resolution)),
            n == count_where(before.rows.take(i as int), cond),
            n <= i,
            forall|j: int|
                0 <= j < inbox.rows@.len() ==> (#[trigger] inbox.rows@[j])@ == (if j < i && cond(
                    before.rows[j],
                ) {
                    handled(before.rows[j], text@, now)
                } else {
                    before.rows[j]
                }),
        decreases inbox.rows@.len() - i,
    {
        proof {
            lemma_count_step(before.rows, cond, i as int);
        }
        let c = &inbox.rows[i];
        let hit: bool = c.issue_id == issue_id && c.kind == InboxKind::Blocked && c.status
            == InboxStatus::Pending && !starts_with(c.subject_key.as_str(), "oscillation:");
        if hit {
            mark_handled(&mut inbox.rows[i], text.as_str(), now);
            n = n + 1;
        }
        i = i + 1;
    }
    proof {
        assert(before.rows.take(i as int) =~= before.rows);
        assert(inbox@.rows =~= update_where(
            before.rows,
            cond,
            handling(json_view(resolution), now),
        ));
        lemma_sweep_wf(before, cond, json_view(resolution), now);
    }
    n
}

/// Mark every pending inbox card of `kind` for an issue handled. An issue may carry
/// more than one, so they are cleared in one resolution.
pub fn resolve_cards_of_kind(
    inbox: &mut Table<loop_inbox_item::Model>,
    issue_id: i32,
    kind: InboxKind,
    resolution: Value,
    now: Timestamp,
)
    requires
        old(inbox).wf(),
    ensures
        final(inbox).wf(),
        final(inbox)@ == swept(
            old(inbox)@,
            pending_of_kind(issue_id, kind),
            json_view(resolution),
            now,
        ),
{
    let ghost cond = pending_of_kind(issue_id, kind);
    let ghost before = inbox@;
    let text = json_to_text(&resolution);
    let mut i: usize = 0;
    while i < inbox.rows.len()
        invariant
            i <= inbox.rows@.len() == before.rows.len(),
            inbox.next_id == before.next_id,
            cond == pending_of_kind(issue_id, kind),
            text@ == json_text(json_view(resolution)),
            forall|j: int|
                0 <= j < inbox.rows@.len() ==> (#[trigger] inbox.rows@[j])@ == (if j < i && cond(
                    before.rows[j],
                ) {
                    handled(before.rows[j], text@, now)
                } else {
                    before.rows[j]
                }),
        decreases inbox.rows@.len() - i,
    {
        let c = &inbox.rows[i];
        let hit: bool = c.issue_id == issue_id && c.kind == kind && c.status
            == InboxStatus::Pending;
        if hit {
            mark_handled(&mut inbox.rows[i], text.as_str(), now);
        }
        i = i + 1;
    }
    proof {
        assert(inbox@.rows =~= update_where(
            before.rows,
            cond,
            handling(json_view(resolution), now),
        ));
        lemma_sweep_wf(before, cond, json_view(resolution), now);
    }
}

/// The card table after the pending approval card of the issue and subject was
/// handled; unchanged when there is none.
pub open spec fn approval_resolved(
    t: TableView<ModelView>,
    issue_id: i32,
    subject: Seq<char>,
    resolution: JsonView,
    now: Timestamp,
) -> TableView<ModelView> {
    match first_match(t.rows, pending_card(issue_id, InboxKind::Approval, subject)) {
        Some(i) => with_rows(
            t,
            t.rows.update(i, handled(t.rows[i], json_text(resolution), now)),
        ),
        None => t,
    }
}

/// Mark the pending approval card of the subject for an issue handled. Does nothing
/// when there is none: automatic paths run without a card.
pub fn resolve_approval_card(
    inbox: &mut Table<loop_inbox_item::Model>,
    issue_id: i32,
    subject: &str,
    resolution: Value,
    now: Timestamp,
)
    requires
        old(inbox).wf(),
    ensures
        final(inbox).wf(),
        final(inbox)@ == approval_resolved(
            old(inbox)@,
            issue_id,
            subject@,
            json_view(resolution),
            now,
        ),
{
    let ghost before = inbox@;
    if let Some(i) = find_pending_card(inbox, issue_id, InboxKind::Approval, subject) {
        let text = json_to_text(&resolution);
        mark_handled(&mut inbox.rows[i], text.as_str(), now);
        proof {
            let card = handled(before.rows[i as int], text@, now);
            assert(inbox@.rows =~= before.rows.update(i as int, card));
            assert(table_wf::<loop_inbox_item::Model>(inbox@));
        }
    }
}

/// The prefixes of the cards that block a single task.
pub open spec fn is_blocker_prefix(p: Seq<char>) -> bool {
    p == "no_progress"@ || p == "validation_blocked"@ || p == "infra_failure"@ || p
        == "oscillation"@
}

/// The card is a pending card of the issue that blocks the task, under any of the
/// blocker prefixes.
pub open spec fn blocks_task(issue_id: i32, task_id: i32) -> spec_fn(ModelView) -> bool {
    |c: ModelView|
        c.issue_id == issue_id && c.status == InboxStatus::Pending && exists|p: Seq<char>|
            is_blocker_prefix(p) && c.subject_key == #[trigger] key_for(p, task_id)
}

/// The failure signature that a payload carries.
pub open spec fn failure_sig_of(payload: JsonView) -> Option<Seq<char>> {
    match member(payload, "failure_sig"@) {
        Some(s) => string_of(s),
        None => None,
    }
}

/// The failure signature that a payload carries.
pub fn failure_sig(payload: &Value) -> (r: Option<String>)
    ensures
        opt_text(r) == failure_sig_of(json_view(*payload)),
{
    match get_member(payload, "failure_sig") {
        Some(s) => match as_str(s) {
            Some(t) => Some(t.to_owned()),
            None => None,
        },
        None => None,
    }
}

/// The failure signature of the most recent pending card that blocks the task.
pub open spec fn blocker_sig(rows: Seq<ModelView>, issue_id: i32, task_id: i32) -> Option<
    Seq<char>,
> {
    match last_match(rows, blocks_task(issue_id, task_id)) {
        Some(c) => match json_parsed(c.payload) {
            Some(v) => failure_sig_of(v),
            None => None,
        },
        None => None,
    }
}

fn is_blocker_key(key: &str, task_id: i32) -> (r: bool)
    ensures
        r == exists|p: Seq<char>| is_blocker_prefix(p) && key@ == #[trigger] key_for(p, task_id),
{
    let a: bool = same_text(key, make_key("no_progress", task_id).as_str());
    let b: bool = same_text(key, make_key("validation_blocked", task_id).as_str());
    let c: bool = same_text(key, make_key("infra_failure", task_id).as_str());
    let d: bool = same_text(key, make_key("oscillation", task_id).as_str());
    proof {
        assert(a ==> is_blocker_prefix("no_progress"@));
        assert(b ==> is_blocker_prefix("validation_blocked"@));
        assert(c ==> is_blocker_prefix("infra_failure"@));
        assert(d ==> is_blocker_prefix("oscillation"@));
    }
    a || b || c || d
}

/// The `failure_sig` of a task's most recent pending blocker card: the current
/// block reason. None when there is no pending blocker card or it carries no
/// signature.
pub fn task_blocker_failure_sig(
    inbox: &Table<loop_inbox_item::Model>,
    issue_id: i32,
    task_id: i32,
) -> (r: Option<String>)
    ensures
        opt_text(r) == blocker_sig(inbox@.rows, issue_id, task_id),
{
    let ghost rows = inbox@.rows;
    let ghost cond = blocks_task(issue_id, task_id);
    let mut found: Option<usize> = None;
    let mut i: usize = 0;
    proof {
        reveal(Seq::filter);
    }
    while i < inbox.rows.len()
        invariant
            i <= inbox.rows@.len(),
            rows == inbox@.rows,
            cond == blocks_task(issue_id, task_id),
            match found {
                Some(k) => k < i && last_match(rows.take(i as int), cond) == Some(rows[k as int]),
                None => last_match(rows.take(i as int), cond) is None,
            },
        decreases inbox.rows@.len() - i,
    {
        proof {
            lemma_count_step(rows, cond, i as int);
            assert(rows[i as int] == inbox.rows@[i as int]@);
        }
        let c = &inbox.rows[i];
        if c.issue_id == issue_id && c.status == InboxStatus::Pending && is_blocker_key(
            c.subject_key.as_str(),
            task_id,
        ) {
            found = Some(i);
        }
        i = i + 1;
    }
    assert(rows.take(i as int) =~= rows);
    match found {
        Some(k) => match parse_json(inbox.rows[k].payload.as_str()) {
            Some(v) => failure_sig(&v),
            None => None,
        },
        None => None,
    }
}

/// The card is a pending oscillation card of the task.
pub open spec fn oscillation_card(issue_id: i32, task_id: i32) -> spec_fn(ModelView) -> bool {
    |c: ModelView|
        c.issue_id == issue_id && c.subject_key == key_for("oscillation"@, task_id) && c.status
            == InboxStatus::Pending
}

/// Whether the task currently has a pending `oscillation:{task_id}` card. This tells
/// a task that the breaker stopped from any other blocked task.
pub fn has_pending_oscillation_card(
    inbox: &Table<loop_inbox_item::Model>,
    issue_id: i32,
    task_id: i32,
) -> (r: bool)
    ensures
        r == any_match(inbox@.rows, oscillation_card(issue_id, task_id)),
{
    let key = make_key("oscillation", task_id);
    let ghost rows = inbox@.rows;
    let ghost cond = oscillation_card(issue_id, task_id);
    let mut i: usize = 0;
    while i < inbox.rows.len()
        invariant
            i <= inbox.rows@.len(),
            rows == inbox@.rows,
            cond == oscillation_card(issue_id, task_id),
            key@ == key_for("oscillation"@, task_id),
            forall|j: int| 0 <= j < i ==> !cond(#[trigger] rows[j]),
        decreases inbox.rows@.len() - i,
    {
        assert(rows[i as int] == inbox.rows@[i as int]@);
        let c = &inbox.rows[i];
        if c.issue_id == issue_id && same_text(c.subject_key.as_str(), key.as_str()) && c.status
            == InboxStatus::Pending {
            assert(cond(rows[i as int]));
            return true;
        }
        i = i + 1;
    }
    false
}

} // verus!
