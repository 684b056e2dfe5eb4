//! The words in which the laws speak: what is announced, how keys, branches and messages
//! are spelled, and what a handled card looks like.

use crate::clock::Timestamp;
use crate::entities::loop_inbox_item::{self, InboxStatus};
use crate::json::{json_text, JsonView};
use crate::loop_engine::{EffectView, LoopChangedView};
use crate::text::int_digits;
use vstd::prelude::*;

verus! {

/// The announcement that an issue changed in the given way.
pub open spec fn announcement(space_id: i32, issue_id: i32, kind: Seq<char>) -> EffectView {
    EffectView::Changed(
        LoopChangedView {
            v: 1,
            space_id,
            issue_id: Some(issue_id),
            subject_kind: seq!['i', 's', 's', 'u', 'e'],
            subject_id: issue_id,
            kind,
        },
    )
}

/// A prefix, a colon and a number.
pub open spec fn colon_key(prefix: Seq<char>, id: i32) -> Seq<char> {
    prefix + seq![':'] + int_digits(id as int)
}

/// `loop/`, the space, `/issue-` and the number of the issue within the space.
pub open spec fn issue_branch(space_id: i32, seq_no: i32) -> Seq<char> {
    seq!['l', 'o', 'o', 'p', '/'] + int_digits(space_id as int) + seq![
        '/',
        'i',
        's',
        's',
        'u',
        'e',
        '-',
    ] + int_digits(seq_no as int)
}

/// A card with its answer: handled at the given time, everything else as it was.
pub open spec fn answered(
    c: loop_inbox_item::ModelView,
    answer: JsonView,
    now: Timestamp,
) -> loop_inbox_item::ModelView {
    loop_inbox_item::ModelView {
        id: c.id,
        space_id: c.space_id,
        issue_id: c.issue_id,
        iteration_id: c.iteration_id,
        kind: c.kind,
        subject_key: c.subject_key,
        payload: c.payload,
        status: InboxStatus::Handled,
        resolution: Some(json_text(answer)),
        created_at: c.created_at,
        handled_at: Some(now),
    }
}

/// A JSON object with one member.
pub open spec fn one_member(k: Seq<char>, v: JsonView) -> JsonView {
    JsonView::Object(Map::empty().insert(k, v))
}

/// A JSON object with two members.
pub open spec fn two_members(k: Seq<char>, v: JsonView, l: Seq<char>, w: JsonView) -> JsonView {
    JsonView::Object(Map::empty().insert(k, v).insert(l, w))
}

/// The announcement is spelled as it should be.
pub proof fn lemma_announcement(space_id: i32, issue_id: i32, kind: Seq<char>)
    ensures
        crate::loop_engine::issue_changed(space_id, issue_id, kind) == announcement(
            space_id,
            issue_id,
            kind,
        ),
{
    reveal_strlit("issue");
    assert("issue"@ =~= seq!['i', 's', 's', 'u', 'e']);
}

/// A subject key is its prefix, a colon and its number.
pub proof fn lemma_key(prefix: Seq<char>, id: i32)
    ensures
        crate::loop_service::inbox::key_for(prefix, id) == colon_key(prefix, id),
{
    reveal_strlit(":");
    assert(":"@ =~= seq![':']);
}

/// The branch of an issue names its space and its number there.
pub proof fn lemma_branch(space_id: i32, seq_no: i32)
    ensures
        crate::loop_engine::branch_name(space_id, seq_no) == issue_branch(space_id, seq_no),
{
    reveal_strlit("loop/");
    reveal_strlit("/issue-");
    assert("loop/"@ =~= seq!['l', 'o', 'o', 'p', '/']);
    assert("/issue-"@ =~= seq!['/', 'i', 's', 's', 'u', 'e', '-']);
}

/// Filters by conditions that agree on every row give the same rows.
pub proof fn lemma_filter_agrees<V>(
    rows: Seq<V>,
    p: spec_fn(V) -> bool,
    q: spec_fn(V) -> bool,
)
    requires
        forall|v: V| #[trigger] p(v) == q(v),
    ensures
        rows.filter(p) == rows.filter(q),
    decreases rows.len(),
{
    reveal(Seq::filter);
    if rows.len() > 0 {
        lemma_filter_agrees(rows.drop_last(), p, q);
    }
}

} // verus!
