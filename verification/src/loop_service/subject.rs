//! What an inbox card is about: its subject key, resolved to an artifact, and the
//! inbox listing that shows it.

use crate::entities::loop_artifact::{self, ArtifactKind, ArtifactStatus};
use crate::entities::loop_inbox_item::{self, InboxStatus};
use crate::entities::{loop_issue, loop_iteration};
use crate::json::{
    as_i64, get_member, integer_of, json_view, member, read_stored, stored_json, JsonView,
};
use crate::loop_service::inbox::{is_blocker_prefix, key_for};
use crate::models::{LoopInboxItemRow, LoopInboxItemRowView};
use crate::table::{
    first_match, ids_ascend, last_match, lemma_count_step, lemma_filter_ids_ascend, lemma_first_is,
    lemma_first_match, lemma_listed_back, lookup, reversed, views, Table,
};
use crate::text::{i32_value, int_digits, lemma_i32_value_of_digits, opt_text, parse_i32, same_text};
use serde_json::Value;
use vstd::prelude::*;
use vstd::string::*;

verus! {

broadcast use vstd::string::group_string_axioms;

/// How a card's `subject_key` resolves to the artifact it concerns. The suffix of
/// `{prefix}:{id}` means different things per family, so the prefix is classified
/// first; a suffix that is an issue id is never taken as an artifact id.
#[derive(Debug, Clone, Copy, PartialEq, Eq, Structural)]
pub enum SubjectResolution {
    /// The id is a task artifact id.
    Artifact(i32),
    /// The named issue's live design artifact.
    DesignOf(i32),
    /// The named issue's live result artifact.
    ResultOf(i32),
    /// The named iteration's target artifact.
    IterationTarget(i32),
    /// An issue-level card, or an unknown prefix.
    NoArtifact,
}

pub open spec fn is_colon() -> spec_fn(char) -> bool {
    |c: char| c == ':'
}

/// A subject key split at its first colon, when an integer follows it.
pub open spec fn subject_parts(key: Seq<char>) -> Option<(Seq<char>, i32)> {
    match first_match(key, is_colon()) {
        Some(i) => match i32_value(key.skip(i + 1)) {
            Some(id) => Some((key.take(i), id)),
            None => None,
        },
        None => None,
    }
}

/// Split a `{prefix}:{id}` subject key. Returns `None` if it has no integer tail.
pub fn parse_subject_key(key: &str) -> (r: Option<(&str, i32)>)
    ensures
        match r {
            Some((prefix, id)) => subject_parts(key@) == Some((prefix@, id)),
            None => subject_parts(key@) is None,
        },
{
    let n: usize = key.unicode_len();
    let mut i: usize = 0;
    while i < n
        invariant
            i <= n == key@.len(),
            forall|j: int| 0 <= j < i ==> #[trigger] key@[j] != ':',
        decreases n - i,
    {
        if key.get_char(i) == ':' {
            proof {
                lemma_first_is(key@, is_colon(), i as int);
                assert(key@.subrange(i + 1, n as int) =~= key@.skip(i + 1));
                assert(key@.subrange(0, i as int) =~= key@.take(i as int));
            }
            return match parse_i32(key.substring_char(i + 1, n)) {
                Some(id) => Some((key.substring_char(0, i), id)),
                None => None,
            };
        }
        i = i + 1;
    }
    proof {
        lemma_first_match(key@, is_colon());
    }
    None
}

/// A key made from a prefix without a colon and an id splits into the two again.
pub proof fn lemma_subject_key_round_trip(prefix: Seq<char>, id: i32)
    requires
        !prefix.contains(':'),
    ensures
        subject_parts(key_for(prefix, id)) == Some((prefix, id)),
{
    let key = key_for(prefix, id);
    reveal_strlit(":");
    assert(key[prefix.len() as int] == ':');
    assert forall|j: int| 0 <= j < prefix.len() implies #[trigger] key[j] != ':' by {
        assert(key[j] == prefix[j]);
    }
    lemma_first_is(key, is_colon(), prefix.len() as int);
    assert(key.skip(prefix.len() as int + 1) =~= int_digits(id as int));
    assert(key.take(prefix.len() as int) =~= prefix);
    lemma_i32_value_of_digits(id);
}

/// Task-level prefixes: the suffix is a task artifact id.
pub open spec fn task_family(p: Seq<char>) -> bool {
    is_blocker_prefix(p)
}

/// Prefixes whose suffix names an issue, and which concern its design.
pub open spec fn design_family(p: Seq<char>) -> bool {
    p == "design"@ || p == "design_rejected"@
}

/// Prefixes whose suffix names an issue, and which concern its result.
pub open spec fn result_family(p: Seq<char>) -> bool {
    p == "merge"@ || p == "merge_blocked"@ || p == "merge_rejected"@ || p == "finalize_dirty"@ || p
        == "unverifiable"@ || p == "integration_gap"@
}

/// Prefixes whose suffix names an iteration.
pub open spec fn iteration_family(p: Seq<char>) -> bool {
    p == "dispatch_failed"@ || p == "stalled"@
}

/// The artifact id that a payload names itself.
pub open spec fn payload_artifact(payload: JsonView) -> Option<i32> {
    let named = match member(payload, "task_artifact_id"@) {
        Some(v) => Some(v),
        None => member(payload, "node_artifact_id"@),
    };
    match named {
        Some(v) => match integer_of(v) {
            Some(n) => Some(n as i32),
            None => None,
        },
        None => None,
    }
}

/// How a card resolves, from its key, its payload and its iteration.
pub open spec fn classified(
    key: Seq<char>,
    payload: JsonView,
    iteration_id: Option<i32>,
) -> SubjectResolution {
    match subject_parts(key) {
        None => SubjectResolution::NoArtifact,
        Some((prefix, suffix)) => {
            if task_family(prefix) {
                SubjectResolution::Artifact(
                    match payload_artifact(payload) {
                        Some(id) => id,
                        None => suffix,
                    },
                )
            } else if design_family(prefix) {
                SubjectResolution::DesignOf(suffix)
            } else if result_family(prefix) {
                SubjectResolution::ResultOf(suffix)
            } else if iteration_family(prefix) {
                SubjectResolution::IterationTarget(
                    match iteration_id {
                        Some(id) => id,
                        None => suffix,
                    },
                )
            } else if prefix == "question"@ {
                match iteration_id {
                    Some(id) => SubjectResolution::IterationTarget(id),
                    None => SubjectResolution::NoArtifact,
                }
            } else {
                SubjectResolution::NoArtifact
            }
        },
    }
}

fn artifact_in_payload(payload: &Value) -> (r: Option<i32>)
    ensures
        r == payload_artifact(json_view(*payload)),
{
    let named = match get_member(payload, "task_artifact_id") {
        Some(v) => Some(v),
        None => get_member(payload, "node_artifact_id"),
    };
    match named {
        Some(v) => match as_i64(v) {
            Some(n) => Some(wrap_id(n)),
            None => None,
        },
        None => None,
    }
}

/// An `i64` cut down to an `i32`, as a cast does it.
#[verifier::truncate]
fn wrap_id(n: i64) -> (r: i32)
    ensures
        r == n as i32,
{
    n as i32
}

/// Classify a card into its resolution intent. `iteration_id` is the card's column
/// (authoritative for iteration-keyed cards). A question's suffix is a question id,
/// so it relies on the column only.
pub fn classify_subject(subject_key: &str, payload: &Value, iteration_id: Option<i32>) -> (r:
    SubjectResolution)
    ensures
        r == classified(subject_key@, json_view(*payload), iteration_id),
{
    match parse_subject_key(subject_key) {
        None => SubjectResolution::NoArtifact,
        Some((prefix, suffix)) => {
            if same_text(prefix, "no_progress") || same_text(prefix, "validation_blocked")
                || same_text(prefix, "infra_failure") || same_text(prefix, "oscillation") {
                match artifact_in_payload(payload) {
                    Some(id) => SubjectResolution::Artifact(id),
                    None => SubjectResolution::Artifact(suffix),
                }
            } else if same_text(prefix, "design") || same_text(prefix, "design_rejected") {
                SubjectResolution::DesignOf(suffix)
            } else if same_text(prefix, "merge") || same_text(prefix, "merge_blocked") || same_text(
                prefix,
                "merge_rejected",
            ) || same_text(prefix, "finalize_dirty") || same_text(prefix, "unverifiable")
                || same_text(prefix, "integration_gap") {
                SubjectResolution::ResultOf(suffix)
            } else if same_text(prefix, "dispatch_failed") || same_text(prefix, "stalled") {
                match iteration_id {
                    Some(id) => SubjectResolution::IterationTarget(id),
                    None => SubjectResolution::IterationTarget(suffix),
                }
            } else if same_text(prefix, "question") {
                match iteration_id {
                    Some(id) => SubjectResolution::IterationTarget(id),
                    None => SubjectResolution::NoArtifact,
                }
            } else {
                SubjectResolution::NoArtifact
            }
        },
    }
}

/// The artifact is of the issue and the kind, and neither superseded nor cancelled.
pub open spec fn live_of(issue_id: i32, kind: ArtifactKind) -> spec_fn(
    loop_artifact::ModelView,
) -> bool {
    |a: loop_artifact::ModelView|
        a.issue_id == issue_id && a.kind == kind && a.status != ArtifactStatus::Superseded
            && a.status != ArtifactStatus::Cancelled
}

/// The id of the latest live artifact of the issue and the kind.
pub open spec fn live_artifact(
    rows: Seq<loop_artifact::ModelView>,
    issue_id: i32,
    kind: ArtifactKind,
) -> Option<i32> {
    match last_match(rows, live_of(issue_id, kind)) {
        Some(a) => Some(a.id),
        None => None,
    }
}

/// The latest live artifact of one kind for an issue.
pub fn live_artifact_by_issue(
    artifacts: &Table<loop_artifact::Model>,
    issue_id: i32,
    kind: ArtifactKind,
) -> (r: Option<i32>)
    ensures
        r == live_artifact(artifacts@.rows, issue_id, kind),
{
    let ghost rows = artifacts@.rows;
    let ghost cond = live_of(issue_id, kind);
    let mut found: Option<i32> = None;
    let mut i: usize = 0;
    proof {
        reveal(Seq::filter);
    }
    while i < artifacts.rows.len()
        invariant
            i <= artifacts.rows@.len(),
            rows == artifacts@.rows,
            cond == live_of(issue_id, kind),
            found == live_artifact(rows.take(i as int), issue_id, kind),
        decreases artifacts.rows@.len() - i,
    {
        proof {
            lemma_count_step(rows, cond, i as int);
            assert(rows[i as int] == artifacts.rows@[i as int]@);
        }
        let a = &artifacts.rows[i];
        if a.issue_id == issue_id && a.kind == kind && a.status != ArtifactStatus::Superseded
            && a.status != ArtifactStatus::Cancelled {
            found = Some(a.id);
        }
        i = i + 1;
    }
    assert(rows.take(i as int) =~= rows);
    found
}

/// The artifact that a resolution leads to.
pub open spec fn resolved(
    r: SubjectResolution,
    artifacts: Seq<loop_artifact::ModelView>,
    iterations: Seq<loop_iteration::ModelView>,
) -> Option<i32> {
    match r {
        SubjectResolution::Artifact(id) => Some(id),
        SubjectResolution::DesignOf(id) => live_artifact(artifacts, id, ArtifactKind::Design),
        SubjectResolution::ResultOf(id) => live_artifact(artifacts, id, ArtifactKind::Result),
        SubjectResolution::IterationTarget(id) => match lookup::<loop_iteration::Model>(
            iterations,
            id,
        ) {
            Some(it) => it.target_artifact_id,
            None => None,
        },
        SubjectResolution::NoArtifact => None,
    }
}

fn resolve_subject(
    r: SubjectResolution,
    artifacts: &Table<loop_artifact::Model>,
    iterations: &Table<loop_iteration::Model>,
) -> (id: Option<i32>)
    ensures
        id == resolved(r, artifacts@.rows, iterations@.rows),
{
    match r {
        SubjectResolution::Artifact(id) => Some(id),
        SubjectResolution::DesignOf(id) => live_artifact_by_issue(
            artifacts,
            id,
            ArtifactKind::Design,
        ),
        SubjectResolution::ResultOf(id) => live_artifact_by_issue(
            artifacts,
            id,
            ArtifactKind::Result,
        ),
        SubjectResolution::IterationTarget(id) => match iterations.find(id) {
            Some(i) => iterations.rows[i].target_artifact_id,
            None => None,
        },
        SubjectResolution::NoArtifact => None,
    }
}

/// The title of the artifact with the given id.
pub open spec fn title_of(artifacts: Seq<loop_artifact::ModelView>, id: Option<i32>) -> Option<
    Seq<char>,
> {
    match id {
        Some(id) => match lookup::<loop_artifact::Model>(artifacts, id) {
            Some(a) => Some(a.title),
            None => None,
        },
        None => None,
    }
}

pub(crate) fn find_title(artifacts: &Table<loop_artifact::Model>, id: Option<i32>) -> (r: Option<
    String,
>)
    ensures
        opt_text(r) == title_of(artifacts@.rows, id),
{
    match id {
        Some(id) => match artifacts.find(id) {
            Some(i) => Some(artifacts.rows[i].title.clone()),
            None => None,
        },
        None => None,
    }
}

/// The number of an issue within the space; zero for an issue not found there.
pub open spec fn seq_in_space(
    issues: Seq<loop_issue::ModelView>,
    space_id: i32,
    issue_id: i32,
) -> i32 {
    match lookup::<loop_issue::Model>(issues, issue_id) {
        Some(i) => if i.space_id == space_id {
            i.seq_no
        } else {
            0
        },
        None => 0,
    }
}

pub(crate) fn find_seq_in_space(
    issues: &Table<loop_issue::Model>,
    space_id: i32,
    issue_id: i32,
) -> (r: i32)
    ensures
        r == seq_in_space(issues@.rows, space_id, issue_id),
{
    match issues.find(issue_id) {
        Some(i) => if issues.rows[i].space_id == space_id {
            issues.rows[i].seq_no
        } else {
            0
        },
        None => 0,
    }
}

/// A card as the listing shows it.
pub open spec fn listed_card(
    c: loop_inbox_item::ModelView,
    issue_seq: i32,
    subject_artifact_id: Option<i32>,
    subject_title: Option<Seq<char>>,
) -> LoopInboxItemRowView {
    LoopInboxItemRowView {
        id: c.id,
        issue_id: c.issue_id,
        issue_seq,
        iteration_id: c.iteration_id,
        kind: c.kind,
        subject_key: c.subject_key,
        payload: stored_json(c.payload),
        status: c.status,
        subject_artifact_id,
        subject_title,
        created_at: c.created_at,
    }
}

/// A card with its payload read; the subject is left open.
fn to_row(m: &loop_inbox_item::Model, issue_seq: i32) -> (r: LoopInboxItemRow)
    ensures
        r@ == listed_card(m@, issue_seq, None, None),
{
    LoopInboxItemRow {
        id: m.id,
        issue_id: m.issue_id,
        issue_seq,
        iteration_id: m.iteration_id,
        kind: m.kind,
        subject_key: m.subject_key.clone(),
        payload: read_stored(m.payload.as_str()),
        status: m.status,
        subject_artifact_id: None,
        subject_title: None,
        created_at: m.created_at,
    }
}

/// The card is in the space and, where a status is asked for, has it.
pub open spec fn in_listing(space_id: i32, status: Option<InboxStatus>) -> spec_fn(
    loop_inbox_item::ModelView,
) -> bool {
    |c: loop_inbox_item::ModelView|
        c.space_id == space_id && (status is None || status == Some(c.status))
}

/// The subject artifact of a card.
pub open spec fn subject_of(
    c: loop_inbox_item::ModelView,
    artifacts: Seq<loop_artifact::ModelView>,
    iterations: Seq<loop_iteration::ModelView>,
) -> Option<i32> {
    resolved(
        classified(c.subject_key, stored_json(c.payload), c.iteration_id),
        artifacts,
        iterations,
    )
}

/// How each card is listed.
pub open spec fn listing_of(
    issues: Seq<loop_issue::ModelView>,
    artifacts: Seq<loop_artifact::ModelView>,
    iterations: Seq<loop_iteration::ModelView>,
    space_id: i32,
) -> spec_fn(loop_inbox_item::ModelView) -> LoopInboxItemRowView {
    |c: loop_inbox_item::ModelView|
        listed_card(
            c,
            seq_in_space(issues, space_id, c.issue_id),
            subject_of(c, artifacts, iterations),
            title_of(artifacts, subject_of(c, artifacts, iterations)),
        )
}

fn list_card(
    issues: &Table<loop_issue::Model>,
    artifacts: &Table<loop_artifact::Model>,
    iterations: &Table<loop_iteration::Model>,
    space_id: i32,
    m: &loop_inbox_item::Model,
) -> (r: LoopInboxItemRow)
    ensures
        r@ == listing_of(issues@.rows, artifacts@.rows, iterations@.rows, space_id)(m@),
{
    let mut row = to_row(m, find_seq_in_space(issues, space_id, m.issue_id));
    let resolution = classify_subject(m.subject_key.as_str(), &row.payload, m.iteration_id);
    row.subject_artifact_id = resolve_subject(resolution, artifacts, iterations);
    row.subject_title = find_title(artifacts, row.subject_artifact_id);
    row
}

/// The cards of a space, newest first, each with the artifact it is about.
pub fn list_inbox(
    issues: &Table<loop_issue::Model>,
    artifacts: &Table<loop_artifact::Model>,
    iterations: &Table<loop_iteration::Model>,
    inbox: &Table<loop_inbox_item::Model>,
    space_id: i32,
    status: Option<InboxStatus>,
) -> (r: Vec<LoopInboxItemRow>)
    ensures
        views(r@) == inbox@.rows.filter(in_listing(space_id, status)).map_values(
            listing_of(issues@.rows, artifacts@.rows, iterations@.rows, space_id),
        ).reverse(),
        forall|k: int|
            0 <= k < inbox@.rows.len() && inbox@.rows[k].space_id == space_id && (status is None
                || status == Some(inbox@.rows[k].status)) ==> views(r@).contains(
                listing_of(issues@.rows, artifacts@.rows, iterations@.rows, space_id)(
                    #[trigger] inbox@.rows[k],
                ),
            ),
        inbox.wf() ==> forall|i: int, j: int|
            0 <= i < j < r@.len() ==> (#[trigger] r@[i]).id > (#[trigger] r@[j]).id,
{
    let ghost rows = inbox@.rows;
    let ghost cond = in_listing(space_id, status);
    let ghost f = listing_of(issues@.rows, artifacts@.rows, iterations@.rows, space_id);
    let mut out: Vec<LoopInboxItemRow> = Vec::new();
    let mut i: usize = 0;
    proof {
        reveal(Seq::filter);
        assert(views(out@) =~= rows.take(0).filter(cond).map_values(f));
    }
    while i < inbox.rows.len()
        invariant
            i <= inbox.rows@.len(),
            rows == inbox@.rows,
            cond == in_listing(space_id, status),
            f == listing_of(issues@.rows, artifacts@.rows, iterations@.rows, space_id),
            views(out@) == rows.take(i as int).filter(cond).map_values(f),
        decreases inbox.rows@.len() - i,
    {
        proof {
            lemma_count_step(rows, cond, i as int);
            assert(rows[i as int] == inbox.rows@[i as int]@);
        }
        let m = &inbox.rows[i];
        let wanted: bool = match status {
            Some(s) => m.status == s,
            None => true,
        };
        if m.space_id == space_id && wanted {
            let ghost before = out@;
            let row = list_card(issues, artifacts, iterations, space_id, m);
            out.push(row);
            proof {
                assert(views(out@) =~= views(before).push(row@));
                let found = rows.take(i as int).filter(cond);
                assert(found.push(rows[i as int]).map_values(f) =~= found.map_values(f).push(
                    f(rows[i as int]),
                ));
            }
        }
        i = i + 1;
    }
    proof {
        assert(rows.take(i as int) =~= rows);
    }
    let ghost listed = out@;
    let r = reversed(out);
    assert(views(r@) =~= views(listed).reverse());
    proof {
        lemma_listed_back(rows, cond, f);
        if inbox.wf() {
            lemma_filter_ids_ascend::<loop_inbox_item::Model>(rows, cond);
        }
        let kept = rows.filter(cond);
        let n = kept.len();
        assert forall|i: int| 0 <= i < r@.len() implies (#[trigger] r@[i]).id == kept[n - 1
            - i].id by {
            assert(views(r@)[i] == r@[i]@);
        }
    }
    r
}

/// A suffix that names an issue is never taken as an artifact id: only a task-level key
/// resolves to an artifact directly.
pub proof fn lemma_only_task_keys_name_artifacts(
    key: Seq<char>,
    payload: JsonView,
    iteration_id: Option<i32>,
)
    ensures
        classified(key, payload, iteration_id) is Artifact ==> subject_parts(key) is Some
            && task_family(subject_parts(key)->Some_0.0),
        subject_parts(key) is Some && design_family(subject_parts(key)->Some_0.0) ==> classified(
            key,
            payload,
            iteration_id,
        ) == SubjectResolution::DesignOf(subject_parts(key)->Some_0.1),
        subject_parts(key) is Some && result_family(subject_parts(key)->Some_0.0) ==> classified(
            key,
            payload,
            iteration_id,
        ) == SubjectResolution::ResultOf(subject_parts(key)->Some_0.1),
{
    reveal_strlit("no_progress");
    reveal_strlit("validation_blocked");
    reveal_strlit("infra_failure");
    reveal_strlit("oscillation");
    reveal_strlit("design");
    reveal_strlit("design_rejected");
    reveal_strlit("merge");
    reveal_strlit("merge_blocked");
    reveal_strlit("merge_rejected");
    reveal_strlit("finalize_dirty");
    reveal_strlit("unverifiable");
    reveal_strlit("integration_gap");
    if subject_parts(key) is Some {
        let p = subject_parts(key)->Some_0.0;
        if design_family(p) || result_family(p) {
            assert(p[0] == 'd' || p[0] == 'm' || p[0] == 'f' || p[0] == 'u' || p[0] == 'i');
            assert(!task_family(p)) by {
                if p == "infra_failure"@ {
                    assert(p[2] == 'f');
                }
                if p == "integration_gap"@ {
                    assert(p[2] == 't');
                }
            }
            if result_family(p) {
                assert(p[0] != 'd');
            }
        }
    }
}

/// The artifact that a card is resolved to through its issue is the latest of the live
/// ones.
pub proof fn lemma_live_artifact_is_latest(
    rows: Seq<loop_artifact::ModelView>,
    issue_id: i32,
    kind: ArtifactKind,
    i: int,
)
    requires
        ids_ascend::<loop_artifact::Model>(rows),
        0 <= i < rows.len(),
        live_of(issue_id, kind)(rows[i]),
    ensures
        live_artifact(rows, issue_id, kind) is Some,
        rows[i].id <= live_artifact(rows, issue_id, kind)->Some_0,
    decreases rows.len(),
{
    reveal(Seq::filter);
    let cond = live_of(issue_id, kind);
    let front = rows.drop_last();
    let n = rows.len() - 1;
    if cond(rows[n]) {
        assert(rows.filter(cond).last() == rows[n]);
        if i < n {
            assert(rows[i].id < rows[n].id);
        }
    } else {
        assert(i < n);
        assert(front[i] == rows[i]);
        assert(ids_ascend::<loop_artifact::Model>(front)) by {
            assert forall|a: int, b: int| 0 <= a < b < front.len() implies (#[trigger] front[a]).id
                < (#[trigger] front[b]).id by {
                assert(rows[a].id < rows[b].id);
            }
        }
        lemma_live_artifact_is_latest(front, issue_id, kind, i);
    }
}

} // verus!
