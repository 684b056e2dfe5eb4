use loop_engine::clock::Timestamp;
use loop_engine::entities::loop_artifact::{self, ArtifactKind, ArtifactStatus, ContributionKind};
use loop_engine::entities::loop_artifact_revision::ActorKind;
use loop_engine::entities::loop_inbox_item::{self, InboxKind, InboxStatus};
use loop_engine::entities::loop_issue::{self, IssueStatus};
use loop_engine::entities::loop_iteration::{
    self, IterationOutcome, IterationStatus, LaunchedBy, Stage,
};
use loop_engine::entities::loop_link::LinkKind;
use loop_engine::entities::loop_link;
use loop_engine::error::DbError;
use loop_engine::json::shallow_merge;
use loop_engine::loop_service::coverage::{create_coverage, list_for_issue, to_coverage_row};
use loop_engine::loop_service::inbox::{
    aggregate_all, aggregate_for_issues, aggregate_for_space, attention_class, failure_sig,
    fold_payload, get_inbox,
    handle_inbox, has_pending_oscillation_card, make_key, resolve_blocked_cards_except_oscillation,
    resolve_task_blocker_cards, tally, task_blocker_failure_sig, upsert_inbox, AttentionClass,
    InboxUpsert,
};
use loop_engine::loop_service::iteration::{
    get_iteration, list_iterations, list_iterations_for_space, set_iteration_outcome,
    to_iteration_row,
};
use loop_engine::loop_service::link::{create_link, to_link_row};
use loop_engine::loop_service::subject::{
    classify_subject, list_inbox, live_artifact_by_issue, parse_subject_key, SubjectResolution,
};
use loop_engine::table::Table;
use serde_json::Value;

fn at(secs: i64) -> Timestamp {
    Timestamp { secs, nanos: 0 }
}

fn obj(pairs: &[(&str, Value)]) -> Value {
    let mut m = serde_json::Map::new();
    for (k, v) in pairs {
        m.insert(k.to_string(), v.clone());
    }
    Value::Object(m)
}

fn issue_row(id: i32, space_id: i32, seq_no: i32) -> loop_issue::Model {
    loop_issue::Model {
        id,
        space_id,
        seq_no,
        title: "I".to_string(),
        status: IssueStatus::Running,
        pause_reason: None,
        token_budget: None,
        token_used: 0,
        worktree_folder_id: None,
        base_branch: None,
        base_commit: None,
        execution_mode: None,
        fan_in_manifest: None,
        fan_in_resolver_tip: None,
        created_at: at(0),
        updated_at: at(0),
        ended_at: None,
    }
}

fn artifact_row(
    id: i32,
    issue_id: i32,
    kind: ArtifactKind,
    title: &str,
    status: ArtifactStatus,
) -> loop_artifact::Model {
    loop_artifact::Model {
        id,
        space_id: 1,
        issue_id,
        kind,
        title: title.to_string(),
        status,
        origin: ActorKind::Agent,
        produced_by_iteration_id: None,
        verdict: None,
        attempt: 0,
        last_failure_sig: None,
        fan_in_commit: None,
        sort: 0,
        created_at: at(0),
        updated_at: at(0),
        contribution_kind: ContributionKind::Delta,
        oscillation_count: 0,
        recent_failure_sig: None,
    }
}

fn iteration_row(id: i32, issue_id: i32, target: Option<i32>) -> loop_iteration::Model {
    loop_iteration::Model {
        id,
        space_id: 1,
        issue_id,
        stage: Stage::Implement,
        target_artifact_id: target,
        slot_no: None,
        conversation_id: Some(40 + id),
        capability_token: "tok".to_string(),
        status: IterationStatus::Running,
        launched_by: LaunchedBy::Engine,
        attempt: 2,
        tokens_used: 7,
        tokens_pending: false,
        context_manifest: None,
        created_at: at(3),
        started_at: Some(at(4)),
        ended_at: None,
        outcome: None,
        agent_completion_reason: None,
    }
}

fn pending(
    issues: &Table<loop_issue::Model>,
    inbox: &Table<loop_inbox_item::Model>,
) -> Vec<loop_engine::models::LoopInboxItemRow> {
    list_inbox(issues, &Table::new(), &Table::new(), inbox, 1, Some(InboxStatus::Pending))
}

#[test]
fn inbox_upsert_tristate_merge_preserve_and_idempotent_handle() {
    let mut issues = Table::new();
    issues.insert(issue_row(1, 1, 1));
    let mut inbox = Table::new();
    let iid = 1;

    // First occurrence: Created, carrying a rich diagnostic payload.
    let first = upsert_inbox(
        &mut inbox,
        1,
        iid,
        None,
        InboxKind::Blocked,
        "no_progress:1",
        obj(&[
            ("failure_sig", Value::from("abc")),
            ("stage", Value::from("implement")),
            ("attempt", Value::from(1)),
        ]),
        at(1),
    );
    assert!(matches!(first, InboxUpsert::Created(_)));
    assert!(first.changed());
    let card_id = first.model().id;

    // Thinner recurrence (only `attempt`): failure_sig/stage are kept, attempt updated.
    let second = upsert_inbox(
        &mut inbox,
        1,
        iid,
        None,
        InboxKind::Blocked,
        "no_progress:1",
        obj(&[("attempt", Value::from(2))]),
        at(2),
    );
    assert!(matches!(second, InboxUpsert::Updated(_)));
    assert!(second.changed());
    assert_eq!(second.model().id, card_id, "same pending row, not a new card");
    let merged: Value = serde_json::from_str(&second.model().payload).unwrap();
    assert_eq!(merged["failure_sig"], "abc", "diagnostic field preserved");
    assert_eq!(merged["stage"], "implement", "diagnostic field preserved");
    assert_eq!(merged["attempt"], 2, "new key wins");

    // Identical recurrence: Unchanged, no event.
    let third = upsert_inbox(
        &mut inbox,
        1,
        iid,
        None,
        InboxKind::Blocked,
        "no_progress:1",
        obj(&[("attempt", Value::from(2))]),
        at(3),
    );
    assert!(matches!(third, InboxUpsert::Unchanged(_)));
    assert!(!third.changed(), "no-op recurrence must not emit");
    assert_eq!(third.into_model().id, card_id);

    // Still exactly one pending card across all three upserts.
    assert_eq!(pending(&issues, &inbox).len(), 1);

    // handle_inbox is idempotent: true on the real transition, false after.
    assert!(handle_inbox(&mut inbox, card_id, obj(&[("ok", Value::from(true))]), at(4)).unwrap());
    assert!(!handle_inbox(&mut inbox, card_id, obj(&[("ok", Value::from(true))]), at(5)).unwrap());
    assert_eq!(pending(&issues, &inbox).len(), 0);
    let handled = get_inbox(&inbox, card_id).unwrap();
    assert_eq!(handled.resolution.as_deref(), Some("{\"ok\":true}"));
    assert_eq!(handled.handled_at, Some(at(4)));

    // After the card is handled it no longer occupies the pending slot, so the same key
    // recurs as a fresh Created.
    let reopened = upsert_inbox(
        &mut inbox,
        1,
        iid,
        None,
        InboxKind::Blocked,
        "no_progress:1",
        obj(&[("attempt", Value::from(3))]),
        at(6),
    );
    assert!(matches!(reopened, InboxUpsert::Created(_)));
}

#[test]
fn handling_a_missing_card_is_an_error() {
    let mut inbox: Table<loop_inbox_item::Model> = Table::new();
    match handle_inbox(&mut inbox, -12, Value::Null, at(1)) {
        Err(DbError::RecordNotFound(m)) => assert_eq!(m, "loop_inbox_item -12"),
        other => panic!("unexpected {other:?}"),
    }
    assert!(get_inbox(&inbox, 1).is_none());
}

#[test]
fn upsert_keeps_an_unreadable_payload_only_until_it_recurs() {
    let mut inbox = Table::new();
    upsert_inbox(&mut inbox, 1, 1, None, InboxKind::Blocked, "k:1", obj(&[]), at(1));
    inbox.rows[0].payload = "not json".to_string();
    let r = upsert_inbox(
        &mut inbox,
        1,
        1,
        Some(9),
        InboxKind::Blocked,
        "k:1",
        obj(&[("a", Value::from(1))]),
        at(2),
    );
    assert!(matches!(r, InboxUpsert::Updated(_)));
    assert_eq!(inbox.rows[0].payload, "{\"a\":1}");
    // Another kind or another key is another card.
    for (kind, key) in [(InboxKind::Approval, "k:1"), (InboxKind::Blocked, "k:2")] {
        let r = upsert_inbox(&mut inbox, 1, 1, None, kind, key, obj(&[]), at(3));
        assert!(matches!(r, InboxUpsert::Created(_)));
    }
    assert_eq!(inbox.rows.len(), 3);
}

#[test]
fn a_payload_that_begins_like_raw_text_does_not_read_back() {
    // The JSON parser takes such an object for the text that its member holds.
    let payload = obj(&[("$serde_json::private::RawValue", Value::from("1"))]);
    let mut inbox = Table::new();
    let file = |inbox: &mut Table<loop_inbox_item::Model>| {
        upsert_inbox(inbox, 1, 1, None, InboxKind::Blocked, "k:1", payload.clone(), at(1))
    };
    assert!(matches!(file(&mut inbox), InboxUpsert::Created(_)));
    assert!(matches!(file(&mut inbox), InboxUpsert::Updated(_)));
    assert_eq!(inbox.rows.len(), 1);
}

#[test]
fn a_recurrence_needs_no_new_id() {
    let mut inbox = Table::new();
    upsert_inbox(&mut inbox, 1, 1, None, InboxKind::Blocked, "k:1", obj(&[]), at(1));
    inbox.next_id = i32::MAX;
    let again = obj(&[("a", Value::from(1))]);
    let r = upsert_inbox(&mut inbox, 1, 1, None, InboxKind::Blocked, "k:1", again, at(2));
    assert!(matches!(r, InboxUpsert::Updated(_)));
    assert_eq!(inbox.next_id, i32::MAX);
}

#[test]
fn shallow_merge_joins_objects_and_replaces_the_rest() {
    let base = obj(&[("a", Value::from(1)), ("b", obj(&[("x", Value::from(1))]))]);
    let new = obj(&[("b", obj(&[("y", Value::from(2))])), ("c", Value::Null)]);
    let merged = shallow_merge(base.clone(), new);
    assert_eq!(
        merged,
        obj(&[
            ("a", Value::from(1)),
            ("b", obj(&[("y", Value::from(2))])),
            ("c", Value::Null),
        ])
    );
    assert_eq!(shallow_merge(base.clone(), Value::from(3)), Value::from(3));
    assert_eq!(shallow_merge(Value::from(3), base.clone()), base);
}

#[test]
fn payloads_fold_and_name_their_signature() {
    let existing = obj(&[("failure_sig", Value::from("abc")), ("attempt", Value::from(1))]);
    assert_eq!(fold_payload(existing.clone(), obj(&[("attempt", Value::from(1))])), None);
    let folded = fold_payload(existing.clone(), obj(&[("attempt", Value::from(2))])).unwrap();
    assert_eq!(folded["failure_sig"], "abc");
    assert_eq!(folded["attempt"], 2);
    assert_eq!(fold_payload(existing.clone(), Value::Null), Some(Value::Null));
    assert_eq!(failure_sig(&existing).as_deref(), Some("abc"));
    assert_eq!(failure_sig(&obj(&[("failure_sig", Value::from(3))])), None);
    assert_eq!(failure_sig(&Value::from("failure_sig")), None);
}

#[test]
fn attention_aggregation_buckets_pending_by_class() {
    let mut issues = Table::new();
    issues.insert(issue_row(1, 1, 1));
    issues.insert(issue_row(2, 1, 2));
    let mut inbox = Table::new();

    // issue 1: 2 blocking (approval, question) + 1 notice (reflection_failed).
    for (kind, key) in [
        (InboxKind::Approval, "design:1"),
        (InboxKind::Question, "question:1"),
        (InboxKind::ReflectionFailed, "reflect_failed:1"),
    ] {
        upsert_inbox(&mut inbox, 1, 1, None, kind, key, obj(&[]), at(1));
    }
    // issue 2: 2 blocking (blocked, budget) + 1 approval we then mark handled.
    for (kind, key) in [
        (InboxKind::Blocked, "no_progress:9"),
        (InboxKind::BudgetExhausted, "budget:2"),
        (InboxKind::Approval, "merge:2"),
    ] {
        upsert_inbox(&mut inbox, 1, 2, None, kind, key, obj(&[]), at(1));
    }
    let merge_id = pending(&issues, &inbox)
        .into_iter()
        .find(|c| c.subject_key == "merge:2")
        .unwrap()
        .id;
    handle_inbox(&mut inbox, merge_id, obj(&[("ok", Value::from(true))]), at(2)).unwrap();

    // Per-space: blocking = approval+question+blocked+budget = 4; notice = 1; the handled
    // approval is excluded.
    let (blocking, notice) = aggregate_for_space(&inbox, 1);
    assert_eq!((blocking, notice), (4, 1));

    // Per-issue buckets.
    let per_issue = aggregate_for_issues(&inbox, &vec![1, 2, 3]);
    assert_eq!(per_issue.get(&1).copied(), Some((2, 1)));
    assert_eq!(per_issue.get(&2).copied(), Some((2, 0)));
    assert_eq!(per_issue.get(&3), None);

    // Cross-space rollup.
    let all = aggregate_all(&inbox);
    assert_eq!(all.len(), 1);
    assert_eq!(all[0].space_id, 1);
    assert_eq!((all[0].blocking, all[0].notice), (4, 1));
}

#[test]
fn aggregate_all_is_sorted_by_space() {
    let mut inbox = Table::new();
    for (space, key) in [(7, "a:1"), (3, "a:2"), (5, "a:3"), (3, "a:4")] {
        upsert_inbox(&mut inbox, space, space, None, InboxKind::Blocked, key, obj(&[]), at(1));
    }
    let all = aggregate_all(&inbox);
    let seen: Vec<(i32, i64, i64)> =
        all.iter().map(|s| (s.space_id, s.blocking, s.notice)).collect();
    assert_eq!(seen, vec![(3, 2, 0), (5, 1, 0), (7, 1, 0)]);
    assert!(aggregate_all(&Table::new()).is_empty());
}

#[test]
fn kinds_are_classified_and_tallied() {
    assert_eq!(attention_class(InboxKind::Question), AttentionClass::Blocking);
    assert_eq!(attention_class(InboxKind::ReflectionFailed), AttentionClass::Notice);
    let kinds = vec![
        InboxKind::Approval,
        InboxKind::ReflectionFailed,
        InboxKind::BudgetExhausted,
        InboxKind::Blocked,
    ];
    assert_eq!(tally(&kinds), (3, 1));
}

#[test]
fn inbox_subject_resolution_by_family() {
    let iid = 1;
    let mut issues = Table::new();
    issues.insert(issue_row(iid, 1, 6));
    let mut artifacts = Table::new();
    artifacts.insert(artifact_row(1, iid, ArtifactKind::Issue, "I", ArtifactStatus::Done));
    artifacts.insert(artifact_row(
        2,
        iid,
        ArtifactKind::Design,
        "Design A",
        ArtifactStatus::AwaitingApproval,
    ));
    artifacts.insert(artifact_row(3, iid, ArtifactKind::Result, "Result A", ArtifactStatus::Done));
    artifacts.insert(artifact_row(4, iid, ArtifactKind::Task, "Task A", ArtifactStatus::Pending));
    let (design, result, task) = (2, 3, 4);
    let mut iterations = Table::new();
    iterations.insert(iteration_row(1, iid, Some(task)));
    let iter = 1;

    // One card per subject family.
    let cards = [
        // task-level: payload.task_artifact_id wins over the (deliberately wrong) suffix.
        (
            InboxKind::Blocked,
            "no_progress:99999".to_string(),
            None,
            obj(&[("task_artifact_id", Value::from(task))]),
        ),
        // design-level: suffix is the ISSUE id; resolves to the design artifact.
        (
            InboxKind::Approval,
            format!("design:{iid}"),
            None,
            obj(&[("gate", Value::from("design"))]),
        ),
        // result-level: suffix is the ISSUE id; resolves to the result artifact.
        (
            InboxKind::Approval,
            format!("merge:{iid}"),
            None,
            obj(&[("gate", Value::from("merge"))]),
        ),
        // iteration-level: resolves to the iteration's target (the task).
        (InboxKind::Blocked, format!("dispatch_failed:{iter}"), Some(iter), obj(&[])),
        // issue-level: no backing artifact.
        (InboxKind::BudgetExhausted, format!("budget:{iid}"), None, obj(&[])),
        // unknown prefix: no backing artifact.
        (InboxKind::Blocked, "mystery:7".to_string(), None, obj(&[])),
    ];
    let mut inbox = Table::new();
    for (kind, key, it, payload) in cards {
        upsert_inbox(&mut inbox, 1, iid, it, kind, &key, payload, at(1));
    }

    let rows =
        list_inbox(&issues, &artifacts, &iterations, &inbox, 1, Some(InboxStatus::Pending));
    let by_key = |k: &str| rows.iter().find(|r| r.subject_key == k).unwrap();

    let np = by_key("no_progress:99999");
    assert_eq!(np.subject_artifact_id, Some(task), "payload id wins over suffix");
    assert_eq!(np.subject_title.as_deref(), Some("Task A"));

    let d = by_key(&format!("design:{iid}"));
    assert_eq!(d.subject_artifact_id, Some(design), "design id, NOT issue id");
    assert_eq!(d.subject_title.as_deref(), Some("Design A"));

    let m = by_key(&format!("merge:{iid}"));
    assert_eq!(m.subject_artifact_id, Some(result));
    assert_eq!(m.subject_title.as_deref(), Some("Result A"));

    let df = by_key(&format!("dispatch_failed:{iter}"));
    assert_eq!(df.subject_artifact_id, Some(task), "iteration target");

    assert_eq!(by_key(&format!("budget:{iid}")).subject_artifact_id, None);
    assert_eq!(by_key("mystery:7").subject_artifact_id, None);

    // Newest first, with the number of the issue.
    assert_eq!(rows.iter().map(|r| r.id).collect::<Vec<_>>(), vec![6, 5, 4, 3, 2, 1]);
    assert!(rows.iter().all(|r| r.issue_seq == 6));
    assert_eq!(rows[5].payload["task_artifact_id"], task);
}

#[test]
fn listing_filters_by_space_and_status() {
    let mut issues = Table::new();
    issues.insert(issue_row(1, 2, 5));
    let mut inbox = Table::new();
    upsert_inbox(&mut inbox, 1, 1, None, InboxKind::Blocked, "a:1", obj(&[]), at(1));
    upsert_inbox(&mut inbox, 2, 1, None, InboxKind::Blocked, "a:2", obj(&[]), at(1));
    upsert_inbox(&mut inbox, 1, 1, None, InboxKind::Blocked, "a:3", obj(&[]), at(1));
    handle_inbox(&mut inbox, 1, Value::Null, at(2)).unwrap();
    inbox.rows[2].payload = "{".to_string();
    let list = |status| {
        list_inbox(&issues, &Table::new(), &Table::new(), &inbox, 1, status)
            .iter()
            .map(|r| r.id)
            .collect::<Vec<_>>()
    };
    assert_eq!(list(None), vec![3, 1]);
    assert_eq!(list(Some(InboxStatus::Handled)), vec![1]);
    assert_eq!(list(Some(InboxStatus::Pending)), vec![3]);
    let rows = list_inbox(&issues, &Table::new(), &Table::new(), &inbox, 1, None);
    // The issue is of another space, so its number is not known here; a payload that does
    // not parse reads as null.
    assert_eq!(rows[0].issue_seq, 0);
    assert_eq!(rows[0].payload, Value::Null);
}

#[test]
fn subject_keys_split_at_the_first_colon() {
    assert_eq!(parse_subject_key("no_progress:42"), Some(("no_progress", 42)));
    assert_eq!(parse_subject_key("a:-7"), Some(("a", -7)));
    assert_eq!(parse_subject_key("a:+7"), Some(("a", 7)));
    assert_eq!(parse_subject_key(":0012"), Some(("", 12)));
    assert_eq!(parse_subject_key("a:2147483647"), Some(("a", i32::MAX)));
    assert_eq!(parse_subject_key("a:-2147483648"), Some(("a", i32::MIN)));
    for bad in ["a", "a:", "a:x", "a:1:2", "a: 1", "a:2147483648", "a:-2147483649", "a:-", "a:+"] {
        assert_eq!(parse_subject_key(bad), None, "{bad}");
    }
    assert_eq!(parse_subject_key(&make_key("design", -31)), Some(("design", -31)));
}

#[test]
fn subjects_are_classified_by_prefix() {
    let none = obj(&[]);
    let c = |key: &str, payload: &Value, it| classify_subject(key, payload, it);
    assert_eq!(c("oscillation:5", &none, None), SubjectResolution::Artifact(5));
    let node = obj(&[("node_artifact_id", Value::from(8))]);
    assert_eq!(c("infra_failure:5", &node, None), SubjectResolution::Artifact(8));
    // The first id that is named counts, even when it is no number.
    let both = obj(&[("task_artifact_id", Value::from("x")), ("node_artifact_id", Value::from(8))]);
    assert_eq!(c("validation_blocked:5", &both, None), SubjectResolution::Artifact(5));
    let float = obj(&[("task_artifact_id", Value::from(1.0))]);
    assert_eq!(c("no_progress:5", &float, None), SubjectResolution::Artifact(5));
    let wide = obj(&[("task_artifact_id", Value::from(4294967299i64))]);
    assert_eq!(c("no_progress:5", &wide, None), SubjectResolution::Artifact(3));
    assert_eq!(c("no_progress:5", &Value::Null, None), SubjectResolution::Artifact(5));
    assert_eq!(c("design_rejected:5", &none, None), SubjectResolution::DesignOf(5));
    for key in ["merge:5", "merge_blocked:5", "merge_rejected:5", "finalize_dirty:5",
        "unverifiable:5", "integration_gap:5"] {
        assert_eq!(c(key, &none, Some(1)), SubjectResolution::ResultOf(5));
    }
    assert_eq!(c("stalled:5", &none, None), SubjectResolution::IterationTarget(5));
    assert_eq!(c("stalled:5", &none, Some(6)), SubjectResolution::IterationTarget(6));
    assert_eq!(c("question:5", &none, Some(6)), SubjectResolution::IterationTarget(6));
    assert_eq!(c("question:5", &none, None), SubjectResolution::NoArtifact);
    assert_eq!(c("no_progress", &node, None), SubjectResolution::NoArtifact);
    assert_eq!(c("finalize_dirty:issue", &none, None), SubjectResolution::NoArtifact);
}

#[test]
fn live_artifact_is_the_latest_that_is_not_dead() {
    let mut artifacts = Table::new();
    for (id, status) in [
        (1, ArtifactStatus::Done),
        (2, ArtifactStatus::AwaitingApproval),
        (3, ArtifactStatus::Superseded),
        (4, ArtifactStatus::Cancelled),
    ] {
        artifacts.insert(artifact_row(id, 1, ArtifactKind::Design, "D", status));
    }
    assert_eq!(live_artifact_by_issue(&artifacts, 1, ArtifactKind::Design), Some(2));
    assert_eq!(live_artifact_by_issue(&artifacts, 1, ArtifactKind::Result), None);
    assert_eq!(live_artifact_by_issue(&artifacts, 2, ArtifactKind::Design), None);
}

#[test]
fn blocker_cards_of_a_task_are_found_and_resolved() {
    let mut inbox = Table::new();
    let sig = |s: &str| obj(&[("failure_sig", Value::from(s))]);
    let mut file = |issue, kind, key: &str, payload| {
        upsert_inbox(&mut inbox, 1, issue, None, kind, key, payload, at(1));
    };
    file(1, InboxKind::Blocked, "no_progress:4", sig("first"));
    file(1, InboxKind::Blocked, "oscillation:4", sig("latest"));
    file(1, InboxKind::Blocked, "no_progress:5", sig("other task"));
    file(2, InboxKind::Blocked, "no_progress:4", sig("other issue"));
    file(1, InboxKind::Blocked, "merge_blocked:1", obj(&[]));
    assert_eq!(task_blocker_failure_sig(&inbox, 1, 4).as_deref(), Some("latest"));
    assert_eq!(task_blocker_failure_sig(&inbox, 1, 9), None);
    assert!(has_pending_oscillation_card(&inbox, 1, 4));
    assert!(!has_pending_oscillation_card(&inbox, 1, 5));

    // The sweep of a retry spares oscillation cards and other issues.
    let mut swept = Table::new();
    for c in &inbox.rows {
        swept.insert(c.clone());
    }
    assert_eq!(resolve_blocked_cards_except_oscillation(&mut swept, 1, Value::Null, at(2)), 3);
    assert!(has_pending_oscillation_card(&swept, 1, 4));
    assert_eq!(swept.rows[3].status, InboxStatus::Pending);
    assert_eq!(swept.rows[0].resolution.as_deref(), Some("null"));

    assert_eq!(
        resolve_task_blocker_cards(&mut inbox, 1, 4, &["no_progress"], Value::Null, at(2)),
        1
    );
    assert_eq!(
        resolve_task_blocker_cards(
            &mut inbox,
            1,
            4,
            &["no_progress", "oscillation"],
            Value::Null,
            at(2)
        ),
        1
    );
    assert_eq!(task_blocker_failure_sig(&inbox, 1, 4), None);
    assert!(!has_pending_oscillation_card(&inbox, 1, 4));
}

#[test]
fn set_iteration_outcome_is_write_once() {
    let mut iterations = Table::new();
    iterations.insert(iteration_row(1, 1, None));

    // First write succeeds (outcome was NULL).
    assert!(set_iteration_outcome(&mut iterations, 1, IterationOutcome::Succeeded));
    // A later/stale write is a no-op and must NOT clobber the real outcome.
    assert!(!set_iteration_outcome(&mut iterations, 1, IterationOutcome::Abandoned));
    assert_eq!(
        get_iteration(&iterations, 1).unwrap().outcome,
        Some(IterationOutcome::Succeeded),
        "write-once preserves the real outcome"
    );
    assert!(!set_iteration_outcome(&mut iterations, 9, IterationOutcome::Abandoned));
    assert!(get_iteration(&iterations, 9).is_none());
}

#[test]
fn iterations_are_listed_newest_first_with_titles() {
    let mut issues = Table::new();
    issues.insert(issue_row(1, 1, 11));
    issues.insert(issue_row(2, 8, 12));
    let mut artifacts = Table::new();
    artifacts.insert(artifact_row(1, 1, ArtifactKind::Task, "T", ArtifactStatus::Pending));
    let mut iterations = Table::new();
    iterations.insert(iteration_row(1, 1, Some(1)));
    iterations.insert(iteration_row(2, 2, Some(7)));
    iterations.insert(iteration_row(3, 1, None));
    let mut elsewhere = iteration_row(4, 2, None);
    elsewhere.space_id = 8;
    iterations.insert(elsewhere);

    let rows = list_iterations(&issues, &artifacts, &iterations, 1);
    assert_eq!(rows.iter().map(|r| r.id).collect::<Vec<_>>(), vec![3, 1]);
    assert!(rows.iter().all(|r| r.issue_seq == 11));
    assert_eq!(rows[0].target_title, None);
    assert_eq!(rows[1].target_title.as_deref(), Some("T"));
    assert_eq!(rows[1].conversation_id, Some(41));
    assert_eq!((rows[1].attempt, rows[1].tokens_used), (2, 7));

    let rows = list_iterations_for_space(&issues, &artifacts, &iterations, 1);
    let seen: Vec<(i32, i32)> = rows.iter().map(|r| (r.id, r.issue_seq)).collect();
    // Issue 2 is of another space: its number is not known here.
    assert_eq!(seen, vec![(3, 11), (2, 0), (1, 11)]);
    let one = to_iteration_row(&iterations.rows[0], 3, Some("x".to_string()));
    assert_eq!((one.issue_seq, one.target_title.as_deref()), (3, Some("x")));
}

#[test]
fn links_are_idempotent() {
    let mut links = Table::new();
    let l1 = create_link(&mut links, 1, 2, 1, LinkKind::DerivesFrom, Some(5), at(1));
    // The first write fixes the bound revision.
    let l2 = create_link(&mut links, 1, 2, 1, LinkKind::DerivesFrom, None, at(2));
    assert_eq!(l1.id, l2.id, "link is idempotent");
    assert_eq!(l2.source_revision_id, Some(5));
    assert_eq!(links.rows.len(), 1);
    let l3 = create_link(&mut links, 1, 2, 1, LinkKind::ResultsFrom, None, at(3));
    assert_ne!(l3.id, l1.id);
    let row = to_link_row(loop_link::Model { ..l1 });
    assert_eq!(
        (row.id, row.from_artifact_id, row.to_artifact_id, row.kind, row.source_revision_id),
        (1, 2, 1, LinkKind::DerivesFrom, Some(5))
    );
}

#[test]
fn coverage_is_idempotent_and_listed_by_issue() {
    let mut artifacts = Table::new();
    artifacts.insert(artifact_row(1, 1, ArtifactKind::Task, "T1", ArtifactStatus::Pending));
    artifacts.insert(artifact_row(2, 2, ArtifactKind::Task, "T2", ArtifactStatus::Pending));
    let mut coverage = Table::new();
    let c1 = create_coverage(&mut coverage, 1, 1, 30, at(1));
    let c2 = create_coverage(&mut coverage, 1, 1, 30, at(2));
    assert_eq!(c1.id, c2.id, "coverage is idempotent");
    create_coverage(&mut coverage, 1, 2, 30, at(3));
    create_coverage(&mut coverage, 1, 9, 30, at(3));

    let cov = list_for_issue(&artifacts, &coverage, 1);
    assert_eq!(cov.len(), 1);
    assert_eq!(cov[0].task_artifact_id, 1);
    assert_eq!(cov[0].criterion_id, 30);
    assert!(list_for_issue(&artifacts, &coverage, 7).is_empty());
    assert_eq!(to_coverage_row(c1).id, c1.id);
}
