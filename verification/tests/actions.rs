use loop_engine::clock::Timestamp;
use loop_engine::entities::loop_artifact::{self, ArtifactKind, ArtifactStatus, ContributionKind};
use loop_engine::entities::loop_artifact_revision::{self, ActorKind};
use loop_engine::entities::loop_inbox_item::{InboxKind, InboxStatus};
use loop_engine::entities::loop_issue::{self, IssueStatus, PauseReason};
use loop_engine::entities::loop_iteration::{
    self, IterationOutcome, IterationStatus, LaunchedBy, Stage,
};
use loop_engine::entities::{folder, loop_space};
use loop_engine::error::LoopError;
use loop_engine::loop_engine::actions::{TriggerAction, TriggerEvent};
use loop_engine::loop_engine::exits::{ensure_running_for_exit, ForceAction, ForceEvent};
use loop_engine::loop_engine::merge::{
    merge_fault_report, MergeAction, MergeEvent, MergeOutcome,
};
use loop_engine::loop_engine::transitions::cas_issue_status;
use loop_engine::loop_engine::{Effect, LoopEngine};
use loop_engine::loop_service::inbox::{resolve_task_blocker_cards, upsert_inbox, InboxUpsert};
use loop_engine::loop_service::iteration::set_iteration_outcome;
use loop_engine::loop_service::subject::list_inbox;
use loop_engine::models::LoopInboxItemRow;
use serde_json::Value;

fn at(secs: i64) -> Timestamp {
    Timestamp { secs, nanos: 0 }
}

fn obj(pairs: &[(&str, Value)]) -> Value {
    let mut m = serde_json::Map::new();
    for (k, v) in pairs {
        m.insert(k.to_string(), v.clone());
    }
    Value::Object(m)
}

fn add_folder(engine: &mut LoopEngine, path: &str) -> i32 {
    let id = engine.folders.next_id;
    engine.folders.insert(folder::Model {
        id,
        path: path.to_string(),
        name: path.to_string(),
        last_opened_at: at(0),
        group_id: None,
        sort_order_in_group: 0,
        git_branch: None,
        is_open: false,
        updated_at: at(0),
        deleted_at: None,
    });
    id
}

fn add_issue(engine: &mut LoopEngine, space_id: i32) -> i32 {
    let id = engine.issues.next_id;
    engine.issues.insert(loop_issue::Model {
        id,
        space_id,
        seq_no: 1,
        title: "I".to_string(),
        status: IssueStatus::Pending,
        pause_reason: None,
        token_budget: None,
        token_used: 0,
        worktree_folder_id: None,
        base_branch: None,
        base_commit: None,
        execution_mode: None,
        fan_in_manifest: None,
        fan_in_resolver_tip: None,
        created_at: at(0),
        updated_at: at(0),
        ended_at: None,
    });
    id
}

fn add_artifact(
    engine: &mut LoopEngine,
    space_id: i32,
    issue_id: i32,
    kind: ArtifactKind,
    title: &str,
    status: ArtifactStatus,
) -> i32 {
    let id = engine.artifacts.next_id;
    engine.artifacts.insert(loop_artifact::Model {
        id,
        space_id,
        issue_id,
        kind,
        title: title.to_string(),
        status,
        origin: ActorKind::Agent,
        produced_by_iteration_id: None,
        verdict: None,
        attempt: 0,
        last_failure_sig: None,
        fan_in_commit: None,
        sort: 0,
        created_at: at(0),
        updated_at: at(0),
        contribution_kind: ContributionKind::Delta,
        oscillation_count: 0,
        recent_failure_sig: None,
    });
    id
}

fn add_iteration(
    engine: &mut LoopEngine,
    space_id: i32,
    issue_id: i32,
    stage: Stage,
    token: &str,
    status: IterationStatus,
) -> i32 {
    let id = engine.iterations.next_id;
    engine.iterations.insert(loop_iteration::Model {
        id,
        space_id,
        issue_id,
        stage,
        target_artifact_id: None,
        slot_no: None,
        conversation_id: None,
        capability_token: token.to_string(),
        status,
        launched_by: LaunchedBy::Engine,
        attempt: 0,
        tokens_used: 0,
        tokens_pending: false,
        context_manifest: None,
        created_at: at(0),
        started_at: None,
        ended_at: None,
        outcome: None,
        agent_completion_reason: None,
    });
    id
}

/// An engine with a single issue already running (without going through trigger).
fn setup() -> (LoopEngine, i32, i32) {
    let mut engine = LoopEngine::new();
    let folder_id = add_folder(&mut engine, "/tmp/loop-actions");
    let space_id = engine.spaces.next_id;
    engine.spaces.insert(loop_space::Model {
        id: space_id,
        name: "S".to_string(),
        folder_id,
        default_config: "{}".to_string(),
        created_at: at(0),
        updated_at: at(0),
    });
    let issue_id = add_issue(&mut engine, space_id);
    assert!(cas(&mut engine, issue_id, IssueStatus::Pending, IssueStatus::Running));
    (engine, space_id, issue_id)
}

fn cas(engine: &mut LoopEngine, issue_id: i32, from: IssueStatus, to: IssueStatus) -> bool {
    cas_issue_status(&mut engine.issues, issue_id, from, to, at(1))
}

fn issue(engine: &LoopEngine, id: i32) -> &loop_issue::Model {
    &engine.issues.rows[engine.issues.find(id).unwrap()]
}

fn issue_mut(engine: &mut LoopEngine, id: i32) -> &mut loop_issue::Model {
    let i = engine.issues.find(id).unwrap();
    &mut engine.issues.rows[i]
}

fn artifact(engine: &LoopEngine, id: i32) -> &loop_artifact::Model {
    &engine.artifacts.rows[engine.artifacts.find(id).unwrap()]
}

fn artifact_mut(engine: &mut LoopEngine, id: i32) -> &mut loop_artifact::Model {
    let i = engine.artifacts.find(id).unwrap();
    &mut engine.artifacts.rows[i]
}

fn file_card(
    engine: &mut LoopEngine,
    space_id: i32,
    issue_id: i32,
    kind: InboxKind,
    key: &str,
    payload: Value,
) -> InboxUpsert {
    upsert_inbox(&mut engine.inbox, space_id, issue_id, None, kind, key, payload, at(2))
}

fn pending(engine: &LoopEngine, space_id: i32) -> Vec<LoopInboxItemRow> {
    list_inbox(
        &engine.issues,
        &engine.artifacts,
        &engine.iterations,
        &engine.inbox,
        space_id,
        Some(InboxStatus::Pending),
    )
}

fn card_pending(engine: &LoopEngine, issue_id: i32, subject: &str) -> bool {
    engine.inbox.rows.iter().any(|c| {
        c.issue_id == issue_id && c.subject_key == subject && c.status == InboxStatus::Pending
    })
}

fn changes(engine: &LoopEngine) -> Vec<String> {
    engine
        .outbox
        .iter()
        .filter_map(|e| match e {
            Effect::Changed(c) => Some(c.kind.clone()),
            _ => None,
        })
        .collect()
}

#[test]
fn pause_sets_manual_reason_then_conflicts() {
    let (mut engine, _space, issue_id) = setup();
    engine.pause_issue(issue_id, at(3)).unwrap();

    assert_eq!(issue(&engine, issue_id).status, IssueStatus::Paused);
    assert_eq!(issue(&engine, issue_id).pause_reason, Some(PauseReason::Manual));
    assert!(matches!(engine.outbox.as_slice(), [Effect::StopDriver(id)] if *id == issue_id));

    // A second pause (no longer running) is a conflict, not a silent no-op.
    assert!(matches!(engine.pause_issue(issue_id, at(4)), Err(LoopError::Conflict)));
}

#[test]
fn resume_clears_reason_and_starts_a_driver() {
    let (mut engine, _space, issue_id) = setup();
    assert!(matches!(engine.resume_issue(issue_id, at(3)), Err(LoopError::Conflict)));
    engine.pause_issue(issue_id, at(3)).unwrap();
    engine.resume_issue(issue_id, at(4)).unwrap();
    assert_eq!(issue(&engine, issue_id).status, IssueStatus::Running);
    assert_eq!(issue(&engine, issue_id).pause_reason, None);
    assert_eq!(issue(&engine, issue_id).updated_at, at(4));
    assert!(matches!(
        engine.outbox.as_slice(),
        [Effect::StopDriver(_), Effect::StartDriver(_)]
    ));
    assert!(matches!(engine.resume_issue(99, at(5)), Err(LoopError::Conflict)));
}

#[test]
fn trigger_creates_worktree_before_running() {
    let (mut engine, space_id, running) = setup();
    let id = add_issue(&mut engine, space_id);
    match engine.trigger_issue(77, TriggerEvent::Requested, at(3)) {
        TriggerAction::Return(Err(LoopError::NotFound(m))) => assert_eq!(m, "issue 77"),
        other => panic!("unexpected {other:?}"),
    }
    assert!(matches!(
        engine.trigger_issue(running, TriggerEvent::Requested, at(3)),
        TriggerAction::Return(Err(LoopError::Conflict))
    ));
    assert!(matches!(
        engine.trigger_issue(id, TriggerEvent::Requested, at(3)),
        TriggerAction::EnsureWorktree
    ));
    assert_eq!(issue(&engine, id).status, IssueStatus::Pending);
    // A git failure leaves the issue pending.
    let failed = TriggerEvent::WorktreeEnsured(Err(LoopError::Git("no repo".to_string())));
    assert!(matches!(
        engine.trigger_issue(id, failed, at(3)),
        TriggerAction::Return(Err(LoopError::Git(_)))
    ));
    assert_eq!(issue(&engine, id).status, IssueStatus::Pending);
    assert!(matches!(
        engine.trigger_issue(id, TriggerEvent::WorktreeEnsured(Ok(())), at(4)),
        TriggerAction::Return(Ok(()))
    ));
    assert_eq!(issue(&engine, id).status, IssueStatus::Running);
    assert!(matches!(engine.outbox.as_slice(), [Effect::StartDriver(i)] if *i == id));
    assert!(matches!(
        engine.trigger_issue(id, TriggerEvent::WorktreeEnsured(Ok(())), at(5)),
        TriggerAction::Return(Err(LoopError::Conflict))
    ));
}

#[test]
fn cancel_closes_issue_and_invalidates_in_flight_token() {
    let (mut engine, space_id, issue_id) = setup();
    // An in-flight iteration holding a lease + a live capability token.
    let iter = add_iteration(
        &mut engine,
        space_id,
        issue_id,
        Stage::Triage,
        "live-token",
        IterationStatus::Running,
    );
    // A sibling that already SUCCEEDED with a real outcome: cancel must not clobber it.
    let done = add_iteration(
        &mut engine,
        space_id,
        issue_id,
        Stage::Refine,
        "done-token",
        IterationStatus::Succeeded,
    );
    assert!(set_iteration_outcome(&mut engine.iterations, done, IterationOutcome::Succeeded));

    engine.cancel_issue(issue_id, at(5)).unwrap();

    assert_eq!(issue(&engine, issue_id).status, IssueStatus::Cancelled);
    assert!(issue(&engine, issue_id).ended_at.is_some());
    let it = &engine.iterations.rows[engine.iterations.find(iter).unwrap()];
    assert_eq!(
        it.status,
        IterationStatus::Cancelled,
        "the in-flight token is invalidated so the host rejects late writes"
    );
    assert_eq!(it.outcome, Some(IterationOutcome::Abandoned));
    assert_eq!(it.ended_at, Some(at(5)));
    let done_after = &engine.iterations.rows[engine.iterations.find(done).unwrap()];
    assert_eq!(
        done_after.outcome,
        Some(IterationOutcome::Succeeded),
        "cancel must not clobber a real outcome"
    );
    assert_eq!(done_after.status, IterationStatus::Succeeded);
}

#[test]
fn cancel_works_from_paused_then_conflicts_when_terminal() {
    let (mut engine, _space, issue_id) = setup();
    engine.pause_issue(issue_id, at(3)).unwrap();
    engine.cancel_issue(issue_id, at(4)).unwrap();
    assert_eq!(issue(&engine, issue_id).status, IssueStatus::Cancelled);
    // Cancelling an already-terminal issue is a conflict.
    assert!(matches!(engine.cancel_issue(issue_id, at(5)), Err(LoopError::Conflict)));
}

#[test]
fn cancel_disconnects_live_agent() {
    let (mut engine, space_id, issue_id) = setup();
    // An in-flight running iteration bound to a conversation.
    let iter = add_iteration(
        &mut engine,
        space_id,
        issue_id,
        Stage::Triage,
        "tok",
        IterationStatus::Running,
    );
    let convo = 4242;
    let i = engine.iterations.find(iter).unwrap();
    engine.iterations.rows[i].conversation_id = Some(convo);
    let worktree = add_folder(&mut engine, "/tmp/loop-actions-worktree");
    issue_mut(&mut engine, issue_id).worktree_folder_id = Some(worktree);

    engine.cancel_issue(issue_id, at(5)).unwrap();

    // The agent is shut down before the worktree is removed.
    match engine.outbox.as_slice() {
        [Effect::StopDriver(_), Effect::Disconnect(c), Effect::RemoveCancelledWorktree { repo_path, worktree_path }] =>
        {
            assert_eq!(*c, convo);
            assert_eq!(repo_path, "/tmp/loop-actions");
            assert_eq!(worktree_path, "/tmp/loop-actions-worktree");
        }
        other => panic!("unexpected {other:?}"),
    }
}

// ── Blocked / budget escape hatches ─────────────────────────────────────

#[test]
fn retry_rearms_blocked_task_and_resolves_cards() {
    let (mut engine, space_id, issue_id) = setup();
    // A blocked task carrying a failure signature + its no-progress card.
    let task = mk_blocked_task(&mut engine, space_id, issue_id, "T");
    artifact_mut(&mut engine, task).last_failure_sig = Some("validation_failed:abc".to_string());
    cas(&mut engine, issue_id, IssueStatus::Running, IssueStatus::Blocked);
    file_card(
        &mut engine,
        space_id,
        issue_id,
        InboxKind::Blocked,
        &format!("no_progress:{task}"),
        obj(&[("reason", Value::from("max_attempts"))]),
    );

    engine.retry_issue(issue_id, Ok(2), at(5)).unwrap();

    let t = artifact(&engine, task);
    assert_eq!(t.status, ArtifactStatus::Pending, "blocked task re-armed");
    assert!(t.last_failure_sig.is_none(), "failure signature cleared");
    assert_eq!(issue(&engine, issue_id).status, IssueStatus::Running);
    assert!(pending(&engine, space_id).is_empty(), "blocking card resolved");
    assert_eq!(engine.inbox.rows[0].resolution.as_deref(), Some("{\"action\":\"retry\"}"));
    assert_eq!(engine.inbox.rows[0].handled_at, Some(at(5)));
    assert_eq!(changes(&engine), vec!["retried"]);

    // Retrying an issue that is no longer blocked is a conflict.
    assert!(matches!(engine.retry_issue(issue_id, Ok(2), at(6)), Err(LoopError::Conflict)));
    assert_eq!(changes(&engine), vec!["retried", "retry_unavailable"]);
}

fn mk_blocked_task(engine: &mut LoopEngine, space_id: i32, issue_id: i32, title: &str) -> i32 {
    add_artifact(
        engine,
        space_id,
        issue_id,
        ArtifactKind::Task,
        title,
        ArtifactStatus::Blocked,
    )
}

fn set_oscillating(engine: &mut LoopEngine, task: i32, count: i32) {
    let t = artifact_mut(engine, task);
    t.oscillation_count = count;
    t.recent_failure_sig = Some("validation_failed:zzz".to_string());
}

#[test]
fn retry_excludes_oscillating_tasks_and_keeps_their_card() {
    let (mut engine, space_id, issue_id) = setup();
    // One ordinary blocked task + one oscillating (count >= limit 2).
    let ordinary = mk_blocked_task(&mut engine, space_id, issue_id, "ord");
    let osc = mk_blocked_task(&mut engine, space_id, issue_id, "osc");
    set_oscillating(&mut engine, osc, 2);
    for (t, prefix) in [(ordinary, "no_progress"), (osc, "oscillation")] {
        file_card(
            &mut engine,
            space_id,
            issue_id,
            InboxKind::Blocked,
            &format!("{prefix}:{t}"),
            obj(&[("reason", Value::from(prefix))]),
        );
    }
    cas(&mut engine, issue_id, IssueStatus::Running, IssueStatus::Blocked);

    engine.retry_issue(issue_id, Ok(2), at(5)).unwrap();

    let ord = artifact(&engine, ordinary);
    assert_eq!(ord.status, ArtifactStatus::Pending, "ordinary task re-armed");
    assert_eq!(ord.attempt, 0, "attempt budget reset");
    let x = artifact(&engine, osc);
    assert_eq!(x.status, ArtifactStatus::Blocked, "oscillating task NOT re-armed");
    assert_eq!(x.oscillation_count, 2, "oscillation columns preserved across retry");
    assert!(!card_pending(&engine, issue_id, &format!("no_progress:{ordinary}")));
    assert!(
        card_pending(&engine, issue_id, &format!("oscillation:{osc}")),
        "oscillation card survives a plain retry"
    );
}

#[test]
fn retry_all_oscillating_is_conflict() {
    let (mut engine, space_id, issue_id) = setup();
    let osc = mk_blocked_task(&mut engine, space_id, issue_id, "osc");
    set_oscillating(&mut engine, osc, 2);
    cas(&mut engine, issue_id, IssueStatus::Running, IssueStatus::Blocked);
    assert!(matches!(engine.retry_issue(issue_id, Ok(2), at(5)), Err(LoopError::Conflict)));
    assert_eq!(
        artifact(&engine, osc).status,
        ArtifactStatus::Blocked,
        "issue untouched on conflict"
    );
    assert_eq!(issue(&engine, issue_id).status, IssueStatus::Blocked);
    // A limit of zero turns the breaker off.
    engine.retry_issue(issue_id, Ok(0), at(6)).unwrap();
    assert_eq!(artifact(&engine, osc).status, ArtifactStatus::Pending);
}

#[test]
fn retry_reports_missing_issue_and_config_error() {
    let (mut engine, _space, issue_id) = setup();
    match engine.retry_issue(99, Ok(2), at(5)) {
        Err(LoopError::NotFound(m)) => assert_eq!(m, "issue 99"),
        other => panic!("unexpected {other:?}"),
    }
    cas(&mut engine, issue_id, IssueStatus::Running, IssueStatus::Blocked);
    let bad = Err(LoopError::InvalidInput("config".to_string()));
    assert!(matches!(
        engine.retry_issue(issue_id, bad, at(5)),
        Err(LoopError::InvalidInput(_))
    ));
    assert_eq!(issue(&engine, issue_id).status, IssueStatus::Blocked);
}

#[test]
fn retry_issue_level_block_redrives() {
    let (mut engine, space_id, issue_id) = setup();
    // No blocked task: an issue-level block (e.g. finalize dirty).
    file_card(
        &mut engine,
        space_id,
        issue_id,
        InboxKind::Blocked,
        "finalize_dirty:issue",
        obj(&[("reason", Value::from("finalize_dirty"))]),
    );
    cas(&mut engine, issue_id, IssueStatus::Running, IssueStatus::Blocked);

    engine.retry_issue(issue_id, Ok(2), at(5)).unwrap();

    assert_eq!(
        issue(&engine, issue_id).status,
        IssueStatus::Running,
        "issue-level block still re-drives on retry"
    );
    assert!(!card_pending(&engine, issue_id, "finalize_dirty:issue"));
}

fn force(engine: &mut LoopEngine, task_id: i32) -> Result<(), LoopError> {
    match engine.force_complete_task(ForceEvent::Requested { task_id }, at(5)) {
        ForceAction::Return(r) => r,
        other => panic!("unexpected {other:?}"),
    }
}

#[test]
fn force_complete_only_for_empty_diff_cause() {
    let (mut engine, space_id, issue_id) = setup();
    let task = mk_blocked_task(&mut engine, space_id, issue_id, "t");
    cas(&mut engine, issue_id, IssueStatus::Running, IssueStatus::Blocked);

    // Wrong cause (validation failure) is rejected even though the tree looks clean. The
    // guard reads the pending blocker CARD's `failure_sig`, NOT the artifact column.
    file_card(
        &mut engine,
        space_id,
        issue_id,
        InboxKind::Blocked,
        &format!("validation_blocked:{task}"),
        obj(&[("failure_sig", Value::from("validation_failed:abc"))]),
    );
    assert!(matches!(force(&mut engine, task), Err(LoopError::Conflict)));
    assert_eq!(artifact(&engine, task).status, ArtifactStatus::Blocked);
    assert_eq!(changes(&engine), vec!["force_complete_unavailable"]);

    // Re-blocked for a genuine empty diff: resolve the stale validation card and file the
    // `no_progress` card. Now force-complete accepts it as a no-op.
    let n = resolve_task_blocker_cards(
        &mut engine.inbox,
        issue_id,
        task,
        &["validation_blocked"],
        obj(&[]),
        at(5),
    );
    assert_eq!(n, 1);
    file_card(
        &mut engine,
        space_id,
        issue_id,
        InboxKind::Blocked,
        &format!("no_progress:{task}"),
        obj(&[
            ("failure_sig", Value::from("empty_diff:implement")),
            ("reason", Value::from("max_attempts")),
        ]),
    );
    artifact_mut(&mut engine, task).fan_in_commit = Some("stale".to_string());
    force(&mut engine, task).unwrap();

    let t = artifact(&engine, task);
    assert_eq!(t.status, ArtifactStatus::Done);
    assert_eq!(t.contribution_kind, ContributionKind::NoOp);
    assert!(t.fan_in_commit.is_none(), "force-complete records a no-op (NULL commit)");
    assert_eq!(issue(&engine, issue_id).status, IssueStatus::Running);
    assert!(!card_pending(&engine, issue_id, &format!("no_progress:{task}")));
    assert_eq!(
        engine.inbox.rows[1].resolution.as_deref(),
        Some("{\"action\":\"force_complete\",\"actor\":\"human\"}")
    );
}

#[test]
fn force_complete_checks_the_branch_of_a_parallel_task() {
    let (mut engine, space_id, issue_id) = setup();
    let task = mk_blocked_task(&mut engine, space_id, issue_id, "t");
    issue_mut(&mut engine, issue_id).execution_mode = Some("parallel".to_string());
    file_card(
        &mut engine,
        space_id,
        issue_id,
        InboxKind::Blocked,
        &format!("no_progress:{task}"),
        obj(&[("failure_sig", Value::from("empty_diff:implement:x"))]),
    );
    for (at_base, ok) in [(Some(false), false), (Some(true), true)] {
        let job = match engine.force_complete_task(ForceEvent::Requested { task_id: task }, at(5)) {
            ForceAction::CheckBranch(job) => job,
            other => panic!("unexpected {other:?}"),
        };
        assert_eq!(job.issue_id, issue_id);
        let event = ForceEvent::BranchChecked { job, at_base: Ok(at_base) };
        match engine.force_complete_task(event, at(6)) {
            ForceAction::Return(r) => assert_eq!(r.is_ok(), ok),
            other => panic!("unexpected {other:?}"),
        }
    }
    assert_eq!(artifact(&engine, task).status, ArtifactStatus::Done);
    match engine.force_complete_task(ForceEvent::Requested { task_id: 99 }, at(7)) {
        ForceAction::Return(Err(LoopError::NotFound(m))) => assert_eq!(m, "task 99"),
        other => panic!("unexpected {other:?}"),
    }
}

#[test]
fn force_complete_rejects_terminal_issue() {
    let (mut engine, space_id, issue_id) = setup();
    let task = mk_blocked_task(&mut engine, space_id, issue_id, "t");
    // A valid empty-diff blocker card so the cause guard passes: the rejection must come
    // from the terminal-issue check, not the cause guard.
    file_card(
        &mut engine,
        space_id,
        issue_id,
        InboxKind::Blocked,
        &format!("no_progress:{task}"),
        obj(&[("failure_sig", Value::from("empty_diff:implement"))]),
    );
    issue_mut(&mut engine, issue_id).status = IssueStatus::Cancelled;
    assert!(matches!(force(&mut engine, task), Err(LoopError::Conflict)));
    assert_eq!(
        artifact(&engine, task).status,
        ArtifactStatus::Blocked,
        "task untouched when the issue can't be anchored"
    );
    assert!(engine.outbox.is_empty());
}

#[test]
fn override_oscillation_rearms_and_clears_cards() {
    let (mut engine, space_id, issue_id) = setup();
    let task = mk_blocked_task(&mut engine, space_id, issue_id, "t");
    set_oscillating(&mut engine, task, 2);
    file_card(
        &mut engine,
        space_id,
        issue_id,
        InboxKind::Blocked,
        &format!("oscillation:{task}"),
        obj(&[("reason", Value::from("oscillation"))]),
    );
    cas(&mut engine, issue_id, IssueStatus::Running, IssueStatus::Blocked);

    engine.override_oscillation(task, at(5)).unwrap();

    let t = artifact(&engine, task);
    assert_eq!(t.status, ArtifactStatus::Pending, "task re-armed");
    assert_eq!(t.attempt, 0);
    assert_eq!(t.oscillation_count, 0, "oscillation epoch cleared");
    assert!(t.recent_failure_sig.is_none());
    assert_eq!(issue(&engine, issue_id).status, IssueStatus::Running);
    assert!(
        !card_pending(&engine, issue_id, &format!("oscillation:{task}")),
        "oscillation card resolved by the override"
    );
    assert_eq!(changes(&engine), vec!["oscillation_override"]);
    assert!(matches!(engine.override_oscillation(task, at(6)), Err(LoopError::Conflict)));
    assert!(matches!(engine.override_oscillation(99, at(6)), Err(LoopError::NotFound(_))));
}

/// Override is for breaker-promoted tasks ONLY: a blocked task with no pending
/// `oscillation:` card is rejected.
#[test]
fn override_rejects_non_oscillating_blocked_task() {
    let (mut engine, space_id, issue_id) = setup();
    let task = mk_blocked_task(&mut engine, space_id, issue_id, "t");
    file_card(
        &mut engine,
        space_id,
        issue_id,
        InboxKind::Blocked,
        &format!("no_progress:{task}"),
        obj(&[("failure_sig", Value::from("empty_diff:implement"))]),
    );
    cas(&mut engine, issue_id, IssueStatus::Running, IssueStatus::Blocked);

    assert!(matches!(engine.override_oscillation(task, at(5)), Err(LoopError::Conflict)));
    assert_eq!(
        artifact(&engine, task).status,
        ArtifactStatus::Blocked,
        "task untouched without a pending oscillation card"
    );
}

/// If the blocker card was resolved meanwhile, force-complete must reject rather than
/// no-op a task whose block is no longer a live empty diff.
#[test]
fn force_complete_rejects_when_blocker_card_resolved() {
    let (mut engine, space_id, issue_id) = setup();
    let task = mk_blocked_task(&mut engine, space_id, issue_id, "t");
    cas(&mut engine, issue_id, IssueStatus::Running, IssueStatus::Blocked);
    file_card(
        &mut engine,
        space_id,
        issue_id,
        InboxKind::Blocked,
        &format!("no_progress:{task}"),
        obj(&[("failure_sig", Value::from("empty_diff:implement"))]),
    );
    resolve_task_blocker_cards(
        &mut engine.inbox,
        issue_id,
        task,
        &["no_progress"],
        obj(&[]),
        at(4),
    );

    assert!(matches!(force(&mut engine, task), Err(LoopError::Conflict)));
    assert_eq!(
        artifact(&engine, task).status,
        ArtifactStatus::Blocked,
        "a vanished blocker card blocks force-complete"
    );
}

/// An exit action re-anchors from the LIVE row: a re-park may have flipped it blocked
/// after the caller read it.
#[test]
fn ensure_running_for_exit_reanchors_stale_running_model() {
    let (mut engine, _space_id, issue_id) = setup();
    // A model captured while the issue was running ...
    let stale = issue(&engine, issue_id).clone();
    assert_eq!(stale.status, IssueStatus::Running);
    // ... while the live row was re-parked to blocked by a driver.
    cas(&mut engine, issue_id, IssueStatus::Running, IssueStatus::Blocked);

    ensure_running_for_exit(&mut engine.issues, stale.id, at(5)).unwrap();
    assert_eq!(
        issue(&engine, issue_id).status,
        IssueStatus::Running,
        "re-anchored from the live blocked row, not the stale running model"
    );

    // A terminal issue is refused even when the stale model still says running.
    issue_mut(&mut engine, issue_id).status = IssueStatus::Cancelled;
    assert!(matches!(
        ensure_running_for_exit(&mut engine.issues, stale.id, at(6)),
        Err(LoopError::Conflict)
    ));
}

#[test]
fn add_budget_tops_up_and_resumes() {
    let (mut engine, space_id, issue_id) = setup();
    // A budget-paused issue: budget set, paused(budget), card filed.
    issue_mut(&mut engine, issue_id).token_budget = Some(1000);
    cas(&mut engine, issue_id, IssueStatus::Running, IssueStatus::Paused);
    issue_mut(&mut engine, issue_id).pause_reason = Some(PauseReason::Budget);
    file_card(
        &mut engine,
        space_id,
        issue_id,
        InboxKind::BudgetExhausted,
        &format!("budget:{issue_id}"),
        obj(&[("token_used", Value::from(1200)), ("token_budget", Value::from(1000))]),
    );

    engine.add_budget(issue_id, 5000, at(5)).unwrap();

    let i = issue(&engine, issue_id);
    assert_eq!(i.token_budget, Some(6000), "budget topped up");
    assert_eq!(i.status, IssueStatus::Running, "issue resumed");
    assert_eq!(i.pause_reason, None, "pause reason cleared");
    assert!(pending(&engine, space_id).is_empty(), "budget card resolved");
    assert_eq!(
        engine.inbox.rows[0].resolution.as_deref(),
        Some("{\"action\":\"add_budget\",\"additional\":5000}")
    );

    // Adding budget to a running (non-paused) issue is a conflict.
    assert!(matches!(engine.add_budget(issue_id, 1000, at(6)), Err(LoopError::Conflict)));
    assert!(matches!(engine.add_budget(99, 1000, at(6)), Err(LoopError::NotFound(_))));
}

#[test]
fn add_budget_clamps_and_saturates() {
    let (mut engine, _space, issue_id) = setup();
    for (before, additional, after) in [
        (None, -5, 0),
        (Some(10), -5, 10),
        (Some(i64::MAX - 1), 5, i64::MAX),
        (Some(-7), 3, -4),
    ] {
        cas(&mut engine, issue_id, IssueStatus::Running, IssueStatus::Paused);
        issue_mut(&mut engine, issue_id).token_budget = before;
        engine.add_budget(issue_id, additional, at(5)).unwrap();
        assert_eq!(issue(&engine, issue_id).token_budget, Some(after));
    }
}

// ── Merge gate ──────────────────────────────────────────────────────────

/// An issue at the merge gate: running, with a worktree and a recorded base.
fn setup_repo() -> (LoopEngine, i32, i32, i32) {
    let (mut engine, space_id, issue_id) = setup();
    let folder_id = add_folder(&mut engine, "/tmp/loop-actions/.worktrees/1");
    let i = issue_mut(&mut engine, issue_id);
    i.worktree_folder_id = Some(folder_id);
    i.base_branch = Some("main".to_string());
    i.base_commit = Some("c0".to_string());
    (engine, space_id, issue_id, folder_id)
}

/// Runs a merge with git and the integration gate answering as given.
fn merge(
    engine: &mut LoopEngine,
    issue_id: i32,
    passed: bool,
    outcome: MergeOutcome,
) -> Result<(), LoopError> {
    let mut given = Some(outcome);
    let mut event = MergeEvent::Requested { issue_id };
    loop {
        event = match engine.merge_issue(event, at(7)) {
            MergeAction::LockRepo { repo_path } => {
                assert_eq!(repo_path, "/tmp/loop-actions");
                MergeEvent::Locked { issue_id, repo_path }
            }
            MergeAction::CheckIntegration { repo_path } => {
                MergeEvent::IntegrationChecked { issue_id, repo_path, passed: Ok(passed) }
            }
            MergeAction::RunMerge(job) => {
                assert_eq!(job.branch, "loop/1/issue-1");
                assert_eq!(job.base_branch, "main");
                assert_eq!(job.base_commit, "c0");
                MergeEvent::MergeRun { job, outcome: Ok(given.take().unwrap()) }
            }
            MergeAction::Return(r) => return r,
        };
    }
}

#[test]
fn merge_issue_success_closes_issue_and_removes_worktree() {
    let (mut engine, space_id, issue_id, _folder) = setup_repo();
    file_card(
        &mut engine,
        space_id,
        issue_id,
        InboxKind::Approval,
        &format!("merge:{issue_id}"),
        obj(&[]),
    );
    merge(&mut engine, issue_id, true, MergeOutcome::Merged).unwrap();

    assert_eq!(issue(&engine, issue_id).status, IssueStatus::Done);
    assert!(issue(&engine, issue_id).ended_at.is_some());
    assert!(!card_pending(&engine, issue_id, &format!("merge:{issue_id}")));
    let wt = "/tmp/loop-actions/.worktrees/1";
    match engine.outbox.as_slice() {
        [Effect::RemoveWorktree { worktree_path: a, .. }, Effect::RemoveSubtree { worktree_path: b, .. }, Effect::DeleteBranch { branch, force, .. }, Effect::RemoveFolder { path }, Effect::Changed(c), Effect::WakeDriver(_), Effect::ReleaseRepoLock, Effect::Reflect(id)] =>
        {
            assert_eq!((a.as_str(), b.as_str(), path.as_str()), (wt, wt, wt));
            assert_eq!(branch, "loop/1/issue-1");
            assert!(!force);
            assert_eq!(c.kind, "merged");
            assert_eq!(*id, issue_id);
        }
        other => panic!("unexpected {other:?}"),
    }
}

#[test]
fn a_landing_needs_no_card_id() {
    let (mut engine, _space, issue_id, _folder) = setup_repo();
    engine.inbox.next_id = i32::MAX;
    merge(&mut engine, issue_id, true, MergeOutcome::Merged).unwrap();
    assert_eq!(issue(&engine, issue_id).status, IssueStatus::Done);
}

#[test]
fn merge_issue_dirty_base_blocks_and_errors() {
    let (mut engine, space_id, issue_id, _folder) = setup_repo();
    // The fault surfaces as an error, not a silent "Ok" success.
    let err = merge(&mut engine, issue_id, true, MergeOutcome::BaseDirty).unwrap_err();
    assert!(matches!(err, LoopError::MergeFailed(_)));

    // The issue is blocked + carries a durable card so the fault is visible.
    assert_eq!(issue(&engine, issue_id).status, IssueStatus::Blocked);
    let cards = pending(&engine, space_id);
    assert!(cards.iter().any(|c| c.kind == InboxKind::Blocked
        && c.subject_key == format!("merge_blocked:{issue_id}")));
    assert_eq!(cards[0].payload["reason"], "base_dirty");
    assert_eq!(
        cards[0].payload["detail"],
        "base repo working tree has uncommitted tracked changes"
    );
    assert_eq!(changes(&engine), vec!["blocked"]);
}

#[test]
fn merge_issue_conflict_blocks_with_inbox_and_errors() {
    let (mut engine, space_id, issue_id, _folder) = setup_repo();
    let conflict =
        MergeOutcome::Conflict { stage: "integrate".to_string(), detail: "feature.txt".to_string() };
    // The fault surfaces as an error (never a silent success)...
    match merge(&mut engine, issue_id, true, conflict).unwrap_err() {
        LoopError::MergeFailed(m) => assert_eq!(
            m,
            "Merge conflict while integrating the latest base into the issue branch."
        ),
        other => panic!("unexpected {other:?}"),
    }

    // ...AND the fault blocks the issue + files a card so it is visible.
    assert_eq!(issue(&engine, issue_id).status, IssueStatus::Blocked);
    let cards = pending(&engine, space_id);
    assert!(cards.iter().any(|c| c.kind == InboxKind::Blocked
        && c.subject_key == format!("merge_blocked:{issue_id}")));
    assert_eq!(cards[0].payload["reason"], "merge_conflict_integrate");
    assert_eq!(cards[0].payload["detail"], "feature.txt");
}

#[test]
fn merge_issue_without_result_not_mergeable() {
    let (mut engine, _space, issue_id, _folder) = setup_repo();
    assert!(matches!(
        merge(&mut engine, issue_id, false, MergeOutcome::Merged),
        Err(LoopError::NotMergeable)
    ));
    assert_eq!(changes(&engine), vec!["merge_unavailable"]);
    assert_eq!(issue(&engine, issue_id).status, IssueStatus::Running);
}

#[test]
fn merge_issue_second_call_after_cleanup_is_idempotent_ok() {
    let (mut engine, _space, issue_id, folder_id) = setup_repo();
    merge(&mut engine, issue_id, true, MergeOutcome::Merged).unwrap();
    assert_eq!(issue(&engine, issue_id).status, IssueStatus::Done);
    // The worktree folder is gone by now.
    let f = engine.folders.find(folder_id).unwrap();
    engine.folders.rows[f].deleted_at = Some(at(8));

    // Second merge, with the worktree already removed, is a no-op SUCCESS.
    merge(&mut engine, issue_id, true, MergeOutcome::Merged).unwrap();
    assert_eq!(issue(&engine, issue_id).status, IssueStatus::Done);
    assert_eq!(changes(&engine), vec!["merged", "merged"]);
}

#[test]
fn merge_issue_blocked_is_not_mergeable() {
    let (mut engine, _space, issue_id, _folder) = setup_repo();
    cas(&mut engine, issue_id, IssueStatus::Running, IssueStatus::Blocked);
    assert!(matches!(
        merge(&mut engine, issue_id, true, MergeOutcome::Merged),
        Err(LoopError::NotMergeable)
    ));
}

#[test]
fn merge_issue_names_what_is_missing() {
    let (mut engine, _space, issue_id, folder_id) = setup_repo();
    assert!(matches!(
        merge(&mut engine, 99, true, MergeOutcome::Merged),
        Err(LoopError::NotFound(m)) if m == "issue 99"
    ));
    issue_mut(&mut engine, issue_id).base_commit = None;
    assert!(matches!(
        merge(&mut engine, issue_id, true, MergeOutcome::Merged),
        Err(LoopError::Git(m)) if m == "issue has no recorded base commit"
    ));
    issue_mut(&mut engine, issue_id).base_branch = None;
    assert!(matches!(
        merge(&mut engine, issue_id, true, MergeOutcome::Merged),
        Err(LoopError::Git(m)) if m == "issue has no recorded base branch"
    ));
    let f = engine.folders.find(folder_id).unwrap();
    engine.folders.rows[f].deleted_at = Some(at(8));
    assert!(matches!(
        merge(&mut engine, issue_id, true, MergeOutcome::Merged),
        Err(LoopError::Detached)
    ));
    issue_mut(&mut engine, issue_id).worktree_folder_id = None;
    assert!(matches!(
        merge(&mut engine, issue_id, true, MergeOutcome::Merged),
        Err(LoopError::NotFound(m)) if m == format!("issue {issue_id} worktree")
    ));
    engine.folders.rows[0].deleted_at = Some(at(8));
    assert!(matches!(
        merge(&mut engine, issue_id, true, MergeOutcome::Merged),
        Err(LoopError::Detached)
    ));
    engine.spaces.rows.clear();
    assert!(matches!(
        merge(&mut engine, issue_id, true, MergeOutcome::Merged),
        Err(LoopError::NotFound(m)) if m == "space 1"
    ));
}

#[test]
fn merge_fault_report_per_outcome() {
    let landing = MergeOutcome::Conflict { stage: "land".to_string(), detail: "d".to_string() };
    let (reason, message, detail) = merge_fault_report(&landing);
    assert_eq!(reason, "merge_conflict");
    assert_eq!(message, "Merge conflict while landing the issue branch onto the base branch.");
    assert_eq!(detail, "d");
    let (reason, message, detail) =
        merge_fault_report(&MergeOutcome::RevalidationFailed { output: "boom".to_string() });
    assert_eq!(reason, "revalidation_failed");
    assert_eq!(message, "Re-validation failed on the merged result.");
    assert_eq!(detail, "boom");
    let (reason, message, detail) = merge_fault_report(&MergeOutcome::BaseGone);
    assert_eq!(reason, "base_gone");
    assert_eq!(message, "The base branch no longer exists.");
    assert_eq!(detail, "base branch no longer exists");
    let (reason, message, detail) = merge_fault_report(&MergeOutcome::Merged);
    assert_eq!((reason, message.as_str(), detail.as_str()), ("merged", "Merge failed.", ""));
}

// ── Design approval gate ────────────────────────────────────────────────

/// Mint an `awaiting_approval` design + its inbox card on a running issue.
fn seed_awaiting_design(engine: &mut LoopEngine, space_id: i32, issue_id: i32) -> i32 {
    let d = add_artifact(
        engine,
        space_id,
        issue_id,
        ArtifactKind::Design,
        "D1",
        ArtifactStatus::AwaitingApproval,
    );
    let id = engine.revisions.next_id;
    engine.revisions.insert(loop_artifact_revision::Model {
        id,
        artifact_id: d,
        content: "design body".to_string(),
        actor_kind: ActorKind::Agent,
        produced_by_iteration_id: None,
        created_at: at(1),
    });
    file_card(
        engine,
        space_id,
        issue_id,
        InboxKind::Approval,
        &format!("design:{issue_id}"),
        obj(&[("gate", Value::from("design"))]),
    );
    d
}

#[test]
fn approve_design_marks_done_and_resolves_card() {
    let (mut engine, space_id, issue_id) = setup();
    let design_id = seed_awaiting_design(&mut engine, space_id, issue_id);

    engine.approve_design(issue_id, at(5)).unwrap();

    assert_eq!(artifact(&engine, design_id).status, ArtifactStatus::Done);
    assert!(!pending(&engine, space_id)
        .iter()
        .any(|c| c.subject_key == format!("design:{issue_id}")));
    assert_eq!(engine.inbox.rows[0].resolution.as_deref(), Some("{\"action\":\"approve\"}"));
    // Nothing awaiting now: a second approve conflicts.
    assert!(matches!(engine.approve_design(issue_id, at(6)), Err(LoopError::Conflict)));
    assert!(matches!(engine.approve_design(99, at(6)), Err(LoopError::NotFound(_))));
}

#[test]
fn reject_design_supersedes_and_records_comment() {
    let (mut engine, space_id, issue_id) = setup();
    let design_id = seed_awaiting_design(&mut engine, space_id, issue_id);

    engine.reject_design(issue_id, Some("needs more detail".into()), at(5)).unwrap();

    assert_eq!(artifact(&engine, design_id).status, ArtifactStatus::Superseded);
    assert!(engine.revisions.rows.iter().any(|r| r.artifact_id == design_id
        && r.actor_kind == ActorKind::Human
        && r.content.contains("needs more detail")));
    assert!(!pending(&engine, space_id)
        .iter()
        .any(|c| c.subject_key == format!("design:{issue_id}")));
    assert_eq!(
        engine.inbox.rows[0].resolution.as_deref(),
        Some("{\"action\":\"reject\",\"comment\":\"needs more detail\"}")
    );
}

#[test]
fn reject_design_trims_the_comment_and_skips_a_blank_one() {
    let (mut engine, space_id, issue_id) = setup();
    seed_awaiting_design(&mut engine, space_id, issue_id);
    engine.reject_design(issue_id, Some("  too big \n".into()), at(5)).unwrap();
    assert_eq!(engine.revisions.rows[1].content, "[design rejected] too big");
    // The card keeps the comment as it was given.
    assert_eq!(
        engine.inbox.rows[0].resolution.as_deref(),
        Some("{\"action\":\"reject\",\"comment\":\"  too big \\n\"}")
    );
    seed_awaiting_design(&mut engine, space_id, issue_id);
    let n = engine.revisions.rows.len();
    engine.reject_design(issue_id, Some(" \u{3000}\t".into()), at(6)).unwrap();
    assert_eq!(engine.revisions.rows.len(), n);
    assert!(matches!(
        engine.reject_design(issue_id, None, at(7)),
        Err(LoopError::Conflict)
    ));
}

// ── Reflect orchestration ───────────────────────────────────────────────

fn count_reflect_iters(engine: &LoopEngine, issue_id: i32) -> usize {
    engine
        .iterations
        .rows
        .iter()
        .filter(|i| i.issue_id == issue_id && i.stage == Stage::Reflect)
        .count()
}

#[test]
fn reflect_dispatch_is_noop_when_reflection_artifact_exists() {
    let (mut engine, space_id, issue_id) = setup();
    cas(&mut engine, issue_id, IssueStatus::Running, IssueStatus::Done);
    // The durable anchor: a reflection already exists for the issue.
    add_artifact(
        &mut engine,
        space_id,
        issue_id,
        ArtifactKind::Reflection,
        "Retro",
        ArtifactStatus::Done,
    );
    let model = issue(&engine, issue_id).clone();

    assert!(engine.dispatch_reflect_best_effort(&model, Some(3), at(5)).is_none());

    assert_eq!(count_reflect_iters(&engine, issue_id), 0, "anchor present: no dispatch");
    assert!(engine.outbox.is_empty());
}

#[test]
fn reflect_dispatch_files_card_at_max_attempts() {
    let (mut engine, space_id, issue_id) = setup();
    cas(&mut engine, issue_id, IssueStatus::Running, IssueStatus::Done);
    // One terminal (failed) reflect attempt: at max_attempts (1), no artifact.
    add_iteration(
        &mut engine,
        space_id,
        issue_id,
        Stage::Reflect,
        "reflect-fail-1",
        IterationStatus::Failed,
    );
    let model = issue(&engine, issue_id).clone();

    assert!(engine.dispatch_reflect_best_effort(&model, Some(1), at(5)).is_none());

    // A ReflectionFailed card was filed; no new reflect iteration claimed.
    let cards = pending(&engine, space_id);
    assert!(cards.iter().any(|c| c.kind == InboxKind::ReflectionFailed));
    assert_eq!(cards[0].payload["attempts"], 1);
    assert_eq!(cards[0].payload["reason"], "reflect_exhausted");
    assert_eq!(
        count_reflect_iters(&engine, issue_id),
        1,
        "exhausted: no further dispatch"
    );
    assert_eq!(issue(&engine, issue_id).status, IssueStatus::Done);
    assert_eq!(changes(&engine), vec!["reflect_exhausted"]);
}

#[test]
fn reflect_dispatch_runs_in_the_base_repository() {
    let (mut engine, space_id, issue_id) = setup();
    cas(&mut engine, issue_id, IssueStatus::Running, IssueStatus::Done);
    add_iteration(
        &mut engine,
        space_id,
        issue_id,
        Stage::Reflect,
        "spent",
        IterationStatus::Interrupted,
    );
    // A run in flight is not a spent attempt.
    add_iteration(
        &mut engine,
        space_id,
        issue_id,
        Stage::Reflect,
        "live",
        IterationStatus::Running,
    );
    let model = issue(&engine, issue_id).clone();
    for limit in [0, 2] {
        let input = engine.dispatch_reflect_best_effort(&model, Some(limit), at(5)).unwrap();
        assert_eq!(input.stage, Stage::Reflect);
        assert_eq!(input.attempt, 1);
        assert_eq!(input.worktree_folder_id, 1);
        assert_eq!(input.target_artifact_id, None);
    }
    // Without a configuration nothing is dispatched.
    assert!(engine.dispatch_reflect_best_effort(&model, None, at(5)).is_none());
    assert!(pending(&engine, space_id).is_empty());
}
