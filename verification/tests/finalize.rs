use loop_engine::clock::Timestamp;
use loop_engine::entities::loop_artifact::{self, ArtifactKind, ArtifactStatus, ContributionKind};
use loop_engine::entities::loop_artifact_revision::ActorKind;
use loop_engine::entities::loop_inbox_item::{InboxKind, InboxStatus};
use loop_engine::entities::loop_issue::{self, IssueStatus};
use loop_engine::entities::loop_iteration::{self, IterationStatus, LaunchedBy, Stage};
use loop_engine::entities::{folder, loop_space};
use loop_engine::error::LoopError;
use loop_engine::loop_engine::fan_in::{FanInEntry, FanInManifest};
use loop_engine::loop_engine::finalize::{
    FanInOutcome, FinalizeAction, FinalizeEvent, StepOutcome,
};
use loop_engine::loop_engine::{Effect, LoopEngine};

fn at(secs: i64) -> Timestamp {
    Timestamp { secs, nanos: 0 }
}

fn task(id: i32, commit: Option<&str>) -> loop_artifact::Model {
    loop_artifact::Model {
        id,
        space_id: 1,
        issue_id: 1,
        kind: ArtifactKind::Task,
        title: format!("T{id}"),
        status: ArtifactStatus::Done,
        origin: ActorKind::Agent,
        produced_by_iteration_id: None,
        verdict: None,
        attempt: 0,
        last_failure_sig: None,
        fan_in_commit: commit.map(String::from),
        sort: id,
        created_at: at(1),
        updated_at: at(1),
        contribution_kind: if commit.is_some() {
            ContributionKind::Delta
        } else {
            ContributionKind::NoOp
        },
        oscillation_count: 0,
        recent_failure_sig: None,
    }
}

fn folder_row(id: i32, path: &str) -> folder::Model {
    folder::Model {
        id,
        path: path.to_string(),
        name: path.to_string(),
        last_opened_at: at(0),
        group_id: None,
        sort_order_in_group: 0,
        git_branch: None,
        is_open: false,
        updated_at: at(0),
        deleted_at: None,
    }
}

/// A running parallel issue whose tasks are done.
fn setup(commits: &[Option<&str>]) -> LoopEngine {
    let mut e = LoopEngine::new();
    e.folders.insert(folder_row(1, "/repo"));
    e.folders.insert(folder_row(2, "/repo/.wt/1"));
    e.spaces.insert(loop_space::Model {
        id: 1,
        name: "S".to_string(),
        folder_id: 1,
        default_config: "{}".to_string(),
        created_at: at(0),
        updated_at: at(0),
    });
    e.issues.insert(loop_issue::Model {
        id: 1,
        space_id: 1,
        seq_no: 3,
        title: "I".to_string(),
        status: IssueStatus::Running,
        pause_reason: None,
        token_budget: None,
        token_used: 0,
        worktree_folder_id: Some(2),
        base_branch: Some("main".to_string()),
        base_commit: Some("c0".to_string()),
        execution_mode: Some("parallel".to_string()),
        fan_in_manifest: None,
        fan_in_resolver_tip: None,
        created_at: at(0),
        updated_at: at(0),
        ended_at: None,
    });
    for (i, c) in commits.iter().enumerate() {
        e.artifacts.insert(task(i as i32 + 1, *c));
    }
    e
}

/// How git and the agents answer.
struct Git {
    head: &'static str,
    tip: &'static str,
    /// The commits that are on the issue branch.
    landed: &'static [&'static str],
    in_progress: bool,
    outcome: Option<FanInOutcome>,
    advanced: bool,
    stored: Option<FanInManifest>,
    log: Vec<&'static str>,
}

fn git() -> Git {
    Git {
        head: "base",
        tip: "base",
        landed: &[],
        in_progress: false,
        outcome: Some(FanInOutcome::Integrated { tip: "merged".to_string() }),
        advanced: true,
        stored: None,
        log: Vec::new(),
    }
}

fn copy(m: &FanInManifest) -> FanInManifest {
    FanInManifest {
        v: m.v,
        issue_base_oid: m.issue_base_oid.clone(),
        active_task_ids: m.active_task_ids.clone(),
        ordered: m.ordered.clone(),
        skipped_no_op_task_ids: m.skipped_no_op_task_ids.clone(),
    }
}

fn tick(e: &mut LoopEngine, g: &mut Git) -> Result<StepOutcome, LoopError> {
    let mut event = FinalizeEvent::Tick { issue_id: 1, worktree_folder_id: 2 };
    loop {
        event = match e.run_parallel_finalize(event, at(9)) {
            FinalizeAction::DecodeManifest { start, json } => {
                g.log.push("decode");
                assert_eq!(json, "stored");
                let decoded = g.stored.as_ref().map(copy).ok_or("bad".to_string());
                FinalizeEvent::ManifestDecoded { start, json, decoded }
            }
            FinalizeAction::ReadBase { start, path } => {
                g.log.push("head");
                assert_eq!(path, "/repo/.wt/1");
                FinalizeEvent::BaseRead { start, head: Ok(g.head.to_string()) }
            }
            FinalizeAction::EncodeManifest { start, manifest } => {
                g.log.push("encode");
                g.stored = Some(copy(&manifest));
                FinalizeEvent::ManifestEncoded { start, manifest, encoded: Ok("stored".to_string()) }
            }
            FinalizeAction::EnsureIntegrate { session } => {
                g.log.push("integrate");
                assert_eq!(session.manifest.issue_base_oid, "base");
                FinalizeEvent::IntegrateReady { session, integrate: Ok(("/repo/.int".to_string(), 7)) }
            }
            FinalizeAction::ResolveTip { tree, branch } => {
                g.log.push("tip");
                assert_eq!(branch, "loop/1/issue-3");
                FinalizeEvent::TipResolved { tree, found: Ok(g.tip.to_string()) }
            }
            FinalizeAction::CheckAncestor { tree, tip, index } => {
                g.log.push("ancestor");
                let sha = tree.session.manifest.ordered[index].sha.clone();
                let is_ancestor = Ok(g.landed.contains(&sha.as_str()));
                FinalizeEvent::AncestorChecked { tree, tip, index, is_ancestor }
            }
            FinalizeAction::CheckInProgress { tree } => {
                g.log.push("in-progress");
                FinalizeEvent::InProgressChecked { tree, in_progress: g.in_progress }
            }
            FinalizeAction::ReadIntegrateHead { tree, resumed } => {
                g.log.push("integrate-head");
                FinalizeEvent::IntegrateHeadRead { tree, resumed, head: Ok("half".to_string()) }
            }
            FinalizeAction::ResetIntegrate { tree } => {
                g.log.push("reset");
                FinalizeEvent::IntegrateReset { tree, result: Ok(()) }
            }
            FinalizeAction::MergeTasks { tree } => {
                g.log.push("merge");
                FinalizeEvent::TasksMerged { tree, outcome: Ok(g.outcome.take().unwrap()) }
            }
            FinalizeAction::AdvanceBranch { tree, branch, tip } => {
                g.log.push("advance");
                assert_eq!((branch.as_str(), tip.as_str()), ("loop/1/issue-3", "merged"));
                FinalizeEvent::BranchAdvanced { tree, advanced: Ok(g.advanced) }
            }
            FinalizeAction::SyncWorktree { tree, path } => {
                g.log.push("sync");
                assert_eq!(path, "/repo/.wt/1");
                assert!(e.artifacts.rows.iter().all(|a| a.kind != ArtifactKind::Result));
                FinalizeEvent::WorktreeSynced { tree, result: Ok(()) }
            }
            FinalizeAction::DispatchResolver(input) => {
                g.log.push("dispatch");
                assert_eq!(input.stage, Stage::Finalize);
                assert_eq!(input.worktree_folder_id, 7);
                FinalizeEvent::ResolverDispatched { dispatched: Ok(true) }
            }
            FinalizeAction::Return(r) => return r,
        };
    }
}

fn has_result(e: &LoopEngine) -> bool {
    e.artifacts.rows.iter().any(|a| a.kind == ArtifactKind::Result)
}

fn pending_keys(e: &LoopEngine) -> Vec<&str> {
    e.inbox
        .rows
        .iter()
        .filter(|c| c.status == InboxStatus::Pending && c.kind == InboxKind::Blocked)
        .map(|c| c.subject_key.as_str())
        .collect()
}

#[test]
fn fan_in_lands_and_makes_the_result() {
    let mut e = setup(&[Some("s1"), None]);
    let mut g = git();
    assert_eq!(tick(&mut e, &mut g).unwrap(), StepOutcome::Advanced);
    assert_eq!(
        g.log,
        vec![
            "head", "encode", "integrate", "tip", "in-progress", "reset", "merge", "advance",
            "sync"
        ]
    );
    assert!(has_result(&e));
    // Every member is linked, the no-op too; the session is over.
    let to: Vec<i32> = e.links.rows.iter().map(|l| l.to_artifact_id).collect();
    assert_eq!(to, vec![1, 2]);
    assert_eq!(e.issues.rows[0].fan_in_manifest, None);
    match e.outbox.as_slice() {
        [Effect::RemoveWorktree { worktree_path, .. }, Effect::DeleteBranch { branch, force, .. }, Effect::Changed(c)] =>
        {
            assert_eq!(worktree_path, "/repo/.int");
            assert_eq!(branch, "loop/1/issue-3-integrate");
            assert!(force);
            assert_eq!(c.kind, "iteration");
        }
        other => panic!("unexpected {other:?}"),
    }
}

#[test]
fn fan_in_waits_for_work_in_flight() {
    let mut e = setup(&[Some("s1")]);
    e.iterations.insert(loop_iteration::Model {
        id: 1,
        space_id: 1,
        issue_id: 1,
        stage: Stage::Finalize,
        target_artifact_id: None,
        slot_no: None,
        conversation_id: None,
        capability_token: "t".to_string(),
        status: IterationStatus::Queued,
        launched_by: LaunchedBy::Engine,
        attempt: 0,
        tokens_used: 0,
        tokens_pending: false,
        context_manifest: None,
        created_at: at(0),
        started_at: None,
        ended_at: None,
        outcome: None,
        agent_completion_reason: None,
    });
    assert!(e.issue_has_inflight(1));
    let mut g = git();
    assert_eq!(tick(&mut e, &mut g).unwrap(), StepOutcome::Idle);
    assert!(g.log.is_empty());
    e.iterations.rows[0].status = IterationStatus::Succeeded;
    assert!(!e.issue_has_inflight(1));
}

#[test]
fn all_no_op_finishes_at_base_and_blocks_elsewhere() {
    let mut e = setup(&[None, None]);
    let mut g = git();
    assert_eq!(tick(&mut e, &mut g).unwrap(), StepOutcome::Advanced);
    assert_eq!(g.log, vec!["head", "encode", "integrate", "tip", "sync"]);
    assert!(has_result(&e));

    let mut e = setup(&[None, None]);
    let mut g = git();
    g.tip = "moved";
    assert_eq!(tick(&mut e, &mut g).unwrap(), StepOutcome::Advanced);
    assert!(!has_result(&e));
    assert_eq!(e.issues.rows[0].status, IssueStatus::Blocked);
    assert_eq!(pending_keys(&e), vec!["fan_in_all_no_op_unexpected_tip:1"]);
    assert_eq!(
        e.inbox.rows[0].payload,
        "{\"reason\":\"every task declared a no-op but the issue branch advanced past its base\",\"v\":1}"
    );
}

#[test]
fn landed_work_is_finished_without_merging_again() {
    let mut e = setup(&[Some("s1"), Some("s2")]);
    let mut g = git();
    g.tip = "landed";
    g.landed = &["s1", "s2"];
    assert_eq!(tick(&mut e, &mut g).unwrap(), StepOutcome::Advanced);
    assert_eq!(
        g.log,
        vec!["head", "encode", "integrate", "tip", "ancestor", "ancestor", "sync"]
    );
    assert!(has_result(&e));

    // One commit missing: the work has not landed.
    let mut e = setup(&[Some("s1"), Some("s2")]);
    let mut g = git();
    g.tip = "elsewhere";
    g.landed = &["s2"];
    g.advanced = false;
    assert_eq!(tick(&mut e, &mut g).unwrap(), StepOutcome::Advanced);
    assert_eq!(
        g.log,
        vec![
            "head", "encode", "integrate", "tip", "ancestor", "in-progress", "reset", "merge",
            "advance"
        ]
    );
    // The landing was lost: no result, and the session is free again.
    assert!(!has_result(&e));
    assert_eq!(e.issues.rows[0].fan_in_manifest, None);
}

#[test]
fn a_conflict_is_handed_to_a_resolver_once_per_tip() {
    let mut e = setup(&[Some("s1")]);
    let mut g = git();
    g.outcome = Some(FanInOutcome::Conflict);
    assert_eq!(tick(&mut e, &mut g).unwrap(), StepOutcome::Dispatched);
    assert_eq!(e.issues.rows[0].fan_in_resolver_tip.as_deref(), Some("half"));
    assert_eq!(e.issues.rows[0].fan_in_manifest.as_deref(), Some("stored"));

    // The resolver ran and left the merge unresolved: block.
    g.in_progress = true;
    g.log.clear();
    assert_eq!(tick(&mut e, &mut g).unwrap(), StepOutcome::Advanced);
    assert_eq!(g.log, vec!["decode", "integrate", "tip", "in-progress", "integrate-head"]);
    assert_eq!(e.issues.rows[0].status, IssueStatus::Blocked);
    assert_eq!(pending_keys(&e), vec!["fan_in_conflict_unresolved:1"]);

    // A crash before the dispatch: no tip is recorded, so a resolver is dispatched.
    let mut e = setup(&[Some("s1")]);
    g.log.clear();
    assert_eq!(tick(&mut e, &mut g).unwrap(), StepOutcome::Dispatched);
    assert_eq!(g.log.last(), Some(&"dispatch"));
    assert_eq!(e.issues.rows[0].status, IssueStatus::Running);
}

#[test]
fn failed_revalidation_blocks() {
    let mut e = setup(&[Some("s1")]);
    let mut g = git();
    g.outcome = Some(FanInOutcome::RevalidationFailed);
    assert_eq!(tick(&mut e, &mut g).unwrap(), StepOutcome::Advanced);
    assert_eq!(pending_keys(&e), vec!["fan_in_revalidation_failed:1"]);
    assert!(!has_result(&e));
}

#[test]
fn a_stored_manifest_is_adopted_and_checked() {
    let mut e = setup(&[Some("s1")]);
    e.issues.rows[0].fan_in_manifest = Some("stored".to_string());
    let mut g = git();
    assert!(matches!(tick(&mut e, &mut g), Err(LoopError::InvalidInput(m))
        if m == "fan-in manifest decode: bad"));
    g.stored = Some(FanInManifest {
        v: 2,
        issue_base_oid: "base".to_string(),
        active_task_ids: vec![1, 2],
        ordered: vec![FanInEntry { task_id: 1, sha: "s1".to_string() }],
        skipped_no_op_task_ids: vec![],
    });
    assert!(matches!(tick(&mut e, &mut g), Err(LoopError::Git(_))));
    g.stored.as_mut().unwrap().active_task_ids = vec![1];
    assert_eq!(tick(&mut e, &mut g).unwrap(), StepOutcome::Advanced);
    assert!(has_result(&e));
}

#[test]
fn a_lost_claim_adopts_the_stored_manifest() {
    let mut e = setup(&[Some("s1")]);
    let start = match e.run_parallel_finalize(
        FinalizeEvent::Tick { issue_id: 1, worktree_folder_id: 2 },
        at(9),
    ) {
        FinalizeAction::ReadBase { start, .. } => start,
        other => panic!("unexpected {other:?}"),
    };
    e.issues.rows[0].fan_in_manifest = Some("theirs".to_string());
    let manifest = FanInManifest {
        v: 2,
        issue_base_oid: "base".to_string(),
        active_task_ids: vec![],
        ordered: vec![],
        skipped_no_op_task_ids: vec![],
    };
    let event =
        FinalizeEvent::ManifestEncoded { start, manifest, encoded: Ok("mine".to_string()) };
    match e.run_parallel_finalize(event, at(9)) {
        FinalizeAction::DecodeManifest { json, .. } => assert_eq!(json, "theirs"),
        other => panic!("unexpected {other:?}"),
    }
    assert_eq!(e.issues.rows[0].fan_in_manifest.as_deref(), Some("theirs"));
}

#[test]
fn a_tick_names_what_is_missing() {
    let mut e = setup(&[Some("s1")]);
    let mut g = git();
    e.folders.rows[1].deleted_at = Some(at(2));
    assert!(matches!(tick(&mut e, &mut g), Err(LoopError::NotFound(m)) if m == "worktree folder 2"));
    e.folders.rows[0].deleted_at = Some(at(2));
    assert!(matches!(tick(&mut e, &mut g), Err(LoopError::Detached)));
    e.spaces.rows.clear();
    assert!(matches!(tick(&mut e, &mut g), Err(LoopError::NotFound(m)) if m == "space 1"));
    e.issues.rows.clear();
    assert!(matches!(tick(&mut e, &mut g), Err(LoopError::NotFound(m)) if m == "issue 1"));
}
