use loop_engine::clock::Timestamp;
use loop_engine::entities::loop_artifact::{self, ArtifactKind, ArtifactStatus, ContributionKind};
use loop_engine::entities::loop_artifact_revision::ActorKind;
use loop_engine::entities::loop_link::LinkKind;
use loop_engine::error::LoopError;
use loop_engine::loop_engine::fan_in::{
    build_manifest, no_op_gate, parse_manifest, FanInEntry, FanInManifest, NoOpGate,
};
use loop_engine::loop_engine::LoopEngine;
use loop_engine::table::Table;
use serde_json::Value;

fn at(secs: i64) -> Timestamp {
    Timestamp { secs, nanos: 0 }
}

fn ids_of(v: Option<&Value>) -> Result<Vec<i32>, String> {
    match v {
        None => Ok(Vec::new()),
        Some(v) => v
            .as_array()
            .ok_or("not a list".to_string())?
            .iter()
            .map(|n| n.as_i64().map(|n| n as i32).ok_or("not a number".to_string()))
            .collect(),
    }
}

/// Reads a manifest from its stored text.
fn decode(json: &str) -> Result<FanInManifest, String> {
    let v: Value = serde_json::from_str(json).map_err(|e| e.to_string())?;
    let mut ordered = Vec::new();
    for e in v.get("ordered").and_then(|o| o.as_array()).ok_or("missing field `ordered`")? {
        ordered.push(FanInEntry {
            task_id: e.get("task_id").and_then(|n| n.as_i64()).ok_or("missing field `task_id`")? as i32,
            sha: e.get("sha").and_then(|s| s.as_str()).ok_or("missing field `sha`")?.to_string(),
        });
    }
    Ok(FanInManifest {
        v: v.get("v").and_then(|n| n.as_u64()).ok_or("missing field `v`")? as u32,
        issue_base_oid: v
            .get("issue_base_oid")
            .and_then(|s| s.as_str())
            .ok_or("missing field `issue_base_oid`")?
            .to_string(),
        active_task_ids: ids_of(v.get("active_task_ids"))?,
        ordered,
        skipped_no_op_task_ids: ids_of(v.get("skipped_no_op_task_ids"))?,
    })
}

/// Writes a manifest as its stored text.
fn encode(m: &FanInManifest) -> String {
    let mut o = serde_json::Map::new();
    o.insert("v".to_string(), Value::from(m.v));
    o.insert("issue_base_oid".to_string(), Value::from(m.issue_base_oid.clone()));
    o.insert("active_task_ids".to_string(), Value::from(m.active_task_ids.clone()));
    let mut entries = Vec::new();
    for e in &m.ordered {
        let mut x = serde_json::Map::new();
        x.insert("task_id".to_string(), Value::from(e.task_id));
        x.insert("sha".to_string(), Value::from(e.sha.clone()));
        entries.push(Value::Object(x));
    }
    o.insert("ordered".to_string(), Value::Array(entries));
    o.insert(
        "skipped_no_op_task_ids".to_string(),
        Value::from(m.skipped_no_op_task_ids.clone()),
    );
    Value::Object(o).to_string()
}

/// The provenance set is delta (merged) and no-op (skipped): every member, so the
/// result never drops a no-op task from the lineage.
#[test]
fn all_member_task_ids_unions_delta_and_no_op() {
    let m = FanInManifest {
        v: 2,
        issue_base_oid: "base".into(),
        active_task_ids: vec![1, 2, 3, 4],
        ordered: vec![
            FanInEntry { task_id: 1, sha: "a".into() },
            FanInEntry { task_id: 3, sha: "c".into() },
        ],
        skipped_no_op_task_ids: vec![2, 4],
    };
    let mut members = m.all_member_task_ids();
    members.sort_unstable();
    assert_eq!(members, vec![1, 2, 3, 4]);
    // The merge order (ordered_pairs) carries ONLY delta commits.
    assert_eq!(
        m.ordered_pairs(),
        vec![(1, "a".to_string()), (3, "c".to_string())]
    );
}

/// A v2 manifest round-trips through the stored-JSON encode/parse path.
#[test]
fn manifest_v2_round_trips() {
    let m = FanInManifest {
        v: 2,
        issue_base_oid: "deadbeef".into(),
        active_task_ids: vec![5, 7],
        ordered: vec![FanInEntry { task_id: 5, sha: "s5".into() }],
        skipped_no_op_task_ids: vec![7],
    };
    let json = encode(&m);
    let back = parse_manifest(decode(&json)).unwrap();
    assert_eq!(back.v, 2);
    assert_eq!(back.active_task_ids, vec![5, 7]);
    assert_eq!(back.skipped_no_op_task_ids, vec![7]);
    assert_eq!(back.all_member_task_ids(), vec![5, 7]);
}

/// A version 1 manifest with no no-op fields still parses: the new fields default to
/// empty, so an all-delta manifest behaves as before.
#[test]
fn manifest_v1_shape_parses_with_empty_defaults() {
    let v1 = r#"{"v":1,"issue_base_oid":"base","ordered":[{"task_id":1,"sha":"a"}]}"#;
    let m = parse_manifest(decode(v1)).unwrap();
    assert!(m.active_task_ids.is_empty());
    assert!(m.skipped_no_op_task_ids.is_empty());
    assert_eq!(m.all_member_task_ids(), vec![1]);
}

/// A manifest whose members are not its active tasks (here task 9 is stranded) is
/// rejected rather than silently dropping that task from the merge.
#[test]
fn manifest_v2_partition_mismatch_rejected_on_parse() {
    let bad = r#"{"v":2,"issue_base_oid":"base","active_task_ids":[5,7,9],"ordered":[{"task_id":5,"sha":"s5"}],"skipped_no_op_task_ids":[7]}"#;
    let err = parse_manifest(decode(bad)).unwrap_err();
    assert!(
        matches!(err, LoopError::Git(_)),
        "partition mismatch should be rejected, got {err:?}"
    );
}

/// The all-no-op gate finishes ONLY when `tip == base`; a moved tip blocks, and a
/// manifest with any frozen commit is not all-no-op.
#[test]
fn no_op_gate_finishes_only_at_base() {
    let all_no_op = FanInManifest {
        v: 2,
        issue_base_oid: "base".into(),
        active_task_ids: vec![1, 2],
        ordered: vec![],
        skipped_no_op_task_ids: vec![1, 2],
    };
    assert_eq!(no_op_gate(&all_no_op, "base"), NoOpGate::FinishAtBase);
    assert_eq!(no_op_gate(&all_no_op, "moved"), NoOpGate::BlockMovedTip);

    // A manifest with a frozen commit is never the all-no-op path, regardless of tip.
    let has_delta = FanInManifest {
        v: 2,
        issue_base_oid: "base".into(),
        active_task_ids: vec![1, 2],
        ordered: vec![FanInEntry { task_id: 1, sha: "a".into() }],
        skipped_no_op_task_ids: vec![2],
    };
    assert_eq!(no_op_gate(&has_delta, "base"), NoOpGate::NotAllNoOp);
    assert_eq!(no_op_gate(&has_delta, "moved"), NoOpGate::NotAllNoOp);
}

#[test]
fn undecodable_manifest_is_invalid_input() {
    let err = parse_manifest(Err("expected value at line 1 column 1".to_string())).unwrap_err();
    match err {
        LoopError::InvalidInput(m) => {
            assert_eq!(m, "fan-in manifest decode: expected value at line 1 column 1")
        }
        other => panic!("unexpected {other:?}"),
    }
}

#[test]
fn manifest_with_a_task_listed_twice_is_rejected() {
    let twice = r#"{"v":2,"issue_base_oid":"base","active_task_ids":[5,7],"ordered":[{"task_id":5,"sha":"s5"},{"task_id":5,"sha":"s5"}],"skipped_no_op_task_ids":[7]}"#;
    assert!(matches!(parse_manifest(decode(twice)), Err(LoopError::Git(_))));
    let unordered = r#"{"v":2,"issue_base_oid":"base","active_task_ids":[7,5],"ordered":[{"task_id":5,"sha":"s5"}],"skipped_no_op_task_ids":[7]}"#;
    assert!(parse_manifest(decode(unordered)).is_ok());
}

fn task(id: i32, sort: i32, commit: Option<&str>, kind: ContributionKind) -> loop_artifact::Model {
    loop_artifact::Model {
        id,
        space_id: 1,
        issue_id: 4,
        kind: ArtifactKind::Task,
        title: format!("T{id}"),
        status: ArtifactStatus::Done,
        origin: ActorKind::Agent,
        produced_by_iteration_id: None,
        verdict: None,
        attempt: 0,
        last_failure_sig: None,
        fan_in_commit: commit.map(String::from),
        sort,
        created_at: at(1),
        updated_at: at(1),
        contribution_kind: kind,
        oscillation_count: 0,
        recent_failure_sig: None,
    }
}

#[test]
fn build_manifest_orders_by_sort_then_id_and_partitions() {
    let mut artifacts = Table::new();
    artifacts.insert(task(1, 2, Some("s1"), ContributionKind::Delta));
    artifacts.insert(task(2, 0, None, ContributionKind::NoOp));
    artifacts.insert(task(3, 1, Some("s3"), ContributionKind::Delta));
    artifacts.insert(task(4, 1, Some("s4"), ContributionKind::Delta));
    let mut other = task(5, 0, Some("s5"), ContributionKind::Delta);
    other.issue_id = 9;
    artifacts.insert(other);
    let mut open = task(6, 0, Some("s6"), ContributionKind::Delta);
    open.status = ArtifactStatus::Pending;
    artifacts.insert(open);

    let m = build_manifest(&artifacts, 4, "head".to_string()).unwrap();
    assert_eq!(m.v, 2);
    assert_eq!(m.issue_base_oid, "head");
    assert_eq!(m.active_task_ids, vec![1, 2, 3, 4]);
    assert_eq!(m.skipped_no_op_task_ids, vec![2]);
    assert_eq!(
        m.ordered_pairs(),
        vec![(3, "s3".to_string()), (4, "s4".to_string()), (1, "s1".to_string())]
    );
    // What was built is accepted when it is read back.
    assert!(parse_manifest(decode(&encode(&m))).is_ok());
}

#[test]
fn build_manifest_refuses_a_delta_without_commit() {
    let mut artifacts = Table::new();
    artifacts.insert(task(1, 1, None, ContributionKind::Delta));
    artifacts.insert(task(2, 0, None, ContributionKind::Delta));
    match build_manifest(&artifacts, 4, "head".to_string()) {
        Err(LoopError::Git(m)) => {
            assert_eq!(m, "delta task 2 has no frozen commit (invariant)")
        }
        other => panic!("unexpected {other:?}"),
    }
}

#[test]
fn create_result_artifact_repairs_and_is_idempotent() {
    let mut engine = LoopEngine::new();
    engine.artifacts.insert(task(1, 0, Some("s"), ContributionKind::Delta));
    engine.artifacts.insert(task(2, 1, None, ContributionKind::NoOp));
    engine.create_result_artifact(1, 4, &vec![1, 2], at(5));
    assert_eq!(engine.artifacts.rows.len(), 3);
    let result = &engine.artifacts.rows[2];
    assert_eq!(result.kind, ArtifactKind::Result);
    assert_eq!(result.status, ArtifactStatus::Done);
    assert_eq!(result.title, "Result");
    assert_eq!(engine.revisions.rows.len(), 1);
    assert_eq!(
        engine.revisions.rows[0].content,
        "Integrated 2 parallel task(s) into the issue branch."
    );
    assert_eq!(engine.links.rows.len(), 2);
    assert!(engine.links.rows.iter().all(|l| l.from_artifact_id == 3
        && l.kind == LinkKind::ResultsFrom
        && l.source_revision_id.is_none()));
    assert_eq!(
        engine.links.rows.iter().map(|l| l.to_artifact_id).collect::<Vec<_>>(),
        vec![1, 2]
    );

    // A second run changes nothing.
    engine.create_result_artifact(1, 4, &vec![1, 2], at(9));
    assert_eq!(engine.artifacts.rows.len(), 3);
    assert_eq!(engine.revisions.rows.len(), 1);
    assert_eq!(engine.links.rows.len(), 2);

    // Nor does it need an id that is not there.
    let ids = (engine.artifacts.next_id, engine.revisions.next_id, engine.links.next_id);
    engine.artifacts.next_id = i32::MAX;
    engine.revisions.next_id = i32::MAX;
    engine.links.next_id = i32::MAX;
    engine.create_result_artifact(1, 4, &vec![1, 2], at(9));
    assert_eq!(engine.artifacts.rows.len(), 3);
    assert_eq!(engine.links.rows.len(), 2);
    (engine.artifacts.next_id, engine.revisions.next_id, engine.links.next_id) = ids;

    // A row left without its revision and an edge is completed.
    engine.revisions.rows.clear();
    engine.links.rows.pop();
    engine.create_result_artifact(1, 4, &vec![1, 2], at(10));
    assert_eq!(engine.artifacts.rows.len(), 3);
    assert_eq!(engine.revisions.rows.len(), 1);
    assert_eq!(engine.links.rows.len(), 2);
}
