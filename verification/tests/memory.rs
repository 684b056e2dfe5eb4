use loop_engine::clock::Timestamp;
use loop_engine::entities::loop_artifact_revision::ActorKind;
use loop_engine::entities::loop_memory::{self, MemoryKind, MemoryStatus, TrustTier};
use loop_engine::error::DbError;
use loop_engine::loop_service::memory::{
    build_index, create_memory, delete_memory, get_for_read, list_constitution, list_memory,
    supersede_memory, to_row, update_memory, MemoryProvenance,
};
use loop_engine::table::Table;

fn at(secs: i64) -> Timestamp {
    Timestamp { secs, nanos: 0 }
}

fn mem(
    memory: &mut Table<loop_memory::Model>,
    space_id: i32,
    kind: MemoryKind,
    title: &str,
) -> loop_memory::Model {
    create_memory(
        memory,
        space_id,
        kind,
        ActorKind::Agent,
        title,
        None,
        "body",
        TrustTier::Proposed,
        MemoryProvenance::default(),
        at(1),
    )
}

#[test]
fn build_index_is_all_active_non_constitution_by_id() {
    let mut memory = Table::new();
    // Seeded out of "kind order"; build_index must order by id, not kind. A constitution,
    // an archived, and a superseded memory are all excluded.
    let m1 = mem(&mut memory, 1, MemoryKind::Pitfall, "p");
    let m2 = mem(&mut memory, 1, MemoryKind::Decision, "d");
    let m3 = mem(&mut memory, 1, MemoryKind::Constraint, "c");
    mem(&mut memory, 1, MemoryKind::Constitution, "charter");
    let archived = mem(&mut memory, 1, MemoryKind::Preference, "old-pref");
    let superseded = mem(&mut memory, 1, MemoryKind::Decision, "old-dec");
    update_memory(&mut memory, archived.id, "old-pref", "body", MemoryStatus::Archived, at(2))
        .unwrap();
    update_memory(&mut memory, superseded.id, "old-dec", "body", MemoryStatus::Superseded, at(2))
        .unwrap();

    let index = build_index(&memory, 1);
    let ids: Vec<i32> = index.iter().map(|m| m.id).collect();
    assert_eq!(ids, vec![m1.id, m2.id, m3.id], "id-ascending, excludes the rest");
    assert!(index.iter().all(|m| m.kind != MemoryKind::Constitution));
    let charter = list_constitution(&memory, 1);
    assert_eq!(charter.len(), 1);
    assert_eq!(charter[0].title, "charter");
}

#[test]
fn get_for_read_is_space_scoped() {
    let mut memory = Table::new();
    let in_a = mem(&mut memory, 1, MemoryKind::Decision, "a-mem");
    let in_b = mem(&mut memory, 2, MemoryKind::Decision, "b-mem");

    // Space A asked for an A id + a B id: only the A row comes back.
    let rows = get_for_read(&memory, 1, &vec![in_a.id, in_b.id]);
    assert_eq!(rows.iter().map(|m| m.id).collect::<Vec<_>>(), vec![in_a.id]);
    assert!(get_for_read(&memory, 1, &vec![]).is_empty());
}

#[test]
fn create_memory_persists_summary_trust_and_provenance() {
    let mut memory = Table::new();
    let m = create_memory(
        &mut memory,
        1,
        MemoryKind::Pitfall,
        ActorKind::Agent,
        "title",
        Some("one-line summary"),
        "full body",
        TrustTier::Proposed,
        MemoryProvenance {
            source_issue_id: Some(7),
            source_artifact_id: None,
            produced_by_iteration_id: Some(42),
        },
        at(1),
    );
    assert_eq!(m.summary.as_deref(), Some("one-line summary"));
    assert_eq!(m.trust_tier, TrustTier::Proposed);
    assert_eq!(m.source_issue_id, Some(7));
    assert_eq!(m.produced_by_iteration_id, Some(42));
    assert_eq!(m.source_artifact_id, None);
    assert_eq!(m.superseded_by, None);
    let row = to_row(m);
    assert_eq!(row.content, "full body");
    assert_eq!(row.status, MemoryStatus::Active);
    assert_eq!(memory.rows[0].title, "title");
}

#[test]
fn supersede_memory_cas_is_idempotent_and_drops_from_index() {
    let mut memory = Table::new();
    let old = mem(&mut memory, 1, MemoryKind::Decision, "old");
    let new = mem(&mut memory, 1, MemoryKind::Decision, "new");
    assert!(supersede_memory(&mut memory, old.id, new.id, at(2)));
    let row = &memory.rows[memory.find(old.id).unwrap()];
    assert_eq!(row.status, MemoryStatus::Superseded);
    assert_eq!(row.superseded_by, Some(new.id));
    assert!(build_index(&memory, 1).iter().all(|m| m.id != old.id));
    assert!(get_for_read(&memory, 1, &vec![old.id]).is_empty());
    // Idempotent miss: a second supersede does not apply (already inactive).
    assert!(!supersede_memory(&mut memory, old.id, new.id, at(3)));
    assert!(!supersede_memory(&mut memory, old.id, 99, at(3)));
    assert_eq!(memory.rows[memory.find(old.id).unwrap()].superseded_by, Some(new.id));
}

#[test]
fn memory_crud() {
    let mut memory = Table::new();
    create_memory(
        &mut memory,
        1,
        MemoryKind::Pitfall,
        ActorKind::Agent,
        "p",
        None,
        "b",
        TrustTier::Proposed,
        MemoryProvenance::default(),
        at(1),
    );
    create_memory(
        &mut memory,
        1,
        MemoryKind::Decision,
        ActorKind::Human,
        "d",
        None,
        "b",
        TrustTier::Human,
        MemoryProvenance::default(),
        at(1),
    );
    assert_eq!(list_memory(&memory, 1).len(), 2);
}

#[test]
fn memories_are_listed_newest_first_and_deleted() {
    let mut memory = Table::new();
    let a = mem(&mut memory, 1, MemoryKind::Pitfall, "a");
    mem(&mut memory, 2, MemoryKind::Pitfall, "elsewhere");
    let c = mem(&mut memory, 1, MemoryKind::Constitution, "c");
    let ids = |m: &Table<loop_memory::Model>| {
        list_memory(m, 1).iter().map(|r| r.id).collect::<Vec<_>>()
    };
    assert_eq!(ids(&memory), vec![c.id, a.id]);
    delete_memory(&mut memory, a.id);
    delete_memory(&mut memory, a.id);
    assert_eq!(ids(&memory), vec![c.id]);
    // An id is not given out again.
    let d = mem(&mut memory, 1, MemoryKind::Pitfall, "d");
    assert_eq!(d.id, 4);
    assert_eq!(ids(&memory), vec![4, 3]);
}

#[test]
fn updating_a_missing_memory_is_an_error() {
    let mut memory: Table<loop_memory::Model> = Table::new();
    match update_memory(&mut memory, 3, "t", "c", MemoryStatus::Active, at(1)) {
        Err(DbError::RecordNotFound(m)) => assert_eq!(m, "loop_memory 3"),
        other => panic!("unexpected {other:?}"),
    }
}
