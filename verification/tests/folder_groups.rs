use loop_engine::clock::Timestamp;
use loop_engine::entities::folder;
use loop_engine::folder_group_service::{
    next_folder_sort_order, remove_group_if_empty, to_folder_entry,
};
use loop_engine::folder_groups::{FolderBook, FolderGroupEvent};
use loop_engine::handlers::{
    create_folder_group, list_folder_groups, remove_folder_group, rename_folder_group,
    reorder_folder_groups, reorder_folders_in_group, CreateFolderGroupParams,
    RemoveFolderGroupParams, RenameFolderGroupParams, ReorderFolderGroupsParams,
    ReorderFoldersInGroupParams,
};
use loop_engine::loop_engine::metrics::EngineMetrics;
use loop_engine::migration::{backfill_groups, LegacyFolder};
use loop_engine::table::Table;
use loop_engine::text::{comes_before, int_text, nat_text, parse_i32, starts_with, trim};

fn at(secs: i64) -> Timestamp {
    Timestamp { secs, nanos: 0 }
}

fn folder_row(id: i32, group: Option<i32>, rank: i32) -> folder::Model {
    folder::Model {
        id,
        path: format!("/repo/{id}"),
        name: format!("f{id}"),
        last_opened_at: at(1),
        group_id: group,
        sort_order_in_group: rank,
        git_branch: Some("main".to_string()),
        is_open: true,
        updated_at: at(1),
        deleted_at: None,
    }
}

fn book() -> FolderBook {
    let mut b = FolderBook { groups: Table::new(), folders: Table::new(), events: Vec::new() };
    for name in ["one", "two", "three"] {
        create_folder_group(&mut b, CreateFolderGroupParams { name: name.to_string() }, at(1));
    }
    for (id, group, rank) in [(1, Some(1), 1), (2, Some(1), 0), (3, Some(2), 0), (4, None, 0)] {
        b.folders.insert(folder_row(id, group, rank));
    }
    b
}

fn names(b: &FolderBook) -> Vec<String> {
    list_folder_groups(b).iter().map(|g| g.name.clone()).collect()
}

#[test]
fn groups_are_created_at_the_end_under_trimmed_names() {
    let mut b = book();
    assert_eq!(names(&b), vec!["one", "two", "three"]);
    let g = create_folder_group(
        &mut b,
        CreateFolderGroupParams { name: "  four\u{a0}".to_string() },
        at(2),
    );
    assert_eq!((g.id, g.name.as_str(), g.sort_order), (4, "four", 3));
    assert_eq!(g.created_at, at(2));
    match b.events.last() {
        Some(FolderGroupEvent::Saved(g)) => assert_eq!(g.name, "four"),
        other => panic!("unexpected {other:?}"),
    }
    // Behind the greatest rank, also where that is negative.
    for g in b.groups.rows.iter_mut() {
        g.sort_order = -5;
    }
    let g = create_folder_group(&mut b, CreateFolderGroupParams { name: "x".into() }, at(3));
    assert_eq!(g.sort_order, -4);
}

#[test]
fn groups_are_listed_with_their_folders_in_order() {
    let mut b = book();
    let groups = list_folder_groups(&b);
    let folders: Vec<Vec<i32>> =
        groups.iter().map(|g| g.folders.iter().map(|f| f.id).collect()).collect();
    assert_eq!(folders, vec![vec![2, 1], vec![3], vec![]]);
    assert_eq!(groups[0].folders[0].path, "/repo/2");
    assert_eq!(groups[0].folders[0].git_branch.as_deref(), Some("main"));
    // Equal ranks are told apart by the id.
    for g in b.groups.rows.iter_mut() {
        g.sort_order = 7;
    }
    assert_eq!(names(&b), vec!["one", "two", "three"]);
    assert_eq!(to_folder_entry(folder_row(9, None, 2)).sort_order_in_group, 2);
}

#[test]
fn groups_are_renamed_unless_gone() {
    let mut b = book();
    let r = rename_folder_group(
        &mut b,
        RenameFolderGroupParams { group_id: 2, name: "\tdeux ".to_string() },
        at(5),
    );
    assert_eq!(r.unwrap().name, "deux");
    assert_eq!(names(&b), vec!["one", "deux", "three"]);
    let n = b.events.len();
    let missing = RenameFolderGroupParams { group_id: 9, name: "x".to_string() };
    assert!(rename_folder_group(&mut b, missing, at(5)).is_none());
    remove_folder_group(&mut b, RemoveFolderGroupParams { group_id: 2 }, at(6));
    let gone = RenameFolderGroupParams { group_id: 2, name: "x".to_string() };
    assert!(rename_folder_group(&mut b, gone, at(7)).is_none());
    assert_eq!(b.events.len(), n + 1);
}

#[test]
fn removing_a_group_cascades_once() {
    let mut b = book();
    assert_eq!(remove_folder_group(&mut b, RemoveFolderGroupParams { group_id: 1 }, at(5)), 2);
    assert_eq!(names(&b), vec!["two", "three"]);
    assert_eq!(b.folders.rows[0].deleted_at, Some(at(5)));
    assert!(!b.folders.rows[1].is_open);
    assert!(b.folders.rows[2].is_open);
    assert!(matches!(
        b.events.last(),
        Some(FolderGroupEvent::Removed { id: 1, cascaded_folders: 2 })
    ));
    assert_eq!(remove_folder_group(&mut b, RemoveFolderGroupParams { group_id: 1 }, at(6)), 0);
    assert_eq!(b.folders.rows[0].deleted_at, Some(at(5)));
}

#[test]
fn reordering_gives_the_listed_order() {
    let mut b = book();
    reorder_folder_groups(
        &mut b,
        ReorderFolderGroupsParams { ordered_ids: vec![3, 1, 2] },
        at(5),
    );
    assert_eq!(names(&b), vec!["three", "one", "two"]);
    // Unknown ids are skipped; of an id listed twice the later place counts.
    reorder_folder_groups(
        &mut b,
        ReorderFolderGroupsParams { ordered_ids: vec![3, 99, 2, 1, 3] },
        at(6),
    );
    assert_eq!(names(&b), vec!["two", "one", "three"]);
    assert_eq!(b.groups.rows[2].sort_order, 4);
    assert!(matches!(b.events.last(), Some(FolderGroupEvent::Reordered(ids)) if ids.len() == 5));

    reorder_folders_in_group(
        &mut b,
        ReorderFoldersInGroupParams { group_id: 1, ordered_folder_ids: vec![1, 3, 2] },
        at(7),
    );
    // Folder 3 is in another group and stays as it is.
    assert_eq!(b.folders.rows[0].sort_order_in_group, 0);
    assert_eq!(b.folders.rows[1].sort_order_in_group, 2);
    assert_eq!(b.folders.rows[2].sort_order_in_group, 0);
    assert_eq!(b.folders.rows[2].updated_at, at(1));
    assert!(matches!(
        b.events.last(),
        Some(FolderGroupEvent::FoldersReordered { group_id: 1, .. })
    ));
}

#[test]
fn folder_ranks_and_empty_groups() {
    let mut b = book();
    assert_eq!(next_folder_sort_order(&b.folders, 1), 2);
    assert_eq!(next_folder_sort_order(&b.folders, 3), 0);
    remove_group_if_empty(&mut b.groups, &b.folders, 1, at(5));
    assert_eq!(b.groups.rows[0].deleted_at, None);
    remove_group_if_empty(&mut b.groups, &b.folders, 3, at(5));
    assert_eq!(b.groups.rows[2].deleted_at, Some(at(5)));
    remove_group_if_empty(&mut b.groups, &b.folders, 3, at(6));
    assert_eq!(b.groups.rows[2].deleted_at, Some(at(5)));
    // A folder that was removed does not keep its group.
    b.folders.rows[2].deleted_at = Some(at(6));
    remove_group_if_empty(&mut b.groups, &b.folders, 2, at(7));
    assert_eq!(b.groups.rows[1].deleted_at, Some(at(7)));
}

#[test]
fn backfill_gives_each_folder_a_group() {
    let legacy = |id: i32, opened: &str, deleted: Option<&str>| LegacyFolder {
        id,
        name: format!("n{id}"),
        last_opened_at: opened.to_string(),
        deleted_at: deleted.map(String::from),
    };
    let groups = backfill_groups(&vec![
        legacy(1, "2026-04-01 10:00:00", Some("2026-04-02")),
        legacy(2, "2026-04-01 10:00:00", None),
        legacy(3, "2026-04-03 10:00:00", None),
        legacy(5, "2026-04-01 10:00:00", None),
        legacy(4, "2026-04-01 10:00:00", None),
    ]);
    let seen: Vec<(i32, i32)> = groups.iter().map(|g| (g.folder_id, g.sort_order)).collect();
    assert_eq!(seen, vec![(3, 0), (2, 1), (4, 2), (5, 3), (1, 4)]);
    assert_eq!(groups[0].name, "n3");
    assert_eq!(groups[0].deleted_at, None);
    assert_eq!(groups[4].deleted_at.as_deref(), Some("2026-04-02"));
    assert!(backfill_groups(&vec![]).is_empty());
}

#[test]
fn metrics_count_and_snapshot() {
    let mut m = EngineMetrics::default();
    EngineMetrics::inc(&mut m.settle_events_total);
    EngineMetrics::inc(&mut m.settle_events_total);
    EngineMetrics::inc(&mut m.lag_sweep_total);
    let s = m.snapshot();
    assert_eq!((s.settle_events_total, s.lag_sweep_total), (2, 1));
    let mut c = u64::MAX;
    EngineMetrics::inc(&mut c);
    assert_eq!(c, 0);
}

#[test]
fn text_helpers() {
    assert_eq!(int_text(0), "0");
    assert_eq!(int_text(i32::MIN), "-2147483648");
    assert_eq!(nat_text(u64::MAX), u64::MAX.to_string());
    for n in [-1, 0, 9, 10, 4242, i32::MAX, i32::MIN] {
        assert_eq!(parse_i32(&int_text(n)), Some(n));
    }
    assert_eq!(parse_i32(""), None);
    assert_eq!(parse_i32("٣"), None);
    assert_eq!(trim(" \u{85}a b\u{2029}\n"), "a b");
    assert_eq!(trim(" \t"), "");
    for c in ['\u{9}', '\u{d}', ' ', '\u{1680}', '\u{2000}', '\u{200a}', '\u{202f}', '\u{205f}'] {
        assert_eq!(trim(&format!("{c}x{c}")), format!("{c}x{c}").trim());
    }
    assert_eq!(trim("\u{200b}x"), "\u{200b}x");
    assert!(starts_with("oscillation:5", "oscillation:"));
    assert!(!starts_with("oscillation", "oscillation:"));
    assert!(comes_before("a", "ab") && comes_before("a", "b") && !comes_before("b", "b"));
    assert!(!comes_before("ab", "a") && comes_before("", "a"));
}
