use memorycard::index::{build_index, RawFile};
use memorycard::plan::{plan_sync_run, resolve_conflict, Direction, FileConflict, SyncPlan};
use memorycard::report::outcome_of_plan;

fn raw(path: &str, modified: u128, size: u64) -> RawFile {
    RawFile { absolute_path: path.to_string(), modified, size }
}

fn run_plan(
    local_files: Vec<RawFile>,
    cloud_files: Vec<RawFile>,
    auto_resolve: Option<String>,
) -> SyncPlan {
    plan_sync_run("/local", &local_files, "/cloud", &cloud_files, &auto_resolve)
}

#[test]
fn test_sync_game_saves_empty_directories() {
    let plan = run_plan(vec![], vec![], None);
    let result = outcome_of_plan(&plan);
    assert!(result.success);
    assert_eq!(result.files_synced, 0);
    assert!(result.conflicts.is_empty());
    assert_eq!(result.message, "Successfully synced 0 file(s)");
}

#[test]
fn test_sync_game_saves_local_to_cloud() {
    let plan = run_plan(vec![raw("/local/save.dat", 100, 15)], vec![], None);
    let result = outcome_of_plan(&plan);
    assert!(result.success);
    assert_eq!(result.files_synced, 1);
    assert_eq!(plan.transfers.len(), 1);
    let op = &plan.transfers[0];
    assert_eq!(op.relative_path, "save.dat");
    assert_eq!(op.source_path, "/local/save.dat");
    assert_eq!(op.dest_path, "/cloud/save.dat");
    assert_eq!(op.direction, Direction::LocalToCloud);
}

#[test]
fn test_sync_game_saves_cloud_to_local() {
    let plan = run_plan(vec![], vec![raw("/cloud/cloud_save.dat", 100, 15)], None);
    let result = outcome_of_plan(&plan);
    assert!(result.success);
    assert_eq!(result.files_synced, 1);
    let op = &plan.transfers[0];
    assert_eq!(op.relative_path, "cloud_save.dat");
    assert_eq!(op.source_path, "/cloud/cloud_save.dat");
    assert_eq!(op.dest_path, "/local/cloud_save.dat");
    assert_eq!(op.direction, Direction::CloudToLocal);
}

#[test]
fn test_sync_game_saves_bidirectional() {
    let plan = run_plan(
        vec![raw("/local/local_only.dat", 10, 10)],
        vec![raw("/cloud/cloud_only.dat", 20, 10)],
        None,
    );
    let result = outcome_of_plan(&plan);
    assert!(result.success);
    assert_eq!(result.files_synced, 2);
    assert!(result.conflicts.is_empty());
    let to_cloud: Vec<_> = plan
        .transfers
        .iter()
        .filter(|t| t.direction == Direction::LocalToCloud)
        .collect();
    let to_local: Vec<_> = plan
        .transfers
        .iter()
        .filter(|t| t.direction == Direction::CloudToLocal)
        .collect();
    assert_eq!(to_cloud.len(), 1);
    assert_eq!(to_cloud[0].relative_path, "local_only.dat");
    assert_eq!(to_cloud[0].dest_path, "/cloud/local_only.dat");
    assert_eq!(to_local.len(), 1);
    assert_eq!(to_local[0].relative_path, "cloud_only.dat");
    assert_eq!(to_local[0].dest_path, "/local/cloud_only.dat");
}

#[test]
fn test_sync_game_saves_nested_directories() {
    let plan = run_plan(
        vec![
            raw("/local/saves/slot1/game.sav", 1, 11),
            raw("/local/saves/slot2/game.sav", 2, 11),
            raw("/local/config.ini", 3, 11),
        ],
        vec![],
        None,
    );
    let result = outcome_of_plan(&plan);
    assert!(result.success);
    assert_eq!(result.files_synced, 3);
    let rels: Vec<&str> = plan.transfers.iter().map(|t| t.relative_path.as_str()).collect();
    assert!(rels.contains(&"saves/slot1/game.sav"));
    assert!(rels.contains(&"saves/slot2/game.sav"));
    assert!(rels.contains(&"config.ini"));
    let dests: Vec<&str> = plan.transfers.iter().map(|t| t.dest_path.as_str()).collect();
    assert!(dests.contains(&"/cloud/saves/slot1/game.sav"));
    assert!(dests.contains(&"/cloud/saves/slot2/game.sav"));
    assert!(dests.contains(&"/cloud/config.ini"));
}

#[test]
fn test_sync_game_saves_conflict_detection() {
    let plan = run_plan(
        vec![raw("/local/save.dat", 100, 13)],
        vec![raw("/cloud/save.dat", 200, 13)],
        None,
    );
    let result = outcome_of_plan(&plan);
    assert!(!result.success);
    assert_eq!(result.conflicts.len(), 1);
    assert_eq!(result.conflicts[0].relative_path, "save.dat");
    assert_eq!(result.conflicts[0].local_path, "/local/save.dat");
    assert_eq!(result.conflicts[0].cloud_path, "/cloud/save.dat");
    assert_eq!(result.conflicts[0].local_modified, 100);
    assert_eq!(result.conflicts[0].cloud_modified, 200);
    assert_eq!(result.conflicts[0].local_size, 13);
    assert_eq!(result.conflicts[0].cloud_size, 13);
    assert_eq!(result.files_synced, 0);
    assert_eq!(result.message, "Found 1 conflict(s) - user resolution required");
}

#[test]
fn test_sync_game_saves_auto_resolve_local() {
    let plan = run_plan(
        vec![raw("/local/save.dat", 100, 13)],
        vec![raw("/cloud/save.dat", 200, 13)],
        Some("local".to_string()),
    );
    let result = outcome_of_plan(&plan);
    assert!(result.success);
    assert!(result.conflicts.is_empty());
    assert_eq!(result.files_synced, 1);
    let op = &plan.transfers[0];
    assert_eq!(op.direction, Direction::LocalToCloud);
    assert_eq!(op.source_path, "/local/save.dat");
    assert_eq!(op.dest_path, "/cloud/save.dat");
}

#[test]
fn test_sync_game_saves_auto_resolve_cloud() {
    let plan = run_plan(
        vec![raw("/local/save.dat", 100, 13)],
        vec![raw("/cloud/save.dat", 200, 13)],
        Some("cloud".to_string()),
    );
    let result = outcome_of_plan(&plan);
    assert!(result.success);
    let op = &plan.transfers[0];
    assert_eq!(op.direction, Direction::CloudToLocal);
    assert_eq!(op.source_path, "/cloud/save.dat");
    assert_eq!(op.dest_path, "/local/save.dat");
}

#[test]
fn test_sync_game_saves_auto_resolve_newer() {
    // The local file is older; under "newer" the cloud side wins.
    let plan = run_plan(
        vec![raw("/local/save.dat", 100, 19)],
        vec![raw("/cloud/save.dat", 300, 18)],
        Some("newer".to_string()),
    );
    let result = outcome_of_plan(&plan);
    assert!(result.success);
    assert_eq!(result.files_synced, 1);
    let op = &plan.transfers[0];
    assert_eq!(op.direction, Direction::CloudToLocal);
    assert_eq!(op.source_path, "/cloud/save.dat");
    assert_eq!(op.dest_path, "/local/save.dat");
}

#[test]
fn auto_resolve_newer_prefers_strictly_newer_local() {
    let plan = run_plan(
        vec![raw("/local/save.dat", 300, 19)],
        vec![raw("/cloud/save.dat", 100, 18)],
        Some("newer".to_string()),
    );
    assert_eq!(plan.transfers.len(), 1);
    assert_eq!(plan.transfers[0].direction, Direction::LocalToCloud);
}

#[test]
fn same_timestamp_needs_no_transfer() {
    // Equal timestamps classify as identical whatever the sizes, and
    // repeating the run changes nothing.
    for _ in 0..3 {
        let plan = run_plan(
            vec![raw("/local/save.dat", 500, 10)],
            vec![raw("/cloud/save.dat", 500, 9999)],
            None,
        );
        let result = outcome_of_plan(&plan);
        assert!(result.success);
        assert_eq!(result.files_synced, 0);
        assert!(result.conflicts.is_empty());
    }
}

#[test]
fn second_run_after_success_is_empty() {
    // First run: one file on each side only.
    let plan = run_plan(
        vec![raw("/local/a.dat", 1, 4)],
        vec![raw("/cloud/b.dat", 2, 5)],
        None,
    );
    let result = outcome_of_plan(&plan);
    assert!(result.success);
    assert_eq!(result.files_synced, 2);

    // Both trees now hold both files with the copied signatures.
    let plan2 = run_plan(
        vec![raw("/local/a.dat", 1, 4), raw("/local/b.dat", 2, 5)],
        vec![raw("/cloud/b.dat", 2, 5), raw("/cloud/a.dat", 1, 4)],
        None,
    );
    let result2 = outcome_of_plan(&plan2);
    assert!(result2.success);
    assert_eq!(result2.files_synced, 0);
    assert!(result2.conflicts.is_empty());
}

#[test]
fn unknown_policy_surfaces_conflict() {
    let plan = run_plan(
        vec![raw("/local/save.dat", 100, 1)],
        vec![raw("/cloud/save.dat", 200, 2)],
        Some("newest".to_string()),
    );
    let result = outcome_of_plan(&plan);
    assert!(!result.success);
    assert_eq!(result.conflicts.len(), 1);
    assert_eq!(result.conflicts[0].relative_path, "save.dat");
    assert!(plan.transfers.is_empty());
}

#[test]
fn every_path_in_exactly_one_class() {
    let local = build_index(
        "/local",
        &vec![
            raw("/local/only_local.dat", 1, 1),
            raw("/local/same.dat", 5, 1),
            raw("/local/diff.dat", 7, 1),
        ],
    );
    let cloud = build_index(
        "/cloud",
        &vec![
            raw("/cloud/only_cloud.dat", 2, 1),
            raw("/cloud/same.dat", 5, 2),
            raw("/cloud/diff.dat", 8, 1),
        ],
    );
    let d = memorycard::diff::diff_indexes(&local, &cloud);
    let lo: Vec<&str> = d.local_only.iter().map(|e| e.relative_path.as_str()).collect();
    let co: Vec<&str> = d.cloud_only.iter().map(|e| e.relative_path.as_str()).collect();
    let dv: Vec<&str> = d.divergent.iter().map(|e| e.local.relative_path.as_str()).collect();
    assert_eq!(lo, vec!["only_local.dat"]);
    assert_eq!(co, vec!["only_cloud.dat"]);
    assert_eq!(dv, vec!["diff.dat"]);
    // "same.dat" is identical: it appears in no list.
    for list in [&lo, &co, &dv] {
        assert!(!list.contains(&"same.dat"));
    }
}

#[test]
fn test_resolve_conflict_use_local() {
    let conflict = FileConflict {
        relative_path: "save.dat".to_string(),
        local_path: "/local/save.dat".to_string(),
        cloud_path: "/cloud/save.dat".to_string(),
        local_modified: 1,
        cloud_modified: 2,
        local_size: 13,
        cloud_size: 13,
    };
    let op = resolve_conflict(&conflict, true);
    assert_eq!(op.direction, Direction::LocalToCloud);
    assert_eq!(op.source_path, "/local/save.dat");
    assert_eq!(op.dest_path, "/cloud/save.dat");
    assert_eq!(op.relative_path, "save.dat");
}

#[test]
fn test_resolve_conflict_use_cloud() {
    let conflict = FileConflict {
        relative_path: "save.dat".to_string(),
        local_path: "/local/save.dat".to_string(),
        cloud_path: "/cloud/save.dat".to_string(),
        local_modified: 1,
        cloud_modified: 2,
        local_size: 13,
        cloud_size: 13,
    };
    let op = resolve_conflict(&conflict, false);
    assert_eq!(op.direction, Direction::CloudToLocal);
    assert_eq!(op.source_path, "/cloud/save.dat");
    assert_eq!(op.dest_path, "/local/save.dat");
}

#[test]
fn test_get_files_recursive() {
    let index = build_index(
        "/root",
        &vec![
            raw("/root/file1.txt", 1, 8),
            raw("/root/subdir/file2.txt", 2, 8),
            raw("/root/subdir/nested/file3.txt", 3, 8),
        ],
    );
    assert_eq!(index.entries.len(), 3);
    let rels: Vec<&str> = index.entries.iter().map(|e| e.relative_path.as_str()).collect();
    assert!(rels.contains(&"file1.txt"));
    assert!(rels.contains(&"subdir/file2.txt"));
    assert!(rels.contains(&"subdir/nested/file3.txt"));
}

#[test]
fn test_get_files_recursive_empty_dir() {
    let index = build_index("/root", &vec![]);
    assert!(index.entries.is_empty());
}

#[test]
fn indexing_skips_files_outside_the_root() {
    let index = build_index(
        "/root",
        &vec![raw("/root/in.dat", 1, 1), raw("/elsewhere/out.dat", 2, 2), raw("/rootless", 3, 3)],
    );
    assert_eq!(index.entries.len(), 1);
    assert_eq!(index.entries[0].relative_path, "in.dat");
}

#[test]
fn indexing_keeps_first_of_duplicate_paths() {
    let index = build_index(
        "/root",
        &vec![raw("/root/a.dat", 1, 1), raw("/root/a.dat", 9, 9)],
    );
    assert_eq!(index.entries.len(), 1);
    assert_eq!(index.entries[0].modified, 1);
}

#[test]
fn indexing_handles_root_with_trailing_slash() {
    let index = build_index("/root/", &vec![raw("/root/a.dat", 1, 1)]);
    assert_eq!(index.entries.len(), 1);
    assert_eq!(index.entries[0].relative_path, "a.dat");
}
