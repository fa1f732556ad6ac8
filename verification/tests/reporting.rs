use memorycard::history::SyncLogEntry;
use memorycard::index::RawFile;
use memorycard::plan::plan_sync_run;
use memorycard::policy::{policy_from_tag, resolve_divergent, ConflictAction, ResolutionPolicy};
use memorycard::report::{outcome_of_plan, transferred_paths, usize_to_string};

#[test]
fn test_greet() {
    let result = memorycard::greet("World");
    assert_eq!(result, "Hello, World! You've been greeted from Rust!");
}

#[test]
fn test_greet_with_empty_name() {
    let result = memorycard::greet("");
    assert_eq!(result, "Hello, ! You've been greeted from Rust!");
}

#[test]
fn decimal_rendering_is_exact() {
    assert_eq!(usize_to_string(0), "0");
    assert_eq!(usize_to_string(7), "7");
    assert_eq!(usize_to_string(10), "10");
    assert_eq!(usize_to_string(12345), "12345");
}

#[test]
fn policy_tags_parse_exactly() {
    assert_eq!(policy_from_tag(&None), ResolutionPolicy::Unset);
    assert_eq!(policy_from_tag(&Some("local".to_string())), ResolutionPolicy::PreferLocal);
    assert_eq!(policy_from_tag(&Some("cloud".to_string())), ResolutionPolicy::PreferCloud);
    assert_eq!(policy_from_tag(&Some("newer".to_string())), ResolutionPolicy::PreferNewer);
    assert_eq!(policy_from_tag(&Some("Local".to_string())), ResolutionPolicy::Unset);
    assert_eq!(policy_from_tag(&Some("".to_string())), ResolutionPolicy::Unset);
}

#[test]
fn resolution_follows_the_policy() {
    assert_eq!(
        resolve_divergent(ResolutionPolicy::PreferLocal, 1, 2),
        ConflictAction::TransferLocalToCloud
    );
    assert_eq!(
        resolve_divergent(ResolutionPolicy::PreferCloud, 2, 1),
        ConflictAction::TransferCloudToLocal
    );
    assert_eq!(
        resolve_divergent(ResolutionPolicy::PreferNewer, 2, 1),
        ConflictAction::TransferLocalToCloud
    );
    assert_eq!(
        resolve_divergent(ResolutionPolicy::PreferNewer, 1, 2),
        ConflictAction::TransferCloudToLocal
    );
    // A tie falls back to the cloud side, deterministically.
    assert_eq!(
        resolve_divergent(ResolutionPolicy::PreferNewer, 5, 5),
        ConflictAction::TransferCloudToLocal
    );
    assert_eq!(
        resolve_divergent(ResolutionPolicy::Unset, 1, 2),
        ConflictAction::Unresolved
    );
}

#[test]
fn messages_match_the_outcome() {
    let plan = plan_sync_run(
        "/local",
        &vec![
            RawFile { absolute_path: "/local/a".to_string(), modified: 1, size: 1 },
            RawFile { absolute_path: "/local/b".to_string(), modified: 2, size: 2 },
        ],
        "/cloud",
        &vec![],
        &None,
    );
    let result = outcome_of_plan(&plan);
    assert_eq!(result.message, "Successfully synced 2 file(s)");

    let plan2 = plan_sync_run(
        "/local",
        &vec![RawFile { absolute_path: "/local/a".to_string(), modified: 1, size: 1 }],
        "/cloud",
        &vec![RawFile { absolute_path: "/cloud/a".to_string(), modified: 2, size: 1 }],
        &None,
    );
    let result2 = outcome_of_plan(&plan2);
    assert_eq!(result2.message, "Found 1 conflict(s) - user resolution required");
}

#[test]
fn transferred_paths_list_the_plan() {
    let plan = plan_sync_run(
        "/local",
        &vec![RawFile { absolute_path: "/local/x.sav".to_string(), modified: 1, size: 1 }],
        "/cloud",
        &vec![RawFile { absolute_path: "/cloud/y.sav".to_string(), modified: 2, size: 2 }],
        &None,
    );
    let paths = transferred_paths(&plan);
    assert_eq!(paths.len(), 2);
    assert!(paths.contains(&"x.sav".to_string()));
    assert!(paths.contains(&"y.sav".to_string()));
}

#[test]
fn sync_log_entry_holds_a_run() {
    let entry = SyncLogEntry {
        id: 1,
        game_id: "g1".to_string(),
        game_name: "My Game".to_string(),
        timestamp: "2024-01-01T00:00:00Z".to_string(),
        operation: "sync".to_string(),
        files_synced: 2,
        files_changed: vec!["a.sav".to_string(), "b.sav".to_string()],
        direction: "bidirectional".to_string(),
        success: true,
        error_message: None,
    };
    assert!(entry.success);
    assert_eq!(entry.files_changed.len(), 2);
    assert_eq!(entry.error_message, None);
}
