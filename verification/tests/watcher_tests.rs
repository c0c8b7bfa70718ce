//! Watcher decisions: event filtering, registry-file matching, sync targets
//! and the watched-directory set.

use orchestra::runtime::SyncTarget;
use orchestra::watcher::{
    directory_to_watch, extension_of, file_name_of, file_stem_of, is_registry_yaml,
    is_relevant_event_kind, sync_target_for_path, WatchedDirs, WatchEventKind,
};

#[test]
fn only_create_and_modify_events_matter() {
    assert!(is_relevant_event_kind(&WatchEventKind::Create));
    assert!(is_relevant_event_kind(&WatchEventKind::Modify));
    assert!(!is_relevant_event_kind(&WatchEventKind::Remove));
    assert!(!is_relevant_event_kind(&WatchEventKind::Access));
    assert!(!is_relevant_event_kind(&WatchEventKind::Other));
}

#[test]
fn registry_files_lie_under_the_projects_root_with_a_yaml_extension() {
    let projects = "/home/tester/.orchestra/projects";
    assert!(is_registry_yaml("/home/tester/.orchestra/projects/copnow/api.yaml", projects));
    assert!(is_registry_yaml("/home/tester/.orchestra/projects/copnow/api.YAML", projects));
    assert!(!is_registry_yaml("/home/tester/.orchestra/projects/copnow/api.yml", projects));
    assert!(!is_registry_yaml("/home/tester/elsewhere/api.yaml", projects));
    assert!(!is_registry_yaml("/home/tester/.orchestra/projects/copnow/README", projects));
}

#[test]
fn project_index_changes_escalate_to_a_full_sync() {
    let target = sync_target_for_path("/home/t/.orchestra/projects/copnow/project.yaml");
    assert!(matches!(target, SyncTarget::All));

    match sync_target_for_path("/home/t/.orchestra/projects/copnow/copnow_api.yaml") {
        SyncTarget::Codebase(name) => assert_eq!(name, "copnow_api"),
        other => panic!("expected a single-codebase target, got {other:?}"),
    }
}

#[test]
fn path_segments_follow_the_std_model() {
    assert_eq!(file_name_of("/a/b/c.yaml"), "c.yaml");
    assert_eq!(file_stem_of("/a/b/c.yaml"), "c");
    assert_eq!(extension_of("/a/b/c.yaml").as_deref(), Some("yaml"));
    assert_eq!(extension_of("/a/b/noext").as_deref(), None);
    assert_eq!(extension_of("/a/b/.hidden").as_deref(), None);
    assert_eq!(file_stem_of("/a/b/.hidden"), ".hidden");
}

#[test]
fn directories_to_watch_are_the_parents_of_changed_files() {
    assert_eq!(directory_to_watch("/a/b", true).as_deref(), Some("/a/b"));
    assert_eq!(directory_to_watch("/a/b/c.yaml", false).as_deref(), Some("/a/b"));
    assert_eq!(directory_to_watch("plain", false), None);
}

#[test]
fn watch_registration_is_idempotent() {
    let mut dirs = WatchedDirs::new();
    assert!(dirs.register("/a/b"), "a new directory registers");
    assert!(!dirs.register("/a/b"), "an already-watched directory does not");
    assert!(dirs.register("/a/c"), "another new directory registers");
}
