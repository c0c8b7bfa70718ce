//! Staleness classification from observations, and the compact age formats.

use orchestra::report::{signal_detail, signal_key, summarize_files};
use orchestra::staleness::{
    check, format_datetime_age, format_seconds, format_system_time_age, ExtraStoreFileObs,
    ManagedFileObs, StalenessSignal,
};
use orchestra::sync::HashStore;

fn obs(path: &str, rel: &str, exists: bool, digest: Option<&str>) -> ManagedFileObs {
    ManagedFileObs {
        path: path.to_string(),
        rel_path: rel.to_string(),
        exists,
        digest: digest.map(str::to_string),
    }
}

fn synced_store() -> HashStore {
    let mut store = HashStore::new();
    store.insert("/code/api/ASSISTANT.md", "deadbeef".to_string());
    store
}

#[test]
fn returns_current_after_sync() {
    let store = synced_store();
    let files = vec![obs("/code/api/ASSISTANT.md", "ASSISTANT.md", true, Some("deadbeef"))];
    let signal = check(true, &store, 2_000, 1_000, 1_500, &files, &vec![]);
    assert!(matches!(signal, StalenessSignal::Current));
}

#[test]
fn returns_never_synced_when_hash_store_missing() {
    let store = HashStore::new();
    let files = vec![obs("/code/api/ASSISTANT.md", "ASSISTANT.md", false, None)];
    let signal = check(false, &store, 2_000, 1_000, 1_500, &files, &vec![]);
    assert!(matches!(signal, StalenessSignal::NeverSynced));
}

#[test]
fn never_synced_when_store_has_no_entries() {
    let store = HashStore::new();
    let files = vec![obs("/code/api/ASSISTANT.md", "ASSISTANT.md", true, Some("deadbeef"))];
    let signal = check(true, &store, 2_000, 1_000, 1_500, &files, &vec![]);
    assert!(matches!(signal, StalenessSignal::NeverSynced));
}

#[test]
fn stale_on_missing_managed_file() {
    let store = synced_store();
    let files = vec![obs("/code/api/ASSISTANT.md", "ASSISTANT.md", false, None)];
    let signal = check(true, &store, 2_000, 1_000, 1_500, &files, &vec![]);
    match signal {
        StalenessSignal::Stale { reason } => {
            assert!(reason.contains("missing"));
            assert!(reason.contains("ASSISTANT.md"));
        },
        other => panic!("expected stale, got {other:?}"),
    }
}

#[test]
fn returns_stale_when_registry_newer_than_managed_files() {
    let store = synced_store();
    let files = vec![obs("/code/api/ASSISTANT.md", "ASSISTANT.md", true, Some("deadbeef"))];
    let signal = check(true, &store, 2_000, 1_800, 1_500, &files, &vec![]);
    match signal {
        StalenessSignal::Stale { reason } => assert!(reason.contains("registry")),
        other => panic!("expected stale, got {other:?}"),
    }
}

#[test]
fn returns_modified_when_managed_file_is_edited() {
    let store = synced_store();
    let files = vec![obs("/code/api/ASSISTANT.md", "ASSISTANT.md", true, Some("cafebabe"))];
    let signal = check(true, &store, 2_000, 1_000, 1_500, &files, &vec![]);
    match signal {
        StalenessSignal::Modified { files } => {
            assert!(files.iter().any(|p| p == "ASSISTANT.md"));
        },
        other => panic!("expected modified, got {other:?}"),
    }
}

#[test]
fn returns_orphan_when_hash_entry_missing_for_existing_managed_file() {
    let mut store = HashStore::new();
    store.insert("/code/api/AGENTS.md", "deadbeef".to_string());
    let files = vec![
        obs("/code/api/ASSISTANT.md", "ASSISTANT.md", true, Some("cafebabe")),
        obs("/code/api/AGENTS.md", "AGENTS.md", true, Some("deadbeef")),
    ];
    let signal = check(true, &store, 2_000, 1_000, 1_500, &files, &vec![]);
    match signal {
        StalenessSignal::Orphan { files } => {
            assert!(files.iter().any(|p| p == "ASSISTANT.md"));
        },
        other => panic!("expected orphan, got {other:?}"),
    }
}

#[test]
fn orphan_detects_store_paths_outside_managed_set() {
    let store = synced_store();
    let files = vec![obs("/code/api/ASSISTANT.md", "ASSISTANT.md", true, Some("deadbeef"))];
    let extra = vec![ExtraStoreFileObs { rel_path: "legacy_agent.md".to_string(), exists: true }];
    let signal = check(true, &store, 2_000, 1_000, 1_500, &files, &extra);
    match signal {
        StalenessSignal::Orphan { files } => {
            assert!(files.iter().any(|p| p == "legacy_agent.md"));
        },
        other => panic!("expected orphan, got {other:?}"),
    }
}

#[test]
fn modified_files_are_sorted_and_deduplicated() {
    let mut store = HashStore::new();
    store.insert("/code/api/GEMINI.md", "deadbeef".to_string());
    store.insert("/code/api/AGENTS.md", "deadbeef".to_string());
    let files = vec![
        obs("/code/api/GEMINI.md", "GEMINI.md", true, Some("cafebabe")),
        obs("/code/api/AGENTS.md", "AGENTS.md", true, Some("cafebabe")),
    ];
    let signal = check(true, &store, 2_000, 1_000, 1_500, &files, &vec![]);
    match signal {
        StalenessSignal::Modified { files } => {
            assert_eq!(files, vec!["AGENTS.md".to_string(), "GEMINI.md".to_string()]);
        },
        other => panic!("expected modified, got {other:?}"),
    }
}

#[test]
fn orphan_files_are_sorted_and_deduplicated() {
    let mut store = HashStore::new();
    store.insert("/code/api/unrelated.md", "deadbeef".to_string());
    let files = vec![
        obs("/code/api/GEMINI.md", "GEMINI.md", true, Some("cafebabe")),
        obs("/code/api/AGENTS.md", "AGENTS.md", true, Some("cafebabe")),
    ];
    let extra = vec![
        ExtraStoreFileObs { rel_path: "AGENTS.md".to_string(), exists: true },
        ExtraStoreFileObs { rel_path: "legacy.md".to_string(), exists: true },
    ];
    let signal = check(true, &store, 2_000, 1_000, 1_500, &files, &extra);
    match signal {
        StalenessSignal::Orphan { files } => {
            assert_eq!(
                files,
                vec!["AGENTS.md".to_string(), "GEMINI.md".to_string(), "legacy.md".to_string()],
                "orphans are sorted with duplicates dropped"
            );
        },
        other => panic!("expected orphan, got {other:?}"),
    }
}

#[test]
fn missing_files_are_sorted_in_the_reason() {
    let mut store = HashStore::new();
    store.insert("/code/api/GEMINI.md", "deadbeef".to_string());
    let files = vec![
        obs("/code/api/GEMINI.md", "GEMINI.md", false, None),
        obs("/code/api/AGENTS.md", "AGENTS.md", false, None),
        obs("/code/api/AGENTS.md", "AGENTS.md", false, None),
    ];
    let signal = check(true, &store, 2_000, 1_000, 1_500, &files, &vec![]);
    match signal {
        StalenessSignal::Stale { reason } => {
            assert_eq!(reason, "missing 2 managed file(s): AGENTS.md, GEMINI.md");
        },
        other => panic!("expected stale, got {other:?}"),
    }
}

#[test]
fn datetime_age_and_system_age_are_compact() {
    let now: i64 = 1_700_000_000;
    assert_eq!(format_datetime_age(now, now), "0s");
    assert_eq!(format_system_time_age(1_700_000_065, 1_700_000_000), "1m");
}

#[test]
fn compact_durations_have_exact_units() {
    assert_eq!(format_seconds(0), "0s");
    assert_eq!(format_seconds(59), "59s");
    assert_eq!(format_seconds(60), "1m");
    assert_eq!(format_seconds(3_599), "59m");
    assert_eq!(format_seconds(3_600), "1h");
    assert_eq!(format_seconds(86_399), "23h");
    assert_eq!(format_seconds(86_400), "1d");
    assert_eq!(format_seconds(172_800), "2d");
}

#[test]
fn signal_texts_summarise_their_files() {
    assert_eq!(signal_key(&StalenessSignal::NeverSynced), "never_synced");
    assert_eq!(signal_detail(&StalenessSignal::Current), "up to date");
    let modified = StalenessSignal::Modified {
        files: vec!["a.md".to_string(), "b.md".to_string(), "c.md".to_string()],
    };
    assert_eq!(signal_detail(&modified), "a.md, b.md, +1 more edited");
    assert_eq!(summarize_files(&vec![]), "unknown file");
}
