//! Hash-gated writes and the sync rendering context.

use orchestra::renderer::build_sync_context;
use orchestra::sync::{
    atomic_write, normalize_line_endings, sync_codebase_writes, HashStore, WriteResult,
};
use orchestra::types::{Codebase, CodebaseName, Project, ProjectName, ProjectType};

fn make_codebase_for_context(name: &str) -> Codebase {
    let now: i64 = 1_700_000_000;
    Codebase {
        name: CodebaseName::from(name),
        path: format!("/tmp/{name}"),
        projects: vec![Project {
            name: ProjectName::from("api"),
            project_type: ProjectType::Backend,
            tasks: vec![],
            agents: vec![],
        }],
        created_at: now,
        updated_at: now,
    }
}

#[test]
fn first_write_returns_written() {
    let mut store = HashStore::new();
    let result = atomic_write("/tmp/x/ASSISTANT.md", "hello", &mut store, false);
    assert!(matches!(result, WriteResult::Written { .. }));
    let digest = store.get("/tmp/x/ASSISTANT.md").expect("digest recorded");
    assert_eq!(
        digest,
        "2cf24dba5fb0a30e26e83b2ac5b9e29e1b161e5c1fa7425e73043362938b9824",
        "the store records the hex digest of the content, not the content"
    );
}

#[test]
fn second_write_same_content_returns_unchanged() {
    let mut store = HashStore::new();
    atomic_write("/tmp/x/file.md", "same content", &mut store, false);
    let result = atomic_write("/tmp/x/file.md", "same content", &mut store, false);
    assert!(matches!(result, WriteResult::Unchanged { .. }));
}

#[test]
fn changed_content_returns_written() {
    let mut store = HashStore::new();
    atomic_write("/tmp/x/file.md", "v1", &mut store, false);
    let result = atomic_write("/tmp/x/file.md", "v2", &mut store, false);
    assert!(matches!(result, WriteResult::Written { .. }));
}

#[test]
fn dry_run_does_not_write_file() {
    let mut store = HashStore::new();
    let result = atomic_write("/tmp/x/nope.md", "content", &mut store, true);
    assert!(matches!(result, WriteResult::WouldWrite { .. }));
    assert!(store.get("/tmp/x/nope.md").is_none(), "dry-run must not record a digest");
}

#[test]
fn crlf_and_lf_content_share_the_same_hash() {
    let mut store = HashStore::new();
    let first = atomic_write("/tmp/x/normalize.md", "line1\r\nline2\r\n", &mut store, false);
    assert!(matches!(first, WriteResult::Written { .. }));

    let second = atomic_write("/tmp/x/normalize.md", "line1\nline2\n", &mut store, false);
    assert!(matches!(second, WriteResult::Unchanged { .. }));

    assert_eq!(normalize_line_endings("line1\r\nline2\r\n"), "line1\nline2\n");
}

#[test]
fn codebase_writes_follow_the_store() {
    let mut store = HashStore::new();
    let outputs = vec![
        ("/code/api/ASSISTANT.md".to_string(), "alpha".to_string()),
        ("/code/api/AGENTS.md".to_string(), "beta".to_string()),
    ];
    let first = sync_codebase_writes("api", &outputs, &mut store, false);
    assert_eq!(first.codebase_name, "api");
    assert_eq!(first.writes.len(), 2);
    assert!(first.writes.iter().all(|w| matches!(w, WriteResult::Written { .. })));

    let second = sync_codebase_writes("api", &outputs, &mut store, false);
    assert!(second.writes.iter().all(|w| matches!(w, WriteResult::Unchanged { .. })));
}

#[test]
fn dry_run_context_has_no_last_synced() {
    let codebase = make_codebase_for_context("ctx");
    let synced_at: i64 = 1_700_000_123;
    let ctx = build_sync_context(&codebase, true, true, synced_at);
    assert!(ctx.meta.last_synced.is_none());
}

#[test]
fn non_dry_run_context_uses_store_synced_at_when_available() {
    let codebase = make_codebase_for_context("ctx");
    let synced_at: i64 = 1_700_000_123;

    let with_store = build_sync_context(&codebase, false, true, synced_at);
    assert_eq!(with_store.meta.last_synced, Some(synced_at));

    let without_store = build_sync_context(&codebase, false, false, synced_at);
    assert!(without_store.meta.last_synced.is_none());
}
