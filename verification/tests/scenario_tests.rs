//! An end-to-end pass through the daemon's verified decisions: a registry
//! file edit turns into a debounced trigger, a processed sync job, a fresh
//! cache, and a status snapshot that reflects the edit — with no explicit
//! sync request.

use orchestra::debounce::DebounceTable;
use orchestra::paths::projects_root;
use orchestra::renderer::from_codebase;
use orchestra::report::{build_report, CodebaseStatus};
use orchestra::runtime::{
    build_status_payload, process_job, RegistryCache, SyncJob, SyncOutcome, SyncTarget,
    SyncTimestamps,
};
use orchestra::staleness::StalenessSignal;
use orchestra::sync::{sync_codebase_writes, HashStore, WriteResult};
use orchestra::types::{Codebase, CodebaseName, Project, ProjectName, ProjectType};
use orchestra::watcher::{is_registry_yaml, sync_target_for_path};

fn codebase_with_project(name: &str, project: &str) -> Codebase {
    Codebase {
        name: CodebaseName::from(name),
        path: format!("/code/{name}"),
        projects: vec![Project {
            name: ProjectName::from(project),
            project_type: ProjectType::Backend,
            tasks: vec![],
            agents: vec![],
        }],
        created_at: 1_000_000,
        updated_at: 1_000_000,
    }
}

#[test]
fn registry_edit_flows_through_to_a_fresh_status() {
    let home = "/home/tester";
    let projects = projects_root(home);

    // The daemon starts with the registry as it stood.
    let mut cache: RegistryCache = vec![codebase_with_project("copnow_api", "old-name")];
    let mut timestamps = SyncTimestamps::new();
    let mut debounce = DebounceTable::new();
    let mut store = HashStore::new();

    // The registry file is edited externally: the project is renamed.
    let changed = format!("{projects}/copnow/copnow_api.yaml");
    assert!(is_registry_yaml(&changed, &projects));
    assert!(
        debounce.should_process_event_with_threshold(&changed, 1_000, 500),
        "the first event in a burst fires"
    );
    assert!(
        !debounce.should_process_event_with_threshold(&changed, 1_010, 500),
        "churn within the window is coalesced"
    );
    let target = sync_target_for_path(&changed);
    let job = match target {
        SyncTarget::Codebase(ref name) => {
            assert_eq!(name, "copnow_api");
            SyncJob { target, source: "watcher".to_string() }
        },
        other => panic!("expected a single-codebase job, got {other:?}"),
    };

    // The collaborator renders from the edited registry; the managed file is
    // written because its content changed.
    let edited = codebase_with_project("copnow_api", "new-name");
    let ctx = from_codebase(&edited);
    let rendered = format!(
        "# {}\nprojects: {}\n",
        ctx.codebase_name, ctx.stack.projects[0].name
    );
    let outputs = vec![("/code/copnow_api/ASSISTANT.md".to_string(), rendered.clone())];
    let result = sync_codebase_writes("copnow_api", &outputs, &mut store, false);
    assert!(matches!(result.writes[0], WriteResult::Written { .. }));
    assert!(rendered.contains("new-name"), "the managed output carries the new name");

    // The processor completes the job: fresh snapshot in, timestamp stamped.
    let reload: Result<RegistryCache, String> = Ok(vec![edited]);
    let reply = process_job(
        &job,
        SyncOutcome::Success(vec![result]),
        reload,
        &mut cache,
        &mut timestamps,
        2_000,
        35,
    );
    let summary = reply.expect("watcher-triggered sync completes");
    assert_eq!(summary.target, "copnow_api");
    assert_eq!(summary.source, "watcher");
    assert_eq!(summary.written, 1);

    // A status request after the reply reflects the updated registry.
    let payload = build_status_payload(home, &cache, &timestamps, 1_000);
    assert_eq!(payload.codebases.len(), 1);
    assert_eq!(payload.codebases[0].name, "copnow_api");
    assert_eq!(payload.codebases[0].last_sync_at_unix, 2_000);
    assert_eq!(cache[0].projects[0].name, ProjectName::from("new-name"));
}

#[test]
fn report_counts_projects_and_stale_rows() {
    let row = |project: &str, codebase: &str, signal: StalenessSignal| CodebaseStatus {
        project: project.to_string(),
        codebase: codebase.to_string(),
        detail: String::new(),
        signal,
        last_sync_age: "never".to_string(),
        last_sync_at: None,
        active_tasks: 0,
    };
    let rows = vec![
        row("copnow", "api", StalenessSignal::Current),
        row("copnow", "worker", StalenessSignal::Stale { reason: "registry changed".into() }),
        row("other", "site", StalenessSignal::NeverSynced),
    ];
    let report = build_report(rows);
    assert_eq!(report.project_count, 2);
    assert_eq!(report.stale_count, 1);
    assert_eq!(report.needs_sync_count, 2);
    assert_eq!(report.codebases.len(), 3);
}
