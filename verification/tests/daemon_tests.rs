//! The daemon runtime's decisions: debouncing, the sync processor, the
//! status snapshot, and the socket protocol.

use orchestra::debounce::DebounceTable;
use orchestra::protocol::{
    classify_request, connect_failure_means_not_running, handle_stop, prepare_socket_for_bind,
    response_into_data, status_retry_decision, unknown_command_response, BindPreparation,
    ConnectErrorKind, DaemonRequest, DaemonResponse, RequestAction, ResponseData, RetryDecision,
    ShutdownFlag, STATUS_RETRY_ATTEMPTS, STATUS_RETRY_DELAY_MS,
};
use orchestra::runtime::{
    build_status_payload, build_sync_summary, process_job, RegistryCache, SyncJob, SyncOutcome,
    SyncTarget, SyncTimestamps,
};
use orchestra::sync::{SyncCodebaseResult, WriteResult};
use orchestra::types::{Codebase, CodebaseName};

fn make_codebase(name: &str) -> Codebase {
    Codebase {
        name: CodebaseName::from(name),
        path: format!("/code/{name}"),
        projects: vec![],
        created_at: 1_000_000,
        updated_at: 1_000_000,
    }
}

#[test]
fn debounce_coalesces_rapid_events() {
    let threshold: u64 = 100;
    let mut debounce = DebounceTable::new();
    let path = "/tmp/copenow_api.yaml";
    let mut sync_triggers = 0usize;
    let mut now: u64 = 0;

    for _ in 0..5 {
        if debounce.should_process_event_with_threshold(path, now, threshold) {
            sync_triggers += 1;
        }
        now += 10;
    }

    now += 150;
    assert_eq!(sync_triggers, 1, "rapid saves should collapse to one sync trigger");
    assert!(
        debounce.should_process_event_with_threshold(path, now, threshold),
        "an event after the window fires a second trigger"
    );
}

#[test]
fn status_payload_has_last_sync_at_unix_when_never_synced() {
    let cache: RegistryCache = Vec::new();
    let timestamps = SyncTimestamps::new();

    let payload = build_status_payload("/home/tester", &cache, &timestamps, 1_000_000);

    assert!(payload.running);
    assert_eq!(payload.started_at_unix, 1_000_000);
    assert_eq!(payload.last_sync_at_unix, 0, "should be 0 before any sync");
    assert!(payload.codebases.is_empty(), "empty codebases when cache is empty");
}

#[test]
fn status_payload_includes_per_codebase_last_sync_timestamps() {
    let cache: RegistryCache = vec![make_codebase("api"), make_codebase("worker")];
    let mut timestamps = SyncTimestamps::new();
    timestamps.insert("api", 1_000_100);
    timestamps.insert("worker", 1_000_200);

    let payload = build_status_payload("/home/tester", &cache, &timestamps, 1_000_000);

    assert_eq!(
        payload.last_sync_at_unix, 1_000_200,
        "daemon-wide last_sync should be the max codebase timestamp"
    );
    assert_eq!(payload.codebases.len(), 2, "two codebases expected");
    for cb in &payload.codebases {
        match cb.name.as_str() {
            "api" => assert_eq!(cb.last_sync_at_unix, 1_000_100, "api timestamp mismatch"),
            "worker" => assert_eq!(cb.last_sync_at_unix, 1_000_200, "worker timestamp mismatch"),
            other => panic!("unexpected codebase name: {other}"),
        }
    }
    assert_eq!(payload.socket, "/home/tester/.orchestra/daemon.sock");
    assert_eq!(payload.projects_root, "/home/tester/.orchestra/projects");
}

#[test]
fn status_rows_are_sorted_by_name() {
    let cache: RegistryCache = vec![make_codebase("worker"), make_codebase("api")];
    let timestamps = SyncTimestamps::new();
    let payload = build_status_payload("/home/tester", &cache, &timestamps, 1_000_000);
    let names: Vec<&str> = payload.codebases.iter().map(|c| c.name.as_str()).collect();
    assert_eq!(names, vec!["api", "worker"], "rows are sorted ascending by name");
}

#[test]
fn sync_processor_records_codebase_timestamps_on_success() {
    let job = SyncJob { target: SyncTarget::All, source: "watcher".to_string() };
    let outcome = SyncOutcome::Success(vec![SyncCodebaseResult {
        codebase_name: "copnow_api".to_string(),
        writes: vec![],
    }]);
    let reload: Result<RegistryCache, String> = Ok(vec![make_codebase("copnow_api")]);
    let mut cache: RegistryCache = Vec::new();
    let mut timestamps = SyncTimestamps::new();

    let reply = process_job(&job, outcome, reload, &mut cache, &mut timestamps, 42, 7);

    assert!(reply.is_ok());
    assert_eq!(*timestamps.get("copnow_api").expect("timestamp recorded"), 42);
    assert_eq!(cache.len(), 1);
}

#[test]
fn failed_sync_updates_nothing_and_replies_with_the_error() {
    let job = SyncJob {
        target: SyncTarget::Codebase("api".to_string()),
        source: "socket".to_string(),
    };
    let outcome = SyncOutcome::Failure("render error: missing template".to_string());
    let reload: Result<RegistryCache, String> = Ok(vec![make_codebase("api")]);
    let mut cache: RegistryCache = vec![make_codebase("old")];
    let mut timestamps = SyncTimestamps::new();
    timestamps.insert("api", 5);

    let reply = process_job(&job, outcome, reload, &mut cache, &mut timestamps, 42, 7);

    assert_eq!(reply.unwrap_err(), "render error: missing template");
    assert_eq!(cache.len(), 1, "cache must stay untouched on failure");
    assert_eq!(cache[0].name, CodebaseName::from("old"));
    assert_eq!(*timestamps.get("api").unwrap(), 5, "no timestamp update on failure");
}

#[test]
fn timestamps_never_decrease_across_successful_syncs() {
    let job = SyncJob { target: SyncTarget::All, source: "watcher".to_string() };
    let result = || SyncCodebaseResult { codebase_name: "api".to_string(), writes: vec![] };
    let mut cache: RegistryCache = Vec::new();
    let mut timestamps = SyncTimestamps::new();

    let r1 = process_job(
        &job,
        SyncOutcome::Success(vec![result()]),
        Ok(vec![make_codebase("api")]),
        &mut cache,
        &mut timestamps,
        10,
        1,
    );
    assert!(r1.is_ok());
    let first = *timestamps.get("api").unwrap();

    let r2 = process_job(
        &job,
        SyncOutcome::Failure("transient".to_string()),
        Ok(vec![make_codebase("api")]),
        &mut cache,
        &mut timestamps,
        15,
        1,
    );
    assert!(r2.is_err());
    assert_eq!(*timestamps.get("api").unwrap(), first, "failure never updates");

    let r3 = process_job(
        &job,
        SyncOutcome::Success(vec![result()]),
        Ok(vec![make_codebase("api")]),
        &mut cache,
        &mut timestamps,
        20,
        1,
    );
    assert!(r3.is_ok());
    assert!(*timestamps.get("api").unwrap() >= first, "timestamps never decrease");
    assert_eq!(*timestamps.get("api").unwrap(), 20);
}

#[test]
fn summary_counts_written_and_unchanged() {
    let results = vec![
        SyncCodebaseResult {
            codebase_name: "api".to_string(),
            writes: vec![
                WriteResult::Written { path: "/code/api/ASSISTANT.md".to_string() },
                WriteResult::Unchanged { path: "/code/api/AGENTS.md".to_string() },
            ],
        },
        SyncCodebaseResult {
            codebase_name: "worker".to_string(),
            writes: vec![WriteResult::WouldWrite { path: "/code/worker/GEMINI.md".to_string() }],
        },
    ];
    let summary = build_sync_summary(&SyncTarget::All, "socket", &results, 12);
    assert_eq!(summary.target, "all");
    assert_eq!(summary.source, "socket");
    assert_eq!(summary.codebases, vec!["api".to_string(), "worker".to_string()]);
    assert_eq!(summary.written, 2);
    assert_eq!(summary.unchanged, 1);
    assert_eq!(summary.duration_ms, 12);
}

#[test]
fn requests_dispatch_by_command() {
    let status = DaemonRequest { cmd: "status".to_string(), codebase: None };
    assert!(matches!(classify_request(&status), RequestAction::Status));

    let sync_all = DaemonRequest { cmd: "sync".to_string(), codebase: None };
    assert!(matches!(classify_request(&sync_all), RequestAction::Sync(SyncTarget::All)));

    let sync_one = DaemonRequest { cmd: "sync".to_string(), codebase: Some("api".to_string()) };
    match classify_request(&sync_one) {
        RequestAction::Sync(SyncTarget::Codebase(n)) => assert_eq!(n, "api"),
        other => panic!("expected a single-codebase sync, got {other:?}"),
    }

    let stop = DaemonRequest { cmd: "stop".to_string(), codebase: None };
    assert!(matches!(classify_request(&stop), RequestAction::Stop));

    let bogus = DaemonRequest { cmd: "reboot".to_string(), codebase: None };
    assert!(matches!(classify_request(&bogus), RequestAction::Unknown));
}

#[test]
fn unknown_command_is_reported_by_name() {
    let r = unknown_command_response("reboot");
    assert!(!r.ok);
    assert_eq!(r.error.as_deref(), Some("unknown command 'reboot'"));
}

#[test]
fn stop_is_idempotent() {
    let mut shutdown = ShutdownFlag::new();
    assert!(!shutdown.requested);

    let first = handle_stop(&mut shutdown);
    assert!(first.ok);
    assert!(matches!(first.data, Some(ResponseData::Stopping)));
    assert!(shutdown.requested);

    // A second stop, racing whatever came between, must behave the same.
    let second = handle_stop(&mut shutdown);
    assert!(second.ok);
    assert!(matches!(second.data, Some(ResponseData::Stopping)));
    assert!(shutdown.requested);
}

#[test]
fn second_daemon_fails_fast_when_a_peer_answers() {
    let socket = "/home/tester/.orchestra/daemon.sock";
    let err = prepare_socket_for_bind(socket, true, true).unwrap_err();
    assert_eq!(err, format!("daemon socket already in use: {socket}"));

    match prepare_socket_for_bind(socket, true, false) {
        Ok(BindPreparation::RemoveStaleAndBind) => {},
        other => panic!("a stale socket is removed before binding, got {other:?}"),
    }
    match prepare_socket_for_bind(socket, false, false) {
        Ok(BindPreparation::BindDirectly) => {},
        other => panic!("a free path binds directly, got {other:?}"),
    }
}

#[test]
fn sync_replies_carry_summary_or_error() {
    let summary = build_sync_summary(&SyncTarget::All, "socket", &vec![], 3);
    let ok = orchestra::protocol::sync_response(Ok(summary));
    assert!(ok.ok);
    assert!(matches!(ok.data, Some(ResponseData::Sync(_))));

    let err = orchestra::protocol::sync_response(Err("render failed".to_string()));
    assert!(!err.ok);
    assert_eq!(err.error.as_deref(), Some("render failed"));
}

#[test]
fn two_jobs_are_processed_strictly_in_order() {
    // Two jobs with overlapping scope: the processor completes the first —
    // reply included — before it touches the second, so their effects never
    // interleave.
    let job = SyncJob { target: SyncTarget::All, source: "socket".to_string() };
    let mut cache: RegistryCache = Vec::new();
    let mut timestamps = SyncTimestamps::new();

    let first = process_job(
        &job,
        SyncOutcome::Success(vec![SyncCodebaseResult {
            codebase_name: "api".to_string(),
            writes: vec![WriteResult::Written { path: "/code/api/AGENTS.md".to_string() }],
        }]),
        Ok(vec![make_codebase("api")]),
        &mut cache,
        &mut timestamps,
        10,
        1,
    );
    assert!(first.is_ok(), "the first job replied before the second ran");

    let second = process_job(
        &job,
        SyncOutcome::Success(vec![SyncCodebaseResult {
            codebase_name: "api".to_string(),
            writes: vec![WriteResult::Unchanged { path: "/code/api/AGENTS.md".to_string() }],
        }]),
        Ok(vec![make_codebase("api")]),
        &mut cache,
        &mut timestamps,
        11,
        1,
    );
    let summary = second.expect("the second job gets its own reply");
    assert_eq!(summary.written, 0, "the first job's write is not re-counted");
    assert_eq!(summary.unchanged, 1);
}

#[test]
fn connection_failures_distinguish_a_stopped_daemon() {
    assert!(connect_failure_means_not_running(&ConnectErrorKind::NotFound));
    assert!(connect_failure_means_not_running(&ConnectErrorKind::ConnectionRefused));
    assert!(connect_failure_means_not_running(&ConnectErrorKind::ConnectionReset));
    assert!(
        !connect_failure_means_not_running(&ConnectErrorKind::Other),
        "a generic I/O error is not a stopped daemon"
    );
}

#[test]
fn status_requests_retry_with_backoff_while_the_daemon_is_down() {
    assert_eq!(STATUS_RETRY_ATTEMPTS, 5);
    for attempt in 0..STATUS_RETRY_ATTEMPTS - 1 {
        match status_retry_decision(attempt, true) {
            RetryDecision::RetryAfterMs(ms) => assert_eq!(ms, STATUS_RETRY_DELAY_MS),
            RetryDecision::GiveUp => panic!("attempt {attempt} should retry"),
        }
    }
    assert!(matches!(
        status_retry_decision(STATUS_RETRY_ATTEMPTS - 1, true),
        RetryDecision::GiveUp
    ));
    assert!(
        matches!(status_retry_decision(0, false), RetryDecision::GiveUp),
        "other failures are final on the first attempt"
    );
}

#[test]
fn response_data_or_error() {
    let ok = DaemonResponse::ok(ResponseData::Stopping);
    assert!(matches!(response_into_data(ok), Ok(Some(ResponseData::Stopping))));

    let err = DaemonResponse::error("boom".to_string());
    assert_eq!(response_into_data(err).unwrap_err(), "boom");

    let bare = DaemonResponse { ok: false, data: None, error: None };
    assert_eq!(response_into_data(bare).unwrap_err(), "unknown daemon error");
}
