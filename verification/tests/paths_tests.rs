//! Runtime paths and the launch-agent plist.

use orchestra::launchd::generate_plist;
use orchestra::paths::{
    codebase_path_at, launchd_plist_path, logs_dir, numbered_path, orchestra_root, projects_root,
    run_dir, socket_path, stderr_log_path, stdout_log_path, store_path_at,
};
use orchestra::types::{CodebaseName, ProjectName};

#[test]
fn codebase_path_is_correct() {
    let path = codebase_path_at(
        "/home/tester",
        &ProjectName::from("copnow"),
        &CodebaseName::from("copnow_api"),
    );
    assert!(path.ends_with(".orchestra/projects/copnow/copnow_api.yaml"));
}

#[test]
fn runtime_paths_hang_off_the_home_directory() {
    let home = "/home/tester";
    assert_eq!(orchestra_root(home), "/home/tester/.orchestra");
    assert_eq!(projects_root(home), "/home/tester/.orchestra/projects");
    assert_eq!(run_dir(home), "/home/tester/.orchestra/run");
    assert_eq!(socket_path(home), "/home/tester/.orchestra/daemon.sock");
    assert_eq!(logs_dir(home), "/home/tester/.orchestra/logs");
    assert_eq!(stdout_log_path(home), "/home/tester/.orchestra/logs/daemon.log");
    assert_eq!(stderr_log_path(home), "/home/tester/.orchestra/logs/daemon-err.log");
    assert_eq!(
        launchd_plist_path(home),
        "/home/tester/Library/LaunchAgents/dev.orchestra.daemon.plist"
    );
    assert_eq!(
        store_path_at(home, "copnow_api"),
        "/home/tester/.orchestra/hashes/copnow_api.json"
    );
}

#[test]
fn numbered_paths_append_the_index() {
    let base = "/home/tester/.orchestra/logs/daemon.log";
    assert_eq!(numbered_path(base, 1), format!("{base}.1"));
    assert_eq!(numbered_path(base, 5), format!("{base}.5"));
    assert_eq!(numbered_path(base, 12), format!("{base}.12"));
}

#[test]
fn plist_contains_required_launchd_fields() {
    let binary = "/usr/local/bin/orchestra";
    let log_dir = "/Users/tester/.orchestra/logs";
    let generated = generate_plist(binary, log_dir);

    let value = plist::Value::from_reader_xml(generated.as_bytes()).expect("parse plist");
    let dict = value.as_dictionary().expect("plist root dict");

    assert_eq!(
        dict.get("Label").and_then(plist::Value::as_string),
        Some("dev.orchestra.daemon")
    );
    assert_eq!(dict.get("RunAtLoad").and_then(plist::Value::as_boolean), Some(true));
    assert_eq!(dict.get("KeepAlive").and_then(plist::Value::as_boolean), Some(true));

    let args = dict
        .get("ProgramArguments")
        .and_then(plist::Value::as_array)
        .expect("ProgramArguments array");
    let rendered_args: Vec<&str> = args
        .iter()
        .map(|v| v.as_string().expect("program arg as string"))
        .collect();
    assert_eq!(rendered_args, vec!["/usr/local/bin/orchestra", "daemon", "start"]);

    assert_eq!(
        dict.get("StandardOutPath").and_then(plist::Value::as_string),
        Some("/Users/tester/.orchestra/logs/daemon.log")
    );
    assert_eq!(
        dict.get("StandardErrorPath").and_then(plist::Value::as_string),
        Some("/Users/tester/.orchestra/logs/daemon-err.log")
    );
}
