//! Dry-run unified diffs of rendered outputs against on-disk content.

use orchestra::diff::diff_outputs;

#[test]
fn no_diffs_after_clean_sync() {
    let outputs = vec![("/code/copnow_api/ASSISTANT.md".to_string(), "# copnow_api\n".to_string())];
    let existing = vec!["# copnow_api\n".to_string()];
    let diff = diff_outputs("copnow_api", "/code/copnow_api", &outputs, &existing);
    assert!(diff.diffs.is_empty(), "synced codebase should have no diff");
}

#[test]
fn local_edit_produces_unified_diff() {
    let rendered = "# copnow_api\nline\n".to_string();
    let edited = "# copnow_api\nline\nmanual tweak\n".to_string();
    let outputs = vec![("/code/copnow_api/ASSISTANT.md".to_string(), rendered)];
    let existing = vec![edited];

    let diff = diff_outputs("copnow_api", "/code/copnow_api", &outputs, &existing);
    assert!(!diff.diffs.is_empty(), "expected at least one file diff");

    let assistant_diff = diff
        .diffs
        .iter()
        .find(|d| d.path.ends_with("ASSISTANT.md"))
        .expect("ASSISTANT diff");
    assert!(assistant_diff.unified_diff.contains("--- a/ASSISTANT.md"));
    assert!(assistant_diff.unified_diff.contains("+++ b/ASSISTANT.md"));
    assert!(assistant_diff.unified_diff.contains("@@"));
    assert!(assistant_diff.unified_diff.contains("-manual tweak"));
}

#[test]
fn crlf_only_differences_are_not_diffs() {
    let outputs = vec![("/code/api/ASSISTANT.md".to_string(), "a\r\nb\r\n".to_string())];
    let existing = vec!["a\nb\n".to_string()];
    let diff = diff_outputs("api", "/code/api", &outputs, &existing);
    assert!(diff.diffs.is_empty(), "line-ending differences must not produce diff output");
}
