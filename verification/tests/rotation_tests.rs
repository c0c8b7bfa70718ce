//! Log rotation: the boundary, the shift sequence, and the retention cap,
//! exercised against an in-memory directory that executes the plans.

use std::collections::HashMap;

use orchestra::rotation::{rotate_if_needed, FileOp, MAX_LOG_BYTES, MAX_ROTATED_FILES};

type Dir = HashMap<String, Vec<u8>>;

fn apply(ops: &[FileOp], dir: &mut Dir) {
    for op in ops {
        match op {
            FileOp::Remove { path } => {
                dir.remove(path);
            },
            FileOp::Rename { from, to } => {
                if let Some(v) = dir.remove(from) {
                    dir.insert(to.clone(), v);
                }
            },
            FileOp::Create { path } => {
                dir.insert(path.clone(), Vec::new());
            },
        }
    }
}

fn backups_of(dir: &Dir, base: &str) -> Vec<bool> {
    (1..=MAX_ROTATED_FILES).map(|n| dir.contains_key(&format!("{base}.{n}"))).collect()
}

#[test]
fn rotation_noop_when_file_under_threshold() {
    let log = "/home/tester/.orchestra/logs/daemon.log";
    let mut dir: Dir = HashMap::new();
    dir.insert(log.to_string(), vec![b'x'; 1024]);
    let plan = rotate_if_needed(log, Some(1024), &backups_of(&dir, log), MAX_LOG_BYTES, MAX_ROTATED_FILES);
    assert!(plan.is_none(), "should not rotate a small file");
    assert!(!dir.contains_key(&format!("{log}.1")), "no .1 file should exist");
}

#[test]
fn rotation_triggers_when_file_exceeds_max_bytes() {
    let log = "/home/tester/.orchestra/logs/daemon.log";
    let mut dir: Dir = HashMap::new();
    dir.insert(log.to_string(), vec![b'x'; 64]);
    let plan = rotate_if_needed(
        log,
        Some(MAX_LOG_BYTES + 1),
        &backups_of(&dir, log),
        MAX_LOG_BYTES,
        MAX_ROTATED_FILES,
    )
    .expect("should rotate an oversized file");
    apply(&plan, &mut dir);

    let live = dir.get(log).expect("live log exists after rotation");
    assert_eq!(live.len(), 0, "rotated log should be empty");

    let backup = dir.get(&format!("{log}.1")).expect("daemon.log.1 should exist");
    assert!(backup.len() > 0, "backup should have content");
}

#[test]
fn max_rotated_files_are_capped() {
    let log = "/home/tester/.orchestra/logs/daemon.log";
    let mut dir: Dir = HashMap::new();
    for n in 1..=MAX_ROTATED_FILES {
        dir.insert(format!("{log}.{n}"), format!("rotated-{n}").into_bytes());
    }
    dir.insert(log.to_string(), vec![b'x'; 128]);

    let plan = rotate_if_needed(
        log,
        Some(MAX_LOG_BYTES + 1),
        &backups_of(&dir, log),
        MAX_LOG_BYTES,
        MAX_ROTATED_FILES,
    )
    .expect("rotation plan");
    apply(&plan, &mut dir);

    assert!(dir.contains_key(&format!("{log}.{MAX_ROTATED_FILES}")));
    assert!(
        !dir.contains_key(&format!("{log}.{}", MAX_ROTATED_FILES + 1)),
        "must not create more than the retention count of backup files"
    );
}

#[test]
fn rotation_skips_missing_file_gracefully() {
    let log = "/home/tester/.orchestra/logs/nonexistent.log";
    let dir: Dir = HashMap::new();
    let plan = rotate_if_needed(log, None, &backups_of(&dir, log), MAX_LOG_BYTES, MAX_ROTATED_FILES);
    assert!(plan.is_none());
}

#[test]
fn sequential_rotations_shift_files_correctly() {
    let log = "/home/tester/.orchestra/logs/daemon.log";
    let mut dir: Dir = HashMap::new();
    for round in 1..=3usize {
        dir.insert(log.to_string(), vec![b'0' + round as u8; 64]);
        let plan = rotate_if_needed(
            log,
            Some(MAX_LOG_BYTES + 1),
            &backups_of(&dir, log),
            MAX_LOG_BYTES,
            MAX_ROTATED_FILES,
        )
        .expect("rotation plan");
        apply(&plan, &mut dir);
    }
    for n in 1..=3 {
        assert!(
            dir.contains_key(&format!("{log}.{n}")),
            "backup .{n} should exist after 3 rotations"
        );
    }
    assert!(!dir.contains_key(&format!("{log}.4")));
    // The newest backup holds the last round's content, the oldest the first.
    assert_eq!(dir.get(&format!("{log}.1")).unwrap()[0], b'0' + 3);
    assert_eq!(dir.get(&format!("{log}.3")).unwrap()[0], b'0' + 1);
}

#[test]
fn rotation_boundary_is_strictly_over_the_threshold() {
    let log = "/home/tester/.orchestra/logs/daemon.log";
    let dir: Dir = HashMap::new();
    let plan = rotate_if_needed(
        log,
        Some(MAX_LOG_BYTES),
        &backups_of(&dir, log),
        MAX_LOG_BYTES,
        MAX_ROTATED_FILES,
    );
    assert!(plan.is_none(), "a file exactly at the threshold does not rotate");
    let plan = rotate_if_needed(
        log,
        Some(MAX_LOG_BYTES + 1),
        &backups_of(&dir, log),
        MAX_LOG_BYTES,
        MAX_ROTATED_FILES,
    );
    assert!(plan.is_some(), "one byte over the threshold rotates");
}
