//! Size-based log rotation.
//!
//! A log file strictly over the size threshold is rotated: the oldest numbered
//! backup is deleted, every surviving backup `.n` shifts to `.n+1` from the
//! highest index down (so no slot is overwritten before it is freed), the
//! live file becomes `.1`, and a fresh empty live file is created.
//!
//! The library computes the rotation as a plan of file operations; the
//! caller executes them in order. Their effect is specified against a model
//! of the directory: a map from path to file contents.

use vstd::prelude::*;

use crate::paths::{
    lemma_numbered_injective, lemma_numbered_ne_base, numbered_path, spec_numbered_path,
    stderr_log_path, stdout_log_path,
};

verus! {

/// Maximum log file size before rotation (10 MiB).
pub const MAX_LOG_BYTES: u64 = 10 * 1024 * 1024;

/// Maximum number of rotated backup files to keep.
pub const MAX_ROTATED_FILES: usize = 5;

/// One filesystem operation of a rotation plan.
pub enum FileOp {
    /// Delete the file at `path`.
    Remove { path: String },
    /// Rename the file at `from` to `to` (a no-op when `from` is absent).
    Rename { from: String, to: String },
    /// Create an empty file at `path`, truncating any existing one.
    Create { path: String },
}

/// A file operation over plain character sequences.
pub enum FileOpView {
    Remove { path: Seq<char> },
    Rename { from: Seq<char>, to: Seq<char> },
    Create { path: Seq<char> },
}

impl View for FileOp {
    type V = FileOpView;

    open spec fn view(&self) -> FileOpView {
        match self {
            FileOp::Remove { path } => FileOpView::Remove { path: path@ },
            FileOp::Rename { from, to } => FileOpView::Rename { from: from@, to: to@ },
            FileOp::Create { path } => FileOpView::Create { path: path@ },
        }
    }
}

/// The views of a plan's operations.
pub open spec fn ops_views(s: Seq<FileOp>) -> Seq<FileOpView> {
    s.map_values(|op: FileOp| op@)
}

/// A directory model: path to file contents.
pub type DirModel = Map<Seq<char>, Seq<u8>>;

/// The directory after one operation.
pub open spec fn apply_op(d: DirModel, op: FileOpView) -> DirModel {
    match op {
        FileOpView::Remove { path } => d.remove(path),
        FileOpView::Rename { from, to } => if d.dom().contains(from) {
            d.remove(from).insert(to, d[from])
        } else {
            d
        },
        FileOpView::Create { path } => d.insert(path, Seq::<u8>::empty()),
    }
}

/// The directory after a sequence of operations, applied in order.
pub open spec fn apply_ops(d: DirModel, ops: Seq<FileOpView>) -> DirModel
    decreases ops.len(),
{
    if ops.len() == 0 {
        d
    } else {
        apply_ops(apply_op(d, ops[0]), ops.drop_first())
    }
}

/// Applying a concatenation applies the two parts in order.
pub proof fn lemma_apply_ops_concat(d: DirModel, a: Seq<FileOpView>, b: Seq<FileOpView>)
    ensures
        apply_ops(d, a + b) == apply_ops(apply_ops(d, a), b),
    decreases a.len(),
{
    if a.len() == 0 {
        assert(a + b =~= b);
    } else {
        assert((a + b)[0] == a[0]);
        assert((a + b).drop_first() =~= a.drop_first() + b);
        lemma_apply_ops_concat(apply_op(d, a[0]), a.drop_first(), b);
    }
}

/// Applying a single operation.
pub proof fn lemma_apply_single(d: DirModel, op: FileOpView)
    ensures
        apply_ops(d, seq![op]) == apply_op(d, op),
{
    assert(seq![op].drop_first() =~= Seq::<FileOpView>::empty());
    assert(apply_ops(apply_op(d, op), Seq::<FileOpView>::empty()) == apply_op(d, op));
}

/// The shift operation for backup index `i`: `.i` becomes `.i+1`.
pub open spec fn shift_op(log: Seq<char>, i: nat) -> FileOpView {
    FileOpView::Rename {
        from: spec_numbered_path(log, i),
        to: spec_numbered_path(log, i + 1),
    }
}

/// The shift operations emitted for one backup index: one rename when the
/// backup exists, none otherwise.
pub open spec fn shift_ops_at(log: Seq<char>, ex: Seq<bool>, i: int) -> Seq<FileOpView> {
    if 1 <= i <= ex.len() && ex[i - 1] {
        seq![shift_op(log, i as nat)]
    } else {
        Seq::<FileOpView>::empty()
    }
}

/// Shift operations for indices `hi` down to `lo`.
pub open spec fn shift_ops_between(log: Seq<char>, ex: Seq<bool>, hi: int, lo: int) -> Seq<
    FileOpView,
>
    decreases hi - lo + 1,
{
    if hi < lo {
        Seq::<FileOpView>::empty()
    } else {
        shift_ops_at(log, ex, hi) + shift_ops_between(log, ex, hi - 1, lo)
    }
}

proof fn lemma_shift_snoc(log: Seq<char>, ex: Seq<bool>, hi: int, lo: int)
    requires
        lo <= hi,
    ensures
        shift_ops_between(log, ex, hi, lo) == shift_ops_between(log, ex, hi, lo + 1)
            + shift_ops_at(log, ex, lo),
    decreases hi - lo,
{
    if lo == hi {
        assert(shift_ops_between(log, ex, hi, lo + 1) =~= Seq::<FileOpView>::empty());
        assert(shift_ops_between(log, ex, hi - 1, lo) =~= Seq::<FileOpView>::empty());
        assert(shift_ops_between(log, ex, hi, lo) =~= shift_ops_at(log, ex, hi));
        assert(shift_ops_between(log, ex, hi, lo + 1) + shift_ops_at(log, ex, lo)
            =~= shift_ops_at(log, ex, hi));
    } else {
        lemma_shift_snoc(log, ex, hi - 1, lo);
        assert(shift_ops_between(log, ex, hi, lo) =~= shift_ops_at(log, ex, hi) + (
        shift_ops_between(log, ex, hi - 1, lo + 1) + shift_ops_at(log, ex, lo)));
        assert(shift_ops_at(log, ex, hi) + (shift_ops_between(log, ex, hi - 1, lo + 1)
            + shift_ops_at(log, ex, lo)) =~= (shift_ops_at(log, ex, hi) + shift_ops_between(
            log,
            ex,
            hi - 1,
            lo + 1,
        )) + shift_ops_at(log, ex, lo));
        assert(shift_ops_between(log, ex, hi, lo + 1) =~= shift_ops_at(log, ex, hi)
            + shift_ops_between(log, ex, hi - 1, lo + 1));
    }
}

/// The full rotation plan: drop the oldest backup, shift the rest up from the
/// highest index down, move the live file to `.1`, create a fresh live file.
pub open spec fn rotation_ops(log: Seq<char>, ex: Seq<bool>, max: nat) -> Seq<FileOpView>
    recommends
        max >= 1,
        ex.len() == max,
{
    let remove_part = if ex[max - 1] {
        seq![FileOpView::Remove { path: spec_numbered_path(log, max) }]
    } else {
        Seq::<FileOpView>::empty()
    };
    remove_part + shift_ops_between(log, ex, max - 1, 1) + seq![
        FileOpView::Rename { from: log, to: spec_numbered_path(log, 1) },
        FileOpView::Create { path: log },
    ]
}

/// A file of `size` bytes must rotate only strictly over the threshold
/// `max_bytes` (a missing file never rotates).
pub open spec fn spec_rotation_needed(size: Option<u64>, max_bytes: u64) -> bool {
    size matches Some(s) && s > max_bytes
}

/// Rotation boundary: a log file exactly at the size threshold does not
/// rotate; one byte over it does. A missing file never rotates.
pub proof fn lemma_rotation_boundary(s: u64, max_bytes: u64)
    ensures
        !spec_rotation_needed(Some(max_bytes), max_bytes),
        max_bytes < u64::MAX ==> spec_rotation_needed(Some((max_bytes + 1) as u64), max_bytes),
        spec_rotation_needed(Some(s), max_bytes) <==> s > max_bytes,
        !spec_rotation_needed(None, max_bytes),
{
}

/// Compute the rotation plan for one log file, or nothing when the file is
/// missing or not strictly over the threshold.
///
/// `size` is the file's size on disk (`None` when absent); `backups[n-1]`
/// says whether backup `.n` exists.
pub fn rotate_if_needed(
    log_path: &str,
    size: Option<u64>,
    backups: &Vec<bool>,
    max_bytes: u64,
    max_files: usize,
) -> (r: Option<Vec<FileOp>>)
    requires
        max_files >= 1,
        backups@.len() == max_files,
    ensures
        r is Some <==> spec_rotation_needed(size, max_bytes),
        r matches Some(ops) ==> ops_views(ops@) == rotation_ops(
            log_path@,
            backups@,
            max_files as nat,
        ),
{
    let s = match size {
        Option::None => {
            return Option::None;
        },
        Option::Some(s) => s,
    };
    if s <= max_bytes {
        return Option::None;
    }
    let ghost log = log_path@;
    let ghost ex = backups@;
    let ghost maxn = max_files as nat;

    let mut ops: Vec<FileOp> = Vec::new();
    if backups[max_files - 1] {
        ops.push(FileOp::Remove { path: numbered_path(log_path, max_files as u64) });
    }
    let ghost remove_part = if ex[maxn - 1] {
        seq![FileOpView::Remove { path: spec_numbered_path(log, maxn) }]
    } else {
        Seq::<FileOpView>::empty()
    };
    proof {
        assert(ops_views(ops@) =~= remove_part);
    }

    let mut n: usize = max_files - 1;
    while n >= 1
        invariant
            max_files >= 1,
            ex.len() == max_files,
            log == log_path@,
            ex == backups@,
            n <= max_files - 1,
            ops_views(ops@) == remove_part + shift_ops_between(log, ex, max_files - 1, n + 1),
        decreases n,
    {
        proof {
            lemma_shift_snoc(log, ex, max_files - 1, n as int);
        }
        if backups[n - 1] {
            let from = numbered_path(log_path, n as u64);
            let to = numbered_path(log_path, (n + 1) as u64);
            let ghost prev = ops@;
            ops.push(FileOp::Rename { from, to });
            proof {
                assert(ops_views(ops@) =~= ops_views(prev) + seq![shift_op(log, n as nat)]);
                assert(ops_views(ops@) =~= remove_part + (shift_ops_between(
                    log,
                    ex,
                    max_files - 1,
                    n + 1,
                ) + shift_ops_at(log, ex, n as int)));
            }
        } else {
            proof {
                assert(shift_ops_at(log, ex, n as int) =~= Seq::<FileOpView>::empty());
                assert(shift_ops_between(log, ex, max_files - 1, n as int)
                    =~= shift_ops_between(log, ex, max_files - 1, n + 1));
            }
        }
        n = n - 1;
    }
    let ghost shift_part = shift_ops_between(log, ex, max_files - 1, 1);

    let ghost before_tail = ops@;
    let live_to_one = FileOp::Rename {
        from: log_path.to_owned(),
        to: numbered_path(log_path, 1),
    };
    ops.push(live_to_one);
    let fresh = FileOp::Create { path: log_path.to_owned() };
    ops.push(fresh);
    proof {
        assert(ops_views(ops@) =~= remove_part + shift_part + seq![
            FileOpView::Rename { from: log, to: spec_numbered_path(log, 1) },
            FileOpView::Create { path: log },
        ]);
        assert(remove_part + shift_part + seq![
            FileOpView::Rename { from: log, to: spec_numbered_path(log, 1) },
            FileOpView::Create { path: log },
        ] =~= rotation_ops(log, ex, maxn));
    }
    Option::Some(ops)
}

/// Effect of the shift operations for indices `hi` down to 1: every existing
/// backup `.i` with `i <= hi` moves to `.i+1`, slot `.1` is freed, and paths
/// other than the backups `1..=hi+1` are untouched.
proof fn lemma_shift_effect(d: DirModel, log: Seq<char>, ex: Seq<bool>, hi: int)
    requires
        0 <= hi,
        hi <= ex.len(),
        forall|i: int| 1 <= i <= hi ==> ex[i - 1] == d.dom().contains(
            #[trigger] spec_numbered_path(log, i as nat),
        ),
        !d.dom().contains(spec_numbered_path(log, (hi + 1) as nat)),
    ensures
        ({
            let d2 = apply_ops(d, shift_ops_between(log, ex, hi, 1));
            &&& forall|i: int| 2 <= i <= hi + 1 ==> d2.dom().contains(
                #[trigger] spec_numbered_path(log, i as nat),
            ) == ex[i - 2]
            &&& forall|i: int| 2 <= i <= hi + 1 && ex[i - 2] ==> d2[#[trigger] spec_numbered_path(
                log,
                i as nat,
            )] == d[spec_numbered_path(log, (i - 1) as nat)]
            &&& !d2.dom().contains(spec_numbered_path(log, 1))
            &&& forall|p: Seq<char>|
                (forall|i: int| 1 <= i <= hi + 1 ==> p != #[trigger] spec_numbered_path(
                    log,
                    i as nat,
                )) ==> (#[trigger] d2.dom().contains(p) == d.dom().contains(p) && (
                d.dom().contains(p) ==> d2[p] == d[p]))
        }),
    decreases hi,
{
    if hi == 0 {
        assert(shift_ops_between(log, ex, 0, 1) =~= Seq::<FileOpView>::empty());
    } else {
        let head = shift_ops_at(log, ex, hi);
        let rest = shift_ops_between(log, ex, hi - 1, 1);
        assert(shift_ops_between(log, ex, hi, 1) == head + rest);
        lemma_apply_ops_concat(d, head, rest);
        let d1 = apply_ops(d, head);
        assert forall|a: int, b: int| 1 <= a < b implies #[trigger] spec_numbered_path(log, a as nat)
            != #[trigger] spec_numbered_path(log, b as nat) by {
            if spec_numbered_path(log, a as nat) == spec_numbered_path(log, b as nat) {
                lemma_numbered_injective(log, a as nat, b as nat);
            }
        }
        if ex[hi - 1] {
            assert(head == seq![shift_op(log, hi as nat)]);
            lemma_apply_single(d, shift_op(log, hi as nat));
            assert(d1 == apply_op(d, shift_op(log, hi as nat)));
            assert(d1 == d.remove(spec_numbered_path(log, hi as nat)).insert(
                spec_numbered_path(log, (hi + 1) as nat),
                d[spec_numbered_path(log, hi as nat)],
            ));
        } else {
            assert(head =~= Seq::<FileOpView>::empty());
            assert(d1 == d);
        }
        assert(!d1.dom().contains(spec_numbered_path(log, hi as nat)));
        assert forall|i: int| 1 <= i <= hi - 1 implies ex[i - 1] == d1.dom().contains(
            #[trigger] spec_numbered_path(log, i as nat),
        ) by {}
        lemma_shift_effect(d1, log, ex, hi - 1);
        let d2 = apply_ops(d1, rest);
        assert(apply_ops(d, shift_ops_between(log, ex, hi, 1)) == d2);

        // Slot hi + 1 after the whole shift: it is not one of the backups
        // 1..=hi, so the recursive step left it as d1 has it.
        assert forall|i: int| 2 <= i <= hi + 1 implies d2.dom().contains(
            #[trigger] spec_numbered_path(log, i as nat),
        ) == ex[i - 2] by {
            if i == hi + 1 {
                assert(forall|j: int| 1 <= j <= hi ==> spec_numbered_path(log, i as nat)
                    != #[trigger] spec_numbered_path(log, j as nat));
                assert(d2.dom().contains(spec_numbered_path(log, i as nat))
                    == d1.dom().contains(spec_numbered_path(log, i as nat)));
            }
        }
        assert forall|i: int| 2 <= i <= hi + 1 && ex[i - 2] implies d2[
            #[trigger] spec_numbered_path(log, i as nat)
        ] == d[spec_numbered_path(log, (i - 1) as nat)] by {
            if i == hi + 1 {
                assert(forall|j: int| 1 <= j <= hi ==> spec_numbered_path(log, i as nat)
                    != #[trigger] spec_numbered_path(log, j as nat));
                assert(d2[spec_numbered_path(log, i as nat)] == d1[spec_numbered_path(
                    log,
                    i as nat,
                )]);
            } else {
                assert(d1[spec_numbered_path(log, (i - 1) as nat)] == d[spec_numbered_path(
                    log,
                    (i - 1) as nat,
                )]);
            }
        }
    }
}

/// Effect of a full rotation on the directory: the live file exists and is
/// empty, backup `.1` holds the old live contents, every prior backup `.n`
/// (below the cap) stands at `.n+1`, and no backup beyond the retention count
/// exists — the oldest is dropped.
pub proof fn lemma_rotation_effect(d: DirModel, log: Seq<char>, ex: Seq<bool>, max: nat)
    requires
        max >= 1,
        ex.len() == max,
        d.dom().contains(log),
        forall|i: int| 1 <= i <= max ==> ex[i - 1] == d.dom().contains(
            #[trigger] spec_numbered_path(log, i as nat),
        ),
        forall|k: int| k > max ==> !d.dom().contains(#[trigger] spec_numbered_path(log, k as nat)),
    ensures
        ({
            let d2 = apply_ops(d, rotation_ops(log, ex, max));
            &&& d2.dom().contains(log)
            &&& d2[log] == Seq::<u8>::empty()
            &&& d2.dom().contains(spec_numbered_path(log, 1))
            &&& d2[spec_numbered_path(log, 1)] == d[log]
            &&& forall|i: int| 2 <= i <= max ==> d2.dom().contains(
                #[trigger] spec_numbered_path(log, i as nat),
            ) == ex[i - 2]
            &&& forall|i: int| 2 <= i <= max && ex[i - 2] ==> d2[#[trigger] spec_numbered_path(
                log,
                i as nat,
            )] == d[spec_numbered_path(log, (i - 1) as nat)]
            &&& forall|k: int| k > max ==> !d2.dom().contains(
                #[trigger] spec_numbered_path(log, k as nat),
            )
        }),
{
    assert forall|a: int, b: int| 1 <= a < b implies #[trigger] spec_numbered_path(log, a as nat)
        != #[trigger] spec_numbered_path(log, b as nat) by {
        if spec_numbered_path(log, a as nat) == spec_numbered_path(log, b as nat) {
            lemma_numbered_injective(log, a as nat, b as nat);
        }
    }
    assert forall|i: int| i >= 1 implies log != #[trigger] spec_numbered_path(log, i as nat) by {
        lemma_numbered_ne_base(log, i as nat);
    }

    let remove_part = if ex[max - 1] {
        seq![FileOpView::Remove { path: spec_numbered_path(log, max) }]
    } else {
        Seq::<FileOpView>::empty()
    };
    let shift_part = shift_ops_between(log, ex, max - 1, 1);
    let tail = seq![
        FileOpView::Rename { from: log, to: spec_numbered_path(log, 1) },
        FileOpView::Create { path: log },
    ];
    assert(rotation_ops(log, ex, max) == remove_part + shift_part + tail);

    lemma_apply_ops_concat(d, remove_part + shift_part, tail);
    lemma_apply_ops_concat(d, remove_part, shift_part);
    assert((remove_part + shift_part + tail) =~= (remove_part + shift_part) + tail);

    let d0 = apply_ops(d, remove_part);
    if ex[max - 1] {
        lemma_apply_single(d, FileOpView::Remove { path: spec_numbered_path(log, max) });
        assert(d0 == d.remove(spec_numbered_path(log, max)));
    } else {
        assert(d0 == d);
    }
    assert(!d0.dom().contains(spec_numbered_path(log, max)));
    assert forall|i: int| 1 <= i <= max - 1 implies ex[i - 1] == d0.dom().contains(
        #[trigger] spec_numbered_path(log, i as nat),
    ) by {}
    lemma_shift_effect(d0, log, ex, max - 1);
    let d1 = apply_ops(d0, shift_part);

    assert(d1.dom().contains(log) && d1[log] == d[log]);
    assert(!d1.dom().contains(spec_numbered_path(log, 1)));

    let rename_live = FileOpView::Rename { from: log, to: spec_numbered_path(log, 1) };
    let create_live = FileOpView::Create { path: log };
    let da = apply_op(d1, rename_live);
    let d2 = apply_op(da, create_live);
    assert(tail =~= seq![rename_live] + seq![create_live]);
    lemma_apply_ops_concat(d1, seq![rename_live], seq![create_live]);
    lemma_apply_single(d1, rename_live);
    lemma_apply_single(da, create_live);
    assert(apply_ops(d1, tail) == d2);
    assert(apply_ops(d, rotation_ops(log, ex, max)) == d2);

    assert(da == d1.remove(log).insert(spec_numbered_path(log, 1), d1[log]));
    assert(d2 == da.insert(log, Seq::<u8>::empty()));

    assert forall|i: int| 2 <= i <= max implies d2.dom().contains(
        #[trigger] spec_numbered_path(log, i as nat),
    ) == ex[i - 2] by {
        assert(d1.dom().contains(spec_numbered_path(log, i as nat)) == ex[i - 2]);
    }
    assert forall|k: int| k > max implies !d2.dom().contains(
        #[trigger] spec_numbered_path(log, k as nat),
    ) by {
        let p = spec_numbered_path(log, k as nat);
        assert(forall|j: int| 1 <= j <= max ==> p != #[trigger] spec_numbered_path(
            log,
            j as nat,
        ));
        assert(!d0.dom().contains(p));
        assert(d1.dom().contains(p) == d0.dom().contains(p));
        assert(p != log && p != spec_numbered_path(log, 1));
    }
}

/// Rotation plans for the daemon's two log streams under `home`, each with
/// the fixed threshold and retention count. A failure executing one stream's
/// plan must not keep the caller from executing the other.
pub fn rotate_logs(
    home: &str,
    stdout_size: Option<u64>,
    stderr_size: Option<u64>,
    stdout_backups: &Vec<bool>,
    stderr_backups: &Vec<bool>,
) -> (r: (Option<Vec<FileOp>>, Option<Vec<FileOp>>))
    requires
        stdout_backups@.len() == MAX_ROTATED_FILES,
        stderr_backups@.len() == MAX_ROTATED_FILES,
    ensures
        r.0 is Some <==> spec_rotation_needed(stdout_size, MAX_LOG_BYTES as u64),
        r.1 is Some <==> spec_rotation_needed(stderr_size, MAX_LOG_BYTES as u64),
        r.0 matches Some(ops) ==> ops_views(ops@) == rotation_ops(
            crate::paths::spec_logs_dir(home@) + "/"@ + "daemon.log"@,
            stdout_backups@,
            MAX_ROTATED_FILES as nat,
        ),
        r.1 matches Some(ops) ==> ops_views(ops@) == rotation_ops(
            crate::paths::spec_logs_dir(home@) + "/"@ + "daemon-err.log"@,
            stderr_backups@,
            MAX_ROTATED_FILES as nat,
        ),
{
    let stdout_log = stdout_log_path(home);
    let stderr_log = stderr_log_path(home);
    let a = rotate_if_needed(
        stdout_log.as_str(),
        stdout_size,
        stdout_backups,
        MAX_LOG_BYTES,
        MAX_ROTATED_FILES,
    );
    let b = rotate_if_needed(
        stderr_log.as_str(),
        stderr_size,
        stderr_backups,
        MAX_LOG_BYTES,
        MAX_ROTATED_FILES,
    );
    (a, b)
}

} // verus!
