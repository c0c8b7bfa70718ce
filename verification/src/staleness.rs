//! Staleness classification for a codebase: compares registry state, hash
//! store state, and observations of the managed files on disk.
//!
//! Signal precedence:
//! 1. `NeverSynced` (hash store missing or empty)
//! 2. `Stale` (managed files missing, or registry changed after `synced_at`)
//! 3. `Modified` (managed files changed since last sync hash)
//! 4. `Orphan` (managed files present but not tracked in hash store)
//! 5. `Current`

use vstd::prelude::*;

use crate::strutil::{spec_decimal, u64_to_string};
use crate::sync::HashStore;

verus! {

/// Staleness classification for a codebase.
#[derive(Debug)]
pub enum StalenessSignal {
    NeverSynced,
    Current,
    Stale { reason: String },
    Modified { files: Vec<String> },
    Orphan { files: Vec<String> },
}

/// What was observed on disk for one managed file.
pub struct ManagedFileObs {
    /// The file's absolute path — the hash store's key.
    pub path: String,
    /// The path relative to the codebase root, for reporting.
    pub rel_path: String,
    /// Whether a file stands at the path.
    pub exists: bool,
    /// The digest of the file's current content, when it exists.
    pub digest: Option<String>,
}

/// What was observed for a hash store entry whose path is not among the
/// managed files.
pub struct ExtraStoreFileObs {
    /// The stored path relative to the codebase root, for reporting.
    pub rel_path: String,
    /// Whether a file stands at the stored path.
    pub exists: bool,
}

/// Relative paths of the managed files that are missing on disk.
pub open spec fn missing_rels(files: Seq<ManagedFileObs>) -> Seq<Seq<char>>
    decreases files.len(),
{
    if files.len() == 0 {
        Seq::<Seq<char>>::empty()
    } else {
        missing_rels(files.drop_last()) + if !files.last().exists {
            seq![files.last().rel_path@]
        } else {
            Seq::<Seq<char>>::empty()
        }
    }
}

/// A managed file counts as modified when it exists, is tracked, and its
/// current digest differs from the stored one.
pub open spec fn is_modified(f: ManagedFileObs, store: Map<Seq<char>, Seq<char>>) -> bool {
    f.exists && store.dom().contains(f.path@) && (f.digest matches Some(d) && d@ != store[f.path@])
}

/// Relative paths of the managed files modified since their last sync.
pub open spec fn modified_rels(files: Seq<ManagedFileObs>, store: Map<Seq<char>, Seq<char>>) -> Seq<
    Seq<char>,
>
    decreases files.len(),
{
    if files.len() == 0 {
        Seq::<Seq<char>>::empty()
    } else {
        modified_rels(files.drop_last(), store) + if is_modified(files.last(), store) {
            seq![files.last().rel_path@]
        } else {
            Seq::<Seq<char>>::empty()
        }
    }
}

/// A managed file counts as orphaned when it exists untracked.
pub open spec fn is_orphan(f: ManagedFileObs, store: Map<Seq<char>, Seq<char>>) -> bool {
    f.exists && !store.dom().contains(f.path@)
}

/// Relative paths of the managed files present on disk but untracked.
pub open spec fn orphan_rels(files: Seq<ManagedFileObs>, store: Map<Seq<char>, Seq<char>>) -> Seq<
    Seq<char>,
>
    decreases files.len(),
{
    if files.len() == 0 {
        Seq::<Seq<char>>::empty()
    } else {
        orphan_rels(files.drop_last(), store) + if is_orphan(files.last(), store) {
            seq![files.last().rel_path@]
        } else {
            Seq::<Seq<char>>::empty()
        }
    }
}

/// Relative paths of tracked-but-unmanaged files that still exist on disk.
pub open spec fn extra_rels(extra: Seq<ExtraStoreFileObs>) -> Seq<Seq<char>>
    decreases extra.len(),
{
    if extra.len() == 0 {
        Seq::<Seq<char>>::empty()
    } else {
        extra_rels(extra.drop_last()) + if extra.last().exists {
            seq![extra.last().rel_path@]
        } else {
            Seq::<Seq<char>>::empty()
        }
    }
}

/// Collect the relative paths of the missing managed files, sorted and
/// deduplicated.
fn collect_missing(files: &Vec<ManagedFileObs>) -> (r: Vec<String>)
    ensures
        r@.map_values(|p: String| p@) == crate::strutil::spec_sorted_dedup(missing_rels(files@)),
{
    let mut out: Vec<String> = Vec::new();
    let mut i: usize = 0;
    while i < files.len()
        invariant
            i <= files@.len(),
            out@.map_values(|p: String| p@) == missing_rels(files@.take(i as int)),
        decreases files@.len() - i,
    {
        proof {
            assert(files@.take(i + 1).drop_last() =~= files@.take(i as int));
            assert(files@.take(i + 1).last() == files@[i as int]);
        }
        let ghost prev = out@;
        if !files[i].exists {
            out.push(files[i].rel_path.clone());
        }
        proof {
            assert(out@.map_values(|p: String| p@) =~= missing_rels(files@.take(i + 1)));
        }
        i = i + 1;
    }
    proof {
        assert(files@.take(files@.len() as int) =~= files@);
    }
    crate::strutil::sort_and_dedup(&out)
}

/// Collect the relative paths of the modified managed files, sorted and
/// deduplicated.
fn collect_modified(files: &Vec<ManagedFileObs>, store: &HashStore) -> (r: Vec<String>)
    requires
        store.wf(),
    ensures
        r@.map_values(|p: String| p@) == crate::strutil::spec_sorted_dedup(
            modified_rels(files@, store@),
        ),
{
    let mut out: Vec<String> = Vec::new();
    let mut i: usize = 0;
    while i < files.len()
        invariant
            store.wf(),
            i <= files@.len(),
            out@.map_values(|p: String| p@) == modified_rels(files@.take(i as int), store@),
        decreases files@.len() - i,
    {
        proof {
            assert(files@.take(i + 1).drop_last() =~= files@.take(i as int));
            assert(files@.take(i + 1).last() == files@[i as int]);
        }
        let f = &files[i];
        if f.exists {
            match store.get(f.path.as_str()) {
                Option::Some(stored) => {
                    match &f.digest {
                        Option::Some(d) => {
                            if !crate::strutil::str_eq(d.as_str(), stored.as_str()) {
                                out.push(f.rel_path.clone());
                            }
                        },
                        Option::None => {},
                    }
                },
                Option::None => {},
            }
        }
        proof {
            assert(out@.map_values(|p: String| p@) =~= modified_rels(
                files@.take(i + 1),
                store@,
            ));
        }
        i = i + 1;
    }
    proof {
        assert(files@.take(files@.len() as int) =~= files@);
    }
    crate::strutil::sort_and_dedup(&out)
}

/// Collect the relative paths of orphaned files: managed files existing
/// untracked, then tracked-but-unmanaged paths that still exist; sorted and
/// deduplicated.
fn collect_orphans(
    files: &Vec<ManagedFileObs>,
    store: &HashStore,
    extra: &Vec<ExtraStoreFileObs>,
) -> (r: Vec<String>)
    requires
        store.wf(),
    ensures
        r@.map_values(|p: String| p@) == crate::strutil::spec_sorted_dedup(
            orphan_rels(files@, store@) + extra_rels(extra@),
        ),
{
    let mut out: Vec<String> = Vec::new();
    let mut i: usize = 0;
    while i < files.len()
        invariant
            store.wf(),
            i <= files@.len(),
            out@.map_values(|p: String| p@) == orphan_rels(files@.take(i as int), store@),
        decreases files@.len() - i,
    {
        proof {
            assert(files@.take(i + 1).drop_last() =~= files@.take(i as int));
            assert(files@.take(i + 1).last() == files@[i as int]);
        }
        let f = &files[i];
        if f.exists {
            match store.get(f.path.as_str()) {
                Option::Some(_) => {},
                Option::None => {
                    out.push(f.rel_path.clone());
                },
            }
        }
        proof {
            assert(out@.map_values(|p: String| p@) =~= orphan_rels(files@.take(i + 1), store@));
        }
        i = i + 1;
    }
    proof {
        assert(files@.take(files@.len() as int) =~= files@);
    }
    let mut k: usize = 0;
    while k < extra.len()
        invariant
            k <= extra@.len(),
            out@.map_values(|p: String| p@) == orphan_rels(files@, store@) + extra_rels(
                extra@.take(k as int),
            ),
        decreases extra@.len() - k,
    {
        proof {
            assert(extra@.take(k + 1).drop_last() =~= extra@.take(k as int));
            assert(extra@.take(k + 1).last() == extra@[k as int]);
        }
        let ghost prev = out@;
        if extra[k].exists {
            out.push(extra[k].rel_path.clone());
            proof {
                assert(out@.map_values(|p: String| p@) =~= prev.map_values(|p: String| p@)
                    + seq![extra@[k as int].rel_path@]);
            }
        }
        proof {
            assert(out@.map_values(|p: String| p@) =~~= orphan_rels(files@, store@) + extra_rels(
                extra@.take(k + 1),
            ));
        }
        k = k + 1;
    }
    proof {
        assert(extra@.take(extra@.len() as int) =~= extra@);
    }
    crate::strutil::sort_and_dedup(&out)
}

/// The parts joined with the separator between them.
pub open spec fn spec_join(parts: Seq<Seq<char>>, sep: Seq<char>) -> Seq<char>
    decreases parts.len(),
{
    if parts.len() == 0 {
        Seq::<char>::empty()
    } else if parts.len() == 1 {
        parts[0]
    } else {
        spec_join(parts.drop_last(), sep) + sep + parts.last()
    }
}

/// Join strings with a separator.
pub fn join_strings(parts: &Vec<String>, sep: &str) -> (r: String)
    ensures
        r@ == spec_join(parts@.map_values(|p: String| p@), sep@),
{
    let mut out = String::new();
    let mut i: usize = 0;
    while i < parts.len()
        invariant
            i <= parts@.len(),
            out@ == spec_join(parts@.map_values(|p: String| p@).take(i as int), sep@),
        decreases parts@.len() - i,
    {
        proof {
            let whole = parts@.map_values(|p: String| p@);
            assert(whole.take(i + 1).drop_last() =~= whole.take(i as int));
            assert(whole.take(i + 1).last() == whole[i as int]);
        }
        if i > 0 {
            out.append(sep);
        }
        out.append(parts[i].as_str());
        i = i + 1;
    }
    proof {
        let whole = parts@.map_values(|p: String| p@);
        assert(whole.take(whole.len() as int) =~= whole);
    }
    out
}

/// Compact rendering of a duration: seconds under a minute, then whole
/// minutes, hours, days.
pub open spec fn spec_format_seconds(seconds: nat) -> Seq<char> {
    if seconds < 60 {
        spec_decimal(seconds) + "s"@
    } else if seconds < 3600 {
        spec_decimal(seconds / 60) + "m"@
    } else if seconds < 86400 {
        spec_decimal(seconds / 3600) + "h"@
    } else {
        spec_decimal(seconds / 86400) + "d"@
    }
}

/// Format a duration in whole seconds compactly.
pub fn format_seconds(seconds: u64) -> (r: String)
    ensures
        r@ == spec_format_seconds(seconds as nat),
{
    if seconds < 60 {
        let mut s = u64_to_string(seconds);
        s.append("s");
        s
    } else if seconds < 3600 {
        let mut s = u64_to_string(seconds / 60);
        s.append("m");
        s
    } else if seconds < 86400 {
        let mut s = u64_to_string(seconds / 3600);
        s.append("h");
        s
    } else {
        let mut s = u64_to_string(seconds / 86400);
        s.append("d");
        s
    }
}

/// Format a duration compactly.
pub fn format_duration(seconds: u64) -> (r: String)
    ensures
        r@ == spec_format_seconds(seconds as nat),
{
    format_seconds(seconds)
}

/// Age of a filesystem timestamp, given the current time (both Unix
/// seconds); a timestamp in the future reads as age zero.
pub fn format_system_time_age(now_unix: u64, timestamp_unix: u64) -> (r: String)
    ensures
        r@ == spec_format_seconds(
            if now_unix >= timestamp_unix {
                (now_unix - timestamp_unix) as nat
            } else {
                0
            },
        ),
{
    let age = if now_unix >= timestamp_unix {
        now_unix - timestamp_unix
    } else {
        0
    };
    format_seconds(age)
}

/// Age of a calendar timestamp (signed Unix seconds), clamped at zero.
pub fn format_datetime_age(now_unix: i64, timestamp_unix: i64) -> (r: String)
    ensures
        r@ == spec_format_seconds(
            if now_unix >= timestamp_unix {
                (now_unix - timestamp_unix) as nat
            } else {
                0
            },
        ),
{
    if timestamp_unix >= now_unix {
        return format_seconds(0);
    }
    if timestamp_unix >= 0 {
        format_seconds((now_unix - timestamp_unix) as u64)
    } else if now_unix >= 0 {
        let mag_ts: u64 = ((-(timestamp_unix + 1)) as u64) + 1;
        format_seconds((now_unix as u64) + mag_ts)
    } else {
        format_seconds((now_unix - timestamp_unix) as u64)
    }
}

/// A `+N more` marker for a count of names left unshown.
pub open spec fn spec_decimal_more(n: nat) -> Seq<char> {
    "+"@ + spec_decimal(n) + " more"@
}

/// The first files of a list, shown by name; at most three, with a trailing
/// `+N more` when some are left out.
pub open spec fn spec_preview(rels: Seq<Seq<char>>) -> Seq<Seq<char>> {
    if rels.len() <= 3 {
        rels
    } else {
        rels.take(3).push(spec_decimal_more((rels.len() - 3) as nat))
    }
}

/// Preview a file list: the first three names, and a count of the rest.
pub fn preview_files(rels: &Vec<String>) -> (r: String)
    ensures
        r@ == spec_join(spec_preview(rels@.map_values(|p: String| p@)), ", "@),
{
    let ghost whole = rels@.map_values(|p: String| p@);
    if rels.len() <= 3 {
        proof {
            assert(spec_preview(whole) == whole);
        }
        join_strings(rels, ", ")
    } else {
        let mut shown: Vec<String> = Vec::new();
        shown.push(rels[0].clone());
        shown.push(rels[1].clone());
        shown.push(rels[2].clone());
        let mut tail = "+".to_owned();
        let count = u64_to_string((rels.len() - 3) as u64);
        tail.append(count.as_str());
        tail.append(" more");
        shown.push(tail);
        proof {
            assert(shown@.map_values(|p: String| p@) =~= spec_preview(whole));
        }
        join_strings(&shown, ", ")
    }
}

/// The reason text for missing managed files.
pub open spec fn spec_missing_reason(rels: Seq<Seq<char>>) -> Seq<char> {
    "missing "@ + spec_decimal(rels.len() as nat) + " managed file(s): "@ + spec_join(
        spec_preview(rels),
        ", "@,
    )
}

/// The reason text for a registry edited after the last sync.
pub open spec fn spec_registry_reason(age_seconds: nat) -> Seq<char> {
    "registry changed "@ + spec_format_seconds(age_seconds) + " ago"@
}

/// Classify one codebase's staleness from plain observations.
///
/// `store_exists` says whether the hash store file stands on disk, `store`
/// holds its tracked digests, `files` the observations of every managed
/// file, and `extra` one entry per tracked path outside the managed set.
/// Timestamps are Unix seconds.
pub fn check(
    store_exists: bool,
    store: &HashStore,
    now_unix: u64,
    registry_mtime_unix: u64,
    synced_at_unix: u64,
    files: &Vec<ManagedFileObs>,
    extra: &Vec<ExtraStoreFileObs>,
) -> (r: StalenessSignal)
    requires
        store.wf(),
        forall|i: int| 0 <= i < files@.len() && #[trigger] files@[i].exists ==> files@[i].digest
            is Some,
    ensures
        r is NeverSynced <==> (!store_exists || store@ == Map::<Seq<char>, Seq<char>>::empty()),
        store_exists && store@ != Map::<Seq<char>, Seq<char>>::empty() ==> ({
            let missing = crate::strutil::spec_sorted_dedup(missing_rels(files@));
            let modified = crate::strutil::spec_sorted_dedup(modified_rels(files@, store@));
            let orphans = crate::strutil::spec_sorted_dedup(
                orphan_rels(files@, store@) + extra_rels(extra@),
            );
            let registry_newer = registry_mtime_unix > synced_at_unix;
            &&& missing.len() > 0 ==> (r matches StalenessSignal::Stale { reason } && reason@
                == spec_missing_reason(missing))
            &&& missing.len() == 0 && registry_newer ==> (r matches StalenessSignal::Stale {
                reason,
            } && reason@ == spec_registry_reason(
                if now_unix >= registry_mtime_unix {
                    (now_unix - registry_mtime_unix) as nat
                } else {
                    0
                },
            ))
            &&& missing.len() == 0 && !registry_newer && modified.len() > 0 ==> (
            r matches StalenessSignal::Modified { files: fs } && fs@.map_values(|p: String| p@)
                == modified)
            &&& missing.len() == 0 && !registry_newer && modified.len() == 0 && orphans.len() > 0
                ==> (r matches StalenessSignal::Orphan { files: fs } && fs@.map_values(
                |p: String| p@,
            ) == orphans)
            &&& missing.len() == 0 && !registry_newer && modified.len() == 0 && orphans.len() == 0
                ==> r is Current
        }),
{
    if !store_exists || store.is_empty() {
        return StalenessSignal::NeverSynced;
    }
    let missing = collect_missing(files);
    if missing.len() > 0 {
        let mut reason = "missing ".to_owned();
        let count = u64_to_string(missing.len() as u64);
        reason.append(count.as_str());
        reason.append(" managed file(s): ");
        let preview = preview_files(&missing);
        reason.append(preview.as_str());
        return StalenessSignal::Stale { reason };
    }
    if registry_mtime_unix > synced_at_unix {
        let mut reason = "registry changed ".to_owned();
        let age = format_system_time_age(now_unix, registry_mtime_unix);
        reason.append(age.as_str());
        reason.append(" ago");
        return StalenessSignal::Stale { reason };
    }
    let modified = collect_modified(files, store);
    if modified.len() > 0 {
        return StalenessSignal::Modified { files: modified };
    }
    let orphans = collect_orphans(files, store, extra);
    if orphans.len() > 0 {
        return StalenessSignal::Orphan { files: orphans };
    }
    StalenessSignal::Current
}

} // verus!
