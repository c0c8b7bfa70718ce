//! The status report: one row per codebase with its staleness signal, and
//! the counts a summary line shows.

use vstd::prelude::*;

use crate::staleness::{spec_decimal_more, spec_join, StalenessSignal};
use crate::types::Codebase;

verus! {

/// The machine-readable key of a signal.
pub fn signal_key(signal: &StalenessSignal) -> (r: String)
    ensures
        signal is NeverSynced ==> r@ == "never_synced"@,
        signal is Current ==> r@ == "current"@,
        signal is Stale ==> r@ == "stale"@,
        signal is Modified ==> r@ == "modified"@,
        signal is Orphan ==> r@ == "orphan"@,
{
    match signal {
        StalenessSignal::NeverSynced => "never_synced".to_owned(),
        StalenessSignal::Current => "current".to_owned(),
        StalenessSignal::Stale { .. } => "stale".to_owned(),
        StalenessSignal::Modified { .. } => "modified".to_owned(),
        StalenessSignal::Orphan { .. } => "orphan".to_owned(),
    }
}

/// The human-readable label of a signal.
pub fn signal_label(signal: &StalenessSignal) -> (r: String)
    ensures
        signal is NeverSynced ==> r@ == "NEVER SYNCED"@,
        signal is Current ==> r@ == "CURRENT"@,
        signal is Stale ==> r@ == "STALE"@,
        signal is Modified ==> r@ == "MODIFIED"@,
        signal is Orphan ==> r@ == "ORPHAN"@,
{
    match signal {
        StalenessSignal::NeverSynced => "NEVER SYNCED".to_owned(),
        StalenessSignal::Current => "CURRENT".to_owned(),
        StalenessSignal::Stale { .. } => "STALE".to_owned(),
        StalenessSignal::Modified { .. } => "MODIFIED".to_owned(),
        StalenessSignal::Orphan { .. } => "ORPHAN".to_owned(),
    }
}

/// The first two file names of a list, with a count of the rest.
pub open spec fn spec_summarize(files: Seq<Seq<char>>) -> Seq<char> {
    if files.len() == 0 {
        "unknown file"@
    } else if files.len() <= 2 {
        spec_join(files, ", "@)
    } else {
        spec_join(files.take(2).push(spec_decimal_more((files.len() - 2) as nat)), ", "@)
    }
}

/// Summarise a file list: the first two names and a count of the rest; a
/// fixed text when the list is empty.
pub fn summarize_files(files: &Vec<String>) -> (r: String)
    ensures
        r@ == spec_summarize(files@.map_values(|p: String| p@)),
{
    let ghost views = files@.map_values(|p: String| p@);
    if files.len() == 0 {
        return "unknown file".to_owned();
    }
    if files.len() <= 2 {
        return crate::staleness::join_strings(files, ", ");
    }
    let mut shown: Vec<String> = Vec::new();
    shown.push(files[0].clone());
    shown.push(files[1].clone());
    let mut tail = "+".to_owned();
    let count = crate::strutil::u64_to_string((files.len() - 2) as u64);
    tail.append(count.as_str());
    tail.append(" more");
    shown.push(tail);
    proof {
        assert(shown@.map_values(|p: String| p@) =~= views.take(2).push(
            spec_decimal_more((views.len() - 2) as nat),
        ));
    }
    crate::staleness::join_strings(&shown, ", ")
}

/// The detail text of a signal: its reason, or its files summarised.
pub fn signal_detail(signal: &StalenessSignal) -> (r: String)
    ensures
        signal is NeverSynced ==> r@ == "no hash store entries"@,
        signal is Current ==> r@ == "up to date"@,
        signal matches StalenessSignal::Stale { reason } ==> r@ == reason@,
        signal matches StalenessSignal::Modified { files } ==> r@ == spec_summarize(
            files@.map_values(|p: String| p@),
        ) + " edited"@,
        signal matches StalenessSignal::Orphan { files } ==> r@ == spec_summarize(
            files@.map_values(|p: String| p@),
        ) + " untracked"@,
{
    match signal {
        StalenessSignal::NeverSynced => "no hash store entries".to_owned(),
        StalenessSignal::Current => "up to date".to_owned(),
        StalenessSignal::Stale { reason } => reason.clone(),
        StalenessSignal::Modified { files } => {
            let mut s = summarize_files(files);
            s.append(" edited");
            s
        },
        StalenessSignal::Orphan { files } => {
            let mut s = summarize_files(files);
            s.append(" untracked");
            s
        },
    }
}

/// Count the active (non-done) tasks of a codebase.
pub fn count_active_tasks(codebase: &Codebase) -> (r: usize)
    requires
        crate::renderer::spec_all_active_tasks(codebase.projects@).len() <= usize::MAX,
    ensures
        r == crate::renderer::spec_all_active_tasks(codebase.projects@).len(),
{
    let tasks = crate::renderer::collect_active_tasks(&codebase.projects);
    tasks.len()
}

/// One codebase's row in the status report.
pub struct CodebaseStatus {
    pub project: String,
    pub codebase: String,
    pub signal: StalenessSignal,
    pub detail: String,
    pub last_sync_age: String,
    pub last_sync_at: Option<String>,
    pub active_tasks: usize,
}

/// The assembled status report.
pub struct StatusReport {
    pub project_count: usize,
    pub stale_count: usize,
    pub needs_sync_count: usize,
    pub codebases: Vec<CodebaseStatus>,
}

/// How many rows carry a `Stale` signal.
pub open spec fn spec_stale_count(rows: Seq<CodebaseStatus>) -> nat
    decreases rows.len(),
{
    if rows.len() == 0 {
        0
    } else {
        spec_stale_count(rows.drop_last()) + if rows.last().signal is Stale {
            1nat
        } else {
            0
        }
    }
}

/// How many rows need a sync: every signal but `Current`.
pub open spec fn spec_needs_sync_count(rows: Seq<CodebaseStatus>) -> nat
    decreases rows.len(),
{
    if rows.len() == 0 {
        0
    } else {
        spec_needs_sync_count(rows.drop_last()) + if !(rows.last().signal is Current) {
            1nat
        } else {
            0
        }
    }
}

/// How many distinct names a list holds.
pub open spec fn spec_distinct_count(names: Seq<Seq<char>>) -> nat
    decreases names.len(),
{
    if names.len() == 0 {
        0
    } else {
        spec_distinct_count(names.drop_last()) + if names.drop_last().contains(names.last()) {
            0nat
        } else {
            1
        }
    }
}

/// The project names of the rows, in order.
pub open spec fn spec_row_projects(rows: Seq<CodebaseStatus>) -> Seq<Seq<char>> {
    rows.map_values(|r: CodebaseStatus| r.project@)
}

/// `k` occurs among the seen names.
pub open spec fn has_seen(seen: Seq<String>, k: Seq<char>) -> bool {
    exists|t: int| 0 <= t < seen.len() && #[trigger] seen[t]@ == k
}

/// Assemble the status report from its rows: the number of distinct
/// projects, the number of stale codebases, and the number of codebases in
/// any state but current.
pub fn build_report(rows: Vec<CodebaseStatus>) -> (r: StatusReport)
    ensures
        r.codebases@ == rows@,
        r.project_count == spec_distinct_count(spec_row_projects(rows@)),
        r.stale_count == spec_stale_count(rows@),
        r.needs_sync_count == spec_needs_sync_count(rows@),
{
    let ghost names = spec_row_projects(rows@);
    let mut seen: Vec<String> = Vec::new();
    let mut stale: usize = 0;
    let mut needs: usize = 0;
    let mut distinct: usize = 0;
    let mut i: usize = 0;
    while i < rows.len()
        invariant
            i <= rows@.len(),
            names == spec_row_projects(rows@),
            stale == spec_stale_count(rows@.take(i as int)),
            needs == spec_needs_sync_count(rows@.take(i as int)),
            distinct == spec_distinct_count(names.take(i as int)),
            distinct <= i,
            stale <= i,
            needs <= i,
            forall|t: int| 0 <= t < seen@.len() ==> names.take(i as int).contains(
                #[trigger] seen@[t]@,
            ),
            forall|j: int| 0 <= j < i ==> has_seen(seen@, #[trigger] names[j]),
        decreases rows@.len() - i,
    {
        proof {
            assert(rows@.take(i + 1).drop_last() =~= rows@.take(i as int));
            assert(rows@.take(i + 1).last() == rows@[i as int]);
            assert(names.take(i + 1).drop_last() =~= names.take(i as int));
            assert(names.take(i + 1).last() == names[i as int]);
        }
        match &rows[i].signal {
            StalenessSignal::Stale { .. } => {
                stale = stale + 1;
            },
            _ => {},
        }
        match &rows[i].signal {
            StalenessSignal::Current => {},
            _ => {
                needs = needs + 1;
            },
        }
        let name = &rows[i].project;
        let mut found = false;
        let mut j: usize = 0;
        while !found && j < seen.len()
            invariant
                j <= seen@.len(),
                i < rows@.len(),
                name == &rows@[i as int].project,
                !found ==> forall|t: int| 0 <= t < j ==> #[trigger] seen@[t]@ != name@,
                found ==> has_seen(seen@, name@),
            decreases seen@.len() - j + (if found { 0int } else { 1 }),
        {
            if crate::strutil::str_eq(seen[j].as_str(), name.as_str()) {
                found = true;
                proof {
                    assert(seen@[j as int]@ == name@);
                }
            } else {
                j = j + 1;
            }
        }
        proof {
            assert(names[i as int] == rows@[i as int].project@);
            if found {
                let t = choose|t: int| 0 <= t < seen@.len() && #[trigger] seen@[t]@ == name@;
                assert(names.take(i as int).contains(seen@[t]@));
                assert(names.take(i as int).contains(names[i as int]));
            } else {
                assert(!has_seen(seen@, name@));
                if names.take(i as int).contains(names[i as int]) {
                    let t = choose|t: int| 0 <= t < i && names.take(i as int)[t]
                        == names[i as int];
                    assert(has_seen(seen@, names[t]));
                    assert(false);
                }
            }
        }
        if !found {
            let ghost prev_seen = seen@;
            seen.push(name.clone());
            distinct = distinct + 1;
            proof {
                assert(seen@[seen@.len() - 1]@ == names[i as int]);
                assert forall|t: int| 0 <= t < seen@.len() implies names.take(
                    i + 1,
                ).contains(#[trigger] seen@[t]@) by {
                    if t < prev_seen.len() {
                        assert(seen@[t]@ == prev_seen[t]@);
                        let u = choose|u: int| 0 <= u < i && names.take(i as int)[u]
                            == prev_seen[t]@;
                        assert(names.take(i + 1)[u] == prev_seen[t]@);
                    } else {
                        assert(names.take(i + 1)[i as int] == names[i as int]);
                    }
                }
                assert forall|j2: int| 0 <= j2 < i + 1 implies has_seen(
                    seen@,
                    #[trigger] names[j2],
                ) by {
                    if j2 < i {
                        let t = choose|t: int| 0 <= t < prev_seen.len()
                            && #[trigger] prev_seen[t]@ == names[j2];
                        assert(seen@[t]@ == names[j2]);
                    } else {
                        assert(seen@[seen@.len() - 1]@ == names[j2]);
                    }
                }
            }
        } else {
            proof {
                assert forall|t: int| 0 <= t < seen@.len() implies names.take(
                    i + 1,
                ).contains(#[trigger] seen@[t]@) by {
                    let u = choose|u: int| 0 <= u < i && names.take(i as int)[u] == seen@[t]@;
                    assert(names.take(i + 1)[u] == seen@[t]@);
                }
                assert forall|j2: int| 0 <= j2 < i + 1 implies has_seen(
                    seen@,
                    #[trigger] names[j2],
                ) by {
                    if j2 == i {
                        assert(has_seen(seen@, name@));
                    }
                }
            }
        }
        i = i + 1;
    }
    proof {
        assert(rows@.take(rows@.len() as int) =~= rows@);
        assert(names.take(names.len() as int) =~= names);
    }
    StatusReport {
        project_count: distinct,
        stale_count: stale,
        needs_sync_count: needs,
        codebases: rows,
    }
}

} // verus!
