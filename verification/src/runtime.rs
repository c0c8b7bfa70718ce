//! The daemon runtime's core: the single-consumer sync processor, the shared
//! registry cache and per-codebase sync timestamps, and the status snapshot
//! served over the socket.
//!
//! The processor receives jobs from a FIFO queue and handles exactly one at a
//! time to completion. On success it swaps a freshly loaded registry snapshot
//! into the cache and stamps every touched codebase with the current time; on
//! failure it leaves cache and timestamps untouched and replies with the
//! error. Every job gets exactly one reply.

use vstd::prelude::*;

use crate::strmap::StrMap;
use crate::sync::{SyncCodebaseResult, SyncScope, WriteKind, WriteResult};
use crate::types::Codebase;

verus! {

/// The daemon's registry cache: one record per codebase, rebuilt wholesale
/// from the registry after every successful sync.
pub type RegistryCache = Vec<Codebase>;

/// Per-codebase last-successful-sync timestamps (Unix seconds).
pub type SyncTimestamps = StrMap<u64>;

/// What a sync job is asked to cover.
#[derive(Debug)]
pub enum SyncTarget {
    /// Every registered codebase.
    All,
    /// One named codebase.
    Codebase(String),
}

impl SyncTarget {
    /// The label a summary reports for this target.
    pub open spec fn spec_label(&self) -> Seq<char> {
        match self {
            SyncTarget::All => "all"@,
            SyncTarget::Codebase(name) => name@,
        }
    }

    /// The pipeline scope for this target.
    pub fn scope(&self) -> (r: SyncScope)
        ensures
            match self {
                SyncTarget::All => r is All,
                SyncTarget::Codebase(name) => r matches SyncScope::Codebase(n) && n@ == name@,
            },
    {
        match self {
            SyncTarget::All => SyncScope::All,
            SyncTarget::Codebase(name) => SyncScope::Codebase(name.clone()),
        }
    }

    /// The label a summary reports for this target.
    pub fn label(&self) -> (r: String)
        ensures
            r@ == self.spec_label(),
    {
        match self {
            SyncTarget::All => "all".to_owned(),
            SyncTarget::Codebase(name) => name.clone(),
        }
    }
}

/// One unit of work for the processor.
pub struct SyncJob {
    pub target: SyncTarget,
    pub source: String,
}

/// Result record of one processed job.
#[derive(Debug)]
pub struct SyncSummary {
    pub target: String,
    pub source: String,
    pub codebases: Vec<String>,
    pub written: usize,
    pub unchanged: usize,
    pub duration_ms: u64,
}

/// What the render-and-write collaborator reported for a job.
pub enum SyncOutcome {
    /// Per-codebase results, in the order the codebases were synced.
    Success(Vec<SyncCodebaseResult>),
    /// The collaborator's error, already rendered as text.
    Failure(String),
}

/// A write outcome that counts as written work.
pub open spec fn counts_as_written(w: WriteResult) -> bool {
    w.kind() is Written || w.kind() is WouldWrite
}

/// How many writes of one codebase's result counted as written.
pub open spec fn written_count(s: Seq<WriteResult>) -> nat
    decreases s.len(),
{
    if s.len() == 0 {
        0
    } else {
        written_count(s.drop_last()) + if counts_as_written(s.last()) {
            1nat
        } else {
            0
        }
    }
}

/// How many writes of one codebase's result were unchanged.
pub open spec fn unchanged_count(s: Seq<WriteResult>) -> nat
    decreases s.len(),
{
    if s.len() == 0 {
        0
    } else {
        unchanged_count(s.drop_last()) + if s.last().kind() is Unchanged {
            1nat
        } else {
            0
        }
    }
}

/// Total written count across all results.
pub open spec fn total_written(results: Seq<SyncCodebaseResult>) -> nat
    decreases results.len(),
{
    if results.len() == 0 {
        0
    } else {
        total_written(results.drop_last()) + written_count(results.last().writes@)
    }
}

/// Total unchanged count across all results.
pub open spec fn total_unchanged(results: Seq<SyncCodebaseResult>) -> nat
    decreases results.len(),
{
    if results.len() == 0 {
        0
    } else {
        total_unchanged(results.drop_last()) + unchanged_count(results.last().writes@)
    }
}

/// The codebase names of the results, in order.
pub open spec fn result_names(results: Seq<SyncCodebaseResult>) -> Seq<Seq<char>> {
    results.map_values(|r: SyncCodebaseResult| r.codebase_name@)
}

proof fn lemma_written_count_take(s: Seq<WriteResult>, i: int)
    requires
        0 <= i <= s.len(),
    ensures
        written_count(s.take(i)) <= written_count(s),
        unchanged_count(s.take(i)) <= unchanged_count(s),
    decreases s.len(),
{
    if i == s.len() {
        assert(s.take(i) =~= s);
    } else if s.len() > 0 {
        assert(s.drop_last().take(i) =~= s.take(i));
        lemma_written_count_take(s.drop_last(), i);
    }
}

proof fn lemma_total_take(results: Seq<SyncCodebaseResult>, k: int)
    requires
        0 <= k <= results.len(),
    ensures
        total_written(results.take(k)) <= total_written(results),
        total_unchanged(results.take(k)) <= total_unchanged(results),
    decreases results.len(),
{
    if k == results.len() {
        assert(results.take(k) =~= results);
    } else if results.len() > 0 {
        assert(results.drop_last().take(k) =~= results.take(k));
        lemma_total_take(results.drop_last(), k);
    }
}

/// Count one codebase result's written and unchanged outcomes.
fn count_writes(writes: &Vec<WriteResult>) -> (r: (usize, usize))
    requires
        written_count(writes@) <= usize::MAX,
        unchanged_count(writes@) <= usize::MAX,
    ensures
        r.0 == written_count(writes@),
        r.1 == unchanged_count(writes@),
{
    let mut written: usize = 0;
    let mut unchanged: usize = 0;
    let mut i: usize = 0;
    while i < writes.len()
        invariant
            i <= writes@.len(),
            written == written_count(writes@.take(i as int)),
            unchanged == unchanged_count(writes@.take(i as int)),
            written_count(writes@) <= usize::MAX,
            unchanged_count(writes@) <= usize::MAX,
        decreases writes@.len() - i,
    {
        proof {
            assert(writes@.take(i + 1).drop_last() =~= writes@.take(i as int));
            assert(writes@.take(i + 1).last() == writes@[i as int]);
            lemma_written_count_take(writes@, i + 1);
        }
        match writes[i] {
            WriteResult::Written { .. } => {
                written = written + 1;
            },
            WriteResult::WouldWrite { .. } => {
                written = written + 1;
            },
            WriteResult::Unchanged { .. } => {
                unchanged = unchanged + 1;
            },
        }
        i = i + 1;
    }
    proof {
        assert(writes@.take(writes@.len() as int) =~= writes@);
    }
    (written, unchanged)
}

/// Build the result record for one processed job: the target's label, the
/// source tag, the names of the codebases touched, and the counts of files
/// written (or due to be written) versus unchanged.
pub fn build_sync_summary(
    target: &SyncTarget,
    source: &str,
    results: &Vec<SyncCodebaseResult>,
    duration_ms: u64,
) -> (r: SyncSummary)
    requires
        total_written(results@) <= usize::MAX,
        total_unchanged(results@) <= usize::MAX,
    ensures
        r.target@ == target.spec_label(),
        r.source@ == source@,
        r.codebases@.map_values(|n: String| n@) == result_names(results@),
        r.written == total_written(results@),
        r.unchanged == total_unchanged(results@),
        r.duration_ms == duration_ms,
{
    let mut codebases: Vec<String> = Vec::new();
    let mut written: usize = 0;
    let mut unchanged: usize = 0;
    let mut k: usize = 0;
    while k < results.len()
        invariant
            k <= results@.len(),
            codebases@.len() == k,
            forall|t: int| 0 <= t < k ==> #[trigger] codebases@[t]@
                == results@[t].codebase_name@,
            written == total_written(results@.take(k as int)),
            unchanged == total_unchanged(results@.take(k as int)),
            total_written(results@) <= usize::MAX,
            total_unchanged(results@) <= usize::MAX,
        decreases results@.len() - k,
    {
        proof {
            assert(results@.take(k + 1).drop_last() =~= results@.take(k as int));
            assert(results@.take(k + 1).last() == results@[k as int]);
            lemma_total_take(results@, k + 1);
        }
        let counts = count_writes(&results[k].writes);
        codebases.push(results[k].codebase_name.clone());
        written = written + counts.0;
        unchanged = unchanged + counts.1;
        k = k + 1;
    }
    proof {
        assert(results@.take(results@.len() as int) =~= results@);
        assert(codebases@.map_values(|n: String| n@) =~= result_names(results@));
    }
    SyncSummary {
        target: target.label(),
        source: source.to_owned(),
        codebases,
        written,
        unchanged,
        duration_ms,
    }
}

/// The timestamp map after stamping every name with `now`, in order.
pub open spec fn spec_stamped(ts: Map<Seq<char>, u64>, names: Seq<Seq<char>>, now: u64) -> Map<
    Seq<char>,
    u64,
>
    decreases names.len(),
{
    if names.len() == 0 {
        ts
    } else {
        spec_stamped(ts, names.drop_last(), now).insert(names.last(), now)
    }
}

/// What stamping does to one name's entry.
pub proof fn lemma_stamped_lookup(
    ts: Map<Seq<char>, u64>,
    names: Seq<Seq<char>>,
    now: u64,
    name: Seq<char>,
)
    ensures
        spec_stamped(ts, names, now).dom().contains(name) == (ts.dom().contains(name)
            || names.contains(name)),
        names.contains(name) ==> spec_stamped(ts, names, now)[name] == now,
        !names.contains(name) && ts.dom().contains(name) ==> spec_stamped(ts, names, now)[name]
            == ts[name],
    decreases names.len(),
{
    if names.len() > 0 {
        lemma_stamped_lookup(ts, names.drop_last(), now, name);
        if names.contains(name) && name != names.last() {
            let i = choose|i: int| 0 <= i < names.len() && names[i] == name;
            assert(names.drop_last()[i] == name);
            assert(names.drop_last().contains(name));
        }
        if names.drop_last().contains(name) {
            assert(names.contains(name));
        }
    }
}

/// Timestamp monotonicity: stamping a successful sync never decreases a
/// codebase's recorded last-sync time, as long as the clock has not gone
/// backwards since the value was recorded. (A failed sync leaves the map
/// untouched altogether: see `process_job`.)
pub proof fn lemma_timestamp_monotonic(
    ts: Map<Seq<char>, u64>,
    names: Seq<Seq<char>>,
    now: u64,
    name: Seq<char>,
)
    requires
        ts.dom().contains(name) ==> ts[name] <= now,
    ensures
        ts.dom().contains(name) ==> spec_stamped(ts, names, now).dom().contains(name)
            && spec_stamped(ts, names, now)[name] >= ts[name],
{
    lemma_stamped_lookup(ts, names, now, name);
}

/// Process one sync job to completion and reply to its requester.
///
/// `outcome` is what the render-and-write collaborator reported for the
/// job's scope, and `reload` what loading a fresh registry snapshot
/// reported; both ran outside this function. On success the snapshot is
/// swapped into the cache, every touched codebase is stamped with `now`, and
/// the reply carries the summary. On any failure the reply carries the error
/// text and neither the cache nor a timestamp changes. A reply is returned
/// in every case: no job is silently dropped.
pub fn process_job(
    job: &SyncJob,
    outcome: SyncOutcome,
    reload: Result<RegistryCache, String>,
    cache: &mut RegistryCache,
    timestamps: &mut SyncTimestamps,
    now: u64,
    duration_ms: u64,
) -> (reply: Result<SyncSummary, String>)
    requires
        old(timestamps).wf(),
        outcome matches SyncOutcome::Success(results) ==> total_written(results@) <= usize::MAX
            && total_unchanged(results@) <= usize::MAX,
    ensures
        final(timestamps).wf(),
        reply is Ok <==> (outcome is Success && reload is Ok),
        outcome matches SyncOutcome::Failure(e) ==> reply matches Err(m) && m@ == e@
            && final(cache)@ == old(cache)@ && final(timestamps)@ == old(timestamps)@,
        outcome is Success ==> (reload matches Err(e) ==> (reply matches Err(m) && m@ == e@
            && final(cache)@ == old(cache)@ && final(timestamps)@ == old(timestamps)@)),
        outcome matches SyncOutcome::Success(results) ==> (reload matches Ok(snapshot) ==> ({
            &&& final(cache)@ == snapshot@
            &&& final(timestamps)@ == spec_stamped(old(timestamps)@, result_names(results@), now)
            &&& reply matches Ok(s) && s.target@ == job.target.spec_label() && s.source@
                == job.source@ && s.codebases@.map_values(|n: String| n@) == result_names(
                results@,
            ) && s.written == total_written(results@) && s.unchanged == total_unchanged(results@)
                && s.duration_ms == duration_ms
        })),
{
    let results = match outcome {
        SyncOutcome::Failure(e) => {
            return Result::Err(e);
        },
        SyncOutcome::Success(results) => results,
    };
    let snapshot = match reload {
        Result::Err(e) => {
            return Result::Err(e);
        },
        Result::Ok(snapshot) => snapshot,
    };
    let ghost snap = snapshot@;
    *cache = snapshot;
    let ghost ts0 = timestamps@;
    let mut k: usize = 0;
    while k < results.len()
        invariant
            timestamps.wf(),
            k <= results@.len(),
            timestamps@ == spec_stamped(ts0, result_names(results@).take(k as int), now),
        decreases results@.len() - k,
    {
        proof {
            assert(result_names(results@).take(k + 1).drop_last() =~= result_names(
                results@,
            ).take(k as int));
            assert(result_names(results@).take(k + 1).last() == results@[k as int].codebase_name@);
        }
        timestamps.insert(results[k].codebase_name.as_str(), now);
        k = k + 1;
    }
    proof {
        assert(result_names(results@).take(results@.len() as int) =~= result_names(results@));
    }
    let summary = build_sync_summary(&job.target, job.source.as_str(), &results, duration_ms);
    Result::Ok(summary)
}

/// The paths a job's outcome actually wrote, in order.
pub open spec fn outcome_written_paths(o: SyncOutcome) -> Seq<Seq<char>> {
    match o {
        SyncOutcome::Success(results) => results@.map_values(
            |r: SyncCodebaseResult| r.writes@.filter(|w: WriteResult| w.kind() is Written).map_values(
                |w: WriteResult| w.path_view(),
            ),
        ).flatten(),
        SyncOutcome::Failure(_) => Seq::<Seq<char>>::empty(),
    }
}

/// The write trace of the processor over a queue of jobs, each write tagged
/// with the index of the job it belongs to. Jobs are processed strictly in
/// FIFO order, one at a time to completion, so the trace is the plain
/// concatenation of the jobs' writes.
pub open spec fn processor_trace(outcomes: Seq<SyncOutcome>, base: int) -> Seq<(int, Seq<char>)>
    decreases outcomes.len(),
{
    if outcomes.len() == 0 {
        Seq::<(int, Seq<char>)>::empty()
    } else {
        let head = outcome_written_paths(outcomes[0]);
        Seq::new(head.len(), |j: int| (base, head[j])) + processor_trace(
            outcomes.drop_first(),
            base + 1,
        )
    }
}

proof fn lemma_trace_tags(outcomes: Seq<SyncOutcome>, base: int)
    ensures
        forall|a: int| 0 <= a < processor_trace(outcomes, base).len()
            ==> #[trigger] processor_trace(outcomes, base)[a].0 >= base,
        forall|a: int, b: int| 0 <= a < b < processor_trace(outcomes, base).len()
            ==> #[trigger] processor_trace(outcomes, base)[a].0 <= #[trigger] processor_trace(
            outcomes,
            base,
        )[b].0,
    decreases outcomes.len(),
{
    if outcomes.len() > 0 {
        let head = outcome_written_paths(outcomes[0]);
        let headseq = Seq::new(head.len(), |j: int| (base, head[j]));
        let tail = processor_trace(outcomes.drop_first(), base + 1);
        let whole = processor_trace(outcomes, base);
        lemma_trace_tags(outcomes.drop_first(), base + 1);
        assert(whole == headseq + tail);
        assert forall|a: int| 0 <= a < whole.len() implies #[trigger] whole[a].0 >= base by {
            if a < headseq.len() {
                assert(whole[a] == headseq[a]);
            } else {
                assert(whole[a] == tail[a - headseq.len()]);
                assert(tail[a - headseq.len()].0 >= base + 1);
            }
        }
        assert forall|a: int, b: int| 0 <= a < b < whole.len() implies #[trigger] whole[a].0
            <= #[trigger] whole[b].0 by {
            if b < headseq.len() {
                assert(whole[a] == headseq[a] && whole[b] == headseq[b]);
            } else if a < headseq.len() {
                assert(whole[a].0 == base);
                assert(whole[b] == tail[b - headseq.len()]);
                assert(tail[b - headseq.len()].0 >= base + 1);
            } else {
                assert(whole[a] == tail[a - headseq.len()]);
                assert(whole[b] == tail[b - headseq.len()]);
                assert(tail[a - headseq.len()].0 <= tail[b - headseq.len()].0);
            }
        }
    }
}

/// Serialized writes: in the processor's write trace, every write of an
/// earlier job precedes every write of a later job — two jobs, whatever
/// their scopes, never interleave their writes.
pub proof fn lemma_serialized_writes(outcomes: Seq<SyncOutcome>, a: int, b: int)
    requires
        0 <= a < b < processor_trace(outcomes, 0).len(),
    ensures
        processor_trace(outcomes, 0)[a].0 <= processor_trace(outcomes, 0)[b].0,
{
    lemma_trace_tags(outcomes, 0);
}

/// One codebase's row in a status snapshot.
#[derive(Debug)]
pub struct CodebaseStatusEntry {
    pub name: String,
    pub last_sync_at_unix: u64,
}

/// The data of a `status` reply.
#[derive(Debug)]
pub struct StatusPayload {
    pub running: bool,
    pub label: String,
    pub started_at_unix: u64,
    pub last_sync_at_unix: u64,
    pub codebases: Vec<CodebaseStatusEntry>,
    pub socket: String,
    pub projects_root: String,
}

/// The cache's codebase names, in cache order.
pub open spec fn spec_cache_names(cache: Seq<Codebase>) -> Seq<Seq<char>> {
    cache.map_values(|c: Codebase| c.name.0@)
}

/// Build the status snapshot from the current cache and timestamps, without
/// enqueueing any work: one row per cached codebase name, sorted ascending
/// and deduplicated, with its last successful sync time (0 when it never
/// synced), and the daemon-wide last sync as the greatest recorded timestamp
/// (0 when none).
pub fn build_status_payload(
    home: &str,
    cache: &RegistryCache,
    timestamps: &SyncTimestamps,
    started_at_unix: u64,
) -> (r: StatusPayload)
    requires
        timestamps.wf(),
    ensures
        r.running == true,
        r.label@ == "dev.orchestra.daemon"@,
        r.started_at_unix == started_at_unix,
        ({
            let names = crate::strutil::spec_sorted_dedup(spec_cache_names(cache@));
            &&& r.codebases@.len() == names.len()
            &&& forall|i: int| 0 <= i < names.len() ==> #[trigger] r.codebases@[i].name@
                == names[i]
            &&& forall|i: int| 0 <= i < names.len() ==> #[trigger] r.codebases@[
                i
            ].last_sync_at_unix == (if timestamps@.dom().contains(names[i]) {
                timestamps@[names[i]]
            } else {
                0u64
            })
        }),
        forall|k: Seq<char>| timestamps@.dom().contains(k) ==> timestamps@[k]
            <= r.last_sync_at_unix,
        r.last_sync_at_unix == 0 || exists|k: Seq<char>| timestamps@.dom().contains(k)
            && timestamps@[k] == r.last_sync_at_unix,
        r.socket@ == crate::paths::spec_socket_path(home@),
        r.projects_root@ == crate::paths::spec_projects_root(home@),
{
    let mut raw_names: Vec<String> = Vec::new();
    let mut i: usize = 0;
    while i < cache.len()
        invariant
            i <= cache@.len(),
            raw_names@.len() == i,
            forall|t: int| 0 <= t < i ==> #[trigger] raw_names@[t]@ == cache@[t].name.0@,
        decreases cache@.len() - i,
    {
        raw_names.push(cache[i].name.0.clone());
        i = i + 1;
    }
    proof {
        assert(raw_names@.map_values(|p: String| p@) =~= spec_cache_names(cache@));
    }
    let names = crate::strutil::sort_and_dedup(&raw_names);
    let ghost sorted = crate::strutil::spec_sorted_dedup(spec_cache_names(cache@));

    let mut codebases: Vec<CodebaseStatusEntry> = Vec::new();
    let mut k: usize = 0;
    while k < names.len()
        invariant
            timestamps.wf(),
            names@.map_values(|p: String| p@) == sorted,
            k <= names@.len(),
            codebases@.len() == k,
            forall|t: int| 0 <= t < k ==> #[trigger] codebases@[t].name@ == sorted[t],
            forall|t: int| 0 <= t < k ==> #[trigger] codebases@[t].last_sync_at_unix == (
            if timestamps@.dom().contains(sorted[t]) {
                timestamps@[sorted[t]]
            } else {
                0u64
            }),
        decreases names@.len() - k,
    {
        let name = names[k].clone();
        let last_sync = match timestamps.get(name.as_str()) {
            Option::Some(v) => *v,
            Option::None => 0,
        };
        let ghost prev = codebases@;
        codebases.push(CodebaseStatusEntry { name, last_sync_at_unix: last_sync });
        proof {
            assert forall|t: int| 0 <= t < k + 1 implies #[trigger] codebases@[t].name@
                == sorted[t] by {
                if t < k {
                    assert(codebases@[t] == prev[t]);
                    assert(prev[t].name@ == sorted[t]);
                } else {
                    assert(codebases@[t] == codebases@.last());
                }
            }
            assert forall|t: int| 0 <= t < k + 1 implies #[trigger] codebases@[
                t
            ].last_sync_at_unix == (if timestamps@.dom().contains(sorted[t]) {
                timestamps@[sorted[t]]
            } else {
                0u64
            }) by {
                if t < k {
                    assert(codebases@[t] == prev[t]);
                    assert(prev[t].last_sync_at_unix == (if timestamps@.dom().contains(
                        sorted[t],
                    ) {
                        timestamps@[sorted[t]]
                    } else {
                        0u64
                    }));
                } else {
                    assert(codebases@[t] == codebases@.last());
                }
            }
        }
        k = k + 1;
    }
    StatusPayload {
        running: true,
        label: crate::paths::DAEMON_LABEL.to_owned(),
        started_at_unix,
        last_sync_at_unix: timestamps.max_value(),
        codebases,
        socket: crate::paths::socket_path(home),
        projects_root: crate::paths::projects_root(home),
    }
}

/// Cache freshness: once a successful sync's reply is sent, the cache holds
/// exactly the freshly loaded snapshot (see `process_job`), a status built
/// from it lists the snapshot's codebases name for name (see
/// `build_status_payload`), and every codebase the job touched reads the
/// sync instant as its last successful sync time.
pub proof fn lemma_cache_freshness(
    ts: Map<Seq<char>, u64>,
    names: Seq<Seq<char>>,
    now: u64,
    name: Seq<char>,
)
    requires
        names.contains(name),
    ensures
        spec_stamped(ts, names, now).dom().contains(name),
        spec_stamped(ts, names, now)[name] == now,
{
    lemma_stamped_lookup(ts, names, now, name);
}

} // verus!
