//! Debouncing of filesystem events: a table from changed-file path to the
//! instant it was last seen. A repeat event for the same path within the
//! debounce window is suppressed; entries older than a fixed horizon are
//! pruned on every event to bound memory.
//!
//! Instants are modelled as milliseconds on a monotone clock.

use vstd::prelude::*;

use crate::paths::DEBOUNCE_PRUNE_HORIZON_MS;
use crate::paths::DEBOUNCE_WINDOW_MS;
use crate::strmap::{entries_map, has_key, keys_distinct, lemma_map_value};

verus! {

/// Milliseconds elapsed from `last` to `now` on a monotone clock (0 when
/// `last` lies in the future).
pub open spec fn elapsed_since(last: u64, now: u64) -> u64 {
    if now >= last {
        (now - last) as u64
    } else {
        0
    }
}

/// The table after pruning every entry older than `horizon`.
pub open spec fn spec_pruned(m: Map<Seq<char>, u64>, now: u64, horizon: u64) -> Map<
    Seq<char>,
    u64,
> {
    Map::new(
        |k: Seq<char>| m.dom().contains(k) && elapsed_since(m[k], now) <= horizon,
        |k: Seq<char>| m[k],
    )
}

/// An event for `path` at `now` fires a trigger: the path is absent from the
/// pruned table, or its last trigger lies at least the window in the past.
pub open spec fn debounce_fires(
    m: Map<Seq<char>, u64>,
    path: Seq<char>,
    now: u64,
    window: u64,
) -> bool {
    let p = spec_pruned(m, now, DEBOUNCE_PRUNE_HORIZON_MS as u64);
    !(p.dom().contains(path) && elapsed_since(p[path], now) < window)
}

/// The table after an event for `path` at `now`: pruned, and stamped with
/// `now` when the event fired.
pub open spec fn debounce_next(
    m: Map<Seq<char>, u64>,
    path: Seq<char>,
    now: u64,
    window: u64,
) -> Map<Seq<char>, u64> {
    let p = spec_pruned(m, now, DEBOUNCE_PRUNE_HORIZON_MS as u64);
    if debounce_fires(m, path, now, window) {
        p.insert(path, now)
    } else {
        p
    }
}

/// Last-seen instant per changed path, owned by the watcher.
pub struct DebounceTable {
    entries: Vec<(String, u64)>,
}

impl View for DebounceTable {
    type V = Map<Seq<char>, u64>;

    closed spec fn view(&self) -> Map<Seq<char>, u64> {
        entries_map(self.entries@)
    }
}

impl DebounceTable {
    /// The representation holds no duplicate keys.
    pub closed spec fn wf(&self) -> bool {
        keys_distinct(self.entries@)
    }

    /// An empty table.
    pub fn new() -> (r: DebounceTable)
        ensures
            r.wf(),
            r@ == Map::<Seq<char>, u64>::empty(),
    {
        let r = DebounceTable { entries: Vec::new() };
        proof {
            assert(r@ =~= Map::<Seq<char>, u64>::empty());
        }
        r
    }

    /// Remove every entry whose instant lies more than `horizon` before `now`.
    fn prune(&mut self, now: u64, horizon: u64)
        requires
            old(self).wf(),
        ensures
            final(self).wf(),
            final(self)@ == spec_pruned(old(self)@, now, horizon),
    {
        let ghost orig = self.entries@;
        let mut out: Vec<(String, u64)> = Vec::new();
        let mut idx: usize = 0;
        while idx < self.entries.len()
            invariant
                keys_distinct(orig),
                self.entries@ == orig,
                idx <= orig.len(),
                keys_distinct(out@),
                forall|j: int| 0 <= j < out@.len() ==> exists|i: int|
                    0 <= i < idx && orig[i] == #[trigger] out@[j]
                        && elapsed_since(orig[i].1, now) <= horizon,
                forall|i: int| 0 <= i < idx && elapsed_since(#[trigger] orig[i].1, now)
                    <= horizon ==> has_key(out@, orig[i].0@),
            decreases orig.len() - idx,
        {
            let seen = self.entries[idx].1;
            let keep = if seen >= now {
                true
            } else {
                now - seen <= horizon
            };
            if keep {
                let k = self.entries[idx].0.clone();
                proof {
                    if has_key(out@, k@) {
                        let j = choose|j: int| 0 <= j < out@.len() && #[trigger] out@[j].0@
                            == k@;
                        let i = choose|i: int| 0 <= i < idx && orig[i] == out@[j]
                            && elapsed_since(orig[i].1, now) <= horizon;
                        assert(orig[i].0@ == orig[idx as int].0@);
                        assert(false);
                    }
                }
                let ghost prev = out@;
                out.push((k, seen));
                proof {
                    assert(out@[out@.len() - 1].0@ == orig[idx as int].0@);
                    assert forall|i: int| 0 <= i < idx + 1 && elapsed_since(
                        #[trigger] orig[i].1,
                        now,
                    ) <= horizon implies has_key(out@, orig[i].0@) by {
                        if i < idx {
                            let j = choose|j: int| 0 <= j < prev.len() && #[trigger] prev[j].0@
                                == orig[i].0@;
                            assert(out@[j].0@ == orig[i].0@);
                        } else {
                            assert(out@[out@.len() - 1].0@ == orig[i].0@);
                        }
                    }
                }
            }
            idx = idx + 1;
        }
        self.entries = out;
        proof {
            let m0 = entries_map(orig);
            let p = spec_pruned(m0, now, horizon);
            let m1 = entries_map(self.entries@);
            assert forall|k: Seq<char>| m1.dom().contains(k) implies p.dom().contains(k)
                && m1[k] == p[k] by {
                let j = choose|j: int| 0 <= j < self.entries@.len()
                    && #[trigger] self.entries@[j].0@ == k;
                lemma_map_value(self.entries@, j);
                let i = choose|i: int| 0 <= i < orig.len() && orig[i] == self.entries@[j]
                    && elapsed_since(orig[i].1, now) <= horizon;
                lemma_map_value(orig, i);
            }
            assert forall|k: Seq<char>| p.dom().contains(k) implies m1.dom().contains(k) by {
                let i = choose|i: int| 0 <= i < orig.len() && #[trigger] orig[i].0@ == k;
                lemma_map_value(orig, i);
            }
            assert(m1 =~= p);
        }
    }

    /// Look up the index of `path` in the representation.
    fn find_index(&self, path: &str) -> (r: Option<usize>)
        ensures
            match r {
                Some(i) => i < self.entries@.len() && self.entries@[i as int].0@ == path@,
                None => !has_key(self.entries@, path@),
            },
    {
        let mut i: usize = 0;
        while i < self.entries.len()
            invariant
                i <= self.entries@.len(),
                forall|t: int| 0 <= t < i ==> #[trigger] self.entries@[t].0@ != path@,
            decreases self.entries@.len() - i,
        {
            if crate::strutil::str_eq(self.entries[i].0.as_str(), path) {
                return Some(i);
            }
            i = i + 1;
        }
        None
    }

    /// Decide whether an event for `path` observed at `now_ms` fires a sync
    /// trigger, and record the trigger instant when it does. Entries older
    /// than the prune horizon are dropped first.
    pub fn should_process_event_with_threshold(&mut self, path: &str, now_ms: u64, threshold_ms:
        u64) -> (r: bool)
        requires
            old(self).wf(),
        ensures
            final(self).wf(),
            r == debounce_fires(old(self)@, path@, now_ms, threshold_ms),
            final(self)@ == debounce_next(old(self)@, path@, now_ms, threshold_ms),
    {
        self.prune(now_ms, DEBOUNCE_PRUNE_HORIZON_MS);
        let ghost pruned = self@;
        match self.find_index(path) {
            Some(i) => {
                proof {
                    lemma_map_value(self.entries@, i as int);
                }
                let last = self.entries[i].1;
                let elapsed = if now_ms >= last {
                    now_ms - last
                } else {
                    0
                };
                if elapsed < threshold_ms {
                    false
                } else {
                    let ghost before = self.entries@;
                    let path_owned = path.to_owned();
                    self.entries[i] = (path_owned, now_ms);
                    proof {
                        let s = self.entries@;
                        assert forall|a: int, b: int| 0 <= a < b < s.len() implies s[a].0@
                            != s[b].0@ by {
                            assert(before[a].0@ != before[b].0@);
                        }
                        assert forall|k: Seq<char>| entries_map(s).dom().contains(k)
                            <==> pruned.insert(path@, now_ms).dom().contains(k) by {
                            if has_key(s, k) {
                                let j = choose|j: int| 0 <= j < s.len() && #[trigger] s[j].0@
                                    == k;
                                if j != i {
                                    assert(before[j].0@ == k);
                                }
                            }
                            if k == path@ {
                                assert(s[i as int].0@ == path@);
                                assert(has_key(s, k));
                            } else if pruned.dom().contains(k) {
                                let j = choose|j: int| 0 <= j < before.len()
                                    && #[trigger] before[j].0@ == k;
                                assert(before[i as int].0@ == path@);
                                assert(j != i);
                                assert(s[j].0@ == k);
                                assert(has_key(s, k));
                            }
                        }
                        assert forall|k: Seq<char>| entries_map(s).dom().contains(k)
                            implies entries_map(s)[k] == pruned.insert(path@, now_ms)[k] by {
                            let j = choose|j: int| 0 <= j < s.len() && #[trigger] s[j].0@
                                == k;
                            lemma_map_value(s, j);
                            if j == i {
                                assert(before[i as int].0@ == path@);
                                assert(k == path@);
                            } else {
                                lemma_map_value(before, j);
                            }
                        }
                        assert(entries_map(s) =~= pruned.insert(path@, now_ms));
                    }
                    true
                }
            },
            None => {
                let ghost before = self.entries@;
                let path_owned = path.to_owned();
                self.entries.push((path_owned, now_ms));
                proof {
                    let s = self.entries@;
                    assert forall|a: int, b: int| 0 <= a < b < s.len() implies s[a].0@
                        != s[b].0@ by {
                        if b < before.len() {
                            assert(before[a].0@ != before[b].0@);
                        } else {
                            assert(s[b].0@ == path@);
                            assert(!has_key(before, path@));
                            assert(before[a].0@ != path@);
                        }
                    }
                    assert forall|k: Seq<char>| entries_map(s).dom().contains(k)
                        <==> pruned.insert(path@, now_ms).dom().contains(k) by {
                        if has_key(s, k) {
                            let j = choose|j: int| 0 <= j < s.len() && #[trigger] s[j].0@
                                == k;
                            if j < before.len() {
                                assert(before[j].0@ == k);
                            }
                        }
                        if k == path@ {
                            assert(s[s.len() - 1].0@ == k);
                            assert(has_key(s, k));
                        } else if pruned.dom().contains(k) {
                            let j = choose|j: int| 0 <= j < before.len()
                                && #[trigger] before[j].0@ == k;
                            assert(s[j].0@ == k);
                            assert(has_key(s, k));
                        }
                    }
                    assert forall|k: Seq<char>| entries_map(s).dom().contains(k)
                        implies entries_map(s)[k] == pruned.insert(path@, now_ms)[k] by {
                        let j = choose|j: int| 0 <= j < s.len() && #[trigger] s[j].0@ == k;
                        lemma_map_value(s, j);
                        if j < before.len() {
                            lemma_map_value(before, j);
                            assert(k != path@);
                        } else {
                            assert(k == path@);
                        }
                    }
                    assert(entries_map(s) =~= pruned.insert(path@, now_ms));
                }
                true
            },
        }
    }

    /// Decide an event with the daemon's fixed debounce window.
    pub fn should_process_event(&mut self, path: &str, now_ms: u64) -> (r: bool)
        requires
            old(self).wf(),
        ensures
            final(self).wf(),
            r == debounce_fires(old(self)@, path@, now_ms, DEBOUNCE_WINDOW_MS as u64),
            final(self)@ == debounce_next(old(self)@, path@, now_ms, DEBOUNCE_WINDOW_MS as u64),
    {
        self.should_process_event_with_threshold(path, now_ms, DEBOUNCE_WINDOW_MS)
    }
}

/// How many triggers a sequence of events for one path fires, processed in
/// order from the given table state.
pub open spec fn trigger_count(
    m: Map<Seq<char>, u64>,
    path: Seq<char>,
    times: Seq<u64>,
    window: u64,
) -> nat
    decreases times.len(),
{
    if times.len() == 0 {
        0
    } else {
        let fired: nat = if debounce_fires(m, path, times[0], window) {
            1
        } else {
            0
        };
        fired + trigger_count(
            debounce_next(m, path, times[0], window),
            path,
            times.drop_first(),
            window,
        )
    }
}

/// While the path's entry stands at `t0` and every event falls inside the
/// window after `t0`, no event fires.
proof fn lemma_no_trigger_within_window(
    m: Map<Seq<char>, u64>,
    path: Seq<char>,
    t0: u64,
    times: Seq<u64>,
    window: u64,
)
    requires
        window <= DEBOUNCE_PRUNE_HORIZON_MS,
        m.dom().contains(path),
        m[path] == t0,
        forall|i: int| 0 <= i < times.len() ==> t0 <= #[trigger] times[i]
            && elapsed_since(t0, times[i]) < window,
    ensures
        trigger_count(m, path, times, window) == 0,
    decreases times.len(),
{
    if times.len() > 0 {
        let now = times[0];
        let p = spec_pruned(m, now, DEBOUNCE_PRUNE_HORIZON_MS as u64);
        assert(p.dom().contains(path));
        assert(!debounce_fires(m, path, now, window));
        let m1 = debounce_next(m, path, now, window);
        assert(m1 == p);
        lemma_no_trigger_within_window(m1, path, t0, times.drop_first(), window);
    }
}

/// Debounce coalescing: from a table in which the first event fires (the path
/// is unknown or its last trigger lies at least a window back), a burst of
/// events for one path that all fall within the window of the first fires
/// exactly one trigger.
pub proof fn lemma_debounce_coalescing(
    m: Map<Seq<char>, u64>,
    path: Seq<char>,
    times: Seq<u64>,
    window: u64,
)
    requires
        window <= DEBOUNCE_PRUNE_HORIZON_MS,
        times.len() >= 1,
        debounce_fires(m, path, times[0], window),
        forall|i: int| 1 <= i < times.len() ==> times[0] <= #[trigger] times[i]
            && elapsed_since(times[0], times[i]) < window,
    ensures
        trigger_count(m, path, times, window) == 1,
{
    let m1 = debounce_next(m, path, times[0], window);
    assert(m1[path] == times[0]);
    lemma_no_trigger_within_window(m1, path, times[0], times.drop_first(), window);
}

/// Once the window has elapsed since the recorded trigger, a fresh event for
/// the same path fires again.
pub proof fn lemma_debounce_refires(m: Map<Seq<char>, u64>, path: Seq<char>, now: u64, window:
    u64)
    requires
        m.dom().contains(path) ==> elapsed_since(m[path], now) >= window,
    ensures
        debounce_fires(m, path, now, window),
{
}

} // verus!
