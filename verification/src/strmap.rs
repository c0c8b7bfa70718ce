//! A small string-keyed map backed by an association vector with distinct
//! keys, viewed as a `Map<Seq<char>, V>`. The shared cache structures of the
//! daemon (sync timestamps, hash stores) are built on it.

use vstd::prelude::*;

verus! {

/// No two entries share a key.
pub open spec fn keys_distinct<V>(s: Seq<(String, V)>) -> bool {
    forall|i: int, j: int| 0 <= i < j < s.len() ==> s[i].0@ != s[j].0@
}

/// Some entry has key `k`.
pub open spec fn has_key<V>(s: Seq<(String, V)>, k: Seq<char>) -> bool {
    exists|i: int| 0 <= i < s.len() && #[trigger] s[i].0@ == k
}

/// The entries as a map from key to the value's view.
pub open spec fn entries_map<V: View>(s: Seq<(String, V)>) -> Map<Seq<char>, V::V> {
    Map::new(
        |k: Seq<char>| has_key(s, k),
        |k: Seq<char>| s[choose|i: int| 0 <= i < s.len() && #[trigger] s[i].0@ == k].1@,
    )
}

/// With distinct keys, the entry at index `i` gives the map's value for its key.
pub proof fn lemma_map_value<V: View>(s: Seq<(String, V)>, i: int)
    requires
        keys_distinct(s),
        0 <= i < s.len(),
    ensures
        entries_map(s).dom().contains(s[i].0@),
        entries_map(s)[s[i].0@] == s[i].1@,
{
    assert(has_key(s, s[i].0@));
    let w = choose|j: int| 0 <= j < s.len() && #[trigger] s[j].0@ == s[i].0@;
    assert(w == i);
}

/// A map from strings to values of type `V`.
pub struct StrMap<V: View> {
    entries: Vec<(String, V)>,
}

impl<V: View> View for StrMap<V> {
    type V = Map<Seq<char>, V::V>;

    closed spec fn view(&self) -> Map<Seq<char>, V::V> {
        entries_map(self.entries@)
    }
}

impl<V: View> StrMap<V> {
    /// The representation holds no duplicate keys.
    pub closed spec fn wf(&self) -> bool {
        keys_distinct(self.entries@)
    }

    /// An empty map.
    pub fn new() -> (r: StrMap<V>)
        ensures
            r.wf(),
            r@ == Map::<Seq<char>, V::V>::empty(),
    {
        let r = StrMap { entries: Vec::new() };
        proof {
            assert(r@ =~= Map::<Seq<char>, V::V>::empty());
        }
        r
    }

    /// Whether the map holds no entry.
    pub fn is_empty(&self) -> (r: bool)
        requires
            self.wf(),
        ensures
            r == (self@ == Map::<Seq<char>, V::V>::empty()),
    {
        if self.entries.len() == 0 {
            proof {
                assert(self@ =~= Map::<Seq<char>, V::V>::empty());
            }
            true
        } else {
            proof {
                lemma_map_value(self.entries@, 0);
                assert(self@.dom().contains(self.entries@[0].0@));
                assert(!Map::<Seq<char>, V::V>::empty().dom().contains(self.entries@[0].0@));
            }
            false
        }
    }

    /// Look up the index of `key` in the representation.
    fn find_index(&self, key: &str) -> (r: Option<usize>)
        ensures
            match r {
                Some(i) => i < self.entries@.len() && self.entries@[i as int].0@ == key@,
                None => !has_key(self.entries@, key@),
            },
    {
        let mut i: usize = 0;
        while i < self.entries.len()
            invariant
                i <= self.entries@.len(),
                forall|t: int| 0 <= t < i ==> #[trigger] self.entries@[t].0@ != key@,
            decreases self.entries@.len() - i,
        {
            if crate::strutil::str_eq(self.entries[i].0.as_str(), key) {
                return Some(i);
            }
            i = i + 1;
        }
        None
    }

    /// The value for `key`, if present.
    pub fn get(&self, key: &str) -> (r: Option<&V>)
        requires
            self.wf(),
        ensures
            match r {
                Some(v) => self@.dom().contains(key@) && v@ == self@[key@],
                None => !self@.dom().contains(key@),
            },
    {
        match self.find_index(key) {
            Some(i) => {
                proof {
                    lemma_map_value(self.entries@, i as int);
                }
                Some(&self.entries[i].1)
            },
            None => None,
        }
    }

    /// Set `key` to `v`, replacing any earlier value.
    pub fn insert(&mut self, key: &str, v: V)
        requires
            old(self).wf(),
        ensures
            final(self).wf(),
            final(self)@ == old(self)@.insert(key@, v@),
    {
        let ghost before = self.entries@;
        let ghost m0 = self@;
        match self.find_index(key) {
            Some(i) => {
                let key_owned = key.to_owned();
                self.entries[i] = (key_owned, v);
                proof {
                    let s = self.entries@;
                    assert forall|a: int, b: int| 0 <= a < b < s.len() implies s[a].0@
                        != s[b].0@ by {
                        assert(before[a].0@ != before[b].0@);
                    }
                    assert forall|k: Seq<char>|
                        entries_map(s).dom().contains(k) <==> m0.insert(key@, v@).dom().contains(
                        k) by {
                        if has_key(s, k) {
                            let j = choose|j: int| 0 <= j < s.len() && #[trigger] s[j].0@ == k;
                            if j != i {
                                assert(before[j].0@ == k);
                            }
                        }
                        if k == key@ {
                            assert(s[i as int].0@ == k);
                            assert(has_key(s, k));
                        } else if m0.dom().contains(k) {
                            let j = choose|j: int| 0 <= j < before.len()
                                && #[trigger] before[j].0@ == k;
                            assert(before[i as int].0@ == key@);
                            assert(j != i);
                            assert(s[j].0@ == k);
                            assert(has_key(s, k));
                        }
                    }
                    assert forall|k: Seq<char>| entries_map(s).dom().contains(k)
                        implies entries_map(s)[k] == m0.insert(key@, v@)[k] by {
                        let j = choose|j: int| 0 <= j < s.len() && #[trigger] s[j].0@ == k;
                        lemma_map_value(s, j);
                        if j == i {
                            assert(k == key@);
                        } else {
                            assert(before[i as int].0@ == key@);
                            lemma_map_value(before, j);
                        }
                    }
                    assert(entries_map(s) =~= m0.insert(key@, v@));
                }
            },
            None => {
                let key_owned = key.to_owned();
                self.entries.push((key_owned, v));
                proof {
                    let s = self.entries@;
                    assert forall|a: int, b: int| 0 <= a < b < s.len() implies s[a].0@
                        != s[b].0@ by {
                        if b < before.len() {
                            assert(before[a].0@ != before[b].0@);
                        } else {
                            assert(s[b].0@ == key@);
                            assert(before[a].0@ != key@);
                        }
                    }
                    assert forall|k: Seq<char>|
                        entries_map(s).dom().contains(k) <==> m0.insert(key@, v@).dom().contains(
                        k) by {
                        if has_key(s, k) {
                            let j = choose|j: int| 0 <= j < s.len() && #[trigger] s[j].0@ == k;
                            if j < before.len() {
                                assert(before[j].0@ == k);
                            }
                        }
                        if k == key@ {
                            assert(s[s.len() - 1].0@ == k);
                            assert(has_key(s, k));
                        } else if m0.dom().contains(k) {
                            let j = choose|j: int| 0 <= j < before.len()
                                && #[trigger] before[j].0@ == k;
                            assert(s[j].0@ == k);
                            assert(has_key(s, k));
                        }
                    }
                    assert forall|k: Seq<char>| entries_map(s).dom().contains(k)
                        implies entries_map(s)[k] == m0.insert(key@, v@)[k] by {
                        let j = choose|j: int| 0 <= j < s.len() && #[trigger] s[j].0@ == k;
                        lemma_map_value(s, j);
                        if j < before.len() {
                            lemma_map_value(before, j);
                            assert(k != key@);
                        } else {
                            assert(k == key@);
                        }
                    }
                    assert(entries_map(s) =~= m0.insert(key@, v@));
                }
            },
        }
    }
}

impl StrMap<String> {
    /// The entries as owned pairs, for callers that persist the map: one
    /// pair per key, no key repeated.
    pub fn to_pairs(&self) -> (r: Vec<(String, String)>)
        requires
            self.wf(),
        ensures
            forall|i: int| 0 <= i < r@.len() ==> self@.dom().contains(#[trigger] r@[i].0@)
                && self@[r@[i].0@] == r@[i].1@,
            forall|k: Seq<char>| self@.dom().contains(k) ==> exists|i: int| 0 <= i < r@.len()
                && #[trigger] r@[i].0@ == k,
            forall|i: int, j: int| 0 <= i < j < r@.len() ==> r@[i].0@ != r@[j].0@,
    {
        let mut out: Vec<(String, String)> = Vec::new();
        let mut i: usize = 0;
        while i < self.entries.len()
            invariant
                self.wf(),
                i <= self.entries@.len(),
                out@.len() == i,
                forall|t: int| 0 <= t < i ==> self@.dom().contains(#[trigger] out@[t].0@)
                    && self@[out@[t].0@] == out@[t].1@,
                forall|t: int| 0 <= t < i ==> #[trigger] out@[t].0@ == self.entries@[t].0@,
            decreases self.entries@.len() - i,
        {
            proof {
                lemma_map_value(self.entries@, i as int);
            }
            let key = self.entries[i].0.clone();
            let value = self.entries[i].1.clone();
            out.push((key, value));
            i = i + 1;
        }
        proof {
            assert forall|k: Seq<char>| self@.dom().contains(k) implies exists|i: int|
                0 <= i < out@.len() && #[trigger] out@[i].0@ == k by {
                let j = choose|j: int| 0 <= j < self.entries@.len()
                    && #[trigger] self.entries@[j].0@ == k;
                assert(out@[j].0@ == k);
            }
        }
        out
    }
}

impl StrMap<u64> {
    /// The greatest value in the map, or 0 when it is empty.
    pub fn max_value(&self) -> (r: u64)
        requires
            self.wf(),
        ensures
            forall|k: Seq<char>| self@.dom().contains(k) ==> self@[k] <= r,
            r == 0 || exists|k: Seq<char>| self@.dom().contains(k) && self@[k] == r,
    {
        let mut best: u64 = 0;
        let mut i: usize = 0;
        while i < self.entries.len()
            invariant
                self.wf(),
                i <= self.entries@.len(),
                forall|t: int| 0 <= t < i ==> #[trigger] self.entries@[t].1 <= best,
                best == 0 || exists|t: int| 0 <= t < i && #[trigger] self.entries@[t].1 == best,
            decreases self.entries@.len() - i,
        {
            if self.entries[i].1 > best {
                best = self.entries[i].1;
            }
            i = i + 1;
        }
        proof {
            assert forall|k: Seq<char>| self@.dom().contains(k) implies self@[k] <= best by {
                let j = choose|j: int| 0 <= j < self.entries@.len()
                    && #[trigger] self.entries@[j].0@ == k;
                lemma_map_value(self.entries@, j);
            }
            if best != 0 {
                let t = choose|t: int| 0 <= t < self.entries@.len()
                    && #[trigger] self.entries@[t].1 == best;
                lemma_map_value(self.entries@, t);
                assert(self@.dom().contains(self.entries@[t].0@) && self@[self.entries@[t].0@]
                    == best);
            }
        }
        best
    }
}

} // verus!
