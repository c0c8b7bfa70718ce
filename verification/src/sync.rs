//! Hash-gated writes: rendered content is normalised to LF line endings and
//! hashed; a file whose stored digest matches is skipped, everything else is
//! written (or merely reported, in dry-run mode) and its digest recorded.
//!
//! The caller performs the actual file write (to a sibling temporary file,
//! then an atomic rename) whenever a `Written` outcome comes back.

use vstd::prelude::*;

use sha2::Digest;

use crate::strmap::StrMap;

verus! {

/// Scope for a sync pipeline run.
pub enum SyncScope {
    /// Sync every registered codebase.
    All,
    /// Sync a single named codebase.
    Codebase(String),
}

/// Outcome of an individual file write.
#[derive(Debug)]
pub enum WriteResult {
    /// File must be written (content changed or did not previously exist).
    Written { path: String },
    /// File was skipped — rendered content matches the stored hash.
    Unchanged { path: String },
    /// Dry-run mode: the file *would* have been written.
    WouldWrite { path: String },
}

/// The outcome of a write, without its path.
pub enum WriteKind {
    Written,
    Unchanged,
    WouldWrite,
}

impl WriteResult {
    /// The outcome without its path.
    pub open spec fn kind(&self) -> WriteKind {
        match self {
            WriteResult::Written { .. } => WriteKind::Written,
            WriteResult::Unchanged { .. } => WriteKind::Unchanged,
            WriteResult::WouldWrite { .. } => WriteKind::WouldWrite,
        }
    }

    /// The path the outcome speaks of.
    pub open spec fn path_view(&self) -> Seq<char> {
        match self {
            WriteResult::Written { path } => path@,
            WriteResult::Unchanged { path } => path@,
            WriteResult::WouldWrite { path } => path@,
        }
    }
}

/// Outcome of syncing a single codebase.
pub struct SyncCodebaseResult {
    pub codebase_name: String,
    pub writes: Vec<WriteResult>,
}

/// The hash store of one codebase: managed file path to the hex digest of
/// its last synced content.
pub type HashStore = StrMap<String>;

/// `content` with every CRLF replaced by LF.
pub open spec fn spec_normalize(s: Seq<char>) -> Seq<char>
    decreases s.len(),
{
    if s.len() == 0 {
        s
    } else if s.len() >= 2 && s[0] == '\r' && s[1] == '\n' {
        seq!['\n'] + spec_normalize(s.skip(2))
    } else {
        seq![s[0]] + spec_normalize(s.skip(1))
    }
}

/// Normalise line endings to LF.
pub fn normalize_line_endings(content: &str) -> (r: String)
    ensures
        r@ == spec_normalize(content@),
{
    let v = crate::strutil::chars_of(content);
    let n = v.len();
    let mut out: Vec<char> = Vec::new();
    let mut i: usize = 0;
    proof {
        assert(v@.skip(0) =~= v@);
        assert(Seq::<char>::empty() + spec_normalize(v@) =~= spec_normalize(v@));
    }
    while i < n
        invariant
            v@ == content@,
            n == v@.len(),
            i <= n,
            spec_normalize(v@) == out@ + spec_normalize(v@.skip(i as int)),
        decreases n - i,
    {
        if v[i] == '\r' && i + 1 < n && v[i + 1] == '\n' {
            let ghost rest = v@.skip(i as int);
            proof {
                assert(rest[0] == '\r' && rest[1] == '\n');
                assert(rest.skip(2) =~= v@.skip(i + 2));
                assert(spec_normalize(rest) == seq!['\n'] + spec_normalize(v@.skip(i + 2)));
            }
            out.push('\n');
            proof {
                assert(out@ + spec_normalize(v@.skip(i + 2)) =~= (out@.drop_last() + seq!['\n'])
                    + spec_normalize(v@.skip(i + 2)));
                assert((out@.drop_last() + seq!['\n']) + spec_normalize(v@.skip(i + 2))
                    =~= out@.drop_last() + (seq!['\n'] + spec_normalize(v@.skip(i + 2))));
            }
            i = i + 2;
        } else {
            let ghost rest = v@.skip(i as int);
            proof {
                assert(rest[0] == v@[i as int]);
                assert(rest.skip(1) =~= v@.skip(i + 1));
                assert(!(rest.len() >= 2 && rest[0] == '\r' && rest[1] == '\n'));
                assert(spec_normalize(rest) == seq![rest[0]] + spec_normalize(v@.skip(i + 1)));
            }
            out.push(v[i]);
            proof {
                assert(out@ + spec_normalize(v@.skip(i + 1)) =~= (out@.drop_last() + seq![
                    v@[i as int],
                ]) + spec_normalize(v@.skip(i + 1)));
                assert((out@.drop_last() + seq![v@[i as int]]) + spec_normalize(v@.skip(i + 1))
                    =~= out@.drop_last() + (seq![v@[i as int]] + spec_normalize(v@.skip(i + 1))));
            }
            i = i + 1;
        }
    }
    proof {
        assert(v@.skip(n as int) =~= Seq::<char>::empty());
        assert(spec_normalize(Seq::<char>::empty()) =~= Seq::<char>::empty());
        assert(out@ =~= spec_normalize(content@));
    }
    crate::strutil::string_of_chars(&out)
}

/// The lowercase hex SHA-256 digest of a string's UTF-8 bytes. The digest is
/// a function of the characters alone.
pub uninterp spec fn sha256_hex_of(s: Seq<char>) -> Seq<char>;

/// Relies on sha2's SHA-256 and hex::encode: the digest depends on the input
/// alone, and the hex encoding of the 32-byte digest is 64 characters.
#[verifier::external_body]
fn sha256_hex(s: &str) -> (r: String)
    ensures
        r@ == sha256_hex_of(s@),
        r@.len() == 64,
{
    let mut hasher = sha2::Sha256::new();
    hasher.update(s.as_bytes());
    hex::encode(hasher.finalize())
}

/// The digest a write is gated on: hash of the normalised content.
pub open spec fn spec_content_digest(content: Seq<char>) -> Seq<char> {
    sha256_hex_of(spec_normalize(content))
}

/// The write outcome for one file, given the digest stored for its path.
pub open spec fn spec_write_decision(
    store: Map<Seq<char>, Seq<char>>,
    path: Seq<char>,
    content: Seq<char>,
    dry_run: bool,
) -> WriteKind {
    if store.dom().contains(path) && store[path] == spec_content_digest(content) {
        WriteKind::Unchanged
    } else if dry_run {
        WriteKind::WouldWrite
    } else {
        WriteKind::Written
    }
}

/// Decide the hash-gated outcome for one rendered file and record its digest
/// in the store when it must be written. Content is normalised to LF before
/// hashing, so CRLF and LF forms of the same text share a digest.
///
/// On a `Written` outcome the caller writes the normalised content to a
/// sibling temporary file and atomically renames it over `path`.
pub fn atomic_write(path: &str, content: &str, store: &mut HashStore, dry_run: bool) -> (r:
    WriteResult)
    requires
        old(store).wf(),
    ensures
        final(store).wf(),
        r.path_view() == path@,
        r.kind() == spec_write_decision(old(store)@, path@, content@, dry_run),
        r.kind() is Written ==> final(store)@ == old(store)@.insert(
            path@,
            spec_content_digest(content@),
        ),
        !(r.kind() is Written) ==> final(store)@ == old(store)@,
{
    let normalized = normalize_line_endings(content);
    let digest = sha256_hex(normalized.as_str());
    let unchanged = match store.get(path) {
        Option::Some(stored) => crate::strutil::str_eq(stored.as_str(), digest.as_str()),
        Option::None => false,
    };
    if unchanged {
        return WriteResult::Unchanged { path: path.to_owned() };
    }
    if dry_run {
        return WriteResult::WouldWrite { path: path.to_owned() };
    }
    store.insert(path, digest);
    WriteResult::Written { path: path.to_owned() }
}

/// Sync one codebase's rendered outputs against its hash store: decide every
/// write in order, recording new digests as they happen.
pub fn sync_codebase_writes(
    codebase_name: &str,
    outputs: &Vec<(String, String)>,
    store: &mut HashStore,
    dry_run: bool,
) -> (r: SyncCodebaseResult)
    requires
        old(store).wf(),
    ensures
        final(store).wf(),
        r.codebase_name@ == codebase_name@,
        r.writes@.len() == outputs@.len(),
        forall|i: int| 0 <= i < outputs@.len() ==> #[trigger] r.writes@[i].path_view()
            == outputs@[i].0@,
        forall|i: int| 0 <= i < outputs@.len() ==> #[trigger] r.writes@[i].kind()
            == spec_write_decision_at(outputs@, old(store)@, dry_run, i),
        final(store)@ == spec_store_at(outputs@, old(store)@, dry_run, outputs@.len() as int),
{
    let mut writes: Vec<WriteResult> = Vec::new();
    let mut i: usize = 0;
    while i < outputs.len()
        invariant
            store.wf(),
            i <= outputs@.len(),
            writes@.len() == i,
            forall|t: int| 0 <= t < i ==> #[trigger] writes@[t].path_view() == outputs@[t].0@,
            forall|t: int| 0 <= t < i ==> #[trigger] writes@[t].kind() == spec_write_decision_at(
                outputs@,
                old(store)@,
                dry_run,
                t,
            ),
            store@ == spec_store_at(outputs@, old(store)@, dry_run, i as int),
        decreases outputs@.len() - i,
    {
        let path = outputs[i].0.clone();
        let content = outputs[i].1.clone();
        let w = atomic_write(path.as_str(), content.as_str(), store, dry_run);
        writes.push(w);
        i = i + 1;
    }
    SyncCodebaseResult { codebase_name: codebase_name.to_owned(), writes }
}

/// The store after the first `i` outputs have been processed.
pub open spec fn spec_store_at(
    outputs: Seq<(String, String)>,
    store0: Map<Seq<char>, Seq<char>>,
    dry_run: bool,
    i: int,
) -> Map<Seq<char>, Seq<char>>
    decreases i,
{
    if i <= 0 {
        store0
    } else {
        let prev = spec_store_at(outputs, store0, dry_run, i - 1);
        let d = spec_write_decision(prev, outputs[i - 1].0@, outputs[i - 1].1@, dry_run);
        if d is Written {
            prev.insert(outputs[i - 1].0@, spec_content_digest(outputs[i - 1].1@))
        } else {
            prev
        }
    }
}

/// The decision for output `i`, given the store as it stands after the
/// outputs before it.
pub open spec fn spec_write_decision_at(
    outputs: Seq<(String, String)>,
    store0: Map<Seq<char>, Seq<char>>,
    dry_run: bool,
    i: int,
) -> WriteKind {
    spec_write_decision(
        spec_store_at(outputs, store0, dry_run, i),
        outputs[i].0@,
        outputs[i].1@,
        dry_run,
    )
}

} // verus!
