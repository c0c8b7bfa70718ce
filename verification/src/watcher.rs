//! The watcher's decisions: which filesystem events matter, which changed
//! paths are registry files, what sync target a change maps to, and which
//! directories are already registered with the OS watch mechanism.
//!
//! Paths are plain strings; a path's file name is what follows its last `/`,
//! its extension what follows the last `.` of the file name (none when the
//! file name has no `.` past its first character), and its stem the rest.

use vstd::prelude::*;

use crate::runtime::SyncTarget;
use crate::strutil::{
    after_last, chars_of, chars_range, find_after_last, lemma_after_last_bounds, lower_ascii,
    spec_lower_ascii, spec_starts_with, starts_with, str_eq, string_of_chars,
};

verus! {

/// A filesystem event's kind, as the OS watch mechanism reports it.
#[derive(Debug)]
pub enum WatchEventKind {
    Create,
    Modify,
    Remove,
    Access,
    Other,
}

/// Only create and modify events can make a registry file's content change
/// in a way a sync must pick up.
pub fn is_relevant_event_kind(kind: &WatchEventKind) -> (r: bool)
    ensures
        r == (kind is Create || kind is Modify),
{
    match kind {
        WatchEventKind::Create => true,
        WatchEventKind::Modify => true,
        WatchEventKind::Remove => false,
        WatchEventKind::Access => false,
        WatchEventKind::Other => false,
    }
}

/// The segment of `p` after its last `/` (all of `p` when it has none).
pub open spec fn spec_file_name(p: Seq<char>) -> Seq<char> {
    p.subrange(after_last(p, '/'), p.len() as int)
}

/// The extension of `p`'s file name: what follows the last `.`, provided
/// that `.` is not the file name's first character.
pub open spec fn spec_extension(p: Seq<char>) -> Option<Seq<char>> {
    let name = spec_file_name(p);
    let d = after_last(name, '.');
    if d >= 2 {
        Some(name.subrange(d, name.len() as int))
    } else {
        None
    }
}

/// The stem of `p`'s file name: the file name up to the `.` that starts its
/// extension, or the whole file name when it has no extension.
pub open spec fn spec_file_stem(p: Seq<char>) -> Seq<char> {
    let name = spec_file_name(p);
    let d = after_last(name, '.');
    if d >= 2 {
        name.subrange(0, d - 1)
    } else {
        name
    }
}

/// The file name of `path`.
pub fn file_name_of(path: &str) -> (r: String)
    ensures
        r@ == spec_file_name(path@),
{
    let v = chars_of(path);
    proof {
        lemma_after_last_bounds(v@, '/');
    }
    let cut = find_after_last(&v, '/');
    let name = chars_range(&v, cut, v.len());
    string_of_chars(&name)
}

/// The extension of `path`'s file name, if any.
pub fn extension_of(path: &str) -> (r: Option<String>)
    ensures
        match r {
            Some(e) => spec_extension(path@) matches Some(x) && e@ == x,
            None => spec_extension(path@) is None,
        },
{
    let v = chars_of(path);
    proof {
        lemma_after_last_bounds(v@, '/');
    }
    let cut = find_after_last(&v, '/');
    let name = chars_range(&v, cut, v.len());
    proof {
        lemma_after_last_bounds(name@, '.');
    }
    let d = find_after_last(&name, '.');
    if d >= 2 {
        let ext = chars_range(&name, d, name.len());
        Some(string_of_chars(&ext))
    } else {
        None
    }
}

/// The stem of `path`'s file name.
pub fn file_stem_of(path: &str) -> (r: String)
    ensures
        r@ == spec_file_stem(path@),
{
    let v = chars_of(path);
    proof {
        lemma_after_last_bounds(v@, '/');
    }
    let cut = find_after_last(&v, '/');
    let name = chars_range(&v, cut, v.len());
    proof {
        lemma_after_last_bounds(name@, '.');
    }
    let d = find_after_last(&name, '.');
    if d >= 2 {
        let stem = chars_range(&name, 0, d - 1);
        string_of_chars(&stem)
    } else {
        string_of_chars(&name)
    }
}

/// A change at `path` concerns the registry exactly when the path lies under
/// the projects root and carries a `yaml` extension in any letter case.
pub open spec fn spec_is_registry_yaml(path: Seq<char>, projects: Seq<char>) -> bool {
    spec_starts_with(path, projects) && (spec_extension(path) matches Some(e)
        && spec_lower_ascii(e) == "yaml"@)
}

/// Is this changed path a registry file under the projects root?
pub fn is_registry_yaml(path: &str, projects: &str) -> (r: bool)
    ensures
        r == spec_is_registry_yaml(path@, projects@),
{
    if !starts_with(path, projects) {
        return false;
    }
    match extension_of(path) {
        Option::Some(ext) => {
            let lowered = lower_ascii(ext.as_str());
            str_eq(lowered.as_str(), "yaml")
        },
        Option::None => false,
    }
}

/// The sync target a registry file change maps to: a change of the
/// project-index file escalates to a full sync; any other file syncs the one
/// codebase its stem names. A path without a file name also escalates.
pub fn sync_target_for_path(path: &str) -> (r: SyncTarget)
    ensures
        spec_file_name(path@) == "project.yaml"@ ==> r is All,
        spec_file_name(path@) != "project.yaml"@ && spec_file_name(path@).len() == 0 ==> r is All,
        (spec_file_name(path@) != "project.yaml"@ && spec_file_name(path@).len() > 0) ==> (
        r matches SyncTarget::Codebase(n) && n@ == spec_file_stem(path@)),
{
    let name = file_name_of(path);
    if str_eq(name.as_str(), "project.yaml") {
        return SyncTarget::All;
    }
    if name.as_str().unicode_len() == 0 {
        return SyncTarget::All;
    }
    SyncTarget::Codebase(file_stem_of(path))
}

/// The directory whose watch registration a change at `path` calls for: the
/// path itself when it is a directory, else the part before its last `/`
/// (none when it has no `/`).
pub fn directory_to_watch(path: &str, is_dir: bool) -> (r: Option<String>)
    ensures
        is_dir ==> (r matches Some(d) && d@ == path@),
        !is_dir && after_last(path@, '/') == 0 ==> r is None,
        !is_dir && after_last(path@, '/') > 0 ==> (r matches Some(d) && d@ == path@.subrange(
            0,
            after_last(path@, '/') - 1,
        )),
{
    if is_dir {
        return Some(path.to_owned());
    }
    let v = chars_of(path);
    proof {
        lemma_after_last_bounds(v@, '/');
    }
    let cut = find_after_last(&v, '/');
    if cut == 0 {
        return None;
    }
    let parent = chars_range(&v, 0, cut - 1);
    Some(string_of_chars(&parent))
}

/// The directories already registered with the OS watch mechanism. The set
/// grows as new project subdirectories appear and never shrinks.
pub struct WatchedDirs {
    dirs: Vec<String>,
}

impl View for WatchedDirs {
    type V = Set<Seq<char>>;

    closed spec fn view(&self) -> Set<Seq<char>> {
        Set::new(|k: Seq<char>| exists|i: int| 0 <= i < self.dirs@.len() && #[trigger] self.dirs@[i]@ == k)
    }
}

impl WatchedDirs {
    /// An empty set: nothing watched yet.
    pub fn new() -> (r: WatchedDirs)
        ensures
            r@ == Set::<Seq<char>>::empty(),
    {
        let r = WatchedDirs { dirs: Vec::new() };
        proof {
            assert(r@ =~= Set::<Seq<char>>::empty());
        }
        r
    }

    /// Register a directory. Returns true exactly when it was not yet
    /// watched — only then may the caller register it with the OS.
    pub fn register(&mut self, dir: &str) -> (r: bool)
        ensures
            r == !old(self)@.contains(dir@),
            final(self)@ == old(self)@.insert(dir@),
    {
        let mut i: usize = 0;
        while i < self.dirs.len()
            invariant
                i <= self.dirs@.len(),
                forall|t: int| 0 <= t < i ==> #[trigger] self.dirs@[t]@ != dir@,
            decreases self.dirs@.len() - i,
        {
            if str_eq(self.dirs[i].as_str(), dir) {
                proof {
                    assert(old(self)@.contains(dir@));
                    assert(self@ =~= old(self)@.insert(dir@));
                }
                return false;
            }
            i = i + 1;
        }
        proof {
            assert(!old(self)@.contains(dir@));
        }
        let ghost before = self.dirs@;
        self.dirs.push(dir.to_owned());
        proof {
            assert forall|k: Seq<char>| self@.contains(k) <==> old(self)@.insert(
                dir@,
            ).contains(k) by {
                if k == dir@ {
                    assert(self.dirs@[self.dirs@.len() - 1]@ == k);
                } else {
                    if exists|i: int| 0 <= i < self.dirs@.len() && #[trigger] self.dirs@[i]@
                        == k {
                        let i = choose|i: int| 0 <= i < self.dirs@.len()
                            && #[trigger] self.dirs@[i]@ == k;
                        assert(before[i]@ == k);
                    }
                    if exists|i: int| 0 <= i < before.len() && #[trigger] before[i]@ == k {
                        let i = choose|i: int| 0 <= i < before.len() && #[trigger] before[i]@
                            == k;
                        assert(self.dirs@[i]@ == k);
                    }
                }
            }
            assert(self@ =~= old(self)@.insert(dir@));
        }
        true
    }
}

} // verus!
