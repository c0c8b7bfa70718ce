//! Dry-run unified diffs: what a sync would write, compared with the current
//! on-disk content. No files are written.

use vstd::prelude::*;

use crate::strutil::{spec_starts_with, starts_with};
use crate::sync::spec_normalize;

verus! {

/// A single rendered file diff.
pub struct FileDiff {
    pub path: String,
    pub unified_diff: String,
}

/// Diff result for a codebase.
pub struct DiffCodebaseResult {
    pub codebase_name: String,
    pub diffs: Vec<FileDiff>,
}

/// The unified diff of two texts under the given headers, with three lines
/// of context. A function of its arguments alone.
pub uninterp spec fn unified_diff_of(
    old_text: Seq<char>,
    new_text: Seq<char>,
    old_header: Seq<char>,
    new_header: Seq<char>,
) -> Seq<char>;

/// Relies on similar's TextDiff: renders the unified diff of the two texts
/// with three context lines and the given headers; the output depends on the
/// arguments alone.
#[verifier::external_body]
fn unified_diff(existing: &str, rendered: &str, old_header: &str, new_header: &str) -> (r:
    String)
    ensures
        r@ == unified_diff_of(existing@, rendered@, old_header@, new_header@),
{
    similar::TextDiff::from_lines(existing, rendered)
        .unified_diff()
        .header(old_header, new_header)
        .context_radius(3)
        .to_string()
}

/// A path relative to the codebase root: the part after `<root>/`, or the
/// path itself when it does not lie under the root.
pub open spec fn spec_relative(path: Seq<char>, root: Seq<char>) -> Seq<char> {
    if spec_starts_with(path, root + "/"@) {
        path.skip(root.len() + "/"@.len() as int)
    } else {
        path
    }
}

/// Strip the codebase root from a path for diff headers.
fn relative_to(path: &str, root: &str) -> (r: String)
    ensures
        r@ == spec_relative(path@, root@),
{
    let mut prefix = root.to_owned();
    prefix.append("/");
    if starts_with(path, prefix.as_str()) {
        let v = crate::strutil::chars_of(path);
        let plen = prefix.as_str().unicode_len();
        let rest = crate::strutil::chars_range(&v, plen, v.len());
        proof {
            assert(rest@ =~= path@.skip(root@.len() + "/"@.len() as int));
        }
        crate::strutil::string_of_chars(&rest)
    } else {
        path.to_owned()
    }
}

/// The diff entries for a list of rendered outputs against the matching
/// on-disk contents: one entry per file whose normalised rendered content
/// differs from the normalised existing content.
pub open spec fn spec_diffs(
    outputs: Seq<(String, String)>,
    existing: Seq<String>,
    root: Seq<char>,
) -> Seq<(Seq<char>, Seq<char>)>
    decreases outputs.len(),
{
    if outputs.len() == 0 || outputs.len() != existing.len() {
        Seq::<(Seq<char>, Seq<char>)>::empty()
    } else {
        let rest = spec_diffs(outputs.drop_last(), existing.drop_last(), root);
        let path = outputs.last().0@;
        let rendered = spec_normalize(outputs.last().1@);
        let current = spec_normalize(existing.last()@);
        if current == rendered {
            rest
        } else {
            let rel = spec_relative(path, root);
            rest.push(
                (path, unified_diff_of(current, rendered, "a/"@ + rel, "b/"@ + rel)),
            )
        }
    }
}

/// Compute the unified diffs a sync of this codebase would produce:
/// `outputs` holds the rendered files, `existing` the current on-disk
/// content of each (empty where the file is missing), in the same order.
pub fn diff_outputs(
    codebase_name: &str,
    codebase_path: &str,
    outputs: &Vec<(String, String)>,
    existing: &Vec<String>,
) -> (r: DiffCodebaseResult)
    requires
        outputs@.len() == existing@.len(),
    ensures
        r.codebase_name@ == codebase_name@,
        r.diffs@.map_values(|d: FileDiff| (d.path@, d.unified_diff@)) == spec_diffs(
            outputs@,
            existing@,
            codebase_path@,
        ),
{
    let mut diffs: Vec<FileDiff> = Vec::new();
    let mut i: usize = 0;
    while i < outputs.len()
        invariant
            outputs@.len() == existing@.len(),
            i <= outputs@.len(),
            diffs@.map_values(|d: FileDiff| (d.path@, d.unified_diff@)) == spec_diffs(
                outputs@.take(i as int),
                existing@.take(i as int),
                codebase_path@,
            ),
        decreases outputs@.len() - i,
    {
        proof {
            assert(outputs@.take(i + 1).drop_last() =~= outputs@.take(i as int));
            assert(existing@.take(i + 1).drop_last() =~= existing@.take(i as int));
            assert(outputs@.take(i + 1).last() == outputs@[i as int]);
            assert(existing@.take(i + 1).last() == existing@[i as int]);
        }
        let rendered = crate::sync::normalize_line_endings(outputs[i].1.as_str());
        let current = crate::sync::normalize_line_endings(existing[i].as_str());
        if !crate::strutil::str_eq(current.as_str(), rendered.as_str()) {
            let rel = relative_to(outputs[i].0.as_str(), codebase_path);
            let mut old_header = "a/".to_owned();
            old_header.append(rel.as_str());
            let mut new_header = "b/".to_owned();
            new_header.append(rel.as_str());
            let unified = unified_diff(
                current.as_str(),
                rendered.as_str(),
                old_header.as_str(),
                new_header.as_str(),
            );
            let ghost prev = diffs@;
            diffs.push(FileDiff { path: outputs[i].0.clone(), unified_diff: unified });
            proof {
                assert(diffs@.map_values(|d: FileDiff| (d.path@, d.unified_diff@))
                    =~= prev.map_values(|d: FileDiff| (d.path@, d.unified_diff@)).push(
                    (outputs@[i as int].0@, diffs@.last().unified_diff@),
                ));
            }
        }
        proof {
            assert(diffs@.map_values(|d: FileDiff| (d.path@, d.unified_diff@)) =~= spec_diffs(
                outputs@.take(i + 1),
                existing@.take(i + 1),
                codebase_path@,
            ));
        }
        i = i + 1;
    }
    proof {
        assert(outputs@.take(outputs@.len() as int) =~= outputs@);
        assert(existing@.take(existing@.len() as int) =~= existing@);
    }
    DiffCodebaseResult { codebase_name: codebase_name.to_owned(), diffs }
}

} // verus!
