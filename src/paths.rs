//! File names and route-tree paths.
//!
//! Paths handed to the library are relative to the route root and use `/`
//! between directories (the scanner normalises `\` first). File names are
//! single path components as a directory listing gives them.

use crate::text::{
    chars_of, ends_with_str, eq_str, has_prefix, has_suffix, owned, slice, starts_with_str,
};
use vstd::prelude::*;

verus! {

/// The position of the last `.` in `name`.
pub open spec fn last_dot(name: Seq<char>) -> Option<int>
    decreases name.len(),
{
    if name.len() == 0 {
        None
    } else if name.last() == '.' {
        Some(name.len() - 1)
    } else {
        last_dot(name.drop_last())
    }
}

pub proof fn lemma_last_dot(name: Seq<char>)
    ensures
        last_dot(name) matches Some(k) ==> 0 <= k < name.len() && name[k] == '.',
    decreases name.len(),
{
    if name.len() > 0 && name.last() != '.' {
        lemma_last_dot(name.drop_last());
    }
}

/// The file name without its extension, as `Path::file_stem` gives it: the
/// whole name when it holds no `.` but a leading one.
pub open spec fn file_stem(name: Seq<char>) -> Seq<char> {
    match last_dot(name) {
        Some(k) => if k > 0 {
            name.take(k)
        } else {
            name
        },
        None => name,
    }
}

/// The extension of a file name, as `Path::extension` gives it.
pub open spec fn file_extension(name: Seq<char>) -> Option<Seq<char>> {
    match last_dot(name) {
        Some(k) => if k > 0 {
            Some(name.skip(k + 1))
        } else {
            None
        },
        None => None,
    }
}

fn find_last_dot(name: &Vec<char>) -> (r: Option<usize>)
    ensures
        r matches Some(k) ==> last_dot(name@) == Some(k as int),
        r is None ==> last_dot(name@) is None,
        r matches Some(k) ==> k < name@.len(),
{
    proof {
        lemma_last_dot(name@);
    }
    let mut i: usize = name.len();
    assert(name@.take(i as int) =~= name@);
    while i > 0
        invariant
            i <= name@.len(),
            last_dot(name@) == last_dot(name@.take(i as int)),
        decreases i,
    {
        assert(name@.take(i as int).drop_last() =~= name@.take(i - 1));
        if name[i - 1] == '.' {
            return Some(i - 1);
        }
        i = i - 1;
    }
    None
}

/// The file name without its extension.
pub fn stem_of(name: &Vec<char>) -> (r: Vec<char>)
    ensures
        r@ == file_stem(name@),
{
    proof {
        lemma_last_dot(name@);
    }
    match find_last_dot(name) {
        Some(k) => if k > 0 {
            slice(name, 0, k)
        } else {
            slice(name, 0, name.len())
        },
        None => slice(name, 0, name.len()),
    }
}

/// The extension of a file name.
pub fn extension_of(name: &Vec<char>) -> (r: Option<Vec<char>>)
    ensures
        r matches Some(e) ==> file_extension(name@) == Some(e@),
        r is None ==> file_extension(name@) is None,
{
    proof {
        lemma_last_dot(name@);
    }
    match find_last_dot(name) {
        Some(k) => if k > 0 {
            let n = name.len();
            Some(slice(name, k + 1, n))
        } else {
            None
        },
        None => None,
    }
}

/// One of the four script extensions the framework reads.
pub open spec fn is_script_extension(e: Seq<char>) -> bool {
    e == "ts"@ || e == "tsx"@ || e == "js"@ || e == "jsx"@
}

/// The file's extension is one of the four script extensions.
pub open spec fn has_script_extension(name: Seq<char>) -> bool {
    match file_extension(name) {
        Some(e) => is_script_extension(e),
        None => false,
    }
}

/// Whether the scanner reads a file of this name.
pub fn is_source_file(file_name: &str) -> (r: bool)
    ensures
        r == has_script_extension(file_name@),
{
    let name = chars_of(file_name);
    match extension_of(&name) {
        Some(e) => eq_str(&e, "ts") || eq_str(&e, "tsx") || eq_str(&e, "js") || eq_str(&e, "jsx"),
        None => false,
    }
}

/// The name ends in one of the four script suffixes.
pub open spec fn has_script_suffix(name: Seq<char>) -> bool {
    has_suffix(name, ".tsx"@) || has_suffix(name, ".ts"@) || has_suffix(name, ".jsx"@)
        || has_suffix(name, ".js"@)
}

/// Whether the route-tree builder looks at a file of this name.
pub fn ends_with_script_suffix(name: &Vec<char>) -> (r: bool)
    ensures
        r == has_script_suffix(name@),
{
    ends_with_str(name, ".tsx") || ends_with_str(name, ".ts") || ends_with_str(name, ".jsx")
        || ends_with_str(name, ".js")
}

/// A directory that walks skip: hidden ones and installed dependencies.
pub open spec fn is_skipped_dir(name: Seq<char>) -> bool {
    has_prefix(name, "."@) || name == "node_modules"@
}

/// Whether a walk of the route tree descends into a directory of this name.
pub fn should_descend(dir_name: &str) -> (r: bool)
    ensures
        r == !is_skipped_dir(dir_name@),
{
    let name = chars_of(dir_name);
    !(starts_with_str(&name, ".") || eq_str(&name, "node_modules"))
}

/// The directory part of a relative path: what stands before its last `/`,
/// empty for a path at the root.
pub open spec fn dir_of(p: Seq<char>) -> Seq<char>
    decreases p.len(),
{
    if p.len() == 0 {
        p
    } else if p.last() == '/' {
        p.drop_last()
    } else {
        dir_of(p.drop_last())
    }
}

pub proof fn lemma_dir_of_shorter(p: Seq<char>)
    ensures
        p.len() > 0 ==> dir_of(p).len() < p.len(),
        p.len() == 0 ==> dir_of(p).len() == 0,
    decreases p.len(),
{
    if p.len() > 0 && p.last() != '/' {
        lemma_dir_of_shorter(p.drop_last());
    }
}

/// The directory part of a relative path.
pub fn dir_part(p: &Vec<char>) -> (r: Vec<char>)
    ensures
        r@ == dir_of(p@),
{
    let mut i: usize = p.len();
    assert(p@.take(i as int) =~= p@);
    while i > 0
        invariant
            i <= p@.len(),
            dir_of(p@) == dir_of(p@.take(i as int)),
        decreases i,
    {
        assert(p@.take(i as int).drop_last() =~= p@.take(i - 1));
        if p[i - 1] == '/' {
            return slice(p, 0, i - 1);
        }
        i = i - 1;
    }
    assert(p@.take(0) =~= Seq::<char>::empty());
    Vec::new()
}

// ---------------------------------------------------------------------------
// Route segments

/// How a directory segment takes part in a route.
#[derive(Clone, Copy, Debug, PartialEq, Eq, Structural)]
pub enum SegmentKind {
    /// Copied literally into the URL.
    Static,
    /// `[name]`: one URL parameter.
    Dynamic,
    /// `[...name]`: the rest of the URL.
    CatchAll,
    /// `(name)`: organises files without a URL part.
    Group,
}

/// `(name)`.
pub open spec fn is_group_segment(s: Seq<char>) -> bool {
    s.len() >= 1 && s[0] == '(' && s.last() == ')'
}

/// `[name]` or `[...name]`.
pub open spec fn is_bracketed(s: Seq<char>) -> bool {
    s.len() >= 1 && s[0] == '[' && s.last() == ']'
}

/// Opens with `[...`.
pub open spec fn opens_catch_all(s: Seq<char>) -> bool {
    s.len() >= 4 && s[0] == '[' && s[1] == '.' && s[2] == '.' && s[3] == '.'
}

/// The label and kind of a directory segment: a group has an empty label,
/// a parameter its name without brackets and dots, a static segment
/// itself.
pub open spec fn classify(s: Seq<char>) -> (Seq<char>, SegmentKind) {
    if is_group_segment(s) {
        (Seq::empty(), SegmentKind::Group)
    } else if is_bracketed(s) {
        if opens_catch_all(s) {
            (s.subrange(4, s.len() - 1), SegmentKind::CatchAll)
        } else {
            (s.subrange(1, s.len() - 1), SegmentKind::Dynamic)
        }
    } else {
        (s, SegmentKind::Static)
    }
}

/// Classifies a directory segment into its route label and kind.
pub fn classify_segment(s: &Vec<char>) -> (r: (Vec<char>, SegmentKind))
    ensures
        r.0@ == classify(s@).0,
        r.1 == classify(s@).1,
{
    let n = s.len();
    if n >= 1 && s[0] == '(' && s[n - 1] == ')' {
        (Vec::new(), SegmentKind::Group)
    } else if n >= 1 && s[0] == '[' && s[n - 1] == ']' {
        if n >= 4 && s[1] == '.' && s[2] == '.' && s[3] == '.' {
            (slice(s, 4, n - 1), SegmentKind::CatchAll)
        } else {
            (slice(s, 1, n - 1), SegmentKind::Dynamic)
        }
    } else {
        (slice(s, 0, n), SegmentKind::Static)
    }
}

/// The name of a route kind as manifests and route trees spell it.
pub open spec fn kind_name(k: SegmentKind) -> Seq<char> {
    match k {
        SegmentKind::Static => "static"@,
        SegmentKind::Dynamic => "dynamic"@,
        SegmentKind::CatchAll => "catch-all"@,
        SegmentKind::Group => "group"@,
    }
}

/// Spells a route kind.
pub fn kind_label(k: SegmentKind) -> (r: String)
    ensures
        r@ == kind_name(k),
{
    match k {
        SegmentKind::Static => owned("static"),
        SegmentKind::Dynamic => owned("dynamic"),
        SegmentKind::CatchAll => owned("catch-all"),
        SegmentKind::Group => owned("group"),
    }
}

} // verus!
