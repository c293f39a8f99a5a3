//! Detection of the client directive: the quoted marker that opts a source
//! file into client-component treatment.

use crate::text::{
    before_stops, chars_of, has_prefix, lines, lines_of, slice, starts_with_str, string_of,
    string_views, take_before_stops, trim, trimmed, views,
};
use rustc_hash::{FxHashSet, FxHasher};
use std::hash::BuildHasherDefault;
use vstd::prelude::*;

verus! {

#[verifier::external_type_specification]
#[verifier::external_body]
pub struct ExFxHasher(FxHasher);

#[verifier::external_type_specification]
#[verifier::external_body]
#[verifier::reject_recursive_types(H)]
pub struct ExBuildHasherDefault<H>(BuildHasherDefault<H>);

/// Configuration of the directive detector.
#[derive(Clone, Debug, Default)]
pub struct ClientDirectiveConfig {
    /// The marker text the directive quotes.
    pub directive: String,
}

impl ClientDirectiveConfig {
    /// The configuration with the framework's marker, `client load`.
    pub fn new() -> (r: Self)
        ensures
            r.directive@ == "client load"@,
    {
        ClientDirectiveConfig { directive: String::from_str("client load") }
    }
}

/// What the detector found in one source file.
#[derive(Clone, Debug)]
pub struct ClientDirectiveResult {
    /// The file opens with the directive.
    pub is_client: bool,
    /// 1-based line of the directive, 0 when there is none.
    pub directive_line: usize,
    /// Exported names, filled only by [`analyze_file`].
    pub exports: Vec<String>,
}

impl Default for ClientDirectiveResult {
    fn default() -> (r: Self)
        ensures
            !r.is_client,
            r.directive_line == 0,
            r.exports@.len() == 0,
    {
        ClientDirectiveResult { is_client: false, directive_line: 0, exports: Vec::new() }
    }
}

/// The line opens with the marker in single or double quotes.
pub open spec fn opens_with_directive(line: Seq<char>) -> bool {
    has_prefix(line, "'client load'"@) || has_prefix(line, "\"client load\""@)
}

/// A trimmed line that the detector passes over: blank, or a line comment.
pub open spec fn is_insignificant(line: Seq<char>) -> bool {
    line.len() == 0 || has_prefix(line, "//"@)
}

/// The first significant line at or after `i`.
pub open spec fn first_significant_from(ls: Seq<Seq<char>>, i: int) -> Option<int>
    decreases ls.len() - i,
{
    if i < 0 || i >= ls.len() {
        None
    } else if !is_insignificant(trimmed(ls[i])) {
        Some(i)
    } else {
        first_significant_from(ls, i + 1)
    }
}

/// The first line at or after `i` that opens with the directive.
pub open spec fn first_directive_from(ls: Seq<Seq<char>>, i: int) -> Option<int>
    decreases ls.len() - i,
{
    if i < 0 || i >= ls.len() {
        None
    } else if opens_with_directive(trimmed(ls[i])) {
        Some(i)
    } else {
        first_directive_from(ls, i + 1)
    }
}

/// The source is a client component: its first significant line opens
/// with the directive.
pub open spec fn is_client_source(s: Seq<char>) -> bool {
    match first_significant_from(lines_of(s), 0) {
        Some(k) => opens_with_directive(trimmed(lines_of(s)[k])),
        None => false,
    }
}

/// The 1-based line of the directive of a client source, 0 for others.
pub open spec fn directive_line_of(s: Seq<char>) -> int {
    if is_client_source(s) {
        match first_directive_from(lines_of(s), 0) {
            Some(k) => k + 1,
            None => 1,
        }
    } else {
        0
    }
}

/// Whether the source's first significant (non-blank, non-comment) line
/// opens with the quoted directive.
pub fn has_client_directive(source: &str) -> (r: bool)
    ensures
        r == is_client_source(source@),
{
    let chars = chars_of(source);
    let ls = lines(&chars);
    let ghost lv = views(ls@);
    let mut i: usize = 0;
    while i < ls.len()
        invariant
            lv == views(ls@),
            lv == lines_of(source@),
            i <= ls@.len(),
            first_significant_from(lv, 0) == first_significant_from(lv, i as int),
        decreases ls@.len() - i,
    {
        let t = trim(&ls[i]);
        assert(lv[i as int] == ls@[i as int]@);
        if t.len() == 0 || starts_with_str(&t, "//") {
            i = i + 1;
        } else {
            return starts_with_str(&t, "'client load'") || starts_with_str(&t, "\"client load\"");
        }
    }
    false
}

/// Directive detection with the line it stands on.
pub fn detect_client_directive_fast(source: &str) -> (r: ClientDirectiveResult)
    ensures
        r.is_client == is_client_source(source@),
        r.directive_line == directive_line_of(source@),
        r.exports@.len() == 0,
{
    let is_client = has_client_directive(source);
    if !is_client {
        return ClientDirectiveResult { is_client: false, directive_line: 0, exports: Vec::new() };
    }
    let chars = chars_of(source);
    let ls = lines(&chars);
    let ghost lv = views(ls@);
    let mut i: usize = 0;
    while i < ls.len()
        invariant
            lv == views(ls@),
            lv == lines_of(source@),
            i <= ls@.len(),
            is_client_source(source@),
            first_directive_from(lv, 0) == first_directive_from(lv, i as int),
        decreases ls@.len() - i,
    {
        let t = trim(&ls[i]);
        assert(lv[i as int] == ls@[i as int]@);
        if starts_with_str(&t, "'client load'") || starts_with_str(&t, "\"client load\"") {
            return ClientDirectiveResult { is_client: true, directive_line: i + 1, exports: Vec::new() };
        }
        i = i + 1;
    }
    ClientDirectiveResult { is_client: true, directive_line: 1, exports: Vec::new() }
}

/// A directive decides only from the first significant line: when line
/// `k` is the first that is neither blank nor a comment, the source is a
/// client component exactly when that line opens with the directive (and
/// then the directive is reported on line `k + 1`); a marker further down
/// never counts.
pub proof fn directive_on_first_significant_line(s: Seq<char>, k: int)
    requires
        0 <= k < lines_of(s).len(),
        !is_insignificant(trimmed(lines_of(s)[k])),
        forall|j: int| 0 <= j < k ==> is_insignificant(#[trigger] trimmed(lines_of(s)[j])),
    ensures
        is_client_source(s) == opens_with_directive(trimmed(lines_of(s)[k])),
        is_client_source(s) ==> directive_line_of(s) == k + 1,
{
    let ls = lines_of(s);
    lemma_first_significant(ls, 0, k);
    if is_client_source(s) {
        reveal_strlit("//");
        reveal_strlit("'client load'");
        reveal_strlit("\"client load\"");
        assert forall|j: int| 0 <= j < k implies !opens_with_directive(
            #[trigger] trimmed(ls[j]),
        ) by {
            let t = trimmed(ls[j]);
            assert(is_insignificant(t));
            if t.len() > 0 {
                assert(t[0] == "//"@[0]);
                assert(has_prefix(t, "'client load'"@) ==> t[0] == "'client load'"@[0]);
                assert(has_prefix(t, "\"client load\""@) ==> t[0] == "\"client load\""@[0]);
            }
        }
        lemma_first_directive(ls, 0, k);
    }
}

proof fn lemma_first_directive(ls: Seq<Seq<char>>, i: int, k: int)
    requires
        0 <= i <= k < ls.len(),
        opens_with_directive(trimmed(ls[k])),
        forall|j: int| 0 <= j < k ==> !opens_with_directive(#[trigger] trimmed(ls[j])),
    ensures
        first_directive_from(ls, i) == Some(k),
    decreases k - i,
{
    if i < k {
        assert(!opens_with_directive(trimmed(ls[i])));
        lemma_first_directive(ls, i + 1, k);
    }
}

proof fn lemma_first_significant(ls: Seq<Seq<char>>, i: int, k: int)
    requires
        0 <= i <= k < ls.len(),
        !is_insignificant(trimmed(ls[k])),
        forall|j: int| 0 <= j < k ==> is_insignificant(#[trigger] trimmed(ls[j])),
    ensures
        first_significant_from(ls, i) == Some(k),
    decreases k - i,
{
    if i < k {
        assert(is_insignificant(trimmed(ls[i])));
        lemma_first_significant(ls, i + 1, k);
    }
}

// ---------------------------------------------------------------------------
// Exported names

/// The names that a set of names holds.
pub uninterp spec fn name_set(s: FxHashSet<String>) -> Set<Seq<char>>;

/// Relies on `FxHashSet::default` (std's `HashSet::default`): a new set is
/// empty.
#[verifier::external_body]
fn new_name_set() -> (r: FxHashSet<String>)
    ensures
        name_set(r) == Set::<Seq<char>>::empty(),
{
    FxHashSet::default()
}

/// Relies on `HashSet::insert`: afterwards the set holds `name` besides
/// what it held.
#[verifier::external_body]
fn insert_name(set: &mut FxHashSet<String>, name: String)
    ensures
        name_set(*final(set)) == name_set(*old(set)).insert(name@),
{
    set.insert(name);
}

/// Relies on `HashSet::into_iter`: every element comes out once, in an
/// order the set chooses.
#[verifier::external_body]
fn names_into_vec(set: FxHashSet<String>) -> (r: Vec<String>)
    ensures
        string_views(r@).to_set() == name_set(set),
        string_views(r@).no_duplicates(),
{
    set.into_iter().collect()
}

/// Characters that end a function name after its keyword.
pub open spec fn fn_name_stops() -> Seq<char> {
    seq!['(', ' ', '<']
}

/// Characters that end a constant name after its keyword.
pub open spec fn const_name_stops() -> Seq<char> {
    seq!['=', ':', ' ']
}

/// `n` when it is not empty.
pub open spec fn nonempty(n: Seq<char>) -> Option<Seq<char>> {
    if n.len() > 0 {
        Some(n)
    } else {
        None
    }
}

/// The name that a trimmed line declares as an export, if any: after
/// `export default function `, `export function ` or `export const `.
pub open spec fn declared_name(t: Seq<char>) -> Option<Seq<char>> {
    if has_prefix(t, "export default function "@) {
        nonempty(before_stops(t.skip("export default function "@.len() as int), fn_name_stops()))
    } else if has_prefix(t, "export function "@) {
        nonempty(before_stops(t.skip("export function "@.len() as int), fn_name_stops()))
    } else if has_prefix(t, "export const "@) {
        nonempty(before_stops(t.skip("export const "@.len() as int), const_name_stops()))
    } else {
        None
    }
}

/// The names declared by the first `n` lines.
pub open spec fn declared_names_upto(ls: Seq<Seq<char>>, n: int) -> Set<Seq<char>>
    decreases n,
{
    if n <= 0 {
        Set::empty()
    } else {
        let prev = declared_names_upto(ls, n - 1);
        match declared_name(trimmed(ls[n - 1])) {
            Some(x) => prev.insert(x),
            None => prev,
        }
    }
}

/// The names that the lines of `s` declare as exports.
pub open spec fn declared_names(s: Seq<char>) -> Set<Seq<char>> {
    declared_names_upto(lines_of(s), lines_of(s).len() as int)
}

/// The text after the literal prefix `lit` of `t`, up to the first of
/// `stops`.
fn name_after(t: &Vec<char>, lit: &str, stops: &Vec<char>) -> (r: Vec<char>)
    requires
        has_prefix(t@, lit@),
    ensures
        r@ == before_stops(t@.skip(lit@.len() as int), stops@),
{
    let p = chars_of(lit);
    let rest = slice(t, p.len(), t.len());
    assert(rest@ =~= t@.skip(lit@.len() as int));
    take_before_stops(&rest, stops)
}

/// Finds the name that a trimmed line declares as an export.
fn line_declared_name(t: &Vec<char>) -> (r: Option<Vec<char>>)
    ensures
        r matches Some(n) ==> declared_name(t@) == Some(n@),
        r is None ==> declared_name(t@) is None,
{
    let fn_stops = vec!['(', ' ', '<'];
    let const_stops = vec!['=', ':', ' '];
    assert(fn_stops@ =~= fn_name_stops());
    assert(const_stops@ =~= const_name_stops());
    let name = if starts_with_str(t, "export default function ") {
        name_after(t, "export default function ", &fn_stops)
    } else if starts_with_str(t, "export function ") {
        name_after(t, "export function ", &fn_stops)
    } else if starts_with_str(t, "export const ") {
        name_after(t, "export const ", &const_stops)
    } else {
        return None;
    };
    if name.len() > 0 {
        Some(name)
    } else {
        None
    }
}

/// Directive detection together with the names that the file's lines
/// declare as exports, each once.
pub fn analyze_file(source: &str) -> (r: ClientDirectiveResult)
    ensures
        r.is_client == is_client_source(source@),
        r.directive_line == directive_line_of(source@),
        string_views(r.exports@).to_set() == declared_names(source@),
        string_views(r.exports@).no_duplicates(),
{
    let mut result = detect_client_directive_fast(source);
    let mut names = new_name_set();
    let chars = chars_of(source);
    let ls = lines(&chars);
    let ghost lv = views(ls@);
    let mut i: usize = 0;
    while i < ls.len()
        invariant
            lv == views(ls@),
            lv == lines_of(source@),
            i <= ls@.len(),
            name_set(names) == declared_names_upto(lv, i as int),
        decreases ls@.len() - i,
    {
        let t = trim(&ls[i]);
        assert(lv[i as int] == ls@[i as int]@);
        match line_declared_name(&t) {
            Some(n) => {
                let name = string_of(&n);
                insert_name(&mut names, name);
            },
            None => {},
        }
        i = i + 1;
    }
    result.exports = names_into_vec(names);
    result
}

} // verus!
