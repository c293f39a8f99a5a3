//! The manifest builder: module identifiers, code-split chunk names, URL
//! patterns, layout chains, and the client and server manifests.

use crate::paths::{
    classify, classify_segment, dir_of, dir_part, kind_label, kind_name, SegmentKind,
};
use crate::scanner::{
    component_type_name, file_views, forward_slashes, normalize_separators, scan_app_directory,
    scan_of, ComponentView, FileView, ScanView, ScannedComponent, SourceFile,
};
use crate::text::{
    alphanumeric, ascii_lower, chars_eq, chars_of, clone_strings, ends_with_str, eq_str, has_suffix,
    is_alphanumeric, lex_lt, opt_view, owned, push_chars, push_str, slice, split_on, split_pieces,
    string_of, string_views, to_ascii_lower, views,
};
use crate::order::{insert_ranked, lemma_sort_ranked, ranked_before, sort_ranked, Ranked};
use crate::table::{put_entry, put_keyed, table_views, Keyed};
use vstd::prelude::*;

verus! {

// ---------------------------------------------------------------------------
// Names

/// `s` without its script extension: the first of `.tsx`, `.ts`, `.jsx`
/// and `.js` that it ends with, removed once.
pub open spec fn strip_extension(s: Seq<char>) -> Seq<char> {
    if has_suffix(s, ".tsx"@) {
        s.take(s.len() - ".tsx"@.len())
    } else if has_suffix(s, ".ts"@) {
        s.take(s.len() - ".ts"@.len())
    } else if has_suffix(s, ".jsx"@) {
        s.take(s.len() - ".jsx"@.len())
    } else if has_suffix(s, ".js"@) {
        s.take(s.len() - ".js"@.len())
    } else {
        s
    }
}

/// A relative path with `\` turned into `/` and its script extension
/// removed.
pub open spec fn without_script_extension(p: Seq<char>) -> Seq<char> {
    strip_extension(forward_slashes(p))
}

fn drop_suffix(s: &Vec<char>, lit: &str) -> (r: Vec<char>)
    requires
        has_suffix(s@, lit@),
    ensures
        r@ == s@.take(s@.len() - lit@.len()),
{
    let suf = chars_of(lit);
    let n = s.len();
    slice(s, 0, n - suf.len())
}

fn strip_script_extension(p: &Vec<char>) -> (r: Vec<char>)
    ensures
        r@ == without_script_extension(p@),
{
    let n = normalize_separators(p);
    if ends_with_str(&n, ".tsx") {
        drop_suffix(&n, ".tsx")
    } else if ends_with_str(&n, ".ts") {
        drop_suffix(&n, ".ts")
    } else if ends_with_str(&n, ".jsx") {
        drop_suffix(&n, ".jsx")
    } else if ends_with_str(&n, ".js") {
        drop_suffix(&n, ".js")
    } else {
        n
    }
}

/// A chunk-name character: alphanumerics lower-cased (ASCII letters
/// only), anything else `_`.
pub open spec fn chunk_char(c: char) -> char {
    if alphanumeric(c) {
        ascii_lower(c)
    } else {
        '_'
    }
}

/// The code-split chunk name of a relative path.
pub open spec fn chunk_name_of(p: Seq<char>) -> Seq<char> {
    without_script_extension(p).map_values(|c: char| chunk_char(c))
}

fn chunk_name_chars(p: &Vec<char>) -> (r: Vec<char>)
    ensures
        r@ == chunk_name_of(p@),
{
    let base = strip_script_extension(p);
    let mut r: Vec<char> = Vec::new();
    let mut i: usize = 0;
    while i < base.len()
        invariant
            i <= base@.len(),
            r@ == base@.take(i as int).map_values(|c: char| chunk_char(c)),
        decreases base@.len() - i,
    {
        let c = base[i];
        let d = if is_alphanumeric(c) {
            to_ascii_lower(c)
        } else {
            '_'
        };
        r.push(d);
        assert(base@.take(i + 1).map_values(|c: char| chunk_char(c)) =~= base@.take(
            i as int,
        ).map_values(|c: char| chunk_char(c)).push(d));
        i = i + 1;
    }
    assert(base@.take(base@.len() as int) =~= base@);
    r
}

/// The chunk name of a relative path: the path without its script
/// extension, each alphanumeric character lower-cased and every other
/// character turned into `_`.
pub fn generate_chunk_name(relative_path: &str) -> (r: String)
    ensures
        r@ == chunk_name_of(relative_path@),
{
    let p = chars_of(relative_path);
    let c = chunk_name_chars(&p);
    string_of(&c)
}

/// The module identifier of a relative path: `client:` or `server:`, then
/// the path without its script extension.
pub open spec fn module_id_of(p: Seq<char>, is_client: bool) -> Seq<char> {
    (if is_client {
        "client:"@
    } else {
        "server:"@
    }) + without_script_extension(p)
}

/// The module identifier of a relative path.
pub fn generate_module_id(relative_path: &str, is_client: bool) -> (r: String)
    ensures
        r@ == module_id_of(relative_path@, is_client),
{
    let p = chars_of(relative_path);
    let base = strip_script_extension(&p);
    let mut r = if is_client {
        owned("client:")
    } else {
        owned("server:")
    };
    push_chars(&mut r, &base);
    r
}

/// A relative path written with `/` alone that ends in the script
/// extension `e`.
pub open spec fn is_script_path(p: Seq<char>, e: Seq<char>) -> bool {
    &&& !p.contains('\\')
    &&& e == ".tsx"@ || e == ".ts"@ || e == ".jsx"@ || e == ".js"@
    &&& has_suffix(p, e)
}

proof fn lemma_strip_own_extension(p: Seq<char>, e: Seq<char>)
    requires
        is_script_path(p, e),
    ensures
        without_script_extension(p) == p.take(p.len() - e.len()),
        p == p.take(p.len() - e.len()) + e,
{
    reveal_strlit(".tsx");
    reveal_strlit(".ts");
    reveal_strlit(".jsx");
    reveal_strlit(".js");
    assert forall|i: int| 0 <= i < p.len() implies p[i] != '\\' by {
        if p[i] == '\\' {
            assert(p.contains('\\'));
        }
    }
    assert(forward_slashes(p) =~= p);
    let n = p.len() as int;
    let tail = p.subrange(n - e.len(), n);
    assert(tail == e);
    if e == ".ts"@ {
        assert(tail[1] == 't' && tail[2] == 's');
        if has_suffix(p, ".tsx"@) {
            assert(p.subrange(n - 4, n)[3] == 'x');
        }
    } else if e == ".jsx"@ {
        assert(tail[1] == 'j');
        if has_suffix(p, ".tsx"@) {
            assert(p.subrange(n - 4, n)[2] == 't');
        }
        if has_suffix(p, ".ts"@) {
            assert(p.subrange(n - 3, n)[2] == 's');
        }
    } else if e == ".js"@ {
        assert(tail[1] == 'j' && tail[2] == 's');
        if has_suffix(p, ".tsx"@) {
            assert(p.subrange(n - 4, n)[3] == 'x');
        }
        if has_suffix(p, ".ts"@) {
            assert(p.subrange(n - 2, n)[0] == 't');
        }
        if has_suffix(p, ".jsx"@) {
            assert(p.subrange(n - 4, n)[3] == 'x');
        }
    }
    assert(p =~= p.take(n - e.len()) + e);
}

/// Module identifiers do not collide: two distinct paths with the same
/// script extension get distinct identifiers, whichever side each is on,
/// and one path gets distinct client and server identifiers.
pub proof fn module_ids_collision_free(
    p1: Seq<char>,
    p2: Seq<char>,
    e: Seq<char>,
    c1: bool,
    c2: bool,
)
    requires
        is_script_path(p1, e),
        is_script_path(p2, e),
        p1 != p2,
    ensures
        module_id_of(p1, c1) != module_id_of(p2, c2),
        module_id_of(p1, true) != module_id_of(p1, false),
{
    reveal_strlit("client:");
    reveal_strlit("server:");
    lemma_strip_own_extension(p1, e);
    lemma_strip_own_extension(p2, e);
    let b1 = without_script_extension(p1);
    let b2 = without_script_extension(p2);
    assert(module_id_of(p1, true)[0] != module_id_of(p1, false)[0]);
    if module_id_of(p1, c1) == module_id_of(p2, c2) {
        if c1 != c2 {
            assert(module_id_of(p1, c1)[0] != module_id_of(p2, c2)[0]);
        } else {
            assert(b1 =~= module_id_of(p1, c1).skip(7));
            assert(b2 =~= module_id_of(p2, c2).skip(7));
        }
    }
}

// ---------------------------------------------------------------------------
// URL patterns

/// The non-empty pieces of `ps`, in order.
pub open spec fn nonempty_pieces(ps: Seq<Seq<char>>) -> Seq<Seq<char>>
    decreases ps.len(),
{
    if ps.len() == 0 {
        Seq::empty()
    } else {
        let prev = nonempty_pieces(ps.drop_last());
        if ps.last().len() > 0 {
            prev.push(ps.last())
        } else {
            prev
        }
    }
}

/// The directory segments of a directory path, split at `/` and `\`.
pub open spec fn segments_of(d: Seq<char>) -> Seq<Seq<char>> {
    nonempty_pieces(split_pieces(d, seq!['/', '\\']))
}

/// The pattern so far after one more segment: a group adds nothing, a
/// catch-all `:name*`, a parameter `:name`, a static segment itself, each
/// followed by `/`. A catch-all decides the kind; a parameter makes a
/// static pattern dynamic.
pub open spec fn pattern_step(acc: (Seq<char>, SegmentKind), seg: Seq<char>) -> (
    Seq<char>,
    SegmentKind,
) {
    let (label, k) = classify(seg);
    match k {
        SegmentKind::Group => acc,
        SegmentKind::CatchAll => (acc.0 + seq![':'] + label + seq!['*', '/'], SegmentKind::CatchAll),
        SegmentKind::Dynamic => (
            acc.0 + seq![':'] + label + seq!['/'],
            if acc.1 == SegmentKind::CatchAll {
                SegmentKind::CatchAll
            } else {
                SegmentKind::Dynamic
            },
        ),
        SegmentKind::Static => (acc.0 + label + seq!['/'], acc.1),
    }
}

/// The pattern after the first `n` segments, starting from `/`.
pub open spec fn pattern_upto(segs: Seq<Seq<char>>, n: int) -> (Seq<char>, SegmentKind)
    decreases n,
{
    if n <= 0 {
        (seq!['/'], SegmentKind::Static)
    } else {
        pattern_step(pattern_upto(segs, n - 1), segs[n - 1])
    }
}

/// `p` without a trailing `/`, unless it is the root `/`.
pub open spec fn without_trailing_slash(p: Seq<char>) -> Seq<char> {
    if p.len() > 1 && p.last() == '/' {
        p.drop_last()
    } else {
        p
    }
}

/// The URL pattern and route kind of a page at relative path `p`, from
/// the segments of its directory.
pub open spec fn url_pattern_of(p: Seq<char>) -> (Seq<char>, SegmentKind) {
    let d = dir_of(p);
    if d.len() == 0 || d == seq!['.'] {
        (seq!['/'], SegmentKind::Static)
    } else {
        let segs = segments_of(d);
        let r = pattern_upto(segs, segs.len() as int);
        (without_trailing_slash(r.0), r.1)
    }
}

proof fn lemma_split_concat(a: Seq<char>, b: Seq<char>)
    ensures
        split_pieces(a + seq!['/'] + b, seq!['/', '\\']) == split_pieces(a, seq!['/', '\\'])
            + split_pieces(b, seq!['/', '\\']),
    decreases b.len(),
{
    let seps = seq!['/', '\\'];
    let x = a + seq!['/'] + b;
    assert(seps[0] == '/');
    crate::text::lemma_split_pieces_nonempty(b, seps);
    if b.len() == 0 {
        assert(x.drop_last() =~= a);
        assert(split_pieces(b, seps) =~= seq![Seq::<char>::empty()]);
    } else {
        let b1 = b.drop_last();
        lemma_split_concat(a, b1);
        crate::text::lemma_split_pieces_nonempty(b1, seps);
        assert(x.drop_last() =~= a + seq!['/'] + b1);
        assert(x.last() == b.last());
        let l = split_pieces(a, seps);
        let r = split_pieces(b1, seps);
        if !seps.contains(b.last()) {
            assert((l + r).update((l + r).len() - 1, (l + r).last().push(b.last())) =~= l + r.update(
                r.len() - 1,
                r.last().push(b.last()),
            ));
        } else {
            assert((l + r).push(Seq::<char>::empty()) =~= l + r.push(Seq::<char>::empty()));
        }
    }
}

proof fn lemma_split_plain(s: Seq<char>)
    requires
        forall|i: int| 0 <= i < s.len() ==> s[i] != '/' && s[i] != '\\',
    ensures
        split_pieces(s, seq!['/', '\\']) == seq![s],
    decreases s.len(),
{
    let seps = seq!['/', '\\'];
    if s.len() > 0 {
        lemma_split_plain(s.drop_last());
        let c = s.last();
        assert(c != '/' && c != '\\');
        assert(!seps.contains(c)) by {
            if seps.contains(c) {
                let i = choose|i: int| 0 <= i < seps.len() && seps[i] == c;
            }
        }
        assert(s.drop_last().push(c) =~= s);
    } else {
        assert(s =~= Seq::<char>::empty());
    }
}

proof fn lemma_nonempty_concat(a: Seq<Seq<char>>, b: Seq<Seq<char>>)
    ensures
        nonempty_pieces(a + b) == nonempty_pieces(a) + nonempty_pieces(b),
    decreases b.len(),
{
    if b.len() == 0 {
        assert(a + b =~= a);
        assert(nonempty_pieces(a) + nonempty_pieces(b) =~= nonempty_pieces(a));
    } else {
        lemma_nonempty_concat(a, b.drop_last());
        assert((a + b).drop_last() =~= a + b.drop_last());
        assert((a + b).last() == b.last());
        let l = nonempty_pieces(a);
        let r = nonempty_pieces(b.drop_last());
        assert((l + r).push(b.last()) =~= l + r.push(b.last()));
    }
}

proof fn lemma_dir_of_under(a: Seq<char>, b: Seq<char>)
    ensures
        dir_of(a + seq!['/'] + b) == a + seq!['/'] + dir_of(b) || (dir_of(a + seq!['/'] + b) == a
            && dir_of(b).len() == 0),
    decreases b.len(),
{
    let x = a + seq!['/'] + b;
    if b.len() == 0 {
        assert(x.drop_last() =~= a);
    } else {
        assert(x.last() == b.last());
        if b.last() == '/' {
            assert(x.drop_last() =~= a + seq!['/'] + b.drop_last());
        } else {
            assert(x.drop_last() =~= a + seq!['/'] + b.drop_last());
            lemma_dir_of_under(a, b.drop_last());
        }
    }
}

proof fn lemma_pattern_after_group(g: Seq<char>, segs: Seq<Seq<char>>, k: int)
    requires
        crate::paths::is_group_segment(g),
        0 <= k <= segs.len(),
    ensures
        pattern_upto(seq![g] + segs, k + 1) == pattern_upto(segs, k),
    decreases k,
{
    let x = seq![g] + segs;
    if k > 0 {
        lemma_pattern_after_group(g, segs, k - 1);
        assert(x[k] == segs[k - 1]);
    } else {
        assert(x[0] == g);
        assert(classify(g).1 == SegmentKind::Group);
        assert(pattern_upto(x, 0) == pattern_upto(segs, 0));
    }
}

/// Group segments vanish: putting a page under a group directory
/// `(name)` changes neither its URL pattern nor its route kind (for a
/// name without separators, and a page whose directory is not `.`).
pub proof fn group_segment_vanishes(name: Seq<char>, p: Seq<char>)
    requires
        forall|i: int| 0 <= i < name.len() ==> name[i] != '/' && name[i] != '\\',
        dir_of(p) != seq!['.'],
    ensures
        url_pattern_of(seq!['('] + name + seq![')'] + seq!['/'] + p) == url_pattern_of(p),
{
    let g = seq!['('] + name + seq![')'];
    let full = g + seq!['/'] + p;
    let seps = seq!['/', '\\'];
    let dp = dir_of(p);
    assert(crate::paths::is_group_segment(g));
    assert forall|i: int| 0 <= i < g.len() implies g[i] != '/' && g[i] != '\\' by {
        if 0 < i < g.len() - 1 {
            assert(g[i] == name[i - 1]);
        }
    }
    lemma_split_plain(g);
    assert(nonempty_pieces(seq![g]) =~= seq![g]) by {
        assert(g.len() >= 2);
        assert(seq![g].drop_last() =~= Seq::<Seq<char>>::empty());
        assert(nonempty_pieces(Seq::<Seq<char>>::empty()) =~= Seq::<Seq<char>>::empty());
        assert(seq![g].last() == g);
    }
    assert(segments_of(Seq::<char>::empty()) =~= Seq::<Seq<char>>::empty()) by {
        let e = Seq::<char>::empty();
        assert(split_pieces(e, seps) =~= seq![e]);
        assert(seq![e].drop_last() =~= Seq::<Seq<char>>::empty());
        assert(seq![e].last().len() == 0);
        assert(nonempty_pieces(Seq::<Seq<char>>::empty()) =~= Seq::<Seq<char>>::empty());
        assert(nonempty_pieces(seq![e]) =~= Seq::<Seq<char>>::empty());
    }
    lemma_dir_of_under(g, p);
    let d = dir_of(full);
    if d == g + seq!['/'] + dp {
        lemma_split_concat(g, dp);
        lemma_nonempty_concat(seq![g], split_pieces(dp, seps));
        assert(d[0] == '(');
    } else {
        assert(d == g);
        assert(dp =~= Seq::<char>::empty());
        assert(seq![g] + segments_of(dp) =~= seq![g]);
    }
    assert(segments_of(d) == seq![g] + segments_of(dp));
    assert(d.len() > 0 && d[0] == '(');
    lemma_pattern_after_group(g, segments_of(dp), segments_of(dp).len() as int);
    assert(url_pattern_of(full) == (
        without_trailing_slash(pattern_upto(segments_of(dp), segments_of(dp).len() as int).0),
        pattern_upto(segments_of(dp), segments_of(dp).len() as int).1,
    ));
    if dp.len() == 0 {
        assert(segments_of(dp) =~= Seq::<Seq<char>>::empty());
        assert(without_trailing_slash(seq!['/']) == seq!['/']);
    }
}

fn directory_segments(d: &Vec<char>) -> (r: Vec<Vec<char>>)
    ensures
        views(r@) == segments_of(d@),
{
    let seps = vec!['/', '\\'];
    assert(seps@ =~= seq!['/', '\\']);
    let pieces = split_on(d, &seps);
    let ghost pv = views(pieces@);
    let mut r: Vec<Vec<char>> = Vec::new();
    let mut i: usize = 0;
    assert(pv.take(0) =~= Seq::<Seq<char>>::empty());
    while i < pieces.len()
        invariant
            pv == views(pieces@),
            i <= pieces@.len(),
            views(r@) == nonempty_pieces(pv.take(i as int)),
        decreases pieces@.len() - i,
    {
        assert(pv.take(i + 1).drop_last() =~= pv.take(i as int));
        assert(pv.take(i + 1).last() == pieces@[i as int]@);
        if pieces[i].len() > 0 {
            let ghost before = r@;
            let piece = slice(&pieces[i], 0, pieces[i].len());
            assert(piece@ =~= pieces@[i as int]@);
            r.push(piece);
            assert(views(r@) =~= views(before).push(pieces@[i as int]@));
        }
        i = i + 1;
    }
    assert(pv.take(pieces@.len() as int) =~= pv);
    r
}

fn url_pattern_chars(p: &Vec<char>) -> (r: (Vec<char>, SegmentKind))
    ensures
        r.0@ == url_pattern_of(p@).0,
        r.1 == url_pattern_of(p@).1,
{
    let d = dir_part(p);
    if d.len() == 0 || (d.len() == 1 && d[0] == '.') {
        assert(d@.len() == 1 ==> d@ =~= seq!['.']);
        return (vec!['/'], SegmentKind::Static);
    }
    assert(d@ != seq!['.']);
    let segs = directory_segments(&d);
    let ghost sv = views(segs@);
    let mut pattern: Vec<char> = vec!['/'];
    let mut kind = SegmentKind::Static;
    let mut i: usize = 0;
    assert(pattern@ =~= seq!['/']);
    while i < segs.len()
        invariant
            sv == views(segs@),
            sv == segments_of(d@),
            i <= segs@.len(),
            (pattern@, kind) == pattern_upto(sv, i as int),
        decreases segs@.len() - i,
    {
        assert(sv[i as int] == segs@[i as int]@);
        let (label, k) = classify_segment(&segs[i]);
        let ghost before = pattern@;
        match k {
            SegmentKind::Group => {},
            SegmentKind::CatchAll => {
                pattern.push(':');
                crate::text::append_chars(&mut pattern, &label);
                pattern.push('*');
                pattern.push('/');
                kind = SegmentKind::CatchAll;
                assert(pattern@ =~= before + seq![':'] + label@ + seq!['*', '/']);
            },
            SegmentKind::Dynamic => {
                pattern.push(':');
                crate::text::append_chars(&mut pattern, &label);
                pattern.push('/');
                if kind != SegmentKind::CatchAll {
                    kind = SegmentKind::Dynamic;
                }
                assert(pattern@ =~= before + seq![':'] + label@ + seq!['/']);
            },
            SegmentKind::Static => {
                crate::text::append_chars(&mut pattern, &label);
                pattern.push('/');
                assert(pattern@ =~= before + label@ + seq!['/']);
            },
        }
        i = i + 1;
    }
    let n = pattern.len();
    if n > 1 && pattern[n - 1] == '/' {
        pattern.pop();
    }
    (pattern, kind)
}

/// The URL pattern of a page and its route kind (`static`, `dynamic` or
/// `catch-all`), from the directory segments of its relative path.
pub fn build_url_pattern(relative_path: &str) -> (r: (String, String))
    ensures
        r.0@ == url_pattern_of(relative_path@).0,
        r.1@ == kind_name(url_pattern_of(relative_path@).1),
{
    let p = chars_of(relative_path);
    let (pattern, kind) = url_pattern_chars(&p);
    (string_of(&pattern), kind_label(kind))
}

// ---------------------------------------------------------------------------
// Manifest records

/// Entry of the client manifest.
#[derive(Debug, Clone)]
pub struct ClientModuleEntry {
    /// Module identifier, `client:` and the path.
    pub id: String,
    /// Relative path below the route root.
    pub path: String,
    /// Absolute file path.
    pub absolute_path: String,
    /// Code-split chunk name.
    pub chunk_name: String,
    /// Exported names.
    pub exports: Vec<String>,
    /// Whether to load the chunk asynchronously.
    pub async_load: bool,
}

pub struct ClientEntryView {
    pub id: Seq<char>,
    pub path: Seq<char>,
    pub absolute_path: Seq<char>,
    pub chunk_name: Seq<char>,
    pub exports: Seq<Seq<char>>,
    pub async_load: bool,
}

impl View for ClientModuleEntry {
    type V = ClientEntryView;

    open spec fn view(&self) -> ClientEntryView {
        ClientEntryView {
            id: self.id@,
            path: self.path@,
            absolute_path: self.absolute_path@,
            chunk_name: self.chunk_name@,
            exports: string_views(self.exports@),
            async_load: self.async_load,
        }
    }
}

impl Keyed for ClientModuleEntry {
    open spec fn key_of(v: ClientEntryView) -> Seq<char> {
        v.id
    }

    fn key(&self) -> (r: &String) {
        &self.id
    }
}

/// The client manifest. Each table holds a key at most once; a later
/// record for a key replaces the earlier one in its place.
#[derive(Debug, Clone)]
pub struct ClientManifest {
    /// Build identifier, for cache invalidation.
    pub build_id: String,
    /// Client modules, keyed by their identifier.
    pub client_modules: Vec<ClientModuleEntry>,
    /// Relative and absolute file paths to module identifiers.
    pub path_to_id: Vec<(String, String)>,
    /// Absolute file paths to the URL of their chunk.
    pub ssr_module_mapping: Vec<(String, String)>,
}

pub struct ClientManifestView {
    pub build_id: Seq<char>,
    pub client_modules: Seq<ClientEntryView>,
    pub path_to_id: Seq<(Seq<char>, Seq<char>)>,
    pub ssr_module_mapping: Seq<(Seq<char>, Seq<char>)>,
}

impl View for ClientManifest {
    type V = ClientManifestView;

    open spec fn view(&self) -> ClientManifestView {
        ClientManifestView {
            build_id: self.build_id@,
            client_modules: table_views(self.client_modules@),
            path_to_id: table_views(self.path_to_id@),
            ssr_module_mapping: table_views(self.ssr_module_mapping@),
        }
    }
}

/// Entry of the server manifest.
#[derive(Debug, Clone)]
pub struct ServerModuleEntry {
    /// Module identifier, `server:` and the path.
    pub id: String,
    /// Relative path below the route root.
    pub path: String,
    /// Absolute file path.
    pub absolute_path: String,
    /// Lower-case name of the component's kind.
    pub component_type: String,
    /// It exports static metadata.
    pub has_metadata: bool,
    /// It exports a `generateMetadata` function.
    pub has_generate_metadata: bool,
    /// Client components it depends on; left empty, as no import graph is
    /// analysed.
    pub client_dependencies: Vec<String>,
}

pub struct ServerEntryView {
    pub id: Seq<char>,
    pub path: Seq<char>,
    pub absolute_path: Seq<char>,
    pub component_type: Seq<char>,
    pub has_metadata: bool,
    pub has_generate_metadata: bool,
    pub client_dependencies: Seq<Seq<char>>,
}

impl View for ServerModuleEntry {
    type V = ServerEntryView;

    open spec fn view(&self) -> ServerEntryView {
        ServerEntryView {
            id: self.id@,
            path: self.path@,
            absolute_path: self.absolute_path@,
            component_type: self.component_type@,
            has_metadata: self.has_metadata,
            has_generate_metadata: self.has_generate_metadata,
            client_dependencies: string_views(self.client_dependencies@),
        }
    }
}

impl Keyed for ServerModuleEntry {
    open spec fn key_of(v: ServerEntryView) -> Seq<char> {
        v.id
    }

    fn key(&self) -> (r: &String) {
        &self.id
    }
}

/// A route of the server manifest.
#[derive(Debug, Clone)]
pub struct RouteEntry {
    /// URL pattern, such as `/blog/:slug`.
    pub pattern: String,
    /// Absolute path of the page.
    pub page_path: String,
    /// Absolute paths of the enclosing layouts, root first.
    pub layout_paths: Vec<String>,
    /// Loading component; not searched for.
    pub loading_path: Option<String>,
    /// Error component; not searched for.
    pub error_path: Option<String>,
    /// `static`, `dynamic` or `catch-all`.
    pub route_type: String,
}

pub struct RouteView {
    pub pattern: Seq<char>,
    pub page_path: Seq<char>,
    pub layout_paths: Seq<Seq<char>>,
    pub loading_path: Option<Seq<char>>,
    pub error_path: Option<Seq<char>>,
    pub route_type: Seq<char>,
}

impl View for RouteEntry {
    type V = RouteView;

    open spec fn view(&self) -> RouteView {
        RouteView {
            pattern: self.pattern@,
            page_path: self.page_path@,
            layout_paths: string_views(self.layout_paths@),
            loading_path: opt_view(self.loading_path),
            error_path: opt_view(self.error_path),
            route_type: self.route_type@,
        }
    }
}

/// The server manifest. Its tables hold each key at most once, as in the
/// client manifest.
#[derive(Debug, Clone)]
pub struct ServerManifest {
    /// Build identifier.
    pub build_id: String,
    /// Server modules, keyed by their identifier.
    pub server_modules: Vec<ServerModuleEntry>,
    /// Relative and absolute file paths to module identifiers.
    pub path_to_id: Vec<(String, String)>,
    /// The routes, static before dynamic before catch-all, then by pattern.
    pub routes: Vec<RouteEntry>,
}

pub struct ServerManifestView {
    pub build_id: Seq<char>,
    pub server_modules: Seq<ServerEntryView>,
    pub path_to_id: Seq<(Seq<char>, Seq<char>)>,
    pub routes: Seq<RouteView>,
}

impl View for ServerManifest {
    type V = ServerManifestView;

    open spec fn view(&self) -> ServerManifestView {
        ServerManifestView {
            build_id: self.build_id@,
            server_modules: table_views(self.server_modules@),
            path_to_id: table_views(self.path_to_id@),
            routes: table_views(self.routes@),
        }
    }
}

// ---------------------------------------------------------------------------
// The client manifest

/// The manifest entry of a client component.
pub open spec fn client_entry_of(c: ComponentView) -> ClientEntryView {
    ClientEntryView {
        id: module_id_of(c.relative_path, true),
        path: c.relative_path,
        absolute_path: c.absolute_path,
        chunk_name: chunk_name_of(c.relative_path),
        exports: c.exports,
        async_load: false,
    }
}

/// The URL of a chunk.
pub open spec fn chunk_url(chunk: Seq<char>) -> Seq<char> {
    "/_vista/static/chunks/"@ + chunk + ".js"@
}

/// The three tables of the client manifest after the components `cs`.
pub open spec fn client_tables(cs: Seq<ComponentView>) -> (
    Seq<ClientEntryView>,
    Seq<(Seq<char>, Seq<char>)>,
    Seq<(Seq<char>, Seq<char>)>,
)
    decreases cs.len(),
{
    if cs.len() == 0 {
        (Seq::empty(), Seq::empty(), Seq::empty())
    } else {
        let t = client_tables(cs.drop_last());
        let c = cs.last();
        let id = module_id_of(c.relative_path, true);
        (
            put_keyed::<ClientModuleEntry>(t.0, client_entry_of(c)),
            put_keyed::<(String, String)>(
                put_keyed::<(String, String)>(t.1, (c.relative_path, id)),
                (c.absolute_path, id),
            ),
            put_keyed::<(String, String)>(
                t.2,
                (c.absolute_path, chunk_url(chunk_name_of(c.relative_path))),
            ),
        )
    }
}

/// The client manifest of the client components `clients`.
pub open spec fn client_manifest_of(clients: Seq<ComponentView>, build_id: Seq<char>) -> ClientManifestView {
    let t = client_tables(clients);
    ClientManifestView {
        build_id,
        client_modules: t.0,
        path_to_id: t.1,
        ssr_module_mapping: t.2,
    }
}

fn client_manifest_from_scan(clients: &Vec<ScannedComponent>, build_id: &str) -> (r:
    ClientManifest)
    ensures
        r@ == client_manifest_of(crate::scanner::component_views(clients@), build_id@),
{
    let ghost cv = crate::scanner::component_views(clients@);
    let mut client_modules: Vec<ClientModuleEntry> = Vec::new();
    let mut path_to_id: Vec<(String, String)> = Vec::new();
    let mut ssr_module_mapping: Vec<(String, String)> = Vec::new();
    let mut i: usize = 0;
    assert(cv.take(0) =~= Seq::<ComponentView>::empty());
    while i < clients.len()
        invariant
            cv == crate::scanner::component_views(clients@),
            i <= clients@.len(),
            (
                table_views(client_modules@),
                table_views(path_to_id@),
                table_views(ssr_module_mapping@),
            ) == client_tables(cv.take(i as int)),
        decreases clients@.len() - i,
    {
        let c = &clients[i];
        assert(cv.take(i + 1).drop_last() =~= cv.take(i as int));
        assert(cv.take(i + 1).last() == c@);
        let id = generate_module_id(c.relative_path.as_str(), true);
        let chunk = generate_chunk_name(c.relative_path.as_str());
        let mut url = owned("/_vista/static/chunks/");
        push_str(&mut url, chunk.as_str());
        push_str(&mut url, ".js");
        let entry = ClientModuleEntry {
            id: id.clone(),
            path: c.relative_path.clone(),
            absolute_path: c.absolute_path.clone(),
            chunk_name: chunk,
            exports: clone_strings(&c.exports),
            async_load: false,
        };
        assert(entry@ == client_entry_of(c@));
        put_entry(&mut path_to_id, (c.relative_path.clone(), id.clone()));
        put_entry(&mut path_to_id, (c.absolute_path.clone(), id));
        put_entry(&mut ssr_module_mapping, (c.absolute_path.clone(), url));
        put_entry(&mut client_modules, entry);
        i = i + 1;
    }
    assert(cv.take(clients@.len() as int) =~= cv);
    ClientManifest { build_id: owned(build_id), client_modules, path_to_id, ssr_module_mapping }
}

/// The client manifest of the route tree whose source files are `files`:
/// one entry per client component with its chunk name, its paths mapped to
/// its identifier, and its absolute path mapped to its chunk URL.
pub fn generate_client_manifest(files: &Vec<SourceFile>, build_id: &str) -> (r: ClientManifest)
    ensures
        r@ == client_manifest_of(scan_of(file_views(files@)).client_components, build_id@),
{
    let scan = scan_app_directory(files);
    client_manifest_from_scan(&scan.client_components, build_id)
}

// ---------------------------------------------------------------------------
// Routes

/// The absolute path of the first layout at or after `i` whose directory
/// is `d`.
pub open spec fn layout_in(layouts: Seq<ComponentView>, d: Seq<char>, i: int) -> Option<Seq<char>>
    decreases layouts.len() - i,
{
    if i < 0 || i >= layouts.len() {
        None
    } else if dir_of(layouts[i].relative_path) == d {
        Some(layouts[i].absolute_path)
    } else {
        layout_in(layouts, d, i + 1)
    }
}

/// The layouts enclosing directory `d`, from the root down to `d` itself:
/// at each level the first layout that lies there.
pub open spec fn layout_chain(layouts: Seq<ComponentView>, d: Seq<char>) -> Seq<Seq<char>>
    decreases d.len(),
    via layout_chain_decreases
{
    let here = match layout_in(layouts, d, 0) {
        Some(p) => seq![p],
        None => Seq::empty(),
    };
    if d.len() == 0 {
        here
    } else {
        layout_chain(layouts, dir_of(d)) + here
    }
}

#[via_fn]
proof fn layout_chain_decreases(layouts: Seq<ComponentView>, d: Seq<char>) {
    crate::paths::lemma_dir_of_shorter(d);
}

/// The route of a page.
pub open spec fn route_of(page: ComponentView, layouts: Seq<ComponentView>) -> RouteView {
    let (pattern, kind) = url_pattern_of(page.relative_path);
    RouteView {
        pattern,
        page_path: page.absolute_path,
        layout_paths: layout_chain(layouts, dir_of(page.relative_path)),
        loading_path: None,
        error_path: None,
        route_type: kind_name(kind),
    }
}

fn layout_at(layouts: &Vec<ScannedComponent>, d: &Vec<char>) -> (r: Option<String>)
    ensures
        r matches Some(p) ==> layout_in(crate::scanner::component_views(layouts@), d@, 0) == Some(
            p@,
        ),
        r is None ==> layout_in(crate::scanner::component_views(layouts@), d@, 0) is None,
{
    let ghost lv = crate::scanner::component_views(layouts@);
    let mut i: usize = 0;
    while i < layouts.len()
        invariant
            lv == crate::scanner::component_views(layouts@),
            i <= layouts@.len(),
            layout_in(lv, d@, 0) == layout_in(lv, d@, i as int),
        decreases layouts@.len() - i,
    {
        let rel = chars_of(layouts[i].relative_path.as_str());
        let dir = dir_part(&rel);
        if chars_eq(&dir, d) {
            return Some(layouts[i].absolute_path.clone());
        }
        i = i + 1;
    }
    None
}

fn layouts_enclosing(layouts: &Vec<ScannedComponent>, d: &Vec<char>) -> (r: Vec<String>)
    ensures
        string_views(r@) == layout_chain(crate::scanner::component_views(layouts@), d@),
{
    let ghost lv = crate::scanner::component_views(layouts@);
    let mut chain: Vec<String> = Vec::new();
    let mut cur = slice(d, 0, d.len());
    assert(cur@ =~= d@);
    loop
        invariant
            lv == crate::scanner::component_views(layouts@),
            layout_chain(lv, d@) == layout_chain(lv, cur@) + string_views(chain@),
        decreases cur@.len(),
    {
        let ghost before = string_views(chain@);
        match layout_at(layouts, &cur) {
            Some(p) => {
                let ghost pv = p@;
                chain.insert(0, p);
                assert(string_views(chain@) =~= seq![pv] + before);
            },
            None => {},
        }
        proof {
            crate::paths::lemma_dir_of_shorter(cur@);
        }
        if cur.len() == 0 {
            assert(string_views(chain@) =~= layout_chain(lv, cur@) + before);
            assert(layout_chain(lv, d@) =~= string_views(chain@));
            return chain;
        }
        let next = dir_part(&cur);
        assert(layout_chain(lv, d@) =~= layout_chain(lv, next@) + string_views(chain@));
        cur = next;
    }
}

/// Sort rank of a route kind: static, dynamic, catch-all, anything else.
pub open spec fn route_rank(t: Seq<char>) -> int {
    if t == "static"@ {
        0
    } else if t == "dynamic"@ {
        1
    } else if t == "catch-all"@ {
        2
    } else {
        3
    }
}

impl Ranked for RouteEntry {
    open spec fn rank_of(v: RouteView) -> int {
        route_rank(v.route_type)
    }

    open spec fn label_of(v: RouteView) -> Seq<char> {
        v.pattern
    }

    fn rank(&self) -> (r: u8) {
        let c = chars_of(self.route_type.as_str());
        if eq_str(&c, "static") {
            0
        } else if eq_str(&c, "dynamic") {
            1
        } else if eq_str(&c, "catch-all") {
            2
        } else {
            3
        }
    }

    fn label(&self) -> (r: &String) {
        &self.pattern
    }
}

/// The routes in sorted order: by kind, then by pattern, equal ones in
/// the order given.
pub open spec fn sort_routes(rs: Seq<RouteView>) -> Seq<RouteView> {
    sort_ranked::<RouteEntry>(rs)
}

/// The route of each page, in order.
pub open spec fn routes_of(pages: Seq<ComponentView>, layouts: Seq<ComponentView>) -> Seq<
    RouteView,
> {
    pages.map_values(|p: ComponentView| route_of(p, layouts))
}

fn page_route(page: &ScannedComponent, layouts: &Vec<ScannedComponent>) -> (r: RouteEntry)
    ensures
        r@ == route_of(page@, crate::scanner::component_views(layouts@)),
{
    let (pattern, route_type) = build_url_pattern(page.relative_path.as_str());
    let rel = chars_of(page.relative_path.as_str());
    let dir = dir_part(&rel);
    RouteEntry {
        pattern,
        page_path: page.absolute_path.clone(),
        layout_paths: layouts_enclosing(layouts, &dir),
        loading_path: None,
        error_path: None,
        route_type,
    }
}

fn sorted_routes(pages: &Vec<ScannedComponent>, layouts: &Vec<ScannedComponent>) -> (r: Vec<
    RouteEntry,
>)
    ensures
        table_views(r@) == sort_routes(
            routes_of(
                crate::scanner::component_views(pages@),
                crate::scanner::component_views(layouts@),
            ),
        ),
{
    let ghost pv = crate::scanner::component_views(pages@);
    let ghost lv = crate::scanner::component_views(layouts@);
    let mut routes: Vec<RouteEntry> = Vec::new();
    let mut i: usize = 0;
    assert(routes_of(pv.take(0), lv) =~= Seq::<RouteView>::empty());
    while i < pages.len()
        invariant
            pv == crate::scanner::component_views(pages@),
            lv == crate::scanner::component_views(layouts@),
            i <= pages@.len(),
            table_views(routes@) == sort_routes(routes_of(pv.take(i as int), lv)),
        decreases pages@.len() - i,
    {
        let route = page_route(&pages[i], layouts);
        assert(routes_of(pv.take(i + 1), lv).drop_last() =~= routes_of(pv.take(i as int), lv));
        assert(routes_of(pv.take(i + 1), lv).last() == route@);
        insert_ranked(&mut routes, route);
        i = i + 1;
    }
    assert(pv.take(pages@.len() as int) =~= pv);
    routes
}

// ---------------------------------------------------------------------------
// The server manifest

/// The manifest entry of a server component.
pub open spec fn server_entry_of(c: ComponentView) -> ServerEntryView {
    ServerEntryView {
        id: module_id_of(c.relative_path, false),
        path: c.relative_path,
        absolute_path: c.absolute_path,
        component_type: component_type_name(c.component_type),
        has_metadata: c.has_metadata,
        has_generate_metadata: c.has_generate_metadata,
        client_dependencies: Seq::empty(),
    }
}

/// The module table and path table of the server manifest after the
/// components `cs`.
pub open spec fn server_tables(cs: Seq<ComponentView>) -> (
    Seq<ServerEntryView>,
    Seq<(Seq<char>, Seq<char>)>,
)
    decreases cs.len(),
{
    if cs.len() == 0 {
        (Seq::empty(), Seq::empty())
    } else {
        let t = server_tables(cs.drop_last());
        let c = cs.last();
        let id = module_id_of(c.relative_path, false);
        (
            put_keyed::<ServerModuleEntry>(t.0, server_entry_of(c)),
            put_keyed::<(String, String)>(
                put_keyed::<(String, String)>(t.1, (c.relative_path, id)),
                (c.absolute_path, id),
            ),
        )
    }
}

/// The server manifest of a scan: an entry for each server component, and
/// a route for each page, sorted.
pub open spec fn server_manifest_of(scan: ScanView, build_id: Seq<char>) -> ServerManifestView {
    let t = server_tables(scan.server_components);
    ServerManifestView {
        build_id,
        server_modules: t.0,
        path_to_id: t.1,
        routes: sort_routes(routes_of(scan.pages, scan.layouts)),
    }
}

fn server_modules_of(servers: &Vec<ScannedComponent>) -> (r: (
    Vec<ServerModuleEntry>,
    Vec<(String, String)>,
))
    ensures
        (table_views(r.0@), table_views(r.1@)) == server_tables(
            crate::scanner::component_views(servers@),
        ),
{
    let ghost cv = crate::scanner::component_views(servers@);
    let mut modules: Vec<ServerModuleEntry> = Vec::new();
    let mut path_to_id: Vec<(String, String)> = Vec::new();
    let mut i: usize = 0;
    assert(cv.take(0) =~= Seq::<ComponentView>::empty());
    while i < servers.len()
        invariant
            cv == crate::scanner::component_views(servers@),
            i <= servers@.len(),
            (table_views(modules@), table_views(path_to_id@)) == server_tables(
                cv.take(i as int),
            ),
        decreases servers@.len() - i,
    {
        let c = &servers[i];
        assert(cv.take(i + 1).drop_last() =~= cv.take(i as int));
        assert(cv.take(i + 1).last() == c@);
        let id = generate_module_id(c.relative_path.as_str(), false);
        let deps: Vec<String> = Vec::new();
        let entry = ServerModuleEntry {
            id: id.clone(),
            path: c.relative_path.clone(),
            absolute_path: c.absolute_path.clone(),
            component_type: c.component_type.name(),
            has_metadata: c.has_metadata,
            has_generate_metadata: c.has_generate_metadata,
            client_dependencies: deps,
        };
        assert(string_views(deps@) =~= Seq::<Seq<char>>::empty());
        assert(entry@ == server_entry_of(c@));
        put_entry(&mut path_to_id, (c.relative_path.clone(), id.clone()));
        put_entry(&mut path_to_id, (c.absolute_path.clone(), id));
        put_entry(&mut modules, entry);
        i = i + 1;
    }
    assert(cv.take(servers@.len() as int) =~= cv);
    (modules, path_to_id)
}

/// The server manifest of the route tree whose source files are `files`:
/// one entry per server component, and the routes of its pages with their
/// layout chains, static before dynamic before catch-all, then by pattern.
pub fn generate_server_manifest(files: &Vec<SourceFile>, build_id: &str) -> (r: ServerManifest)
    ensures
        r@ == server_manifest_of(scan_of(file_views(files@)), build_id@),
{
    let scan = scan_app_directory(files);
    let (server_modules, path_to_id) = server_modules_of(&scan.server_components);
    let routes = sorted_routes(&scan.pages, &scan.layouts);
    ServerManifest { build_id: owned(build_id), server_modules, path_to_id, routes }
}

// ---------------------------------------------------------------------------
// Laws

/// Route order: the server manifest lists every static route before every
/// dynamic one and every dynamic one before every catch-all, routes of one
/// kind by pattern; and it lists exactly the routes of the pages, each as
/// often as there are pages that give it.
pub proof fn routes_sorted_by_kind_then_pattern(rs: Seq<RouteView>)
    ensures
        forall|i: int, j: int|
            0 <= i < j < sort_routes(rs).len() ==> {
                let a = #[trigger] sort_routes(rs)[i];
                let b = #[trigger] sort_routes(rs)[j];
                &&& route_rank(a.route_type) <= route_rank(b.route_type)
                &&& route_rank(a.route_type) == route_rank(b.route_type) ==> !lex_lt(
                    b.pattern,
                    a.pattern,
                )
            },
        sort_routes(rs).to_multiset() == rs.to_multiset(),
{
    lemma_sort_ranked::<RouteEntry>(rs);
    let s = sort_routes(rs);
    assert forall|i: int, j: int| 0 <= i < j < s.len() implies {
        let a = #[trigger] s[i];
        let b = #[trigger] s[j];
        &&& route_rank(a.route_type) <= route_rank(b.route_type)
        &&& route_rank(a.route_type) == route_rank(b.route_type) ==> !lex_lt(b.pattern, a.pattern)
    } by {
        assert(!ranked_before::<RouteEntry>(s[j], s[i]));
    }
}

/// Manifest idempotence: generating the manifests twice from the same
/// files and the same build identifier gives the same manifests, so the
/// same module identifiers and chunk names.
pub proof fn manifests_idempotent(
    files_a: Seq<FileView>,
    files_b: Seq<FileView>,
    build_a: Seq<char>,
    build_b: Seq<char>,
)
    requires
        files_a == files_b,
        build_a == build_b,
    ensures
        client_manifest_of(scan_of(files_a).client_components, build_a) == client_manifest_of(
            scan_of(files_b).client_components,
            build_b,
        ),
        server_manifest_of(scan_of(files_a), build_a) == server_manifest_of(
            scan_of(files_b),
            build_b,
        ),
{
}

} // verus!
