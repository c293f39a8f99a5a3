//! The scanner: classifies each source file of the route tree and gathers
//! the facts the manifests need, flagging server components that use
//! client-only APIs.

use crate::client_directive::{detect_client_directive_fast, directive_line_of, is_client_source};
use crate::paths::{file_stem, has_script_extension, is_source_file, stem_of};
use crate::text::{
    chars_of, clone_strings, contains, contains_str, eq_str, find, has_prefix, ident_end, index_of,
    lemma_find_from, lines, lines_of, owned, push_str, slice, starts_with_str, string_of,
    string_views, take_identifier, trim, trimmed, views,
};
use vstd::prelude::*;

verus! {

/// What a file is, by its base name.
#[derive(Debug, Clone, Copy, PartialEq, Eq, Structural)]
pub enum ComponentType {
    Page,
    Layout,
    Loading,
    Error,
    NotFound,
    Component,
    /// An API route.
    Route,
}

/// The kind of a file with base name `stem`.
pub open spec fn component_type_of(stem: Seq<char>) -> ComponentType {
    if stem == "page"@ || stem == "index"@ {
        ComponentType::Page
    } else if stem == "layout"@ || stem == "root"@ {
        ComponentType::Layout
    } else if stem == "loading"@ {
        ComponentType::Loading
    } else if stem == "error"@ {
        ComponentType::Error
    } else if stem == "not-found"@ {
        ComponentType::NotFound
    } else if stem == "route"@ {
        ComponentType::Route
    } else {
        ComponentType::Component
    }
}

/// The lower-case name of a kind.
pub open spec fn component_type_name(t: ComponentType) -> Seq<char> {
    match t {
        ComponentType::Page => "page"@,
        ComponentType::Layout => "layout"@,
        ComponentType::Loading => "loading"@,
        ComponentType::Error => "error"@,
        ComponentType::NotFound => "notfound"@,
        ComponentType::Component => "component"@,
        ComponentType::Route => "route"@,
    }
}

impl ComponentType {
    /// The kind of a file with this base name (exact, case-sensitive).
    pub fn from_filename(name: &str) -> (r: Self)
        ensures
            r == component_type_of(name@),
    {
        let n = chars_of(name);
        ComponentType::from_chars(&n)
    }

    fn from_chars(n: &Vec<char>) -> (r: Self)
        ensures
            r == component_type_of(n@),
    {
        if eq_str(n, "page") || eq_str(n, "index") {
            ComponentType::Page
        } else if eq_str(n, "layout") || eq_str(n, "root") {
            ComponentType::Layout
        } else if eq_str(n, "loading") {
            ComponentType::Loading
        } else if eq_str(n, "error") {
            ComponentType::Error
        } else if eq_str(n, "not-found") {
            ComponentType::NotFound
        } else if eq_str(n, "route") {
            ComponentType::Route
        } else {
            ComponentType::Component
        }
    }

    /// The lower-case name of the kind.
    pub fn name(&self) -> (r: String)
        ensures
            r@ == component_type_name(*self),
    {
        match self {
            ComponentType::Page => owned("page"),
            ComponentType::Layout => owned("layout"),
            ComponentType::Loading => owned("loading"),
            ComponentType::Error => owned("error"),
            ComponentType::NotFound => owned("notfound"),
            ComponentType::Component => owned("component"),
            ComponentType::Route => owned("route"),
        }
    }
}

/// A source file as the walk of the route tree found it.
#[derive(Debug, Clone)]
pub struct SourceFile {
    /// Where the file lies.
    pub absolute_path: String,
    /// Its path below the route root, as the platform writes it.
    pub relative_path: String,
    /// Its name, the last component of the path.
    pub file_name: String,
    /// Its text.
    pub source: String,
}

pub struct FileView {
    pub absolute_path: Seq<char>,
    pub relative_path: Seq<char>,
    pub file_name: Seq<char>,
    pub source: Seq<char>,
}

impl View for SourceFile {
    type V = FileView;

    open spec fn view(&self) -> FileView {
        FileView {
            absolute_path: self.absolute_path@,
            relative_path: self.relative_path@,
            file_name: self.file_name@,
            source: self.source@,
        }
    }
}

/// Information about a scanned component.
#[derive(Debug, Clone)]
pub struct ScannedComponent {
    /// Where the file lies.
    pub absolute_path: String,
    /// Its path below the route root, with `/` between directories.
    pub relative_path: String,
    /// The file opens with the client directive.
    pub is_client: bool,
    /// 1-based line of the directive, 0 for a server component.
    pub directive_line: usize,
    /// Its kind, by base name.
    pub component_type: ComponentType,
    /// Exported names.
    pub exports: Vec<String>,
    /// Client-only hooks and APIs it uses.
    pub client_hooks_used: Vec<String>,
    /// It exports static metadata.
    pub has_metadata: bool,
    /// It exports a `generateMetadata` function.
    pub has_generate_metadata: bool,
}

pub struct ComponentView {
    pub absolute_path: Seq<char>,
    pub relative_path: Seq<char>,
    pub is_client: bool,
    pub directive_line: int,
    pub component_type: ComponentType,
    pub exports: Seq<Seq<char>>,
    pub client_hooks_used: Seq<Seq<char>>,
    pub has_metadata: bool,
    pub has_generate_metadata: bool,
}

impl View for ScannedComponent {
    type V = ComponentView;

    open spec fn view(&self) -> ComponentView {
        ComponentView {
            absolute_path: self.absolute_path@,
            relative_path: self.relative_path@,
            is_client: self.is_client,
            directive_line: self.directive_line as int,
            component_type: self.component_type,
            exports: string_views(self.exports@),
            client_hooks_used: string_views(self.client_hooks_used@),
            has_metadata: self.has_metadata,
            has_generate_metadata: self.has_generate_metadata,
        }
    }
}

impl ScannedComponent {
    /// A copy of the component.
    pub fn duplicate(&self) -> (r: Self)
        ensures
            r@ == self@,
    {
        ScannedComponent {
            absolute_path: self.absolute_path.clone(),
            relative_path: self.relative_path.clone(),
            is_client: self.is_client,
            directive_line: self.directive_line,
            component_type: self.component_type,
            exports: clone_strings(&self.exports),
            client_hooks_used: clone_strings(&self.client_hooks_used),
            has_metadata: self.has_metadata,
            has_generate_metadata: self.has_generate_metadata,
        }
    }
}

/// A server component that uses client-only APIs.
#[derive(Debug, Clone)]
pub struct ServerComponentError {
    /// The file's relative path.
    pub file: String,
    /// What to tell the developer.
    pub message: String,
    /// The client-only APIs it uses.
    pub hooks: Vec<String>,
}

pub struct ErrorView {
    pub file: Seq<char>,
    pub message: Seq<char>,
    pub hooks: Seq<Seq<char>>,
}

impl View for ServerComponentError {
    type V = ErrorView;

    open spec fn view(&self) -> ErrorView {
        ErrorView { file: self.file@, message: self.message@, hooks: string_views(self.hooks@) }
    }
}

/// Result of scanning the route tree.
#[derive(Debug, Clone)]
pub struct ScanResult {
    pub client_components: Vec<ScannedComponent>,
    pub server_components: Vec<ScannedComponent>,
    pub pages: Vec<ScannedComponent>,
    pub layouts: Vec<ScannedComponent>,
    pub api_routes: Vec<ScannedComponent>,
    pub errors: Vec<ServerComponentError>,
    /// Files scanned.
    pub total_files: usize,
    /// Time the scan took in milliseconds, for diagnostics; the scan leaves
    /// it 0 for the caller that timed it.
    pub scan_time_ms: u64,
}

pub struct ScanView {
    pub client_components: Seq<ComponentView>,
    pub server_components: Seq<ComponentView>,
    pub pages: Seq<ComponentView>,
    pub layouts: Seq<ComponentView>,
    pub api_routes: Seq<ComponentView>,
    pub errors: Seq<ErrorView>,
    pub total_files: int,
    pub scan_time_ms: int,
}

pub open spec fn component_views(v: Seq<ScannedComponent>) -> Seq<ComponentView> {
    v.map_values(|c: ScannedComponent| c@)
}

pub open spec fn error_views(v: Seq<ServerComponentError>) -> Seq<ErrorView> {
    v.map_values(|e: ServerComponentError| e@)
}

pub open spec fn file_views(v: Seq<SourceFile>) -> Seq<FileView> {
    v.map_values(|f: SourceFile| f@)
}

impl View for ScanResult {
    type V = ScanView;

    open spec fn view(&self) -> ScanView {
        ScanView {
            client_components: component_views(self.client_components@),
            server_components: component_views(self.server_components@),
            pages: component_views(self.pages@),
            layouts: component_views(self.layouts@),
            api_routes: component_views(self.api_routes@),
            errors: error_views(self.errors@),
            total_files: self.total_files as int,
            scan_time_ms: self.scan_time_ms as int,
        }
    }
}

// ---------------------------------------------------------------------------
// Facts read from the source text

/// The client-only hooks, then the client-only APIs, that the scanner
/// looks for.
pub open spec fn client_api_names() -> Seq<Seq<char>> {
    seq![
        "useState"@,
        "useEffect"@,
        "useLayoutEffect"@,
        "useReducer"@,
        "useRef"@,
        "useImperativeHandle"@,
        "useCallback"@,
        "useMemo"@,
        "useContext"@,
        "useDebugValue"@,
        "useDeferredValue"@,
        "useTransition"@,
        "useId"@,
        "useSyncExternalStore"@,
        "useInsertionEffect"@,
        "createContext"@,
        "forwardRef"@,
        "memo"@,
        "lazy"@,
        "startTransition"@,
        "useFormStatus"@,
        "useFormState"@,
        "useOptimistic"@,
    ]
}

fn client_api_vocabulary() -> (r: Vec<&'static str>)
    ensures
        r@.map_values(|n: &str| n@) == client_api_names(),
{
    let r = vec![
        "useState",
        "useEffect",
        "useLayoutEffect",
        "useReducer",
        "useRef",
        "useImperativeHandle",
        "useCallback",
        "useMemo",
        "useContext",
        "useDebugValue",
        "useDeferredValue",
        "useTransition",
        "useId",
        "useSyncExternalStore",
        "useInsertionEffect",
        "createContext",
        "forwardRef",
        "memo",
        "lazy",
        "startTransition",
        "useFormStatus",
        "useFormState",
        "useOptimistic",
    ];
    assert(r@.map_values(|n: &str| n@) =~= client_api_names());
    r
}

/// `name` stands in `src` followed by `(` or `<`.
pub open spec fn used_as_call(src: Seq<char>, name: Seq<char>) -> bool {
    contains(src, name.push('(')) || contains(src, name.push('<'))
}

/// The names among the first `n` of `names` that `src` uses, in order.
pub open spec fn used_names_upto(src: Seq<char>, names: Seq<Seq<char>>, n: int) -> Seq<Seq<char>>
    decreases n,
{
    if n <= 0 {
        Seq::empty()
    } else {
        let prev = used_names_upto(src, names, n - 1);
        if used_as_call(src, names[n - 1]) {
            prev.push(names[n - 1])
        } else {
            prev
        }
    }
}

/// `src` sets one of the event-handler attributes.
pub open spec fn uses_event_handler(src: Seq<char>) -> bool {
    contains(src, "onClick="@) || contains(src, "onChange="@) || contains(src, "onSubmit="@)
        || contains(src, "onFocus="@)
}

/// The client-only hooks and APIs that `src` uses, in vocabulary order,
/// then `event handlers` when it sets an event-handler attribute.
pub open spec fn client_hooks_of(src: Seq<char>) -> Seq<Seq<char>> {
    let used = used_names_upto(src, client_api_names(), client_api_names().len() as int);
    if uses_event_handler(src) {
        used.push("event handlers"@)
    } else {
        used
    }
}

fn hooks_in(src: &Vec<char>) -> (r: Vec<String>)
    ensures
        string_views(r@) == client_hooks_of(src@),
{
    let names = client_api_vocabulary();
    let ghost nv = names@.map_values(|n: &str| n@);
    let mut used: Vec<String> = Vec::new();
    let mut i: usize = 0;
    while i < names.len()
        invariant
            nv == names@.map_values(|n: &str| n@),
            nv == client_api_names(),
            i <= names@.len(),
            string_views(used@) == used_names_upto(src@, nv, i as int),
        decreases names@.len() - i,
    {
        let name = names[i];
        assert(nv[i as int] == name@);
        let mut call = chars_of(name);
        call.push('(');
        let mut generic = chars_of(name);
        generic.push('<');
        if crate::text::contains_chars(src, &call) || crate::text::contains_chars(src, &generic) {
            let ghost before = used@;
            used.push(owned(name));
            assert(string_views(used@) =~= string_views(before).push(name@));
        }
        i = i + 1;
    }
    if contains_str(src, "onClick=") || contains_str(src, "onChange=") || contains_str(
        src,
        "onSubmit=",
    ) || contains_str(src, "onFocus=") {
        let ghost before = used@;
        used.push(owned("event handlers"));
        assert(string_views(used@) =~= string_views(before).push("event handlers"@));
    }
    used
}

/// The client-only hooks and APIs that the source uses, then `event
/// handlers` when it sets an event-handler attribute.
pub fn detect_client_hooks(source: &str) -> (r: Vec<String>)
    ensures
        string_views(r@) == client_hooks_of(source@),
{
    let src = chars_of(source);
    hooks_in(&src)
}

/// The identifier after the first occurrence of `after` in `line`, if one
/// follows it.
pub open spec fn identifier_after(line: Seq<char>, after: Seq<char>) -> Option<Seq<char>> {
    match index_of(line, after) {
        Some(p) => {
            let rest = line.skip(p + after.len());
            let name = rest.take(ident_end(rest, 0));
            if name.len() > 0 {
                Some(name)
            } else {
                None
            }
        },
        None => None,
    }
}

fn identifier_in(line: &Vec<char>, after: &Vec<char>) -> (r: Option<Vec<char>>)
    ensures
        r matches Some(n) ==> identifier_after(line@, after@) == Some(n@),
        r is None ==> identifier_after(line@, after@) is None,
{
    match find(line, after) {
        Some(p) => {
            proof {
                lemma_find_from(line@, after@, 0);
            }
            let n = line.len();
            let k = after.len();
            let rest = slice(line, p + k, n);
            assert(rest@ =~= line@.skip(p + after@.len()));
            let name = take_identifier(&rest);
            if name.len() > 0 {
                Some(name)
            } else {
                None
            }
        },
        None => None,
    }
}

/// The identifier after the first occurrence of `after` in `line`: the
/// longest run of alphanumeric characters and `_` that follows it.
pub fn extract_identifier(line: &str, after: &str) -> (r: Option<String>)
    ensures
        r matches Some(n) ==> identifier_after(line@, after@) == Some(n@),
        r is None ==> identifier_after(line@, after@) is None,
{
    let l = chars_of(line);
    let a = chars_of(after);
    match identifier_in(&l, &a) {
        Some(n) => Some(string_of(&n)),
        None => None,
    }
}

/// The name that a trimmed line exports by `export function`, `export
/// async function`, `export const` or `export class`.
pub open spec fn exported_name(t: Seq<char>) -> Option<Seq<char>> {
    if has_prefix(t, "export function "@) || has_prefix(t, "export async function "@) {
        identifier_after(t, "function "@)
    } else if has_prefix(t, "export const "@) {
        identifier_after(t, "const "@)
    } else if has_prefix(t, "export class "@) {
        identifier_after(t, "class "@)
    } else {
        None
    }
}

/// The names that the first `n` lines export, in order.
pub open spec fn exported_names_upto(ls: Seq<Seq<char>>, n: int) -> Seq<Seq<char>>
    decreases n,
{
    if n <= 0 {
        Seq::empty()
    } else {
        let prev = exported_names_upto(ls, n - 1);
        match exported_name(trimmed(ls[n - 1])) {
            Some(x) => prev.push(x),
            None => prev,
        }
    }
}

/// The exports of `src`: `default` when it holds `export default`, then the
/// names its lines export, in order.
pub open spec fn exports_of(src: Seq<char>) -> Seq<Seq<char>> {
    let named = exported_names_upto(lines_of(src), lines_of(src).len() as int);
    if contains(src, "export default"@) {
        seq!["default"@] + named
    } else {
        named
    }
}

fn line_exported_name(t: &Vec<char>) -> (r: Option<Vec<char>>)
    ensures
        r matches Some(n) ==> exported_name(t@) == Some(n@),
        r is None ==> exported_name(t@) is None,
{
    if starts_with_str(t, "export function ") || starts_with_str(t, "export async function ") {
        let k = chars_of("function ");
        identifier_in(t, &k)
    } else if starts_with_str(t, "export const ") {
        let k = chars_of("const ");
        identifier_in(t, &k)
    } else if starts_with_str(t, "export class ") {
        let k = chars_of("class ");
        identifier_in(t, &k)
    } else {
        None
    }
}

fn exports_in(src: &Vec<char>) -> (r: Vec<String>)
    ensures
        string_views(r@) == exports_of(src@),
{
    let mut exports: Vec<String> = Vec::new();
    let has_default = contains_str(src, "export default");
    if has_default {
        exports.push(owned("default"));
    }
    let ghost head = string_views(exports@);
    let ls = lines(src);
    let ghost lv = views(ls@);
    let mut i: usize = 0;
    while i < ls.len()
        invariant
            lv == views(ls@),
            lv == lines_of(src@),
            i <= ls@.len(),
            string_views(exports@) == head + exported_names_upto(lv, i as int),
        decreases ls@.len() - i,
    {
        let t = trim(&ls[i]);
        assert(lv[i as int] == ls@[i as int]@);
        match line_exported_name(&t) {
            Some(n) => {
                let ghost before = exports@;
                exports.push(string_of(&n));
                assert(string_views(exports@) =~= string_views(before).push(n@));
            },
            None => {},
        }
        i = i + 1;
    }
    proof {
        if has_default {
            assert(head =~= seq!["default"@]);
        } else {
            assert(head =~= Seq::<Seq<char>>::empty());
        }
    }
    exports
}

/// The names the source exports: `default` when it holds `export
/// default`, then each name after `export function`, `export async
/// function`, `export const` or `export class` at the start of a line.
pub fn extract_exports(source: &str) -> (r: Vec<String>)
    ensures
        string_views(r@) == exports_of(source@),
{
    let src = chars_of(source);
    exports_in(&src)
}

/// `src` exports static metadata.
pub open spec fn exports_metadata(src: Seq<char>) -> bool {
    contains(src, "export const metadata"@) || contains(src, "export let metadata"@)
}

/// `src` exports a `generateMetadata` function or constant.
pub open spec fn exports_generate_metadata(src: Seq<char>) -> bool {
    contains(src, "export function generateMetadata"@) || contains(
        src,
        "export async function generateMetadata"@,
    ) || contains(src, "export const generateMetadata"@)
}

/// Whether the source exports static metadata.
pub fn has_metadata_export(source: &str) -> (r: bool)
    ensures
        r == exports_metadata(source@),
{
    let src = chars_of(source);
    contains_str(&src, "export const metadata") || contains_str(&src, "export let metadata")
}

/// Whether the source exports a `generateMetadata` function or constant.
pub fn has_generate_metadata(source: &str) -> (r: bool)
    ensures
        r == exports_generate_metadata(source@),
{
    let src = chars_of(source);
    contains_str(&src, "export function generateMetadata") || contains_str(
        &src,
        "export async function generateMetadata",
    ) || contains_str(&src, "export const generateMetadata")
}

// ---------------------------------------------------------------------------
// Scanning

/// `p` with every `\\` turned into `/`.
pub open spec fn forward_slashes(p: Seq<char>) -> Seq<char> {
    p.map_values(|c: char| if c == '\\' { '/' } else { c })
}

/// Turns every `\\` of a path into `/`.
pub fn normalize_separators(p: &Vec<char>) -> (r: Vec<char>)
    ensures
        r@ == forward_slashes(p@),
{
    let mut r: Vec<char> = Vec::new();
    let mut i: usize = 0;
    while i < p.len()
        invariant
            i <= p@.len(),
            r@ == forward_slashes(p@.take(i as int)),
        decreases p@.len() - i,
    {
        let c = p[i];
        if c == '\\' {
            r.push('/');
        } else {
            r.push(c);
        }
        assert(forward_slashes(p@.take(i + 1)) =~= forward_slashes(p@.take(i as int)).push(
            if c == '\\' { '/' } else { c },
        ));
        i = i + 1;
    }
    assert(p@.take(p@.len() as int) =~= p@);
    r
}

/// What the scanner records of one source file.
pub open spec fn component_of(f: FileView) -> ComponentView {
    ComponentView {
        absolute_path: f.absolute_path,
        relative_path: forward_slashes(f.relative_path),
        is_client: is_client_source(f.source),
        directive_line: directive_line_of(f.source),
        component_type: component_type_of(file_stem(f.file_name)),
        exports: exports_of(f.source),
        client_hooks_used: client_hooks_of(f.source),
        has_metadata: exports_metadata(f.source),
        has_generate_metadata: exports_generate_metadata(f.source),
    }
}

/// Analyses one source file.
pub fn scan_file(file: &SourceFile) -> (r: ScannedComponent)
    ensures
        r@ == component_of(file@),
{
    let src = chars_of(file.source.as_str());
    let name = chars_of(file.file_name.as_str());
    let rel = chars_of(file.relative_path.as_str());
    let directive = detect_client_directive_fast(file.source.as_str());
    let stem = stem_of(&name);
    let relative = normalize_separators(&rel);
    ScannedComponent {
        absolute_path: file.absolute_path.clone(),
        relative_path: string_of(&relative),
        is_client: directive.is_client,
        directive_line: directive.directive_line,
        component_type: ComponentType::from_chars(&stem),
        exports: exports_in(&src),
        client_hooks_used: hooks_in(&src),
        has_metadata: has_metadata_export(file.source.as_str()),
        has_generate_metadata: has_generate_metadata(file.source.as_str()),
    }
}

/// The names joined with `, `.
pub open spec fn join_names(xs: Seq<Seq<char>>) -> Seq<char>
    decreases xs.len(),
{
    if xs.len() == 0 {
        Seq::empty()
    } else if xs.len() == 1 {
        xs[0]
    } else {
        join_names(xs.drop_last()) + ", "@ + xs.last()
    }
}

/// A server component that uses client-only APIs must be reported.
pub open spec fn violates_boundary(c: ComponentView) -> bool {
    !c.is_client && c.client_hooks_used.len() > 0
}

/// The message for a server component that uses `hooks`.
pub open spec fn boundary_message(hooks: Seq<Seq<char>>) -> Seq<char> {
    "Using "@ + join_names(hooks)
        + " in a Server Component. Add 'client load' to make it a Client Component."@
}

/// The report for a server component that uses client-only APIs.
pub open spec fn error_of(c: ComponentView) -> ErrorView {
    ErrorView {
        file: c.relative_path,
        message: boundary_message(c.client_hooks_used),
        hooks: c.client_hooks_used,
    }
}

fn boundary_error(c: &ScannedComponent) -> (r: ServerComponentError)
    ensures
        r@ == error_of(c@),
{
    let hooks = &c.client_hooks_used;
    let mut message = owned("Using ");
    let ghost head = message@;
    let ghost hv = string_views(hooks@);
    let mut i: usize = 0;
    while i < hooks.len()
        invariant
            hv == string_views(hooks@),
            i <= hooks@.len(),
            message@ == head + join_names(hv.take(i as int)),
        decreases hooks@.len() - i,
    {
        let ghost before = message@;
        if i > 0 {
            push_str(&mut message, ", ");
        }
        push_str(&mut message, hooks[i].as_str());
        proof {
            let t = hv.take(i + 1);
            assert(t.drop_last() =~= hv.take(i as int));
            assert(t.last() == hooks@[i as int]@);
            if i == 0 {
                assert(hv.take(0) =~= Seq::<Seq<char>>::empty());
                assert(message@ =~= head + join_names(t));
            } else {
                assert(message@ =~= head + join_names(t));
            }
        }
        i = i + 1;
    }
    assert(hv.take(hooks@.len() as int) =~= hv);
    push_str(
        &mut message,
        " in a Server Component. Add 'client load' to make it a Client Component.",
    );
    assert(message@ =~= boundary_message(hv));
    ServerComponentError {
        file: c.relative_path.clone(),
        message,
        hooks: clone_strings(hooks),
    }
}

/// The components of the files that the scanner reads, in order.
pub open spec fn scanned(files: Seq<FileView>) -> Seq<ComponentView>
    decreases files.len(),
{
    if files.len() == 0 {
        Seq::empty()
    } else {
        let prev = scanned(files.drop_last());
        if has_script_extension(files.last().file_name) {
            prev.push(component_of(files.last()))
        } else {
            prev
        }
    }
}

/// The reports for the components that use client-only APIs without the
/// directive, in order.
pub open spec fn boundary_errors(cs: Seq<ComponentView>) -> Seq<ErrorView>
    decreases cs.len(),
{
    if cs.len() == 0 {
        Seq::empty()
    } else {
        let prev = boundary_errors(cs.drop_last());
        if violates_boundary(cs.last()) {
            prev.push(error_of(cs.last()))
        } else {
            prev
        }
    }
}

/// The classification views of a scan.
#[derive(Clone, Copy)]
pub enum Selection {
    Client,
    Server,
    Page,
    Layout,
    ApiRoute,
}

/// Whether a component belongs to a classification view: an API route is
/// neither a client nor a server component, whatever its directive.
pub open spec fn selected(c: ComponentView, s: Selection) -> bool {
    match s {
        Selection::Client => c.is_client && c.component_type != ComponentType::Route,
        Selection::Server => !c.is_client && c.component_type != ComponentType::Route,
        Selection::Page => c.component_type == ComponentType::Page,
        Selection::Layout => c.component_type == ComponentType::Layout,
        Selection::ApiRoute => c.component_type == ComponentType::Route,
    }
}

/// The components of `cs` in a classification view, in order.
pub open spec fn select(cs: Seq<ComponentView>, s: Selection) -> Seq<ComponentView>
    decreases cs.len(),
{
    if cs.len() == 0 {
        Seq::empty()
    } else {
        let prev = select(cs.drop_last(), s);
        if selected(cs.last(), s) {
            prev.push(cs.last())
        } else {
            prev
        }
    }
}

/// The scan of a route tree whose files are `files`, in walk order.
pub open spec fn scan_of(files: Seq<FileView>) -> ScanView {
    let cs = scanned(files);
    ScanView {
        client_components: select(cs, Selection::Client),
        server_components: select(cs, Selection::Server),
        pages: select(cs, Selection::Page),
        layouts: select(cs, Selection::Layout),
        api_routes: select(cs, Selection::ApiRoute),
        errors: boundary_errors(cs),
        total_files: cs.len() as int,
        scan_time_ms: 0,
    }
}

fn push_if_selected(
    list: &mut Vec<ScannedComponent>,
    c: &ScannedComponent,
    is_in: bool,
    Ghost(cs): Ghost<Seq<ComponentView>>,
    Ghost(s): Ghost<Selection>,
)
    requires
        component_views(old(list)@) == select(cs, s),
        is_in == selected(c@, s),
    ensures
        component_views(final(list)@) == select(cs.push(c@), s),
{
    assert(cs.push(c@).drop_last() =~= cs);
    if is_in {
        let ghost before = list@;
        list.push(c.duplicate());
        assert(component_views(list@) =~= component_views(before).push(c@));
    }
}

/// Scans the source files of a route tree, given in walk order: each file
/// with one of the four script extensions is analysed, classified, and
/// reported when it uses client-only APIs without the directive.
pub fn scan_app_directory(files: &Vec<SourceFile>) -> (r: ScanResult)
    ensures
        r@ == scan_of(file_views(files@)),
{
    let ghost fv = file_views(files@);
    let mut client_components: Vec<ScannedComponent> = Vec::new();
    let mut server_components: Vec<ScannedComponent> = Vec::new();
    let mut pages: Vec<ScannedComponent> = Vec::new();
    let mut layouts: Vec<ScannedComponent> = Vec::new();
    let mut api_routes: Vec<ScannedComponent> = Vec::new();
    let mut errors: Vec<ServerComponentError> = Vec::new();
    let mut total_files: usize = 0;
    let mut i: usize = 0;
    assert(fv.take(0) =~= Seq::<FileView>::empty());
    while i < files.len()
        invariant
            fv == file_views(files@),
            i <= files@.len(),
            total_files <= i,
            total_files == scanned(fv.take(i as int)).len(),
            component_views(client_components@) == select(
                scanned(fv.take(i as int)),
                Selection::Client,
            ),
            component_views(server_components@) == select(
                scanned(fv.take(i as int)),
                Selection::Server,
            ),
            component_views(pages@) == select(scanned(fv.take(i as int)), Selection::Page),
            component_views(layouts@) == select(scanned(fv.take(i as int)), Selection::Layout),
            component_views(api_routes@) == select(
                scanned(fv.take(i as int)),
                Selection::ApiRoute,
            ),
            error_views(errors@) == boundary_errors(scanned(fv.take(i as int))),
        decreases files@.len() - i,
    {
        let ghost cs = scanned(fv.take(i as int));
        let file = &files[i];
        assert(fv.take(i + 1).drop_last() =~= fv.take(i as int));
        assert(fv.take(i + 1).last() == file@);
        if is_source_file(file.file_name.as_str()) {
            let c = scan_file(file);
            assert(scanned(fv.take(i + 1)) == cs.push(c@));
            assert(cs.push(c@).drop_last() =~= cs);
            if !c.is_client && c.client_hooks_used.len() > 0 {
                let ghost before = errors@;
                errors.push(boundary_error(&c));
                assert(error_views(errors@) =~= error_views(before).push(error_of(c@)));
            }
            let is_route = c.component_type == ComponentType::Route;
            let is_page = c.component_type == ComponentType::Page;
            let is_layout = c.component_type == ComponentType::Layout;
            push_if_selected(
                &mut client_components,
                &c,
                c.is_client && !is_route,
                Ghost(cs),
                Ghost(Selection::Client),
            );
            push_if_selected(
                &mut server_components,
                &c,
                !c.is_client && !is_route,
                Ghost(cs),
                Ghost(Selection::Server),
            );
            push_if_selected(&mut pages, &c, is_page, Ghost(cs), Ghost(Selection::Page));
            push_if_selected(&mut layouts, &c, is_layout, Ghost(cs), Ghost(Selection::Layout));
            push_if_selected(&mut api_routes, &c, is_route, Ghost(cs), Ghost(Selection::ApiRoute));
            total_files = total_files + 1;
        } else {
            assert(scanned(fv.take(i + 1)) == cs);
        }
        i = i + 1;
    }
    assert(fv.take(files@.len() as int) =~= fv);
    ScanResult {
        client_components,
        server_components,
        pages,
        layouts,
        api_routes,
        errors,
        total_files,
        scan_time_ms: 0,
    }
}

// ---------------------------------------------------------------------------
// The boundary check

proof fn lemma_scanned_contains(files: Seq<FileView>, k: int)
    requires
        0 <= k < files.len(),
        has_script_extension(files[k].file_name),
    ensures
        scanned(files).contains(component_of(files[k])),
    decreases files.len(),
{
    if k == files.len() - 1 {
        assert(scanned(files).last() == component_of(files[k]));
    } else {
        let rest = files.drop_last();
        assert(rest[k] == files[k]);
        lemma_scanned_contains(rest, k);
        let j = choose|j: int| 0 <= j < scanned(rest).len() && scanned(rest)[j] == component_of(
            files[k],
        );
        assert(scanned(files)[j] == component_of(files[k]));
    }
}

proof fn lemma_select_contains(cs: Seq<ComponentView>, c: ComponentView, s: Selection)
    requires
        cs.contains(c),
        selected(c, s),
    ensures
        select(cs, s).contains(c),
    decreases cs.len(),
{
    if cs.last() == c {
        assert(select(cs, s).last() == c);
    } else {
        let rest = cs.drop_last();
        let i = choose|i: int| 0 <= i < cs.len() && cs[i] == c;
        assert(rest[i] == c);
        lemma_select_contains(rest, c, s);
        let j = choose|j: int| 0 <= j < select(rest, s).len() && select(rest, s)[j] == c;
        assert(select(cs, s)[j] == c);
    }
}

proof fn lemma_errors_contain(cs: Seq<ComponentView>, c: ComponentView)
    requires
        cs.contains(c),
        violates_boundary(c),
    ensures
        boundary_errors(cs).contains(error_of(c)),
    decreases cs.len(),
{
    if cs.last() == c {
        assert(boundary_errors(cs).last() == error_of(c));
    } else {
        let rest = cs.drop_last();
        let i = choose|i: int| 0 <= i < cs.len() && cs[i] == c;
        assert(rest[i] == c);
        lemma_errors_contain(rest, c);
        let j = choose|j: int|
            0 <= j < boundary_errors(rest).len() && boundary_errors(rest)[j] == error_of(c);
        assert(boundary_errors(cs)[j] == error_of(c));
    }
}

proof fn lemma_used_names_contain(src: Seq<char>, names: Seq<Seq<char>>, n: int, j: int)
    requires
        0 <= j < n <= names.len(),
        used_as_call(src, names[j]),
    ensures
        used_names_upto(src, names, n).contains(names[j]),
    decreases n,
{
    if j == n - 1 {
        assert(used_names_upto(src, names, n).last() == names[j]);
    } else {
        lemma_used_names_contain(src, names, n - 1, j);
        let prev = used_names_upto(src, names, n - 1);
        let i = choose|i: int| 0 <= i < prev.len() && prev[i] == names[j];
        assert(used_names_upto(src, names, n)[i] == names[j]);
    }
}

proof fn lemma_select_membership(cs: Seq<ComponentView>, c: ComponentView, s: Selection)
    ensures
        select(cs, s).contains(c) <==> cs.contains(c) && selected(c, s),
    decreases cs.len(),
{
    if cs.len() > 0 {
        let rest = cs.drop_last();
        lemma_select_membership(rest, c, s);
        if select(cs, s).contains(c) {
            let j = choose|j: int| 0 <= j < select(cs, s).len() && select(cs, s)[j] == c;
            if j < select(rest, s).len() {
                assert(select(rest, s)[j] == c);
                let i = choose|i: int| 0 <= i < rest.len() && rest[i] == c;
                assert(cs[i] == c);
            } else {
                assert(cs[cs.len() - 1] == c);
            }
        }
        if cs.contains(c) && selected(c, s) {
            lemma_select_contains(cs, c, s);
        }
    }
}

/// The classification views partition the scanned components: each is a
/// client component or else a server component or an API route, and no
/// server component is an API route.
pub proof fn classification_partitions(files: Seq<FileView>, c: ComponentView)
    requires
        scanned(files).contains(c),
    ensures
        ({
            let scan = scan_of(files);
            &&& scan.client_components.contains(c) != (scan.server_components.contains(c)
                || scan.api_routes.contains(c))
            &&& !(scan.server_components.contains(c) && scan.api_routes.contains(c))
        }),
{
    let cs = scanned(files);
    lemma_select_membership(cs, c, Selection::Client);
    lemma_select_membership(cs, c, Selection::Server);
    lemma_select_membership(cs, c, Selection::ApiRoute);
}

/// A file without the client directive that calls `useState` and sets an
/// `onClick` handler is reported: the scan holds an error for its path
/// whose hooks include `useState` and `event handlers`. It is not listed
/// among the client components and, unless it is an API route, it is listed
/// among the server components.
pub proof fn boundary_violation_reported(files: Seq<FileView>, k: int)
    requires
        0 <= k < files.len(),
        has_script_extension(files[k].file_name),
        !is_client_source(files[k].source),
        contains(files[k].source, "useState("@),
        contains(files[k].source, "onClick="@),
    ensures
        ({
            let c = component_of(files[k]);
            let scan = scan_of(files);
            &&& exists|j: int|
                0 <= j < scan.errors.len() && (#[trigger] scan.errors[j]).file == c.relative_path
                    && scan.errors[j].hooks.contains("useState"@) && scan.errors[j].hooks.contains(
                    "event handlers"@,
                )
            &&& !scan.client_components.contains(c)
            &&& c.component_type != ComponentType::Route ==> scan.server_components.contains(c)
        }),
{
    let f = files[k];
    let c = component_of(f);
    let src = f.source;
    reveal_strlit("useState");
    reveal_strlit("useState(");
    assert("useState"@.push('(') =~= "useState("@);
    assert(client_api_names()[0] == "useState"@);
    assert(used_as_call(src, client_api_names()[0]));
    lemma_used_names_contain(src, client_api_names(), client_api_names().len() as int, 0);
    let used = used_names_upto(src, client_api_names(), client_api_names().len() as int);
    assert(uses_event_handler(src));
    assert(c.client_hooks_used == used.push("event handlers"@));
    let iu = choose|i: int| 0 <= i < used.len() && used[i] == "useState"@;
    assert(c.client_hooks_used[iu] == "useState"@);
    assert(c.client_hooks_used[used.len() as int] == "event handlers"@);
    assert(c.client_hooks_used.contains("useState"@));
    assert(c.client_hooks_used.contains("event handlers"@));
    assert(violates_boundary(c));
    lemma_scanned_contains(files, k);
    let cs = scanned(files);
    lemma_errors_contain(cs, c);
    let errs = boundary_errors(cs);
    let j = choose|j: int| 0 <= j < errs.len() && errs[j] == error_of(c);
    assert(scan_of(files).errors[j] == error_of(c));
    lemma_select_membership(cs, c, Selection::Client);
    if c.component_type != ComponentType::Route {
        lemma_select_contains(cs, c, Selection::Server);
    }
}

} // verus!
