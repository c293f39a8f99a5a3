//! The shapes the host runtime exchanges with the pipeline, and the
//! conversions into them.

use crate::client_directive::{
    detect_client_directive_fast, directive_line_of, has_client_directive, is_client_source,
};
use crate::manifest::{
    client_manifest_of, generate_client_manifest, generate_server_manifest, server_manifest_of,
    ClientEntryView, ClientModuleEntry, RouteEntry, RouteView, ServerEntryView, ServerModuleEntry,
};
use crate::prerender::{
    prerender_all_client_components, prerender_client_component, prerendered_all, prerendered_of,
    PrerenderView, PrerenderedComponent,
};
use crate::scanner::{
    component_type_name, component_views, error_views, exports_generate_metadata, exports_metadata,
    file_views, has_generate_metadata, has_metadata_export, scan_app_directory, scan_of,
    ComponentView, ErrorView, ScannedComponent, ServerComponentError, SourceFile,
};
use crate::serializer::{generate_mount_id, mount_id_of, reset_mount_counter, MountIdCounter};
use crate::text::{clone_strings, string_views};
use crate::table::table_views;
use vstd::prelude::*;

verus! {

/// Directive analysis as the host sees it.
#[derive(Debug, Clone)]
pub struct ClientDirectiveInfo {
    pub is_client: bool,
    pub directive_line: u32,
}

/// Metadata exports as the host sees them.
#[derive(Debug, Clone)]
pub struct MetadataInfo {
    pub has_static_metadata: bool,
    pub has_generate_metadata: bool,
}

/// Whether the source is a client component.
pub fn is_client_component(source: &str) -> (r: bool)
    ensures
        r == is_client_source(source@),
{
    has_client_directive(source)
}

/// The directive analysis of a source, its line cut to 32 bits.
pub fn analyze_client_directive(source: &str) -> (r: ClientDirectiveInfo)
    ensures
        r.is_client == is_client_source(source@),
        r.directive_line == directive_line_of(source@) as u32,
{
    let result = detect_client_directive_fast(source);
    ClientDirectiveInfo {
        is_client: result.is_client,
        directive_line: #[verifier::truncate] (result.directive_line as u32),
    }
}

/// Both metadata checks of a source.
pub fn analyze_metadata(source: &str) -> (r: MetadataInfo)
    ensures
        r.has_static_metadata == exports_metadata(source@),
        r.has_generate_metadata == exports_generate_metadata(source@),
{
    MetadataInfo {
        has_static_metadata: has_metadata_export(source),
        has_generate_metadata: has_generate_metadata(source),
    }
}

// ---------------------------------------------------------------------------
// Scans

/// A scanned component as the host sees it.
#[derive(Debug, Clone)]
pub struct NapiScannedComponent {
    pub absolute_path: String,
    pub relative_path: String,
    pub is_client: bool,
    pub directive_line: u32,
    /// Lower-case name of its kind.
    pub component_type: String,
    pub exports: Vec<String>,
    pub client_hooks_used: Vec<String>,
    pub has_metadata: bool,
    pub has_generate_metadata: bool,
}

pub struct HostComponentView {
    pub absolute_path: Seq<char>,
    pub relative_path: Seq<char>,
    pub is_client: bool,
    pub directive_line: u32,
    pub component_type: Seq<char>,
    pub exports: Seq<Seq<char>>,
    pub client_hooks_used: Seq<Seq<char>>,
    pub has_metadata: bool,
    pub has_generate_metadata: bool,
}

impl View for NapiScannedComponent {
    type V = HostComponentView;

    open spec fn view(&self) -> HostComponentView {
        HostComponentView {
            absolute_path: self.absolute_path@,
            relative_path: self.relative_path@,
            is_client: self.is_client,
            directive_line: self.directive_line,
            component_type: self.component_type@,
            exports: string_views(self.exports@),
            client_hooks_used: string_views(self.client_hooks_used@),
            has_metadata: self.has_metadata,
            has_generate_metadata: self.has_generate_metadata,
        }
    }
}

/// The host's view of a scanned component: its line cut to 32 bits, its
/// kind by name.
pub open spec fn host_component(c: ComponentView) -> HostComponentView {
    HostComponentView {
        absolute_path: c.absolute_path,
        relative_path: c.relative_path,
        is_client: c.is_client,
        directive_line: c.directive_line as u32,
        component_type: component_type_name(c.component_type),
        exports: c.exports,
        client_hooks_used: c.client_hooks_used,
        has_metadata: c.has_metadata,
        has_generate_metadata: c.has_generate_metadata,
    }
}

/// Converts a scanned component for the host.
pub fn convert_component(c: &ScannedComponent) -> (r: NapiScannedComponent)
    ensures
        r@ == host_component(c@),
{
    NapiScannedComponent {
        absolute_path: c.absolute_path.clone(),
        relative_path: c.relative_path.clone(),
        is_client: c.is_client,
        directive_line: #[verifier::truncate] (c.directive_line as u32),
        component_type: c.component_type.name(),
        exports: clone_strings(&c.exports),
        client_hooks_used: clone_strings(&c.client_hooks_used),
        has_metadata: c.has_metadata,
        has_generate_metadata: c.has_generate_metadata,
    }
}

pub open spec fn host_component_views(v: Seq<NapiScannedComponent>) -> Seq<HostComponentView> {
    v.map_values(|c: NapiScannedComponent| c@)
}

/// The host's views of scanned components.
pub open spec fn host_components(cs: Seq<ComponentView>) -> Seq<HostComponentView> {
    cs.map_values(|c: ComponentView| host_component(c))
}

fn convert_components(cs: &Vec<ScannedComponent>) -> (r: Vec<NapiScannedComponent>)
    ensures
        host_component_views(r@) == host_components(component_views(cs@)),
{
    let mut r: Vec<NapiScannedComponent> = Vec::new();
    let mut i: usize = 0;
    while i < cs.len()
        invariant
            i <= cs@.len(),
            host_component_views(r@) == host_components(component_views(cs@.take(i as int))),
        decreases cs@.len() - i,
    {
        let ghost before = r@;
        r.push(convert_component(&cs[i]));
        assert(host_components(component_views(cs@.take(i + 1))) =~= host_components(
            component_views(cs@.take(i as int)),
        ).push(host_component(cs@[i as int]@)));
        assert(host_component_views(r@) =~= host_component_views(before).push(r@[i as int]@));
        i = i + 1;
    }
    assert(cs@.take(cs@.len() as int) =~= cs@);
    r
}

/// A boundary violation as the host sees it.
#[derive(Debug, Clone)]
pub struct NapiServerComponentError {
    pub file: String,
    pub message: String,
    pub hooks: Vec<String>,
}

pub open spec fn host_error_views(v: Seq<NapiServerComponentError>) -> Seq<ErrorView> {
    v.map_values(|e: NapiServerComponentError| ErrorView { file: e.file@, message: e.message@, hooks: string_views(e.hooks@) })
}

fn convert_errors(es: &Vec<ServerComponentError>) -> (r: Vec<NapiServerComponentError>)
    ensures
        host_error_views(r@) == error_views(es@),
{
    let mut r: Vec<NapiServerComponentError> = Vec::new();
    let mut i: usize = 0;
    while i < es.len()
        invariant
            i <= es@.len(),
            host_error_views(r@) == error_views(es@.take(i as int)),
        decreases es@.len() - i,
    {
        let e = &es[i];
        let ghost before = r@;
        let converted = NapiServerComponentError {
            file: e.file.clone(),
            message: e.message.clone(),
            hooks: clone_strings(&e.hooks),
        };
        r.push(converted);
        assert(error_views(es@.take(i + 1)) =~= error_views(es@.take(i as int)).push(e@));
        assert(host_error_views(r@) =~= host_error_views(before).push(e@));
        i = i + 1;
    }
    assert(es@.take(es@.len() as int) =~= es@);
    r
}

/// A scan as the host sees it.
#[derive(Debug, Clone)]
pub struct NapiScanResult {
    pub client_components: Vec<NapiScannedComponent>,
    pub server_components: Vec<NapiScannedComponent>,
    pub pages: Vec<NapiScannedComponent>,
    pub layouts: Vec<NapiScannedComponent>,
    pub api_routes: Vec<NapiScannedComponent>,
    pub errors: Vec<NapiServerComponentError>,
    pub total_files: u32,
    /// Milliseconds; the scan leaves it 0 for the caller that timed it.
    pub scan_time_ms: u32,
}

/// Scans the source files of a route tree for the host.
pub fn rsc_scan_app(files: &Vec<SourceFile>) -> (r: NapiScanResult)
    ensures
        host_component_views(r.client_components@) == host_components(
            scan_of(file_views(files@)).client_components,
        ),
        host_component_views(r.server_components@) == host_components(
            scan_of(file_views(files@)).server_components,
        ),
        host_component_views(r.pages@) == host_components(scan_of(file_views(files@)).pages),
        host_component_views(r.layouts@) == host_components(scan_of(file_views(files@)).layouts),
        host_component_views(r.api_routes@) == host_components(
            scan_of(file_views(files@)).api_routes,
        ),
        host_error_views(r.errors@) == scan_of(file_views(files@)).errors,
        r.total_files == scan_of(file_views(files@)).total_files as u32,
        r.scan_time_ms == 0,
{
    let result = scan_app_directory(files);
    NapiScanResult {
        client_components: convert_components(&result.client_components),
        server_components: convert_components(&result.server_components),
        pages: convert_components(&result.pages),
        layouts: convert_components(&result.layouts),
        api_routes: convert_components(&result.api_routes),
        errors: convert_errors(&result.errors),
        total_files: #[verifier::truncate] (result.total_files as u32),
        scan_time_ms: 0,
    }
}

// ---------------------------------------------------------------------------
// Manifests

/// A client manifest entry as the host sees it.
#[derive(Debug, Clone)]
pub struct NapiClientModuleEntry {
    pub id: String,
    pub path: String,
    pub absolute_path: String,
    pub chunk_name: String,
    pub exports: Vec<String>,
    pub async_load: bool,
}

pub open spec fn host_client_entry_views(v: Seq<NapiClientModuleEntry>) -> Seq<ClientEntryView> {
    v.map_values(
        |e: NapiClientModuleEntry|
            ClientEntryView {
                id: e.id@,
                path: e.path@,
                absolute_path: e.absolute_path@,
                chunk_name: e.chunk_name@,
                exports: string_views(e.exports@),
                async_load: e.async_load,
            },
    )
}

/// The client manifest as the host sees it: its build and its modules.
#[derive(Debug, Clone)]
pub struct NapiClientManifest {
    pub build_id: String,
    pub client_modules: Vec<NapiClientModuleEntry>,
}

fn convert_client_entries(es: &Vec<ClientModuleEntry>) -> (r: Vec<NapiClientModuleEntry>)
    ensures
        host_client_entry_views(r@) == table_views(es@),
{
    let mut r: Vec<NapiClientModuleEntry> = Vec::new();
    let mut i: usize = 0;
    while i < es.len()
        invariant
            i <= es@.len(),
            host_client_entry_views(r@) == table_views(es@.take(i as int)),
        decreases es@.len() - i,
    {
        let e = &es[i];
        let ghost before = r@;
        r.push(
            NapiClientModuleEntry {
                id: e.id.clone(),
                path: e.path.clone(),
                absolute_path: e.absolute_path.clone(),
                chunk_name: e.chunk_name.clone(),
                exports: clone_strings(&e.exports),
                async_load: e.async_load,
            },
        );
        assert(table_views(es@.take(i + 1)) =~= table_views(es@.take(i as int)).push(
            e@,
        ));
        assert(host_client_entry_views(r@) =~= host_client_entry_views(before).push(e@));
        i = i + 1;
    }
    assert(es@.take(es@.len() as int) =~= es@);
    r
}

/// The client manifest of a route tree's source files, for the host.
pub fn rsc_generate_client_manifest(files: &Vec<SourceFile>, build_id: &str) -> (r:
    NapiClientManifest)
    ensures
        r.build_id@ == build_id@,
        host_client_entry_views(r.client_modules@) == client_manifest_of(
            scan_of(file_views(files@)).client_components,
            build_id@,
        ).client_modules,
{
    let manifest = generate_client_manifest(files, build_id);
    NapiClientManifest {
        build_id: manifest.build_id.clone(),
        client_modules: convert_client_entries(&manifest.client_modules),
    }
}

/// A route as the host sees it.
#[derive(Debug, Clone)]
pub struct NapiRouteEntry {
    pub pattern: String,
    pub page_path: String,
    pub layout_paths: Vec<String>,
    pub loading_path: Option<String>,
    pub error_path: Option<String>,
    pub route_type: String,
}

/// A server manifest entry as the host sees it.
#[derive(Debug, Clone)]
pub struct NapiServerModuleEntry {
    pub id: String,
    pub path: String,
    pub absolute_path: String,
    pub component_type: String,
    pub has_metadata: bool,
    pub has_generate_metadata: bool,
}

/// The server manifest as the host sees it.
#[derive(Debug, Clone)]
pub struct NapiServerManifest {
    pub build_id: String,
    pub server_modules: Vec<NapiServerModuleEntry>,
    pub routes: Vec<NapiRouteEntry>,
}

pub open spec fn host_route_views(v: Seq<NapiRouteEntry>) -> Seq<RouteView> {
    v.map_values(
        |e: NapiRouteEntry|
            RouteView {
                pattern: e.pattern@,
                page_path: e.page_path@,
                layout_paths: string_views(e.layout_paths@),
                loading_path: crate::text::opt_view(e.loading_path),
                error_path: crate::text::opt_view(e.error_path),
                route_type: e.route_type@,
            },
    )
}

/// What the host sees of a server entry: all but the dependencies.
pub open spec fn host_server_entry(e: ServerEntryView) -> (
    Seq<char>,
    Seq<char>,
    Seq<char>,
    Seq<char>,
    bool,
    bool,
) {
    (e.id, e.path, e.absolute_path, e.component_type, e.has_metadata, e.has_generate_metadata)
}

pub open spec fn host_server_entry_views(v: Seq<NapiServerModuleEntry>) -> Seq<
    (Seq<char>, Seq<char>, Seq<char>, Seq<char>, bool, bool),
> {
    v.map_values(
        |e: NapiServerModuleEntry|
            (
                e.id@,
                e.path@,
                e.absolute_path@,
                e.component_type@,
                e.has_metadata,
                e.has_generate_metadata,
            ),
    )
}

fn opt_copy(o: &Option<String>) -> (r: Option<String>)
    ensures
        crate::text::opt_view(r) == crate::text::opt_view(*o),
{
    match o {
        Some(s) => Some(s.clone()),
        None => None,
    }
}

fn convert_routes(rs: &Vec<RouteEntry>) -> (r: Vec<NapiRouteEntry>)
    ensures
        host_route_views(r@) == table_views(rs@),
{
    let mut r: Vec<NapiRouteEntry> = Vec::new();
    let mut i: usize = 0;
    while i < rs.len()
        invariant
            i <= rs@.len(),
            host_route_views(r@) == table_views(rs@.take(i as int)),
        decreases rs@.len() - i,
    {
        let e = &rs[i];
        let ghost before = r@;
        r.push(
            NapiRouteEntry {
                pattern: e.pattern.clone(),
                page_path: e.page_path.clone(),
                layout_paths: clone_strings(&e.layout_paths),
                loading_path: opt_copy(&e.loading_path),
                error_path: opt_copy(&e.error_path),
                route_type: e.route_type.clone(),
            },
        );
        assert(table_views(rs@.take(i + 1)) =~= table_views(rs@.take(i as int)).push(e@));
        assert(host_route_views(r@) =~= host_route_views(before).push(e@));
        i = i + 1;
    }
    assert(rs@.take(rs@.len() as int) =~= rs@);
    r
}

fn convert_server_entries(es: &Vec<ServerModuleEntry>) -> (r: Vec<NapiServerModuleEntry>)
    ensures
        host_server_entry_views(r@) == table_views(es@).map_values(
            |e: ServerEntryView| host_server_entry(e),
        ),
{
    let mut r: Vec<NapiServerModuleEntry> = Vec::new();
    let mut i: usize = 0;
    while i < es.len()
        invariant
            i <= es@.len(),
            host_server_entry_views(r@) == table_views(es@.take(i as int)).map_values(
                |e: ServerEntryView| host_server_entry(e),
            ),
        decreases es@.len() - i,
    {
        let e = &es[i];
        let ghost before = r@;
        r.push(
            NapiServerModuleEntry {
                id: e.id.clone(),
                path: e.path.clone(),
                absolute_path: e.absolute_path.clone(),
                component_type: e.component_type.clone(),
                has_metadata: e.has_metadata,
                has_generate_metadata: e.has_generate_metadata,
            },
        );
        assert(table_views(es@.take(i + 1)).map_values(
            |e: ServerEntryView| host_server_entry(e),
        ) =~= table_views(es@.take(i as int)).map_values(
            |e: ServerEntryView| host_server_entry(e),
        ).push(host_server_entry(e@)));
        assert(host_server_entry_views(r@) =~= host_server_entry_views(before).push(
            host_server_entry(e@),
        ));
        i = i + 1;
    }
    assert(es@.take(es@.len() as int) =~= es@);
    r
}

/// The server manifest of a route tree's source files, for the host.
pub fn rsc_generate_server_manifest(files: &Vec<SourceFile>, build_id: &str) -> (r:
    NapiServerManifest)
    ensures
        r.build_id@ == build_id@,
        host_server_entry_views(r.server_modules@) == server_manifest_of(
            scan_of(file_views(files@)),
            build_id@,
        ).server_modules.map_values(|e: ServerEntryView| host_server_entry(e)),
        host_route_views(r.routes@) == server_manifest_of(
            scan_of(file_views(files@)),
            build_id@,
        ).routes,
{
    let manifest = generate_server_manifest(files, build_id);
    NapiServerManifest {
        build_id: manifest.build_id.clone(),
        server_modules: convert_server_entries(&manifest.server_modules),
        routes: convert_routes(&manifest.routes),
    }
}

// ---------------------------------------------------------------------------
// Mount identifiers and placeholders

/// A client reference as the host sees it, without its props.
#[derive(Debug, Clone)]
pub struct NapiClientReference {
    pub id: String,
    pub mount_id: String,
    pub chunk_url: String,
    pub export_name: String,
}

/// The next mount identifier of the epoch, for the host.
pub fn rsc_generate_mount_id(counter: &mut MountIdCounter) -> (r: String)
    requires
        old(counter)@ < usize::MAX,
    ensures
        r@ == mount_id_of(old(counter)@),
        final(counter)@ == old(counter)@ + 1,
{
    generate_mount_id(counter)
}

/// Starts a new epoch of mount identifiers, for the host.
pub fn rsc_reset_mount_counter(counter: &mut MountIdCounter)
    ensures
        final(counter)@ == 0,
{
    reset_mount_counter(counter)
}

/// A placeholder as the host sees it.
#[derive(Debug, Clone)]
pub struct NapiPrerenderedComponent {
    pub component_id: String,
    pub placeholder_html: String,
    pub estimated_height: u32,
}

/// What the host sees of a placeholder.
pub open spec fn host_placeholder(c: PrerenderView) -> (Seq<char>, Seq<char>, u32) {
    (c.component_id, c.placeholder_html, c.estimated_height)
}

fn convert_prerendered(c: PrerenderedComponent) -> (r: NapiPrerenderedComponent)
    ensures
        (r.component_id@, r.placeholder_html@, r.estimated_height) == host_placeholder(c@),
{
    NapiPrerenderedComponent {
        component_id: c.component_id,
        placeholder_html: c.placeholder_html,
        estimated_height: c.estimated_height,
    }
}

/// Prerenders one client component for the host.
pub fn rsc_prerender_component(file_path: &str, content: &str) -> (r: Option<
    NapiPrerenderedComponent,
>)
    ensures
        r matches Some(c) ==> prerendered_of(file_path@, content@) matches Some(p) && (
            c.component_id@,
            c.placeholder_html@,
            c.estimated_height,
        ) == host_placeholder(p),
        r is None ==> prerendered_of(file_path@, content@) is None,
{
    match prerender_client_component(file_path, content) {
        Some(c) => Some(convert_prerendered(c)),
        None => None,
    }
}

pub open spec fn host_placeholder_views(v: Seq<(String, NapiPrerenderedComponent)>) -> Seq<
    (Seq<char>, (Seq<char>, Seq<char>, u32)),
> {
    v.map_values(
        |e: (String, NapiPrerenderedComponent)|
            (e.0@, (e.1.component_id@, e.1.placeholder_html@, e.1.estimated_height)),
    )
}

/// Prerenders the client components among a tree's files for the host,
/// each under its identifier.
pub fn rsc_prerender_all_components(files: &Vec<SourceFile>) -> (r: Vec<
    (String, NapiPrerenderedComponent),
>)
    ensures
        host_placeholder_views(r@) == prerendered_all(file_views(files@)).map_values(
            |c: PrerenderView| (c.component_id, host_placeholder(c)),
        ),
{
    let all = prerender_all_client_components(files);
    let ghost av = table_views(all@);
    let mut r: Vec<(String, NapiPrerenderedComponent)> = Vec::new();
    let mut i: usize = 0;
    while i < all.len()
        invariant
            av == table_views(all@),
            i <= all@.len(),
            host_placeholder_views(r@) == av.take(i as int).map_values(
                |c: PrerenderView| (c.component_id, host_placeholder(c)),
            ),
        decreases all@.len() - i,
    {
        let c = &all[i];
        let ghost before = r@;
        let converted = NapiPrerenderedComponent {
            component_id: c.component_id.clone(),
            placeholder_html: c.placeholder_html.clone(),
            estimated_height: c.estimated_height,
        };
        r.push((c.component_id.clone(), converted));
        assert(av.take(i + 1).map_values(|c: PrerenderView| (c.component_id, host_placeholder(c)))
            =~= av.take(i as int).map_values(
            |c: PrerenderView| (c.component_id, host_placeholder(c)),
        ).push((c@.component_id, host_placeholder(c@))));
        assert(host_placeholder_views(r@) =~= host_placeholder_views(before).push(
            (c@.component_id, host_placeholder(c@)),
        ));
        i = i + 1;
    }
    assert(av.take(all@.len() as int) =~= av);
    r
}

} // verus!
