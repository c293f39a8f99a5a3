//! Build-time analysis for a server-components web framework: client
//! directive detection, source scanning, route and manifest generation,
//! payload values and placeholder prerendering.

pub mod text;
pub mod table;
pub mod order;
pub mod client_directive;
pub mod paths;
pub mod scanner;
pub mod manifest;
pub mod route_tree;
pub mod serializer;
pub mod prerender;
pub mod bindings;

pub use bindings::{
    analyze_client_directive, analyze_metadata, convert_component, is_client_component,
    rsc_generate_client_manifest, rsc_generate_mount_id, rsc_generate_server_manifest,
    rsc_prerender_all_components, rsc_prerender_component, rsc_reset_mount_counter, rsc_scan_app,
    ClientDirectiveInfo, MetadataInfo, NapiClientManifest, NapiClientModuleEntry,
    NapiClientReference, NapiPrerenderedComponent, NapiRouteEntry, NapiScanResult,
    NapiScannedComponent, NapiServerComponentError, NapiServerManifest, NapiServerModuleEntry,
};
pub use client_directive::{
    analyze_file, detect_client_directive_fast, has_client_directive, ClientDirectiveConfig,
    ClientDirectiveResult,
};
pub use manifest::{
    build_url_pattern, generate_chunk_name, generate_client_manifest, generate_module_id,
    generate_server_manifest, ClientManifest, ClientModuleEntry, RouteEntry, ServerManifest,
    ServerModuleEntry,
};
pub use paths::{is_source_file, should_descend, SegmentKind};
pub use prerender::{
    extract_jsx_structure, find_matching_brace, generate_placeholder_html, is_prerender_source,
    parse_px_value,
    parse_style_object, prerender_all_client_components, prerender_client_component,
    ExtractedStyles, PrerenderedComponent,
};
pub use route_tree::{build_route_node, get_route_tree, DirFile, DirListing, RouteNode};
pub use scanner::{
    detect_client_hooks, extract_exports, extract_identifier, has_generate_metadata,
    has_metadata_export, scan_app_directory, scan_file, ComponentType, ScanResult,
    ScannedComponent, ServerComponentError, SourceFile,
};
pub use serializer::{
    create_client_reference, generate_hydration_script, generate_mount_id, reset_mount_counter,
    serialize_value, ClientReference, JsonValue, MountIdCounter, RSCPayload, RouteData,
    SerializedValue,
};
