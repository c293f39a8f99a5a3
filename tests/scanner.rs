use vista_transforms::{
    analyze_metadata, detect_client_hooks, extract_exports, extract_identifier,
    has_generate_metadata, has_metadata_export, is_source_file, rsc_scan_app,
    scan_app_directory, scan_file, should_descend, ComponentType, SourceFile,
};

fn file(rel: &str, source: &str) -> SourceFile {
    let name = rel.rsplit('/').next().unwrap().to_string();
    SourceFile {
        absolute_path: format!("/app/{}", rel),
        relative_path: rel.to_string(),
        file_name: name,
        source: source.to_string(),
    }
}

#[test]
fn test_detect_client_hooks() {
    let source = r#"
            import { useState, useEffect } from 'react';
            
            export default function Counter() {
                const [count, setCount] = useState(0);
                useEffect(() => {}, []);
                return <div onClick={() => setCount(c => c + 1)}>{count}</div>;
            }
        "#;

    let hooks = detect_client_hooks(source);
    assert!(hooks.contains(&"useState".to_string()));
    assert!(hooks.contains(&"useEffect".to_string()));
    assert!(hooks.contains(&"event handlers".to_string()));
}

#[test]
fn test_extract_exports() {
    let source = r#"
            export const metadata = { title: 'Test' };
            export function generateMetadata() {}
            export default function Page() {}
        "#;

    let exports = extract_exports(source);
    assert!(exports.contains(&"default".to_string()));
    assert!(exports.contains(&"metadata".to_string()));
    assert!(exports.contains(&"generateMetadata".to_string()));
}

#[test]
fn test_component_type() {
    assert_eq!(ComponentType::from_filename("page"), ComponentType::Page);
    assert_eq!(ComponentType::from_filename("layout"), ComponentType::Layout);
    assert_eq!(ComponentType::from_filename("loading"), ComponentType::Loading);
    assert_eq!(ComponentType::from_filename("Button"), ComponentType::Component);
}

#[test]
fn component_types_by_name() {
    assert_eq!(ComponentType::from_filename("index"), ComponentType::Page);
    assert_eq!(ComponentType::from_filename("root"), ComponentType::Layout);
    assert_eq!(ComponentType::from_filename("error"), ComponentType::Error);
    assert_eq!(ComponentType::from_filename("not-found"), ComponentType::NotFound);
    assert_eq!(ComponentType::from_filename("route"), ComponentType::Route);
    assert_eq!(ComponentType::from_filename("Page"), ComponentType::Component);
    assert_eq!(ComponentType::NotFound.name(), "notfound");
    assert_eq!(ComponentType::Route.name(), "route");
}

#[test]
fn hooks_in_vocabulary_order() {
    let hooks = detect_client_hooks("memo(x); useRef<T>(); createContext(0); onSubmit={f}");
    assert_eq!(hooks, vec!["useRef", "createContext", "memo", "event handlers"]);
    assert!(detect_client_hooks("useState without call").is_empty());
}

#[test]
fn exports_in_line_order() {
    let src = "export async function load() {}\nexport class Store {}\n  export const x_1: number = 1;\nexport let y = 2;";
    assert_eq!(extract_exports(src), vec!["load", "Store", "x_1"]);
}

#[test]
fn identifier_after_keyword() {
    assert_eq!(extract_identifier("export const foo_Bar9 = 1", "const "), Some("foo_Bar9".to_string()));
    assert_eq!(extract_identifier("export const = 1", "const "), None);
    assert_eq!(extract_identifier("nothing here", "const "), None);
    assert_eq!(extract_identifier("export function naïve()", "function "), Some("naïve".to_string()));
}

#[test]
fn metadata_checks() {
    assert!(has_metadata_export("export let metadata = {}"));
    assert!(!has_metadata_export("export var metadata = {}"));
    assert!(has_generate_metadata("export async function generateMetadata() {}"));
    assert!(has_generate_metadata("export const generateMetadata = () => ({})"));
    assert!(!has_generate_metadata("function generateMetadata() {}"));
    let info = analyze_metadata("export const metadata = {}");
    assert!(info.has_static_metadata);
    assert!(!info.has_generate_metadata);
}

#[test]
fn walk_predicates() {
    assert!(is_source_file("page.tsx"));
    assert!(is_source_file("a.b.js"));
    assert!(!is_source_file("style.css"));
    assert!(!is_source_file(".ts"));
    assert!(!is_source_file("README"));
    assert!(should_descend("blog"));
    assert!(!should_descend(".git"));
    assert!(!should_descend("node_modules"));
}

#[test]
fn scan_file_normalizes_and_classifies() {
    let f = SourceFile {
        absolute_path: "C:\\app\\blog\\page.tsx".to_string(),
        relative_path: "blog\\page.tsx".to_string(),
        file_name: "page.tsx".to_string(),
        source: "'client load';\nexport default function P() {}".to_string(),
    };
    let c = scan_file(&f);
    assert_eq!(c.relative_path, "blog/page.tsx");
    assert_eq!(c.absolute_path, "C:\\app\\blog\\page.tsx");
    assert!(c.is_client);
    assert_eq!(c.directive_line, 1);
    assert_eq!(c.component_type, ComponentType::Page);
    assert_eq!(c.exports, vec!["default"]);
}

#[test]
fn boundary_violation_is_reported() {
    let files = vec![
        file("counter.tsx", "export default function C() { const [a, b] = useState(0); return <b onClick={f}/>; }"),
        file("ok.tsx", "'client load';\nuseState(1); <b onClick={g}/>"),
        file("notes.md", "useState("),
    ];
    let r = scan_app_directory(&files);
    assert_eq!(r.total_files, 2);
    assert_eq!(r.errors.len(), 1);
    let e = &r.errors[0];
    assert_eq!(e.file, "counter.tsx");
    assert!(e.hooks.contains(&"useState".to_string()));
    assert!(e.hooks.contains(&"event handlers".to_string()));
    assert_eq!(
        e.message,
        "Using useState, event handlers in a Server Component. Add 'client load' to make it a Client Component."
    );
    assert_eq!(r.server_components.len(), 1);
    assert_eq!(r.server_components[0].relative_path, "counter.tsx");
    assert_eq!(r.client_components.len(), 1);
    assert_eq!(r.client_components[0].relative_path, "ok.tsx");
    assert_eq!(r.scan_time_ms, 0);
}

#[test]
fn scan_classification_views() {
    let files = vec![
        file("layout.tsx", "export default function L() {}"),
        file("page.tsx", "export default function P() {}"),
        file("api/route.ts", "export async function GET() {}"),
        file("blog/page.jsx", "'client load'\nexport default 1"),
    ];
    let r = scan_app_directory(&files);
    assert_eq!(r.total_files, 4);
    assert_eq!(r.layouts.len(), 1);
    assert_eq!(r.pages.len(), 2);
    assert_eq!(r.api_routes.len(), 1);
    assert_eq!(r.client_components.len(), 1);
    assert_eq!(r.server_components.len(), 2);
    assert!(r.errors.is_empty());
    let host = rsc_scan_app(&files);
    assert_eq!(host.total_files, 4);
    assert_eq!(host.api_routes[0].component_type, "route");
    assert_eq!(host.pages[1].directive_line, 1);
}

#[test]
fn client_route_is_only_an_api_route() {
    let files = vec![file("api/route.ts", "'client load';\nexport function GET() {}")];
    let r = scan_app_directory(&files);
    assert_eq!(r.api_routes.len(), 1);
    assert!(r.client_components.is_empty());
    assert!(r.server_components.is_empty());
}
