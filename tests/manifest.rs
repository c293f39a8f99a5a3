use vista_transforms::{
    build_url_pattern, generate_chunk_name, generate_client_manifest, generate_module_id,
    generate_server_manifest, rsc_generate_client_manifest, rsc_generate_server_manifest,
    SourceFile,
};

fn file(rel: &str, source: &str) -> SourceFile {
    let name = rel.rsplit('/').next().unwrap().to_string();
    SourceFile {
        absolute_path: format!("/app/{}", rel),
        relative_path: rel.to_string(),
        file_name: name,
        source: source.to_string(),
    }
}

#[test]
fn test_build_url_pattern() {
    assert_eq!(build_url_pattern("page.tsx"), ("/".to_string(), "static".to_string()));
    assert_eq!(build_url_pattern("blog/page.tsx"), ("/blog".to_string(), "static".to_string()));
    assert_eq!(build_url_pattern("blog/[slug]/page.tsx"), ("/blog/:slug".to_string(), "dynamic".to_string()));
    assert_eq!(build_url_pattern("docs/[...path]/page.tsx"), ("/docs/:path*".to_string(), "catch-all".to_string()));
    assert_eq!(build_url_pattern("(marketing)/about/page.tsx"), ("/about".to_string(), "static".to_string()));
}

#[test]
fn test_generate_chunk_name() {
    assert_eq!(generate_chunk_name("components/Button.tsx"), "components_button");
    assert_eq!(generate_chunk_name("app/blog/[slug]/page.tsx"), "app_blog__slug__page");
}

#[test]
fn url_patterns_mixed_segments() {
    assert_eq!(build_url_pattern("./page.tsx"), ("/".to_string(), "static".to_string()));
    assert_eq!(build_url_pattern("(a)/(b)/page.tsx"), ("/".to_string(), "static".to_string()));
    assert_eq!(
        build_url_pattern("shop/[...rest]/[id]/page.tsx"),
        ("/shop/:rest*/:id".to_string(), "catch-all".to_string())
    );
    assert_eq!(
        build_url_pattern("[lang]\\docs/page.tsx"),
        ("/:lang/docs".to_string(), "dynamic".to_string())
    );
    assert_eq!(build_url_pattern("[...]/page.tsx"), ("/:*".to_string(), "catch-all".to_string()));
}

#[test]
fn chunk_names_and_module_ids() {
    assert_eq!(generate_chunk_name("a\\B.ts"), "a_b");
    assert_eq!(generate_chunk_name("x.ts.ts"), "x_ts");
    assert_eq!(generate_module_id("a.ts.ts", true), "client:a.ts");
    assert_eq!(generate_chunk_name("a.js.tsx"), "a_js");
    assert_eq!(generate_chunk_name("Ünï/Ä-1.jsx"), "Ünï_Ä_1");
    assert_eq!(generate_module_id("components/Button.tsx", true), "client:components/Button");
    assert_eq!(generate_module_id("blog\\page.js", false), "server:blog/page");
}

#[test]
fn route_sorting_by_kind_then_pattern() {
    let files = vec![
        file("docs/[...path]/page.tsx", ""),
        file("zeta/page.tsx", ""),
        file("blog/[slug]/page.tsx", ""),
        file("about/page.tsx", ""),
    ];
    let m = generate_server_manifest(&files, "b1");
    let got: Vec<(String, String)> = m
        .routes
        .iter()
        .map(|r| (r.pattern.clone(), r.route_type.clone()))
        .collect();
    assert_eq!(
        got,
        vec![
            ("/about".to_string(), "static".to_string()),
            ("/zeta".to_string(), "static".to_string()),
            ("/blog/:slug".to_string(), "dynamic".to_string()),
            ("/docs/:path*".to_string(), "catch-all".to_string()),
        ]
    );
}

#[test]
fn layout_chain_root_first() {
    let files = vec![
        file("blog/[slug]/page.tsx", ""),
        file("blog/layout.tsx", ""),
        file("layout.tsx", ""),
        file("other/layout.tsx", ""),
    ];
    let m = generate_server_manifest(&files, "b");
    assert_eq!(m.routes.len(), 1);
    assert_eq!(m.routes[0].layout_paths, vec!["/app/layout.tsx", "/app/blog/layout.tsx"]);
    assert_eq!(m.routes[0].page_path, "/app/blog/[slug]/page.tsx");
    assert!(m.routes[0].loading_path.is_none());
    assert!(m.routes[0].error_path.is_none());
}

#[test]
fn client_manifest_tables() {
    let files = vec![
        file("components/Button.tsx", "'client load';\nexport default function B() {}"),
        file("page.tsx", "export default function P() {}"),
    ];
    let m = generate_client_manifest(&files, "build-7");
    assert_eq!(m.build_id, "build-7");
    assert_eq!(m.client_modules.len(), 1);
    let e = &m.client_modules[0];
    assert_eq!(e.id, "client:components/Button");
    assert_eq!(e.chunk_name, "components_button");
    assert_eq!(e.exports, vec!["default"]);
    assert!(!e.async_load);
    assert_eq!(
        m.path_to_id,
        vec![
            ("components/Button.tsx".to_string(), "client:components/Button".to_string()),
            ("/app/components/Button.tsx".to_string(), "client:components/Button".to_string()),
        ]
    );
    assert_eq!(
        m.ssr_module_mapping,
        vec![(
            "/app/components/Button.tsx".to_string(),
            "/_vista/static/chunks/components_button.js".to_string()
        )]
    );
}

#[test]
fn same_identifier_replaces_in_place() {
    let files = vec![
        file("a.ts", "'client load'\nexport const x = 1;"),
        file("b.tsx", "'client load'"),
        file("a.tsx", "'client load'\nexport const y = 1;"),
    ];
    let m = generate_client_manifest(&files, "b");
    assert_eq!(m.client_modules.len(), 2);
    assert_eq!(m.client_modules[0].id, "client:a");
    assert_eq!(m.client_modules[0].path, "a.tsx");
    assert_eq!(m.client_modules[0].exports, vec!["y"]);
}

#[test]
fn server_manifest_entries() {
    let files = vec![
        file("page.tsx", "export const metadata = {};"),
        file("api/route.ts", "export function GET() {}"),
    ];
    let m = generate_server_manifest(&files, "b");
    assert_eq!(m.server_modules.len(), 1);
    let e = &m.server_modules[0];
    assert_eq!(e.id, "server:page");
    assert_eq!(e.component_type, "page");
    assert!(e.has_metadata);
    assert!(!e.has_generate_metadata);
    assert!(e.client_dependencies.is_empty());
    assert_eq!(m.path_to_id.len(), 2);
}

#[test]
fn manifests_are_idempotent() {
    let files = vec![
        file("components/Nav.tsx", "'client load'"),
        file("blog/[slug]/page.tsx", ""),
        file("page.tsx", ""),
    ];
    let a = generate_client_manifest(&files, "same");
    let b = generate_client_manifest(&files, "same");
    let ids_a: Vec<(String, String)> = a.client_modules.iter().map(|e| (e.id.clone(), e.chunk_name.clone())).collect();
    let ids_b: Vec<(String, String)> = b.client_modules.iter().map(|e| (e.id.clone(), e.chunk_name.clone())).collect();
    assert_eq!(ids_a, ids_b);
    let s1 = generate_server_manifest(&files, "same");
    let s2 = generate_server_manifest(&files, "same");
    let sa: Vec<String> = s1.server_modules.iter().map(|e| e.id.clone()).collect();
    let sb: Vec<String> = s2.server_modules.iter().map(|e| e.id.clone()).collect();
    assert_eq!(sa, sb);
    let ra: Vec<String> = s1.routes.iter().map(|r| r.pattern.clone()).collect();
    let rb: Vec<String> = s2.routes.iter().map(|r| r.pattern.clone()).collect();
    assert_eq!(ra, rb);
}

#[test]
fn host_manifests() {
    let files = vec![
        file("components/Nav.tsx", "'client load'"),
        file("page.tsx", ""),
    ];
    let c = rsc_generate_client_manifest(&files, "b");
    assert_eq!(c.client_modules.len(), 1);
    assert_eq!(c.client_modules[0].chunk_name, "components_nav");
    let s = rsc_generate_server_manifest(&files, "b");
    assert_eq!(s.routes.len(), 1);
    assert_eq!(s.routes[0].pattern, "/");
    assert_eq!(s.server_modules[0].id, "server:page");
}

#[test]
fn route_sorting_literal_pages() {
    let files = vec![
        file("docs/[...path]/page.tsx", ""),
        file("blog/page.tsx", ""),
        file("blog/[slug]/page.tsx", ""),
        file("about/page.tsx", ""),
    ];
    let m = generate_server_manifest(&files, "b");
    let got: Vec<(String, String)> = m.routes.iter().map(|r| (r.pattern.clone(), r.route_type.clone())).collect();
    assert_eq!(
        got,
        vec![
            ("/about".to_string(), "static".to_string()),
            ("/blog".to_string(), "static".to_string()),
            ("/blog/:slug".to_string(), "dynamic".to_string()),
            ("/docs/:path*".to_string(), "catch-all".to_string()),
        ]
    );
}

#[test]
fn same_extension_paths_get_distinct_ids() {
    assert_ne!(generate_module_id("a.ts", true), generate_module_id("a.ts.ts", true));
    assert_ne!(generate_module_id("a.ts", true), generate_module_id("a.ts", false));
}

#[test]
fn group_directories_vanish() {
    assert_eq!(build_url_pattern("(shop)/cart/[id]/page.tsx"), build_url_pattern("cart/[id]/page.tsx"));
    assert_eq!(build_url_pattern("()/page.tsx"), build_url_pattern("page.tsx"));
    assert_eq!(build_url_pattern("(a)/docs/[...p]/page.tsx"), ("/docs/:p*".to_string(), "catch-all".to_string()));
}
