use vista_transforms::{
    extract_jsx_structure, find_matching_brace, generate_placeholder_html, parse_px_value,
    parse_style_object, prerender_all_client_components, prerender_client_component,
    is_prerender_source, rsc_prerender_all_components, rsc_prerender_component, ExtractedStyles,
    SourceFile,
};

#[test]
fn test_parse_style_object() {
    let style = r#"
            padding: '20px',
            backgroundColor: '#1a1a2e',
            borderRadius: '12px'
        "#;

    let parsed = parse_style_object(style);
    // Values are trimmed and stripped of their quotes.
    assert_eq!(parsed.padding, Some("20px".to_string()));
    assert_eq!(parsed.background_color, Some("#1a1a2e".to_string()));
}

#[test]
fn style_object_keys_and_overrides() {
    let parsed = parse_style_object("\"color\": \"red\", margin: 0 auto, unknown: 1, color: blue, noColon");
    assert_eq!(parsed.color, Some("blue".to_string()));
    assert_eq!(parsed.margin, Some("0 auto".to_string()));
    assert_eq!(parsed.padding, None);
    let parsed = parse_style_object("fontSize: '1.5rem', gap: 8");
    assert_eq!(parsed.font_size, Some("1.5rem".to_string()));
    assert_eq!(parsed.gap, Some("8".to_string()));
}

#[test]
fn matching_brace() {
    assert_eq!(find_matching_brace("a{b}c}d"), Some(5));
    assert_eq!(find_matching_brace("}"), Some(0));
    assert_eq!(find_matching_brace("{{}"), None);
    assert_eq!(find_matching_brace(""), None);
}

#[test]
fn pixel_values() {
    assert_eq!(parse_px_value("20px"), Some(20));
    assert_eq!(parse_px_value("+5px"), Some(5));
    assert_eq!(parse_px_value("12pxpx"), Some(12));
    assert_eq!(parse_px_value("007"), Some(7));
    assert_eq!(parse_px_value("4294967295px"), Some(4294967295));
    assert_eq!(parse_px_value("4294967296px"), None);
    assert_eq!(parse_px_value("px"), None);
    assert_eq!(parse_px_value("-1px"), None);
    assert_eq!(parse_px_value("1.5px"), None);
    assert_eq!(parse_px_value("+"), None);
}

#[test]
fn placeholder_with_defaults() {
    let html = generate_placeholder_html(&ExtractedStyles::default(), 0, 0, 0);
    assert_eq!(
        html,
        "<div style=\"padding:20px;background-color:#1a1a2e;border-radius:12px;text-align:center;margin:20px 0;\"></div><style>@keyframes shimmer{0%{background-position:200% 0}100%{background-position:-200% 0}}</style>"
    );
}

#[test]
fn placeholder_blocks() {
    let mut styles = ExtractedStyles::default();
    styles.padding = Some("8px".to_string());
    let html = generate_placeholder_html(&styles, 1, 2, 3);
    assert!(html.starts_with("<div style=\"padding:8px;background-color:#1a1a2e;"));
    assert_eq!(html.matches("height:24px").count(), 1);
    assert_eq!(html.matches("height:48px").count(), 2);
    assert_eq!(html.matches("rgba(255,71,87,0.3) 25%").count(), 2);
    assert_eq!(html.matches("rgba(46,213,115,0.3) 25%").count(), 1);
    assert!(html.contains("<div style=\"display:flex;gap:10px;justify-content:center;\">"));
}

#[test]
fn jsx_structure_estimates() {
    let src = "'client load';\nexport default function C() { return (<div style={{ padding: '10px', textAlign: 'left' }}><h2>T</h2><p className=\"a\">x</p><div><button>a</button><button>b</button></div></div>); }";
    let (styles, html, height, width) = extract_jsx_structure(src);
    assert_eq!(styles.padding, Some("10px".to_string()));
    assert_eq!(styles.text_align, Some("left".to_string()));
    assert_eq!(height, 40 + 40 + 60 + 50 + 20);
    assert_eq!(width, None);
    assert!(html.contains("text-align:left;"));
}

#[test]
fn prerender_requires_directive_on_first_characters() {
    assert!(prerender_client_component("/app/C.tsx", "\n'client load';").is_none());
    assert!(prerender_client_component("/app/C.tsx", "export default 1").is_none());
    let c = prerender_client_component("/app/ui/Counter.tsx", "\"client load\";\n<div></div>").unwrap();
    assert_eq!(c.component_id, "client:Counter");
    assert_eq!(c.root_tag, "div");
    assert_eq!(c.estimated_height, 40);
    assert_eq!(c.estimated_width, None);
    let host = rsc_prerender_component("/app/ui/Counter.tsx", "'client load'").unwrap();
    assert_eq!(host.component_id, "client:Counter");
}

#[test]
fn prerender_all_keys_by_component() {
    let f = |path: &str, name: &str, src: &str| SourceFile {
        absolute_path: path.to_string(),
        relative_path: path.to_string(),
        file_name: name.to_string(),
        source: src.to_string(),
    };
    let files = vec![
        f("/a/Card.tsx", "Card.tsx", "'client load'\n<h2>"),
        f("/a/Card.ts", "Card.ts", "'client load'"),
        f("/b/Card.jsx", "Card.jsx", "'client load'\n<p x>"),
        f("/b/Other.jsx", "Other.jsx", "server"),
    ];
    let all = prerender_all_client_components(&files);
    assert_eq!(all.len(), 1);
    assert_eq!(all[0].component_id, "client:Card");
    assert_eq!(all[0].estimated_height, 100);
    let host = rsc_prerender_all_components(&files);
    assert_eq!(host.len(), 1);
    assert_eq!(host[0].0, "client:Card");
}

#[test]
fn prerender_sources_by_extension() {
    assert!(is_prerender_source("Card.tsx"));
    assert!(is_prerender_source("Card.jsx"));
    assert!(!is_prerender_source("Card.ts"));
    assert!(!is_prerender_source(".tsx"));
}
