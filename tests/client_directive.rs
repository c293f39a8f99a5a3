use vista_transforms::{
    analyze_client_directive, analyze_file, detect_client_directive_fast, has_client_directive,
    is_client_component, ClientDirectiveConfig, ClientDirectiveResult,
};

#[test]
fn test_has_client_directive() {
    assert!(has_client_directive("'client load';\nexport default function() {}"));
    assert!(has_client_directive("\"client load\";\nexport default function() {}"));
    assert!(has_client_directive("  'client load'\n"));
    assert!(!has_client_directive("export default function() {}"));
    // A line comment before the directive is passed over: the directive
    // stands on the first significant line.
    assert!(has_client_directive("// comment\n'client load'"));
}

#[test]
fn test_detect_fast() {
    let result = detect_client_directive_fast("'client load';\n");
    assert!(result.is_client);
    assert_eq!(result.directive_line, 1);

    let result2 = detect_client_directive_fast("\n\n'client load'\n");
    assert!(result2.is_client);
    assert_eq!(result2.directive_line, 3);
}

#[test]
fn test_analyze_exports() {
    let source = r#"
'client load';

export default function MyComponent() {
    return <div>Hello</div>;
}

export const helper = () => {};
export function utilFunc() {}
"#;
    let result = analyze_file(source);
    assert!(result.is_client);
    assert!(result.exports.contains(&"MyComponent".to_string()));
    assert!(result.exports.contains(&"helper".to_string()));
    assert!(result.exports.contains(&"utilFunc".to_string()));
}

#[test]
fn test_is_client() {
    assert!(is_client_component("'client load';\n"));
    assert!(!is_client_component("export default function() {}"));
}

#[test]
fn marker_after_code_line_is_not_client() {
    let src = "import x from 'y';\n'client load';\n";
    assert!(!has_client_directive(src));
    let r = detect_client_directive_fast(src);
    assert!(!r.is_client);
    assert_eq!(r.directive_line, 0);
}

#[test]
fn marker_after_comments_and_blanks_is_client() {
    let src = "\n   \n// header\n  // more\n\"client load\";\nexport default 1;";
    assert!(has_client_directive(src));
    let r = detect_client_directive_fast(src);
    assert!(r.is_client);
    assert_eq!(r.directive_line, 5);
}

#[test]
fn crlf_lines_are_trimmed() {
    let r = detect_client_directive_fast("\r\n// c\r\n'client load';\r\n");
    assert!(r.is_client);
    assert_eq!(r.directive_line, 3);
}

#[test]
fn empty_source_is_server() {
    assert!(!has_client_directive(""));
    let r = detect_client_directive_fast("");
    assert!(!r.is_client);
    assert_eq!(r.directive_line, 0);
    assert!(r.exports.is_empty());
}

#[test]
fn unquoted_marker_is_not_a_directive() {
    assert!(!has_client_directive("client load\n"));
    assert!(!has_client_directive("'client loads'"));
}

#[test]
fn analyze_file_lists_each_name_once() {
    let src = "export const a = 1;\nexport const a: number = 2;\nexport function b<T>() {}\nexport default function C(props) {}\n";
    let r = analyze_file(src);
    assert!(!r.is_client);
    let mut names = r.exports.clone();
    names.sort();
    assert_eq!(names, vec!["C".to_string(), "a".to_string(), "b".to_string()]);
}

#[test]
fn analyze_file_skips_empty_names() {
    let r = analyze_file("export function (x) {}\nexport const = 3;\n");
    assert!(r.exports.is_empty());
}

#[test]
fn config_names_the_marker() {
    assert_eq!(ClientDirectiveConfig::new().directive, "client load");
    let d = ClientDirectiveResult::default();
    assert!(!d.is_client);
    assert_eq!(d.directive_line, 0);
}

#[test]
fn host_directive_info() {
    let info = analyze_client_directive("\n'client load'");
    assert!(info.is_client);
    assert_eq!(info.directive_line, 2);
}
