use vista_transforms::{get_route_tree, DirFile, DirListing};

fn dir(name: &str, files: &[&str], subdirs: Vec<DirListing>) -> DirListing {
    DirListing {
        name: name.to_string(),
        files: files
            .iter()
            .map(|f| DirFile { file_name: f.to_string(), full_path: format!("/{}/{}", name, f) })
            .collect(),
        subdirs,
    }
}

#[test]
fn route_tree_classifies_sorts_and_prunes() {
    let root = dir(
        "app",
        &["page.tsx", "layout.tsx", "styles.css"],
        vec![
            dir("[slug]", &["page.tsx"], vec![]),
            dir("zeta", &["index.js"], vec![]),
            dir("(group)", &["layout.jsx"], vec![]),
            dir("alpha", &["page.ts"], vec![]),
            dir("empty", &["util.ts"], vec![]),
            dir("[...all]", &["page.tsx"], vec![]),
            dir("node_modules", &["page.tsx"], vec![]),
            dir(".hidden", &["page.tsx"], vec![]),
        ],
    );
    let tree = get_route_tree(&root);
    assert_eq!(tree.segment, "");
    assert_eq!(tree.kind, "static");
    assert_eq!(tree.index_path, Some("/app/page.tsx".to_string()));
    assert_eq!(tree.layout_path, Some("/app/layout.tsx".to_string()));
    let kids: Vec<(String, String)> = tree.children.iter().map(|c| (c.kind.clone(), c.segment.clone())).collect();
    assert_eq!(
        kids,
        vec![
            ("static".to_string(), "alpha".to_string()),
            ("static".to_string(), "zeta".to_string()),
            ("dynamic".to_string(), "slug".to_string()),
            ("group".to_string(), "".to_string()),
            ("catch-all".to_string(), "all".to_string()),
        ]
    );
    assert_eq!(tree.children[1].index_path, Some("/zeta/index.js".to_string()));
}

#[test]
fn route_tree_special_files() {
    let root = dir(
        "app",
        &["loading.tsx", "error.js", "not-found.jsx", "root.ts", "page.tsx", "index.tsx"],
        vec![dir("nested", &[], vec![dir("deep", &["page.tsx"], vec![])])],
    );
    let tree = get_route_tree(&root);
    assert_eq!(tree.loading_path, Some("/app/loading.tsx".to_string()));
    assert_eq!(tree.error_path, Some("/app/error.js".to_string()));
    assert_eq!(tree.not_found_path, Some("/app/not-found.jsx".to_string()));
    assert_eq!(tree.layout_path, Some("/app/root.ts".to_string()));
    assert_eq!(tree.index_path, Some("/app/index.tsx".to_string()));
    assert_eq!(tree.children.len(), 1);
    assert_eq!(tree.children[0].segment, "nested");
    assert_eq!(tree.children[0].children[0].segment, "deep");
}
