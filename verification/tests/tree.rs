use lockpick::i18n::{I18n, Lang};
use lockpick::strmap::StrMap;
use lockpick::tree::render::{render, sanitize_id, TreeFormat};
use lockpick::tree::DepTree;
use lockpick::tui::app::App;
use lockpick::tui::tree_state::{tree_title, TreeState};
use lockpick::{DepEdge, DependencyGraph, LockfileType, PackageInfo};

fn edge(name: &str, version: &str) -> DepEdge {
    DepEdge { name: name.into(), version: version.into() }
}

fn make_test_graph() -> DependencyGraph {
    let mut deps = StrMap::new();
    deps.insert(
        "react".into(),
        PackageInfo { name: "react".into(), version: "18.2.0".into(), integrity: None },
    );
    let mut dep_edges = StrMap::new();
    dep_edges.insert("react@18.2.0".into(), vec![edge("loose-envify", "1.4.0")]);
    dep_edges.insert("loose-envify@1.4.0".into(), vec![edge("js-tokens", "4.0.0")]);
    DependencyGraph {
        dependencies: deps,
        dev_dependencies: StrMap::new(),
        lockfile_type: LockfileType::Pnpm,
        all_packages: StrMap::new(),
        dep_edges,
    }
}

fn en() -> I18n {
    I18n { lang: Lang::En }
}

#[test]
fn test_from_graph_builds_tree() {
    let graph = make_test_graph();
    let tree = DepTree::from_graph(&graph);
    assert_eq!(tree.roots.len(), 1);
    assert_eq!(tree.roots[0].name, "react");
    assert_eq!(tree.roots[0].children.len(), 1);
    assert_eq!(tree.roots[0].children[0].name, "loose-envify");
    let leaf = &tree.roots[0].children[0].children[0];
    assert_eq!(leaf.name, "js-tokens");
    assert!(leaf.children.is_empty());
}

#[test]
fn test_focus_filters_tree() {
    let graph = make_test_graph();
    let tree = DepTree::from_graph(&graph);
    let focused = tree.focus("js-tokens");
    assert_eq!(focused.roots.len(), 1);
    assert_eq!(focused.roots[0].name, "react");
    let leaf = &focused.roots[0].children[0].children[0];
    assert_eq!(leaf.name, "js-tokens");
}

#[test]
fn test_focus_nonexistent_returns_empty() {
    let graph = make_test_graph();
    let tree = DepTree::from_graph(&graph);
    let focused = tree.focus("nonexistent-pkg");
    assert!(focused.roots.is_empty());
}

#[test]
fn test_circular_dependency_detected() {
    let mut graph = make_test_graph();
    graph.dep_edges.insert("js-tokens@4.0.0".into(), vec![edge("react", "18.2.0")]);
    let tree = DepTree::from_graph(&graph);
    let circular_node = &tree.roots[0].children[0].children[0].children[0];
    assert!(circular_node.circular);
    assert_eq!(circular_node.name, "react");
    assert!(circular_node.children.is_empty());
}

#[test]
fn test_depth_limit_stops_expansion() {
    let graph = make_test_graph();
    let tree = DepTree::from_graph_with_depth(&graph, Some(1));
    assert_eq!(tree.roots[0].children.len(), 1);
    assert!(tree.roots[0].children[0].children.is_empty());
    assert!(!tree.roots[0].children[0].circular);
}

#[test]
fn test_roots_sorted_prod_before_dev() {
    let mut graph = make_test_graph();
    graph.dependencies.insert(
        "abc".into(),
        PackageInfo { name: "abc".into(), version: "1.0.0".into(), integrity: None },
    );
    graph.dev_dependencies.insert(
        "abc".into(),
        PackageInfo { name: "abc".into(), version: "2.0.0".into(), integrity: None },
    );
    let tree = DepTree::from_graph(&graph);
    let labels: Vec<(String, String)> =
        tree.roots.iter().map(|r| (r.name.clone(), r.version.clone())).collect();
    assert_eq!(
        labels,
        vec![
            ("abc".to_string(), "1.0.0".to_string()),
            ("abc".to_string(), "2.0.0".to_string()),
            ("react".to_string(), "18.2.0".to_string())
        ]
    );
}

#[test]
fn test_terminal_render() {
    let graph = make_test_graph();
    let tree = DepTree::from_graph(&graph);
    let out = render(&tree, &TreeFormat::Terminal, &en()).unwrap();
    assert!(out.contains("react@18.2.0"));
    assert!(out.contains("└── ") || out.contains("├── "));
    assert!(out.contains("js-tokens@4.0.0"));
}

#[test]
fn test_terminal_render_exact() {
    let graph = make_test_graph();
    let tree = DepTree::from_graph(&graph);
    let out = render(&tree, &TreeFormat::Terminal, &en()).unwrap();
    assert_eq!(
        out,
        "└── react@18.2.0\n    └── loose-envify@1.4.0\n        └── js-tokens@4.0.0\n"
    );
}

#[test]
fn test_dot_render() {
    let graph = make_test_graph();
    let tree = DepTree::from_graph(&graph);
    let out = render(&tree, &TreeFormat::Dot, &en()).unwrap();
    assert!(out.starts_with("digraph dependencies {"));
    assert!(out.contains("\"react@18.2.0\" -> \"loose-envify@1.4.0\""));
    assert!(out.contains("\"loose-envify@1.4.0\" -> \"js-tokens@4.0.0\""));
}

#[test]
fn test_mermaid_render() {
    let graph = make_test_graph();
    let tree = DepTree::from_graph(&graph);
    let out = render(&tree, &TreeFormat::Mermaid, &en()).unwrap();
    assert!(out.starts_with("graph LR"));
    assert!(out.contains("-->"));
    assert!(out.contains("  react_18_2_0[\"react@18.2.0\"] --> loose-envify_1_4_0[\"loose-envify@1.4.0\"]\n"));
}

#[test]
fn test_json_render_left_to_caller() {
    let graph = make_test_graph();
    let tree = DepTree::from_graph(&graph);
    assert!(render(&tree, &TreeFormat::Json, &en()).is_none());
}

#[test]
fn test_sanitize_id() {
    assert_eq!(sanitize_id("react@18.2.0"), "react_18_2_0");
    assert_eq!(sanitize_id("@scope/pkg@1.0.0"), "_scope_pkg_1_0_0");
}

fn node(name: &str, version: &str, children: Vec<lockpick::tree::TreeNode>, circular: bool) -> lockpick::tree::TreeNode {
    lockpick::tree::TreeNode {
        name: name.into(),
        version: version.into(),
        dep_type: lockpick::DepType::Prod,
        children,
        circular,
    }
}

#[test]
fn tree_items_mark_duplicates_and_cycles() {
    let tree = DepTree {
        roots: vec![
            node("a", "1.0.0", vec![node("c", "1.0.0", vec![], false), node("a", "1.0.0", vec![], true)], false),
            node("c", "2.0.0", vec![], false),
        ],
    };
    let items = lockpick::tui::tree_items::tree_items(&tree);
    assert_eq!(items.len(), 2);
    assert_eq!(items[0].id, "0");
    assert_eq!(items[0].label, "a 1.0.0 [DUP]");
    assert_eq!(items[0].children[0].id, "0/0");
    assert_eq!(items[0].children[0].label, "c 1.0.0 [DUP]");
    assert_eq!(items[0].children[1].label, "a 1.0.0 (circular)");
    assert_eq!(items[1].id, "1");
    assert_eq!(items[1].label, "c 2.0.0 [DUP]");
    let single = DepTree { roots: vec![node("b", "3.1.4", vec![], false)] };
    assert_eq!(lockpick::tui::tree_items::tree_items(&single)[0].label, "b 3.1.4");
}

#[test]
fn tree_title_shows_the_search_query() {
    assert_eq!(tree_title(None), "🌲 Dependency Tree");
    let mut state = TreeState::new();
    assert!(state.duplicate_packages.is_empty());
    assert_eq!(tree_title(Some(&state)), "🌲 Dependency Tree");
    state.search_query = "lodash".to_string();
    assert_eq!(tree_title(Some(&state)), "🌲 Dependency Tree - Search: lodash");
    assert!(App::new().tree_state.is_none());
}
