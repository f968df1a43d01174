use lockpick::scanner::unused::detect_unused;
use lockpick::strmap::StrMap;
use lockpick::{DependencyGraph, PackageInfo};

fn info(name: &str, version: &str) -> PackageInfo {
    PackageInfo {
        name: name.into(),
        version: version.into(),
        integrity: None,
    }
}

fn make_graph() -> DependencyGraph {
    let mut deps = StrMap::new();
    deps.insert("react".into(), info("react", "18.2.0"));
    deps.insert("lodash".into(), info("lodash", "4.17.21"));
    let mut dev = StrMap::new();
    dev.insert("typescript".into(), info("typescript", "5.3.3"));
    DependencyGraph {
        dependencies: deps,
        dev_dependencies: dev,
        lockfile_type: lockpick::LockfileType::Pnpm,
        all_packages: StrMap::new(),
        dep_edges: StrMap::new(),
    }
}

fn names(list: &[&str]) -> Vec<String> {
    list.iter().map(|s| s.to_string()).collect()
}

#[test]
fn test_all_used() {
    let graph = make_graph();
    let used = names(&["react", "lodash", "typescript"]);
    let report = detect_unused(&graph, &used, false);
    assert!(report.unused.is_empty());
}

#[test]
fn test_some_unused() {
    let graph = make_graph();
    let used = names(&["react"]);
    let report = detect_unused(&graph, &used, false);
    assert_eq!(report.unused.len(), 2);
}

#[test]
fn test_skip_dev() {
    let graph = make_graph();
    let used = names(&["react"]);
    let report = detect_unused(&graph, &used, true);
    assert_eq!(report.unused.len(), 1);
    assert_eq!(report.unused[0].name, "lodash");
}

#[test]
fn test_types_smart_association() {
    let mut graph = make_graph();
    graph
        .dev_dependencies
        .insert("@types/react".into(), info("@types/react", "18.2.0"));
    let used = names(&["react"]);
    let report = detect_unused(&graph, &used, false);
    let unused_names: Vec<&str> = report.unused.iter().map(|d| d.name.as_str()).collect();
    assert!(
        !unused_names.contains(&"@types/react"),
        "@types/react should not be unused when react is used"
    );
    assert!(unused_names.contains(&"lodash"));
    assert!(unused_names.contains(&"typescript"));
}

#[test]
fn test_workspace_deps_excluded() {
    let mut graph = make_graph();
    graph
        .dependencies
        .insert("@vben/hooks".into(), info("@vben/hooks", "workspace:*"));
    graph
        .dev_dependencies
        .insert("@vben/utils".into(), info("@vben/utils", "workspace:^"));
    let used = names(&["react"]);
    let report = detect_unused(&graph, &used, false);
    let unused_names: Vec<&str> = report.unused.iter().map(|d| d.name.as_str()).collect();
    assert!(!unused_names.contains(&"@vben/hooks"), "workspace dep should be excluded");
    assert!(!unused_names.contains(&"@vben/utils"), "workspace dev dep should be excluded");
    assert!(unused_names.contains(&"lodash"));
}

#[test]
fn test_unused_sorted_by_name() {
    let graph = make_graph();
    let used: Vec<String> = Vec::new();
    let report = detect_unused(&graph, &used, false);
    let unused_names: Vec<&str> = report.unused.iter().map(|d| d.name.as_str()).collect();
    assert_eq!(unused_names, vec!["lodash", "react", "typescript"]);
}
