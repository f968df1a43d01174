use lockpick::analyzer::duplicates::detect_duplicates;
use lockpick::analyzer::license::{check_policy, extract_licenses};
use lockpick::config::types::LicensePolicy;
use lockpick::strmap::StrMap;
use lockpick::{DepType, DependencyGraph, LicenseEntry, LicenseReport, LockfileType, PackageInfo, ViolationReason};

fn graph_with_all(all: Vec<(&str, Vec<&str>)>) -> DependencyGraph {
    let mut all_packages = StrMap::new();
    for (name, versions) in all {
        all_packages.insert(name.to_string(), versions.iter().map(|v| v.to_string()).collect());
    }
    DependencyGraph {
        dependencies: StrMap::new(),
        dev_dependencies: StrMap::new(),
        lockfile_type: LockfileType::Pnpm,
        all_packages,
        dep_edges: StrMap::new(),
    }
}

#[test]
fn test_detect_duplicates_found() {
    let graph = graph_with_all(vec![("lodash", vec!["4.17.20", "4.17.21"]), ("react", vec!["18.2.0"])]);
    let report = detect_duplicates(&graph);
    assert_eq!(report.total_duplicate_packages, 1);
    assert_eq!(report.duplicates.len(), 1);
    assert_eq!(report.duplicates[0].name, "lodash");
    assert_eq!(report.duplicates[0].versions.len(), 2);
}

#[test]
fn test_detect_no_duplicates() {
    let graph = graph_with_all(vec![("react", vec!["18.2.0"]), ("lodash", vec!["4.17.21"])]);
    let report = detect_duplicates(&graph);
    assert_eq!(report.total_duplicate_packages, 0);
    assert!(report.duplicates.is_empty());
}

#[test]
fn test_duplicate_versions_sorted() {
    let graph = graph_with_all(vec![("lodash", vec!["4.17.21", "4.17.20", "4.17.21"])]);
    let report = detect_duplicates(&graph);
    assert_eq!(report.duplicates[0].versions, vec!["4.17.20", "4.17.21"]);
}

#[test]
fn one_version_listed_twice_is_no_duplicate() {
    let graph = graph_with_all(vec![("lodash", vec!["4.17.21", "4.17.21"])]);
    let report = detect_duplicates(&graph);
    assert!(report.duplicates.is_empty());
    assert_eq!(report.total_duplicate_packages, 0);
}

fn make_graph(deps: Vec<(&str, &str)>, dev_deps: Vec<(&str, &str)>) -> DependencyGraph {
    let mut dependencies = StrMap::new();
    for (name, version) in deps {
        dependencies.insert(
            name.to_string(),
            PackageInfo { name: name.to_string(), version: version.to_string(), integrity: None },
        );
    }
    let mut dev_dependencies = StrMap::new();
    for (name, version) in dev_deps {
        dev_dependencies.insert(
            name.to_string(),
            PackageInfo { name: name.to_string(), version: version.to_string(), integrity: None },
        );
    }
    DependencyGraph {
        dependencies,
        dev_dependencies,
        lockfile_type: LockfileType::Npm,
        all_packages: StrMap::new(),
        dep_edges: StrMap::new(),
    }
}

fn manifests(list: Vec<(&str, &str)>) -> StrMap<String> {
    let mut m = StrMap::new();
    for (name, text) in list {
        m.insert(name.to_string(), text.to_string());
    }
    m
}

#[test]
fn test_string_license_extraction() {
    let m = manifests(vec![("react", r#"{"name":"react","license":"MIT"}"#)]);
    let graph = make_graph(vec![("react", "18.2.0")], vec![]);
    let report = extract_licenses(&graph, &m, false);
    assert_eq!(report.entries.len(), 1);
    assert_eq!(report.entries[0].license, "MIT");
    assert_eq!(report.entries[0].dep_type, DepType::Prod);
}

#[test]
fn test_object_license_format() {
    let m = manifests(vec![("old-pkg", r#"{"name":"old-pkg","license":{"type":"ISC"}}"#)]);
    let graph = make_graph(vec![("old-pkg", "1.0.0")], vec![]);
    let report = extract_licenses(&graph, &m, false);
    assert_eq!(report.entries[0].license, "ISC");
}

#[test]
fn test_legacy_array_license_format() {
    let m = manifests(vec![(
        "ancient-pkg",
        r#"{"name":"ancient-pkg","licenses":[{"type":"MIT"},{"type":"GPL-2.0"}]}"#,
    )]);
    let graph = make_graph(vec![("ancient-pkg", "0.1.0")], vec![]);
    let report = extract_licenses(&graph, &m, false);
    assert_eq!(report.entries[0].license, "MIT");
}

#[test]
fn test_unknown_when_no_license_field() {
    let m = manifests(vec![("no-license", r#"{"name":"no-license"}"#)]);
    let graph = make_graph(vec![("no-license", "1.0.0")], vec![]);
    let report = extract_licenses(&graph, &m, false);
    assert_eq!(report.entries[0].license, "UNKNOWN");
}

#[test]
fn test_unknown_when_no_manifest() {
    let m = manifests(vec![]);
    let graph = make_graph(vec![("missing", "1.0.0")], vec![]);
    let report = extract_licenses(&graph, &m, false);
    assert_eq!(report.entries[0].license, "UNKNOWN");
}

#[test]
fn test_normalization_apache() {
    let m = manifests(vec![
        ("pkg-a", r#"{"name":"pkg-a","license":"Apache 2.0"}"#),
        ("pkg-b", r#"{"name":"pkg-b","license":"Apache-2"}"#),
    ]);
    let graph = make_graph(vec![("pkg-a", "1.0.0"), ("pkg-b", "2.0.0")], vec![]);
    let report = extract_licenses(&graph, &m, false);
    for entry in &report.entries {
        assert_eq!(entry.license, "Apache-2.0", "failed for {}", entry.name);
    }
}

#[test]
fn test_skip_dev_dependencies() {
    let m = manifests(vec![
        ("react", r#"{"name":"react","license":"MIT"}"#),
        ("jest", r#"{"name":"jest","license":"MIT"}"#),
    ]);
    let graph = make_graph(vec![("react", "18.2.0")], vec![("jest", "29.0.0")]);
    let report_with_dev = extract_licenses(&graph, &m, false);
    assert_eq!(report_with_dev.entries.len(), 2);
    let report_skip_dev = extract_licenses(&graph, &m, true);
    assert_eq!(report_skip_dev.entries.len(), 1);
    assert_eq!(report_skip_dev.entries[0].name, "react");
}

fn entry(name: &str, license: &str) -> LicenseEntry {
    LicenseEntry { name: name.into(), version: "1.0.0".into(), license: license.into(), dep_type: DepType::Prod }
}

#[test]
fn test_check_policy_allow_list() {
    let report = LicenseReport { entries: vec![entry("a", "MIT"), entry("b", "GPL-3.0")], violations: vec![] };
    let policy = LicensePolicy { allow: vec!["MIT".into(), "ISC".into()], deny: vec![] };
    let violations = check_policy(&report, &policy);
    assert_eq!(violations.len(), 1);
    assert_eq!(violations[0].package, "b");
}

#[test]
fn test_check_policy_deny_list() {
    let report = LicenseReport { entries: vec![entry("a", "MIT"), entry("b", "GPL-3.0")], violations: vec![] };
    let policy = LicensePolicy { allow: vec![], deny: vec!["GPL-3.0".into()] };
    let violations = check_policy(&report, &policy);
    assert_eq!(violations.len(), 1);
    assert_eq!(violations[0].package, "b");
}

#[test]
fn test_unknown_always_violates_unless_allowed() {
    let report = LicenseReport { entries: vec![entry("mystery", "UNKNOWN")], violations: vec![] };
    let policy_empty = LicensePolicy { allow: vec![], deny: vec![] };
    let v = check_policy(&report, &policy_empty);
    assert_eq!(v.len(), 1);

    let policy_allow_unknown = LicensePolicy { allow: vec!["UNKNOWN".into(), "MIT".into()], deny: vec![] };
    let v = check_policy(&report, &policy_allow_unknown);
    assert!(v.is_empty());
}

#[test]
fn unknown_wins_over_a_deny_list_naming_it() {
    let report = LicenseReport { entries: vec![entry("mystery", "UNKNOWN")], violations: vec![] };
    let policy = LicensePolicy { allow: vec![], deny: vec!["UNKNOWN".into()] };
    let v = check_policy(&report, &policy);
    assert_eq!(v.len(), 1);
    assert!(matches!(v[0].reason, ViolationReason::Unknown));
    let policy = LicensePolicy { allow: vec![], deny: vec!["GPL-3.0".into()] };
    let v = check_policy(&report, &policy);
    assert_eq!(v.len(), 1);
    assert!(matches!(v[0].reason, ViolationReason::Unknown));
}
