use lockpick::strmap::StrMap;
use lockpick::supply_chain::typosquat::{check_typosquat, edit_distance};
use lockpick::supply_chain::{analyze, check_scope_confusion, check_version_anomaly};
use lockpick::{DependencyGraph, LockfileType};

#[test]
fn test_scope_confusion_evil_express() {
    let result = check_scope_confusion("@evil/express");
    assert_eq!(result, Some("express".into()));
}

#[test]
fn test_scope_confusion_official_types() {
    assert!(check_scope_confusion("@types/node").is_none());
}

#[test]
fn test_version_anomaly_high_major() {
    assert!(check_version_anomaly("lodash", "99.0.0"));
}

#[test]
fn test_version_anomaly_normal() {
    assert!(!check_version_anomaly("lodash", "4.17.21"));
}

#[test]
fn test_analyze_empty_graph() {
    let graph = DependencyGraph {
        dependencies: StrMap::new(),
        dev_dependencies: StrMap::new(),
        lockfile_type: LockfileType::Npm,
        all_packages: StrMap::new(),
        dep_edges: StrMap::new(),
    };
    let report = analyze(&graph);
    assert!(report.risks.is_empty());
}

#[test]
fn test_edit_distance_identical() {
    assert_eq!(edit_distance("lodash", "lodash"), 0);
}

#[test]
fn test_edit_distance_one_char() {
    assert_eq!(edit_distance("lodash", "lodas"), 1);
}

#[test]
fn test_edit_distance_transpose() {
    assert_eq!(edit_distance("lodash", "ldoash"), 1);
}

#[test]
fn test_check_typosquat_hit() {
    let result = check_typosquat("lod-ash");
    assert!(result.is_some());
    let (pkg, _dist) = result.unwrap();
    assert_eq!(pkg, "lodash");
}

#[test]
fn test_check_typosquat_exact_no_alert() {
    assert!(check_typosquat("lodash").is_none());
}

#[test]
fn test_check_typosquat_too_far() {
    assert!(check_typosquat("completely-different-name").is_none());
}

#[test]
fn edit_distance_allows_edits_between_swapped_characters() {
    assert_eq!(edit_distance("ca", "abc"), 2);
    assert_eq!(edit_distance("abc", "ca"), 2);
    assert_eq!(edit_distance("ab", "ba"), 1);
    assert_eq!(edit_distance("abcdef", "abcfed"), 2);
    assert_eq!(edit_distance("", "abc"), 3);
    assert_eq!(edit_distance("kitten", "sitting"), 3);
    assert_eq!(edit_distance("react", "react"), 0);
}
