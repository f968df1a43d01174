use lockpick::outdated::{compare_versions, compute_priority, parse_semver};
use lockpick::{SemverLevel, Severity, UpgradePriority, VulnReport, Vulnerability};

#[test]
fn test_parse_semver_normal() {
    assert_eq!(parse_semver("1.2.3"), Some((1, 2, 3)));
}

#[test]
fn test_parse_semver_prerelease() {
    assert_eq!(parse_semver("1.0.0-beta.1"), Some((1, 0, 0)));
}

#[test]
fn test_compare_patch() {
    assert_eq!(compare_versions("1.2.3", "1.2.4"), Some(SemverLevel::Patch));
}

#[test]
fn test_compare_minor() {
    assert_eq!(compare_versions("1.2.3", "1.3.0"), Some(SemverLevel::Minor));
}

#[test]
fn test_compare_major() {
    assert_eq!(compare_versions("1.2.3", "2.0.0"), Some(SemverLevel::Major));
}

#[test]
fn test_compare_same_version() {
    assert_eq!(compare_versions("1.2.3", "1.2.3"), None);
}

#[test]
fn test_compute_priority_no_vulns() {
    let (p, ids) = compute_priority("lodash", None);
    assert_eq!(p, UpgradePriority::Low);
    assert!(ids.is_empty());
}

#[test]
fn test_compute_priority_critical() {
    let vulns = vec![VulnReport {
        package: "semver".into(),
        version: "7.5.2".into(),
        vulns: vec![Vulnerability {
            id: "GHSA-1234".into(),
            summary: "test".into(),
            severity: Severity::Critical,
            fixed_version: Some("7.5.4".into()),
        }],
    }];
    let (p, ids) = compute_priority("semver", Some(&vulns[..]));
    assert_eq!(p, UpgradePriority::Critical);
    assert_eq!(ids, vec!["GHSA-1234"]);
}
