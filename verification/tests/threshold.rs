use lockpick::config::types::Thresholds;
use lockpick::threshold::{evaluate, from_fail_on};
use lockpick::{AnalysisResult, DepType, Severity, UnusedDep, UnusedReport, VulnReport, Vulnerability};

fn empty_result() -> AnalysisResult {
    AnalysisResult {
        unused: None,
        vulns: None,
        duplicates: None,
        size: None,
        license: None,
        outdated: None,
        supply_chain: None,
    }
}

#[test]
fn test_default_thresholds_never_fail() {
    let mut r = empty_result();
    r.vulns = Some(vec![VulnReport {
        package: "x".into(),
        version: "1.0.0".into(),
        vulns: vec![Vulnerability {
            id: "V1".into(),
            summary: "t".into(),
            severity: Severity::Critical,
            fixed_version: None,
        }],
    }]);
    assert!(!evaluate(&r, &Thresholds::default()));
}

#[test]
fn test_critical_threshold_exceeded() {
    let mut r = empty_result();
    r.vulns = Some(vec![VulnReport {
        package: "x".into(),
        version: "1.0.0".into(),
        vulns: vec![Vulnerability {
            id: "V1".into(),
            summary: "t".into(),
            severity: Severity::Critical,
            fixed_version: None,
        }],
    }]);
    let t = Thresholds {
        max_critical: 0,
        ..Default::default()
    };
    assert!(evaluate(&r, &t));
}

#[test]
fn test_unused_threshold() {
    let mut r = empty_result();
    r.unused = Some(UnusedReport {
        unused: vec![UnusedDep {
            name: "a".into(),
            version: "1.0.0".into(),
            dep_type: DepType::Prod,
        }],
    });
    let t = Thresholds {
        max_unused: 0,
        ..Default::default()
    };
    assert!(evaluate(&r, &t));
}

#[test]
fn test_from_fail_on_presets() {
    let t = from_fail_on("critical");
    assert_eq!(t.max_critical, 0);
    assert_eq!(t.max_high, -1);

    let t = from_fail_on("high");
    assert_eq!(t.max_critical, 0);
    assert_eq!(t.max_high, 0);

    let t = from_fail_on("any");
    assert_eq!(t.max_unused, 0);
    assert!(t.fail_on_license);
}

#[test]
fn test_empty_result_never_fails() {
    let r = empty_result();
    let t = from_fail_on("any");
    assert!(!evaluate(&r, &t));
}
