use lockpick::config::merge::{effective_format, effective_thresholds, merge_ignore, prefer_cli, run_fails};
use lockpick::config::types::{OutputFormatConfig, Thresholds};
use lockpick::diff::diff_counts_fit_check;
use lockpick::supply_chain::has_high_risk;
use lockpick::threshold::{checked_vuln_total, vuln_counts_fit};
use lockpick::{
    AnalysisResult, Severity, SupplyChainReport, SupplyChainRisk, SupplyChainRiskType, VulnReport, Vulnerability,
};

fn empty_result() -> AnalysisResult {
    AnalysisResult {
        unused: None,
        vulns: None,
        duplicates: None,
        size: None,
        license: None,
        outdated: None,
        supply_chain: None,
    }
}

fn vuln(id: &str, severity: Severity) -> Vulnerability {
    Vulnerability { id: id.into(), summary: "s".into(), severity, fixed_version: None }
}

fn strings(v: &[&str]) -> Vec<String> {
    v.iter().map(|s| s.to_string()).collect()
}

#[test]
fn ignore_lists_are_joined_each_name_once() {
    let merged = merge_ignore(&strings(&["husky", "lint-staged", "husky"]), &strings(&["react", "husky"]));
    assert_eq!(merged, strings(&["husky", "lint-staged", "react"]));
    assert!(merge_ignore(&vec![], &vec![]).is_empty());
}

#[test]
fn command_line_settings_win() {
    assert_eq!(prefer_cli(Some("zh"), Some("en")), Some("zh"));
    assert_eq!(prefer_cli(None, Some("en")), Some("en"));
    assert_eq!(prefer_cli::<&str>(None, None), None);
    assert_eq!(effective_format(Some(OutputFormatConfig::Json), Some(OutputFormatConfig::Markdown)), OutputFormatConfig::Json);
    assert_eq!(effective_format(None, Some(OutputFormatConfig::Markdown)), OutputFormatConfig::Markdown);
    assert_eq!(effective_format(None, None), OutputFormatConfig::Terminal);
    let rc = Thresholds { max_unused: 3, ..Thresholds::default() };
    let t = effective_thresholds(Some("critical"), Some(rc.clone())).unwrap();
    assert_eq!(t.max_critical, 0);
    assert_eq!(t.max_unused, -1);
    assert_eq!(effective_thresholds(None, Some(rc)).unwrap().max_unused, 3);
    assert!(effective_thresholds(None, None).is_none());
}

#[test]
fn a_run_fails_on_issues_or_exceeded_thresholds() {
    let mut r = empty_result();
    r.vulns = Some(vec![VulnReport { package: "x".into(), version: "1".into(), vulns: vec![vuln("V1", Severity::High)] }]);
    assert!(run_fails(true, None, None));
    assert!(!run_fails(false, Some(&r), None));
    assert!(!run_fails(false, Some(&r), effective_thresholds(Some("critical"), None)));
    assert!(run_fails(false, Some(&r), effective_thresholds(Some("high"), None)));
    assert!(!run_fails(false, None, effective_thresholds(Some("any"), None)));
}

#[test]
fn vulnerability_totals_are_counted() {
    let mut r = empty_result();
    assert_eq!(checked_vuln_total(&r), Some(0));
    r.vulns = Some(vec![
        VulnReport { package: "a".into(), version: "1".into(), vulns: vec![vuln("V1", Severity::Low), vuln("V2", Severity::Low)] },
        VulnReport { package: "b".into(), version: "1".into(), vulns: vec![vuln("V3", Severity::Critical)] },
    ]);
    assert_eq!(checked_vuln_total(&r), Some(3));
    assert!(vuln_counts_fit(&r));
    assert!(diff_counts_fit_check(&r, &empty_result()));
}

#[test]
fn supply_chain_reports_with_high_risks() {
    let risk = |severity| SupplyChainRisk {
        package: "reakt".into(),
        version: "1.0.0".into(),
        risk_type: SupplyChainRiskType::Typosquat { similar_to: "react".into(), distance: 1 },
        severity,
    };
    assert!(!has_high_risk(&SupplyChainReport { risks: vec![] }));
    assert!(!has_high_risk(&SupplyChainReport { risks: vec![risk(Severity::Medium), risk(Severity::Low)] }));
    assert!(has_high_risk(&SupplyChainReport { risks: vec![risk(Severity::Low), risk(Severity::High)] }));
    assert!(has_high_risk(&SupplyChainReport { risks: vec![risk(Severity::Critical)] }));
}
