use lockpick::diff::{compute_diff, format_delta, render_terminal};
use lockpick::i18n::{I18n, Lang};
use lockpick::report::format_bytes;
use lockpick::report::interactive::{menu_choice, report_sections, section_title_key, MenuChoice, ReportSection};
use lockpick::report::markdown::MarkdownReporter;
use lockpick::report::{NoopReporter, Reporter};
use lockpick::report::terminal::{risk_description, summary_items, SummaryItem};
use lockpick::{
    AnalysisResult, DepType, DuplicateDep, DuplicateReport, Severity, SupplyChainReport, SupplyChainRisk,
    SupplyChainRiskType, UnusedDep, UnusedReport, VulnReport, Vulnerability,
};

fn en() -> I18n {
    I18n { lang: Lang::En }
}

fn empty_result() -> AnalysisResult {
    AnalysisResult {
        unused: None,
        vulns: None,
        duplicates: None,
        size: None,
        license: None,
        outdated: None,
        supply_chain: None,
    }
}

fn unused(name: &str, version: &str) -> UnusedDep {
    UnusedDep { name: name.into(), version: version.into(), dep_type: DepType::Prod }
}

#[test]
fn test_render_unused_section() {
    let mut result = empty_result();
    result.unused = Some(UnusedReport { unused: vec![unused("lodash", "4.17.21")] });
    let md = MarkdownReporter.render(&result, &en());
    assert!(md.contains("| lodash | 4.17.21 |"));
    assert!(md.contains("## 📦"));
}

#[test]
fn test_empty_sections_skipped() {
    let result = empty_result();
    let md = MarkdownReporter.render(&result, &en());
    assert!(!md.contains("## 📦"));
    assert!(!md.contains("## 🛡"));
    assert!(!md.contains("## 🔄"));
}

#[test]
fn test_render_vulns_severity_emoji() {
    let mut result = empty_result();
    result.vulns = Some(vec![VulnReport {
        package: "semver".into(),
        version: "7.5.2".into(),
        vulns: vec![Vulnerability {
            id: "GHSA-1234".into(),
            summary: "test".into(),
            severity: Severity::Critical,
            fixed_version: Some("7.5.4".into()),
        }],
    }]);
    let md = MarkdownReporter.render(&result, &en());
    assert!(md.contains("🔴"));
    assert!(md.contains("GHSA-1234"));
    assert!(md.contains("7.5.4"));
}

#[test]
fn test_format_bytes() {
    assert_eq!(format_bytes(500), "500 B");
    assert_eq!(format_bytes(2048), "2.0 KB");
    assert_eq!(format_bytes(1_500_000), "1.4 MB");
}

#[test]
fn format_bytes_edges() {
    assert_eq!(format_bytes(0), "0 B");
    assert_eq!(format_bytes(1023), "1023 B");
    assert_eq!(format_bytes(1024), "1.0 KB");
    assert_eq!(format_bytes(1_048_576), "1.0 MB");
    // 1.25 KB is a tie and rounds to the even tenth
    assert_eq!(format_bytes(1280), "1.2 KB");
}

#[test]
fn noop_reporter_reports_nothing_and_succeeds() {
    assert!(NoopReporter.report(&empty_result(), &en()).is_ok());
}

fn baseline() -> AnalysisResult {
    let mut r = empty_result();
    r.unused = Some(UnusedReport { unused: vec![unused("lodash", "4.17.21"), unused("moment", "2.30.1")] });
    r
}

#[test]
fn test_diff_detects_new_and_resolved() {
    let baseline = baseline();
    let mut current = empty_result();
    current.unused = Some(UnusedReport { unused: vec![unused("moment", "2.30.1"), unused("axios", "1.6.0")] });
    let report = compute_diff(&baseline, &current);
    assert_eq!(report.unused.added.len(), 1);
    assert_eq!(report.unused.added[0].name, "axios");
    assert_eq!(report.unused.removed.len(), 1);
    assert_eq!(report.unused.removed[0].name, "lodash");
    assert_eq!(report.summary.new_issues, 1);
    assert_eq!(report.summary.resolved_issues, 1);
}

#[test]
fn diff_of_a_result_with_itself_has_no_changes() {
    let b = baseline();
    let report = compute_diff(&b, &b);
    assert_eq!(report.summary.new_issues, 0);
    assert_eq!(report.summary.resolved_issues, 0);
    assert_eq!(report.summary.baseline_issues, 2);
    assert_eq!(report.summary.current_issues, 2);
}

#[test]
fn format_delta_values() {
    assert_eq!(format_delta(0, 0), "—");
    assert_eq!(format_delta(3, 1), "+3, -1");
    assert_eq!(format_delta(2, 0), "+2");
    assert_eq!(format_delta(0, 4), "-4");
}

#[test]
fn diff_terminal_lists_changes() {
    let baseline = baseline();
    let current = empty_result();
    let report = compute_diff(&baseline, &current);
    let text = render_terminal(&report, &en());
    assert!(text.contains("  - lodash 4.17.21"));
    assert!(text.contains("  - moment 2.30.1"));
}

#[test]
fn interactive_sections_follow_the_result() {
    let mut r = empty_result();
    assert!(report_sections(&r).is_empty());
    r.unused = Some(UnusedReport { unused: vec![] });
    assert!(report_sections(&r).is_empty());
    r.unused = Some(UnusedReport { unused: vec![unused("a", "1.0.0")] });
    r.duplicates = Some(DuplicateReport {
        duplicates: vec![DuplicateDep { name: "x".into(), versions: vec!["1".into(), "2".into()] }],
        total_duplicate_packages: 1,
    });
    assert_eq!(report_sections(&r), vec![ReportSection::Unused, ReportSection::Duplicates]);
    assert_eq!(section_title_key(ReportSection::Duplicates), "duplicate_deps");
}

#[test]
fn interactive_menu_choices() {
    assert_eq!(menu_choice("0", 3), MenuChoice::Exit);
    assert_eq!(menu_choice("  \n", 3), MenuChoice::Exit);
    assert_eq!(menu_choice("2\n", 3), MenuChoice::Show(1));
    assert_eq!(menu_choice("+3", 3), MenuChoice::Show(2));
    assert_eq!(menu_choice("4", 3), MenuChoice::Ignore);
    assert_eq!(menu_choice("abc", 3), MenuChoice::Ignore);
    assert_eq!(menu_choice("00", 3), MenuChoice::Ignore);
}

#[test]
fn terminal_summary_and_risk_descriptions() {
    let mut r = AnalysisResult {
        unused: None,
        vulns: None,
        duplicates: None,
        size: None,
        license: None,
        outdated: None,
        supply_chain: None,
    };
    assert!(summary_items(&r).is_empty());
    r.unused = Some(UnusedReport { unused: vec![] });
    r.supply_chain = Some(SupplyChainReport {
        risks: vec![SupplyChainRisk {
            package: "reakt".into(),
            version: "1.0.0".into(),
            risk_type: SupplyChainRiskType::Typosquat { similar_to: "react".into(), distance: 1 },
            severity: Severity::High,
        }],
    });
    assert_eq!(summary_items(&r), vec![SummaryItem::SupplyChain(1)]);
    assert_eq!(
        risk_description(&SupplyChainRiskType::Typosquat { similar_to: "react".into(), distance: 1 }),
        "similar to \"react\" (distance: 1)"
    );
    assert_eq!(risk_description(&SupplyChainRiskType::ScopeConfusion { legitimate: "lodash".into() }), "may impersonate \"lodash\"");
    assert_eq!(risk_description(&SupplyChainRiskType::VersionAnomaly { installed_version: "99.0.0".into() }), "abnormal version (99.0.0)");
}
