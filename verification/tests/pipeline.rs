use lockpick::analyze::{analyze_package, AnalyzeOptions, ProjectFiles};
use lockpick::audit::{
    batch_answers, cache_writes, fresh_reports, parse_batch_response, retry_step, scan_targets, split_cached,
    AttemptOutcome, RetryStep,
};
use lockpick::config::types::LicensePolicy;
use lockpick::error::LockpickError;
use lockpick::outdated::filter_outdated;
use lockpick::runner::{build_opts, has_issues, package_deps_from_json, workspace_graph, RunConfig};
use lockpick::strmap::StrMap;
use lockpick::tui::app::App;
use lockpick::tui::results::{detail_lines, Tone};
use lockpick::workspace::{declares_workspaces, workspace_globs};
use lockpick::{
    AnalysisResult, DepType, DependencyGraph, OutdatedEntry, OutdatedReport, PackageInfo, SemverLevel, Severity,
    SupplyChainReport, SupplyChainRisk, SupplyChainRiskType, UnusedDep, UnusedReport, UpgradePriority,
    Vulnerability,
};

fn info(name: &str, version: &str) -> PackageInfo {
    PackageInfo { name: name.into(), version: version.into(), integrity: None }
}

fn graph() -> DependencyGraph {
    let mut deps = StrMap::new();
    deps.insert("react".into(), info("react", "18.2.0"));
    deps.insert("lodash".into(), info("lodash", "4.17.21"));
    deps.insert("moment".into(), info("moment", "2.30.1"));
    let mut dev = StrMap::new();
    dev.insert("typescript".into(), info("typescript", "5.3.3"));
    let mut all = StrMap::new();
    all.insert("lodash".into(), vec!["4.17.20".to_string(), "4.17.21".to_string()]);
    all.insert("react".into(), vec!["18.2.0".to_string()]);
    DependencyGraph {
        dependencies: deps,
        dev_dependencies: dev,
        lockfile_type: lockpick::LockfileType::Npm,
        all_packages: all,
        dep_edges: StrMap::new(),
    }
}

fn options(ignore: &[&str]) -> AnalyzeOptions {
    AnalyzeOptions {
        skip_dev: false,
        ignore: ignore.iter().map(|s| s.to_string()).collect(),
        run_unused: true,
        run_duplicates: true,
        run_size: false,
        run_license: false,
        license_policy: None,
    }
}

fn files(used: &[&str]) -> ProjectFiles {
    ProjectFiles {
        used: used.iter().map(|s| s.to_string()).collect(),
        sizes: StrMap::new(),
        manifests: StrMap::new(),
    }
}

#[test]
fn analyze_package_drops_ignored_unused() {
    let g = graph();
    let r = analyze_package(&options(&["moment"]), &g, &files(&["react"]));
    let names: Vec<String> = r.unused.unwrap().unused.iter().map(|d| d.name.clone()).collect();
    assert_eq!(names, vec!["lodash", "typescript"]);
    let dups = r.duplicates.unwrap();
    assert_eq!(dups.total_duplicate_packages, 1);
    assert_eq!(dups.duplicates[0].name, "lodash");
    assert!(r.size.is_none());
    assert!(r.license.is_none());
    assert!(r.vulns.is_none());
}

#[test]
fn analyze_package_runs_only_what_is_asked() {
    let g = graph();
    let mut opts = options(&[]);
    opts.run_unused = false;
    opts.run_duplicates = false;
    opts.run_size = true;
    let r = analyze_package(&opts, &g, &files(&[]));
    assert!(r.unused.is_none());
    assert!(r.duplicates.is_none());
    let size = r.size.unwrap();
    assert_eq!(size.total_bytes, 0);
    assert_eq!(size.entries.len(), 4);
}

fn config(run_unused: bool) -> RunConfig {
    RunConfig {
        skip_dev: true,
        ignore: vec!["a".to_string()],
        extra_configs: vec![],
        license_policy: Some(LicensePolicy { allow: vec!["MIT".to_string()], deny: vec![] }),
        run_unused,
        run_audit: false,
        run_fix: false,
        verbose: false,
        dry_run: false,
        no_cache: false,
        cache_ttl: None,
    }
}

#[test]
fn build_opts_copies_the_configuration() {
    let opts = build_opts(&config(false));
    assert!(opts.skip_dev);
    assert_eq!(opts.ignore, vec!["a"]);
    assert!(!opts.run_unused);
    assert!(opts.run_duplicates && opts.run_size && opts.run_license);
    assert_eq!(opts.license_policy.unwrap().allow, vec!["MIT"]);
}

fn empty_result() -> AnalysisResult {
    AnalysisResult {
        unused: None,
        vulns: None,
        duplicates: None,
        size: None,
        license: None,
        outdated: None,
        supply_chain: None,
    }
}

#[test]
fn has_issues_counts_unused_and_vulns_only() {
    let mut r = empty_result();
    assert!(!has_issues(&r));
    r.unused = Some(UnusedReport { unused: vec![] });
    assert!(!has_issues(&r));
    r.unused = Some(UnusedReport {
        unused: vec![UnusedDep { name: "x".into(), version: "1".into(), dep_type: DepType::Prod }],
    });
    assert!(has_issues(&r));
}

#[test]
fn package_deps_from_json_reads_both_maps() {
    let (deps, dev) =
        package_deps_from_json(r#"{"dependencies": {"a": "^1.0.0", "b": 3}, "devDependencies": {"c": "~2"}}"#)
            .unwrap();
    assert_eq!(deps.len(), 2);
    assert_eq!(deps.get("a").unwrap().version, "^1.0.0");
    assert_eq!(deps.get("b").unwrap().version, "*");
    assert_eq!(dev.get("c").unwrap().version, "~2");
    assert!(package_deps_from_json("{").is_none());
    let (deps, dev) = package_deps_from_json("[]").unwrap();
    assert!(deps.is_empty() && dev.is_empty());
}

#[test]
fn workspace_globs_from_pnpm_then_package_json() {
    let g = workspace_globs(Some("packages:\n  - 'packages/*'\n  - 'libs/*'\n"), None).unwrap();
    assert_eq!(g, vec!["packages/*", "libs/*"]);
    let g = workspace_globs(None, Some(r#"{"workspaces": ["apps/*", 3]}"#)).unwrap();
    assert_eq!(g, vec!["apps/*"]);
    let g = workspace_globs(Some("name: x\n"), Some(r#"{"workspaces": {"packages": ["pkgs/*"]}}"#)).unwrap();
    assert_eq!(g, vec!["pkgs/*"]);
    match workspace_globs(None, Some(r#"{"name": "x"}"#)) {
        Err(LockpickError::Config(m)) => assert_eq!(m, "No workspace configuration found"),
        _ => panic!("expected no configuration"),
    }
    match workspace_globs(None, Some("{")) {
        Err(LockpickError::Parse(m)) => assert!(m.starts_with("Failed to parse package.json: ")),
        _ => panic!("expected a parse error"),
    }
}

#[test]
fn declares_workspaces_checks_the_field() {
    assert!(declares_workspaces(r#"{"workspaces": []}"#));
    assert!(!declares_workspaces(r#"{"name": "x"}"#));
    assert!(!declares_workspaces("not json"));
}

fn vuln(id: &str) -> Vulnerability {
    Vulnerability { id: id.into(), summary: String::new(), severity: Severity::High, fixed_version: None }
}

#[test]
fn audit_targets_cache_split_and_fresh_reports() {
    let g = graph();
    let targets = scan_targets(&g);
    assert_eq!(targets.len(), 4);
    assert_eq!(targets[3], ("typescript".to_string(), "5.3.3".to_string()));
    let cached = vec![Some(vec![vuln("GHSA-1")]), Some(vec![]), None, None];
    let (reports, rest) = split_cached(&targets, &cached);
    assert_eq!(reports.len(), 1);
    assert_eq!(reports[0].package, targets[0].0);
    assert_eq!(rest, vec![targets[2].clone(), targets[3].clone()]);
    let fresh = fresh_reports(&rest, &vec![Some(vec![]), Some(vec![vuln("GHSA-2")]), Some(vec![vuln("GHSA-3")])]);
    assert_eq!(fresh.len(), 1);
    assert_eq!(fresh[0].package, "typescript");
    assert_eq!(fresh[0].vulns[0].id, "GHSA-2");
}

#[test]
fn audit_batch_response_is_read() {
    let body = r#"{"results": [
        {},
        {"vulns": [{
            "id": "GHSA-x",
            "summary": "bad",
            "severity": [{"type": "CVSS_V2", "score": "5.0"}, {"type": "CVSS_V3", "score": "9.8"}],
            "affected": [{"ranges": [{"events": [{"introduced": "0"}, {"fixed": "1.2.3"}, {"fixed": "2.0.0"}]}]}]
        }]}
    ]}"#;
    let entries = parse_batch_response(body).unwrap();
    assert_eq!(entries.len(), 2);
    assert!(entries[0].is_empty());
    let v = &entries[1][0];
    assert_eq!(v.id, "GHSA-x");
    assert_eq!(v.summary, "bad");
    assert_eq!(v.cvss_v3_scores, vec!["9.8"]);
    assert_eq!(v.fixed_version, Some("1.2.3".to_string()));
    match parse_batch_response(r#"{"other": 1}"#) {
        Err(LockpickError::Network(m)) => assert_eq!(m, "Failed to parse OSV response: missing field `results`"),
        _ => panic!("expected an error"),
    }
    assert!(parse_batch_response("nope").is_err());
}

fn entry(name: &str, level: SemverLevel) -> OutdatedEntry {
    OutdatedEntry {
        name: name.into(),
        current: "1.0.0".into(),
        latest: "2.0.0".into(),
        level,
        dep_type: DepType::Prod,
        priority: UpgradePriority::Low,
        vuln_ids: vec![],
    }
}

#[test]
fn filter_outdated_keeps_one_level() {
    let report = OutdatedReport {
        entries: vec![
            entry("a", SemverLevel::Major),
            entry("b", SemverLevel::Patch),
            entry("c", SemverLevel::Major),
        ],
        total_outdated: 3,
        patch_count: 1,
        minor_count: 0,
        major_count: 2,
    };
    let r = filter_outdated(report.clone(), Some(SemverLevel::Major));
    assert_eq!(r.entries.len(), 2);
    assert_eq!(r.total_outdated, 2);
    assert_eq!((r.patch_count, r.minor_count, r.major_count), (0, 0, 2));
    let same = filter_outdated(report, None);
    assert_eq!(same.total_outdated, 3);
}

#[test]
fn results_details_expand_and_scroll() {
    let mut app = App::new();
    assert!(detail_lines(&app, 10).is_empty());
    let mut r = empty_result();
    r.unused = Some(UnusedReport {
        unused: vec![
            UnusedDep { name: "a".into(), version: "1".into(), dep_type: DepType::Prod },
            UnusedDep { name: "b".into(), version: "1".into(), dep_type: DepType::Dev },
        ],
    });
    r.supply_chain = Some(SupplyChainReport {
        risks: vec![SupplyChainRisk {
            package: "reakt".into(),
            version: "1.0.0".into(),
            risk_type: SupplyChainRiskType::Typosquat { similar_to: "react".into(), distance: 1 },
            severity: Severity::High,
        }],
    });
    app.result = Some(r);
    let lines = detail_lines(&app, 10);
    assert_eq!(lines.len(), 2);
    assert_eq!(lines[0].text, "▶ 📦 Unused Dependencies: 2");
    assert_eq!(lines[0].tone, Tone::Highlight);
    assert_eq!(lines[1].text, "▶ 🔗 Supply Chain Risks: 1");
    assert_eq!(lines[1].tone, Tone::Red);
    app.results_expanded = vec![0, 1];
    let lines = detail_lines(&app, 10);
    assert_eq!(lines.len(), 5);
    assert_eq!(lines[1].text, "    • a");
    assert_eq!(lines[4].text, "    • reakt - Typosquat { similar_to: \"react\", distance: 1 }");
    assert!(detail_lines(&app, 0).is_empty());
    app.results_selected = 1;
    let lines = detail_lines(&app, 2);
    assert_eq!(lines.len(), 2);
    assert_eq!(lines[0].text, "    • b");
    assert_eq!(lines[1].text, "▼ 🔗 Supply Chain Risks: 1");
}

#[test]
fn workspace_graph_keeps_shared_packages_and_own_deps() {
    let shared = graph();
    let mut deps = StrMap::new();
    deps.insert("lodash".into(), info("lodash", "^4.17.0"));
    let g = workspace_graph(&shared, deps, StrMap::new());
    assert_eq!(g.dependencies.len(), 1);
    assert_eq!(g.dependencies.get("lodash").unwrap().version, "^4.17.0");
    assert!(g.dev_dependencies.is_empty());
    assert_eq!(g.lockfile_type, lockpick::LockfileType::Npm);
    assert_eq!(g.all_packages.len(), 2);
    assert_eq!(g.all_packages.key_at(0), "lodash");
    assert_eq!(g.all_packages.value_at(0), &vec!["4.17.20".to_string(), "4.17.21".to_string()]);
    assert_eq!(g.all_packages.key_at(1), "react");
    assert!(g.dep_edges.is_empty());
}

#[test]
fn audit_batch_response_of_the_wrong_shape_is_refused() {
    let shape = "Failed to parse OSV response: unexpected field shape";
    for body in [
        r#"[]"#,
        r#"{"results": {}}"#,
        r#"{"results": [1]}"#,
        r#"{"results": [{"vulns": null}]}"#,
        r#"{"results": [{"vulns": [{"summary": "no id"}]}]}"#,
        r#"{"results": [{"vulns": [{"id": "X", "severity": [{"type": "CVSS_V3"}]}]}]}"#,
        r#"{"results": [{"vulns": [{"id": "X", "affected": [{"ranges": [{"events": [{"fixed": 3}]}]}]}]}]}"#,
    ] {
        match parse_batch_response(body) {
            Err(LockpickError::Network(m)) => assert_eq!(m, shape, "{body}"),
            _ => panic!("expected an error for {body}"),
        }
    }
    let ok = parse_batch_response(r#"{"results": [{"vulns": [{"id": "X", "affected": [{"ranges": [{"events": [{"fixed": null}]}]}]}]}], "next": 1}"#)
        .unwrap();
    assert_eq!(ok[0][0].id, "X");
    assert_eq!(ok[0][0].fixed_version, None);
}

#[test]
fn results_risk_lines_escape_like_debug() {
    let mut app = App::new();
    let mut r = empty_result();
    let odd = "a\"b\\c\nd\te\u{1}f\u{1b}g\u{7f}h".to_string();
    r.supply_chain = Some(SupplyChainReport {
        risks: vec![SupplyChainRisk {
            package: "x".into(),
            version: "1.0.0".into(),
            risk_type: SupplyChainRiskType::ScopeConfusion { legitimate: odd.clone() },
            severity: Severity::Low,
        }],
    });
    app.result = Some(r);
    app.results_expanded = vec![0];
    let lines = detail_lines(&app, 10);
    let expected = format!("    • x - {:?}", SupplyChainRiskType::ScopeConfusion { legitimate: odd });
    assert_eq!(lines[1].text, expected);
    assert_eq!(lines[1].text, "    • x - ScopeConfusion { legitimate: \"a\\\"b\\\\c\\nd\\te\\u{1}f\\u{1b}g\\u{7f}h\" }");
}

#[test]
fn failed_batches_are_neither_cached_nor_reported() {
    let v = Vulnerability { id: "V1".into(), summary: "s".into(), severity: Severity::High, fixed_version: None };
    let answers = batch_answers(&vec![2, 3, 1], &vec![Some(vec![vec![v.clone()], vec![]]), None, Some(vec![vec![]])]);
    assert_eq!(answers.len(), 6);
    assert_eq!(answers[0].as_ref().unwrap()[0].id, "V1");
    assert!(answers[1].as_ref().unwrap().is_empty());
    assert!(answers[2..5].iter().all(|a| a.is_none()));
    assert!(answers[5].as_ref().unwrap().is_empty());
    let order: Vec<(String, String)> = (0..6).map(|i| (format!("p{i}"), "1.0.0".to_string())).collect();
    let writes = cache_writes(&order, &answers);
    let names: Vec<&str> = writes.iter().map(|w| w.0.as_str()).collect();
    assert_eq!(names, vec!["p0", "p1", "p5"]);
    assert_eq!(writes[0].2.len(), 1);
    assert!(writes[1].2.is_empty());
    let reports = fresh_reports(&order, &answers);
    assert_eq!(reports.len(), 1);
    assert_eq!(reports[0].package, "p0");
}

#[test]
fn batches_are_retried_with_backoff() {
    assert_eq!(retry_step(0, AttemptOutcome::Answered), RetryStep::ReadAnswer);
    assert_eq!(retry_step(0, AttemptOutcome::ClientError), RetryStep::GiveUp);
    assert_eq!(retry_step(0, AttemptOutcome::SendFailed), RetryStep::Retry(1));
    assert_eq!(retry_step(1, AttemptOutcome::ServerError), RetryStep::Retry(2));
    assert_eq!(retry_step(2, AttemptOutcome::ServerError), RetryStep::Retry(4));
    assert_eq!(retry_step(3, AttemptOutcome::ServerError), RetryStep::GiveUp);
}
