use lockpick::strmap::StrMap;
use lockpick::{
    AnalysisResult, DepEdge, DepType, DependencyGraph, DuplicateDep, DuplicateReport, LockfileType,
    OutdatedEntry, SemverLevel, Severity, SizeEntry, SizeReport, SupplyChainRisk,
    SupplyChainRiskType, UpgradePriority,
};

#[test]
fn test_lockfile_type_enum_variants() {
    let pnpm = LockfileType::Pnpm;
    let npm = LockfileType::Npm;
    let yarn = LockfileType::Yarn;
    assert_eq!(pnpm, LockfileType::Pnpm);
    assert_eq!(npm, LockfileType::Npm);
    assert_eq!(yarn, LockfileType::Yarn);
    let cloned = pnpm.clone();
    assert_eq!(cloned, LockfileType::Pnpm);
}

#[test]
fn test_dependency_graph_has_new_fields() {
    let graph = DependencyGraph {
        dependencies: StrMap::new(),
        dev_dependencies: StrMap::new(),
        lockfile_type: LockfileType::Pnpm,
        all_packages: StrMap::new(),
        dep_edges: StrMap::new(),
    };
    assert_eq!(graph.lockfile_type, LockfileType::Pnpm);
    assert!(graph.all_packages.is_empty());
}

#[test]
fn test_analysis_result_has_duplicates_and_size() {
    let result = AnalysisResult {
        unused: None,
        vulns: None,
        duplicates: None,
        size: None,
        license: None,
        outdated: None,
        supply_chain: None,
    };
    assert!(result.duplicates.is_none());
    assert!(result.size.is_none());
}

#[test]
fn test_duplicate_dep_struct() {
    let dup = DuplicateDep {
        name: "lodash".into(),
        versions: vec!["4.17.20".into(), "4.17.21".into()],
    };
    assert_eq!(dup.name, "lodash");
    assert_eq!(dup.versions.len(), 2);
}

#[test]
fn test_duplicate_report_struct() {
    let report = DuplicateReport {
        duplicates: vec![DuplicateDep {
            name: "lodash".into(),
            versions: vec!["4.17.20".into(), "4.17.21".into()],
        }],
        total_duplicate_packages: 1,
    };
    assert_eq!(report.duplicates.len(), 1);
    assert_eq!(report.total_duplicate_packages, 1);
}

#[test]
fn test_size_entry_struct() {
    let entry = SizeEntry {
        name: "react".into(),
        size_bytes: 12345,
    };
    assert_eq!(entry.name, "react");
    assert_eq!(entry.size_bytes, 12345);
}

#[test]
fn test_size_report_struct() {
    let report = SizeReport {
        entries: vec![SizeEntry {
            name: "react".into(),
            size_bytes: 12345,
        }],
        total_bytes: 12345,
    };
    assert_eq!(report.entries.len(), 1);
    assert_eq!(report.total_bytes, 12345);
}

#[test]
fn test_dep_edge_struct() {
    let edge = DepEdge {
        name: "lodash".into(),
        version: "4.17.21".into(),
    };
    assert_eq!(edge.name, "lodash");
    assert_eq!(edge.version, "4.17.21");
}

#[test]
fn test_outdated_entry_struct() {
    let entry = OutdatedEntry {
        name: "lodash".into(),
        current: "4.17.20".into(),
        latest: "4.17.21".into(),
        level: SemverLevel::Patch,
        dep_type: DepType::Prod,
        priority: UpgradePriority::Low,
        vuln_ids: vec![],
    };
    assert_eq!(entry.name, "lodash");
    assert_eq!(entry.level, SemverLevel::Patch);
    assert_eq!(entry.priority, UpgradePriority::Low);
}

#[test]
fn test_supply_chain_risk_struct() {
    let risk = SupplyChainRisk {
        package: "lod-ash".into(),
        version: "4.17.21".into(),
        risk_type: SupplyChainRiskType::Typosquat {
            similar_to: "lodash".into(),
            distance: 1,
        },
        severity: Severity::High,
    };
    assert_eq!(risk.package, "lod-ash");
    assert!(matches!(risk.risk_type, SupplyChainRiskType::Typosquat { .. }));
}
