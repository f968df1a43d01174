//! Dependency analysis for JavaScript/TypeScript projects: lockfile parsing,
//! unused-dependency detection, duplicates, licenses, outdated versions,
//! supply-chain checks, dependency trees and report rendering.
use vstd::prelude::*;

pub mod analyze;
pub mod audit;
pub mod analyzer;
pub mod cache;
pub mod config;
pub mod diff;
pub mod error;
pub mod fix;
pub mod i18n;
pub mod json;
pub mod lockfile;
pub mod outdated;
pub mod report;
pub mod runner;
pub mod scanner;
pub mod sorting;
pub mod strmap;
pub mod supply_chain;
pub mod utils;
pub mod workspace;
pub mod text;
pub mod threshold;
pub mod tree;
pub mod tui;

use crate::strmap::StrMap;

verus! {

/// Lockfile type identifier.
#[derive(Debug, Clone, Copy, PartialEq, Eq, Structural)]
pub enum LockfileType {
    Pnpm,
    Npm,
    Yarn,
    Bun,
}

/// A duplicate dependency entry.
#[derive(Debug, Clone)]
pub struct DuplicateDep {
    pub name: String,
    pub versions: Vec<String>,
}

/// Duplicate dependencies report.
#[derive(Debug, Clone)]
pub struct DuplicateReport {
    pub duplicates: Vec<DuplicateDep>,
    pub total_duplicate_packages: usize,
}

/// A single size entry for a package.
#[derive(Debug, Clone)]
pub struct SizeEntry {
    pub name: String,
    pub size_bytes: u64,
}

/// Size analysis report.
#[derive(Debug, Clone)]
pub struct SizeReport {
    pub entries: Vec<SizeEntry>,
    pub total_bytes: u64,
}

/// License entry for a single package.
#[derive(Debug, Clone)]
pub struct LicenseEntry {
    pub name: String,
    pub version: String,
    pub license: String,
    pub dep_type: DepType,
}

/// Reason for a license policy violation.
#[derive(Debug, Clone, Copy, PartialEq, Eq, Structural)]
pub enum ViolationReason {
    Denied,
    NotAllowed,
    Unknown,
}

/// A single license violation.
#[derive(Debug, Clone)]
pub struct LicenseViolation {
    pub package: String,
    pub version: String,
    pub license: String,
    pub reason: ViolationReason,
}

/// License analysis report.
#[derive(Debug, Clone)]
pub struct LicenseReport {
    pub entries: Vec<LicenseEntry>,
    pub violations: Vec<LicenseViolation>,
}

/// Dependency edge: the depending package names `name` at `version`.
#[derive(Debug, Clone)]
pub struct DepEdge {
    pub name: String,
    pub version: String,
}

/// Package metadata from a lockfile.
#[derive(Debug, Clone)]
pub struct PackageInfo {
    pub name: String,
    pub version: String,
    pub integrity: Option<String>,
}

/// Parsed dependency graph from a lockfile.
#[derive(Debug)]
pub struct DependencyGraph {
    pub dependencies: StrMap<PackageInfo>,
    pub dev_dependencies: StrMap<PackageInfo>,
    pub lockfile_type: LockfileType,
    pub all_packages: StrMap<Vec<String>>,
    /// Transitive dependency edges: key = "pkg@version", value = direct deps.
    /// Only populated when needed (e.g. the tree command); empty otherwise.
    pub dep_edges: StrMap<Vec<DepEdge>>,
}

/// Vulnerability severity level.
#[derive(Debug, Clone, Copy, PartialEq, Eq, Structural)]
pub enum Severity {
    Critical,
    High,
    Medium,
    Low,
}

/// A single vulnerability entry.
#[derive(Debug, Clone)]
pub struct Vulnerability {
    pub id: String,
    pub summary: String,
    pub severity: Severity,
    pub fixed_version: Option<String>,
}

/// Vulnerability report for a single package.
#[derive(Debug, Clone)]
pub struct VulnReport {
    pub package: String,
    pub version: String,
    pub vulns: Vec<Vulnerability>,
}

/// Dependency type.
#[derive(Debug, Clone, Copy, PartialEq, Eq, Structural)]
pub enum DepType {
    Prod,
    Dev,
}

/// A single unused dependency entry.
#[derive(Debug, Clone)]
pub struct UnusedDep {
    pub name: String,
    pub version: String,
    pub dep_type: DepType,
}

/// Unused dependencies report.
#[derive(Debug, Clone)]
pub struct UnusedReport {
    pub unused: Vec<UnusedDep>,
}

/// Semver update level.
#[derive(Debug, Clone, Copy, PartialEq, Eq, Structural, PartialOrd, Ord)]
pub enum SemverLevel {
    Patch,
    Minor,
    Major,
}

/// Upgrade priority (combines outdated and vulnerability information).
#[derive(Debug, Clone, Copy, PartialEq, Eq, Structural, PartialOrd, Ord)]
pub enum UpgradePriority {
    Low,
    Medium,
    High,
    Critical,
}

/// A single outdated dependency entry.
#[derive(Debug, Clone)]
pub struct OutdatedEntry {
    pub name: String,
    pub current: String,
    pub latest: String,
    pub level: SemverLevel,
    pub dep_type: DepType,
    pub priority: UpgradePriority,
    pub vuln_ids: Vec<String>,
}

/// Outdated dependencies report.
#[derive(Debug, Clone)]
pub struct OutdatedReport {
    pub entries: Vec<OutdatedEntry>,
    pub total_outdated: usize,
    pub patch_count: usize,
    pub minor_count: usize,
    pub major_count: usize,
}

/// Type of supply chain risk detected.
#[derive(Debug, Clone)]
pub enum SupplyChainRiskType {
    Typosquat { similar_to: String, distance: usize },
    ScopeConfusion { legitimate: String },
    VersionAnomaly { installed_version: String },
}

/// A single supply chain risk finding.
#[derive(Debug, Clone)]
pub struct SupplyChainRisk {
    pub package: String,
    pub version: String,
    pub risk_type: SupplyChainRiskType,
    pub severity: Severity,
}

/// Supply chain analysis report.
#[derive(Debug, Clone)]
pub struct SupplyChainReport {
    pub risks: Vec<SupplyChainRisk>,
}

/// Combined analysis result.
#[derive(Debug, Clone)]
pub struct AnalysisResult {
    pub unused: Option<UnusedReport>,
    pub vulns: Option<Vec<VulnReport>>,
    pub duplicates: Option<DuplicateReport>,
    pub size: Option<SizeReport>,
    pub license: Option<LicenseReport>,
    pub outdated: Option<OutdatedReport>,
    pub supply_chain: Option<SupplyChainReport>,
}


impl DeepView for LockfileType {
    type V = LockfileType;

    open spec fn deep_view(&self) -> LockfileType {
        *self
    }
}

impl DeepView for ViolationReason {
    type V = ViolationReason;

    open spec fn deep_view(&self) -> ViolationReason {
        *self
    }
}

impl DeepView for Severity {
    type V = Severity;

    open spec fn deep_view(&self) -> Severity {
        *self
    }
}

impl DeepView for DepType {
    type V = DepType;

    open spec fn deep_view(&self) -> DepType {
        *self
    }
}

impl DeepView for SemverLevel {
    type V = SemverLevel;

    open spec fn deep_view(&self) -> SemverLevel {
        *self
    }
}

impl DeepView for UpgradePriority {
    type V = UpgradePriority;

    open spec fn deep_view(&self) -> UpgradePriority {
        *self
    }
}

impl DeepView for PackageInfo {
    /// (name, version, integrity)
    type V = (Seq<char>, Seq<char>, Option<Seq<char>>);

    open spec fn deep_view(&self) -> Self::V {
        (self.name@, self.version@, self.integrity.deep_view())
    }
}

impl DeepView for DepEdge {
    /// (name, version)
    type V = (Seq<char>, Seq<char>);

    open spec fn deep_view(&self) -> Self::V {
        (self.name@, self.version@)
    }
}

impl DeepView for UnusedDep {
    /// (name, version, dependency type)
    type V = (Seq<char>, Seq<char>, DepType);

    open spec fn deep_view(&self) -> Self::V {
        (self.name@, self.version@, self.dep_type)
    }
}

impl DeepView for DuplicateDep {
    /// (name, versions)
    type V = (Seq<char>, Seq<Seq<char>>);

    open spec fn deep_view(&self) -> Self::V {
        (self.name@, self.versions.deep_view())
    }
}

impl DeepView for SizeEntry {
    /// (name, size in bytes)
    type V = (Seq<char>, u64);

    open spec fn deep_view(&self) -> Self::V {
        (self.name@, self.size_bytes)
    }
}

impl DeepView for LicenseEntry {
    /// (name, version, license, dependency type)
    type V = (Seq<char>, Seq<char>, Seq<char>, DepType);

    open spec fn deep_view(&self) -> Self::V {
        (self.name@, self.version@, self.license@, self.dep_type)
    }
}

impl DeepView for LicenseViolation {
    /// (package, version, license, reason)
    type V = (Seq<char>, Seq<char>, Seq<char>, ViolationReason);

    open spec fn deep_view(&self) -> Self::V {
        (self.package@, self.version@, self.license@, self.reason)
    }
}

impl DeepView for Vulnerability {
    /// (id, summary, severity, fixed version)
    type V = (Seq<char>, Seq<char>, Severity, Option<Seq<char>>);

    open spec fn deep_view(&self) -> Self::V {
        (self.id@, self.summary@, self.severity, self.fixed_version.deep_view())
    }
}

impl DeepView for VulnReport {
    /// (package, version, vulnerabilities)
    type V = (Seq<char>, Seq<char>, Seq<(Seq<char>, Seq<char>, Severity, Option<Seq<char>>)>);

    open spec fn deep_view(&self) -> Self::V {
        (self.package@, self.version@, self.vulns.deep_view())
    }
}

impl DeepView for OutdatedEntry {
    /// (name, current, latest, level, dependency type, priority, vulnerability ids)
    type V = (
        Seq<char>,
        Seq<char>,
        Seq<char>,
        SemverLevel,
        DepType,
        UpgradePriority,
        Seq<Seq<char>>,
    );

    open spec fn deep_view(&self) -> Self::V {
        (
            self.name@,
            self.current@,
            self.latest@,
            self.level,
            self.dep_type,
            self.priority,
            self.vuln_ids.deep_view(),
        )
    }
}

/// What a supply chain risk is about, with its strings as character sequences.
pub enum RiskKind {
    Typosquat { similar_to: Seq<char>, distance: nat },
    ScopeConfusion { legitimate: Seq<char> },
    VersionAnomaly { installed_version: Seq<char> },
}

impl DeepView for SupplyChainRiskType {
    type V = RiskKind;

    open spec fn deep_view(&self) -> RiskKind {
        match self {
            SupplyChainRiskType::Typosquat { similar_to, distance } => RiskKind::Typosquat {
                similar_to: similar_to@,
                distance: *distance as nat,
            },
            SupplyChainRiskType::ScopeConfusion { legitimate } => RiskKind::ScopeConfusion {
                legitimate: legitimate@,
            },
            SupplyChainRiskType::VersionAnomaly { installed_version } => RiskKind::VersionAnomaly {
                installed_version: installed_version@,
            },
        }
    }
}

impl DeepView for SupplyChainRisk {
    /// (package, version, kind, severity)
    type V = (Seq<char>, Seq<char>, RiskKind, Severity);

    open spec fn deep_view(&self) -> Self::V {
        (self.package@, self.version@, self.risk_type.deep_view(), self.severity)
    }
}

/// The lowercase name of a semver level, as its `Display` form prints it.
pub open spec fn semver_level_name(l: SemverLevel) -> Seq<char> {
    match l {
        SemverLevel::Patch => "patch"@,
        SemverLevel::Minor => "minor"@,
        SemverLevel::Major => "major"@,
    }
}

impl SemverLevel {
    /// The level's name: `patch`, `minor` or `major`.
    pub fn name(&self) -> (s: &'static str)
        ensures
            s@ == semver_level_name(*self),
    {
        match self {
            SemverLevel::Patch => "patch",
            SemverLevel::Minor => "minor",
            SemverLevel::Major => "major",
        }
    }
}

} // verus!
