//! Configuration types.
use vstd::prelude::*;

verus! {

/// Output format for reports.
#[derive(Debug, Clone, Copy, PartialEq, Eq, Structural)]
pub enum OutputFormatConfig {
    Terminal,
    Json,
    Markdown,
}

/// License policy configuration.
#[derive(Debug, Clone)]
pub struct LicensePolicy {
    /// Allowlist: only these licenses are permitted (when non-empty).
    pub allow: Vec<String>,
    /// Denylist: these licenses are forbidden.
    pub deny: Vec<String>,
}

/// Project-level configuration.
#[derive(Debug, Clone)]
pub struct LockpickConfig {
    /// Packages to ignore in unused detection.
    pub ignore: Vec<String>,
    /// Skip devDependencies.
    pub skip_dev: bool,
    /// Language override (zh / en).
    pub lang: Option<String>,
    /// Output format override.
    pub format: Option<OutputFormatConfig>,
    /// Extra config file paths to scan (e.g. `jest.config.ts`).
    pub extra_configs: Vec<String>,
    /// License policy (allow/deny lists).
    pub license: Option<LicensePolicy>,
    /// OSV cache TTL in seconds.
    pub cache_ttl: Option<u64>,
    /// Custom npm registry URL.
    pub registry: Option<String>,
    /// CI threshold configuration.
    pub thresholds: Option<Thresholds>,
}

/// The value a missing limit takes: -1, meaning unlimited.
pub fn default_neg_one() -> (r: i32)
    ensures
        r == -1,
{
    -1
}

/// CI threshold configuration for the exit code strategy; a negative limit
/// means unlimited.
#[derive(Debug, Clone, Copy, PartialEq, Eq, Structural)]
pub struct Thresholds {
    /// Max critical vulnerabilities allowed.
    pub max_critical: i32,
    /// Max high vulnerabilities allowed.
    pub max_high: i32,
    /// Max unused dependencies allowed.
    pub max_unused: i32,
    /// Max duplicate dependencies allowed.
    pub max_duplicates: i32,
    /// Fail on license violations.
    pub fail_on_license: bool,
    /// Max high or critical supply chain risks allowed.
    pub max_supply_chain_high: i32,
}

/// The thresholds that never fail: every limit unlimited, licenses ignored.
pub open spec fn unlimited() -> Thresholds {
    Thresholds {
        max_critical: -1i32,
        max_high: -1i32,
        max_unused: -1i32,
        max_duplicates: -1i32,
        fail_on_license: false,
        max_supply_chain_high: -1i32,
    }
}

impl Default for Thresholds {
    fn default() -> (t: Self)
        ensures
            t == unlimited(),
    {
        Thresholds {
            max_critical: -1,
            max_high: -1,
            max_unused: -1,
            max_duplicates: -1,
            fail_on_license: false,
            max_supply_chain_high: -1,
        }
    }
}

impl Default for LicensePolicy {
    fn default() -> (p: Self)
        ensures
            p.allow@.len() == 0,
            p.deny@.len() == 0,
    {
        LicensePolicy { allow: Vec::new(), deny: Vec::new() }
    }
}

impl Default for LockpickConfig {
    fn default() -> (c: Self)
        ensures
            c.ignore@.len() == 0,
            !c.skip_dev,
            c.lang is None,
            c.format is None,
            c.extra_configs@.len() == 0,
            c.license is None,
            c.cache_ttl is None,
            c.registry is None,
            c.thresholds is None,
    {
        LockpickConfig {
            ignore: Vec::new(),
            skip_dev: false,
            lang: None,
            format: None,
            extra_configs: Vec::new(),
            license: None,
            cache_ttl: None,
            registry: None,
            thresholds: None,
        }
    }
}

} // verus!
