//! CI thresholds: when does an analysis result fail the build.
use vstd::prelude::*;

use crate::config::types::{unlimited, Thresholds};
use crate::outdated::VulnReportView;
use crate::text::str_eq;
use crate::{AnalysisResult, RiskKind, Severity, SupplyChainRisk, VulnReport};

verus! {

/// `count` exceeds `limit`: the limit is set (not negative) and the count,
/// taken as an `i32` the way the check converts it, is above it.
pub open spec fn exceeds_spec(count: nat, limit: i32) -> bool {
    limit >= 0 && (count as i32) > limit
}

/// Number of vulnerabilities of severity `s` across all reports.
pub open spec fn count_severity(reports: Seq<VulnReportView>, s: Severity) -> nat
    decreases reports.len(),
{
    if reports.len() == 0 {
        0
    } else {
        count_severity(reports.drop_last(), s) + count_in(reports.last().2, s)
    }
}

/// Number of vulnerabilities of severity `s` in one list.
pub open spec fn count_in(vs: Seq<(Seq<char>, Seq<char>, Severity, Option<Seq<char>>)>, s: Severity) -> nat
    decreases vs.len(),
{
    if vs.len() == 0 {
        0
    } else {
        count_in(vs.drop_last(), s) + if vs.last().2 == s {
            1nat
        } else {
            0nat
        }
    }
}

/// Total number of vulnerabilities across all reports.
pub open spec fn total_vulns(reports: Seq<VulnReportView>) -> nat
    decreases reports.len(),
{
    if reports.len() == 0 {
        0
    } else {
        total_vulns(reports.drop_last()) + reports.last().2.len()
    }
}

/// The vulnerability reports of a result, if any.
pub open spec fn vuln_view(result: &AnalysisResult) -> Option<Seq<VulnReportView>> {
    match result.vulns {
        Some(v) => Some(v.deep_view()),
        None => None,
    }
}

/// The vulnerability limits are exceeded.
pub open spec fn vulns_exceeded(result: &AnalysisResult, t: Thresholds) -> bool {
    match vuln_view(result) {
        None => false,
        Some(rs) => exceeds_spec(count_severity(rs, Severity::Critical), t.max_critical)
            || exceeds_spec(count_severity(rs, Severity::High), t.max_high),
    }
}

/// The unused-dependency limit is exceeded.
pub open spec fn unused_exceeded(result: &AnalysisResult, t: Thresholds) -> bool {
    match result.unused {
        None => false,
        Some(u) => exceeds_spec(u.unused@.len(), t.max_unused),
    }
}

/// The duplicate limit is exceeded.
pub open spec fn duplicates_exceeded(result: &AnalysisResult, t: Thresholds) -> bool {
    match result.duplicates {
        None => false,
        Some(d) => exceeds_spec(d.total_duplicate_packages as nat, t.max_duplicates),
    }
}

/// License violations fail the build.
pub open spec fn license_failed(result: &AnalysisResult, t: Thresholds) -> bool {
    t.fail_on_license && match result.license {
        None => false,
        Some(l) => l.violations@.len() > 0,
    }
}

/// Number of high or critical supply chain risks.
pub open spec fn count_high_risks(risks: Seq<(Seq<char>, Seq<char>, RiskKind, Severity)>) -> nat
    decreases risks.len(),
{
    if risks.len() == 0 {
        0
    } else {
        count_high_risks(risks.drop_last()) + if risks.last().3 == Severity::High
            || risks.last().3 == Severity::Critical {
            1nat
        } else {
            0nat
        }
    }
}

/// The supply chain limit is exceeded.
pub open spec fn supply_chain_exceeded(result: &AnalysisResult, t: Thresholds) -> bool {
    match result.supply_chain {
        None => false,
        Some(sc) => exceeds_spec(count_high_risks(sc.risks.deep_view()), t.max_supply_chain_high),
    }
}

/// Any threshold is exceeded.
pub open spec fn evaluate_spec(result: &AnalysisResult, t: Thresholds) -> bool {
    vulns_exceeded(result, t) || unused_exceeded(result, t) || duplicates_exceeded(result, t)
        || license_failed(result, t) || supply_chain_exceeded(result, t)
}

/// The thresholds behind a `--fail-on` level.
pub open spec fn fail_on_spec(level: Seq<char>) -> Thresholds {
    if level == "critical"@ {
        Thresholds { max_critical: 0, ..unlimited() }
    } else if level == "high"@ {
        Thresholds { max_critical: 0, max_high: 0, ..unlimited() }
    } else if level == "any"@ {
        Thresholds {
            max_critical: 0,
            max_high: 0,
            max_unused: 0,
            max_duplicates: 0,
            fail_on_license: true,
            max_supply_chain_high: 0,
        }
    } else {
        unlimited()
    }
}

/// The vulnerability count of a result fits in a `usize`.
pub open spec fn counts_fit(result: &AnalysisResult) -> bool {
    match vuln_view(result) {
        None => true,
        Some(rs) => total_vulns(rs) <= usize::MAX,
    }
}

/// The number of vulnerabilities of a result (none counts zero), when it
/// fits in a `usize`.
pub fn checked_vuln_total(result: &AnalysisResult) -> (r: Option<usize>)
    ensures
        match vuln_view(result) {
            None => r == Some(0usize),
            Some(rs) => if total_vulns(rs) <= usize::MAX {
                r == Some(total_vulns(rs) as usize)
            } else {
                r is None
            },
        },
{
    let vulns = match &result.vulns {
        Some(v) => v,
        None => return Some(0),
    };
    let ghost rs = vulns.deep_view();
    assert(vuln_view(result) == Some(rs));
    let mut total: usize = 0;
    let mut i: usize = 0;
    while i < vulns.len()
        invariant
            i <= vulns@.len(),
            rs == vulns.deep_view(),
            vuln_view(result) == Some(rs),
            total == total_vulns(rs.take(i as int)),
        decreases vulns@.len() - i,
    {
        assert(rs.take(i + 1).drop_last() =~= rs.take(i as int));
        assert(rs.take(i + 1).last() == rs[i as int]);
        assert(rs[i as int].2.len() == vulns[i as int].vulns@.len());
        match total.checked_add(vulns[i].vulns.len()) {
            Some(t) => total = t,
            None => {
                proof {
                    assert(total_vulns(rs.take(i + 1)) == total + rs[i as int].2.len());
                    lemma_total_prefix(rs, i + 1);
                }
                return None;
            },
        }
        i = i + 1;
    }
    assert(rs.take(i as int) =~= rs);
    Some(total)
}

/// Whether the vulnerabilities of a result can be counted in a `usize`.
pub fn vuln_counts_fit(result: &AnalysisResult) -> (b: bool)
    ensures
        b == counts_fit(result),
{
    checked_vuln_total(result).is_some()
}

/// Returns true if any threshold is exceeded.
pub fn evaluate(result: &AnalysisResult, thresholds: &Thresholds) -> (b: bool)
    requires
        counts_fit(result),
    ensures
        b == evaluate_spec(result, *thresholds),
{
    check_vulns(result, thresholds) || check_unused(result, thresholds) || check_duplicates(
        result,
        thresholds,
    ) || check_license(result, thresholds) || check_supply_chain(result, thresholds)
}

/// Creates thresholds from a `--fail-on` preset level.
pub fn from_fail_on(level: &str) -> (t: Thresholds)
    ensures
        t == fail_on_spec(level@),
{
    if str_eq(level, "critical") {
        Thresholds { max_critical: 0, ..Default::default() }
    } else if str_eq(level, "high") {
        Thresholds { max_critical: 0, max_high: 0, ..Default::default() }
    } else if str_eq(level, "any") {
        Thresholds {
            max_critical: 0,
            max_high: 0,
            max_unused: 0,
            max_duplicates: 0,
            fail_on_license: true,
            max_supply_chain_high: 0,
        }
    } else {
        Thresholds::default()
    }
}

/// Whether `count` exceeds `limit`.
pub fn exceeds(count: usize, limit: i32) -> (b: bool)
    ensures
        b == exceeds_spec(count as nat, limit),
{
    limit >= 0 && #[verifier::truncate] (count as i32) > limit
}

/// Critical and high vulnerability counts against their limits.
pub fn check_vulns(result: &AnalysisResult, t: &Thresholds) -> (b: bool)
    requires
        counts_fit(result),
    ensures
        b == vulns_exceeded(result, *t),
{
    let vulns = match &result.vulns {
        Some(v) => v,
        None => return false,
    };
    let ghost rs = vulns.deep_view();
    let mut critical: usize = 0;
    let mut high: usize = 0;
    let mut i: usize = 0;
    while i < vulns.len()
        invariant
            i <= vulns@.len(),
            rs == vulns.deep_view(),
            total_vulns(rs) <= usize::MAX,
            critical == count_severity(rs.take(i as int), Severity::Critical),
            high == count_severity(rs.take(i as int), Severity::High),
            critical + high <= total_vulns(rs.take(i as int)),
        decreases vulns@.len() - i,
    {
        let vr: &VulnReport = &vulns[i];
        let ghost vs = vr.vulns.deep_view();
        let ghost c0 = critical;
        let ghost h0 = high;
        assert(rs.take(i + 1).drop_last() =~= rs.take(i as int));
        proof {
            lemma_total_prefix(rs, i + 1);
        }
        let mut k: usize = 0;
        while k < vr.vulns.len()
            invariant
                k <= vr.vulns@.len(),
                vs == vr.vulns.deep_view(),
                vs == rs[i as int].2,
                critical == c0 + count_in(vs.take(k as int), Severity::Critical),
                high == h0 + count_in(vs.take(k as int), Severity::High),
                c0 + h0 <= total_vulns(rs.take(i as int)),
                total_vulns(rs.take(i + 1)) <= usize::MAX,
                total_vulns(rs.take(i + 1)) == total_vulns(rs.take(i as int)) + vs.len(),
                count_in(vs.take(k as int), Severity::Critical) + count_in(
                    vs.take(k as int),
                    Severity::High,
                ) <= k,
            decreases vr.vulns@.len() - k,
        {
            assert(vs.take(k + 1).drop_last() =~= vs.take(k as int));
            match vr.vulns[k].severity {
                Severity::Critical => critical = critical + 1,
                Severity::High => high = high + 1,
                _ => {},
            }
            k = k + 1;
        }
        assert(vs.take(k as int) =~= vs);
        i = i + 1;
    }
    assert(rs.take(i as int) =~= rs);
    exceeds(critical, t.max_critical) || exceeds(high, t.max_high)
}

/// A prefix of the reports holds no more vulnerabilities than all of them.
pub proof fn lemma_total_prefix(rs: Seq<VulnReportView>, k: int)
    requires
        0 <= k <= rs.len(),
    ensures
        total_vulns(rs.take(k)) <= total_vulns(rs),
    decreases rs.len(),
{
    if k < rs.len() {
        assert(rs.drop_last().take(k) =~= rs.take(k));
        lemma_total_prefix(rs.drop_last(), k);
    } else {
        assert(rs.take(k) =~= rs);
    }
}

/// The unused-dependency count against its limit.
pub fn check_unused(result: &AnalysisResult, t: &Thresholds) -> (b: bool)
    ensures
        b == unused_exceeded(result, *t),
{
    match &result.unused {
        Some(u) => exceeds(u.unused.len(), t.max_unused),
        None => false,
    }
}

/// The duplicate count against its limit.
pub fn check_duplicates(result: &AnalysisResult, t: &Thresholds) -> (b: bool)
    ensures
        b == duplicates_exceeded(result, *t),
{
    match &result.duplicates {
        Some(d) => exceeds(d.total_duplicate_packages, t.max_duplicates),
        None => false,
    }
}

/// License violations, when they are to fail the build.
pub fn check_license(result: &AnalysisResult, t: &Thresholds) -> (b: bool)
    ensures
        b == license_failed(result, *t),
{
    if !t.fail_on_license {
        return false;
    }
    match &result.license {
        Some(l) => l.violations.len() > 0,
        None => false,
    }
}

/// High and critical supply chain risks against their limit.
pub fn check_supply_chain(result: &AnalysisResult, t: &Thresholds) -> (b: bool)
    ensures
        b == supply_chain_exceeded(result, *t),
{
    let sc = match &result.supply_chain {
        Some(sc) => sc,
        None => return false,
    };
    let ghost rs = sc.risks.deep_view();
    let mut count: usize = 0;
    let mut i: usize = 0;
    while i < sc.risks.len()
        invariant
            i <= sc.risks@.len(),
            rs == sc.risks.deep_view(),
            count == count_high_risks(rs.take(i as int)),
            count <= i,
        decreases sc.risks@.len() - i,
    {
        let r: &SupplyChainRisk = &sc.risks[i];
        assert(rs.take(i + 1).drop_last() =~= rs.take(i as int));
        match r.severity {
            Severity::High | Severity::Critical => count = count + 1,
            _ => {},
        }
        i = i + 1;
    }
    assert(rs.take(i as int) =~= rs);
    exceeds(count, t.max_supply_chain_high)
}

/// Every count the thresholds compare fits in an `i32`.
pub open spec fn counts_small(result: &AnalysisResult) -> bool {
    &&& match vuln_view(result) {
        None => true,
        Some(rs) => count_severity(rs, Severity::Critical) <= i32::MAX && count_severity(rs, Severity::High)
            <= i32::MAX,
    }
    &&& match result.unused {
        None => true,
        Some(u) => u.unused@.len() <= i32::MAX,
    }
    &&& match result.duplicates {
        None => true,
        Some(d) => d.total_duplicate_packages <= i32::MAX,
    }
    &&& match result.supply_chain {
        None => true,
        Some(sc) => count_high_risks(sc.risks.deep_view()) <= i32::MAX,
    }
}

/// The default thresholds (every limit off) never fail a result, and an
/// unknown `--fail-on` level is the default.
pub proof fn law_default_thresholds_never_fail(result: &AnalysisResult, level: Seq<char>)
    ensures
        !evaluate_spec(result, unlimited()),
        level != "critical"@ && level != "high"@ && level != "any"@ ==> fail_on_spec(level) == unlimited(),
{
}

/// `--fail-on critical` fails exactly on a critical vulnerability, and each
/// stricter level fails on everything a laxer one fails on: `critical`,
/// then `high`, then `any`.
pub proof fn law_fail_on_levels(result: &AnalysisResult)
    requires
        counts_small(result),
    ensures
        evaluate_spec(result, fail_on_spec("critical"@)) <==> (vuln_view(result) matches Some(rs)
            && count_severity(rs, Severity::Critical) > 0),
        evaluate_spec(result, fail_on_spec("critical"@)) ==> evaluate_spec(result, fail_on_spec("high"@)),
        evaluate_spec(result, fail_on_spec("high"@)) ==> evaluate_spec(result, fail_on_spec("any"@)),
{
    reveal_strlit("critical");
    reveal_strlit("high");
    reveal_strlit("any");
    assert("critical"@.len() == 8 && "high"@.len() == 4 && "any"@.len() == 3);
    assert("critical"@ != "high"@);
    assert("critical"@ != "any"@);
    assert("high"@ != "any"@);
}

/// The license check fails a result exactly when license failures are asked
/// for and its license report lists at least one violation: on a result that
/// holds only a license report, the verdict is that and nothing else, and a
/// report without violations never changes the verdict on any result, however
/// many packages it lists.
pub proof fn law_license_fails_exactly_on_violations(result: &AnalysisResult, t: Thresholds)
    ensures
        result.vulns is None && result.unused is None && result.duplicates is None
            && result.supply_chain is None ==> (evaluate_spec(result, t) <==> (t.fail_on_license
            && (result.license matches Some(l) && l.violations@.len() > 0))),
        (result.license matches Some(l) && l.violations@.len() == 0) ==> (evaluate_spec(result, t)
            <==> evaluate_spec(&AnalysisResult { license: None, ..*result }, t)),
{
}

} // verus!
