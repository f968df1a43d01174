//! Comparing an analysis result with a baseline: which issues are new and
//! which are resolved.
use vstd::prelude::*;

use crate::i18n::{translate, I18n};
use crate::outdated::VulnReportView;
use crate::text::{dec, push_str, push_u64};
use crate::threshold::{checked_vuln_total, total_vulns, vuln_view};
use crate::{AnalysisResult, UnusedDep};

verus! {

/// What appeared and what disappeared in one category.
#[derive(Debug, Clone)]
pub struct DiffSection<T> {
    pub added: Vec<T>,
    pub removed: Vec<T>,
}

/// Issue counts of the two results and of the changes between them.
#[derive(Debug, Clone, Copy)]
pub struct DiffSummary {
    pub baseline_issues: usize,
    pub current_issues: usize,
    pub new_issues: usize,
    pub resolved_issues: usize,
}

/// The differences between a baseline result and the current one.
#[derive(Debug, Clone)]
pub struct DiffReport {
    pub unused: DiffSection<UnusedDep>,
    pub vulns: DiffSection<String>,
    pub duplicates: DiffSection<String>,
    pub license_violations: DiffSection<String>,
    pub outdated: DiffSection<String>,
    pub supply_chain: DiffSection<String>,
    pub summary: DiffSummary,
}

/// The names of a result's unused dependencies.
pub open spec fn unused_names(r: AnalysisResult) -> Seq<Seq<char>> {
    match r.unused {
        Some(u) => u.unused@.map_values(|d: UnusedDep| d.name@),
        None => Seq::empty(),
    }
}

/// The unused dependencies of a result.
pub open spec fn unused_list(r: AnalysisResult) -> Seq<UnusedDep> {
    match r.unused {
        Some(u) => u.unused@,
        None => Seq::empty(),
    }
}

/// The entries of `ds` whose name is not among `names`, in order.
pub open spec fn unused_not_in(ds: Seq<UnusedDep>, names: Seq<Seq<char>>) -> Seq<UnusedDep>
    decreases ds.len(),
{
    if ds.len() == 0 {
        Seq::empty()
    } else {
        let rest = unused_not_in(ds.drop_last(), names);
        if names.contains(ds.last().name@) {
            rest
        } else {
            rest.push(ds.last())
        }
    }
}

/// The keys of a vulnerability report list: `package@version:id`.
pub open spec fn vuln_keys_of(rs: Seq<VulnReportView>) -> Seq<Seq<char>>
    decreases rs.len(),
{
    if rs.len() == 0 {
        Seq::empty()
    } else {
        let r = rs.last();
        vuln_keys_of(rs.drop_last()) + r.2.map_values(
            |v: (Seq<char>, Seq<char>, crate::Severity, Option<Seq<char>>)|
                r.0 + "@"@ + r.1 + ":"@ + v.0,
        )
    }
}

/// The vulnerability keys of a result.
pub open spec fn vuln_keys(r: AnalysisResult) -> Seq<Seq<char>> {
    match r.vulns {
        Some(v) => vuln_keys_of(v.deep_view()),
        None => Seq::empty(),
    }
}

/// The duplicate keys of a result: package names.
pub open spec fn duplicate_keys(r: AnalysisResult) -> Seq<Seq<char>> {
    match r.duplicates {
        Some(d) => d.duplicates@.map_values(|e: crate::DuplicateDep| e.name@),
        None => Seq::empty(),
    }
}

/// The license violation keys of a result: `package:license`.
pub open spec fn license_keys(r: AnalysisResult) -> Seq<Seq<char>> {
    match r.license {
        Some(l) => l.violations@.map_values(
            |v: crate::LicenseViolation| v.package@ + ":"@ + v.license@,
        ),
        None => Seq::empty(),
    }
}

/// The outdated keys of a result: `name@current`.
pub open spec fn outdated_keys(r: AnalysisResult) -> Seq<Seq<char>> {
    match r.outdated {
        Some(o) => o.entries@.map_values(|e: crate::OutdatedEntry| e.name@ + "@"@ + e.current@),
        None => Seq::empty(),
    }
}

/// The supply chain keys of a result: `package@version`.
pub open spec fn supply_chain_keys(r: AnalysisResult) -> Seq<Seq<char>> {
    match r.supply_chain {
        Some(s) => s.risks@.map_values(|x: crate::SupplyChainRisk| x.package@ + "@"@ + x.version@),
        None => Seq::empty(),
    }
}

/// The distinct keys of `curr` that are not in `base`, in order of first
/// appearance (a set difference).
pub open spec fn new_keys(curr: Seq<Seq<char>>, base: Seq<Seq<char>>) -> Seq<Seq<char>>
    decreases curr.len(),
{
    if curr.len() == 0 {
        Seq::empty()
    } else {
        let rest = new_keys(curr.drop_last(), base);
        if base.contains(curr.last()) || rest.contains(curr.last()) {
            rest
        } else {
            rest.push(curr.last())
        }
    }
}

/// A set difference holds no more keys than its first operand.
pub proof fn lemma_new_keys_len(curr: Seq<Seq<char>>, base: Seq<Seq<char>>)
    ensures
        new_keys(curr, base).len() <= curr.len(),
    decreases curr.len(),
{
    if curr.len() > 0 {
        lemma_new_keys_len(curr.drop_last(), base);
    }
}

/// A key category compared: (added, removed).
pub open spec fn key_diff(base: Seq<Seq<char>>, curr: Seq<Seq<char>>) -> (Seq<Seq<char>>, Seq<Seq<char>>) {
    (new_keys(curr, base), new_keys(base, curr))
}

/// The number of issues in a result: unused dependencies, vulnerabilities,
/// duplicates, license violations, outdated packages, supply chain risks.
pub open spec fn issue_count(r: AnalysisResult) -> nat {
    (match r.unused {
        Some(u) => u.unused@.len(),
        None => 0,
    }) + (match r.vulns {
        Some(v) => total_vulns(v.deep_view()),
        None => 0,
    }) + (match r.duplicates {
        Some(d) => d.duplicates@.len(),
        None => 0,
    }) + (match r.license {
        Some(l) => l.violations@.len(),
        None => 0,
    }) + (match r.outdated {
        Some(o) => o.total_outdated as nat,
        None => 0,
    }) + (match r.supply_chain {
        Some(s) => s.risks@.len(),
        None => 0,
    })
}

/// Every count a comparison adds up, for both results together, fits in a
/// `usize`.
pub open spec fn diff_counts_fit(baseline: AnalysisResult, current: AnalysisResult) -> bool {
    issue_count(baseline) + issue_count(current) + outdated_keys(baseline).len() + outdated_keys(
        current,
    ).len() <= usize::MAX
}

/// The number of issues in a result, when it fits in a `usize`.
#[verifier::rlimit(30)]
fn checked_issue_count(r: &AnalysisResult) -> (c: Option<usize>)
    ensures
        match c {
            Some(n) => n == issue_count(*r),
            None => issue_count(*r) > usize::MAX,
        },
{
    let vulns: usize = match checked_vuln_total(r) {
        Some(n) => n,
        None => {
            assert(vuln_view(r) matches Some(rs) && total_vulns(rs) > usize::MAX);
            return None;
        },
    };
    let unused: u128 = match &r.unused {
        Some(u) => u.unused.len() as u128,
        None => 0,
    };
    let dups: u128 = match &r.duplicates {
        Some(d) => d.duplicates.len() as u128,
        None => 0,
    };
    let lic: u128 = match &r.license {
        Some(l) => l.violations.len() as u128,
        None => 0,
    };
    let outd: u128 = match &r.outdated {
        Some(o) => o.total_outdated as u128,
        None => 0,
    };
    let sc: u128 = match &r.supply_chain {
        Some(s) => s.risks.len() as u128,
        None => 0,
    };
    assert(vulns == (match r.vulns {
        Some(v) => total_vulns(v.deep_view()),
        None => 0,
    }));
    let total: u128 = unused + vulns as u128 + dups + lic + outd + sc;
    assert(total == issue_count(*r));
    if total <= usize::MAX as u128 {
        Some(total as usize)
    } else {
        None
    }
}

/// The number of outdated entries of a result.
fn outdated_len(r: &AnalysisResult) -> (n: usize)
    ensures
        n == outdated_keys(*r).len(),
{
    match &r.outdated {
        Some(o) => o.entries.len(),
        None => 0,
    }
}

/// Whether every count a comparison of the two results adds up fits in a
/// `usize`.
pub fn diff_counts_fit_check(baseline: &AnalysisResult, current: &AnalysisResult) -> (b: bool)
    ensures
        b == diff_counts_fit(*baseline, *current),
{
    let x = match checked_issue_count(baseline) {
        Some(x) => x,
        None => return false,
    };
    let y = match checked_issue_count(current) {
        Some(y) => y,
        None => return false,
    };
    let s = match x.checked_add(y) {
        Some(s) => s,
        None => return false,
    };
    let t = match s.checked_add(outdated_len(baseline)) {
        Some(t) => t,
        None => return false,
    };
    t.checked_add(outdated_len(current)).is_some()
}

/// The report comparing `baseline` with `current`.
pub open spec fn diff_report_is(d: DiffReport, baseline: AnalysisResult, current: AnalysisResult) -> bool {
    let vu = key_diff(vuln_keys(baseline), vuln_keys(current));
    let du = key_diff(duplicate_keys(baseline), duplicate_keys(current));
    let li = key_diff(license_keys(baseline), license_keys(current));
    let ou = key_diff(outdated_keys(baseline), outdated_keys(current));
    let sc = key_diff(supply_chain_keys(baseline), supply_chain_keys(current));
    let ua = unused_not_in(unused_list(current), unused_names(baseline));
    let ur = unused_not_in(unused_list(baseline), unused_names(current));
    &&& d.unused.added@ == ua
    &&& d.unused.removed@ == ur
    &&& (d.vulns.added.deep_view(), d.vulns.removed.deep_view()) == vu
    &&& (d.duplicates.added.deep_view(), d.duplicates.removed.deep_view()) == du
    &&& (d.license_violations.added.deep_view(), d.license_violations.removed.deep_view()) == li
    &&& (d.outdated.added.deep_view(), d.outdated.removed.deep_view()) == ou
    &&& (d.supply_chain.added.deep_view(), d.supply_chain.removed.deep_view()) == sc
    &&& d.summary.baseline_issues == issue_count(baseline)
    &&& d.summary.current_issues == issue_count(current)
    &&& d.summary.new_issues == ua.len() + vu.0.len() + du.0.len() + li.0.len() + ou.0.len()
        + sc.0.len()
    &&& d.summary.resolved_issues == ur.len() + vu.1.len() + du.1.len() + li.1.len() + ou.1.len()
        + sc.1.len()
}

/// Whether `key` is among `keys`.
fn contains_key(keys: &Vec<String>, key: &str) -> (b: bool)
    ensures
        b == keys.deep_view().contains(key@),
{
    crate::scanner::unused::is_used(keys.as_slice(), key)
}

/// The distinct keys of `curr` that are not in `base`.
fn collect_new(curr: &Vec<String>, base: &Vec<String>) -> (r: Vec<String>)
    ensures
        r.deep_view() == new_keys(curr.deep_view(), base.deep_view()),
{
    let ghost cv = curr.deep_view();
    let ghost bv = base.deep_view();
    let mut out: Vec<String> = Vec::new();
    let mut i: usize = 0;
    assert(out.deep_view() =~= new_keys(cv.take(0), bv));
    while i < curr.len()
        invariant
            i <= cv.len(),
            cv == curr.deep_view(),
            bv == base.deep_view(),
            out.deep_view() == new_keys(cv.take(i as int), bv),
        decreases cv.len() - i,
    {
        assert(cv.take(i + 1).drop_last() =~= cv.take(i as int));
        assert(curr@[i as int]@ == cv[i as int]);
        let k = curr[i].as_str();
        if !contains_key(base, k) && !contains_key(&out, k) {
            let ghost before = out.deep_view();
            out.push(curr[i].clone());
            assert(out.deep_view() =~= before.push(cv[i as int]));
        }
        i = i + 1;
    }
    assert(cv.take(cv.len() as int) =~= cv);
    out
}

/// The names of a result's unused dependencies.
fn unused_name_list(r: &AnalysisResult) -> (v: Vec<String>)
    ensures
        v.deep_view() == unused_names(*r),
{
    let mut out: Vec<String> = Vec::new();
    match &r.unused {
        Some(u) => {
            let mut i: usize = 0;
            while i < u.unused.len()
                invariant
                    i <= u.unused@.len(),
                    out.deep_view() == u.unused@.take(i as int).map_values(|d: UnusedDep| d.name@),
                decreases u.unused@.len() - i,
            {
                let ghost before = out.deep_view();
                out.push(u.unused[i].name.clone());
                assert(out.deep_view() =~= before.push(u.unused@[i as int].name@));
                assert(u.unused@.take(i + 1).map_values(|d: UnusedDep| d.name@) =~= u.unused@.take(
                    i as int,
                ).map_values(|d: UnusedDep| d.name@).push(u.unused@[i as int].name@));
                i = i + 1;
            }
            assert(u.unused@.take(u.unused@.len() as int) =~= u.unused@);
        },
        None => {
            assert(out.deep_view() =~= Seq::<Seq<char>>::empty());
        },
    }
    out
}

/// A copy of an unused-dependency entry.
fn copy_unused(d: &UnusedDep) -> (r: UnusedDep)
    ensures
        r == *d,
{
    UnusedDep { name: d.name.clone(), version: d.version.clone(), dep_type: d.dep_type }
}

/// The entries of `r`'s unused dependencies whose name is not in `names`.
fn unused_filtered(r: &AnalysisResult, names: &Vec<String>) -> (v: Vec<UnusedDep>)
    ensures
        v@ == unused_not_in(unused_list(*r), names.deep_view()),
{
    let mut out: Vec<UnusedDep> = Vec::new();
    let ghost nv = names.deep_view();
    match &r.unused {
        Some(u) => {
            let ghost ds = u.unused@;
            let mut i: usize = 0;
            assert(out@ =~= unused_not_in(ds.take(0), nv));
            while i < u.unused.len()
                invariant
                    i <= ds.len(),
                    ds == u.unused@,
                    nv == names.deep_view(),
                    out@ == unused_not_in(ds.take(i as int), nv),
                decreases ds.len() - i,
            {
                assert(ds.take(i + 1).drop_last() =~= ds.take(i as int));
                if !contains_key(names, u.unused[i].name.as_str()) {
                    out.push(copy_unused(&u.unused[i]));
                }
                i = i + 1;
            }
            assert(ds.take(ds.len() as int) =~= ds);
        },
        None => {
            assert(out@ =~= Seq::<UnusedDep>::empty());
        },
    }
    out
}

/// The vulnerability keys of a result.
fn vuln_key_list(r: &AnalysisResult) -> (v: Vec<String>)
    ensures
        v.deep_view() == vuln_keys(*r),
{
    let mut out: Vec<String> = Vec::new();
    match &r.vulns {
        Some(rs) => {
            let ghost rv = rs.deep_view();
            let mut i: usize = 0;
            assert(out.deep_view() =~= vuln_keys_of(rv.take(0)));
            while i < rs.len()
                invariant
                    i <= rv.len(),
                    rv == rs.deep_view(),
                    out.deep_view() == vuln_keys_of(rv.take(i as int)),
                decreases rv.len() - i,
            {
                assert(rv.take(i + 1).drop_last() =~= rv.take(i as int));
                let vr = &rs[i];
                let ghost x = rv[i as int];
                assert(x == vr.deep_view());
                let ghost start = out.deep_view();
                let mut k: usize = 0;
                while k < vr.vulns.len()
                    invariant
                        k <= vr.vulns@.len(),
                        x == vr.deep_view(),
                        out.deep_view() == start + x.2.take(k as int).map_values(
                            |v: (Seq<char>, Seq<char>, crate::Severity, Option<Seq<char>>)|
                                x.0 + "@"@ + x.1 + ":"@ + v.0,
                        ),
                    decreases vr.vulns@.len() - k,
                {
                    let mut key = vr.package.clone();
                    push_str(&mut key, "@");
                    push_str(&mut key, vr.version.as_str());
                    push_str(&mut key, ":");
                    push_str(&mut key, vr.vulns[k].id.as_str());
                    let ghost before = out.deep_view();
                    out.push(key);
                    assert(x.2[k as int] == vr.vulns@[k as int].deep_view());
                    assert(out.deep_view() =~= before.push(key@));
                    assert(x.2.take(k + 1).map_values(
                        |v: (Seq<char>, Seq<char>, crate::Severity, Option<Seq<char>>)|
                            x.0 + "@"@ + x.1 + ":"@ + v.0,
                    ) =~= x.2.take(k as int).map_values(
                        |v: (Seq<char>, Seq<char>, crate::Severity, Option<Seq<char>>)|
                            x.0 + "@"@ + x.1 + ":"@ + v.0,
                    ).push(key@));
                    k = k + 1;
                }
                assert(x.2.take(x.2.len() as int) =~= x.2);
                i = i + 1;
            }
            assert(rv.take(rv.len() as int) =~= rv);
        },
        None => {
            assert(out.deep_view() =~= Seq::<Seq<char>>::empty());
        },
    }
    out
}

/// The duplicate keys of a result.
fn duplicate_key_list(r: &AnalysisResult) -> (v: Vec<String>)
    ensures
        v.deep_view() == duplicate_keys(*r),
{
    let mut out: Vec<String> = Vec::new();
    match &r.duplicates {
        Some(d) => {
            let ds = &d.duplicates;
            let mut i: usize = 0;
            while i < ds.len()
                invariant
                    i <= ds@.len(),
                    out.deep_view() == ds@.take(i as int).map_values(|e: crate::DuplicateDep| e.name@),
                decreases ds@.len() - i,
            {
                let ghost before = out.deep_view();
                out.push(ds[i].name.clone());
                assert(out.deep_view() =~= before.push(ds@[i as int].name@));
                assert(ds@.take(i + 1).map_values(|e: crate::DuplicateDep| e.name@) =~= ds@.take(
                    i as int,
                ).map_values(|e: crate::DuplicateDep| e.name@).push(ds@[i as int].name@));
                i = i + 1;
            }
            assert(ds@.take(ds@.len() as int) =~= ds@);
        },
        None => {
            assert(out.deep_view() =~= Seq::<Seq<char>>::empty());
        },
    }
    out
}

/// The license violation keys of a result.
fn license_key_list(r: &AnalysisResult) -> (v: Vec<String>)
    ensures
        v.deep_view() == license_keys(*r),
{
    let mut out: Vec<String> = Vec::new();
    match &r.license {
        Some(l) => {
            let vs = &l.violations;
            let mut i: usize = 0;
            while i < vs.len()
                invariant
                    i <= vs@.len(),
                    out.deep_view() == vs@.take(i as int).map_values(
                        |v: crate::LicenseViolation| v.package@ + ":"@ + v.license@,
                    ),
                decreases vs@.len() - i,
            {
                let mut key = vs[i].package.clone();
                push_str(&mut key, ":");
                push_str(&mut key, vs[i].license.as_str());
                let ghost before = out.deep_view();
                out.push(key);
                assert(out.deep_view() =~= before.push(key@));
                assert(vs@.take(i + 1).map_values(
                    |v: crate::LicenseViolation| v.package@ + ":"@ + v.license@,
                ) =~= vs@.take(i as int).map_values(
                    |v: crate::LicenseViolation| v.package@ + ":"@ + v.license@,
                ).push(key@));
                i = i + 1;
            }
            assert(vs@.take(vs@.len() as int) =~= vs@);
        },
        None => {
            assert(out.deep_view() =~= Seq::<Seq<char>>::empty());
        },
    }
    out
}

/// The outdated keys of a result.
fn outdated_key_list(r: &AnalysisResult) -> (v: Vec<String>)
    ensures
        v.deep_view() == outdated_keys(*r),
{
    let mut out: Vec<String> = Vec::new();
    match &r.outdated {
        Some(o) => {
            let es = &o.entries;
            let mut i: usize = 0;
            while i < es.len()
                invariant
                    i <= es@.len(),
                    out.deep_view() == es@.take(i as int).map_values(
                        |e: crate::OutdatedEntry| e.name@ + "@"@ + e.current@,
                    ),
                decreases es@.len() - i,
            {
                let mut key = es[i].name.clone();
                push_str(&mut key, "@");
                push_str(&mut key, es[i].current.as_str());
                let ghost before = out.deep_view();
                out.push(key);
                assert(out.deep_view() =~= before.push(key@));
                assert(es@.take(i + 1).map_values(|e: crate::OutdatedEntry| e.name@ + "@"@ + e.current@)
                    =~= es@.take(i as int).map_values(
                    |e: crate::OutdatedEntry| e.name@ + "@"@ + e.current@,
                ).push(key@));
                i = i + 1;
            }
            assert(es@.take(es@.len() as int) =~= es@);
        },
        None => {
            assert(out.deep_view() =~= Seq::<Seq<char>>::empty());
        },
    }
    out
}

/// The supply chain keys of a result.
fn supply_chain_key_list(r: &AnalysisResult) -> (v: Vec<String>)
    ensures
        v.deep_view() == supply_chain_keys(*r),
{
    let mut out: Vec<String> = Vec::new();
    match &r.supply_chain {
        Some(s) => {
            let rs = &s.risks;
            let mut i: usize = 0;
            while i < rs.len()
                invariant
                    i <= rs@.len(),
                    out.deep_view() == rs@.take(i as int).map_values(
                        |x: crate::SupplyChainRisk| x.package@ + "@"@ + x.version@,
                    ),
                decreases rs@.len() - i,
            {
                let mut key = rs[i].package.clone();
                push_str(&mut key, "@");
                push_str(&mut key, rs[i].version.as_str());
                let ghost before = out.deep_view();
                out.push(key);
                assert(out.deep_view() =~= before.push(key@));
                assert(rs@.take(i + 1).map_values(
                    |x: crate::SupplyChainRisk| x.package@ + "@"@ + x.version@,
                ) =~= rs@.take(i as int).map_values(
                    |x: crate::SupplyChainRisk| x.package@ + "@"@ + x.version@,
                ).push(key@));
                i = i + 1;
            }
            assert(rs@.take(rs@.len() as int) =~= rs@);
        },
        None => {
            assert(out.deep_view() =~= Seq::<Seq<char>>::empty());
        },
    }
    out
}

/// Compares two key lists.
fn diff_keys(base: &Vec<String>, curr: &Vec<String>) -> (d: DiffSection<String>)
    ensures
        (d.added.deep_view(), d.removed.deep_view()) == key_diff(base.deep_view(), curr.deep_view()),
{
    DiffSection { added: collect_new(curr, base), removed: collect_new(base, curr) }
}

/// The number of issues in a result.
fn count_issues(r: &AnalysisResult) -> (n: usize)
    requires
        issue_count(*r) <= usize::MAX,
    ensures
        n == issue_count(*r),
{
    let unused: usize = match &r.unused {
        Some(u) => u.unused.len(),
        None => 0,
    };
    let vulns: usize = match &r.vulns {
        Some(v) => {
            let ghost rv = v.deep_view();
            let mut total: usize = 0;
            let mut i: usize = 0;
            while i < v.len()
                invariant
                    i <= v@.len(),
                    rv == v.deep_view(),
                    total_vulns(rv) <= usize::MAX,
                    total == total_vulns(rv.take(i as int)),
                decreases v@.len() - i,
            {
                assert(rv.take(i + 1).drop_last() =~= rv.take(i as int));
                proof {
                    crate::threshold::lemma_total_prefix(rv, i + 1);
                }
                assert(v@[i as int].vulns@.len() == rv[i as int].2.len());
                total = total + v[i].vulns.len();
                i = i + 1;
            }
            assert(rv.take(rv.len() as int) =~= rv);
            total
        },
        None => 0,
    };
    let dups: usize = match &r.duplicates {
        Some(d) => d.duplicates.len(),
        None => 0,
    };
    let lics: usize = match &r.license {
        Some(l) => l.violations.len(),
        None => 0,
    };
    let outdated: usize = match &r.outdated {
        Some(o) => o.total_outdated,
        None => 0,
    };
    let supply_chain: usize = match &r.supply_chain {
        Some(s) => s.risks.len(),
        None => 0,
    };
    unused + vulns + dups + lics + outdated + supply_chain
}

/// Compares the current result with a baseline.
pub fn compute_diff(baseline: &AnalysisResult, current: &AnalysisResult) -> (d: DiffReport)
    requires
        diff_counts_fit(*baseline, *current),
    ensures
        diff_report_is(d, *baseline, *current),
{
    let base_names = unused_name_list(baseline);
    let curr_names = unused_name_list(current);
    let added = unused_filtered(current, &base_names);
    let removed = unused_filtered(baseline, &curr_names);
    let vulns = diff_keys(&vuln_key_list(baseline), &vuln_key_list(current));
    let duplicates = diff_keys(&duplicate_key_list(baseline), &duplicate_key_list(current));
    let license_violations = diff_keys(&license_key_list(baseline), &license_key_list(current));
    let outdated = diff_keys(&outdated_key_list(baseline), &outdated_key_list(current));
    let supply_chain = diff_keys(&supply_chain_key_list(baseline), &supply_chain_key_list(current));
    proof {
        lemma_unused_not_in_len(unused_list(*current), unused_names(*baseline));
        lemma_unused_not_in_len(unused_list(*baseline), unused_names(*current));
        lemma_new_keys_len(vuln_keys(*current), vuln_keys(*baseline));
        lemma_new_keys_len(vuln_keys(*baseline), vuln_keys(*current));
        lemma_vuln_keys_len(*baseline);
        lemma_vuln_keys_len(*current);
        lemma_new_keys_len(duplicate_keys(*current), duplicate_keys(*baseline));
        lemma_new_keys_len(duplicate_keys(*baseline), duplicate_keys(*current));
        lemma_new_keys_len(license_keys(*current), license_keys(*baseline));
        lemma_new_keys_len(license_keys(*baseline), license_keys(*current));
        lemma_new_keys_len(outdated_keys(*current), outdated_keys(*baseline));
        lemma_new_keys_len(outdated_keys(*baseline), outdated_keys(*current));
        lemma_new_keys_len(supply_chain_keys(*current), supply_chain_keys(*baseline));
        lemma_new_keys_len(supply_chain_keys(*baseline), supply_chain_keys(*current));
    }
    let new_issues = added.len() + vulns.added.len() + duplicates.added.len()
        + license_violations.added.len() + outdated.added.len() + supply_chain.added.len();
    let resolved_issues = removed.len() + vulns.removed.len() + duplicates.removed.len()
        + license_violations.removed.len() + outdated.removed.len() + supply_chain.removed.len();
    let summary = DiffSummary {
        baseline_issues: count_issues(baseline),
        current_issues: count_issues(current),
        new_issues,
        resolved_issues,
    };
    DiffReport {
        unused: DiffSection { added, removed },
        vulns,
        duplicates,
        license_violations,
        outdated,
        supply_chain,
        summary,
    }
}

/// Filtering keeps no more entries than there were.
pub proof fn lemma_unused_not_in_len(ds: Seq<UnusedDep>, names: Seq<Seq<char>>)
    ensures
        unused_not_in(ds, names).len() <= ds.len(),
    decreases ds.len(),
{
    if ds.len() > 0 {
        lemma_unused_not_in_len(ds.drop_last(), names);
    }
}

/// There is one vulnerability key per vulnerability.
pub proof fn lemma_vuln_keys_len(r: AnalysisResult)
    ensures
        vuln_keys(r).len() == match r.vulns {
            Some(v) => total_vulns(v.deep_view()),
            None => 0,
        },
{
    match r.vulns {
        Some(v) => lemma_vuln_keys_of_len(v.deep_view()),
        None => {},
    }
}

/// There is one vulnerability key per vulnerability.
pub proof fn lemma_vuln_keys_of_len(rs: Seq<VulnReportView>)
    ensures
        vuln_keys_of(rs).len() == total_vulns(rs),
    decreases rs.len(),
{
    if rs.len() > 0 {
        lemma_vuln_keys_of_len(rs.drop_last());
    }
}

/// The change of the issue total: `+new, -resolved`, either part alone, or
/// a dash when nothing changed.
pub open spec fn delta_text(new: usize, resolved: usize) -> Seq<char> {
    if new > 0 && resolved > 0 {
        "+"@ + dec(new as nat) + ", -"@ + dec(resolved as nat)
    } else if new > 0 {
        "+"@ + dec(new as nat)
    } else if resolved > 0 {
        "-"@ + dec(resolved as nat)
    } else {
        "—"@
    }
}

/// The change of the issue total.
pub fn format_delta(new: usize, resolved: usize) -> (s: String)
    ensures
        s@ == delta_text(new, resolved),
{
    let mut s = String::new();
    if new > 0 && resolved > 0 {
        push_str(&mut s, "+");
        push_u64(&mut s, new as u64);
        push_str(&mut s, ", -");
        push_u64(&mut s, resolved as u64);
    } else if new > 0 {
        push_str(&mut s, "+");
        push_u64(&mut s, new as u64);
    } else if resolved > 0 {
        push_str(&mut s, "-");
        push_u64(&mut s, resolved as u64);
    } else {
        push_str(&mut s, "—");
    }
    s
}

/// Lines `  {mark} {item}` for each item.
pub open spec fn item_lines(items: Seq<Seq<char>>, mark: Seq<char>) -> Seq<char>
    decreases items.len(),
{
    if items.len() == 0 {
        Seq::empty()
    } else {
        item_lines(items.drop_last(), mark) + mark + items.last() + "\n"@
    }
}

/// The `name version` text of unused entries.
pub open spec fn unused_items(ds: Seq<UnusedDep>) -> Seq<Seq<char>> {
    ds.map_values(|d: UnusedDep| d.name@ + " "@ + d.version@)
}

/// One category in the terminal comparison: the added items, then the
/// removed ones, each list only when it is not empty.
pub open spec fn terminal_part(added: Seq<Seq<char>>, removed: Seq<Seq<char>>, label: Seq<char>) -> Seq<
    char,
> {
    (if added.len() > 0 {
        "\n+ "@ + label + " ("@ + dec(added.len()) + "):\n"@ + item_lines(added, "  + "@)
    } else {
        Seq::empty()
    }) + (if removed.len() > 0 {
        "\n- "@ + label + " ("@ + dec(removed.len()) + "):\n"@ + item_lines(removed, "  - "@)
    } else {
        Seq::empty()
    })
}

/// The terminal rendering of a comparison.
pub open spec fn terminal_text(d: DiffReport, lang: crate::i18n::Lang) -> Seq<char> {
    "\n"@ + translate(lang, "diff_summary"@) + ": "@ + dec(d.summary.baseline_issues as nat) + " -> "@
        + dec(d.summary.current_issues as nat) + " ("@ + dec(d.summary.new_issues as nat) + " "@
        + translate(lang, "diff_new"@) + ", "@ + dec(d.summary.resolved_issues as nat) + " "@
        + translate(lang, "diff_resolved"@) + ")\n"@ + terminal_part(
        unused_items(d.unused.added@),
        unused_items(d.unused.removed@),
        translate(lang, "unused_deps"@),
    ) + terminal_part(
        d.vulns.added.deep_view(),
        d.vulns.removed.deep_view(),
        translate(lang, "vulns"@),
    ) + terminal_part(
        d.duplicates.added.deep_view(),
        d.duplicates.removed.deep_view(),
        translate(lang, "duplicates"@),
    ) + terminal_part(
        d.license_violations.added.deep_view(),
        d.license_violations.removed.deep_view(),
        translate(lang, "license_violations"@),
    ) + terminal_part(
        d.outdated.added.deep_view(),
        d.outdated.removed.deep_view(),
        translate(lang, "outdated_deps"@),
    ) + terminal_part(
        d.supply_chain.added.deep_view(),
        d.supply_chain.removed.deep_view(),
        translate(lang, "supply_chain_risks"@),
    )
}

/// The `name version` texts of unused entries.
fn unused_texts(ds: &Vec<UnusedDep>) -> (v: Vec<String>)
    ensures
        v.deep_view() == unused_items(ds@),
{
    let mut out: Vec<String> = Vec::new();
    let mut i: usize = 0;
    while i < ds.len()
        invariant
            i <= ds@.len(),
            out.deep_view() == unused_items(ds@.take(i as int)),
        decreases ds@.len() - i,
    {
        let mut s = ds[i].name.clone();
        push_str(&mut s, " ");
        push_str(&mut s, ds[i].version.as_str());
        let ghost before = out.deep_view();
        out.push(s);
        assert(out.deep_view() =~= before.push(s@));
        assert(unused_items(ds@.take(i + 1)) =~= unused_items(ds@.take(i as int)).push(s@));
        i = i + 1;
    }
    assert(ds@.take(ds@.len() as int) =~= ds@);
    out
}

/// Appends a line `{mark}{item}` for each item.
fn push_items(out: &mut String, items: &Vec<String>, mark: &str)
    ensures
        final(out)@ == old(out)@ + item_lines(items.deep_view(), mark@),
{
    let ghost iv = items.deep_view();
    let ghost start = out@;
    let mut i: usize = 0;
    assert(start + item_lines(iv.take(0), mark@) =~= start);
    while i < items.len()
        invariant
            i <= iv.len(),
            iv == items.deep_view(),
            out@ == start + item_lines(iv.take(i as int), mark@),
        decreases iv.len() - i,
    {
        assert(iv.take(i + 1).drop_last() =~= iv.take(i as int));
        assert(items@[i as int]@ == iv[i as int]);
        push_str(out, mark);
        push_str(out, items[i].as_str());
        push_str(out, "\n");
        i = i + 1;
        assert(out@ =~= start + item_lines(iv.take(i as int), mark@));
    }
    assert(iv.take(iv.len() as int) =~= iv);
}

/// Appends one category of the terminal comparison.
fn push_terminal_part(out: &mut String, added: &Vec<String>, removed: &Vec<String>, label: &str)
    ensures
        final(out)@ == old(out)@ + terminal_part(added.deep_view(), removed.deep_view(), label@),
{
    let ghost a0 = out@;
    if added.len() > 0 {
        push_str(out, "\n+ ");
        push_str(out, label);
        push_str(out, " (");
        push_u64(out, added.len() as u64);
        push_str(out, "):\n");
        push_items(out, added, "  + ");
    }
    let ghost a1 = out@;
    if removed.len() > 0 {
        push_str(out, "\n- ");
        push_str(out, label);
        push_str(out, " (");
        push_u64(out, removed.len() as u64);
        push_str(out, "):\n");
        push_items(out, removed, "  - ");
    }
    assert(out@ =~= a0 + terminal_part(added.deep_view(), removed.deep_view(), label@));
}

/// Renders a comparison for the terminal.
pub fn render_terminal(report: &DiffReport, i18n: &I18n) -> (s: String)
    ensures
        s@ == terminal_text(*report, i18n.lang),
{
    let mut out = String::new();
    push_str(&mut out, "\n");
    push_str(&mut out, i18n.t("diff_summary"));
    push_str(&mut out, ": ");
    push_u64(&mut out, report.summary.baseline_issues as u64);
    push_str(&mut out, " -> ");
    push_u64(&mut out, report.summary.current_issues as u64);
    push_str(&mut out, " (");
    push_u64(&mut out, report.summary.new_issues as u64);
    push_str(&mut out, " ");
    push_str(&mut out, i18n.t("diff_new"));
    push_str(&mut out, ", ");
    push_u64(&mut out, report.summary.resolved_issues as u64);
    push_str(&mut out, " ");
    push_str(&mut out, i18n.t("diff_resolved"));
    push_str(&mut out, ")\n");
    let ghost head = out@;
    let ua = unused_texts(&report.unused.added);
    let ur = unused_texts(&report.unused.removed);
    push_terminal_part(&mut out, &ua, &ur, i18n.t("unused_deps"));
    push_terminal_part(&mut out, &report.vulns.added, &report.vulns.removed, i18n.t("vulns"));
    push_terminal_part(
        &mut out,
        &report.duplicates.added,
        &report.duplicates.removed,
        i18n.t("duplicates"),
    );
    push_terminal_part(
        &mut out,
        &report.license_violations.added,
        &report.license_violations.removed,
        i18n.t("license_violations"),
    );
    push_terminal_part(
        &mut out,
        &report.outdated.added,
        &report.outdated.removed,
        i18n.t("outdated_deps"),
    );
    push_terminal_part(
        &mut out,
        &report.supply_chain.added,
        &report.supply_chain.removed,
        i18n.t("supply_chain_risks"),
    );
    assert(out@ =~= terminal_text(*report, i18n.lang));
    out
}

/// The items of every category, unused entries first.
pub open spec fn all_items(
    unused: Seq<UnusedDep>,
    vulns: Seq<Seq<char>>,
    dups: Seq<Seq<char>>,
    lics: Seq<Seq<char>>,
    outdated: Seq<Seq<char>>,
    supply: Seq<Seq<char>>,
) -> Seq<char> {
    item_lines(unused_items(unused), "- "@) + item_lines(vulns, "- "@) + item_lines(dups, "- "@)
        + item_lines(lics, "- "@) + item_lines(outdated, "- "@) + item_lines(supply, "- "@)
}

/// The title and totals table of the Markdown comparison.
pub open spec fn markdown_head(d: DiffReport, lang: crate::i18n::Lang) -> Seq<char> {
    "# 🔍 lockpick diff "@ + translate(lang, "scan_complete"@) + "\n\n"@
        + "| | baseline | current | delta |\n"@ + "|------|------|------|------|\n"@ + "| total | "@
        + dec(d.summary.baseline_issues as nat) + " | "@ + dec(d.summary.current_issues as nat)
        + " | "@ + delta_text(d.summary.new_issues, d.summary.resolved_issues) + " |\n\n"@
}

/// The list of new issues (nothing when there is none).
pub open spec fn markdown_new(d: DiffReport, lang: crate::i18n::Lang) -> Seq<char> {
    if d.summary.new_issues > 0 {
        "## "@ + translate(lang, "diff_new"@) + " ("@ + dec(d.summary.new_issues as nat) + ")\n\n"@
            + all_items(
            d.unused.added@,
            d.vulns.added.deep_view(),
            d.duplicates.added.deep_view(),
            d.license_violations.added.deep_view(),
            d.outdated.added.deep_view(),
            d.supply_chain.added.deep_view(),
        )
    } else {
        Seq::empty()
    }
}

/// The list of resolved issues (nothing when there is none).
pub open spec fn markdown_resolved(d: DiffReport, lang: crate::i18n::Lang) -> Seq<char> {
    if d.summary.resolved_issues > 0 {
        "\n## "@ + translate(lang, "diff_resolved"@) + " ("@ + dec(d.summary.resolved_issues as nat)
            + ")\n\n"@ + all_items(
            d.unused.removed@,
            d.vulns.removed.deep_view(),
            d.duplicates.removed.deep_view(),
            d.license_violations.removed.deep_view(),
            d.outdated.removed.deep_view(),
            d.supply_chain.removed.deep_view(),
        )
    } else {
        Seq::empty()
    }
}

/// The Markdown rendering of a comparison.
pub open spec fn markdown_text(d: DiffReport, lang: crate::i18n::Lang) -> Seq<char> {
    markdown_head(d, lang) + markdown_new(d, lang) + markdown_resolved(d, lang)
}

/// Appends the items of every category.
fn push_all_items(
    md: &mut String,
    unused: &Vec<UnusedDep>,
    vulns: &Vec<String>,
    dups: &Vec<String>,
    lics: &Vec<String>,
    outdated: &Vec<String>,
    supply: &Vec<String>,
)
    ensures
        final(md)@ == old(md)@ + all_items(
            unused@,
            vulns.deep_view(),
            dups.deep_view(),
            lics.deep_view(),
            outdated.deep_view(),
            supply.deep_view(),
        ),
{
    let ghost s0 = md@;
    let ut = unused_texts(unused);
    push_items(md, &ut, "- ");
    push_items(md, vulns, "- ");
    push_items(md, dups, "- ");
    push_items(md, lics, "- ");
    push_items(md, outdated, "- ");
    push_items(md, supply, "- ");
    assert(md@ =~= s0 + all_items(
        unused@,
        vulns.deep_view(),
        dups.deep_view(),
        lics.deep_view(),
        outdated.deep_view(),
        supply.deep_view(),
    ));
}

/// Appends the title and totals table.
fn push_markdown_head(md: &mut String, report: &DiffReport, i18n: &I18n)
    ensures
        final(md)@ == old(md)@ + markdown_head(*report, i18n.lang),
{
    push_str(md, "# 🔍 lockpick diff ");
    push_str(md, i18n.t("scan_complete"));
    push_str(md, "\n\n");
    push_str(md, "| | baseline | current | delta |\n");
    push_str(md, "|------|------|------|------|\n");
    push_str(md, "| total | ");
    push_u64(md, report.summary.baseline_issues as u64);
    push_str(md, " | ");
    push_u64(md, report.summary.current_issues as u64);
    push_str(md, " | ");
    let delta = format_delta(report.summary.new_issues, report.summary.resolved_issues);
    push_str(md, delta.as_str());
    push_str(md, " |\n\n");
}

/// Appends the list of new issues.
fn push_markdown_new(md: &mut String, report: &DiffReport, i18n: &I18n)
    ensures
        final(md)@ == old(md)@ + markdown_new(*report, i18n.lang),
{
    if report.summary.new_issues > 0 {
        push_str(md, "## ");
        push_str(md, i18n.t("diff_new"));
        push_str(md, " (");
        push_u64(md, report.summary.new_issues as u64);
        push_str(md, ")\n\n");
        push_all_items(
            md,
            &report.unused.added,
            &report.vulns.added,
            &report.duplicates.added,
            &report.license_violations.added,
            &report.outdated.added,
            &report.supply_chain.added,
        );
    } else {
        assert(old(md)@ + Seq::<char>::empty() =~= old(md)@);
    }
}

/// Appends the list of resolved issues.
fn push_markdown_resolved(md: &mut String, report: &DiffReport, i18n: &I18n)
    ensures
        final(md)@ == old(md)@ + markdown_resolved(*report, i18n.lang),
{
    if report.summary.resolved_issues > 0 {
        push_str(md, "\n## ");
        push_str(md, i18n.t("diff_resolved"));
        push_str(md, " (");
        push_u64(md, report.summary.resolved_issues as u64);
        push_str(md, ")\n\n");
        push_all_items(
            md,
            &report.unused.removed,
            &report.vulns.removed,
            &report.duplicates.removed,
            &report.license_violations.removed,
            &report.outdated.removed,
            &report.supply_chain.removed,
        );
    } else {
        assert(old(md)@ + Seq::<char>::empty() =~= old(md)@);
    }
}

/// Renders a comparison as Markdown.
pub fn render_markdown(report: &DiffReport, i18n: &I18n) -> (s: String)
    ensures
        s@ == markdown_text(*report, i18n.lang),
{
    let mut md = String::new();
    push_markdown_head(&mut md, report, i18n);
    push_markdown_new(&mut md, report, i18n);
    push_markdown_resolved(&mut md, report, i18n);
    assert(md@ =~= markdown_text(*report, i18n.lang));
    md
}

/// The keys that are new are those of `curr` that are not in `base`, each
/// listed once.
pub proof fn law_new_keys_are_a_set_difference(curr: Seq<Seq<char>>, base: Seq<Seq<char>>)
    ensures
        forall|k: Seq<char>| #[trigger]
            new_keys(curr, base).contains(k) <==> (curr.contains(k) && !base.contains(k)),
        new_keys(curr, base).no_duplicates(),
    decreases curr.len(),
{
    if curr.len() > 0 {
        law_new_keys_are_a_set_difference(curr.drop_last(), base);
        let rest = new_keys(curr.drop_last(), base);
        let all = new_keys(curr, base);
        let x = curr.last();
        assert forall|k: Seq<char>| #[trigger] all.contains(k) <==> (curr.contains(k) && !base.contains(k)) by {
            if all.contains(k) {
                let i = choose|i: int| 0 <= i < all.len() && all[i] == k;
                if i < rest.len() {
                    assert(rest[i] == k);
                    assert(rest.contains(k));
                    let j = choose|j: int| 0 <= j < curr.drop_last().len() && curr.drop_last()[j] == k;
                    assert(curr[j] == k);
                } else {
                    assert(curr[curr.len() - 1] == k);
                }
            }
            if curr.contains(k) && !base.contains(k) {
                let j = choose|j: int| 0 <= j < curr.len() && curr[j] == k;
                if j < curr.len() - 1 {
                    assert(curr.drop_last()[j] == k);
                    assert(rest.contains(k));
                    let i = choose|i: int| 0 <= i < rest.len() && rest[i] == k;
                    if base.contains(x) || rest.contains(x) {
                        assert(all == rest);
                    } else {
                        assert(all[i] == k);
                    }
                } else if rest.contains(x) {
                    assert(all == rest);
                } else {
                    assert(all[rest.len() as int] == k);
                }
            }
        }
    }
}

/// The unused entries that are new are those of the list whose name is not
/// among `names`.
pub proof fn law_unused_not_in_is_a_filter(ds: Seq<UnusedDep>, names: Seq<Seq<char>>)
    ensures
        forall|d: UnusedDep| #[trigger]
            unused_not_in(ds, names).contains(d) <==> (ds.contains(d) && !names.contains(d.name@)),
    decreases ds.len(),
{
    if ds.len() > 0 {
        law_unused_not_in_is_a_filter(ds.drop_last(), names);
        let rest = unused_not_in(ds.drop_last(), names);
        let all = unused_not_in(ds, names);
        assert forall|d: UnusedDep| #[trigger] all.contains(d) <==> (ds.contains(d) && !names.contains(d.name@)) by {
            if all.contains(d) {
                let i = choose|i: int| 0 <= i < all.len() && all[i] == d;
                if i < rest.len() {
                    assert(rest[i] == d);
                    assert(rest.contains(d));
                    let j = choose|j: int| 0 <= j < ds.drop_last().len() && ds.drop_last()[j] == d;
                    assert(ds[j] == d);
                } else {
                    assert(ds[ds.len() - 1] == d);
                }
            }
            if ds.contains(d) && !names.contains(d.name@) {
                let j = choose|j: int| 0 <= j < ds.len() && ds[j] == d;
                if j < ds.len() - 1 {
                    assert(ds.drop_last()[j] == d);
                    assert(rest.contains(d));
                    let i = choose|i: int| 0 <= i < rest.len() && rest[i] == d;
                    if names.contains(ds.last().name@) {
                        assert(all == rest);
                    } else {
                        assert(all[i] == d);
                    }
                } else {
                    assert(all[rest.len() as int] == d);
                }
            }
        }
    }
}

/// Nothing is new of a list compared with itself.
proof fn lemma_new_keys_self(keys: Seq<Seq<char>>)
    ensures
        new_keys(keys, keys).len() == 0,
{
    law_new_keys_are_a_set_difference(keys, keys);
    if new_keys(keys, keys).len() > 0 {
        assert(new_keys(keys, keys).contains(new_keys(keys, keys)[0]));
    }
}

/// Comparing a result with itself finds no new and no resolved issue.
pub proof fn law_diff_with_itself_has_no_changes(d: DiffReport, r: AnalysisResult)
    requires
        diff_report_is(d, r, r),
    ensures
        d.summary.new_issues == 0,
        d.summary.resolved_issues == 0,
        d.summary.baseline_issues == d.summary.current_issues,
{
    lemma_new_keys_self(vuln_keys(r));
    lemma_new_keys_self(duplicate_keys(r));
    lemma_new_keys_self(license_keys(r));
    lemma_new_keys_self(outdated_keys(r));
    lemma_new_keys_self(supply_chain_keys(r));
    let l = unused_list(r);
    law_unused_not_in_is_a_filter(l, unused_names(r));
    let u = unused_not_in(l, unused_names(r));
    if u.len() > 0 {
        assert(u.contains(u[0]));
        let j = choose|j: int| 0 <= j < l.len() && l[j] == u[0];
        assert(unused_names(r)[j] == u[0].name@);
        assert(unused_names(r).contains(u[0].name@));
    }
}

/// Swapping the baseline and the current result swaps what is new and
/// what is resolved.
pub proof fn law_reversed_diff_swaps_new_and_resolved(
    d1: DiffReport,
    d2: DiffReport,
    baseline: AnalysisResult,
    current: AnalysisResult,
)
    requires
        diff_report_is(d1, baseline, current),
        diff_report_is(d2, current, baseline),
    ensures
        d1.summary.new_issues == d2.summary.resolved_issues,
        d1.summary.resolved_issues == d2.summary.new_issues,
        d1.unused.added@ == d2.unused.removed@,
        d1.vulns.added.deep_view() == d2.vulns.removed.deep_view(),
{
}

} // verus!
