//! The analysis of one package: unused dependencies, duplicates, sizes and
//! licenses, from its dependency graph and what was read from its files.
use vstd::prelude::*;

use crate::analyzer::duplicates::{detect_duplicates, duplicates_spec};
use crate::analyzer::license::{check_policy, extract_licenses, license_entries_spec, policy_violations};
use crate::analyzer::size::{analyze_size, size_rows_of, sizes_fit, sort_by_size_desc, total_size};
use crate::config::types::LicensePolicy;
use crate::scanner::unused::{detect_unused, is_used, unused_spec};
use crate::strmap::StrMap;
use crate::{AnalysisResult, DepType, DependencyGraph, UnusedDep, UnusedReport};

verus! {

/// Which analyses to run on a package, and how.
pub struct AnalyzeOptions {
    /// Leave dev dependencies out of the unused and license checks.
    pub skip_dev: bool,
    /// Package names never reported as unused.
    pub ignore: Vec<String>,
    pub run_unused: bool,
    pub run_duplicates: bool,
    pub run_size: bool,
    pub run_license: bool,
    /// The license policy to check, if any.
    pub license_policy: Option<LicensePolicy>,
}

/// What was read from a package's directory for the analysis.
pub struct ProjectFiles {
    /// The package names its sources, config files and scripts use.
    pub used: Vec<String>,
    /// The installed size of each package, by name.
    pub sizes: StrMap<u64>,
    /// The `package.json` text of each installed package, by name.
    pub manifests: StrMap<String>,
}

/// The rows whose name is not in `ignore`, in order.
pub open spec fn not_ignored(rows: Seq<(Seq<char>, Seq<char>, DepType)>, ignore: Seq<Seq<char>>) -> Seq<
    (Seq<char>, Seq<char>, DepType),
>
    decreases rows.len(),
{
    if rows.len() == 0 {
        Seq::empty()
    } else {
        let rest = not_ignored(rows.drop_last(), ignore);
        if ignore.contains(rows.last().0) {
            rest
        } else {
            rest.push(rows.last())
        }
    }
}

/// The sizes can be summed when the size analysis runs.
pub open spec fn analyze_ok(opts: &AnalyzeOptions, graph: &DependencyGraph, files: &ProjectFiles) -> bool {
    opts.run_size ==> sizes_fit(graph, &files.sizes)
}

/// Removes the ignored packages from an unused report.
fn drop_ignored(report: &UnusedReport, ignore: &Vec<String>) -> (r: UnusedReport)
    ensures
        r.unused.deep_view() == not_ignored(report.unused.deep_view(), ignore.deep_view()),
{
    let ghost rows = report.unused.deep_view();
    let mut out: Vec<UnusedDep> = Vec::new();
    assert(out.deep_view() =~= not_ignored(rows.take(0), ignore.deep_view()));
    let mut i: usize = 0;
    while i < report.unused.len()
        invariant
            i <= rows.len(),
            rows == report.unused.deep_view(),
            out.deep_view() == not_ignored(rows.take(i as int), ignore.deep_view()),
        decreases rows.len() - i,
    {
        assert(rows.take(i + 1).drop_last() =~= rows.take(i as int));
        assert(rows.take(i + 1).last() == rows[i as int]);
        let d = &report.unused[i];
        if !is_used(ignore.as_slice(), d.name.as_str()) {
            let kept = UnusedDep { name: d.name.clone(), version: d.version.clone(), dep_type: d.dep_type };
            let ghost before = out.deep_view();
            out.push(kept);
            assert(out.deep_view() =~= before.push(kept.deep_view()));
        }
        i = i + 1;
    }
    assert(rows.take(rows.len() as int) =~= rows);
    UnusedReport { unused: out }
}

/// Analyzes a single package: the unused dependencies (ignored names left
/// out), the duplicated packages, the installed sizes and the licenses,
/// each only when asked for; vulnerabilities, outdated packages and supply
/// chain signals are not part of it.
pub fn analyze_package(opts: &AnalyzeOptions, graph: &DependencyGraph, files: &ProjectFiles) -> (r: AnalysisResult)
    requires
        analyze_ok(opts, graph, files),
    ensures
        opts.run_unused ==> (r.unused matches Some(u) && u.unused.deep_view() == not_ignored(
            unused_spec(graph, files.used.deep_view(), opts.skip_dev),
            opts.ignore.deep_view(),
        )),
        !opts.run_unused ==> r.unused is None,
        opts.run_duplicates ==> (r.duplicates matches Some(d) && d.duplicates.deep_view()
            == duplicates_spec(graph) && d.total_duplicate_packages == duplicates_spec(graph).len()),
        !opts.run_duplicates ==> r.duplicates is None,
        opts.run_size ==> (r.size matches Some(s) && s.entries.deep_view() == sort_by_size_desc(
            size_rows_of(graph, &files.sizes),
        ) && s.total_bytes == total_size(size_rows_of(graph, &files.sizes))),
        !opts.run_size ==> r.size is None,
        opts.run_license ==> (r.license matches Some(l) && l.entries.deep_view()
            == license_entries_spec(graph, &files.manifests, opts.skip_dev) && match opts.license_policy {
            Some(p) => l.violations.deep_view() == policy_violations(
                l.entries.deep_view(),
                p.allow.deep_view(),
                p.deny.deep_view(),
            ),
            None => l.violations@.len() == 0,
        }),
        !opts.run_license ==> r.license is None,
        r.vulns is None,
        r.outdated is None,
        r.supply_chain is None,
{
    let unused = if opts.run_unused {
        let report = detect_unused(graph, files.used.as_slice(), opts.skip_dev);
        Some(drop_ignored(&report, &opts.ignore))
    } else {
        None
    };
    let duplicates = if opts.run_duplicates {
        Some(detect_duplicates(graph))
    } else {
        None
    };
    let size = if opts.run_size {
        Some(analyze_size(graph, &files.sizes))
    } else {
        None
    };
    let license = if opts.run_license {
        let mut report = extract_licenses(graph, &files.manifests, opts.skip_dev);
        match &opts.license_policy {
            Some(policy) => {
                report.violations = check_policy(&report, policy);
            },
            None => {},
        }
        Some(report)
    } else {
        None
    };
    AnalysisResult { unused, vulns: None, duplicates, size, license, outdated: None, supply_chain: None }
}

/// The unused report of an analysis is the detected one without the
/// ignored packages: it names no ignored package, and it keeps every
/// detected package that is not ignored.
pub proof fn law_ignored_packages_are_never_reported(
    rows: Seq<(Seq<char>, Seq<char>, DepType)>,
    ignore: Seq<Seq<char>>,
)
    ensures
        forall|r: (Seq<char>, Seq<char>, DepType)| #[trigger]
            not_ignored(rows, ignore).contains(r) <==> (rows.contains(r) && !ignore.contains(r.0)),
    decreases rows.len(),
{
    if rows.len() > 0 {
        law_ignored_packages_are_never_reported(rows.drop_last(), ignore);
        let rest = not_ignored(rows.drop_last(), ignore);
        let all = not_ignored(rows, ignore);
        assert forall|r: (Seq<char>, Seq<char>, DepType)| #[trigger]
            all.contains(r) <==> (rows.contains(r) && !ignore.contains(r.0)) by {
            if all.contains(r) {
                let i = choose|i: int| 0 <= i < all.len() && all[i] == r;
                if i < rest.len() {
                    assert(rest[i] == r);
                    assert(rest.contains(r));
                    assert(rows.drop_last().contains(r));
                    let k = choose|k: int| 0 <= k < rows.drop_last().len() && rows.drop_last()[k] == r;
                    assert(rows[k] == r);
                } else {
                    assert(rows[rows.len() - 1] == r);
                }
            }
            if rows.contains(r) && !ignore.contains(r.0) {
                let k = choose|k: int| 0 <= k < rows.len() && rows[k] == r;
                if k < rows.len() - 1 {
                    assert(rows.drop_last()[k] == r);
                    assert(rows.drop_last().contains(r));
                    assert(rest.contains(r));
                    let i = choose|i: int| 0 <= i < rest.len() && rest[i] == r;
                    if ignore.contains(rows.last().0) {
                        assert(all == rest);
                    } else {
                        assert(all == rest.push(rows.last()));
                    }
                    assert(all[i] == r);
                } else {
                    assert(all[rest.len() as int] == r);
                }
            }
        }
    }
}

} // verus!
