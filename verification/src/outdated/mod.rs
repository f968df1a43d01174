//! Outdated dependency detection: semver comparison and upgrade priority.
pub mod registry;

use vstd::prelude::*;

use crate::strmap::StrMap;
use crate::supply_chain::before_first;
use crate::text::{
    chars_of, find_char, lemma_first_index_found, parse_u64, parse_u64_spec, split_chars,
    split_on, str_eq, sub_chars,
};
use crate::{
    DepType, DependencyGraph, OutdatedEntry, PackageInfo, OutdatedReport, SemverLevel, Severity,
    UpgradePriority, VulnReport,
};

verus! {

/// `major.minor.patch` of a version: build metadata (after `+`) and
/// pre-release (after `-`) are dropped, the rest is split at `.` and the
/// first three parts must be numbers.
pub open spec fn semver_spec(v: Seq<char>) -> Option<(u64, u64, u64)> {
    let core = before_first(before_first(v, '+'), '-');
    let parts = split_on(core, '.');
    if parts.len() >= 3 {
        match (parse_u64_spec(parts[0]), parse_u64_spec(parts[1]), parse_u64_spec(parts[2])) {
            (Some(a), Some(b), Some(c)) => Some((a, b, c)),
            _ => None,
        }
    } else {
        None
    }
}

/// Lexicographic `(a0, a1, a2) >= (b0, b1, b2)`.
pub open spec fn triple_ge(a: (u64, u64, u64), b: (u64, u64, u64)) -> bool {
    a.0 > b.0 || (a.0 == b.0 && (a.1 > b.1 || (a.1 == b.1 && a.2 >= b.2)))
}

/// How far `current` is behind `latest`: none when either does not parse or
/// `current` is not older; otherwise the most significant part that differs.
pub open spec fn compare_spec(current: Seq<char>, latest: Seq<char>) -> Option<SemverLevel> {
    match (semver_spec(current), semver_spec(latest)) {
        (Some(c), Some(l)) => if triple_ge(c, l) {
            None
        } else if c.0 < l.0 {
            Some(SemverLevel::Major)
        } else if c.1 < l.1 {
            Some(SemverLevel::Minor)
        } else {
            Some(SemverLevel::Patch)
        },
        _ => None,
    }
}

/// The characters of `s` before the first `c`.
fn prefix_before(s: &[char], c: char) -> (r: Vec<char>)
    ensures
        r@ == before_first(s@, c),
{
    match find_char(s, c) {
        Some(k) => {
            proof {
                lemma_first_index_found(s@, c);
            }
            sub_chars(s, 0, k)
        },
        None => {
            let r = sub_chars(s, 0, s.len());
            assert(r@ =~= s@);
            r
        },
    }
}

/// Parses `major.minor.patch` from a version string, ignoring pre-release
/// and build metadata.
pub fn parse_semver(v: &str) -> (r: Option<(u64, u64, u64)>)
    ensures
        r == semver_spec(v@),
{
    let chars = chars_of(v);
    let no_build = prefix_before(chars.as_slice(), '+');
    let core = prefix_before(no_build.as_slice(), '-');
    let parts = split_chars(core.as_slice(), '.');
    if parts.len() < 3 {
        return None;
    }
    let major = parse_u64(parts[0].as_slice());
    let minor = parse_u64(parts[1].as_slice());
    let patch = parse_u64(parts[2].as_slice());
    match (major, minor, patch) {
        (Some(a), Some(b), Some(c)) => Some((a, b, c)),
        _ => None,
    }
}

/// Compares current against latest; `None` if equal, newer or unparseable.
pub fn compare_versions(current: &str, latest: &str) -> (r: Option<SemverLevel>)
    ensures
        r == compare_spec(current@, latest@),
{
    let c = match parse_semver(current) {
        Some(t) => t,
        None => return None,
    };
    let l = match parse_semver(latest) {
        Some(t) => t,
        None => return None,
    };
    let (cmaj, cmin, cpat) = c;
    let (lmaj, lmin, lpat) = l;
    if cmaj > lmaj || (cmaj == lmaj && (cmin > lmin || (cmin == lmin && cpat >= lpat))) {
        return None;
    }
    if cmaj < lmaj {
        Some(SemverLevel::Major)
    } else if cmin < lmin {
        Some(SemverLevel::Minor)
    } else {
        Some(SemverLevel::Patch)
    }
}

/// Rank of a severity: low 1, medium 2, high 3, critical 4.
pub open spec fn rank_spec(s: Severity) -> u8 {
    match s {
        Severity::Low => 1,
        Severity::Medium => 2,
        Severity::High => 3,
        Severity::Critical => 4,
    }
}

/// Rank of a severity.
pub fn severity_rank(s: &Severity) -> (r: u8)
    ensures
        r == rank_spec(*s),
{
    match s {
        Severity::Low => 1,
        Severity::Medium => 2,
        Severity::High => 3,
        Severity::Critical => 4,
    }
}

/// A vulnerability report, seen as (package, version, vulnerabilities).
pub type VulnReportView = (
    Seq<char>,
    Seq<char>,
    Seq<(Seq<char>, Seq<char>, Severity, Option<Seq<char>>)>,
);

/// The ids of every vulnerability reported for `name`, in report order.
pub open spec fn vuln_ids_for(name: Seq<char>, reports: Seq<VulnReportView>) -> Seq<Seq<char>>
    decreases reports.len(),
{
    if reports.len() == 0 {
        Seq::empty()
    } else {
        let last = reports.last();
        let here = if last.0 == name {
            last.2.map_values(|v: (Seq<char>, Seq<char>, Severity, Option<Seq<char>>)| v.0)
        } else {
            Seq::empty()
        };
        vuln_ids_for(name, reports.drop_last()) + here
    }
}

/// The largest severity rank among a list of vulnerabilities (0 if none).
pub open spec fn max_rank_in(vs: Seq<(Seq<char>, Seq<char>, Severity, Option<Seq<char>>)>) -> u8
    decreases vs.len(),
{
    if vs.len() == 0 {
        0
    } else {
        let prev = max_rank_in(vs.drop_last());
        let r = rank_spec(vs.last().2);
        if r > prev {
            r
        } else {
            prev
        }
    }
}

/// The largest severity rank among the vulnerabilities reported for `name`.
pub open spec fn max_rank_for(name: Seq<char>, reports: Seq<VulnReportView>) -> u8
    decreases reports.len(),
{
    if reports.len() == 0 {
        0
    } else {
        let prev = max_rank_for(name, reports.drop_last());
        let last = reports.last();
        let here = if last.0 == name {
            max_rank_in(last.2)
        } else {
            0
        };
        if here > prev {
            here
        } else {
            prev
        }
    }
}

/// The priority for a highest severity rank.
pub open spec fn priority_of_rank(r: u8) -> UpgradePriority {
    if r == 4 {
        UpgradePriority::Critical
    } else if r == 3 {
        UpgradePriority::High
    } else if r >= 1 {
        UpgradePriority::Medium
    } else {
        UpgradePriority::Low
    }
}

/// Upgrade priority for `name` and the ids of its vulnerabilities: critical
/// or high follow the worst severity, medium or low severities give medium,
/// no vulnerabilities (or no data) give low.
pub open spec fn priority_spec(name: Seq<char>, vulns: Option<Seq<VulnReportView>>) -> (
    UpgradePriority,
    Seq<Seq<char>>,
) {
    match vulns {
        None => (UpgradePriority::Low, Seq::empty()),
        Some(rs) => (priority_of_rank(max_rank_for(name, rs)), vuln_ids_for(name, rs)),
    }
}

/// Computes the upgrade priority of a package from vulnerability data.
pub fn compute_priority(name: &str, vulns: Option<&[VulnReport]>) -> (r: (
    UpgradePriority,
    Vec<String>,
))
    ensures
        (r.0, r.1.deep_view()) == priority_spec(
            name@,
            match vulns {
                Some(v) => Some(v.deep_view()),
                None => None,
            },
        ),
{
    let vulns = match vulns {
        Some(v) => v,
        None => {
            let ids: Vec<String> = Vec::new();
            assert(ids.deep_view() =~= Seq::<Seq<char>>::empty());
            return (UpgradePriority::Low, ids);
        },
    };
    let ghost rs = vulns.deep_view();
    let mut ids: Vec<String> = Vec::new();
    let mut max_rank: u8 = 0;
    let mut i: usize = 0;
    assert(ids.deep_view() =~= vuln_ids_for(name@, rs.take(0)));
    while i < vulns.len()
        invariant
            i <= vulns@.len(),
            rs == vulns.deep_view(),
            ids.deep_view() == vuln_ids_for(name@, rs.take(i as int)),
            max_rank == max_rank_for(name@, rs.take(i as int)),
        decreases vulns@.len() - i,
    {
        let vr = &vulns[i];
        assert(rs.take(i + 1).drop_last() =~= rs.take(i as int));
        assert(rs.take(i + 1).last() == vr.deep_view());
        if str_eq(vr.package.as_str(), name) {
            let ghost vs = vr.vulns.deep_view();
            let ghost ids_before = ids.deep_view();
            let mut here: u8 = 0;
            let mut k: usize = 0;
            while k < vr.vulns.len()
                invariant
                    k <= vr.vulns@.len(),
                    vs == vr.vulns.deep_view(),
                    ids.deep_view() == ids_before + vs.take(k as int).map_values(
                        |v: (Seq<char>, Seq<char>, Severity, Option<Seq<char>>)| v.0,
                    ),
                    here == max_rank_in(vs.take(k as int)),
                decreases vr.vulns@.len() - k,
            {
                let v = &vr.vulns[k];
                let ghost ids_prev = ids.deep_view();
                ids.push(v.id.clone());
                assert(ids.deep_view() =~= ids_prev.push(v.id@));
                assert(vs[k as int].0 == v.id@);
                assert(vs.take(k + 1).map_values(
                    |v: (Seq<char>, Seq<char>, Severity, Option<Seq<char>>)| v.0,
                ) =~= vs.take(k as int).map_values(
                    |v: (Seq<char>, Seq<char>, Severity, Option<Seq<char>>)| v.0,
                ).push(v.id@));
                let r = severity_rank(&v.severity);
                assert(vs.take(k + 1).drop_last() =~= vs.take(k as int));
                if r > here {
                    here = r;
                }
                k = k + 1;
                assert(ids.deep_view() =~= ids_before + vs.take(k as int).map_values(
                    |v: (Seq<char>, Seq<char>, Severity, Option<Seq<char>>)| v.0,
                ));
            }
            assert(vs.take(k as int) =~= vs);
            if here > max_rank {
                max_rank = here;
            }
        }
        i = i + 1;
        assert(ids.deep_view() =~= vuln_ids_for(name@, rs.take(i as int)));
    }
    assert(rs.take(i as int) =~= rs);
    let priority = if max_rank == 4 {
        UpgradePriority::Critical
    } else if max_rank == 3 {
        UpgradePriority::High
    } else if max_rank >= 1 {
        UpgradePriority::Medium
    } else {
        UpgradePriority::Low
    };
    (priority, ids)
}

/// An outdated entry, seen as (name, current, latest, level, dependency
/// type, priority, vulnerability ids).
pub type OutdatedView = (
    Seq<char>,
    Seq<char>,
    Seq<char>,
    SemverLevel,
    DepType,
    UpgradePriority,
    Seq<Seq<char>>,
);

/// The dependency type an outdated entry for `name` is reported with: dev
/// whenever dev dependencies are checked and `name` is one of them.
pub open spec fn reported_dep_type(graph: &DependencyGraph, skip_dev: bool, name: Seq<char>) -> DepType {
    if !skip_dev && graph.dev_dependencies.has(name) {
        DepType::Dev
    } else {
        DepType::Prod
    }
}

/// The entry for one declared package (name, current version), if the
/// registry knows a newer version.
pub open spec fn outdated_row(
    graph: &DependencyGraph,
    skip_dev: bool,
    name: Seq<char>,
    current: Seq<char>,
    latest: &StrMap<String>,
    vulns: Option<Seq<VulnReportView>>,
) -> Option<OutdatedView> {
    match latest.lookup(name) {
        Some(l) => match compare_spec(current, l@) {
            Some(level) => {
                let (priority, ids) = priority_spec(name, vulns);
                Some(
                    (name, current, l@, level, reported_dep_type(graph, skip_dev, name), priority, ids),
                )
            },
            None => None,
        },
        None => None,
    }
}

/// The entries for a list of declared packages, in order.
pub open spec fn outdated_rows(
    graph: &DependencyGraph,
    skip_dev: bool,
    names: Seq<Seq<char>>,
    infos: Seq<crate::PackageInfo>,
    latest: &StrMap<String>,
    vulns: Option<Seq<VulnReportView>>,
) -> Seq<OutdatedView>
    decreases names.len(),
{
    if names.len() == 0 || infos.len() == 0 {
        Seq::empty()
    } else {
        let prev = outdated_rows(
            graph,
            skip_dev,
            names.drop_last(),
            infos.drop_last(),
            latest,
            vulns,
        );
        match outdated_row(graph, skip_dev, names.last(), infos.last().version@, latest, vulns) {
            Some(row) => prev.push(row),
            None => prev,
        }
    }
}

/// The entries of `rows` with priority `p`, in order.
pub open spec fn rows_with_priority(rows: Seq<OutdatedView>, p: UpgradePriority) -> Seq<
    OutdatedView,
>
    decreases rows.len(),
{
    if rows.len() == 0 {
        Seq::empty()
    } else {
        let prev = rows_with_priority(rows.drop_last(), p);
        if rows.last().5 == p {
            prev.push(rows.last())
        } else {
            prev
        }
    }
}

/// Number of entries of `rows` at semver level `l`.
pub open spec fn count_level(rows: Seq<OutdatedView>, l: SemverLevel) -> nat
    decreases rows.len(),
{
    if rows.len() == 0 {
        0
    } else {
        count_level(rows.drop_last(), l) + if rows.last().3 == l {
            1nat
        } else {
            0nat
        }
    }
}

/// All outdated entries, dependencies first, then dev dependencies unless
/// skipped, before ordering by priority.
pub open spec fn outdated_unsorted(
    graph: &DependencyGraph,
    skip_dev: bool,
    latest: &StrMap<String>,
    vulns: Option<Seq<VulnReportView>>,
) -> Seq<OutdatedView> {
    let prod = outdated_rows(
        graph,
        skip_dev,
        graph.dependencies.keys(),
        graph.dependencies.vals(),
        latest,
        vulns,
    );
    if skip_dev {
        prod
    } else {
        prod + outdated_rows(
            graph,
            skip_dev,
            graph.dev_dependencies.keys(),
            graph.dev_dependencies.vals(),
            latest,
            vulns,
        )
    }
}

/// Rows ordered by descending priority, keeping the order within a priority.
pub open spec fn by_priority(rows: Seq<OutdatedView>) -> Seq<OutdatedView> {
    rows_with_priority(rows, UpgradePriority::Critical) + rows_with_priority(
        rows,
        UpgradePriority::High,
    ) + rows_with_priority(rows, UpgradePriority::Medium) + rows_with_priority(
        rows,
        UpgradePriority::Low,
    )
}

/// Buckets of entries by priority.
struct PriorityBuckets {
    critical: Vec<OutdatedEntry>,
    high: Vec<OutdatedEntry>,
    medium: Vec<OutdatedEntry>,
    low: Vec<OutdatedEntry>,
}

impl PriorityBuckets {
    /// The buckets hold exactly the rows of `rows`, split by priority.
    spec fn holds(&self, rows: Seq<OutdatedView>) -> bool {
        &&& self.critical.deep_view() == rows_with_priority(rows, UpgradePriority::Critical)
        &&& self.high.deep_view() == rows_with_priority(rows, UpgradePriority::High)
        &&& self.medium.deep_view() == rows_with_priority(rows, UpgradePriority::Medium)
        &&& self.low.deep_view() == rows_with_priority(rows, UpgradePriority::Low)
    }

    fn add(&mut self, e: OutdatedEntry, Ghost(rows): Ghost<Seq<OutdatedView>>)
        requires
            old(self).holds(rows),
        ensures
            final(self).holds(rows.push(e.deep_view())),
    {
        let ghost ev = e.deep_view();
        assert(rows.push(ev).drop_last() =~= rows);
        match e.priority {
            UpgradePriority::Critical => {
                let ghost b = self.critical.deep_view();
                self.critical.push(e);
                assert(self.critical.deep_view() =~= b.push(ev));
            },
            UpgradePriority::High => {
                let ghost b = self.high.deep_view();
                self.high.push(e);
                assert(self.high.deep_view() =~= b.push(ev));
            },
            UpgradePriority::Medium => {
                let ghost b = self.medium.deep_view();
                self.medium.push(e);
                assert(self.medium.deep_view() =~= b.push(ev));
            },
            UpgradePriority::Low => {
                let ghost b = self.low.deep_view();
                self.low.push(e);
                assert(self.low.deep_view() =~= b.push(ev));
            },
        }
    }
}

/// Adds the entries for every package of `deps`.
fn collect_outdated(
    graph: &DependencyGraph,
    skip_dev: bool,
    deps: &StrMap<PackageInfo>,
    latest: &StrMap<String>,
    vulns: Option<&[VulnReport]>,
    buckets: &mut PriorityBuckets,
    Ghost(rows): Ghost<Seq<OutdatedView>>,
)
    requires
        old(buckets).holds(rows),
    ensures
        final(buckets).holds(
            rows + outdated_rows(
                graph,
                skip_dev,
                deps.keys(),
                deps.vals(),
                latest,
                match vulns {
                    Some(v) => Some(v.deep_view()),
                    None => None,
                },
            ),
        ),
{
    let ghost vv = match vulns {
        Some(v) => Some(v.deep_view()),
        None => None,
    };
    deps.well_formed();
    let n = deps.len();
    let mut i: usize = 0;
    assert(rows + outdated_rows(graph, skip_dev, deps.keys().take(0), deps.vals().take(0), latest, vv) =~= rows);
    while i < n
        invariant
            i <= n,
            n == deps.keys().len(),
            n == deps.vals().len(),
            vv == (match vulns {
                Some(v) => Some(v.deep_view()),
                None => None,
            }),
            buckets.holds(
                rows + outdated_rows(
                    graph,
                    skip_dev,
                    deps.keys().take(i as int),
                    deps.vals().take(i as int),
                    latest,
                    vv,
                ),
            ),
        decreases n - i,
    {
        let name = deps.key_at(i);
        let info = deps.value_at(i);
        let ghost before = rows + outdated_rows(
            graph,
            skip_dev,
            deps.keys().take(i as int),
            deps.vals().take(i as int),
            latest,
            vv,
        );
        proof {
            assert(deps.keys().take(i + 1).drop_last() =~= deps.keys().take(i as int));
            assert(deps.vals().take(i + 1).drop_last() =~= deps.vals().take(i as int));
        }
        if let Some(l) = latest.get(name.as_str()) {
            if let Some(level) = compare_versions(info.version.as_str(), l.as_str()) {
                let (priority, vuln_ids) = compute_priority(name.as_str(), vulns);
                let dep_type = if !skip_dev && graph.dev_dependencies.contains_key(name.as_str()) {
                    DepType::Dev
                } else {
                    DepType::Prod
                };
                let e = OutdatedEntry {
                    name: name.clone(),
                    current: info.version.clone(),
                    latest: l.clone(),
                    level,
                    dep_type,
                    priority,
                    vuln_ids,
                };
                buckets.add(e, Ghost(before));
                proof {
                    assert(before.push(e.deep_view()) =~= rows + outdated_rows(
                        graph,
                        skip_dev,
                        deps.keys().take(i + 1),
                        deps.vals().take(i + 1),
                        latest,
                        vv,
                    ));
                }
            } else {
                assert(before =~= rows + outdated_rows(
                    graph,
                    skip_dev,
                    deps.keys().take(i + 1),
                    deps.vals().take(i + 1),
                    latest,
                    vv,
                ));
            }
        } else {
            assert(before =~= rows + outdated_rows(
                graph,
                skip_dev,
                deps.keys().take(i + 1),
                deps.vals().take(i + 1),
                latest,
                vv,
            ));
        }
        i = i + 1;
    }
    assert(deps.keys().take(n as int) =~= deps.keys());
    assert(deps.vals().take(n as int) =~= deps.vals());
}

/// Counts the entries of `es` at semver level `l`.
fn count_entries_at(es: &Vec<OutdatedEntry>, l: SemverLevel) -> (c: usize)
    ensures
        c == count_level(es.deep_view(), l),
{
    let ghost rows = es.deep_view();
    let mut c: usize = 0;
    let mut i: usize = 0;
    while i < es.len()
        invariant
            i <= es@.len(),
            rows == es.deep_view(),
            c == count_level(rows.take(i as int), l),
            c <= i,
        decreases es@.len() - i,
    {
        assert(rows.take(i + 1).drop_last() =~= rows.take(i as int));
        if es[i].level == l {
            c = c + 1;
        }
        i = i + 1;
    }
    assert(rows.take(i as int) =~= rows);
    c
}

/// Builds the outdated report from the latest versions the registry gave:
/// one entry per declared package (dev dependencies too unless skipped)
/// whose latest version is newer, ordered by descending upgrade priority,
/// with counts per semver level.
pub fn check_outdated(
    graph: &DependencyGraph,
    vulns: Option<&[VulnReport]>,
    skip_dev: bool,
    latest: &StrMap<String>,
) -> (report: OutdatedReport)
    ensures
        ({
            let rows = outdated_unsorted(
                graph,
                skip_dev,
                latest,
                match vulns {
                    Some(v) => Some(v.deep_view()),
                    None => None,
                },
            );
            &&& report.entries.deep_view() == by_priority(rows)
            &&& report.total_outdated == rows.len()
            &&& report.patch_count == count_level(by_priority(rows), SemverLevel::Patch)
            &&& report.minor_count == count_level(by_priority(rows), SemverLevel::Minor)
            &&& report.major_count == count_level(by_priority(rows), SemverLevel::Major)
        }),
{
    let ghost vv = match vulns {
        Some(v) => Some(v.deep_view()),
        None => None,
    };
    let mut buckets = PriorityBuckets {
        critical: Vec::new(),
        high: Vec::new(),
        medium: Vec::new(),
        low: Vec::new(),
    };
    proof {
        let e = Seq::<OutdatedView>::empty();
        assert(buckets.critical.deep_view() =~= rows_with_priority(e, UpgradePriority::Critical));
        assert(buckets.high.deep_view() =~= rows_with_priority(e, UpgradePriority::High));
        assert(buckets.medium.deep_view() =~= rows_with_priority(e, UpgradePriority::Medium));
        assert(buckets.low.deep_view() =~= rows_with_priority(e, UpgradePriority::Low));
    }
    collect_outdated(
        graph,
        skip_dev,
        &graph.dependencies,
        latest,
        vulns,
        &mut buckets,
        Ghost(Seq::empty()),
    );
    let ghost prod = outdated_rows(
        graph,
        skip_dev,
        graph.dependencies.keys(),
        graph.dependencies.vals(),
        latest,
        vv,
    );
    assert(Seq::<OutdatedView>::empty() + prod =~= prod);
    if !skip_dev {
        collect_outdated(
            graph,
            skip_dev,
            &graph.dev_dependencies,
            latest,
            vulns,
            &mut buckets,
            Ghost(prod),
        );
    }
    let ghost rows = outdated_unsorted(graph, skip_dev, latest, vv);
    let PriorityBuckets { critical, high, medium, low } = buckets;
    let mut entries = critical;
    let mut high = high;
    let mut medium = medium;
    let mut low = low;
    entries.append(&mut high);
    entries.append(&mut medium);
    entries.append(&mut low);
    proof {
        assert(entries.deep_view() =~= by_priority(rows));
        lemma_priority_split_len(rows);
    }
    let patch_count = count_entries_at(&entries, SemverLevel::Patch);
    let minor_count = count_entries_at(&entries, SemverLevel::Minor);
    let major_count = count_entries_at(&entries, SemverLevel::Major);
    OutdatedReport { total_outdated: entries.len(), entries, patch_count, minor_count, major_count }
}

/// Splitting rows by priority loses none of them.
pub proof fn lemma_priority_split_len(rows: Seq<OutdatedView>)
    ensures
        by_priority(rows).len() == rows.len(),
    decreases rows.len(),
{
    if rows.len() > 0 {
        lemma_priority_split_len(rows.drop_last());
    }
}

/// The packages whose latest versions are to be looked up: dependencies,
/// then dev dependencies unless skipped, as (name, version, type).
pub open spec fn candidates_of(names: Seq<Seq<char>>, infos: Seq<PackageInfo>, t: DepType) -> Seq<
    (Seq<char>, Seq<char>, DepType),
>
    decreases names.len(),
{
    if names.len() == 0 || infos.len() == 0 {
        Seq::empty()
    } else {
        candidates_of(names.drop_last(), infos.drop_last(), t).push(
            (names.last(), infos.last().version@, t),
        )
    }
}

/// Appends (name, version, type) for every entry of `deps`.
fn push_candidates(out: &mut Vec<(String, String, DepType)>, deps: &StrMap<PackageInfo>, t: DepType)
    ensures
        final(out).deep_view() == old(out).deep_view() + candidates_of(deps.keys(), deps.vals(), t),
{
    deps.well_formed();
    let ghost start = out.deep_view();
    let n = deps.len();
    let mut i: usize = 0;
    assert(start + candidates_of(deps.keys().take(0), deps.vals().take(0), t) =~= start);
    while i < n
        invariant
            i <= n,
            n == deps.keys().len(),
            n == deps.vals().len(),
            out.deep_view() == start + candidates_of(
                deps.keys().take(i as int),
                deps.vals().take(i as int),
                t,
            ),
        decreases n - i,
    {
        let ghost b = out.deep_view();
        out.push((deps.key_at(i).clone(), deps.value_at(i).version.clone(), t));
        proof {
            assert(deps.keys().take(i + 1).drop_last() =~= deps.keys().take(i as int));
            assert(deps.vals().take(i + 1).drop_last() =~= deps.vals().take(i as int));
            assert(out.deep_view() =~= b.push(
                (deps.keys()[i as int], deps.vals()[i as int].version@, t),
            ));
        }
        i = i + 1;
    }
    assert(deps.keys().take(n as int) =~= deps.keys());
    assert(deps.vals().take(n as int) =~= deps.vals());
}

/// The packages to look up in the registry.
pub fn outdated_candidates(graph: &DependencyGraph, skip_dev: bool) -> (r: Vec<
    (String, String, DepType),
>)
    ensures
        r.deep_view() == candidates_of(
            graph.dependencies.keys(),
            graph.dependencies.vals(),
            DepType::Prod,
        ) + if skip_dev {
            Seq::empty()
        } else {
            candidates_of(graph.dev_dependencies.keys(), graph.dev_dependencies.vals(), DepType::Dev)
        },
{
    let mut r: Vec<(String, String, DepType)> = Vec::new();
    assert(r.deep_view() =~= Seq::empty());
    push_candidates(&mut r, &graph.dependencies, DepType::Prod);
    if !skip_dev {
        push_candidates(&mut r, &graph.dev_dependencies, DepType::Dev);
    } else {
        assert(r.deep_view() =~= r.deep_view() + Seq::empty());
    }
    r
}

/// The rows at semver level `l`, in order.
pub open spec fn rows_at_level(rows: Seq<OutdatedView>, l: SemverLevel) -> Seq<OutdatedView>
    decreases rows.len(),
{
    if rows.len() == 0 {
        Seq::empty()
    } else {
        let rest = rows_at_level(rows.drop_last(), l);
        if rows.last().3 == l {
            rest.push(rows.last())
        } else {
            rest
        }
    }
}

/// A copy of an outdated entry.
fn copy_entry(e: &OutdatedEntry) -> (r: OutdatedEntry)
    ensures
        r.deep_view() == e.deep_view(),
{
    OutdatedEntry {
        name: e.name.clone(),
        current: e.current.clone(),
        latest: e.latest.clone(),
        level: e.level,
        dep_type: e.dep_type,
        priority: e.priority,
        vuln_ids: crate::runner::copy_strings(&e.vuln_ids),
    }
}

/// Keeps only the entries at the given semver level, when one is given,
/// and recounts the totals; without a level the report is unchanged.
pub fn filter_outdated(report: OutdatedReport, level: Option<SemverLevel>) -> (r: OutdatedReport)
    ensures
        match level {
            None => r == report,
            Some(l) => {
                &&& r.entries.deep_view() == rows_at_level(report.entries.deep_view(), l)
                &&& r.total_outdated == r.entries@.len()
                &&& r.patch_count == count_level(r.entries.deep_view(), SemverLevel::Patch)
                &&& r.minor_count == count_level(r.entries.deep_view(), SemverLevel::Minor)
                &&& r.major_count == count_level(r.entries.deep_view(), SemverLevel::Major)
            },
        },
{
    let target = match level {
        None => {
            return report;
        },
        Some(l) => l,
    };
    let ghost rows = report.entries.deep_view();
    let mut kept: Vec<OutdatedEntry> = Vec::new();
    assert(kept.deep_view() =~= rows_at_level(rows.take(0), target));
    let mut i: usize = 0;
    while i < report.entries.len()
        invariant
            i <= rows.len(),
            rows == report.entries.deep_view(),
            kept.deep_view() == rows_at_level(rows.take(i as int), target),
        decreases rows.len() - i,
    {
        assert(rows.take(i + 1).drop_last() =~= rows.take(i as int));
        assert(rows.take(i + 1).last() == rows[i as int]);
        if report.entries[i].level == target {
            let e = copy_entry(&report.entries[i]);
            let ghost before = kept.deep_view();
            kept.push(e);
            assert(kept.deep_view() =~= before.push(e.deep_view()));
        }
        i = i + 1;
    }
    assert(rows.take(rows.len() as int) =~= rows);
    let patch_count = count_entries_at(&kept, SemverLevel::Patch);
    let minor_count = count_entries_at(&kept, SemverLevel::Minor);
    let major_count = count_entries_at(&kept, SemverLevel::Major);
    let total_outdated = kept.len();
    OutdatedReport { entries: kept, total_outdated, patch_count, minor_count, major_count }
}

/// The counts per semver level add up to the number of entries.
pub proof fn law_level_counts_add_up(rows: Seq<OutdatedView>)
    ensures
        count_level(rows, SemverLevel::Patch) + count_level(rows, SemverLevel::Minor) + count_level(
            rows,
            SemverLevel::Major,
        ) == rows.len(),
    decreases rows.len(),
{
    if rows.len() > 0 {
        law_level_counts_add_up(rows.drop_last());
    }
}

/// Filtering by a level keeps only entries of that level: all of them count
/// at that level, none at another, and filtering again changes nothing.
pub proof fn law_level_filter_keeps_one_level(rows: Seq<OutdatedView>, l: SemverLevel)
    ensures
        forall|i: int| 0 <= i < rows_at_level(rows, l).len() ==> (#[trigger] rows_at_level(rows, l)[i]).3 == l,
        count_level(rows_at_level(rows, l), l) == rows_at_level(rows, l).len(),
        count_level(rows_at_level(rows, l), l) == count_level(rows, l),
        rows_at_level(rows_at_level(rows, l), l) == rows_at_level(rows, l),
    decreases rows.len(),
{
    if rows.len() > 0 {
        law_level_filter_keeps_one_level(rows.drop_last(), l);
        let f = rows_at_level(rows, l);
        let pf = rows_at_level(rows.drop_last(), l);
        if rows.last().3 == l {
            assert(f.drop_last() =~= pf);
            assert(f.last() == rows.last());
        } else {
            assert(f == pf);
        }
    }
}

/// How far behind a version is, part by part: when both versions parse, a
/// lower major part is a major update whatever the minor and patch parts say;
/// a minor update needs equal major parts and a lower minor part; a patch
/// update needs equal major and minor parts and a lower patch part; in every
/// other case (equal, or the current version ahead) there is none. A version
/// that does not parse gives none either.
pub proof fn law_update_level_by_parts(current: Seq<char>, latest: Seq<char>)
    ensures
        semver_spec(current) is Some && semver_spec(latest) is Some ==> ({
            let c = semver_spec(current)->0;
            let l = semver_spec(latest)->0;
            let r = compare_spec(current, latest);
            &&& (r == Some(SemverLevel::Major) <==> c.0 < l.0)
            &&& (r == Some(SemverLevel::Minor) <==> (c.0 == l.0 && c.1 < l.1))
            &&& (r == Some(SemverLevel::Patch) <==> (c.0 == l.0 && c.1 == l.1 && c.2 < l.2))
            &&& (r is None <==> (c.0 > l.0 || (c.0 == l.0 && (c.1 > l.1 || (c.1 == l.1 && c.2
                >= l.2)))))
        }),
        semver_spec(current) is None || semver_spec(latest) is None ==> compare_spec(
            current,
            latest,
        ) is None,
{
}

} // verus!
