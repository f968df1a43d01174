//! Supply chain risk checks: typosquatting, scope confusion, version anomalies.
pub mod typosquat;

use vstd::prelude::*;

use crate::strmap::StrMap;
use crate::supply_chain::typosquat::{
    check_typosquat, popular_package_names, popular_packages, typosquat_match,
};
use crate::text::{
    chars_of, find_char, first_index, lemma_first_index_at, lemma_first_index_found, parse_u64, parse_u64_spec,
    str_eq, string_of, sub_chars,
};
use crate::{PackageInfo, RiskKind, Severity, SupplyChainReport, SupplyChainRisk, SupplyChainRiskType};

verus! {

/// Scopes of well-known organisations, which never count as scope confusion.
pub open spec fn official_scope_names() -> Seq<Seq<char>> {
    seq![
        "@types"@,
        "@babel"@,
        "@eslint"@,
        "@typescript-eslint"@,
        "@angular"@,
        "@vue"@,
        "@nuxt"@,
        "@nestjs"@,
        "@react-native"@,
        "@testing-library"@,
        "@emotion"@,
        "@mui"@,
        "@chakra-ui"@,
        "@radix-ui"@,
        "@headlessui"@,
        "@tanstack"@,
        "@trpc"@,
        "@prisma"@,
        "@aws-sdk"@,
        "@azure"@,
        "@google-cloud"@,
        "@grpc"@,
        "@opentelemetry"@,
        "@sentry"@
    ]
}

/// The official scopes, as a table.
pub fn official_scopes() -> (v: Vec<&'static str>)
    ensures
        v@.len() == official_scope_names().len(),
        forall|i: int| 0 <= i < v@.len() ==> #[trigger] v@[i]@ == official_scope_names()[i],
{
    let v: Vec<&'static str> = vec![
        "@types",
        "@babel",
        "@eslint",
        "@typescript-eslint",
        "@angular",
        "@vue",
        "@nuxt",
        "@nestjs",
        "@react-native",
        "@testing-library",
        "@emotion",
        "@mui",
        "@chakra-ui",
        "@radix-ui",
        "@headlessui",
        "@tanstack",
        "@trpc",
        "@prisma",
        "@aws-sdk",
        "@azure",
        "@google-cloud",
        "@grpc",
        "@opentelemetry",
        "@sentry"
    ];
    v
}

/// The part of `s` before the first `c` (all of `s` when there is none).
pub open spec fn before_first(s: Seq<char>, c: char) -> Seq<char> {
    match first_index(s, c) {
        Some(k) => s.take(k),
        None => s,
    }
}

/// The popular package that a scoped name `@scope/pkg` impersonates: `pkg`,
/// when `@scope` is not an official scope and `pkg` is a popular package.
pub open spec fn scope_confusion(name: Seq<char>) -> Option<Seq<char>> {
    if name.len() > 0 && name[0] == '@' {
        let rest = name.drop_first();
        match first_index(rest, '/') {
            Some(k) => {
                let scope = name.take(k + 1);
                let pkg = rest.skip(k + 1);
                if official_scope_names().contains(scope) {
                    None
                } else if popular_package_names().contains(pkg) {
                    Some(pkg)
                } else {
                    None
                }
            },
            None => None,
        }
    } else {
        None
    }
}

/// The major version: the number before the first `.`, or 0 when that part
/// is not a number.
pub open spec fn version_major(version: Seq<char>) -> u64 {
    match parse_u64_spec(before_first(version, '.')) {
        Some(m) => m,
        None => 0,
    }
}

/// A major version of 50 or more is suspicious.
pub open spec fn version_anomaly(version: Seq<char>) -> bool {
    version_major(version) >= 50
}

/// Whether a string slice is one of the entries of a table.
fn table_contains(table: &Vec<&'static str>, s: &str) -> (b: bool)
    ensures
        b == table@.map_values(|t: &'static str| t@).contains(s@),
{
    let ghost spec_table = table@.map_values(|t: &'static str| t@);
    let mut i: usize = 0;
    while i < table.len()
        invariant
            i <= table@.len(),
            spec_table == table@.map_values(|t: &'static str| t@),
            forall|k: int| 0 <= k < i ==> spec_table[k] != s@,
        decreases table@.len() - i,
    {
        if str_eq(table[i], s) {
            assert(spec_table[i as int] == s@);
            return true;
        }
        i = i + 1;
    }
    false
}

/// Checks if a scoped package impersonates a popular unscoped package.
pub fn check_scope_confusion(name: &str) -> (r: Option<String>)
    ensures
        match r {
            Some(p) => scope_confusion(name@) == Some(p@),
            None => scope_confusion(name@) is None,
        },
{
    let chars = chars_of(name);
    if chars.len() == 0 || chars[0] != '@' {
        return None;
    }
    let rest = sub_chars(chars.as_slice(), 1, chars.len());
    assert(rest@ =~= name@.drop_first());
    match find_char(rest.as_slice(), '/') {
        Some(k) => {
            proof {
                lemma_first_index_found(rest@, '/');
            }
            let scope = string_of(sub_chars(chars.as_slice(), 0, k + 1).as_slice());
            let pkg = string_of(sub_chars(rest.as_slice(), k + 1, rest.len()).as_slice());
            assert(scope@ =~= name@.take(k + 1));
            assert(pkg@ =~= rest@.skip(k + 1));
            let official = official_scopes();
            assert(official@.map_values(|t: &'static str| t@) =~= official_scope_names());
            if table_contains(&official, scope.as_str()) {
                return None;
            }
            let popular = popular_packages();
            assert(popular@.map_values(|t: &'static str| t@) =~= popular_package_names());
            if table_contains(&popular, pkg.as_str()) {
                Some(pkg)
            } else {
                None
            }
        },
        None => None,
    }
}

/// Checks if an installed version's major number is abnormally high.
pub fn check_version_anomaly(_name: &str, version: &str) -> (b: bool)
    ensures
        b == version_anomaly(version@),
{
    let chars = chars_of(version);
    let head = match find_char(chars.as_slice(), '.') {
        Some(k) => {
            proof {
                lemma_first_index_found(chars@, '.');
            }
            sub_chars(chars.as_slice(), 0, k)
        },
        None => chars,
    };
    assert(head@ =~= before_first(version@, '.'));
    let major: u64 = match parse_u64(head.as_slice()) {
        Some(m) => m,
        None => 0,
    };
    major >= 50
}

/// The risks reported for one package, in the order the checks run:
/// typosquatting (high), scope confusion (medium), version anomaly (high).
pub open spec fn risks_for(name: Seq<char>, version: Seq<char>) -> Seq<
    (Seq<char>, Seq<char>, RiskKind, Severity),
> {
    let t = match typosquat_match(name) {
        Some((similar, d)) => seq![
            (name, version, RiskKind::Typosquat { similar_to: similar, distance: d }, Severity::High),
        ],
        None => Seq::empty(),
    };
    let s = match scope_confusion(name) {
        Some(l) => seq![
            (name, version, RiskKind::ScopeConfusion { legitimate: l }, Severity::Medium),
        ],
        None => Seq::empty(),
    };
    let v = if version_anomaly(version) {
        seq![
            (name, version, RiskKind::VersionAnomaly { installed_version: version }, Severity::High),
        ]
    } else {
        Seq::empty()
    };
    t + s + v
}

/// The risks for a list of packages (names with their lockfile entries).
pub open spec fn risks_for_all(names: Seq<Seq<char>>, infos: Seq<PackageInfo>) -> Seq<
    (Seq<char>, Seq<char>, RiskKind, Severity),
>
    decreases names.len(),
{
    if names.len() == 0 || infos.len() == 0 {
        Seq::empty()
    } else {
        risks_for_all(names.drop_last(), infos.drop_last()) + risks_for(
            names.last(),
            infos.last().version@,
        )
    }
}

/// Appends the risks of one package.
fn push_risks_for(risks: &mut Vec<SupplyChainRisk>, name: &String, version: &String)
    ensures
        final(risks).deep_view() == old(risks).deep_view() + risks_for(name@, version@),
{
    let ghost start = risks.deep_view();
    let ghost t = match typosquat_match(name@) {
        Some((similar, d)) => seq![
            (name@, version@, RiskKind::Typosquat { similar_to: similar, distance: d }, Severity::High),
        ],
        None => Seq::empty(),
    };
    let ghost s = match scope_confusion(name@) {
        Some(l) => seq![
            (name@, version@, RiskKind::ScopeConfusion { legitimate: l }, Severity::Medium),
        ],
        None => Seq::empty(),
    };
    if let Some((similar, distance)) = check_typosquat(name.as_str()) {
        risks.push(
            SupplyChainRisk {
                package: name.clone(),
                version: version.clone(),
                risk_type: SupplyChainRiskType::Typosquat { similar_to: similar, distance },
                severity: Severity::High,
            },
        );
    }
    assert(risks.deep_view() =~= start + t);
    if let Some(legitimate) = check_scope_confusion(name.as_str()) {
        risks.push(
            SupplyChainRisk {
                package: name.clone(),
                version: version.clone(),
                risk_type: SupplyChainRiskType::ScopeConfusion { legitimate },
                severity: Severity::Medium,
            },
        );
    }
    assert(risks.deep_view() =~= start + t + s);
    let ghost before_v = risks.deep_view();
    if check_version_anomaly(name.as_str(), version.as_str()) {
        risks.push(
            SupplyChainRisk {
                package: name.clone(),
                version: version.clone(),
                risk_type: SupplyChainRiskType::VersionAnomaly {
                    installed_version: version.clone(),
                },
                severity: Severity::High,
            },
        );
    }
    assert(risks.deep_view() =~= start + risks_for(name@, version@));
}

/// Appends the risks of every package in `deps`.
fn push_risks_for_map(risks: &mut Vec<SupplyChainRisk>, deps: &StrMap<PackageInfo>)
    ensures
        final(risks).deep_view() == old(risks).deep_view() + risks_for_all(deps.keys(), deps.vals()),
{
    deps.well_formed();
    let n = deps.len();
    let ghost start = risks.deep_view();
    let mut i: usize = 0;
    while i < n
        invariant
            i <= n,
            n == deps.keys().len(),
            n == deps.vals().len(),
            risks.deep_view() == start + risks_for_all(
                deps.keys().take(i as int),
                deps.vals().take(i as int),
            ),
        decreases n - i,
    {
        let name = deps.key_at(i);
        let info = deps.value_at(i);
        push_risks_for(risks, name, &info.version);
        proof {
            let ks = deps.keys().take(i + 1);
            let vs = deps.vals().take(i + 1);
            assert(ks.drop_last() =~= deps.keys().take(i as int));
            assert(vs.drop_last() =~= deps.vals().take(i as int));
            assert(risks.deep_view() =~= start + risks_for_all(ks, vs));
        }
        i = i + 1;
    }
    assert(deps.keys().take(n as int) =~= deps.keys());
    assert(deps.vals().take(n as int) =~= deps.vals());
}

/// Runs all supply chain checks against the dependency graph: every
/// dependency, then every dev dependency, each through the typosquatting,
/// scope confusion and version anomaly checks.
pub fn analyze(graph: &crate::DependencyGraph) -> (report: SupplyChainReport)
    ensures
        report.risks.deep_view() == risks_for_all(
            graph.dependencies.keys(),
            graph.dependencies.vals(),
        ) + risks_for_all(graph.dev_dependencies.keys(), graph.dev_dependencies.vals()),
{
    let mut risks: Vec<SupplyChainRisk> = Vec::new();
    assert(risks.deep_view() =~= Seq::empty());
    push_risks_for_map(&mut risks, &graph.dependencies);
    push_risks_for_map(&mut risks, &graph.dev_dependencies);
    assert(risks.deep_view() =~= risks_for_all(
        graph.dependencies.keys(),
        graph.dependencies.vals(),
    ) + risks_for_all(graph.dev_dependencies.keys(), graph.dev_dependencies.vals()));
    SupplyChainReport { risks }
}

/// Whether a report holds a high or critical risk: such a risk fails the
/// supply chain command.
pub fn has_high_risk(report: &SupplyChainReport) -> (b: bool)
    ensures
        b == (crate::threshold::count_high_risks(report.risks.deep_view()) > 0),
{
    let ghost rs = report.risks.deep_view();
    let mut i: usize = 0;
    while i < report.risks.len()
        invariant
            i <= report.risks@.len(),
            rs == report.risks.deep_view(),
            crate::threshold::count_high_risks(rs.take(i as int)) == 0,
        decreases report.risks@.len() - i,
    {
        assert(rs.take(i + 1).drop_last() =~= rs.take(i as int));
        match report.risks[i].severity {
            Severity::High | Severity::Critical => {
                proof {
                    lemma_high_count_grows(rs, i as int + 1);
                }
                return true;
            },
            _ => {},
        }
        i = i + 1;
    }
    assert(rs.take(i as int) =~= rs);
    false
}

/// A prefix of the risks holds no more high or critical ones than all of
/// them.
proof fn lemma_high_count_grows(rs: Seq<(Seq<char>, Seq<char>, RiskKind, Severity)>, k: int)
    requires
        0 <= k <= rs.len(),
    ensures
        crate::threshold::count_high_risks(rs.take(k)) <= crate::threshold::count_high_risks(rs),
    decreases rs.len(),
{
    if k < rs.len() {
        assert(rs.drop_last().take(k) =~= rs.take(k));
        lemma_high_count_grows(rs.drop_last(), k);
    } else {
        assert(rs.take(k) =~= rs);
    }
}

/// Scope confusion on a name `@scope/pkg` whose scope has no `/`: it names
/// exactly `pkg`, and only when `pkg` is one of the popular packages and
/// `@scope` is not an official scope; a private package whose bare name is
/// not popular is never reported.
pub proof fn law_scope_confusion_of_scoped_name(scope: Seq<char>, pkg: Seq<char>)
    requires
        !scope.contains('/'),
    ensures
        scope_confusion(seq!['@'] + scope + seq!['/'] + pkg) == (if !official_scope_names().contains(
            seq!['@'] + scope,
        ) && popular_package_names().contains(pkg) {
            Some(pkg)
        } else {
            None
        }),
{
    let name = seq!['@'] + scope + seq!['/'] + pkg;
    let rest = name.drop_first();
    assert(rest =~= scope + seq!['/'] + pkg);
    assert forall|j: int| 0 <= j < scope.len() implies rest[j] != '/' by {
        assert(rest[j] == scope[j]);
        if scope[j] == '/' {
            assert(scope.contains('/'));
        }
    }
    lemma_first_index_at(rest, '/', scope.len() as int);
    assert(name.take(scope.len() as int + 1) =~= seq!['@'] + scope);
    assert(rest.skip(scope.len() as int + 1) =~= pkg);
}

/// Whatever name scope confusion reports, the result is one of the popular
/// package names and the name is `@scope/` followed by it, with a scope that
/// has no `/`: the result is the part after the first `/`.
pub proof fn law_scope_confusion_reports_popular_packages(name: Seq<char>)
    ensures
        scope_confusion(name) is Some ==> ({
            let p = scope_confusion(name)->0;
            &&& popular_package_names().contains(p)
            &&& exists|scope: Seq<char>|
                !scope.contains('/') && #[trigger] (seq!['@'] + scope + seq!['/'] + p) == name
        }),
{
    if scope_confusion(name) is Some {
        let rest = name.drop_first();
        lemma_first_index_found(rest, '/');
        let k = first_index(rest, '/')->0;
        let scope = rest.take(k);
        let p = rest.skip(k + 1);
        assert(scope_confusion(name) == Some(p));
        assert(seq!['@'] + scope + seq!['/'] + p =~= name);
        assert(!scope.contains('/'));
    }
}

} // verus!
