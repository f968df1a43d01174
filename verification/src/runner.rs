//! The run settings of an analysis, and the decisions the runs make on
//! what they read and find.
use vstd::prelude::*;

use crate::analyze::AnalyzeOptions;
use crate::config::types::LicensePolicy;
use crate::json::{member, parse_json, JsonValue};
use crate::lockfile::npm::{members, object_members};
use crate::strmap::StrMap;
use crate::{AnalysisResult, DepEdge, DependencyGraph, PackageInfo};

verus! {

/// Runtime configuration resolved from the command line and `.lockpickrc`.
pub struct RunConfig {
    pub skip_dev: bool,
    pub ignore: Vec<String>,
    pub extra_configs: Vec<String>,
    pub license_policy: Option<LicensePolicy>,
    pub run_unused: bool,
    pub run_audit: bool,
    pub run_fix: bool,
    pub verbose: bool,
    pub dry_run: bool,
    pub no_cache: bool,
    pub cache_ttl: Option<u64>,
}

/// The version range a `package.json` gives a dependency: its text, or `*`
/// when it is not a string.
pub open spec fn range_text(v: JsonValue) -> Seq<char> {
    match v {
        JsonValue::Str(s) => s@,
        _ => "*"@,
    }
}

/// The packages a `package.json` dependency map declares, by name (a later
/// member of the same name replaces an earlier one).
pub open spec fn declared_map(ms: Seq<(String, JsonValue)>) -> Map<Seq<char>, (Seq<char>, Seq<char>, Option<Seq<char>>)>
    decreases ms.len(),
{
    if ms.len() == 0 {
        Map::empty()
    } else {
        let m = ms.last();
        declared_map(ms.drop_last()).insert(m.0@, (m.0@, range_text(m.1), None))
    }
}

/// The options of a package analysis under a run configuration: every
/// analysis but the unused check always runs; that one runs when asked.
pub open spec fn opts_of(cfg: &RunConfig, opts: &AnalyzeOptions) -> bool {
    &&& opts.skip_dev == cfg.skip_dev
    &&& opts.ignore.deep_view() == cfg.ignore.deep_view()
    &&& opts.run_unused == cfg.run_unused
    &&& opts.run_duplicates
    &&& opts.run_size
    &&& opts.run_license
    &&& match (opts.license_policy, cfg.license_policy) {
        (Some(a), Some(b)) => a.allow.deep_view() == b.allow.deep_view() && a.deny.deep_view()
            == b.deny.deep_view(),
        (None, None) => true,
        _ => false,
    }
}

/// Whether a result has issues: unused dependencies or vulnerabilities.
pub open spec fn has_issues_spec(result: &AnalysisResult) -> bool {
    (result.unused matches Some(u) && u.unused@.len() > 0) || (result.vulns matches Some(v) && v@.len()
        > 0)
}

/// Copies a list of strings.
pub(crate) fn copy_strings(v: &Vec<String>) -> (r: Vec<String>)
    ensures
        r.deep_view() == v.deep_view(),
{
    let mut r: Vec<String> = Vec::new();
    let mut i: usize = 0;
    while i < v.len()
        invariant
            i <= v@.len(),
            r.deep_view() == v.deep_view().take(i as int),
        decreases v@.len() - i,
    {
        let s = v[i].clone();
        let ghost before = r.deep_view();
        r.push(s);
        assert(r.deep_view() =~= before.push(s@));
        assert(v.deep_view().take(i + 1) =~= v.deep_view().take(i as int).push(v[i as int]@));
        i = i + 1;
    }
    assert(v.deep_view().take(v@.len() as int) =~= v.deep_view());
    r
}

/// The analysis options of a run configuration.
pub fn build_opts(cfg: &RunConfig) -> (opts: AnalyzeOptions)
    ensures
        opts_of(cfg, &opts),
{
    let license_policy = match &cfg.license_policy {
        Some(p) => Some(LicensePolicy { allow: copy_strings(&p.allow), deny: copy_strings(&p.deny) }),
        None => None,
    };
    AnalyzeOptions {
        skip_dev: cfg.skip_dev,
        ignore: copy_strings(&cfg.ignore),
        run_unused: cfg.run_unused,
        run_duplicates: true,
        run_size: true,
        run_license: true,
        license_policy,
    }
}

/// Whether a result has issues: unused dependencies or vulnerabilities.
pub fn has_issues(result: &AnalysisResult) -> (b: bool)
    ensures
        b == has_issues_spec(result),
{
    let unused = match &result.unused {
        Some(u) => u.unused.len() > 0,
        None => false,
    };
    let vulns = match &result.vulns {
        Some(v) => v.len() > 0,
        None => false,
    };
    unused || vulns
}

/// Two package tables hold the same names, in the same order, each with the
/// same versions.
pub open spec fn same_packages(a: &StrMap<Vec<String>>, b: &StrMap<Vec<String>>) -> bool {
    &&& a.keys() == b.keys()
    &&& a.vals().len() == b.vals().len()
    &&& forall|i: int| 0 <= i < a.vals().len() ==> #[trigger] a.vals()[i].deep_view() == b.vals()[i].deep_view()
}

/// Copies a table of package versions.
fn copy_packages(m: &StrMap<Vec<String>>) -> (r: StrMap<Vec<String>>)
    ensures
        same_packages(&r, m),
{
    m.well_formed();
    let mut r: StrMap<Vec<String>> = StrMap::new();
    let mut i: usize = 0;
    let n = m.len();
    while i < n
        invariant
            n == m.keys().len(),
            m.keys().len() == m.vals().len(),
            m.keys().no_duplicates(),
            i <= n,
            r.keys() == m.keys().take(i as int),
            r.vals().len() == i,
            forall|j: int| 0 <= j < i ==> #[trigger] r.vals()[j].deep_view() == m.vals()[j].deep_view(),
        decreases n - i,
    {
        let k = m.key_at(i).clone();
        let v = copy_strings(m.value_at(i));
        proof {
            if r.has(k@) {
                let j = r.pos(k@);
                assert(r.keys().contains(k@));
                assert(0 <= j < i && m.keys()[j] == m.keys()[i as int]);
            }
        }
        let ghost before = r.vals();
        r.insert(k, v);
        assert(m.keys().take(i + 1) =~= m.keys().take(i as int).push(m.keys()[i as int]));
        assert forall|j: int| 0 <= j < i + 1 implies #[trigger] r.vals()[j].deep_view() == m.vals()[j].deep_view() by {
            if j < i {
                assert(r.vals()[j] == before[j]);
            }
        }
        i = i + 1;
    }
    assert(m.keys().take(n as int) =~= m.keys());
    r
}

/// The graph a workspace package is analyzed under: its own declared
/// dependencies, with the lockfile type and every resolved package of the
/// shared lockfile, and no dependency edges.
pub fn workspace_graph(
    graph: &DependencyGraph,
    dependencies: StrMap<PackageInfo>,
    dev_dependencies: StrMap<PackageInfo>,
) -> (g: DependencyGraph)
    ensures
        g.dependencies == dependencies,
        g.dev_dependencies == dev_dependencies,
        g.lockfile_type == graph.lockfile_type,
        same_packages(&g.all_packages, &graph.all_packages),
        g.dep_edges.keys().len() == 0,
{
    DependencyGraph {
        dependencies,
        dev_dependencies,
        lockfile_type: graph.lockfile_type,
        all_packages: copy_packages(&graph.all_packages),
        dep_edges: StrMap::<Vec<DepEdge>>::new(),
    }
}

/// The packages a `package.json` dependency map declares.
fn declared(ms: &Vec<(String, JsonValue)>) -> (r: StrMap<PackageInfo>)
    ensures
        r.deep_is(declared_map(ms@)),
{
    let ghost mv = ms@;
    let mut r: StrMap<PackageInfo> = StrMap::new();
    proof {
        assert forall|q: Seq<char>| #[trigger] r.has(q) implies false by {}
        assert(declared_map(mv.take(0)) =~= Map::<Seq<char>, (Seq<char>, Seq<char>, Option<Seq<char>>)>::empty());
    }
    let mut j: usize = 0;
    while j < ms.len()
        invariant
            j <= mv.len(),
            mv == ms@,
            r.deep_is(declared_map(mv.take(j as int))),
        decreases mv.len() - j,
    {
        assert(mv.take(j + 1).drop_last() =~= mv.take(j as int));
        assert(mv.take(j + 1).last() == mv[j as int]);
        let version = match &ms[j].1 {
            JsonValue::Str(s) => s.clone(),
            _ => String::from_str("*"),
        };
        proof {
            reveal_strlit("*");
        }
        let info = PackageInfo { name: ms[j].0.clone(), version, integrity: None };
        let ghost ginfo = info;
        let ghost before = r;
        let ghost done = declared_map(mv.take(j as int));
        r.well_formed();
        let had = r.contains_key(ms[j].0.as_str());
        r.insert(ms[j].0.clone(), info);
        r.well_formed();
        proof {
            assert(ginfo.deep_view() == (mv[j as int].0@, range_text(mv[j as int].1), None::<Seq<char>>));
            if had {
                StrMap::<PackageInfo>::lemma_deep_is_update(before, r, mv[j as int].0@, ginfo, done);
            } else {
                StrMap::<PackageInfo>::lemma_deep_is_push(before, r, mv[j as int].0@, ginfo, done);
            }
        }
        j = j + 1;
    }
    assert(mv.take(mv.len() as int) =~= mv);
    r
}

/// The dependencies and dev dependencies a `package.json` text declares,
/// with their version ranges (`*` for a range that is not a string); none
/// when the text is not JSON.
pub fn package_deps_from_json(content: &str) -> (r: Option<(StrMap<PackageInfo>, StrMap<PackageInfo>)>)
    ensures
        match crate::json::json_document(content@) {
            Ok(root) => r matches Some(p) && p.0.deep_is(
                declared_map(object_members(member(members(root), "dependencies"@))),
            ) && p.1.deep_is(declared_map(object_members(member(members(root), "devDependencies"@)))),
            Err(_) => r is None,
        },
{
    let root = match parse_json(content) {
        Ok(v) => v,
        Err(_) => {
            return None;
        },
    };
    let empty: Vec<(String, JsonValue)> = Vec::new();
    let top: &Vec<(String, JsonValue)> = match &root {
        JsonValue::Object(ms) => ms,
        _ => &empty,
    };
    assert(top@ == members(root));
    let deps: &Vec<(String, JsonValue)> = match crate::json::get_field_of(top, "dependencies") {
        Some(JsonValue::Object(ms)) => ms,
        _ => &empty,
    };
    let dev_deps: &Vec<(String, JsonValue)> = match crate::json::get_field_of(top, "devDependencies") {
        Some(JsonValue::Object(ms)) => ms,
        _ => &empty,
    };
    Some((declared(deps), declared(dev_deps)))
}

} // verus!
