//! Vulnerability scanning against OSV.dev: which packages to query, which
//! of them the cache already answers, what a batch response says, and the
//! reports that come out. Sending the queries, the cache files and rating
//! a CVSS score (floating point) are the caller's.
use vstd::prelude::*;

use crate::error::LockpickError;
use crate::json::{json_document, member, parse_json, JsonValue};
use crate::lockfile::npm::{members, opt_text, text_of};
use crate::text::push_str;
use crate::{DependencyGraph, PackageInfo, Severity, VulnReport, Vulnerability};

verus! {

/// The most queries sent in one batch.
pub const OSV_BATCH_SIZE: usize = 1000;

/// How long cached answers stay fresh when no TTL is configured: 24 hours.
pub const DEFAULT_CACHE_TTL: u64 = 86400;

/// A vulnerability as an OSV response describes it, before its severity is
/// rated: its id, summary, the CVSS v3 scores it gives, and the first
/// version that fixes it.
#[derive(Debug)]
pub struct OsvVulnInfo {
    pub id: String,
    pub summary: String,
    pub cvss_v3_scores: Vec<String>,
    pub fixed_version: Option<String>,
}

/// (id, summary, CVSS v3 scores, fixed version)
pub type OsvVulnView = (Seq<char>, Seq<char>, Seq<Seq<char>>, Option<Seq<char>>);

impl DeepView for OsvVulnInfo {
    type V = OsvVulnView;

    open spec fn deep_view(&self) -> OsvVulnView {
        (self.id@, self.summary@, self.cvss_v3_scores.deep_view(), self.fixed_version.deep_view())
    }
}

/// A string field's text, empty when absent or not a string.
pub open spec fn str_or_empty(v: Option<JsonValue>) -> Seq<char> {
    match text_of(v) {
        Some(s) => s,
        None => Seq::empty(),
    }
}

/// The items of an array field; none when absent or not an array.
pub open spec fn array_items(v: Option<JsonValue>) -> Seq<JsonValue> {
    match v {
        Some(JsonValue::Array(xs)) => xs@,
        _ => Seq::empty(),
    }
}

/// The scores of the `CVSS_V3` entries of a `severity` list, in order.
pub open spec fn cvss_scores(sevs: Seq<JsonValue>) -> Seq<Seq<char>>
    decreases sevs.len(),
{
    if sevs.len() == 0 {
        Seq::empty()
    } else {
        let rest = cvss_scores(sevs.drop_last());
        let ms = members(sevs.last());
        match (text_of(member(ms, "type"@)), text_of(member(ms, "score"@))) {
            (Some(t), Some(s)) => if t == "CVSS_V3"@ {
                rest.push(s)
            } else {
                rest
            },
            _ => rest,
        }
    }
}

/// The `fixed` versions of a list of range events, in order.
pub open spec fn fixed_in_events(evs: Seq<JsonValue>) -> Seq<Seq<char>>
    decreases evs.len(),
{
    if evs.len() == 0 {
        Seq::empty()
    } else {
        let rest = fixed_in_events(evs.drop_last());
        match text_of(member(members(evs.last()), "fixed"@)) {
            Some(f) => rest.push(f),
            None => rest,
        }
    }
}

/// The `fixed` versions of a list of ranges, in order.
pub open spec fn fixed_in_ranges(rs: Seq<JsonValue>) -> Seq<Seq<char>>
    decreases rs.len(),
{
    if rs.len() == 0 {
        Seq::empty()
    } else {
        fixed_in_ranges(rs.drop_last()) + fixed_in_events(array_items(member(members(rs.last()), "events"@)))
    }
}

/// The `fixed` versions of an `affected` list, in order.
pub open spec fn fixed_in_affected(afs: Seq<JsonValue>) -> Seq<Seq<char>>
    decreases afs.len(),
{
    if afs.len() == 0 {
        Seq::empty()
    } else {
        fixed_in_affected(afs.drop_last()) + fixed_in_ranges(array_items(member(members(afs.last()), "ranges"@)))
    }
}

/// The first of a list, if any.
pub open spec fn first_of(s: Seq<Seq<char>>) -> Option<Seq<char>> {
    if s.len() > 0 {
        Some(s[0])
    } else {
        None
    }
}

/// What an OSV vulnerability object says.
pub open spec fn vuln_info(v: JsonValue) -> OsvVulnView {
    let ms = members(v);
    (
        str_or_empty(member(ms, "id"@)),
        str_or_empty(member(ms, "summary"@)),
        cvss_scores(array_items(member(ms, "severity"@))),
        first_of(fixed_in_affected(array_items(member(ms, "affected"@)))),
    )
}

/// The vulnerabilities of one result entry.
pub open spec fn entry_infos(e: JsonValue) -> Seq<OsvVulnView> {
    array_items(member(members(e), "vulns"@)).map_values(|v: JsonValue| vuln_info(v))
}

/// A field that holds a string when present (a defaulted `String`).
pub open spec fn opt_str_ok(v: Option<JsonValue>) -> bool {
    match v {
        None => true,
        Some(JsonValue::Str(_)) => true,
        _ => false,
    }
}

/// A field that is present and holds a string.
pub open spec fn str_ok(v: Option<JsonValue>) -> bool {
    match v {
        Some(JsonValue::Str(_)) => true,
        _ => false,
    }
}

/// A range event fits: an object whose `fixed`, if present, is null or a
/// string.
pub open spec fn event_ok(v: JsonValue) -> bool {
    match v {
        JsonValue::Object(ms) => opt_text(member(ms@, "fixed"@)) is Some,
        _ => false,
    }
}

/// An `events` field fits: absent, or an array of fitting events.
pub open spec fn events_ok(v: Option<JsonValue>) -> bool {
    match v {
        None => true,
        Some(JsonValue::Array(xs)) => forall|j: int| 0 <= j < xs@.len() ==> event_ok(#[trigger] xs@[j]),
        _ => false,
    }
}

/// A range fits: an object with fitting `events`.
pub open spec fn range_ok(v: JsonValue) -> bool {
    match v {
        JsonValue::Object(ms) => events_ok(member(ms@, "events"@)),
        _ => false,
    }
}

/// A `ranges` field fits: absent, or an array of fitting ranges.
pub open spec fn ranges_ok(v: Option<JsonValue>) -> bool {
    match v {
        None => true,
        Some(JsonValue::Array(xs)) => forall|j: int| 0 <= j < xs@.len() ==> range_ok(#[trigger] xs@[j]),
        _ => false,
    }
}

/// An `affected` item fits: an object with fitting `ranges`.
pub open spec fn affected_ok(v: JsonValue) -> bool {
    match v {
        JsonValue::Object(ms) => ranges_ok(member(ms@, "ranges"@)),
        _ => false,
    }
}

/// An `affected` field fits: absent, or an array of fitting items.
pub open spec fn affected_list_ok(v: Option<JsonValue>) -> bool {
    match v {
        None => true,
        Some(JsonValue::Array(xs)) => forall|j: int| 0 <= j < xs@.len() ==> affected_ok(#[trigger] xs@[j]),
        _ => false,
    }
}

/// A severity item fits: an object with a string `type` and a string
/// `score`.
pub open spec fn severity_ok(v: JsonValue) -> bool {
    match v {
        JsonValue::Object(ms) => str_ok(member(ms@, "type"@)) && str_ok(member(ms@, "score"@)),
        _ => false,
    }
}

/// A `severity` field fits: absent, or an array of fitting items.
pub open spec fn severities_ok(v: Option<JsonValue>) -> bool {
    match v {
        None => true,
        Some(JsonValue::Array(xs)) => forall|j: int| 0 <= j < xs@.len() ==> severity_ok(#[trigger] xs@[j]),
        _ => false,
    }
}

/// A vulnerability fits: an object with a string `id`, a string `summary`
/// if present, and fitting `severity` and `affected`.
pub open spec fn vuln_ok(v: JsonValue) -> bool {
    match v {
        JsonValue::Object(ms) => {
            &&& str_ok(member(ms@, "id"@))
            &&& opt_str_ok(member(ms@, "summary"@))
            &&& severities_ok(member(ms@, "severity"@))
            &&& affected_list_ok(member(ms@, "affected"@))
        },
        _ => false,
    }
}

/// A `vulns` field fits: absent, or an array of fitting vulnerabilities.
pub open spec fn vulns_ok(v: Option<JsonValue>) -> bool {
    match v {
        None => true,
        Some(JsonValue::Array(xs)) => forall|j: int| 0 <= j < xs@.len() ==> vuln_ok(#[trigger] xs@[j]),
        _ => false,
    }
}

/// A result entry fits: an object with fitting `vulns`.
pub open spec fn result_entry_ok(v: JsonValue) -> bool {
    match v {
        JsonValue::Object(ms) => vulns_ok(member(ms@, "vulns"@)),
        _ => false,
    }
}

/// The error text of a response whose fields do not have the expected
/// shape.
pub open spec fn shape_error() -> Seq<char> {
    "Failed to parse OSV response: unexpected field shape"@
}

/// The outcome of reading a batch response body: the vulnerabilities of
/// each result entry, in order. The body must be an object with a
/// `results` array of fitting entries.
pub open spec fn batch_response_spec(body: Seq<char>) -> Result<Seq<Seq<OsvVulnView>>, Seq<char>> {
    match json_document(body) {
        Err(m) => Err("Failed to parse OSV response: "@ + m),
        Ok(root) => if !(root is Object) {
            Err(shape_error())
        } else {
            match member(members(root), "results"@) {
                None => Err("Failed to parse OSV response: missing field `results`"@),
                Some(JsonValue::Array(xs)) => if forall|j: int|
                    0 <= j < xs@.len() ==> result_entry_ok(#[trigger] xs@[j]) {
                    Ok(xs@.map_values(|e: JsonValue| entry_infos(e)))
                } else {
                    Err(shape_error())
                },
                Some(_) => Err(shape_error()),
            }
        },
    }
}

/// The packages to scan: each dependency, then each dev dependency, with
/// its version.
pub open spec fn scan_targets_spec(graph: &DependencyGraph) -> Seq<(Seq<char>, Seq<char>)> {
    targets_of(graph.dependencies.keys(), graph.dependencies.vals()) + targets_of(
        graph.dev_dependencies.keys(),
        graph.dev_dependencies.vals(),
    )
}

/// Names paired with the versions of their package information.
pub open spec fn targets_of(names: Seq<Seq<char>>, infos: Seq<PackageInfo>) -> Seq<(Seq<char>, Seq<char>)> {
    Seq::new(names.len(), |i: int| (names[i], infos[i].version@))
}

/// The reports of the packages the cache answered with vulnerabilities.
pub open spec fn cached_reports_spec(
    targets: Seq<(Seq<char>, Seq<char>)>,
    cached: Seq<Option<Seq<(Seq<char>, Seq<char>, crate::Severity, Option<Seq<char>>)>>>,
) -> Seq<(Seq<char>, Seq<char>, Seq<(Seq<char>, Seq<char>, crate::Severity, Option<Seq<char>>)>)>
    decreases targets.len(),
{
    if targets.len() == 0 || cached.len() != targets.len() {
        Seq::empty()
    } else {
        let rest = cached_reports_spec(targets.drop_last(), cached.drop_last());
        match cached.last() {
            Some(vs) => if vs.len() > 0 {
                rest.push((targets.last().0, targets.last().1, vs))
            } else {
                rest
            },
            None => rest,
        }
    }
}

/// The packages the cache did not answer, in order.
pub open spec fn uncached_spec(
    targets: Seq<(Seq<char>, Seq<char>)>,
    cached: Seq<Option<Seq<(Seq<char>, Seq<char>, crate::Severity, Option<Seq<char>>)>>>,
) -> Seq<(Seq<char>, Seq<char>)>
    decreases targets.len(),
{
    if targets.len() == 0 || cached.len() != targets.len() {
        Seq::empty()
    } else {
        let rest = uncached_spec(targets.drop_last(), cached.drop_last());
        match cached.last() {
            Some(_) => rest,
            None => rest.push(targets.last()),
        }
    }
}

/// The reports of freshly queried packages: the `i`-th answer belongs to
/// the `i`-th query; a package whose batch failed (no answer), an empty
/// answer, and an answer without a query give none.
pub open spec fn fresh_reports_spec(
    order: Seq<(Seq<char>, Seq<char>)>,
    results: Seq<Option<Seq<(Seq<char>, Seq<char>, crate::Severity, Option<Seq<char>>)>>>,
) -> Seq<(Seq<char>, Seq<char>, Seq<(Seq<char>, Seq<char>, crate::Severity, Option<Seq<char>>)>)>
    decreases results.len(),
{
    if results.len() == 0 {
        Seq::empty()
    } else {
        let rest = fresh_reports_spec(order, results.drop_last());
        let i = results.len() - 1;
        match results.last() {
            Some(vs) => if i < order.len() && vs.len() > 0 {
                rest.push((order[i].0, order[i].1, vs))
            } else {
                rest
            },
            None => rest,
        }
    }
}

/// A copy of a vulnerability.
fn copy_vuln(v: &Vulnerability) -> (r: Vulnerability)
    ensures
        r.deep_view() == v.deep_view(),
{
    Vulnerability {
        id: v.id.clone(),
        summary: v.summary.clone(),
        severity: v.severity,
        fixed_version: match &v.fixed_version {
            Some(f) => Some(f.clone()),
            None => None,
        },
    }
}

/// A copy of a list of vulnerabilities.
fn copy_vulns(vs: &Vec<Vulnerability>) -> (r: Vec<Vulnerability>)
    ensures
        r.deep_view() == vs.deep_view(),
{
    let mut r: Vec<Vulnerability> = Vec::new();
    let mut i: usize = 0;
    while i < vs.len()
        invariant
            i <= vs@.len(),
            r.deep_view() == vs.deep_view().take(i as int),
        decreases vs@.len() - i,
    {
        let v = copy_vuln(&vs[i]);
        let ghost before = r.deep_view();
        r.push(v);
        assert(r.deep_view() =~= before.push(v.deep_view()));
        assert(vs.deep_view().take(i + 1) =~= vs.deep_view().take(i as int).push(vs[i as int].deep_view()));
        i = i + 1;
    }
    assert(vs.deep_view().take(vs@.len() as int) =~= vs.deep_view());
    r
}

/// The packages to scan: each dependency, then each dev dependency, with
/// its version.
pub fn scan_targets(graph: &DependencyGraph) -> (r: Vec<(String, String)>)
    ensures
        r.deep_view() == scan_targets_spec(graph),
{
    let mut r: Vec<(String, String)> = Vec::new();
    push_targets(&mut r, &graph.dependencies);
    push_targets(&mut r, &graph.dev_dependencies);
    r
}

/// Appends the names and versions of a map of packages.
fn push_targets(out: &mut Vec<(String, String)>, deps: &crate::strmap::StrMap<PackageInfo>)
    ensures
        final(out).deep_view() == old(out).deep_view() + targets_of(deps.keys(), deps.vals()),
{
    let ghost start = out.deep_view();
    deps.well_formed();
    let n = deps.len();
    let mut i: usize = 0;
    assert(targets_of(deps.keys(), deps.vals()).take(0) =~= Seq::<(Seq<char>, Seq<char>)>::empty());
    while i < n
        invariant
            i <= n,
            n == deps.keys().len(),
            deps.keys().len() == deps.vals().len(),
            out.deep_view() == start + targets_of(deps.keys(), deps.vals()).take(i as int),
        decreases n - i,
    {
        let name = deps.key_at(i).clone();
        let version = deps.value_at(i).version.clone();
        let ghost before = out.deep_view();
        out.push((name, version));
        assert(out.deep_view() =~= before.push((name@, version@)));
        assert(targets_of(deps.keys(), deps.vals()).take(i + 1) =~= targets_of(deps.keys(), deps.vals()).take(
            i as int,
        ).push((name@, version@)));
        i = i + 1;
    }
    assert(targets_of(deps.keys(), deps.vals()).take(n as int) =~= targets_of(deps.keys(), deps.vals()));
}

/// Splits the packages by what the cache gave for each (`cached[i]` for
/// `targets[i]`, none when the cache had no fresh answer): the reports of
/// those it answered with vulnerabilities, and those left to query.
pub fn split_cached(targets: &Vec<(String, String)>, cached: &Vec<Option<Vec<Vulnerability>>>) -> (r: (
    Vec<VulnReport>,
    Vec<(String, String)>,
))
    requires
        cached@.len() == targets@.len(),
    ensures
        r.0.deep_view() == cached_reports_spec(targets.deep_view(), cached.deep_view()),
        r.1.deep_view() == uncached_spec(targets.deep_view(), cached.deep_view()),
{
    let ghost tv = targets.deep_view();
    let ghost cv = cached.deep_view();
    let mut reports: Vec<VulnReport> = Vec::new();
    let mut rest: Vec<(String, String)> = Vec::new();
    let mut i: usize = 0;
    assert(reports.deep_view() =~= cached_reports_spec(tv.take(0), cv.take(0)));
    assert(rest.deep_view() =~= uncached_spec(tv.take(0), cv.take(0)));
    while i < targets.len()
        invariant
            i <= tv.len(),
            tv.len() == cv.len(),
            tv == targets.deep_view(),
            cv == cached.deep_view(),
            cached@.len() == targets@.len(),
            reports.deep_view() == cached_reports_spec(tv.take(i as int), cv.take(i as int)),
            rest.deep_view() == uncached_spec(tv.take(i as int), cv.take(i as int)),
        decreases tv.len() - i,
    {
        assert(tv.take(i + 1).drop_last() =~= tv.take(i as int));
        assert(cv.take(i + 1).drop_last() =~= cv.take(i as int));
        assert(tv.take(i + 1).last() == tv[i as int]);
        assert(cv.take(i + 1).last() == cv[i as int]);
        match &cached[i] {
            Some(vs) => {
                if vs.len() > 0 {
                    let rep = VulnReport {
                        package: targets[i].0.clone(),
                        version: targets[i].1.clone(),
                        vulns: copy_vulns(vs),
                    };
                    let ghost before = reports.deep_view();
                    reports.push(rep);
                    assert(reports.deep_view() =~= before.push(rep.deep_view()));
                }
            },
            None => {
                let t = (targets[i].0.clone(), targets[i].1.clone());
                let ghost before = rest.deep_view();
                rest.push(t);
                assert(rest.deep_view() =~= before.push(tv[i as int]));
            },
        }
        i = i + 1;
    }
    assert(tv.take(tv.len() as int) =~= tv);
    assert(cv.take(cv.len() as int) =~= cv);
    (reports, rest)
}

/// The reports of freshly queried packages: the `i`-th answer belongs to
/// the `i`-th query; missing answers (a failed batch), empty answers and
/// answers without a query give none.
pub fn fresh_reports(order: &Vec<(String, String)>, results: &Vec<Option<Vec<Vulnerability>>>) -> (r: Vec<VulnReport>)
    ensures
        r.deep_view() == fresh_reports_spec(order.deep_view(), results.deep_view()),
{
    let ghost ov = order.deep_view();
    let ghost rv = results.deep_view();
    let mut out: Vec<VulnReport> = Vec::new();
    let mut i: usize = 0;
    assert(out.deep_view() =~= fresh_reports_spec(ov, rv.take(0)));
    while i < results.len()
        invariant
            i <= rv.len(),
            ov == order.deep_view(),
            rv == results.deep_view(),
            out.deep_view() == fresh_reports_spec(ov, rv.take(i as int)),
        decreases rv.len() - i,
    {
        assert(rv.take(i + 1).drop_last() =~= rv.take(i as int));
        assert(rv.take(i + 1).last() == rv[i as int]);
        if let Some(vs) = &results[i] {
            if i < order.len() && vs.len() > 0 {
                let rep = VulnReport { package: order[i].0.clone(), version: order[i].1.clone(), vulns: copy_vulns(vs) };
                let ghost before = out.deep_view();
                out.push(rep);
                assert(out.deep_view() =~= before.push(rep.deep_view()));
            }
        }
        i = i + 1;
    }
    assert(rv.take(rv.len() as int) =~= rv);
    out
}

/// A string field's text, empty when absent or not a string.
fn read_str_or_empty(ms: &Vec<(String, JsonValue)>, key: &str) -> (r: String)
    ensures
        r@ == str_or_empty(member(ms@, key@)),
{
    match crate::json::get_field_of(ms, key) {
        Some(JsonValue::Str(s)) => s.clone(),
        _ => String::new(),
    }
}

/// The members of a value, or `empty` for values that are not objects.
fn members_or<'a>(v: &'a JsonValue, empty: &'a Vec<(String, JsonValue)>) -> (r: &'a Vec<(String, JsonValue)>)
    requires
        empty@.len() == 0,
    ensures
        r@ == members(*v),
{
    match v {
        JsonValue::Object(ms) => ms,
        _ => empty,
    }
}

/// The items of an array field, or `empty` when absent or not an array.
fn items_or<'a>(v: Option<&'a JsonValue>, empty: &'a Vec<JsonValue>) -> (r: &'a Vec<JsonValue>)
    requires
        empty@.len() == 0,
    ensures
        r@ == array_items(
            match v {
                Some(x) => Some(*x),
                None => None,
            },
        ),
{
    match v {
        Some(JsonValue::Array(xs)) => xs,
        _ => empty,
    }
}

/// The scores of the `CVSS_V3` entries of a `severity` list.
fn read_cvss_scores(sevs: &Vec<JsonValue>) -> (r: Vec<String>)
    ensures
        r.deep_view() == cvss_scores(sevs@),
{
    let no_members: Vec<(String, JsonValue)> = Vec::new();
    let mut r: Vec<String> = Vec::new();
    let mut i: usize = 0;
    proof {
        reveal_strlit("CVSS_V3");
    }
    assert(r.deep_view() =~= cvss_scores(sevs@.take(0)));
    while i < sevs.len()
        invariant
            i <= sevs@.len(),
            no_members@.len() == 0,
            r.deep_view() == cvss_scores(sevs@.take(i as int)),
        decreases sevs@.len() - i,
    {
        assert(sevs@.take(i + 1).drop_last() =~= sevs@.take(i as int));
        assert(sevs@.take(i + 1).last() == sevs@[i as int]);
        let ms = members_or(&sevs[i], &no_members);
        let t = crate::json::get_field_of(ms, "type");
        let sc = crate::json::get_field_of(ms, "score");
        match (t, sc) {
            (Some(JsonValue::Str(t)), Some(JsonValue::Str(score))) => {
                if crate::text::str_eq(t.as_str(), "CVSS_V3") {
                    let ghost before = r.deep_view();
                    r.push(score.clone());
                    assert(r.deep_view() =~= before.push(score@));
                }
            },
            _ => {},
        }
        i = i + 1;
    }
    assert(sevs@.take(sevs@.len() as int) =~= sevs@);
    r
}

/// Appends the `fixed` versions of a list of range events.
fn push_fixed_events(out: &mut Vec<String>, evs: &Vec<JsonValue>)
    ensures
        final(out).deep_view() == old(out).deep_view() + fixed_in_events(evs@),
{
    let no_members: Vec<(String, JsonValue)> = Vec::new();
    let ghost start = out.deep_view();
    let mut i: usize = 0;
    assert(start + fixed_in_events(evs@.take(0)) =~= start);
    while i < evs.len()
        invariant
            i <= evs@.len(),
            no_members@.len() == 0,
            out.deep_view() == start + fixed_in_events(evs@.take(i as int)),
        decreases evs@.len() - i,
    {
        assert(evs@.take(i + 1).drop_last() =~= evs@.take(i as int));
        assert(evs@.take(i + 1).last() == evs@[i as int]);
        let ms = members_or(&evs[i], &no_members);
        match crate::json::get_field_of(ms, "fixed") {
            Some(JsonValue::Str(f)) => {
                let ghost before = out.deep_view();
                out.push(f.clone());
                assert(out.deep_view() =~= before.push(f@));
                assert(start + fixed_in_events(evs@.take(i + 1)) =~= before.push(f@));
            },
            _ => {},
        }
        i = i + 1;
    }
    assert(evs@.take(evs@.len() as int) =~= evs@);
}

/// Appends the `fixed` versions of a list of ranges.
fn push_fixed_ranges(out: &mut Vec<String>, rs: &Vec<JsonValue>)
    ensures
        final(out).deep_view() == old(out).deep_view() + fixed_in_ranges(rs@),
{
    let no_members: Vec<(String, JsonValue)> = Vec::new();
    let no_items: Vec<JsonValue> = Vec::new();
    let ghost start = out.deep_view();
    let mut i: usize = 0;
    assert(start + fixed_in_ranges(rs@.take(0)) =~= start);
    while i < rs.len()
        invariant
            i <= rs@.len(),
            no_members@.len() == 0,
            no_items@.len() == 0,
            out.deep_view() == start + fixed_in_ranges(rs@.take(i as int)),
        decreases rs@.len() - i,
    {
        assert(rs@.take(i + 1).drop_last() =~= rs@.take(i as int));
        assert(rs@.take(i + 1).last() == rs@[i as int]);
        let ms = members_or(&rs[i], &no_members);
        let evs = items_or(crate::json::get_field_of(ms, "events"), &no_items);
        let ghost before = out.deep_view();
        push_fixed_events(out, evs);
        assert(start + fixed_in_ranges(rs@.take(i + 1)) =~= before + fixed_in_events(evs@));
        i = i + 1;
    }
    assert(rs@.take(rs@.len() as int) =~= rs@);
}

/// The `fixed` versions of an `affected` list.
fn fixed_versions(afs: &Vec<JsonValue>) -> (r: Vec<String>)
    ensures
        r.deep_view() == fixed_in_affected(afs@),
{
    let no_members: Vec<(String, JsonValue)> = Vec::new();
    let no_items: Vec<JsonValue> = Vec::new();
    let mut r: Vec<String> = Vec::new();
    let mut i: usize = 0;
    assert(r.deep_view() =~= fixed_in_affected(afs@.take(0)));
    while i < afs.len()
        invariant
            i <= afs@.len(),
            no_members@.len() == 0,
            no_items@.len() == 0,
            r.deep_view() == fixed_in_affected(afs@.take(i as int)),
        decreases afs@.len() - i,
    {
        assert(afs@.take(i + 1).drop_last() =~= afs@.take(i as int));
        assert(afs@.take(i + 1).last() == afs@[i as int]);
        let ms = members_or(&afs[i], &no_members);
        let rs = items_or(crate::json::get_field_of(ms, "ranges"), &no_items);
        push_fixed_ranges(&mut r, rs);
        i = i + 1;
    }
    assert(afs@.take(afs@.len() as int) =~= afs@);
    r
}

/// What an OSV vulnerability object says.
fn read_vuln_info(v: &JsonValue) -> (r: OsvVulnInfo)
    ensures
        r.deep_view() == vuln_info(*v),
{
    let no_members: Vec<(String, JsonValue)> = Vec::new();
    let no_items: Vec<JsonValue> = Vec::new();
    let ms = members_or(v, &no_members);
    let id = read_str_or_empty(ms, "id");
    let summary = read_str_or_empty(ms, "summary");
    let scores = read_cvss_scores(items_or(crate::json::get_field_of(ms, "severity"), &no_items));
    let fixed = fixed_versions(items_or(crate::json::get_field_of(ms, "affected"), &no_items));
    let fixed_version = if fixed.len() > 0 {
        Some(fixed[0].clone())
    } else {
        None
    };
    OsvVulnInfo { id, summary, cvss_v3_scores: scores, fixed_version }
}

/// The vulnerabilities of one result entry.
fn read_entry(e: &JsonValue) -> (r: Vec<OsvVulnInfo>)
    ensures
        r.deep_view() == entry_infos(*e),
{
    let no_members: Vec<(String, JsonValue)> = Vec::new();
    let no_items: Vec<JsonValue> = Vec::new();
    let ms = members_or(e, &no_members);
    let vs = items_or(crate::json::get_field_of(ms, "vulns"), &no_items);
    let mut r: Vec<OsvVulnInfo> = Vec::new();
    let mut i: usize = 0;
    while i < vs.len()
        invariant
            i <= vs@.len(),
            vs@ == array_items(member(members(*e), "vulns"@)),
            r.deep_view() == vs@.take(i as int).map_values(|v: JsonValue| vuln_info(v)),
        decreases vs@.len() - i,
    {
        let x = read_vuln_info(&vs[i]);
        let ghost before = r.deep_view();
        r.push(x);
        assert(r.deep_view() =~= before.push(x.deep_view()));
        assert(vs@.take(i + 1).map_values(|v: JsonValue| vuln_info(v)) =~= vs@.take(i as int).map_values(
            |v: JsonValue| vuln_info(v),
        ).push(vuln_info(vs@[i as int])));
        i = i + 1;
    }
    assert(vs@.take(vs@.len() as int) =~= vs@);
    r
}

/// A field as found: the value it holds, if present.
spec fn found(v: Option<&JsonValue>) -> Option<JsonValue> {
    match v {
        Some(x) => Some(*x),
        None => None,
    }
}

/// Whether a field holds a string when present.
fn check_opt_str(v: Option<&JsonValue>) -> (b: bool)
    ensures
        b == opt_str_ok(found(v)),
{
    match v {
        None => true,
        Some(JsonValue::Str(_)) => true,
        Some(_) => false,
    }
}

/// Whether a field is present and holds a string.
fn check_str(v: Option<&JsonValue>) -> (b: bool)
    ensures
        b == str_ok(found(v)),
{
    match v {
        Some(JsonValue::Str(_)) => true,
        _ => false,
    }
}

/// Whether a range event fits.
fn check_event(v: &JsonValue) -> (b: bool)
    ensures
        b == event_ok(*v),
{
    match v {
        JsonValue::Object(ms) => match crate::json::get_field_of(ms, "fixed") {
            None => true,
            Some(JsonValue::Null) => true,
            Some(JsonValue::Str(_)) => true,
            Some(_) => false,
        },
        _ => false,
    }
}

/// Whether an `events` field fits.
#[verifier::loop_isolation(false)]
fn check_events(v: Option<&JsonValue>) -> (b: bool)
    ensures
        b == events_ok(found(v)),
{
    match v {
        None => true,
        Some(JsonValue::Array(xs)) => {
            let mut j: usize = 0;
            while j < xs.len()
                invariant
                    j <= xs@.len(),
                    forall|k: int| 0 <= k < j ==> event_ok(#[trigger] xs@[k]),
                decreases xs@.len() - j,
            {
                if !check_event(&xs[j]) {
                    return false;
                }
                j = j + 1;
            }
            true
        },
        Some(_) => false,
    }
}

/// Whether a range fits.
fn check_range(v: &JsonValue) -> (b: bool)
    ensures
        b == range_ok(*v),
{
    match v {
        JsonValue::Object(ms) => check_events(crate::json::get_field_of(ms, "events")),
        _ => false,
    }
}

/// Whether a `ranges` field fits.
#[verifier::loop_isolation(false)]
fn check_ranges(v: Option<&JsonValue>) -> (b: bool)
    ensures
        b == ranges_ok(found(v)),
{
    match v {
        None => true,
        Some(JsonValue::Array(xs)) => {
            let mut j: usize = 0;
            while j < xs.len()
                invariant
                    j <= xs@.len(),
                    forall|k: int| 0 <= k < j ==> range_ok(#[trigger] xs@[k]),
                decreases xs@.len() - j,
            {
                if !check_range(&xs[j]) {
                    return false;
                }
                j = j + 1;
            }
            true
        },
        Some(_) => false,
    }
}

/// Whether an `affected` item fits.
fn check_affected(v: &JsonValue) -> (b: bool)
    ensures
        b == affected_ok(*v),
{
    match v {
        JsonValue::Object(ms) => check_ranges(crate::json::get_field_of(ms, "ranges")),
        _ => false,
    }
}

/// Whether an `affected` field fits.
#[verifier::loop_isolation(false)]
fn check_affected_list(v: Option<&JsonValue>) -> (b: bool)
    ensures
        b == affected_list_ok(found(v)),
{
    match v {
        None => true,
        Some(JsonValue::Array(xs)) => {
            let mut j: usize = 0;
            while j < xs.len()
                invariant
                    j <= xs@.len(),
                    forall|k: int| 0 <= k < j ==> affected_ok(#[trigger] xs@[k]),
                decreases xs@.len() - j,
            {
                if !check_affected(&xs[j]) {
                    return false;
                }
                j = j + 1;
            }
            true
        },
        Some(_) => false,
    }
}

/// Whether a severity item fits.
fn check_severity(v: &JsonValue) -> (b: bool)
    ensures
        b == severity_ok(*v),
{
    match v {
        JsonValue::Object(ms) => check_str(crate::json::get_field_of(ms, "type")) && check_str(
            crate::json::get_field_of(ms, "score"),
        ),
        _ => false,
    }
}

/// Whether a `severity` field fits.
#[verifier::loop_isolation(false)]
fn check_severities(v: Option<&JsonValue>) -> (b: bool)
    ensures
        b == severities_ok(found(v)),
{
    match v {
        None => true,
        Some(JsonValue::Array(xs)) => {
            let mut j: usize = 0;
            while j < xs.len()
                invariant
                    j <= xs@.len(),
                    forall|k: int| 0 <= k < j ==> severity_ok(#[trigger] xs@[k]),
                decreases xs@.len() - j,
            {
                if !check_severity(&xs[j]) {
                    return false;
                }
                j = j + 1;
            }
            true
        },
        Some(_) => false,
    }
}

/// Whether a vulnerability fits.
fn check_vuln(v: &JsonValue) -> (b: bool)
    ensures
        b == vuln_ok(*v),
{
    match v {
        JsonValue::Object(ms) => {
            check_str(crate::json::get_field_of(ms, "id")) && check_opt_str(
                crate::json::get_field_of(ms, "summary"),
            ) && check_severities(crate::json::get_field_of(ms, "severity")) && check_affected_list(
                crate::json::get_field_of(ms, "affected"),
            )
        },
        _ => false,
    }
}

/// Whether a `vulns` field fits.
#[verifier::loop_isolation(false)]
fn check_vulns(v: Option<&JsonValue>) -> (b: bool)
    ensures
        b == vulns_ok(found(v)),
{
    match v {
        None => true,
        Some(JsonValue::Array(xs)) => {
            let mut j: usize = 0;
            while j < xs.len()
                invariant
                    j <= xs@.len(),
                    forall|k: int| 0 <= k < j ==> vuln_ok(#[trigger] xs@[k]),
                decreases xs@.len() - j,
            {
                if !check_vuln(&xs[j]) {
                    return false;
                }
                j = j + 1;
            }
            true
        },
        Some(_) => false,
    }
}

/// Whether a result entry fits.
fn check_result_entry(v: &JsonValue) -> (b: bool)
    ensures
        b == result_entry_ok(*v),
{
    match v {
        JsonValue::Object(ms) => check_vulns(crate::json::get_field_of(ms, "vulns")),
        _ => false,
    }
}

/// Whether every result entry fits.
#[verifier::loop_isolation(false)]
fn check_result_entries(xs: &Vec<JsonValue>) -> (b: bool)
    ensures
        b == forall|j: int| 0 <= j < xs@.len() ==> result_entry_ok(#[trigger] xs@[j]),
{
    let mut j: usize = 0;
    while j < xs.len()
        invariant
            j <= xs@.len(),
            forall|k: int| 0 <= k < j ==> result_entry_ok(#[trigger] xs@[k]),
        decreases xs@.len() - j,
    {
        if !check_result_entry(&xs[j]) {
            return false;
        }
        j = j + 1;
    }
    true
}

/// The error of a response whose fields do not have the expected shape.
fn shape_failure() -> (e: LockpickError)
    ensures
        e matches LockpickError::Network(m) && m@ == shape_error(),
{
    let mut msg = String::new();
    push_str(&mut msg, "Failed to parse OSV response: unexpected field shape");
    LockpickError::Network(msg)
}

/// Reads the body of an OSV batch response: the vulnerabilities of each
/// result entry, in the order of the queries.
pub fn parse_batch_response(body: &str) -> (r: Result<Vec<Vec<OsvVulnInfo>>, LockpickError>)
    ensures
        match batch_response_spec(body@) {
            Ok(es) => r matches Ok(v) && v.deep_view() == es,
            Err(m) => r matches Err(LockpickError::Network(e)) && e@ == m,
        },
{
    let root = match parse_json(body) {
        Ok(v) => v,
        Err(e) => {
            let mut msg = String::new();
            push_str(&mut msg, "Failed to parse OSV response: ");
            push_str(&mut msg, e.as_str());
            return Err(LockpickError::Network(msg));
        },
    };
    let ms = match &root {
        JsonValue::Object(ms) => ms,
        _ => {
            return Err(shape_failure());
        },
    };
    let xs = match crate::json::get_field_of(ms, "results") {
        Some(JsonValue::Array(xs)) => xs,
        Some(_) => {
            return Err(shape_failure());
        },
        None => {
            let mut msg = String::new();
            push_str(&mut msg, "Failed to parse OSV response: missing field `results`");
            return Err(LockpickError::Network(msg));
        },
    };
    if !check_result_entries(xs) {
        return Err(shape_failure());
    }
    let mut out: Vec<Vec<OsvVulnInfo>> = Vec::new();
    let mut i: usize = 0;
    while i < xs.len()
        invariant
            i <= xs@.len(),
            out.deep_view() == xs@.take(i as int).map_values(|e: JsonValue| entry_infos(e)),
        decreases xs@.len() - i,
    {
        let x = read_entry(&xs[i]);
        let ghost before = out.deep_view();
        out.push(x);
        assert(out.deep_view() =~= before.push(x.deep_view()));
        assert(xs@.take(i + 1).map_values(|e: JsonValue| entry_infos(e)) =~= xs@.take(i as int).map_values(
            |e: JsonValue| entry_infos(e),
        ).push(entry_infos(xs@[i as int])));
        i = i + 1;
    }
    assert(xs@.take(xs@.len() as int) =~= xs@);
    Ok(out)
}

/// The most times a failed batch is sent again.
pub const MAX_RETRIES: u32 = 3;

/// How one attempt at sending a batch went.
#[derive(Debug, Clone, Copy, PartialEq, Eq, Structural)]
pub enum AttemptOutcome {
    /// The request could not be sent or got no response.
    SendFailed,
    /// The service answered with a client error (4xx).
    ClientError,
    /// The service answered with a server error (5xx).
    ServerError,
    /// The service answered; the body is to be read.
    Answered,
}

/// What to do after an attempt.
#[derive(Debug, Clone, Copy, PartialEq, Eq, Structural)]
pub enum RetryStep {
    /// Read the answer.
    ReadAnswer,
    /// Wait this many seconds, then send again.
    Retry(u64),
    /// Stop and report the error of this attempt.
    GiveUp,
}

/// The step after attempt `attempt` (counted from 0): an answer is read; a
/// client error is final; a failed send or a server error is retried after
/// 1, 2, then 4 seconds, until `MAX_RETRIES` retries were made.
pub open spec fn retry_step_spec(attempt: u32, outcome: AttemptOutcome) -> RetryStep {
    match outcome {
        AttemptOutcome::Answered => RetryStep::ReadAnswer,
        AttemptOutcome::ClientError => RetryStep::GiveUp,
        _ => if attempt < MAX_RETRIES {
            RetryStep::Retry(if attempt == 0 { 1 } else if attempt == 1 { 2 } else { 4 })
        } else {
            RetryStep::GiveUp
        },
    }
}

/// The step after an attempt at sending a batch.
pub fn retry_step(attempt: u32, outcome: AttemptOutcome) -> (r: RetryStep)
    ensures
        r == retry_step_spec(attempt, outcome),
{
    match outcome {
        AttemptOutcome::Answered => RetryStep::ReadAnswer,
        AttemptOutcome::ClientError => RetryStep::GiveUp,
        _ => {
            if attempt < MAX_RETRIES {
                let delay: u64 = if attempt == 0 {
                    1
                } else if attempt == 1 {
                    2
                } else {
                    4
                };
                RetryStep::Retry(delay)
            } else {
                RetryStep::GiveUp
            }
        },
    }
}

/// No answer for each of `n` packages.
pub open spec fn no_answers(n: nat) -> Seq<Option<Seq<(Seq<char>, Seq<char>, Severity, Option<Seq<char>>)>>> {
    Seq::new(n, |i: int| None)
}

/// The answers of an answered batch, one per package.
pub open spec fn answered(a: Seq<Seq<(Seq<char>, Seq<char>, Severity, Option<Seq<char>>)>>) -> Seq<Option<Seq<(Seq<char>, Seq<char>, Severity, Option<Seq<char>>)>>> {
    a.map_values(|x: Seq<(Seq<char>, Seq<char>, Severity, Option<Seq<char>>)>| Some(x))
}

/// The answers of all batches, one per queried package in query order: a
/// batch that was answered gives its entries; a batch that failed gives no
/// answer for each of its `lens[..]` packages, so that later answers stay
/// aligned with their packages.
pub open spec fn batch_answers_spec(
    lens: Seq<usize>,
    outcomes: Seq<Option<Seq<Seq<(Seq<char>, Seq<char>, Severity, Option<Seq<char>>)>>>>,
) -> Seq<Option<Seq<(Seq<char>, Seq<char>, Severity, Option<Seq<char>>)>>>
    decreases lens.len(),
{
    if lens.len() == 0 || outcomes.len() == 0 {
        Seq::empty()
    } else {
        batch_answers_spec(lens.drop_last(), outcomes.drop_last()) + match outcomes.last() {
            Some(a) => answered(a),
            None => no_answers(lens.last() as nat),
        }
    }
}

/// The answers of all batches, one per queried package in query order.
pub fn batch_answers(lens: &Vec<usize>, outcomes: &Vec<Option<Vec<Vec<Vulnerability>>>>) -> (r: Vec<
    Option<Vec<Vulnerability>>,
>)
    requires
        lens@.len() == outcomes@.len(),
    ensures
        r.deep_view() == batch_answers_spec(lens@, outcomes.deep_view()),
{
    let ghost ov = outcomes.deep_view();
    let mut out: Vec<Option<Vec<Vulnerability>>> = Vec::new();
    let mut b: usize = 0;
    assert(out.deep_view() =~= batch_answers_spec(lens@.take(0), ov.take(0)));
    while b < lens.len()
        invariant
            b <= lens@.len(),
            lens@.len() == outcomes@.len(),
            ov == outcomes.deep_view(),
            out.deep_view() == batch_answers_spec(lens@.take(b as int), ov.take(b as int)),
        decreases lens@.len() - b,
    {
        assert(lens@.take(b + 1).drop_last() =~= lens@.take(b as int));
        assert(ov.take(b + 1).drop_last() =~= ov.take(b as int));
        assert(ov.take(b + 1).last() == outcomes[b as int].deep_view());
        let ghost start = out.deep_view();
        match &outcomes[b] {
            Some(a) => {
                let mut k: usize = 0;
                while k < a.len()
                    invariant
                        k <= a@.len(),
                        out.deep_view() == start + answered(a.deep_view().take(k as int)),
                    decreases a@.len() - k,
                {
                    let v = Some(copy_vulns(&a[k]));
                    let ghost before = out.deep_view();
                    out.push(v);
                    assert(out.deep_view() =~= before.push(v.deep_view()));
                    assert(answered(a.deep_view().take(k + 1)) =~= answered(a.deep_view().take(k as int)).push(
                        Some(a[k as int].deep_view()),
                    ));
                    k = k + 1;
                }
                assert(a.deep_view().take(a@.len() as int) =~= a.deep_view());
            },
            None => {
                let n = lens[b];
                let mut k: usize = 0;
                assert(no_answers(0) =~= Seq::<Option<Seq<(Seq<char>, Seq<char>, Severity, Option<Seq<char>>)>>>::empty());
                assert(start + no_answers(0) =~= start);
                while k < n
                    invariant
                        k <= n,
                        out.deep_view() == start + no_answers(k as nat),
                    decreases n - k,
                {
                    let ghost before = out.deep_view();
                    let e: Option<Vec<Vulnerability>> = None;
                    out.push(e);
                    assert(out.deep_view() =~= before.push(e.deep_view()));
                    assert(no_answers((k + 1) as nat) =~= no_answers(k as nat).push(None));
                    k = k + 1;
                }
            },
        }
        b = b + 1;
    }
    assert(lens@.take(lens@.len() as int) =~= lens@);
    assert(ov.take(ov.len() as int) =~= ov);
    out
}

/// The cache entries to write after a scan: the `i`-th answer under the
/// `i`-th queried package, empty answers included (so that clean packages
/// are not queried again); a package without an answer (its batch failed)
/// gets no entry.
pub open spec fn cache_writes_spec(
    order: Seq<(Seq<char>, Seq<char>)>,
    results: Seq<Option<Seq<(Seq<char>, Seq<char>, Severity, Option<Seq<char>>)>>>,
) -> Seq<(Seq<char>, Seq<char>, Seq<(Seq<char>, Seq<char>, Severity, Option<Seq<char>>)>)>
    decreases results.len(),
{
    if results.len() == 0 {
        Seq::empty()
    } else {
        let rest = cache_writes_spec(order, results.drop_last());
        let i = results.len() - 1;
        match results.last() {
            Some(vs) => if i < order.len() {
                rest.push((order[i].0, order[i].1, vs))
            } else {
                rest
            },
            None => rest,
        }
    }
}

/// The cache entries to write after a scan.
pub fn cache_writes(order: &Vec<(String, String)>, results: &Vec<Option<Vec<Vulnerability>>>) -> (r: Vec<
    (String, String, Vec<Vulnerability>),
>)
    ensures
        r.deep_view() == cache_writes_spec(order.deep_view(), results.deep_view()),
{
    let ghost ov = order.deep_view();
    let ghost rv = results.deep_view();
    let mut out: Vec<(String, String, Vec<Vulnerability>)> = Vec::new();
    let mut i: usize = 0;
    assert(out.deep_view() =~= cache_writes_spec(ov, rv.take(0)));
    while i < results.len()
        invariant
            i <= rv.len(),
            ov == order.deep_view(),
            rv == results.deep_view(),
            out.deep_view() == cache_writes_spec(ov, rv.take(i as int)),
        decreases rv.len() - i,
    {
        assert(rv.take(i + 1).drop_last() =~= rv.take(i as int));
        assert(rv.take(i + 1).last() == rv[i as int]);
        if let Some(vs) = &results[i] {
            if i < order.len() {
                let e = (order[i].0.clone(), order[i].1.clone(), copy_vulns(vs));
                let ghost before = out.deep_view();
                out.push(e);
                assert(out.deep_view() =~= before.push(e.deep_view()));
            }
        }
        i = i + 1;
    }
    assert(rv.take(rv.len() as int) =~= rv);
    out
}

/// A package whose batch failed gets no cache entry and no report, and
/// every cache entry is an answer the service gave for that package.
pub proof fn law_failed_batches_are_neither_cached_nor_reported(
    order: Seq<(Seq<char>, Seq<char>)>,
    results: Seq<Option<Seq<(Seq<char>, Seq<char>, Severity, Option<Seq<char>>)>>>,
    i: int,
)
    requires
        0 <= i < results.len(),
        i < order.len(),
        results[i] is None,
        order.no_duplicates(),
    ensures
        forall|e: (Seq<char>, Seq<char>, Seq<(Seq<char>, Seq<char>, Severity, Option<Seq<char>>)>)| #[trigger] cache_writes_spec(order, results).contains(e)
            ==> (e.0, e.1) != order[i],
        forall|e: (Seq<char>, Seq<char>, Seq<(Seq<char>, Seq<char>, Severity, Option<Seq<char>>)>)| #[trigger] fresh_reports_spec(order, results).contains(e)
            ==> (e.0, e.1) != order[i],
{
    lemma_writes_from_answers(order, results);
    lemma_reports_from_answers(order, results);
    assert forall|e: (Seq<char>, Seq<char>, Seq<(Seq<char>, Seq<char>, Severity, Option<Seq<char>>)>)| #[trigger] cache_writes_spec(order, results).contains(e)
        implies (e.0, e.1) != order[i] by {
        let k = choose|k: int| 0 <= k < results.len() && k < order.len() && results[k] == Some(e.2) && order[k] == (e.0, e.1);
        if k != i {
            assert(order[k] != order[i]);
        }
    }
    assert forall|e: (Seq<char>, Seq<char>, Seq<(Seq<char>, Seq<char>, Severity, Option<Seq<char>>)>)| #[trigger] fresh_reports_spec(order, results).contains(e)
        implies (e.0, e.1) != order[i] by {
        let k = choose|k: int| 0 <= k < results.len() && k < order.len() && results[k] == Some(e.2) && order[k] == (e.0, e.1);
        if k != i {
            assert(order[k] != order[i]);
        }
    }
}

/// Every cache entry is the answer at some position, under that position's
/// package.
proof fn lemma_writes_from_answers(
    order: Seq<(Seq<char>, Seq<char>)>,
    results: Seq<Option<Seq<(Seq<char>, Seq<char>, Severity, Option<Seq<char>>)>>>,
)
    ensures
        forall|e: (Seq<char>, Seq<char>, Seq<(Seq<char>, Seq<char>, Severity, Option<Seq<char>>)>)| #[trigger] cache_writes_spec(order, results).contains(e)
            ==> exists|k: int| 0 <= k < results.len() && k < order.len() && results[k] == Some(e.2) && order[k] == (e.0, e.1),
    decreases results.len(),
{
    if results.len() > 0 {
        let d = results.drop_last();
        lemma_writes_from_answers(order, d);
        let rest = cache_writes_spec(order, d);
        let all = cache_writes_spec(order, results);
        assert forall|e: (Seq<char>, Seq<char>, Seq<(Seq<char>, Seq<char>, Severity, Option<Seq<char>>)>)| #[trigger] all.contains(e) implies exists|k: int|
            0 <= k < results.len() && k < order.len() && results[k] == Some(e.2) && order[k] == (e.0, e.1) by {
            let j = choose|j: int| 0 <= j < all.len() && all[j] == e;
            if j < rest.len() {
                assert(rest[j] == e);
                assert(rest.contains(e));
                let k = choose|k: int| 0 <= k < d.len() && k < order.len() && d[k] == Some(e.2) && order[k] == (e.0, e.1);
                assert(results[k] == d[k]);
            } else {
                let k = results.len() - 1;
                assert(results[k] == Some(e.2) && order[k] == (e.0, e.1));
            }
        }
    }
}

/// Every fresh report is the answer at some position, under that
/// position's package.
proof fn lemma_reports_from_answers(
    order: Seq<(Seq<char>, Seq<char>)>,
    results: Seq<Option<Seq<(Seq<char>, Seq<char>, Severity, Option<Seq<char>>)>>>,
)
    ensures
        forall|e: (Seq<char>, Seq<char>, Seq<(Seq<char>, Seq<char>, Severity, Option<Seq<char>>)>)| #[trigger] fresh_reports_spec(order, results).contains(e)
            ==> exists|k: int| 0 <= k < results.len() && k < order.len() && results[k] == Some(e.2) && order[k] == (e.0, e.1),
    decreases results.len(),
{
    if results.len() > 0 {
        let d = results.drop_last();
        lemma_reports_from_answers(order, d);
        let rest = fresh_reports_spec(order, d);
        let all = fresh_reports_spec(order, results);
        assert forall|e: (Seq<char>, Seq<char>, Seq<(Seq<char>, Seq<char>, Severity, Option<Seq<char>>)>)| #[trigger] all.contains(e) implies exists|k: int|
            0 <= k < results.len() && k < order.len() && results[k] == Some(e.2) && order[k] == (e.0, e.1) by {
            let j = choose|j: int| 0 <= j < all.len() && all[j] == e;
            if j < rest.len() {
                assert(rest[j] == e);
                assert(rest.contains(e));
                let k = choose|k: int| 0 <= k < d.len() && k < order.len() && d[k] == Some(e.2) && order[k] == (e.0, e.1);
                assert(results[k] == d[k]);
            } else {
                let k = results.len() - 1;
                assert(results[k] == Some(e.2) && order[k] == (e.0, e.1));
            }
        }
    }
}

} // verus!
