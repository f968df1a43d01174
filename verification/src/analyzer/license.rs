//! License extraction and policy checks.
use vstd::prelude::*;

use crate::config::types::LicensePolicy;
use crate::json::{as_str, field, get_field, parse_json, json_document, str_of, JsonValue};
use crate::sorting::{insert_named, key_fn, sort_by_key};
use crate::strmap::StrMap;
use crate::text::{chars_of, str_eq, string_of, trim, trim_chars};
use crate::{DepType, DependencyGraph, LicenseEntry, LicenseReport, LicenseViolation, PackageInfo, ViolationReason};

verus! {

/// Canonical SPDX form of a license name: trimmed, with the aliases
/// `Apache 2.0` / `Apache-2` (to `Apache-2.0`) and `BSD` (to `BSD-2-Clause`)
/// resolved.
pub open spec fn normalized_license(raw: Seq<char>) -> Seq<char> {
    let t = trim(raw);
    if t == "Apache 2.0"@ || t == "Apache-2"@ {
        "Apache-2.0"@
    } else if t == "BSD"@ {
        "BSD-2-Clause"@
    } else {
        t
    }
}

/// Normalizes common license name aliases to their canonical SPDX form.
pub fn normalize_license(raw: &str) -> (r: String)
    ensures
        r@ == normalized_license(raw@),
{
    let chars = chars_of(raw);
    let trimmed = string_of(trim_chars(chars.as_slice()).as_slice());
    if str_eq(trimmed.as_str(), "Apache 2.0") || str_eq(trimmed.as_str(), "Apache-2") {
        "Apache-2.0".to_string()
    } else if str_eq(trimmed.as_str(), "BSD") {
        "BSD-2-Clause".to_string()
    } else {
        trimmed
    }
}

/// The license a `package.json` document declares: a `license` string, a
/// `license` object's `type`, or the `type` of the first entry of a legacy
/// `licenses` array, normalized; `UNKNOWN` otherwise.
pub open spec fn license_of_document(doc: JsonValue) -> Seq<char> {
    let lic = field(doc, "license"@);
    let from_string = match lic {
        Some(l) => str_of(l),
        None => None,
    };
    let from_object = match lic {
        Some(JsonValue::Object(m)) => match field(JsonValue::Object(m), "type"@) {
            Some(t) => str_of(t),
            None => None,
        },
        _ => None,
    };
    let from_array = match field(doc, "licenses"@) {
        Some(JsonValue::Array(items)) => if items@.len() > 0 {
            match field(items@[0], "type"@) {
                Some(t) => str_of(t),
                None => None,
            }
        } else {
            None
        },
        _ => None,
    };
    match from_string {
        Some(s) => normalized_license(s),
        None => match from_object {
            Some(s) => normalized_license(s),
            None => match from_array {
                Some(s) => normalized_license(s),
                None => "UNKNOWN"@,
            },
        },
    }
}

/// Reads the license field from a `package.json` value, handling the string,
/// object and legacy array formats.
pub fn extract_license_from_json(pkg_json: &JsonValue) -> (r: String)
    ensures
        r@ == license_of_document(*pkg_json),
{
    let lic = get_field(pkg_json, "license");
    if let Some(l) = lic {
        if let Some(s) = as_str(l) {
            return normalize_license(s);
        }
        if let JsonValue::Object(_) = l {
            if let Some(t) = get_field(l, "type") {
                if let Some(s) = as_str(t) {
                    return normalize_license(s);
                }
            }
        }
    }
    if let Some(arr) = get_field(pkg_json, "licenses") {
        if let JsonValue::Array(items) = arr {
            if items.len() > 0 {
                if let Some(t) = get_field(&items[0], "type") {
                    if let Some(s) = as_str(t) {
                        return normalize_license(s);
                    }
                }
            }
        }
    }
    "UNKNOWN".to_string()
}

/// The license recorded in the text of a `package.json` file: `UNKNOWN`
/// when the text is not JSON.
pub open spec fn license_of_text(text: Seq<char>) -> Seq<char> {
    match json_document(text) {
        Ok(doc) => license_of_document(doc),
        Err(_) => "UNKNOWN"@,
    }
}

/// The license in the text of a `package.json` file.
pub fn license_from_package_json(content: &str) -> (r: String)
    ensures
        r@ == license_of_text(content@),
{
    match parse_json(content) {
        Ok(doc) => extract_license_from_json(&doc),
        Err(_) => "UNKNOWN".to_string(),
    }
}

/// The license of package `name`, given the `package.json` texts that could
/// be read (keyed by package name): `UNKNOWN` when there is none.
pub open spec fn license_for(manifests: &StrMap<String>, name: Seq<char>) -> Seq<char> {
    match manifests.lookup(name) {
        Some(text) => license_of_text(text@),
        None => "UNKNOWN"@,
    }
}

/// License entries for declared packages, in declaration order.
pub open spec fn license_rows(
    names: Seq<Seq<char>>,
    infos: Seq<PackageInfo>,
    manifests: &StrMap<String>,
    t: DepType,
) -> Seq<(Seq<char>, Seq<char>, Seq<char>, DepType)>
    decreases names.len(),
{
    if names.len() == 0 || infos.len() == 0 {
        Seq::empty()
    } else {
        license_rows(names.drop_last(), infos.drop_last(), manifests, t).push(
            (names.last(), infos.last().version@, license_for(manifests, names.last()), t),
        )
    }
}

/// The license entries of a graph, sorted by name.
pub open spec fn license_entries_spec(
    graph: &DependencyGraph,
    manifests: &StrMap<String>,
    skip_dev: bool,
) -> Seq<(Seq<char>, Seq<char>, Seq<char>, DepType)> {
    let prod = license_rows(graph.dependencies.keys(), graph.dependencies.vals(), manifests, DepType::Prod);
    let rows = if skip_dev {
        prod
    } else {
        prod + license_rows(
            graph.dev_dependencies.keys(),
            graph.dev_dependencies.vals(),
            manifests,
            DepType::Dev,
        )
    };
    sort_by_key(rows, key_fn::<LicenseEntry>())
}

/// Adds the license entries of one map into the sorted output.
fn collect_licenses(
    out: &mut Vec<LicenseEntry>,
    deps: &StrMap<PackageInfo>,
    manifests: &StrMap<String>,
    t: DepType,
    Ghost(rows): Ghost<Seq<(Seq<char>, Seq<char>, Seq<char>, DepType)>>,
)
    requires
        old(out).deep_view() == sort_by_key(rows, key_fn::<LicenseEntry>()),
    ensures
        final(out).deep_view() == sort_by_key(
            rows + license_rows(deps.keys(), deps.vals(), manifests, t),
            key_fn::<LicenseEntry>(),
        ),
{
    let ghost key = key_fn::<LicenseEntry>();
    deps.well_formed();
    let n = deps.len();
    let mut i: usize = 0;
    assert(rows + license_rows(deps.keys().take(0), deps.vals().take(0), manifests, t) =~= rows);
    while i < n
        invariant
            i <= n,
            n == deps.keys().len(),
            n == deps.vals().len(),
            key == key_fn::<LicenseEntry>(),
            out.deep_view() == sort_by_key(
                rows + license_rows(deps.keys().take(i as int), deps.vals().take(i as int), manifests, t),
                key,
            ),
        decreases n - i,
    {
        let name = deps.key_at(i);
        let info = deps.value_at(i);
        let ghost before = rows + license_rows(
            deps.keys().take(i as int),
            deps.vals().take(i as int),
            manifests,
            t,
        );
        let license = match manifests.get(name.as_str()) {
            Some(text) => license_from_package_json(text.as_str()),
            None => "UNKNOWN".to_string(),
        };
        let e = LicenseEntry { name: name.clone(), version: info.version.clone(), license, dep_type: t };
        insert_named(out, e);
        proof {
            assert(deps.keys().take(i + 1).drop_last() =~= deps.keys().take(i as int));
            assert(deps.vals().take(i + 1).drop_last() =~= deps.vals().take(i as int));
            assert(before.push(e.deep_view()).drop_last() =~= before);
            assert(before.push(e.deep_view()) =~= rows + license_rows(
                deps.keys().take(i + 1),
                deps.vals().take(i + 1),
                manifests,
                t,
            ));
        }
        i = i + 1;
    }
    assert(deps.keys().take(n as int) =~= deps.keys());
    assert(deps.vals().take(n as int) =~= deps.vals());
}

/// Extracts license information for all dependencies in the graph, from
/// the `package.json` texts read from `node_modules` (keyed by package
/// name). Dev dependencies are excluded when `skip_dev` is set.
pub fn extract_licenses(graph: &DependencyGraph, manifests: &StrMap<String>, skip_dev: bool) -> (report:
    LicenseReport)
    ensures
        report.entries.deep_view() == license_entries_spec(graph, manifests, skip_dev),
        report.violations@.len() == 0,
{
    let mut out: Vec<LicenseEntry> = Vec::new();
    let ghost e = Seq::<(Seq<char>, Seq<char>, Seq<char>, DepType)>::empty();
    assert(out.deep_view() =~= sort_by_key(e, key_fn::<LicenseEntry>()));
    collect_licenses(&mut out, &graph.dependencies, manifests, DepType::Prod, Ghost(e));
    let ghost prod = license_rows(
        graph.dependencies.keys(),
        graph.dependencies.vals(),
        manifests,
        DepType::Prod,
    );
    assert(e + prod =~= prod);
    if !skip_dev {
        collect_licenses(&mut out, &graph.dev_dependencies, manifests, DepType::Dev, Ghost(prod));
    }
    LicenseReport { entries: out, violations: Vec::new() }
}

/// The violations one license entry produces under a policy:
/// - with an allowlist, a license outside it (`Unknown` for `UNKNOWN`,
///   `NotAllowed` otherwise);
/// - else with a denylist, `UNKNOWN` (`Unknown`, whether or not the
///   denylist names it), or a denied license (`Denied`);
/// - with no lists, `UNKNOWN` (`Unknown`).
pub open spec fn violations_for(
    e: (Seq<char>, Seq<char>, Seq<char>, DepType),
    allow: Seq<Seq<char>>,
    deny: Seq<Seq<char>>,
) -> Seq<(Seq<char>, Seq<char>, Seq<char>, ViolationReason)> {
    let (name, version, license, _t) = e;
    let unknown = license == "UNKNOWN"@;
    if allow.len() > 0 {
        if !allow.contains(license) {
            seq![
                (name, version, license, if unknown {
                    ViolationReason::Unknown
                } else {
                    ViolationReason::NotAllowed
                }),
            ]
        } else {
            Seq::empty()
        }
    } else if deny.len() > 0 {
        if unknown {
            seq![(name, version, license, ViolationReason::Unknown)]
        } else if deny.contains(license) {
            seq![(name, version, license, ViolationReason::Denied)]
        } else {
            Seq::empty()
        }
    } else if unknown {
        seq![(name, version, license, ViolationReason::Unknown)]
    } else {
        Seq::empty()
    }
}

/// The violations of all entries, in entry order.
pub open spec fn policy_violations(
    entries: Seq<(Seq<char>, Seq<char>, Seq<char>, DepType)>,
    allow: Seq<Seq<char>>,
    deny: Seq<Seq<char>>,
) -> Seq<(Seq<char>, Seq<char>, Seq<char>, ViolationReason)>
    decreases entries.len(),
{
    if entries.len() == 0 {
        Seq::empty()
    } else {
        policy_violations(entries.drop_last(), allow, deny) + violations_for(
            entries.last(),
            allow,
            deny,
        )
    }
}

/// Whether a list of strings holds `s`.
fn list_contains(list: &Vec<String>, s: &str) -> (b: bool)
    ensures
        b == list.deep_view().contains(s@),
{
    crate::scanner::unused::is_used(list.as_slice(), s)
}

/// A violation record for an entry.
fn violation(e: &LicenseEntry, reason: ViolationReason) -> (v: LicenseViolation)
    ensures
        v.deep_view() == (e.name@, e.version@, e.license@, reason),
{
    LicenseViolation {
        package: e.name.clone(),
        version: e.version.clone(),
        license: e.license.clone(),
        reason,
    }
}

/// Checks license entries against a policy and returns the violations.
pub fn check_policy(report: &LicenseReport, policy: &LicensePolicy) -> (r: Vec<LicenseViolation>)
    ensures
        r.deep_view() == policy_violations(
            report.entries.deep_view(),
            policy.allow.deep_view(),
            policy.deny.deep_view(),
        ),
{
    let ghost es = report.entries.deep_view();
    let ghost allow = policy.allow.deep_view();
    let ghost deny = policy.deny.deep_view();
    let mut out: Vec<LicenseViolation> = Vec::new();
    let mut i: usize = 0;
    assert(out.deep_view() =~= policy_violations(es.take(0), allow, deny));
    while i < report.entries.len()
        invariant
            i <= report.entries@.len(),
            es == report.entries.deep_view(),
            allow == policy.allow.deep_view(),
            deny == policy.deny.deep_view(),
            out.deep_view() == policy_violations(es.take(i as int), allow, deny),
        decreases report.entries@.len() - i,
    {
        let e = &report.entries[i];
        let ghost before = out.deep_view();
        let ghost ev = e.deep_view();
        assert(es.take(i + 1).drop_last() =~= es.take(i as int));
        assert(es.take(i + 1).last() == ev);
        let unknown = str_eq(e.license.as_str(), "UNKNOWN");
        if policy.allow.len() > 0 {
            if !list_contains(&policy.allow, e.license.as_str()) {
                let reason = if unknown {
                    ViolationReason::Unknown
                } else {
                    ViolationReason::NotAllowed
                };
                out.push(violation(e, reason));
            }
        } else if policy.deny.len() > 0 {
            if unknown {
                out.push(violation(e, ViolationReason::Unknown));
            } else if list_contains(&policy.deny, e.license.as_str()) {
                out.push(violation(e, ViolationReason::Denied));
            }
        } else if unknown {
            out.push(violation(e, ViolationReason::Unknown));
        }
        assert(out.deep_view() =~= before + violations_for(ev, allow, deny));
        i = i + 1;
    }
    assert(es.take(i as int) =~= es);
    out
}


/// The violation of an entry, for a reason.
pub open spec fn violation_as(reason: spec_fn(Seq<char>) -> ViolationReason) -> spec_fn((Seq<char>, Seq<char>, Seq<char>, DepType)) -> (Seq<char>, Seq<char>, Seq<char>, ViolationReason) {
    |e: (Seq<char>, Seq<char>, Seq<char>, DepType)| (e.0, e.1, e.2, reason(e.2))
}

/// The reason an allowlist gives: `Unknown` for `UNKNOWN`, `NotAllowed`
/// otherwise.
pub open spec fn allow_reason() -> spec_fn(Seq<char>) -> ViolationReason {
    |l: Seq<char>| if l == "UNKNOWN"@ {
        ViolationReason::Unknown
    } else {
        ViolationReason::NotAllowed
    }
}

/// The reason a denylist gives: `Unknown` for `UNKNOWN`, `Denied`
/// otherwise.
pub open spec fn deny_reason() -> spec_fn(Seq<char>) -> ViolationReason {
    |l: Seq<char>| if l == "UNKNOWN"@ {
        ViolationReason::Unknown
    } else {
        ViolationReason::Denied
    }
}

/// With an allowlist, the violations are the entries whose license is not
/// on it, in entry order, `Unknown` for `UNKNOWN` and `NotAllowed`
/// otherwise, whatever the denylist holds.
pub proof fn law_allowlist_violations(entries: Seq<(Seq<char>, Seq<char>, Seq<char>, DepType)>, allow: Seq<Seq<char>>, deny: Seq<Seq<char>>)
    requires
        allow.len() > 0,
    ensures
        policy_violations(entries, allow, deny) == entries.filter(|e: (Seq<char>, Seq<char>, Seq<char>, DepType)| !allow.contains(e.2)).map_values(
            violation_as(allow_reason()),
        ),
    decreases entries.len(),
{
    reveal_with_fuel(Seq::filter, 1);
    if entries.len() > 0 {
        let d = entries.drop_last();
        law_allowlist_violations(d, allow, deny);
        let f = d.filter(|e: (Seq<char>, Seq<char>, Seq<char>, DepType)| !allow.contains(e.2));
        let e = entries.last();
        if !allow.contains(e.2) {
            assert(f.push(e).map_values(violation_as(allow_reason())) =~= f.map_values(violation_as(allow_reason())).push(
                violation_as(allow_reason())(e),
            ));
        }
    } else {
        assert(entries.filter(|e: (Seq<char>, Seq<char>, Seq<char>, DepType)| !allow.contains(e.2)).map_values(violation_as(allow_reason())) =~= Seq::<(Seq<char>, Seq<char>, Seq<char>, ViolationReason)>::empty());
    }
}

/// With a denylist and no allowlist, the violations are the entries whose
/// license is denied or `UNKNOWN`, in entry order, `Unknown` for `UNKNOWN`
/// and `Denied` otherwise.
pub proof fn law_denylist_violations(entries: Seq<(Seq<char>, Seq<char>, Seq<char>, DepType)>, deny: Seq<Seq<char>>)
    requires
        deny.len() > 0,
    ensures
        policy_violations(entries, Seq::empty(), deny) == entries.filter(
            |e: (Seq<char>, Seq<char>, Seq<char>, DepType)| deny.contains(e.2) || e.2 == "UNKNOWN"@,
        ).map_values(violation_as(deny_reason())),
    decreases entries.len(),
{
    reveal_with_fuel(Seq::filter, 1);
    if entries.len() > 0 {
        let d = entries.drop_last();
        law_denylist_violations(d, deny);
        let f = d.filter(|e: (Seq<char>, Seq<char>, Seq<char>, DepType)| deny.contains(e.2) || e.2 == "UNKNOWN"@);
        let e = entries.last();
        if deny.contains(e.2) || e.2 == "UNKNOWN"@ {
            assert(f.push(e).map_values(violation_as(deny_reason())) =~= f.map_values(violation_as(deny_reason())).push(
                violation_as(deny_reason())(e),
            ));
        }
    } else {
        assert(entries.filter(|e: (Seq<char>, Seq<char>, Seq<char>, DepType)| deny.contains(e.2) || e.2 == "UNKNOWN"@).map_values(violation_as(deny_reason()))
            =~= Seq::<(Seq<char>, Seq<char>, Seq<char>, ViolationReason)>::empty());
    }
}

} // verus!
