//! pnpm-lock.yaml parsing (lockfile version 9).
//!
//! Each importer (workspace project) lists its `dependencies` and
//! `devDependencies` with the resolved version; the integrity of a package
//! is found under its `name@version` key in `packages`, whose keys also give
//! every installed version. A field of the wrong type makes the file
//! unreadable, as it does for a typed reader; unknown fields are ignored.
use vstd::prelude::*;

use crate::error::LockpickError;
use crate::json::{member, parse_yml, yml_document, JsonValue};
use crate::lockfile::npm::{
    first_of_kind, graph_of_items, item_views, members, object_members, opt_text, text_of, NpmItem,
};
use crate::lockfile::yarn::{lemma_push_to_deep, lemma_version_lists_push, version_lists, EntryView};
use crate::strmap::StrMap;
use crate::text::{chars_of, last_index, push_str, rfind_char, string_of, sub_chars};
use crate::{DependencyGraph, LockfileType, PackageInfo};

verus! {

/// An importer's dependency entry fits: an object with a string
/// `specifier` and a string `version`.
pub open spec fn dep_entry_ok(v: JsonValue) -> bool {
    match v {
        JsonValue::Object(ms) => text_of(member(ms@, "specifier"@)) is Some && text_of(
            member(ms@, "version"@),
        ) is Some,
        _ => false,
    }
}

/// A map of dependency entries fits: absent, or an object of fitting entries.
pub open spec fn dep_map_ok(v: Option<JsonValue>) -> bool {
    match v {
        None => true,
        Some(JsonValue::Object(ms)) => forall|j: int|
            0 <= j < ms@.len() ==> dep_entry_ok(#[trigger] ms@[j].1),
        _ => false,
    }
}

/// An importer fits: an object whose `dependencies` and `devDependencies`
/// fit.
pub open spec fn importer_ok(v: JsonValue) -> bool {
    match v {
        JsonValue::Object(ms) => dep_map_ok(member(ms@, "dependencies"@)) && dep_map_ok(
            member(ms@, "devDependencies"@),
        ),
        _ => false,
    }
}

/// The `importers` field fits: absent, or an object of fitting importers.
pub open spec fn importers_ok(v: Option<JsonValue>) -> bool {
    match v {
        None => true,
        Some(JsonValue::Object(ms)) => forall|j: int|
            0 <= j < ms@.len() ==> importer_ok(#[trigger] ms@[j].1),
        _ => false,
    }
}

/// A `packages` entry fits: an object whose optional `resolution` is an
/// object with an optional string `integrity`.
pub open spec fn package_ok(v: JsonValue) -> bool {
    match v {
        JsonValue::Object(ms) => match member(ms@, "resolution"@) {
            None => true,
            Some(JsonValue::Object(rs)) => opt_text(member(rs@, "integrity"@)) is Some,
            _ => false,
        },
        _ => false,
    }
}

/// The `packages` field fits: absent, or an object of fitting entries.
pub open spec fn pnpm_packages_ok(v: Option<JsonValue>) -> bool {
    match v {
        None => true,
        Some(JsonValue::Object(ms)) => forall|j: int|
            0 <= j < ms@.len() ==> package_ok(#[trigger] ms@[j].1),
        _ => false,
    }
}

/// The document is a pnpm-lock.yaml: an object with a string
/// `lockfileVersion` and fitting `importers` and `packages`.
pub open spec fn pnpm_doc_ok(root: JsonValue) -> bool {
    match root {
        JsonValue::Object(ms) => {
            &&& text_of(member(ms@, "lockfileVersion"@)) is Some
            &&& importers_ok(member(ms@, "importers"@))
            &&& pnpm_packages_ok(member(ms@, "packages"@))
        },
        _ => false,
    }
}

/// The outcome of reading a pnpm-lock.yaml text: its document, or the
/// parse error's message.
pub open spec fn pnpm_document(content: Seq<char>) -> Result<JsonValue, Seq<char>> {
    match yml_document(content) {
        Ok(root) => if pnpm_doc_ok(root) {
            Ok(root)
        } else {
            Err("Failed to parse pnpm-lock.yaml: unexpected field type"@)
        },
        Err(m) => Err("Failed to parse pnpm-lock.yaml: "@ + m),
    }
}

/// The members of the document's `importers`.
pub open spec fn importers_of(root: JsonValue) -> Seq<(String, JsonValue)> {
    object_members(member(members(root), "importers"@))
}

/// The members of the document's `packages`.
pub open spec fn packages_of(root: JsonValue) -> Seq<(String, JsonValue)> {
    object_members(member(members(root), "packages"@))
}

/// The integrity recorded in a `packages` entry.
pub open spec fn integrity_of(p: Option<JsonValue>) -> Option<Seq<char>> {
    text_of(member(object_members(member(object_members(p), "resolution"@)), "integrity"@))
}

/// The package a dependency entry names: its name, its version, and the
/// integrity that `packages` records under `name@version`.
pub open spec fn dep_item(packages: Seq<(String, JsonValue)>, d: (String, JsonValue)) -> EntryView {
    let v = match text_of(member(members(d.1), "version"@)) {
        Some(v) => v,
        None => Seq::empty(),
    };
    (d.0@, v, integrity_of(member(packages, d.0@ + "@"@ + v)))
}

/// The items of a map of dependency entries, in order, all of one kind.
pub open spec fn dep_items(packages: Seq<(String, JsonValue)>, ds: Seq<(String, JsonValue)>, dev: bool) -> Seq<NpmItem>
    decreases ds.len(),
{
    if ds.len() == 0 {
        Seq::empty()
    } else {
        dep_items(packages, ds.drop_last(), dev).push((dep_item(packages, ds.last()), dev))
    }
}

/// The items of an importer: its dependencies, then its dev dependencies.
pub open spec fn importer_items(packages: Seq<(String, JsonValue)>, imp: JsonValue) -> Seq<NpmItem> {
    dep_items(packages, object_members(member(members(imp), "dependencies"@)), false) + dep_items(
        packages,
        object_members(member(members(imp), "devDependencies"@)),
        true,
    )
}

/// The items of all importers, in order.
pub open spec fn all_importer_items(packages: Seq<(String, JsonValue)>, imps: Seq<(String, JsonValue)>) -> Seq<
    NpmItem,
>
    decreases imps.len(),
{
    if imps.len() == 0 {
        Seq::empty()
    } else {
        all_importer_items(packages, imps.drop_last()) + importer_items(packages, imps.last().1)
    }
}

/// The name and version a `packages` key gives: the text around its last
/// `@`, when that is not the first character.
pub open spec fn key_entry(k: Seq<char>) -> Option<EntryView> {
    match last_index(k, '@') {
        Some(p) => if p > 0 {
            Some((k.take(p), k.skip(p + 1), None))
        } else {
            None
        },
        None => None,
    }
}

/// The names and versions the `packages` keys give, in order.
pub open spec fn key_entries(ms: Seq<(String, JsonValue)>) -> Seq<EntryView>
    decreases ms.len(),
{
    if ms.len() == 0 {
        Seq::empty()
    } else {
        let rest = key_entries(ms.drop_last());
        match key_entry(ms.last().0@) {
            Some(e) => rest.push(e),
            None => rest,
        }
    }
}

/// The graph built from importer items and the `packages` section.
pub open spec fn pnpm_graph(g: DependencyGraph, items: Seq<NpmItem>, packages: Seq<(String, JsonValue)>) -> bool {
    &&& g.lockfile_type == LockfileType::Pnpm
    &&& g.dependencies.deep_is(first_of_kind(items, false))
    &&& g.dev_dependencies.deep_is(first_of_kind(items, true))
    &&& g.all_packages.deep_is(version_lists(key_entries(packages)))
    &&& g.dep_edges.size() == 0
}

/// Whether a dependency entry fits.
fn check_dep_entry(v: &JsonValue) -> (b: bool)
    ensures
        b == dep_entry_ok(*v),
{
    match v {
        JsonValue::Object(ms) => {
            let s = match crate::json::get_field_of(ms, "specifier") {
                Some(JsonValue::Str(_)) => true,
                _ => false,
            };
            let v = match crate::json::get_field_of(ms, "version") {
                Some(JsonValue::Str(_)) => true,
                _ => false,
            };
            s && v
        },
        _ => false,
    }
}

/// Whether a map of dependency entries fits.
#[verifier::loop_isolation(false)]
fn check_dep_map(v: Option<&JsonValue>) -> (b: bool)
    ensures
        b == dep_map_ok(
            match v {
                Some(x) => Some(*x),
                None => None,
            },
        ),
{
    match v {
        None => true,
        Some(JsonValue::Object(ms)) => {
            let mut j: usize = 0;
            while j < ms.len()
                invariant
                    j <= ms@.len(),
                    forall|k: int| 0 <= k < j ==> dep_entry_ok(#[trigger] ms@[k].1),
                decreases ms@.len() - j,
            {
                if !check_dep_entry(&ms[j].1) {
                    assert(!dep_entry_ok(ms@[j as int].1));
                    return false;
                }
                j = j + 1;
            }
            true
        },
        Some(_) => false,
    }
}

/// Whether an importer fits.
fn check_importer(v: &JsonValue) -> (b: bool)
    ensures
        b == importer_ok(*v),
{
    match v {
        JsonValue::Object(ms) => check_dep_map(crate::json::get_field_of(ms, "dependencies"))
            && check_dep_map(crate::json::get_field_of(ms, "devDependencies")),
        _ => false,
    }
}

/// Whether the `importers` field fits.
#[verifier::loop_isolation(false)]
fn check_importers(v: Option<&JsonValue>) -> (b: bool)
    ensures
        b == importers_ok(
            match v {
                Some(x) => Some(*x),
                None => None,
            },
        ),
{
    match v {
        None => true,
        Some(JsonValue::Object(ms)) => {
            let mut j: usize = 0;
            while j < ms.len()
                invariant
                    j <= ms@.len(),
                    forall|k: int| 0 <= k < j ==> importer_ok(#[trigger] ms@[k].1),
                decreases ms@.len() - j,
            {
                if !check_importer(&ms[j].1) {
                    assert(!importer_ok(ms@[j as int].1));
                    return false;
                }
                j = j + 1;
            }
            true
        },
        Some(_) => false,
    }
}

/// Whether a `packages` entry fits.
fn check_package(v: &JsonValue) -> (b: bool)
    ensures
        b == package_ok(*v),
{
    match v {
        JsonValue::Object(ms) => match crate::json::get_field_of(ms, "resolution") {
            None => true,
            Some(JsonValue::Object(rs)) => match crate::json::get_field_of(rs, "integrity") {
                None => true,
                Some(JsonValue::Null) => true,
                Some(JsonValue::Str(_)) => true,
                Some(_) => false,
            },
            Some(_) => false,
        },
        _ => false,
    }
}

/// Whether the `packages` field fits.
#[verifier::loop_isolation(false)]
fn check_pnpm_packages(v: Option<&JsonValue>) -> (b: bool)
    ensures
        b == pnpm_packages_ok(
            match v {
                Some(x) => Some(*x),
                None => None,
            },
        ),
{
    match v {
        None => true,
        Some(JsonValue::Object(ms)) => {
            let mut j: usize = 0;
            while j < ms.len()
                invariant
                    j <= ms@.len(),
                    forall|k: int| 0 <= k < j ==> package_ok(#[trigger] ms@[k].1),
                decreases ms@.len() - j,
            {
                if !check_package(&ms[j].1) {
                    assert(!package_ok(ms@[j as int].1));
                    return false;
                }
                j = j + 1;
            }
            true
        },
        Some(_) => false,
    }
}

/// Reads and checks a pnpm-lock.yaml document.
fn read_document(content: &str) -> (r: Result<JsonValue, LockpickError>)
    ensures
        match pnpm_document(content@) {
            Ok(root) => r == Ok::<JsonValue, LockpickError>(root),
            Err(m) => r matches Err(LockpickError::Parse(e)) && e@ == m,
        },
{
    let root = match parse_yml(content) {
        Ok(v) => v,
        Err(e) => {
            let mut msg = String::new();
            push_str(&mut msg, "Failed to parse pnpm-lock.yaml: ");
            push_str(&mut msg, e.as_str());
            return Err(LockpickError::Parse(msg));
        },
    };
    let ok = match &root {
        JsonValue::Object(ms) => {
            let version_ok = match crate::json::get_field_of(ms, "lockfileVersion") {
                Some(JsonValue::Str(_)) => true,
                _ => false,
            };
            version_ok && check_importers(crate::json::get_field_of(ms, "importers"))
                && check_pnpm_packages(crate::json::get_field_of(ms, "packages"))
        },
        _ => false,
    };
    if !ok {
        let mut msg = String::new();
        push_str(&mut msg, "Failed to parse pnpm-lock.yaml: unexpected field type");
        return Err(LockpickError::Parse(msg));
    }
    Ok(root)
}

/// The package a dependency entry names, with the integrity `packages`
/// records for it.
fn read_dep_item(packages: &Vec<(String, JsonValue)>, d: &(String, JsonValue)) -> (r: PackageInfo)
    ensures
        r.deep_view() == dep_item(packages@, *d),
{
    let empty: Vec<(String, JsonValue)> = Vec::new();
    let ems: &Vec<(String, JsonValue)> = match &d.1 {
        JsonValue::Object(ms) => ms,
        _ => &empty,
    };
    assert(ems@ == members(d.1));
    let version = match crate::json::get_field_of(ems, "version") {
        Some(JsonValue::Str(s)) => s.clone(),
        _ => String::new(),
    };
    let mut key = d.0.clone();
    push_str(&mut key, "@");
    push_str(&mut key, version.as_str());
    let entry: &Vec<(String, JsonValue)> = match crate::json::get_field_of(packages, key.as_str()) {
        Some(JsonValue::Object(ms)) => ms,
        _ => &empty,
    };
    let resolution: &Vec<(String, JsonValue)> = match crate::json::get_field_of(entry, "resolution") {
        Some(JsonValue::Object(ms)) => ms,
        _ => &empty,
    };
    let integrity = match crate::json::get_field_of(resolution, "integrity") {
        Some(JsonValue::Str(s)) => Some(s.clone()),
        _ => None,
    };
    PackageInfo { name: d.0.clone(), version, integrity }
}

/// Appends the items of a map of dependency entries, all of one kind.
fn push_dep_items(
    packages: &Vec<(String, JsonValue)>,
    ds: &Vec<(String, JsonValue)>,
    dev: bool,
    out: &mut Vec<(PackageInfo, bool)>,
)
    ensures
        item_views(final(out)@) == item_views(old(out)@) + dep_items(packages@, ds@, dev),
{
    let ghost start = item_views(out@);
    let ghost dv = ds@;
    assert(dep_items(packages@, dv.take(0), dev) =~= Seq::<NpmItem>::empty());
    assert(start + Seq::<NpmItem>::empty() =~= start);
    let mut j: usize = 0;
    while j < ds.len()
        invariant
            j <= dv.len(),
            dv == ds@,
            item_views(out@) == start + dep_items(packages@, dv.take(j as int), dev),
        decreases dv.len() - j,
    {
        assert(dv.take(j + 1).drop_last() =~= dv.take(j as int));
        assert(dv.take(j + 1).last() == dv[j as int]);
        let info = read_dep_item(packages, &ds[j]);
        let ghost x = (info.deep_view(), dev);
        let ghost before = item_views(out@);
        out.push((info, dev));
        assert(item_views(out@) =~= before.push(x));
        assert(start + dep_items(packages@, dv.take(j + 1), dev) =~= (start + dep_items(
            packages@,
            dv.take(j as int),
            dev,
        )).push(x));
        j = j + 1;
    }
    assert(dv.take(dv.len() as int) =~= dv);
}

/// Appends the items of an importer: its dependencies, then its dev
/// dependencies.
fn push_importer_items(
    packages: &Vec<(String, JsonValue)>,
    imp: &JsonValue,
    out: &mut Vec<(PackageInfo, bool)>,
)
    ensures
        item_views(final(out)@) == item_views(old(out)@) + importer_items(packages@, *imp),
{
    let ghost start = item_views(out@);
    let empty: Vec<(String, JsonValue)> = Vec::new();
    let ims: &Vec<(String, JsonValue)> = match imp {
        JsonValue::Object(ms) => ms,
        _ => &empty,
    };
    assert(ims@ == members(*imp));
    let deps: &Vec<(String, JsonValue)> = match crate::json::get_field_of(ims, "dependencies") {
        Some(JsonValue::Object(ms)) => ms,
        _ => &empty,
    };
    let dev_deps: &Vec<(String, JsonValue)> = match crate::json::get_field_of(ims, "devDependencies") {
        Some(JsonValue::Object(ms)) => ms,
        _ => &empty,
    };
    push_dep_items(packages, deps, false, out);
    push_dep_items(packages, dev_deps, true, out);
    assert(item_views(out@) =~= start + importer_items(packages@, *imp));
}

/// The version lists the `packages` keys give.
fn key_versions(packages: &Vec<(String, JsonValue)>) -> (r: StrMap<Vec<String>>)
    ensures
        r.deep_is(version_lists(key_entries(packages@))),
{
    let ghost ps = packages@;
    let mut all: StrMap<Vec<String>> = StrMap::new();
    proof {
        assert forall|q: Seq<char>| #[trigger] all.has(q) implies false by {}
        assert(key_entries(ps.take(0)) =~= Seq::<EntryView>::empty());
    }
    let mut j: usize = 0;
    while j < packages.len()
        invariant
            j <= ps.len(),
            ps == packages@,
            all.deep_is(version_lists(key_entries(ps.take(j as int)))),
        decreases ps.len() - j,
    {
        assert(ps.take(j + 1).drop_last() =~= ps.take(j as int));
        assert(ps.take(j + 1).last() == ps[j as int]);
        let cs = chars_of(packages[j].0.as_str());
        assert(cs@ == ps[j as int].0@);
        let n = cs.len();
        proof {
            crate::text::lemma_last_index_found(cs@, '@');
        }
        match rfind_char(cs.as_slice(), '@') {
            Some(p) => {
                if p > 0 {
                    let name = string_of(sub_chars(cs.as_slice(), 0, p).as_slice());
                    let version = string_of(sub_chars(cs.as_slice(), p + 1, n).as_slice());
                    let ghost e: EntryView = (name@, version@, None);
                    assert(name@ =~= cs@.take(p as int));
                    assert(version@ =~= cs@.skip(p + 1));
                    assert(key_entry(ps[j as int].0@) == Some(e));
                    let ghost before = all;
                    let ghost gver = version;
                    let ghost done = key_entries(ps.take(j as int));
                    all.well_formed();
                    all.push_to(name, version);
                    all.well_formed();
                    proof {
                        assert(key_entries(ps.take(j + 1)) == done.push(e));
                        lemma_version_lists_push(done, e);
                        lemma_push_to_deep(before, all, e.0, gver, version_lists(done));
                    }
                } else {
                    assert(key_entry(ps[j as int].0@) is None);
                    assert(key_entries(ps.take(j + 1)) == key_entries(ps.take(j as int)));
                }
            },
            None => {
                assert(key_entry(ps[j as int].0@) is None);
                assert(key_entries(ps.take(j + 1)) == key_entries(ps.take(j as int)));
            },
        }
        j = j + 1;
    }
    assert(ps.take(ps.len() as int) =~= ps);
    all
}

/// The graph of importer items and the `packages` section.
fn pnpm_graph_of(items: &Vec<(PackageInfo, bool)>, packages: &Vec<(String, JsonValue)>) -> (g: DependencyGraph)
    ensures
        pnpm_graph(g, item_views(items@), packages@),
{
    let mut g = graph_of_items(items);
    g.lockfile_type = LockfileType::Pnpm;
    g.all_packages = key_versions(packages);
    g
}

/// Parses pnpm-lock.yaml content into a dependency graph, merging the
/// dependencies of all importers (the first entry of each name wins).
pub fn parse(content: &str) -> (r: Result<DependencyGraph, LockpickError>)
    ensures
        match pnpm_document(content@) {
            Ok(root) => if importers_of(root).len() == 0 {
                r matches Err(LockpickError::Parse(e)) && e@ == "No importers found in pnpm-lock.yaml"@
            } else {
                r matches Ok(g) && pnpm_graph(
                    g,
                    all_importer_items(packages_of(root), importers_of(root)),
                    packages_of(root),
                )
            },
            Err(m) => r matches Err(LockpickError::Parse(e)) && e@ == m,
        },
{
    let root = match read_document(content) {
        Ok(root) => root,
        Err(e) => {
            return Err(e);
        },
    };
    let empty: Vec<(String, JsonValue)> = Vec::new();
    let top: &Vec<(String, JsonValue)> = match &root {
        JsonValue::Object(ms) => ms,
        _ => &empty,
    };
    assert(top@ == members(root));
    let importers: &Vec<(String, JsonValue)> = match crate::json::get_field_of(top, "importers") {
        Some(JsonValue::Object(ms)) => ms,
        _ => &empty,
    };
    let packages: &Vec<(String, JsonValue)> = match crate::json::get_field_of(top, "packages") {
        Some(JsonValue::Object(ms)) => ms,
        _ => &empty,
    };
    if importers.len() == 0 {
        let mut msg = String::new();
        push_str(&mut msg, "No importers found in pnpm-lock.yaml");
        return Err(LockpickError::Parse(msg));
    }
    let ghost is = importers@;
    let mut items: Vec<(PackageInfo, bool)> = Vec::new();
    assert(item_views(items@) =~= all_importer_items(packages@, is.take(0)));
    let mut j: usize = 0;
    while j < importers.len()
        invariant
            j <= is.len(),
            is == importers@,
            item_views(items@) == all_importer_items(packages@, is.take(j as int)),
        decreases is.len() - j,
    {
        assert(is.take(j + 1).drop_last() =~= is.take(j as int));
        assert(is.take(j + 1).last() == is[j as int]);
        push_importer_items(packages, &importers[j].1, &mut items);
        j = j + 1;
    }
    assert(is.take(is.len() as int) =~= is);
    Ok(pnpm_graph_of(&items, packages))
}

/// Parses pnpm-lock.yaml content for one workspace importer.
pub fn parse_for_workspace(content: &str, importer_key: &str) -> (r: Result<DependencyGraph, LockpickError>)
    ensures
        match pnpm_document(content@) {
            Ok(root) => match member(importers_of(root), importer_key@) {
                None => r matches Err(LockpickError::Parse(e)) && e@ == "Importer '"@ + importer_key@
                    + "' not found in pnpm-lock.yaml"@,
                Some(imp) => r matches Ok(g) && pnpm_graph(
                    g,
                    importer_items(packages_of(root), imp),
                    packages_of(root),
                ),
            },
            Err(m) => r matches Err(LockpickError::Parse(e)) && e@ == m,
        },
{
    let root = match read_document(content) {
        Ok(root) => root,
        Err(e) => {
            return Err(e);
        },
    };
    let empty: Vec<(String, JsonValue)> = Vec::new();
    let top: &Vec<(String, JsonValue)> = match &root {
        JsonValue::Object(ms) => ms,
        _ => &empty,
    };
    assert(top@ == members(root));
    let importers: &Vec<(String, JsonValue)> = match crate::json::get_field_of(top, "importers") {
        Some(JsonValue::Object(ms)) => ms,
        _ => &empty,
    };
    let packages: &Vec<(String, JsonValue)> = match crate::json::get_field_of(top, "packages") {
        Some(JsonValue::Object(ms)) => ms,
        _ => &empty,
    };
    let importer = match crate::json::get_field_of(importers, importer_key) {
        Some(imp) => imp,
        None => {
            let mut msg = String::new();
            push_str(&mut msg, "Importer '");
            push_str(&mut msg, importer_key);
            push_str(&mut msg, "' not found in pnpm-lock.yaml");
            return Err(LockpickError::Parse(msg));
        },
    };
    let mut items: Vec<(PackageInfo, bool)> = Vec::new();
    push_importer_items(packages, importer, &mut items);
    assert(item_views(items@) =~= importer_items(packages@, *importer));
    Ok(pnpm_graph_of(&items, packages))
}

} // verus!
