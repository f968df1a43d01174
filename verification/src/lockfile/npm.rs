//! package-lock.json parsing.
//!
//! Lockfile versions 2 and 3 list every installed package under `packages`
//! by its `node_modules` path; version 1 nests them under `dependencies`.
//! A field of the wrong type makes the file unreadable, as it does for a
//! typed reader; unknown fields are ignored.
use vstd::prelude::*;

use crate::error::LockpickError;
use crate::json::{as_str, json_document, member, member_index, parse_json, JsonValue};
use crate::lockfile::yarn::{edge_map, lemma_push_to_deep, lemma_version_lists_push, version_lists, EntryView};
use crate::strmap::StrMap;
use crate::text::{chars_of, parse_u64, parse_u64_spec, push_str, string_of, sub_chars};
use crate::{DepEdge, DependencyGraph, LockfileType, PackageInfo};

verus! {

/// A package as listed: its entry and whether it is a dev dependency.
pub type NpmItem = (EntryView, bool);

/// An optional string field: absent or null gives none, a string gives its
/// text; anything else does not fit (outer none).
pub open spec fn opt_text(v: Option<JsonValue>) -> Option<Option<Seq<char>>> {
    match v {
        None => Some(None),
        Some(JsonValue::Null) => Some(None),
        Some(JsonValue::Str(s)) => Some(Some(s@)),
        _ => None,
    }
}

/// A flag field: absent gives false; anything but a boolean does not fit.
pub open spec fn opt_flag(v: Option<JsonValue>) -> Option<bool> {
    match v {
        None => Some(false),
        Some(JsonValue::Bool(b)) => Some(b),
        _ => None,
    }
}

/// A map of strings: absent, or an object whose values are all strings.
pub open spec fn str_map_ok(v: Option<JsonValue>) -> bool {
    match v {
        None => true,
        Some(JsonValue::Object(ms)) => forall|j: int|
            0 <= j < ms@.len() ==> (#[trigger] ms@[j]).1 is Str,
        _ => false,
    }
}

/// The plain fields of a package entry fit.
pub open spec fn entry_fields_ok(ms: Seq<(String, JsonValue)>) -> bool {
    &&& opt_text(member(ms, "version"@)) is Some
    &&& opt_text(member(ms, "resolved"@)) is Some
    &&& opt_text(member(ms, "integrity"@)) is Some
    &&& opt_flag(member(ms, "dev"@)) is Some
}

/// A `packages` entry fits: an object with optional string fields, a
/// `dev` flag and a map of dependency ranges.
pub open spec fn entry_ok(v: JsonValue) -> bool {
    match v {
        JsonValue::Object(ms) => entry_fields_ok(ms@) && str_map_ok(member(ms@, "dependencies"@)),
        _ => false,
    }
}

/// A version 1 dependency fits: like a package entry, with nested
/// dependencies of the same kind.
pub open spec fn legacy_ok(v: JsonValue) -> bool
    decreases v, 1nat,
{
    match v {
        JsonValue::Object(ms) => entry_fields_ok(ms@) && match member_index(ms@, "dependencies"@) {
            None => true,
            Some(i) => if 0 <= i < ms@.len() {
                legacy_map_ok(ms@[i].1)
            } else {
                false
            },
        },
        _ => false,
    }
}

/// A map of version 1 dependencies fits.
pub open spec fn legacy_map_ok(v: JsonValue) -> bool
    decreases v, 0nat,
{
    match v {
        JsonValue::Object(ms) => forall|j: int| 0 <= j < ms@.len() ==> legacy_ok(#[trigger] ms@[j].1),
        _ => false,
    }
}

/// The lockfile version field: absent or null gives none; an integer that
/// fits in 32 bits gives it; anything else does not fit.
pub open spec fn version_field(v: Option<JsonValue>) -> Option<Option<u32>> {
    match v {
        None => Some(None),
        Some(JsonValue::Null) => Some(None),
        Some(JsonValue::Number(t)) => match parse_u64_spec(t@) {
            Some(n) => if n <= u32::MAX {
                Some(Some(n as u32))
            } else {
                None
            },
            None => None,
        },
        _ => None,
    }
}

/// The `packages` field fits: absent, or an object of fitting entries.
pub open spec fn packages_ok(v: Option<JsonValue>) -> bool {
    match v {
        None => true,
        Some(JsonValue::Object(ms)) => forall|j: int| 0 <= j < ms@.len() ==> entry_ok(#[trigger] ms@[j].1),
        _ => false,
    }
}

/// The version 1 `dependencies` field fits: absent, or an object of
/// fitting dependencies.
pub open spec fn legacy_deps_ok(v: Option<JsonValue>) -> bool {
    match v {
        None => true,
        Some(x) => legacy_map_ok(x),
    }
}

/// The document is a package-lock.json: an object with a fitting version,
/// `packages` and `dependencies`.
pub open spec fn npm_doc_ok(root: JsonValue) -> bool {
    match root {
        JsonValue::Object(ms) => {
            &&& version_field(member(ms@, "lockfileVersion"@)) is Some
            &&& packages_ok(member(ms@, "packages"@))
            &&& legacy_deps_ok(member(ms@, "dependencies"@))
        },
        _ => false,
    }
}

/// The members of an object field, none when absent or not an object.
pub open spec fn object_members(v: Option<JsonValue>) -> Seq<(String, JsonValue)> {
    match v {
        Some(JsonValue::Object(ms)) => ms@,
        _ => Seq::empty(),
    }
}

/// The members of an object value.
pub open spec fn members(v: JsonValue) -> Seq<(String, JsonValue)> {
    match v {
        JsonValue::Object(ms) => ms@,
        _ => Seq::empty(),
    }
}

/// The text of an optional string field.
pub open spec fn text_of(v: Option<JsonValue>) -> Option<Seq<char>> {
    match v {
        Some(JsonValue::Str(s)) => Some(s@),
        _ => None,
    }
}

/// Whether a `dev` field is set.
pub open spec fn flag_of(v: Option<JsonValue>) -> bool {
    match v {
        Some(JsonValue::Bool(b)) => b,
        _ => false,
    }
}

/// The last position at which `p` occurs in `s` at or before `i`.
pub open spec fn last_occurrence_upto(s: Seq<char>, p: Seq<char>, i: int) -> Option<int>
    decreases i + 1,
{
    if i < 0 {
        None
    } else if crate::text::occurs_at(s, p, i) {
        Some(i)
    } else {
        last_occurrence_upto(s, p, i - 1)
    }
}

/// A last occurrence found is an occurrence.
pub proof fn lemma_last_occurrence(s: Seq<char>, p: Seq<char>, i: int)
    ensures
        match last_occurrence_upto(s, p, i) {
            Some(k) => 0 <= k <= i && crate::text::occurs_at(s, p, k),
            None => true,
        },
    decreases i + 1,
{
    if i >= 0 && !crate::text::occurs_at(s, p, i) {
        lemma_last_occurrence(s, p, i - 1);
    }
}

/// The package name of a `packages` key: what follows its last
/// `node_modules/`, or the key itself.
pub open spec fn path_name(key: Seq<char>) -> Seq<char> {
    match last_occurrence_upto(key, "node_modules/"@, key.len() - 13) {
        Some(p) => key.skip(p + 13),
        None => key,
    }
}

/// The item of a `packages` member, if it names a package with a version.
pub open spec fn v3_item(m: (String, JsonValue)) -> Option<NpmItem> {
    let ems = members(m.1);
    if m.0@.len() == 0 {
        None
    } else {
        match text_of(member(ems, "version"@)) {
            Some(v) => Some(
                (
                    (path_name(m.0@), v, text_of(member(ems, "integrity"@))),
                    flag_of(member(ems, "dev"@)),
                ),
            ),
            None => None,
        }
    }
}

/// The items of `packages`, in order.
pub open spec fn v3_items(ms: Seq<(String, JsonValue)>) -> Seq<NpmItem>
    decreases ms.len(),
{
    if ms.len() == 0 {
        Seq::empty()
    } else {
        let rest = v3_items(ms.drop_last());
        match v3_item(ms.last()) {
            Some(x) => rest.push(x),
            None => rest,
        }
    }
}

/// The items of version 1 `dependencies`, depth first: each dependency
/// with a version, then its nested dependencies.
pub open spec fn v1_items(ms: Seq<(String, JsonValue)>) -> Seq<NpmItem>
    decreases ms,
{
    if ms.len() == 0 {
        Seq::empty()
    } else {
        let name = ms[0].0@;
        let e = ms[0].1;
        (match e {
            JsonValue::Object(ems) => match text_of(member(ems@, "version"@)) {
                Some(v) => seq![
                    ((name, v, text_of(member(ems@, "integrity"@))), flag_of(member(ems@, "dev"@)))
                ] + match member_index(ems@, "dependencies"@) {
                    Some(i) => if 0 <= i < ems@.len() {
                        match ems@[i].1 {
                            JsonValue::Object(dms) => v1_items(dms@),
                            _ => Seq::empty(),
                        }
                    } else {
                        Seq::empty()
                    },
                    None => Seq::empty(),
                },
                None => Seq::empty(),
            },
            _ => Seq::empty(),
        }) + v1_items(ms.drop_first())
    }
}

/// The lockfile version, 1 when absent.
pub open spec fn npm_version(root: JsonValue) -> u32 {
    match version_field(member(members(root), "lockfileVersion"@)) {
        Some(Some(v)) => v,
        _ => 1,
    }
}

/// The packages a package-lock.json lists, in order.
pub open spec fn npm_items(root: JsonValue) -> Seq<NpmItem> {
    let packages = object_members(member(members(root), "packages"@));
    let v = npm_version(root);
    if v >= 3 || (v == 2 && packages.len() > 0) {
        v3_items(packages)
    } else {
        v1_items(object_members(member(members(root), "dependencies"@)))
    }
}

/// The first entry of each name among the items of one kind (dev or not).
pub open spec fn first_of_kind(items: Seq<NpmItem>, dev: bool) -> Map<Seq<char>, EntryView>
    decreases items.len(),
{
    if items.len() == 0 {
        Map::empty()
    } else {
        let m = first_of_kind(items.drop_last(), dev);
        let x = items.last();
        if x.1 == dev && !m.dom().contains(x.0.0) {
            m.insert(x.0.0, x.0)
        } else {
            m
        }
    }
}

/// The entries of the items.
pub open spec fn entries_of(items: Seq<NpmItem>) -> Seq<EntryView> {
    items.map_values(|x: NpmItem| x.0)
}

/// The graph built from the items of a package-lock.json, without edges.
pub open spec fn npm_graph(g: DependencyGraph, items: Seq<NpmItem>) -> bool {
    &&& g.lockfile_type == LockfileType::Npm
    &&& g.dependencies.deep_is(first_of_kind(items, false))
    &&& g.dev_dependencies.deep_is(first_of_kind(items, true))
    &&& g.all_packages.deep_is(version_lists(entries_of(items)))
}

/// The outcome of reading a package-lock.json text: its document, or the
/// parse error's message.
pub open spec fn npm_document(content: Seq<char>) -> Result<JsonValue, Seq<char>> {
    match json_document(content) {
        Ok(root) => if npm_doc_ok(root) {
            Ok(root)
        } else {
            Err("Failed to parse package-lock.json: unexpected field type"@)
        },
        Err(m) => Err("Failed to parse package-lock.json: "@ + m),
    }
}

/// An optional string field's text, and whether it fits.
fn read_opt_text(ms: &Vec<(String, JsonValue)>, key: &str) -> (r: Option<Option<String>>)
    ensures
        match opt_text(member(ms@, key@)) {
            Some(t) => r matches Some(x) && x.deep_view() == t,
            None => r is None,
        },
{
    match crate::json::get_field_of(ms, key) {
        None => Some(None),
        Some(v) => match v {
            JsonValue::Null => Some(None),
            JsonValue::Str(s) => Some(Some(s.clone())),
            _ => None,
        },
    }
}

/// A flag field's value, and whether it fits.
fn read_flag(ms: &Vec<(String, JsonValue)>, key: &str) -> (r: Option<bool>)
    ensures
        r == opt_flag(member(ms@, key@)),
{
    match crate::json::get_field_of(ms, key) {
        None => Some(false),
        Some(v) => match v {
            JsonValue::Bool(b) => Some(*b),
            _ => None,
        },
    }
}

/// Whether a map of strings fits.
#[verifier::loop_isolation(false)]
fn check_str_map(v: Option<&JsonValue>) -> (b: bool)
    ensures
        b == str_map_ok(
            match v {
                Some(x) => Some(*x),
                None => None,
            },
        ),
{
    match v {
        None => true,
        Some(JsonValue::Object(ms)) => {
            let mut j: usize = 0;
            while j < ms.len()
                invariant
                    j <= ms@.len(),
                    forall|k: int| 0 <= k < j ==> (#[trigger] ms@[k]).1 is Str,
                decreases ms@.len() - j,
            {
                match &ms[j].1 {
                    JsonValue::Str(_) => {},
                    _ => {
                        assert(!(ms@[j as int].1 is Str));
                        return false;
                    },
                }
                j = j + 1;
            }
            true
        },
        Some(_) => false,
    }
}

/// Whether the plain fields of an entry fit.
fn check_entry_fields(ms: &Vec<(String, JsonValue)>) -> (b: bool)
    ensures
        b == entry_fields_ok(ms@),
{
    read_opt_text(ms, "version").is_some() && read_opt_text(ms, "resolved").is_some()
        && read_opt_text(ms, "integrity").is_some() && read_flag(ms, "dev").is_some()
}

/// Whether a `packages` entry fits.
fn check_entry(v: &JsonValue) -> (b: bool)
    ensures
        b == entry_ok(*v),
{
    match v {
        JsonValue::Object(ms) => check_entry_fields(ms) && check_str_map(
            crate::json::get_field_of(ms, "dependencies"),
        ),
        _ => false,
    }
}

/// Whether a version 1 dependency fits.
fn check_legacy(v: &JsonValue) -> (b: bool)
    ensures
        b == legacy_ok(*v),
    decreases *v, 1nat,
{
    match v {
        JsonValue::Object(ms) => {
            if !check_entry_fields(ms) {
                return false;
            }
            match crate::json::index_of_field(ms, "dependencies") {
                None => true,
                Some(i) => {
                    proof {
                        assert(decreases_to!(*v => *ms));
                        assert(decreases_to!(*ms => ms@));
                        assert(decreases_to!(ms@ => ms@[i as int]));
                        assert(decreases_to!(ms@[i as int] => ms@[i as int].1));
                    }
                    check_legacy_map(&ms[i].1)
                },
            }
        },
        _ => false,
    }
}

/// Whether a map of version 1 dependencies fits.
#[verifier::loop_isolation(false)]
fn check_legacy_map(v: &JsonValue) -> (b: bool)
    ensures
        b == legacy_map_ok(*v),
    decreases *v, 0nat,
{
    match v {
        JsonValue::Object(ms) => {
            let mut j: usize = 0;
            while j < ms.len()
                invariant
                    j <= ms@.len(),
                    forall|k: int| 0 <= k < j ==> legacy_ok(#[trigger] ms@[k].1),
                decreases ms@.len() - j,
            {
                proof {
                    assert(decreases_to!(*v => *ms));
                    assert(decreases_to!(*ms => ms@));
                    assert(decreases_to!(ms@ => ms@[j as int]));
                    assert(decreases_to!(ms@[j as int] => ms@[j as int].1));
                }
                if !check_legacy(&ms[j].1) {
                    assert(!legacy_ok(ms@[j as int].1));
                    return false;
                }
                j = j + 1;
            }
            true
        },
        _ => false,
    }
}

/// Whether the `packages` field fits.
#[verifier::loop_isolation(false)]
fn check_packages(v: Option<&JsonValue>) -> (b: bool)
    ensures
        b == packages_ok(
            match v {
                Some(x) => Some(*x),
                None => None,
            },
        ),
{
    match v {
        None => true,
        Some(JsonValue::Object(ms)) => {
            let mut j: usize = 0;
            while j < ms.len()
                invariant
                    j <= ms@.len(),
                    forall|k: int| 0 <= k < j ==> entry_ok(#[trigger] ms@[k].1),
                decreases ms@.len() - j,
            {
                if !check_entry(&ms[j].1) {
                    assert(!entry_ok(ms@[j as int].1));
                    return false;
                }
                j = j + 1;
            }
            true
        },
        Some(_) => false,
    }
}

/// Whether the version 1 `dependencies` field fits.
fn check_legacy_deps(v: Option<&JsonValue>) -> (b: bool)
    ensures
        b == legacy_deps_ok(
            match v {
                Some(x) => Some(*x),
                None => None,
            },
        ),
{
    match v {
        None => true,
        Some(x) => check_legacy_map(x),
    }
}

/// The lockfile version field, and whether it fits.
fn read_version(v: Option<&JsonValue>) -> (r: Option<Option<u32>>)
    ensures
        r == version_field(
            match v {
                Some(x) => Some(*x),
                None => None,
            },
        ),
{
    match v {
        None => Some(None),
        Some(JsonValue::Null) => Some(None),
        Some(JsonValue::Number(t)) => {
            let cs = chars_of(t.as_str());
            match parse_u64(cs.as_slice()) {
                Some(n) => if n <= 4294967295u64 {
                    Some(Some(n as u32))
                } else {
                    None
                },
                None => None,
            }
        },
        Some(_) => None,
    }
}

/// The last position of `node_modules/` in a key.
fn rfind_node_modules(key: &[char]) -> (r: Option<usize>)
    ensures
        match last_occurrence_upto(key@, "node_modules/"@, key@.len() - 13) {
            Some(p) => r == Some(p as usize),
            None => r is None,
        },
{
    let pat = chars_of("node_modules/");
    proof {
        reveal_strlit("node_modules/");
    }
    assert(pat@.len() == 13);
    if key.len() < 13 {
        assert(last_occurrence_upto(key@, "node_modules/"@, key@.len() - 13) is None);
        return None;
    }
    let mut i: usize = key.len() - 13 + 1;
    while i > 0
        invariant
            i <= key@.len() - 13 + 1,
            pat@ == "node_modules/"@,
            last_occurrence_upto(key@, "node_modules/"@, key@.len() - 13) == last_occurrence_upto(
                key@,
                "node_modules/"@,
                i - 1,
            ),
        decreases i,
    {
        if crate::text::chars_occurs_at(key, pat.as_slice(), i - 1) {
            return Some(i - 1);
        }
        i = i - 1;
    }
    None
}

/// The package name of a `packages` key.
fn package_path_name(key: &str) -> (r: String)
    ensures
        r@ == path_name(key@),
{
    let cs = chars_of(key);
    proof {
        lemma_last_occurrence(key@, "node_modules/"@, key@.len() - 13);
        reveal_strlit("node_modules/");
    }
    match rfind_node_modules(cs.as_slice()) {
        Some(p) => {
            let n = cs.len();
            assert(p + 13 <= n);
            let rest = sub_chars(cs.as_slice(), p + 13, n);
            assert(rest@ =~= key@.skip(p + 13));
            string_of(rest.as_slice())
        },
        None => string_of(cs.as_slice()),
    }
}

/// The item of a `packages` member.
fn read_v3_item(m: &(String, JsonValue)) -> (r: Option<(PackageInfo, bool)>)
    ensures
        match v3_item(*m) {
            Some(x) => r matches Some(y) && y.0.deep_view() == x.0 && y.1 == x.1,
            None => r is None,
        },
{
    let key_chars = chars_of(m.0.as_str());
    if key_chars.len() == 0 {
        return None;
    }
    let empty: Vec<(String, JsonValue)> = Vec::new();
    let ems: &Vec<(String, JsonValue)> = match &m.1 {
        JsonValue::Object(ms) => ms,
        _ => &empty,
    };
    assert(ems@ == members(m.1));
    let version = match crate::json::get_field_of(ems, "version") {
        Some(JsonValue::Str(s)) => s.clone(),
        _ => {
            return None;
        },
    };
    let integrity = match crate::json::get_field_of(ems, "integrity") {
        Some(JsonValue::Str(s)) => Some(s.clone()),
        _ => None,
    };
    let dev = match crate::json::get_field_of(ems, "dev") {
        Some(JsonValue::Bool(b)) => *b,
        _ => false,
    };
    let name = package_path_name(m.0.as_str());
    Some((PackageInfo { name, version, integrity }, dev))
}

/// Appends the items of version 1 `dependencies`, depth first.
fn collect_v1(ms: &Vec<(String, JsonValue)>, out: &mut Vec<(PackageInfo, bool)>)
    ensures
        item_views(final(out)@) == item_views(old(out)@) + v1_items(ms@),
    decreases ms@,
{
    let ghost start = item_views(out@);
    let mut j: usize = 0;
    assert(ms@.skip(0) =~= ms@);
    assert(start + Seq::<NpmItem>::empty() =~= start);
    while j < ms.len()
        invariant
            j <= ms@.len(),
            item_views(out@) + v1_items(ms@.skip(j as int)) == start + v1_items(ms@),
        decreases ms@.len() - j,
    {
        let ghost rest = ms@.skip(j as int);
        assert(rest[0] == ms@[j as int]);
        assert(rest.drop_first() =~= ms@.skip(j + 1));
        let ghost before = item_views(out@);
        match &ms[j].1 {
            JsonValue::Object(ems) => {
                match crate::json::get_field_of(ems, "version") {
                    Some(JsonValue::Str(v)) => {
                        let integrity = match crate::json::get_field_of(ems, "integrity") {
                            Some(JsonValue::Str(s)) => Some(s.clone()),
                            _ => None,
                        };
                        let dev = match crate::json::get_field_of(ems, "dev") {
                            Some(JsonValue::Bool(b)) => *b,
                            _ => false,
                        };
                        let info = PackageInfo {
                            name: ms[j].0.clone(),
                            version: v.clone(),
                            integrity,
                        };
                        out.push((info, dev));
                        assert(item_views(out@) =~= before.push((info.deep_view(), dev)));
                        let ghost mid = item_views(out@);
                        match crate::json::index_of_field(ems, "dependencies") {
                            Some(i) => {
                                match &ems[i].1 {
                                    JsonValue::Object(dms) => {
                                        collect_v1(dms, out);
                                    },
                                    _ => {
                                        assert(item_views(out@) =~= mid + Seq::<NpmItem>::empty());
                                    },
                                }
                            },
                            None => {
                                assert(item_views(out@) =~= mid + Seq::<NpmItem>::empty());
                            },
                        }
                    },
                    _ => {
                        assert(item_views(out@) =~= before + Seq::<NpmItem>::empty());
                    },
                }
            },
            _ => {
                assert(item_views(out@) =~= before + Seq::<NpmItem>::empty());
            },
        }
        j = j + 1;
    }
    assert(ms@.skip(ms@.len() as int) =~= Seq::<(String, JsonValue)>::empty());
}

/// The views of package items.
pub open spec fn item_views(xs: Seq<(PackageInfo, bool)>) -> Seq<NpmItem> {
    xs.map_values(|x: (PackageInfo, bool)| (x.0.deep_view(), x.1))
}

/// A copy of package information.
fn copy_info(p: &PackageInfo) -> (r: PackageInfo)
    ensures
        r.deep_view() == p.deep_view(),
{
    PackageInfo {
        name: p.name.clone(),
        version: p.version.clone(),
        integrity: match &p.integrity {
            Some(x) => Some(x.clone()),
            None => None,
        },
    }
}

/// Builds the graph of a list of items: the first package of each name of
/// each kind, and every version.
pub(crate) fn graph_of_items(xs: &Vec<(PackageInfo, bool)>) -> (g: DependencyGraph)
    ensures
        npm_graph(g, item_views(xs@)),
        g.dep_edges.size() == 0,
{
    let ghost items = item_views(xs@);
    let mut dependencies: StrMap<PackageInfo> = StrMap::new();
    let mut dev_dependencies: StrMap<PackageInfo> = StrMap::new();
    let mut all_packages: StrMap<Vec<String>> = StrMap::new();
    proof {
        assert forall|q: Seq<char>| #[trigger] dependencies.has(q) implies false by {}
        assert forall|q: Seq<char>| #[trigger] dev_dependencies.has(q) implies false by {}
        assert forall|q: Seq<char>| #[trigger] all_packages.has(q) implies false by {}
        assert(entries_of(items.take(0)) =~= Seq::<EntryView>::empty());
    }
    let n = xs.len();
    let mut i: usize = 0;
    while i < n
        invariant
            i <= n,
            n == xs@.len(),
            items == item_views(xs@),
            dependencies.deep_is(first_of_kind(items.take(i as int), false)),
            dev_dependencies.deep_is(first_of_kind(items.take(i as int), true)),
            all_packages.deep_is(version_lists(entries_of(items.take(i as int)))),
        decreases n - i,
    {
        let info = copy_info(&xs[i].0);
        let dev = xs[i].1;
        let ghost e = info.deep_view();
        let ghost ginfo = info;
        assert(items[i as int] == (e, dev));
        assert(items.take(i + 1).drop_last() =~= items.take(i as int));
        assert(entries_of(items.take(i + 1)) =~= entries_of(items.take(i as int)).push(e));
        let ghost before_all = all_packages;
        let ver = info.version.clone();
        let ghost gver = ver;
        all_packages.well_formed();
        all_packages.push_to(info.name.clone(), ver);
        all_packages.well_formed();
        proof {
            lemma_version_lists_push(entries_of(items.take(i as int)), e);
            lemma_push_to_deep(
                before_all,
                all_packages,
                e.0,
                gver,
                version_lists(entries_of(items.take(i as int))),
            );
        }
        let ghost before_prod = dependencies;
        let ghost before_dev = dev_dependencies;
        dependencies.well_formed();
        dev_dependencies.well_formed();
        if dev {
            let name = info.name.clone();
            dev_dependencies.insert_if_absent(name, info);
        } else {
            let name = info.name.clone();
            dependencies.insert_if_absent(name, info);
        }
        dependencies.well_formed();
        dev_dependencies.well_formed();
        proof {
            let pre = items.take(i as int);
            if dev {
                assert(dependencies.keys() == before_prod.keys());
                assert(dependencies.vals() == before_prod.vals());
                StrMap::<PackageInfo>::lemma_deep_is_same(before_prod, dependencies, first_of_kind(pre, false));
                if before_dev.has(e.0) {
                    StrMap::<PackageInfo>::lemma_deep_is_same(before_dev, dev_dependencies, first_of_kind(pre, true));
                } else {
                    StrMap::<PackageInfo>::lemma_deep_is_push(
                        before_dev,
                        dev_dependencies,
                        e.0,
                        ginfo,
                        first_of_kind(pre, true),
                    );
                }
            } else {
                assert(dev_dependencies.keys() == before_dev.keys());
                assert(dev_dependencies.vals() == before_dev.vals());
                StrMap::<PackageInfo>::lemma_deep_is_same(before_dev, dev_dependencies, first_of_kind(pre, true));
                if before_prod.has(e.0) {
                    StrMap::<PackageInfo>::lemma_deep_is_same(before_prod, dependencies, first_of_kind(pre, false));
                } else {
                    StrMap::<PackageInfo>::lemma_deep_is_push(
                        before_prod,
                        dependencies,
                        e.0,
                        ginfo,
                        first_of_kind(pre, false),
                    );
                }
            }
        }
        i = i + 1;
    }
    assert(items.take(n as int) =~= items);
    DependencyGraph {
        dependencies,
        dev_dependencies,
        lockfile_type: LockfileType::Npm,
        all_packages,
        dep_edges: StrMap::new(),
    }
}

/// The items of a checked package-lock.json document.
fn items_of(root: &JsonValue) -> (r: Vec<(PackageInfo, bool)>)
    ensures
        item_views(r@) == npm_items(*root),
{
    let empty: Vec<(String, JsonValue)> = Vec::new();
    let top: &Vec<(String, JsonValue)> = match root {
        JsonValue::Object(ms) => ms,
        _ => &empty,
    };
    assert(top@ == members(*root));
    let version: u32 = match read_version(crate::json::get_field_of(top, "lockfileVersion")) {
        Some(Some(v)) => v,
        _ => 1,
    };
    let packages: &Vec<(String, JsonValue)> = match crate::json::get_field_of(top, "packages") {
        Some(JsonValue::Object(ms)) => ms,
        _ => &empty,
    };
    let mut out: Vec<(PackageInfo, bool)> = Vec::new();
    if version >= 3 || (version == 2 && packages.len() > 0) {
        let ghost ps = packages@;
        let mut j: usize = 0;
        assert(item_views(out@) =~= v3_items(ps.take(0)));
        while j < packages.len()
            invariant
                j <= ps.len(),
                ps == packages@,
                item_views(out@) == v3_items(ps.take(j as int)),
            decreases ps.len() - j,
        {
            assert(ps.take(j + 1).drop_last() =~= ps.take(j as int));
            assert(ps.take(j + 1).last() == ps[j as int]);
            let ghost before = item_views(out@);
            match read_v3_item(&packages[j]) {
                Some(x) => {
                    let ghost xv = (x.0.deep_view(), x.1);
                    out.push(x);
                    assert(item_views(out@) =~= before.push(xv));
                },
                None => {},
            }
            j = j + 1;
        }
        assert(ps.take(ps.len() as int) =~= ps);
    } else {
        let deps: &Vec<(String, JsonValue)> = match crate::json::get_field_of(top, "dependencies") {
            Some(JsonValue::Object(ms)) => ms,
            _ => &empty,
        };
        assert(item_views(out@) =~= Seq::<NpmItem>::empty());
        collect_v1(deps, &mut out);
        assert(item_views(out@) =~= v1_items(deps@));
    }
    out
}

/// Parses package-lock.json content into a dependency graph.
pub fn parse(content: &str) -> (r: Result<DependencyGraph, LockpickError>)
    ensures
        match npm_document(content@) {
            Ok(root) => r matches Ok(g) && npm_graph(g, npm_items(root)) && g.dep_edges.size() == 0,
            Err(m) => r matches Err(LockpickError::Parse(e)) && e@ == m,
        },
{
    let root = match read_document(content) {
        Ok(root) => root,
        Err(e) => {
            return Err(e);
        },
    };
    let items = items_of(&root);
    Ok(graph_of_items(&items))
}

/// Reads and checks a package-lock.json document.
fn read_document(content: &str) -> (r: Result<JsonValue, LockpickError>)
    ensures
        match npm_document(content@) {
            Ok(root) => r == Ok::<JsonValue, LockpickError>(root),
            Err(m) => r matches Err(LockpickError::Parse(e)) && e@ == m,
        },
{
    let root = match parse_json(content) {
        Ok(v) => v,
        Err(e) => {
            let mut msg = String::new();
            push_str(&mut msg, "Failed to parse package-lock.json: ");
            push_str(&mut msg, e.as_str());
            return Err(LockpickError::Parse(msg));
        },
    };
    let ok = match &root {
        JsonValue::Object(ms) => read_version(crate::json::get_field_of(ms, "lockfileVersion")).is_some()
            && check_packages(crate::json::get_field_of(ms, "packages")) && check_legacy_deps(
            crate::json::get_field_of(ms, "dependencies"),
        ),
        _ => false,
    };
    if !ok {
        let mut msg = String::new();
        push_str(&mut msg, "Failed to parse package-lock.json: unexpected field type");
        return Err(LockpickError::Parse(msg));
    }
    Ok(root)
}

/// The edge list of a `packages` member: its key `name@version` and its
/// dependencies, when it has a version and dependencies.
pub open spec fn v3_edge_item(m: (String, JsonValue)) -> Option<(Seq<char>, Seq<(Seq<char>, Seq<char>)>)> {
    let ems = members(m.1);
    let deps = object_members(member(ems, "dependencies"@));
    if m.0@.len() == 0 || deps.len() == 0 {
        None
    } else {
        match text_of(member(ems, "version"@)) {
            Some(v) => Some(
                (
                    path_name(m.0@) + "@"@ + v,
                    deps.map_values(
                        |d: (String, JsonValue)|
                            (
                                d.0@,
                                match d.1 {
                                    JsonValue::Str(s) => s@,
                                    _ => Seq::empty(),
                                },
                            ),
                    ),
                ),
            ),
            None => None,
        }
    }
}

/// The edge lists of `packages`, in order.
pub open spec fn v3_edge_items(ms: Seq<(String, JsonValue)>) -> Seq<
    (Seq<char>, Seq<(Seq<char>, Seq<char>)>),
>
    decreases ms.len(),
{
    if ms.len() == 0 {
        Seq::empty()
    } else {
        let rest = v3_edge_items(ms.drop_last());
        match v3_edge_item(ms.last()) {
            Some(x) => rest.push(x),
            None => rest,
        }
    }
}

/// The edges a package-lock.json records (versions 2 and later).
pub open spec fn npm_edges(root: JsonValue) -> Seq<(Seq<char>, Seq<(Seq<char>, Seq<char>)>)> {
    if npm_version(root) >= 2 {
        v3_edge_items(object_members(member(members(root), "packages"@)))
    } else {
        Seq::empty()
    }
}

/// The edge list of a `packages` member.
fn read_v3_edges(m: &(String, JsonValue)) -> (r: Option<(String, Vec<DepEdge>)>)
    ensures
        match v3_edge_item(*m) {
            Some(x) => r matches Some(y) && y.0@ == x.0 && y.1.deep_view() == x.1,
            None => r is None,
        },
{
    let empty: Vec<(String, JsonValue)> = Vec::new();
    let ems: &Vec<(String, JsonValue)> = match &m.1 {
        JsonValue::Object(ms) => ms,
        _ => &empty,
    };
    assert(ems@ == members(m.1));
    let deps: &Vec<(String, JsonValue)> = match crate::json::get_field_of(ems, "dependencies") {
        Some(JsonValue::Object(ds)) => ds,
        _ => &empty,
    };
    let key_chars = chars_of(m.0.as_str());
    if key_chars.len() == 0 || deps.len() == 0 {
        return None;
    }
    let version = match crate::json::get_field_of(ems, "version") {
        Some(JsonValue::Str(s)) => s,
        _ => {
            return None;
        },
    };
    let ghost dv = deps@;
    let mut edges: Vec<DepEdge> = Vec::new();
    let mut k: usize = 0;
    while k < deps.len()
        invariant
            k <= dv.len(),
            dv == deps@,
            edges.deep_view() == dv.take(k as int).map_values(
                |d: (String, JsonValue)|
                    (
                        d.0@,
                        match d.1 {
                            JsonValue::Str(s) => s@,
                            _ => Seq::empty(),
                        },
                    ),
            ),
        decreases dv.len() - k,
    {
        let v = match &deps[k].1 {
            JsonValue::Str(s) => s.clone(),
            _ => String::new(),
        };
        let edge = DepEdge { name: deps[k].0.clone(), version: v };
        let ghost before = edges.deep_view();
        edges.push(edge);
        assert(edges.deep_view() =~= before.push(edge.deep_view()));
        assert(dv.take(k + 1).map_values(
            |d: (String, JsonValue)|
                (
                    d.0@,
                    match d.1 {
                        JsonValue::Str(s) => s@,
                        _ => Seq::empty(),
                    },
                ),
        ) =~= dv.take(k as int).map_values(
            |d: (String, JsonValue)|
                (
                    d.0@,
                    match d.1 {
                        JsonValue::Str(s) => s@,
                        _ => Seq::empty(),
                    },
                ),
        ).push(edge.deep_view()));
        k = k + 1;
    }
    assert(dv.take(dv.len() as int) =~= dv);
    let mut key = package_path_name(m.0.as_str());
    push_str(&mut key, "@");
    push_str(&mut key, version.as_str());
    Some((key, edges))
}

/// Parses package-lock.json content with the dependency edges of each
/// package (lockfile versions 2 and later).
pub fn parse_with_edges(content: &str) -> (r: Result<DependencyGraph, LockpickError>)
    ensures
        match npm_document(content@) {
            Ok(root) => r matches Ok(g) && npm_graph(g, npm_items(root)) && g.dep_edges.deep_is(
                edge_map(npm_edges(root)),
            ),
            Err(m) => r matches Err(LockpickError::Parse(e)) && e@ == m,
        },
{
    let root = match read_document(content) {
        Ok(root) => root,
        Err(e) => {
            return Err(e);
        },
    };
    let items = items_of(&root);
    let mut graph = graph_of_items(&items);
    proof {
        assert forall|q: Seq<char>| #[trigger] graph.dep_edges.has(q) implies false by {}
    }
    let empty: Vec<(String, JsonValue)> = Vec::new();
    let top: &Vec<(String, JsonValue)> = match &root {
        JsonValue::Object(ms) => ms,
        _ => &empty,
    };
    let version: u32 = match read_version(crate::json::get_field_of(top, "lockfileVersion")) {
        Some(Some(v)) => v,
        _ => 1,
    };
    if version < 2 {
        assert(edge_map(Seq::empty()) =~= Map::<Seq<char>, Seq<(Seq<char>, Seq<char>)>>::empty());
        return Ok(graph);
    }
    let packages: &Vec<(String, JsonValue)> = match crate::json::get_field_of(top, "packages") {
        Some(JsonValue::Object(ms)) => ms,
        _ => &empty,
    };
    let ghost ps = packages@;
    let ghost items_v = npm_items(root);
    assert(v3_edge_items(ps.take(0)) =~= Seq::<(Seq<char>, Seq<(Seq<char>, Seq<char>)>)>::empty());
    let mut j: usize = 0;
    while j < packages.len()
        invariant
            j <= ps.len(),
            ps == packages@,
            items_v == npm_items(root),
            npm_graph(graph, items_v),
            graph.dep_edges.deep_is(edge_map(v3_edge_items(ps.take(j as int)))),
        decreases ps.len() - j,
    {
        let ghost done = v3_edge_items(ps.take(j as int));
        assert(ps.take(j + 1).drop_last() =~= ps.take(j as int));
        assert(ps.take(j + 1).last() == ps[j as int]);
        match read_v3_edges(&packages[j]) {
            Some((key, edges)) => {
                let ghost item = (key@, edges.deep_view());
                let ghost gedges = edges;
                let ghost before = graph.dep_edges;
                graph.dep_edges.well_formed();
                let had = graph.dep_edges.contains_key(key.as_str());
                graph.dep_edges.insert(key, edges);
                graph.dep_edges.well_formed();
                proof {
                    let nd = done.push(item);
                    assert(nd.drop_last() =~= done);
                    if had {
                        StrMap::<Vec<DepEdge>>::lemma_deep_is_update(
                            before,
                            graph.dep_edges,
                            item.0,
                            gedges,
                            edge_map(done),
                        );
                    } else {
                        StrMap::<Vec<DepEdge>>::lemma_deep_is_push(
                            before,
                            graph.dep_edges,
                            item.0,
                            gedges,
                            edge_map(done),
                        );
                    }
                }
            },
            None => {},
        }
        j = j + 1;
    }
    assert(ps.take(ps.len() as int) =~= ps);
    Ok(graph)
}

/// Every package a package-lock.json graph lists as a dependency (or as a
/// dev dependency) is also among all its packages, with its version.
pub proof fn law_listed_packages_are_among_all_packages(items: Seq<NpmItem>, dev: bool)
    ensures
        forall|k: Seq<char>| #[trigger]
            first_of_kind(items, dev).dom().contains(k) ==> version_lists(entries_of(items)).dom().contains(k)
                && version_lists(entries_of(items))[k].contains(first_of_kind(items, dev)[k].1),
    decreases items.len(),
{
    if items.len() > 0 {
        let pre = items.drop_last();
        let x = items.last();
        law_listed_packages_are_among_all_packages(pre, dev);
        assert(entries_of(items) =~= entries_of(pre).push(x.0));
        lemma_version_lists_push(entries_of(pre), x.0);
        let old_lists = version_lists(entries_of(pre));
        let lists = version_lists(entries_of(items));
        let m = first_of_kind(pre, dev);
        assert forall|k: Seq<char>| #[trigger] first_of_kind(items, dev).dom().contains(k) implies lists.dom().contains(
            k,
        ) && lists[k].contains(first_of_kind(items, dev)[k].1) by {
            if m.dom().contains(k) && first_of_kind(items, dev)[k] == m[k] {
                let v = m[k].1;
                let i = choose|i: int| 0 <= i < old_lists[k].len() && old_lists[k][i] == v;
                if k == x.0.0 {
                    assert(lists[k] == old_lists[k].push(x.0.1));
                    assert(lists[k][i] == v);
                } else {
                    assert(lists[k] == old_lists[k]);
                }
            } else {
                assert(k == x.0.0);
                assert(first_of_kind(items, dev)[k] == x.0);
                if old_lists.dom().contains(k) {
                    assert(lists[k] == old_lists[k].push(x.0.1));
                    assert(lists[k][old_lists[k].len() as int] == x.0.1);
                } else {
                    assert(lists[k] == seq![x.0.1]);
                    assert(lists[k][0] == x.0.1);
                }
            }
        }
    }
}

/// A member of `packages` with an edge list keeps its key among the edge
/// lists of all members, with that list when no later member has the same key.
pub proof fn lemma_edge_item_kept(ms: Seq<(String, JsonValue)>, k: int)
    requires
        0 <= k < ms.len(),
        v3_edge_item(ms[k]) is Some,
    ensures
        edge_map(v3_edge_items(ms)).dom().contains((v3_edge_item(ms[k])->0).0),
        (forall|j: int| #![trigger ms[j]] k < j < ms.len() ==> !(v3_edge_item(ms[j]) matches Some(y)
            && y.0 == (v3_edge_item(ms[k])->0).0)) ==> edge_map(v3_edge_items(ms))[(v3_edge_item(
            ms[k],
        )->0).0] == (v3_edge_item(ms[k])->0).1,
    decreases ms.len(),
{
    let rest = v3_edge_items(ms.drop_last());
    match v3_edge_item(ms.last()) {
        Some(y) => {
            assert(rest.push(y).drop_last() =~= rest);
        },
        None => {},
    }
    if k < ms.len() - 1 {
        assert(ms.drop_last()[k] == ms[k]);
        assert forall|j: int| #![trigger ms.drop_last()[j]] k < j < ms.drop_last().len() implies ms.drop_last()[j]
            == ms[j] by {}
        lemma_edge_item_kept(ms.drop_last(), k);
        if (forall|j: int| #![trigger ms[j]] k < j < ms.len() ==> !(v3_edge_item(ms[j]) matches Some(y)
            && y.0 == (v3_edge_item(ms[k])->0).0)) {
            assert(ms[ms.len() - 1] == ms.last());
            assert forall|j: int| #![trigger ms.drop_last()[j]] k < j < ms.drop_last().len() implies !(
            v3_edge_item(ms.drop_last()[j]) matches Some(y) && y.0 == (v3_edge_item(ms[k])->0).0) by {
                assert(ms.drop_last()[j] == ms[j]);
            }
        }
    }
}

/// Dependency edges are read from lockfile version 2 on, not only from
/// version 3: in a package-lock.json whose `lockfileVersion` is any number
/// from 2 up, every `packages` member with a non-empty key, a string
/// `version` and a non-empty `dependencies` object gives an edge list under
/// `name@version` (its name taken from the last `node_modules/` of the key).
/// When no later member gives the same key, that list is its dependencies in
/// order, each with the version range it asks for.
pub proof fn law_edges_read_from_version_two_on(root: JsonValue, t: String, n: u64, k: int)
    requires
        member(members(root), "lockfileVersion"@) == Some(JsonValue::Number(t)),
        parse_u64_spec(t@) == Some(n),
        2 <= n <= u32::MAX,
        0 <= k < object_members(member(members(root), "packages"@)).len(),
    ensures
        ({
            let ps = object_members(member(members(root), "packages"@));
            let m = ps[k];
            let ems = members(m.1);
            let deps = object_members(member(ems, "dependencies"@));
            let key = path_name(m.0@) + "@"@ + text_of(member(ems, "version"@))->0;
            m.0@.len() > 0 && deps.len() > 0 && text_of(member(ems, "version"@)) is Some ==> {
                &&& edge_map(npm_edges(root)).dom().contains(key)
                &&& (forall|j: int| #![trigger ps[j]] k < j < ps.len() ==> !(v3_edge_item(ps[j]) matches Some(
                    y,
                ) && y.0 == key)) ==> edge_map(npm_edges(root))[key] == deps.map_values(
                    |d: (String, JsonValue)|
                        (
                            d.0@,
                            match d.1 {
                                JsonValue::Str(s) => s@,
                                _ => Seq::empty(),
                            },
                        ),
                )
            }
        }),
{
    let ps = object_members(member(members(root), "packages"@));
    assert(npm_version(root) == n);
    if v3_edge_item(ps[k]) is Some {
        lemma_edge_item_kept(ps, k);
    }
}

} // verus!
