//! bun.lock parsing.
//!
//! bun.lock is JSON with comments: the declared dependencies sit under
//! `workspaces`, the resolved versions under `packages`, each an array whose
//! first element reads `name@version`.
use vstd::prelude::*;

use crate::error::LockpickError;
use crate::json::{as_array, as_object, as_str, field, get_field, members_of, parse_json, json_document, str_of, JsonValue};
use crate::lockfile::yarn::{edge_map, lemma_push_to_deep, lemma_version_lists_push, version_lists, EntryView};
use crate::strmap::StrMap;
use crate::text::{chars_of, last_index, push_str, rfind_char, string_of, sub_chars};
use crate::utils::{strip_jsonc, strip_jsonc_comments};
use crate::{DepEdge, DependencyGraph, LockfileType, PackageInfo};

verus! {

/// Splits `name@version` at its last `@` (a leading `@` belongs to a scoped
/// name); none when there is no such `@` or the version is empty.
pub open spec fn name_version(s: Seq<char>) -> Option<(Seq<char>, Seq<char>)> {
    let start: int = if s.len() > 0 && s[0] == '@' {
        1
    } else {
        0
    };
    match last_index(s.skip(start), '@') {
        None => None,
        Some(p) => {
            let at = p + start;
            if at == 0 || s.skip(at + 1).len() == 0 {
                None
            } else {
                Some((s.take(at), s.skip(at + 1)))
            }
        },
    }
}

/// The resolved package an element of `packages` describes: name and
/// version from its first element, integrity from its third.
pub open spec fn resolved_item(v: JsonValue) -> Option<EntryView> {
    match v {
        JsonValue::Array(a) => if a@.len() > 0 {
            match str_of(a@[0]) {
                Some(first) => match name_version(first) {
                    Some(nv) => Some(
                        (
                            nv.0,
                            nv.1,
                            if a@.len() > 2 {
                                str_of(a@[2])
                            } else {
                                None
                            },
                        ),
                    ),
                    None => None,
                },
                None => None,
            }
        } else {
            None
        },
        _ => None,
    }
}

/// The resolved packages among object members, in order.
pub open spec fn resolved_items(ms: Seq<(String, JsonValue)>) -> Seq<EntryView>
    decreases ms.len(),
{
    if ms.len() == 0 {
        Seq::empty()
    } else {
        let rest = resolved_items(ms.drop_last());
        match resolved_item(ms.last().1) {
            Some(e) => rest.push(e),
            None => rest,
        }
    }
}

/// The resolved packages of a bun.lock document.
pub open spec fn bun_items(root: JsonValue) -> Seq<EntryView> {
    resolved_items(members_of(field(root, "packages"@)))
}

/// Name to (version, integrity); a later package of the same name wins.
pub open spec fn resolved_map(es: Seq<EntryView>) -> Map<Seq<char>, (Seq<char>, Option<Seq<char>>)>
    decreases es.len(),
{
    if es.len() == 0 {
        Map::empty()
    } else {
        resolved_map(es.drop_last()).insert(es.last().0, (es.last().1, es.last().2))
    }
}

/// The members whose value is a string, as (name, text) pairs.
pub open spec fn str_members(ms: Seq<(String, JsonValue)>) -> Seq<(Seq<char>, Seq<char>)>
    decreases ms.len(),
{
    if ms.len() == 0 {
        Seq::empty()
    } else {
        let rest = str_members(ms.drop_last());
        match ms.last().1 {
            JsonValue::Str(s) => rest.push((ms.last().0@, s@)),
            _ => rest,
        }
    }
}

/// The dependencies a workspace declares under `key`.
pub open spec fn declared_in(ws: JsonValue, key: Seq<char>) -> Seq<(Seq<char>, Seq<char>)> {
    str_members(members_of(field(ws, key)))
}

/// The dependencies all workspaces declare under `key`, in order.
pub open spec fn declared_all(wss: Seq<(String, JsonValue)>, key: Seq<char>) -> Seq<
    (Seq<char>, Seq<char>),
>
    decreases wss.len(),
{
    if wss.len() == 0 {
        Seq::empty()
    } else {
        declared_all(wss.drop_last(), key) + declared_in(wss.last().1, key)
    }
}

/// The dependencies a bun.lock document declares under `key`.
pub open spec fn bun_declared(root: JsonValue, key: Seq<char>) -> Seq<(Seq<char>, Seq<char>)> {
    declared_all(members_of(field(root, "workspaces"@)), key)
}

/// Name to declared range; a later declaration of the same name wins.
pub open spec fn assigned(ps: Seq<(Seq<char>, Seq<char>)>) -> Map<Seq<char>, Seq<char>>
    decreases ps.len(),
{
    if ps.len() == 0 {
        Map::empty()
    } else {
        assigned(ps.drop_last()).insert(ps.last().0, ps.last().1)
    }
}

/// Package information for declared ranges, before resolution.
pub open spec fn undecided(decl: Map<Seq<char>, Seq<char>>) -> Map<Seq<char>, EntryView> {
    Map::new(|k: Seq<char>| decl.dom().contains(k), |k: Seq<char>| (k, decl[k], None))
}

/// Each package with a resolved version takes that version, and its
/// integrity when it has none.
pub open spec fn backfill(
    target: Map<Seq<char>, EntryView>,
    res: Map<Seq<char>, (Seq<char>, Option<Seq<char>>)>,
) -> Map<Seq<char>, EntryView> {
    Map::new(
        |k: Seq<char>| target.dom().contains(k),
        |k: Seq<char>|
            if res.dom().contains(k) {
                (
                    target[k].0,
                    res[k].0,
                    if target[k].2 is None {
                        res[k].1
                    } else {
                        target[k].2
                    },
                )
            } else {
                target[k]
            },
    )
}

/// The dependencies of kind `key` in the graph of a bun.lock document.
pub open spec fn bun_deps(root: JsonValue, key: Seq<char>) -> Map<Seq<char>, EntryView> {
    backfill(undecided(assigned(bun_declared(root, key))), resolved_map(bun_items(root)))
}

/// The graph of a bun.lock document, without edges.
pub open spec fn bun_graph(g: DependencyGraph, root: JsonValue) -> bool {
    &&& g.lockfile_type == LockfileType::Bun
    &&& g.dependencies.deep_is(bun_deps(root, "dependencies"@))
    &&& g.dev_dependencies.deep_is(bun_deps(root, "devDependencies"@))
    &&& g.all_packages.deep_is(version_lists(bun_items(root)))
}

/// The document of a bun.lock text: JSON once its comments are blanked.
pub open spec fn bun_document(content: &str) -> Result<JsonValue, Seq<char>> {
    json_document(strip_jsonc(content@))
}

/// Splits `name@version` at its last `@`.
fn parse_name_version(s: &str) -> (r: Option<(String, String)>)
    ensures
        match name_version(s@) {
            Some(nv) => r matches Some(x) && x.0@ == nv.0 && x.1@ == nv.1,
            None => r is None,
        },
{
    let cs = chars_of(s);
    let n = cs.len();
    let start: usize = if n > 0 && cs[0] == '@' {
        1
    } else {
        0
    };
    let rest = sub_chars(cs.as_slice(), start, n);
    assert(rest@ =~= s@.skip(start as int));
    proof {
        crate::text::lemma_last_index_found(rest@, '@');
    }
    match rfind_char(rest.as_slice(), '@') {
        None => None,
        Some(p) => {
            let at = p + start;
            if at == 0 || at + 1 >= n {
                assert(at != 0 ==> s@.skip(at + 1).len() == 0);
                return None;
            }
            let name = sub_chars(cs.as_slice(), 0, at);
            let version = sub_chars(cs.as_slice(), at + 1, n);
            assert(name@ =~= s@.take(at as int));
            assert(version@ =~= s@.skip(at + 1));
            Some((string_of(name.as_slice()), string_of(version.as_slice())))
        },
    }
}

/// The resolved package an element of `packages` describes.
fn read_resolved(v: &JsonValue) -> (r: Option<(String, String, Option<String>)>)
    ensures
        match resolved_item(*v) {
            Some(e) => r matches Some(x) && x.0@ == e.0 && x.1@ == e.1 && x.2.deep_view() == e.2,
            None => r is None,
        },
{
    let arr = match as_array(v) {
        Some(a) => a,
        None => {
            return None;
        },
    };
    if arr.len() == 0 {
        return None;
    }
    let first = match as_str(&arr[0]) {
        Some(f) => f,
        None => {
            return None;
        },
    };
    let (name, version) = match parse_name_version(first) {
        Some(nv) => nv,
        None => {
            return None;
        },
    };
    let integrity = if arr.len() > 2 {
        match as_str(&arr[2]) {
            Some(t) => Some(t.to_string()),
            None => None,
        }
    } else {
        None
    };
    Some((name, version, integrity))
}

/// The versions listed for each package, and each package's resolved
/// version and integrity.
fn build_resolved_map(root: &JsonValue) -> (r: (StrMap<Vec<String>>, StrMap<(String, Option<String>)>))
    ensures
        r.0.deep_is(version_lists(bun_items(*root))),
        r.1.deep_is(resolved_map(bun_items(*root))),
{
    let mut all_packages: StrMap<Vec<String>> = StrMap::new();
    let mut resolved: StrMap<(String, Option<String>)> = StrMap::new();
    proof {
        assert forall|q: Seq<char>| #[trigger] all_packages.has(q) implies false by {}
        assert forall|q: Seq<char>| #[trigger] resolved.has(q) implies false by {}
    }
    let empty: Vec<(String, JsonValue)> = Vec::new();
    let members = match get_field(root, "packages") {
        Some(p) => match as_object(p) {
            Some(ms) => ms,
            None => &empty,
        },
        None => &empty,
    };
    let ghost ms = members@;
    assert(ms == members_of(field(*root, "packages"@)));
    let mut j: usize = 0;
    while j < members.len()
        invariant
            j <= ms.len(),
            ms == members@,
            ms == members_of(field(*root, "packages"@)),
            all_packages.deep_is(version_lists(resolved_items(ms.take(j as int)))),
            resolved.deep_is(resolved_map(resolved_items(ms.take(j as int)))),
        decreases ms.len() - j,
    {
        let ghost done = resolved_items(ms.take(j as int));
        assert(ms.take(j + 1).drop_last() =~= ms.take(j as int));
        assert(ms.take(j + 1).last() == ms[j as int]);
        match read_resolved(&members[j].1) {
            Some((name, version, integrity)) => {
                let ghost e = (name@, version@, integrity.deep_view());
                let ghost before_all = all_packages;
                let ghost before_res = resolved;
                let ghost gver = version;
                all_packages.well_formed();
                all_packages.push_to(name.clone(), version.clone());
                all_packages.well_formed();
                let entry = (version, integrity);
                let ghost gentry = entry;
                resolved.well_formed();
                let had = resolved.contains_key(name.as_str());
                resolved.insert(name, entry);
                resolved.well_formed();
                proof {
                    lemma_version_lists_push(done, e);
                    lemma_push_to_deep(before_all, all_packages, e.0, gver, version_lists(done));
                    assert(done.push(e).drop_last() =~= done);
                    if had {
                        StrMap::<(String, Option<String>)>::lemma_deep_is_update(
                            before_res,
                            resolved,
                            e.0,
                            gentry,
                            resolved_map(done),
                        );
                    } else {
                        StrMap::<(String, Option<String>)>::lemma_deep_is_push(
                            before_res,
                            resolved,
                            e.0,
                            gentry,
                            resolved_map(done),
                        );
                    }
                }
            },
            None => {},
        }
        j = j + 1;
    }
    assert(ms.take(ms.len() as int) =~= ms);
    (all_packages, resolved)
}

/// Records the dependencies a workspace declares under `key`: each string
/// member becomes a package with that range and no integrity, replacing an
/// earlier one of the same name.
fn extract_deps(
    workspace: &JsonValue,
    key: &str,
    target: &mut StrMap<PackageInfo>,
    Ghost(prev): Ghost<Seq<(Seq<char>, Seq<char>)>>,
)
    requires
        old(target).deep_is(undecided(assigned(prev))),
    ensures
        final(target).deep_is(undecided(assigned(prev + declared_in(*workspace, key@)))),
{
    let empty: Vec<(String, JsonValue)> = Vec::new();
    let members = match get_field(workspace, key) {
        Some(d) => match as_object(d) {
            Some(ms) => ms,
            None => &empty,
        },
        None => &empty,
    };
    let ghost ms = members@;
    assert(ms == members_of(field(*workspace, key@)));
    assert(prev + str_members(ms.take(0)) =~= prev);
    let mut j: usize = 0;
    while j < members.len()
        invariant
            j <= ms.len(),
            ms == members@,
            target.deep_is(undecided(assigned(prev + str_members(ms.take(j as int))))),
        decreases ms.len() - j,
    {
        let ghost done = prev + str_members(ms.take(j as int));
        assert(ms.take(j + 1).drop_last() =~= ms.take(j as int));
        assert(ms.take(j + 1).last() == ms[j as int]);
        match as_str(&members[j].1) {
            Some(v) => {
                let name = members[j].0.clone();
                let info = PackageInfo { name: name.clone(), version: v.to_string(), integrity: None };
                let ghost ginfo = info;
                let ghost p = (name@, v@);
                let ghost before = *target;
                target.well_formed();
                let had = target.contains_key(name.as_str());
                target.insert(name, info);
                target.well_formed();
                proof {
                    let nd = done.push(p);
                    assert(prev + str_members(ms.take(j + 1)) =~= nd);
                    assert(nd.drop_last() =~= done);
                    assert(undecided(assigned(nd)) =~= undecided(assigned(done)).insert(
                        p.0,
                        ginfo.deep_view(),
                    ));
                    if had {
                        StrMap::<PackageInfo>::lemma_deep_is_update(
                            before,
                            *target,
                            p.0,
                            ginfo,
                            undecided(assigned(done)),
                        );
                    } else {
                        StrMap::<PackageInfo>::lemma_deep_is_push(
                            before,
                            *target,
                            p.0,
                            ginfo,
                            undecided(assigned(done)),
                        );
                    }
                }
            },
            None => {
                assert(prev + str_members(ms.take(j + 1)) =~= done);
            },
        }
        j = j + 1;
    }
    assert(ms.take(ms.len() as int) =~= ms);
}

/// Gives every package with a resolved version that version, and its
/// resolved integrity when it has none.
fn backfill_versions(
    target: &mut StrMap<PackageInfo>,
    resolved: &StrMap<(String, Option<String>)>,
    Ghost(t): Ghost<Map<Seq<char>, EntryView>>,
    Ghost(res): Ghost<Map<Seq<char>, (Seq<char>, Option<Seq<char>>)>>,
)
    requires
        old(target).deep_is(t),
        resolved.deep_is(res),
    ensures
        final(target).deep_is(backfill(t, res)),
{
    target.well_formed();
    resolved.well_formed();
    let ghost k0 = target.keys();
    let ghost v0 = target.vals();
    let ghost b = backfill(t, res);
    let n = target.len();
    assert forall|j: int| 0 <= j < n implies #[trigger] v0[j].deep_view() == t[k0[j]] by {
        assert(target.has(k0[j]));
        crate::strmap::lemma_index_of_unique(k0, k0[j], j);
    }
    let mut i: usize = 0;
    while i < n
        invariant
            i <= n,
            n == k0.len(),
            k0.len() == v0.len(),
            k0.no_duplicates(),
            target.keys() == k0,
            target.vals().len() == v0.len(),
            resolved.deep_is(res),
            b == backfill(t, res),
            forall|q: Seq<char>|
                #![trigger k0.contains(q)]
                #![trigger t.dom().contains(q)]
                k0.contains(q) <==> t.dom().contains(q),
            forall|j: int| 0 <= j < n ==> #[trigger] v0[j].deep_view() == t[k0[j]],
            forall|j: int| 0 <= j < i ==> #[trigger] target.vals()[j].deep_view() == b[k0[j]],
            forall|j: int| i <= j < n ==> #[trigger] target.vals()[j] == v0[j],
        decreases n - i,
    {
        let key = target.key_at(i).clone();
        proof {
            assert(k0[i as int] == key@);
            assert(k0.contains(key@));
        }
        match resolved.get(key.as_str()) {
            Some(entry) => {
                proof {
                    assert(resolved.has(key@));
                    assert(entry.deep_view() == res[key@]);
                }
                let version = entry.0.clone();
                let integ = match &entry.1 {
                    Some(x) => Some(x.clone()),
                    None => None,
                };
                let fill = PackageInfo { name: String::new(), version: String::new(), integrity: None };
                let ghost kk = k0[i as int];
                proof {
                    assert(t.dom().contains(kk));
                    assert(b[kk] == (
                        t[kk].0,
                        res[kk].0,
                        if t[kk].2 is None {
                            res[kk].1
                        } else {
                            t[kk].2
                        },
                    ));
                    assert(integ.deep_view() == res[kk].1);
                    assert(version@ == res[kk].0);
                }
                let mut info = target.replace_value_at(i, fill);
                assert(info == v0[i as int]);
                assert(info.deep_view() == t[kk]);
                info.version = version;
                if info.integrity.is_none() {
                    info.integrity = integ;
                }
                assert(info.deep_view() == b[k0[i as int]]);
                target.set_value_at(i, info);
            },
            None => {
                assert(!res.dom().contains(key@));
                assert(target.vals()[i as int].deep_view() == b[k0[i as int]]);
            },
        }
        i = i + 1;
    }
    proof {
        assert forall|q: Seq<char>| target.has(q) <==> b.dom().contains(q) by {}
        assert forall|q: Seq<char>| #[trigger] target.has(q) implies target.vals()[target.pos(q)].deep_view()
            == b[q] by {
            let p = target.pos(q);
            assert(k0[p] == q);
        }
    }
}

/// Parses bun.lock content into a dependency graph.
pub fn parse(content: &str) -> (r: Result<DependencyGraph, LockpickError>)
    ensures
        match bun_document(content) {
            Ok(root) => r matches Ok(g) && bun_graph(g, root) && g.dep_edges.size() == 0,
            Err(m) => r matches Err(LockpickError::Parse(e)) && e@ == "Failed to parse bun.lock: "@
                + m,
        },
{
    let stripped = strip_jsonc_comments(content);
    let root = match parse_json(stripped.as_str()) {
        Ok(v) => v,
        Err(e) => {
            let mut msg = String::new();
            push_str(&mut msg, "Failed to parse bun.lock: ");
            push_str(&mut msg, e.as_str());
            return Err(LockpickError::Parse(msg));
        },
    };
    let mut deps: StrMap<PackageInfo> = StrMap::new();
    let mut dev_deps: StrMap<PackageInfo> = StrMap::new();
    proof {
        assert(undecided(assigned(Seq::empty())) =~= Map::<Seq<char>, EntryView>::empty());
        assert forall|q: Seq<char>| #[trigger] deps.has(q) implies false by {}
        assert forall|q: Seq<char>| #[trigger] dev_deps.has(q) implies false by {}
    }
    let empty: Vec<(String, JsonValue)> = Vec::new();
    let workspaces = match get_field(&root, "workspaces") {
        Some(w) => match as_object(w) {
            Some(ms) => ms,
            None => &empty,
        },
        None => &empty,
    };
    let ghost wss = workspaces@;
    assert(wss == members_of(field(root, "workspaces"@)));
    let mut j: usize = 0;
    while j < workspaces.len()
        invariant
            j <= wss.len(),
            wss == workspaces@,
            deps.deep_is(undecided(assigned(declared_all(wss.take(j as int), "dependencies"@)))),
            dev_deps.deep_is(
                undecided(assigned(declared_all(wss.take(j as int), "devDependencies"@))),
            ),
        decreases wss.len() - j,
    {
        assert(wss.take(j + 1).drop_last() =~= wss.take(j as int));
        assert(wss.take(j + 1).last() == wss[j as int]);
        extract_deps(
            &workspaces[j].1,
            "dependencies",
            &mut deps,
            Ghost(declared_all(wss.take(j as int), "dependencies"@)),
        );
        extract_deps(
            &workspaces[j].1,
            "devDependencies",
            &mut dev_deps,
            Ghost(declared_all(wss.take(j as int), "devDependencies"@)),
        );
        j = j + 1;
    }
    assert(wss.take(wss.len() as int) =~= wss);
    let (all_packages, resolved) = build_resolved_map(&root);
    backfill_versions(
        &mut deps,
        &resolved,
        Ghost(undecided(assigned(bun_declared(root, "dependencies"@)))),
        Ghost(resolved_map(bun_items(root))),
    );
    backfill_versions(
        &mut dev_deps,
        &resolved,
        Ghost(undecided(assigned(bun_declared(root, "devDependencies"@)))),
        Ghost(resolved_map(bun_items(root))),
    );
    Ok(
        DependencyGraph {
            dependencies: deps,
            dev_dependencies: dev_deps,
            lockfile_type: LockfileType::Bun,
            all_packages,
            dep_edges: StrMap::new(),
        },
    )
}

/// The dependency edges of members `ms` of an object: each member's name
/// with its string value, `*` for a value that is not a string.
pub open spec fn edges_of(ms: Seq<(String, JsonValue)>) -> Seq<(Seq<char>, Seq<char>)> {
    ms.map_values(
        |m: (String, JsonValue)|
            (
                m.0@,
                match str_of(m.1) {
                    Some(s) => s,
                    None => "*"@,
                },
            ),
    )
}

/// The edges an element of `packages` lists in its fourth element, keyed
/// `name@version`; none when it lists none.
pub open spec fn edge_item(v: JsonValue) -> Option<(Seq<char>, Seq<(Seq<char>, Seq<char>)>)> {
    match v {
        JsonValue::Array(a) => if a@.len() > 3 {
            match str_of(a@[0]) {
                Some(first) => match name_version(first) {
                    Some(nv) => match a@[3] {
                        JsonValue::Object(d) => if d@.len() > 0 {
                            Some((nv.0 + "@"@ + nv.1, edges_of(d@)))
                        } else {
                            None
                        },
                        _ => None,
                    },
                    None => None,
                },
                None => None,
            }
        } else {
            None
        },
        _ => None,
    }
}

/// The edge lists among object members, in order.
pub open spec fn edge_items(ms: Seq<(String, JsonValue)>) -> Seq<
    (Seq<char>, Seq<(Seq<char>, Seq<char>)>),
>
    decreases ms.len(),
{
    if ms.len() == 0 {
        Seq::empty()
    } else {
        let rest = edge_items(ms.drop_last());
        match edge_item(ms.last().1) {
            Some(e) => rest.push(e),
            None => rest,
        }
    }
}

/// The edges an element of `packages` lists.
fn read_edges(v: &JsonValue) -> (r: Option<(String, Vec<DepEdge>)>)
    ensures
        match edge_item(*v) {
            Some(e) => r matches Some(x) && x.0@ == e.0 && x.1.deep_view() == e.1,
            None => r is None,
        },
{
    let arr = match as_array(v) {
        Some(a) => a,
        None => {
            return None;
        },
    };
    if arr.len() <= 3 {
        return None;
    }
    let first = match as_str(&arr[0]) {
        Some(f) => f,
        None => {
            return None;
        },
    };
    let (name, ver) = match parse_name_version(first) {
        Some(nv) => nv,
        None => {
            return None;
        },
    };
    let deps_obj = match as_object(&arr[3]) {
        Some(d) => d,
        None => {
            return None;
        },
    };
    if deps_obj.len() == 0 {
        return None;
    }
    let ghost d = deps_obj@;
    let mut edges: Vec<DepEdge> = Vec::new();
    let mut k: usize = 0;
    while k < deps_obj.len()
        invariant
            k <= d.len(),
            d == deps_obj@,
            edges.deep_view() == edges_of(d.take(k as int)),
        decreases d.len() - k,
    {
        let version = match as_str(&deps_obj[k].1) {
            Some(s) => s.to_string(),
            None => "*".to_string(),
        };
        let edge = DepEdge { name: deps_obj[k].0.clone(), version };
        let ghost before = edges.deep_view();
        edges.push(edge);
        proof {
            assert(d.take(k + 1) =~= d.take(k as int).push(d[k as int]));
            assert(edges_of(d.take(k + 1)) =~= edges_of(d.take(k as int)).push(edge.deep_view()));
            assert(edges.deep_view() =~= before.push(edge.deep_view()));
        }
        k = k + 1;
    }
    assert(d.take(d.len() as int) =~= d);
    let mut key = name;
    push_str(&mut key, "@");
    push_str(&mut key, ver.as_str());
    Some((key, edges))
}

/// Parses bun.lock content with the dependency edges of each resolved
/// package.
pub fn parse_with_edges(content: &str) -> (r: Result<DependencyGraph, LockpickError>)
    ensures
        match bun_document(content) {
            Ok(root) => r matches Ok(g) && bun_graph(g, root) && g.dep_edges.deep_is(
                edge_map(edge_items(members_of(field(root, "packages"@)))),
            ),
            Err(m) => r matches Err(LockpickError::Parse(e)) && e@ == "Failed to parse bun.lock: "@
                + m,
        },
{
    let mut graph = match parse(content) {
        Ok(g) => g,
        Err(e) => {
            return Err(e);
        },
    };
    let stripped = strip_jsonc_comments(content);
    let root = match parse_json(stripped.as_str()) {
        Ok(v) => v,
        Err(_) => {
            return Ok(graph);
        },
    };
    let empty: Vec<(String, JsonValue)> = Vec::new();
    let members = match get_field(&root, "packages") {
        Some(p) => match as_object(p) {
            Some(ms) => ms,
            None => &empty,
        },
        None => &empty,
    };
    let ghost ms = members@;
    proof {
        assert forall|q: Seq<char>| #[trigger] graph.dep_edges.has(q) implies false by {}
        assert(edge_items(ms.take(0)) =~= Seq::<(Seq<char>, Seq<(Seq<char>, Seq<char>)>)>::empty());
    }
    let mut j: usize = 0;
    while j < members.len()
        invariant
            j <= ms.len(),
            ms == members@,
            ms == members_of(field(root, "packages"@)),
            bun_document(content) == Ok::<JsonValue, Seq<char>>(root),
            bun_graph(graph, root),
            graph.dep_edges.deep_is(edge_map(edge_items(ms.take(j as int)))),
        decreases ms.len() - j,
    {
        let ghost done = edge_items(ms.take(j as int));
        assert(ms.take(j + 1).drop_last() =~= ms.take(j as int));
        assert(ms.take(j + 1).last() == ms[j as int]);
        match read_edges(&members[j].1) {
            Some((key, edges)) => {
                let ghost item = (key@, edges.deep_view());
                let ghost gedges = edges;
                let ghost before = graph.dep_edges;
                graph.dep_edges.well_formed();
                let had = graph.dep_edges.contains_key(key.as_str());
                graph.dep_edges.insert(key, edges);
                graph.dep_edges.well_formed();
                proof {
                    let nd = done.push(item);
                    assert(nd.drop_last() =~= done);
                    if had {
                        StrMap::<Vec<DepEdge>>::lemma_deep_is_update(
                            before,
                            graph.dep_edges,
                            item.0,
                            gedges,
                            edge_map(done),
                        );
                    } else {
                        StrMap::<Vec<DepEdge>>::lemma_deep_is_push(
                            before,
                            graph.dep_edges,
                            item.0,
                            gedges,
                            edge_map(done),
                        );
                    }
                }
            },
            None => {},
        }
        j = j + 1;
    }
    assert(ms.take(ms.len() as int) =~= ms);
    Ok(graph)
}

} // verus!
