//! Unused dependency detection.
use vstd::prelude::*;

use crate::sorting::{insert_by, insert_named, key_fn, lemma_sort_contains, lemma_sort_sorted, sort_by_key, sorted_by};
use crate::strmap::StrMap;
use crate::text::{
    chars_of, contains_seq, find_chars, find_seq, lemma_find_from, lemma_find_from_first, occurs_at,
    push_chars, starts_with, starts_with_str,
    str_eq, string_of, sub_chars,
};
use crate::{DepType, DependencyGraph, PackageInfo, UnusedDep, UnusedReport};

verus! {

/// The package a `@types/...` package types: `@types/react` types `react`,
/// `@types/babel__core` types `@babel/core`; none for other packages.
pub open spec fn types_base(name: Seq<char>) -> Option<Seq<char>> {
    if starts_with(name, "@types/"@) {
        let suffix = name.skip("@types/"@.len() as int);
        match find_seq(suffix, "__"@) {
            Some(k) => Some(seq!['@'] + suffix.take(k) + seq!['/'] + suffix.skip(k + "__"@.len())),
            None => Some(suffix),
        }
    } else {
        None
    }
}

/// The version uses the workspace protocol (a monorepo-internal package).
pub open spec fn is_workspace_version(version: Seq<char>) -> bool {
    starts_with(version, "workspace:"@)
}

/// Extracts the base package name from a `@types/X` package.
pub fn get_types_base(name: &str) -> (r: Option<String>)
    ensures
        match r {
            Some(b) => types_base(name@) == Some(b@),
            None => types_base(name@) is None,
        },
{
    let chars = chars_of(name);
    let prefix = chars_of("@types/");
    if !crate::text::chars_starts_with(chars.as_slice(), prefix.as_slice()) {
        return None;
    }
    let suffix = sub_chars(chars.as_slice(), prefix.len(), chars.len());
    assert(suffix@ =~= name@.skip("@types/"@.len() as int));
    let sep = chars_of("__");
    match find_chars(suffix.as_slice(), sep.as_slice()) {
        Some(k) => {
            proof {
                lemma_find_from(suffix@, sep@, 0);
            }
            let mut out = String::new();
            crate::text::push_char(&mut out, '@');
            push_chars(&mut out, sub_chars(suffix.as_slice(), 0, k).as_slice());
            crate::text::push_char(&mut out, '/');
            push_chars(&mut out, sub_chars(suffix.as_slice(), k + sep.len(), suffix.len()).as_slice());
            assert(out@ =~= seq!['@'] + suffix@.take(k as int) + seq!['/'] + suffix@.skip(
                k + sep@.len(),
            ));
            Some(out)
        },
        None => Some(string_of(suffix.as_slice())),
    }
}

/// Checks if a dependency version uses the workspace protocol.
pub fn is_workspace_dep(version: &str) -> (b: bool)
    ensures
        b == is_workspace_version(version@),
{
    let v = chars_of(version);
    starts_with_str(v.as_slice(), "workspace:")
}

/// Whether the package list `used` names `name`.
pub fn is_used(used: &[String], name: &str) -> (b: bool)
    ensures
        b == used.deep_view().contains(name@),
{
    let ghost uv = used.deep_view();
    let mut i: usize = 0;
    while i < used.len()
        invariant
            i <= used@.len(),
            uv == used.deep_view(),
            forall|k: int| 0 <= k < i ==> uv[k] != name@,
        decreases used@.len() - i,
    {
        if str_eq(used[i].as_str(), name) {
            assert(uv[i as int] == name@);
            return true;
        }
        i = i + 1;
    }
    false
}

/// Whether the declared package `name` at `version` is reported unused:
/// not a workspace package, not used, and (for dev dependencies) not a
/// `@types` package whose base package is used.
pub open spec fn reported_unused(name: Seq<char>, version: Seq<char>, used: Seq<Seq<char>>, t: DepType) -> bool {
    &&& !is_workspace_version(version)
    &&& !used.contains(name)
    &&& !(t == DepType::Dev && match types_base(name) {
        Some(b) => used.contains(b),
        None => false,
    })
}

/// The unused entries among declared packages, in declaration order.
pub open spec fn unused_rows(
    names: Seq<Seq<char>>,
    infos: Seq<PackageInfo>,
    used: Seq<Seq<char>>,
    t: DepType,
) -> Seq<(Seq<char>, Seq<char>, DepType)>
    decreases names.len(),
{
    if names.len() == 0 || infos.len() == 0 {
        Seq::empty()
    } else {
        let prev = unused_rows(names.drop_last(), infos.drop_last(), used, t);
        if reported_unused(names.last(), infos.last().version@, used, t) {
            prev.push((names.last(), infos.last().version@, t))
        } else {
            prev
        }
    }
}

/// The unused dependencies of a graph, sorted by name (stable, dependencies
/// before dev dependencies of the same name).
pub open spec fn unused_spec(graph: &DependencyGraph, used: Seq<Seq<char>>, skip_dev: bool) -> Seq<
    (Seq<char>, Seq<char>, DepType),
> {
    let prod = unused_rows(graph.dependencies.keys(), graph.dependencies.vals(), used, DepType::Prod);
    let rows = if skip_dev {
        prod
    } else {
        prod + unused_rows(graph.dev_dependencies.keys(), graph.dev_dependencies.vals(), used, DepType::Dev)
    };
    sort_by_key(rows, key_fn::<UnusedDep>())
}

/// Sorting rows one at a time.
proof fn lemma_sort_push<A>(s: Seq<A>, x: A, key: spec_fn(A) -> Seq<char>)
    ensures
        sort_by_key(s.push(x), key) == insert_by(sort_by_key(s, key), x, key),
{
    assert(s.push(x).drop_last() =~= s);
}

/// Adds the unused entries of one map into the sorted output.
fn collect_unused(
    out: &mut Vec<UnusedDep>,
    deps: &StrMap<PackageInfo>,
    used: &[String],
    t: DepType,
    Ghost(rows): Ghost<Seq<(Seq<char>, Seq<char>, DepType)>>,
)
    requires
        old(out).deep_view() == sort_by_key(rows, key_fn::<UnusedDep>()),
    ensures
        final(out).deep_view() == sort_by_key(
            rows + unused_rows(deps.keys(), deps.vals(), used.deep_view(), t),
            key_fn::<UnusedDep>(),
        ),
{
    let ghost key = key_fn::<UnusedDep>();
    let ghost uv = used.deep_view();
    deps.well_formed();
    let n = deps.len();
    let mut i: usize = 0;
    assert(rows + unused_rows(deps.keys().take(0), deps.vals().take(0), uv, t) =~= rows);
    while i < n
        invariant
            i <= n,
            n == deps.keys().len(),
            n == deps.vals().len(),
            key == key_fn::<UnusedDep>(),
            uv == used.deep_view(),
            out.deep_view() == sort_by_key(
                rows + unused_rows(deps.keys().take(i as int), deps.vals().take(i as int), uv, t),
                key,
            ),
        decreases n - i,
    {
        let name = deps.key_at(i);
        let info = deps.value_at(i);
        let ghost before = rows + unused_rows(
            deps.keys().take(i as int),
            deps.vals().take(i as int),
            uv,
            t,
        );
        proof {
            assert(deps.keys().take(i + 1).drop_last() =~= deps.keys().take(i as int));
            assert(deps.vals().take(i + 1).drop_last() =~= deps.vals().take(i as int));
        }
        let mut report = !is_workspace_dep(info.version.as_str()) && !is_used(used, name.as_str());
        if report {
            match t {
                DepType::Dev => {
                    match get_types_base(name.as_str()) {
                        Some(base) => {
                            if is_used(used, base.as_str()) {
                                report = false;
                            }
                        },
                        None => {},
                    }
                },
                DepType::Prod => {},
            }
        }
        if report {
            let d = UnusedDep { name: name.clone(), version: info.version.clone(), dep_type: t };
            insert_named(out, d);
            proof {
                lemma_sort_push(before, d.deep_view(), key);
                assert(before.push(d.deep_view()) =~= rows + unused_rows(
                    deps.keys().take(i + 1),
                    deps.vals().take(i + 1),
                    uv,
                    t,
                ));
            }
        } else {
            assert(before =~= rows + unused_rows(
                deps.keys().take(i + 1),
                deps.vals().take(i + 1),
                uv,
                t,
            ));
        }
        i = i + 1;
    }
    assert(deps.keys().take(n as int) =~= deps.keys());
    assert(deps.vals().take(n as int) =~= deps.vals());
}

/// Detects unused dependencies by comparing declared dependencies with the
/// packages the project uses.
pub fn detect_unused(graph: &DependencyGraph, used: &[String], skip_dev: bool) -> (report:
    UnusedReport)
    ensures
        report.unused.deep_view() == unused_spec(graph, used.deep_view(), skip_dev),
{
    let mut out: Vec<UnusedDep> = Vec::new();
    let ghost e = Seq::<(Seq<char>, Seq<char>, DepType)>::empty();
    assert(out.deep_view() =~= sort_by_key(e, key_fn::<UnusedDep>()));
    collect_unused(&mut out, &graph.dependencies, used, DepType::Prod, Ghost(e));
    let ghost prod = unused_rows(
        graph.dependencies.keys(),
        graph.dependencies.vals(),
        used.deep_view(),
        DepType::Prod,
    );
    assert(e + prod =~= prod);
    if !skip_dev {
        collect_unused(&mut out, &graph.dev_dependencies, used, DepType::Dev, Ghost(prod));
    }
    UnusedReport { unused: out }
}

/// Every row of `unused_rows` is reported unused and has kind `t`.
proof fn lemma_unused_rows_reported(
    names: Seq<Seq<char>>,
    infos: Seq<PackageInfo>,
    used: Seq<Seq<char>>,
    t: DepType,
    row: (Seq<char>, Seq<char>, DepType),
)
    requires
        unused_rows(names, infos, used, t).contains(row),
    ensures
        reported_unused(row.0, row.1, used, t),
        row.2 == t,
    decreases names.len(),
{
    if names.len() > 0 && infos.len() > 0 {
        let prev = unused_rows(names.drop_last(), infos.drop_last(), used, t);
        let all = unused_rows(names, infos, used, t);
        let i = choose|i: int| 0 <= i < all.len() && all[i] == row;
        if i < prev.len() {
            assert(prev[i] == row);
            lemma_unused_rows_reported(names.drop_last(), infos.drop_last(), used, t, row);
        }
    }
}

/// A package the project uses is never reported unused, nor is a
/// workspace package; a dev dependency `@types/x` is not reported when `x`
/// is used; and when dev dependencies are skipped, only dependencies are
/// reported.
pub proof fn law_used_packages_are_never_unused(graph: &DependencyGraph, used: Seq<Seq<char>>, skip_dev: bool)
    ensures
        forall|row: (Seq<char>, Seq<char>, DepType)| #[trigger]
            unused_spec(graph, used, skip_dev).contains(row) ==> {
                &&& !used.contains(row.0)
                &&& !is_workspace_version(row.1)
                &&& (row.2 == DepType::Dev ==> match types_base(row.0) {
                    Some(b) => !used.contains(b),
                    None => true,
                })
                &&& (skip_dev ==> row.2 == DepType::Prod)
            },
{
    let prod = unused_rows(graph.dependencies.keys(), graph.dependencies.vals(), used, DepType::Prod);
    let dev = unused_rows(graph.dev_dependencies.keys(), graph.dev_dependencies.vals(), used, DepType::Dev);
    let rows = if skip_dev {
        prod
    } else {
        prod + dev
    };
    assert forall|row: (Seq<char>, Seq<char>, DepType)| #[trigger]
        unused_spec(graph, used, skip_dev).contains(row) implies {
            &&& !used.contains(row.0)
            &&& !is_workspace_version(row.1)
            &&& (row.2 == DepType::Dev ==> match types_base(row.0) {
                Some(b) => !used.contains(b),
                None => true,
            })
            &&& (skip_dev ==> row.2 == DepType::Prod)
        } by {
        lemma_sort_contains(rows, key_fn::<UnusedDep>(), row);
        let i = choose|i: int| 0 <= i < rows.len() && rows[i] == row;
        if i < prod.len() {
            assert(prod[i] == row);
            lemma_unused_rows_reported(
                graph.dependencies.keys(),
                graph.dependencies.vals(),
                used,
                DepType::Prod,
                row,
            );
        } else {
            assert(dev[i - prod.len()] == row);
            lemma_unused_rows_reported(
                graph.dev_dependencies.keys(),
                graph.dev_dependencies.vals(),
                used,
                DepType::Dev,
                row,
            );
        }
    }
}

/// A declared package that is reported unused has its row.
proof fn lemma_unused_rows_has(
    names: Seq<Seq<char>>,
    infos: Seq<PackageInfo>,
    used: Seq<Seq<char>>,
    t: DepType,
    i: int,
)
    requires
        names.len() == infos.len(),
        0 <= i < names.len(),
        reported_unused(names[i], infos[i].version@, used, t),
    ensures
        unused_rows(names, infos, used, t).contains((names[i], infos[i].version@, t)),
    decreases names.len(),
{
    let row = (names[i], infos[i].version@, t);
    let prev = unused_rows(names.drop_last(), infos.drop_last(), used, t);
    let all = unused_rows(names, infos, used, t);
    if i < names.len() - 1 {
        assert(names.drop_last()[i] == names[i] && infos.drop_last()[i] == infos[i]);
        lemma_unused_rows_has(names.drop_last(), infos.drop_last(), used, t, i);
        let k = choose|k: int| 0 <= k < prev.len() && prev[k] == row;
        assert(all[k] == row);
    } else {
        assert(all[all.len() - 1] == row);
    }
}

/// The unused list is sorted by name, and it holds every declared
/// dependency that is reported unused (and, unless dev dependencies are
/// skipped, every such dev dependency), each with its version and kind.
pub proof fn law_unused_list_is_sorted_and_complete(graph: &DependencyGraph, used: Seq<Seq<char>>, skip_dev: bool)
    requires
        graph.dependencies.keys().len() == graph.dependencies.vals().len(),
        graph.dev_dependencies.keys().len() == graph.dev_dependencies.vals().len(),
    ensures
        sorted_by(unused_spec(graph, used, skip_dev), key_fn::<UnusedDep>()),
        forall|i: int|
            0 <= i < graph.dependencies.keys().len() && reported_unused(
                graph.dependencies.keys()[i],
                #[trigger] graph.dependencies.vals()[i].version@,
                used,
                DepType::Prod,
            ) ==> unused_spec(graph, used, skip_dev).contains(
                (graph.dependencies.keys()[i], graph.dependencies.vals()[i].version@, DepType::Prod),
            ),
        forall|i: int|
            !skip_dev && 0 <= i < graph.dev_dependencies.keys().len() && reported_unused(
                graph.dev_dependencies.keys()[i],
                #[trigger] graph.dev_dependencies.vals()[i].version@,
                used,
                DepType::Dev,
            ) ==> unused_spec(graph, used, skip_dev).contains(
                (graph.dev_dependencies.keys()[i], graph.dev_dependencies.vals()[i].version@, DepType::Dev),
            ),
{
    let pn = graph.dependencies.keys();
    let pi = graph.dependencies.vals();
    let dn = graph.dev_dependencies.keys();
    let di = graph.dev_dependencies.vals();
    let prod = unused_rows(pn, pi, used, DepType::Prod);
    let dev = unused_rows(dn, di, used, DepType::Dev);
    let rows = if skip_dev {
        prod
    } else {
        prod + dev
    };
    let key = key_fn::<UnusedDep>();
    lemma_sort_sorted(rows, key);
    assert forall|i: int|
        0 <= i < pn.len() && reported_unused(pn[i], #[trigger] pi[i].version@, used, DepType::Prod)
            implies unused_spec(graph, used, skip_dev).contains((pn[i], pi[i].version@, DepType::Prod)) by {
        let row = (pn[i], pi[i].version@, DepType::Prod);
        lemma_unused_rows_has(pn, pi, used, DepType::Prod, i);
        let k = choose|k: int| 0 <= k < prod.len() && prod[k] == row;
        assert(rows[k] == row);
        lemma_sort_contains(rows, key, row);
    }
    assert forall|i: int|
        !skip_dev && 0 <= i < dn.len() && reported_unused(dn[i], #[trigger] di[i].version@, used, DepType::Dev)
            implies unused_spec(graph, used, skip_dev).contains((dn[i], di[i].version@, DepType::Dev)) by {
        let row = (dn[i], di[i].version@, DepType::Dev);
        lemma_unused_rows_has(dn, di, used, DepType::Dev, i);
        let k = choose|k: int| 0 <= k < dev.len() && dev[k] == row;
        assert(rows[prod.len() + k] == row);
        lemma_sort_contains(rows, key, row);
    }
}

/// `@types/s__p` types the scoped package `@s/p`, for every scope `s` in
/// which `__` does not occur and which does not end in `_` (so that the `__`
/// after it is the first one) and every `p`; `@types/n` types `n` itself when
/// `__` does not occur in `n`. So a dev dependency `@types/s__p` is never
/// reported unused while `@s/p` is used.
pub proof fn law_types_packages_name_their_base(
    scope: Seq<char>,
    pkg: Seq<char>,
    version: Seq<char>,
    used: Seq<Seq<char>>,
)
    requires
        !contains_seq(scope.push('_'), "__"@),
    ensures
        types_base("@types/"@ + scope + "__"@ + pkg) == Some(seq!['@'] + scope + seq!['/'] + pkg),
        used.contains(seq!['@'] + scope + seq!['/'] + pkg) ==> !reported_unused(
            "@types/"@ + scope + "__"@ + pkg,
            version,
            used,
            DepType::Dev,
        ),
        !contains_seq(pkg, "__"@) ==> types_base("@types/"@ + pkg) == Some(pkg),
{
    reveal_strlit("@types/");
    reveal_strlit("__");
    let sep = "__"@;
    let name = "@types/"@ + scope + sep + pkg;
    assert(name.subrange(0, 7) =~= "@types/"@);
    let suffix = name.skip(7);
    assert(suffix =~= scope + sep + pkg);
    let k = scope.len() as int;
    assert(suffix.subrange(k, k + 2) =~= sep);
    assert forall|i: int| 0 <= i < k implies !occurs_at(suffix, sep, i) by {
        if occurs_at(suffix, sep, i) {
            let t = scope.push('_');
            assert(t.subrange(i, i + 2) =~= suffix.subrange(i, i + 2));
            assert(occurs_at(t, sep, i));
        }
    }
    lemma_find_from_first(suffix, sep, 0, k);
    assert(suffix.take(k) =~= scope);
    assert(suffix.skip(k + 2) =~= pkg);
    let plain = "@types/"@ + pkg;
    assert(plain.subrange(0, 7) =~= "@types/"@);
    assert(plain.skip(7) =~= pkg);
    if !contains_seq(pkg, sep) {
        lemma_find_from(pkg, sep, 0);
    }
}

} // verus!
