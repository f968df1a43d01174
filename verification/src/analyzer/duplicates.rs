//! Packages installed in more than one version.
use vstd::prelude::*;

use crate::sorting::{insert_by, insert_named, key_fn, lemma_sort_contains, lemma_sort_sorted, sort_by_key, sorted_by};
use crate::config::merge::{distinct_names, distinct_strings, lemma_distinct_names};
use crate::strmap::StrMap;
use crate::{DependencyGraph, DuplicateDep, DuplicateReport};

verus! {

/// The versions of a list, sorted.
pub open spec fn sorted_versions(vs: Seq<Seq<char>>) -> Seq<Seq<char>> {
    sort_by_key(vs, key_fn::<String>())
}

/// The versions recorded for a package, each once.
pub open spec fn distinct_versions(l: Vec<String>) -> Seq<Seq<char>> {
    distinct_names(l.deep_view())
}

/// The packages recorded at more than one distinct version, in map order,
/// each with its distinct versions sorted.
pub open spec fn duplicate_rows(names: Seq<Seq<char>>, lists: Seq<Vec<String>>) -> Seq<
    (Seq<char>, Seq<Seq<char>>),
>
    decreases names.len(),
{
    if names.len() == 0 || lists.len() == 0 {
        Seq::empty()
    } else {
        let prev = duplicate_rows(names.drop_last(), lists.drop_last());
        if distinct_versions(lists.last()).len() > 1 {
            prev.push((names.last(), sorted_versions(distinct_versions(lists.last()))))
        } else {
            prev
        }
    }
}

/// The duplicate packages of a graph, sorted by name.
pub open spec fn duplicates_spec(graph: &DependencyGraph) -> Seq<(Seq<char>, Seq<Seq<char>>)> {
    sort_by_key(
        duplicate_rows(graph.all_packages.keys(), graph.all_packages.vals()),
        key_fn::<DuplicateDep>(),
    )
}

/// A sorted copy of a list of versions.
pub fn sort_versions(vs: &Vec<String>) -> (r: Vec<String>)
    ensures
        r.deep_view() == sorted_versions(vs.deep_view()),
{
    let ghost key = key_fn::<String>();
    let ghost dv = vs.deep_view();
    let mut r: Vec<String> = Vec::new();
    let mut i: usize = 0;
    assert(r.deep_view() =~= sort_by_key(dv.take(0), key));
    while i < vs.len()
        invariant
            i <= vs@.len(),
            dv == vs.deep_view(),
            key == key_fn::<String>(),
            r.deep_view() == sort_by_key(dv.take(i as int), key),
        decreases vs@.len() - i,
    {
        let v = vs[i].clone();
        insert_named(&mut r, v);
        assert(dv.take(i + 1).drop_last() =~= dv.take(i as int));
        i = i + 1;
    }
    assert(dv.take(i as int) =~= dv);
    r
}

/// Detects packages that have several distinct versions installed.
pub fn detect_duplicates(graph: &DependencyGraph) -> (report: DuplicateReport)
    ensures
        report.duplicates.deep_view() == duplicates_spec(graph),
        report.total_duplicate_packages == duplicates_spec(graph).len(),
{
    let ghost key = key_fn::<DuplicateDep>();
    let all: &StrMap<Vec<String>> = &graph.all_packages;
    all.well_formed();
    let n = all.len();
    let mut out: Vec<DuplicateDep> = Vec::new();
    let mut i: usize = 0;
    assert(out.deep_view() =~= sort_by_key(
        duplicate_rows(all.keys().take(0), all.vals().take(0)),
        key,
    ));
    while i < n
        invariant
            i <= n,
            n == all.keys().len(),
            n == all.vals().len(),
            key == key_fn::<DuplicateDep>(),
            out.deep_view() == sort_by_key(
                duplicate_rows(all.keys().take(i as int), all.vals().take(i as int)),
                key,
            ),
            out@.len() <= i,
        decreases n - i,
    {
        let ghost before = duplicate_rows(all.keys().take(i as int), all.vals().take(i as int));
        proof {
            assert(all.keys().take(i + 1).drop_last() =~= all.keys().take(i as int));
            assert(all.vals().take(i + 1).drop_last() =~= all.vals().take(i as int));
            lemma_sort_len(before, key);
        }
        let versions = distinct_strings(all.value_at(i));
        if versions.len() > 1 {
            let d = DuplicateDep { name: all.key_at(i).clone(), versions: sort_versions(&versions) };
            insert_named(&mut out, d);
            assert(before.push(d.deep_view()).drop_last() =~= before);
            proof {
                lemma_insert_len(sort_by_key(before, key), d.deep_view(), key);
            }
        }
        i = i + 1;
    }
    assert(all.keys().take(n as int) =~= all.keys());
    assert(all.vals().take(n as int) =~= all.vals());
    let total = out.len();
    proof {
        lemma_sort_len(duplicate_rows(all.keys(), all.vals()), key);
    }
    DuplicateReport { duplicates: out, total_duplicate_packages: total }
}

/// Inserting adds one element.
pub proof fn lemma_insert_len<A>(s: Seq<A>, x: A, key: spec_fn(A) -> Seq<char>)
    ensures
        insert_by(s, x, key).len() == s.len() + 1,
    decreases s.len(),
{
    if s.len() > 0 {
        lemma_insert_len(s.drop_last(), x, key);
    }
}

/// Sorting keeps the length.
pub proof fn lemma_sort_len<A>(s: Seq<A>, key: spec_fn(A) -> Seq<char>)
    ensures
        sort_by_key(s, key).len() == s.len(),
    decreases s.len(),
{
    if s.len() > 0 {
        lemma_sort_len(s.drop_last(), key);
        lemma_insert_len(sort_by_key(s.drop_last(), key), s.last(), key);
    }
}

/// A duplicate row comes from a recorded package with several distinct
/// versions.
proof fn lemma_duplicate_rows_source(
    names: Seq<Seq<char>>,
    lists: Seq<Vec<String>>,
    d: (Seq<char>, Seq<Seq<char>>),
)
    requires
        names.len() == lists.len(),
        duplicate_rows(names, lists).contains(d),
    ensures
        exists|i: int|
            0 <= i < names.len() && names[i] == d.0 && distinct_versions(lists[i]).len() > 1 && d.1
                == sorted_versions(distinct_versions(#[trigger] lists[i])),
    decreases names.len(),
{
    let prev = duplicate_rows(names.drop_last(), lists.drop_last());
    let all = duplicate_rows(names, lists);
    let k = choose|k: int| 0 <= k < all.len() && all[k] == d;
    if k < prev.len() {
        assert(prev[k] == d);
        lemma_duplicate_rows_source(names.drop_last(), lists.drop_last(), d);
        let i = choose|i: int|
            0 <= i < names.drop_last().len() && names.drop_last()[i] == d.0 && distinct_versions(
                lists.drop_last()[i],
            ).len() > 1 && d.1 == sorted_versions(distinct_versions(#[trigger] lists.drop_last()[i]));
        assert(names[i] == d.0 && lists[i] == lists.drop_last()[i]);
    } else {
        let i = names.len() - 1;
        assert(names[i] == d.0 && distinct_versions(lists[i]).len() > 1 && d.1 == sorted_versions(
            distinct_versions(lists[i]),
        ));
    }
}

/// A version list holds exactly the versions of a recorded list, in
/// ascending order.
pub open spec fn same_versions(vs: Seq<Seq<char>>, l: Vec<String>) -> bool {
    &&& forall|v: Seq<char>| #[trigger] vs.contains(v) <==> l.deep_view().contains(v)
    &&& sorted_by(vs, key_fn::<String>())
}

/// A package recorded at several distinct versions has a duplicate row.
proof fn lemma_duplicate_rows_has(names: Seq<Seq<char>>, lists: Seq<Vec<String>>, i: int)
    requires
        names.len() == lists.len(),
        0 <= i < names.len(),
        distinct_versions(lists[i]).len() > 1,
    ensures
        duplicate_rows(names, lists).contains((names[i], sorted_versions(distinct_versions(lists[i])))),
    decreases names.len(),
{
    let row = (names[i], sorted_versions(distinct_versions(lists[i])));
    let prev = duplicate_rows(names.drop_last(), lists.drop_last());
    let all = duplicate_rows(names, lists);
    if i < names.len() - 1 {
        assert(names.drop_last()[i] == names[i] && lists.drop_last()[i] == lists[i]);
        lemma_duplicate_rows_has(names.drop_last(), lists.drop_last(), i);
        let k = choose|k: int| 0 <= k < prev.len() && prev[k] == row;
        assert(all[k] == row);
    } else {
        assert(all[all.len() - 1] == row);
    }
}

/// The duplicates report names exactly the packages recorded at more than
/// one distinct version, each listed with exactly its distinct versions in
/// ascending order, and the report is sorted by name.
pub proof fn law_duplicates_have_several_versions(graph: &DependencyGraph)
    requires
        graph.all_packages.keys().len() == graph.all_packages.vals().len(),
    ensures
        forall|d: (Seq<char>, Seq<Seq<char>>)| #[trigger]
            duplicates_spec(graph).contains(d) ==> d.1.len() > 1 && exists|i: int|
                #![trigger graph.all_packages.keys()[i]]
                0 <= i < graph.all_packages.keys().len() && graph.all_packages.keys()[i] == d.0
                    && same_versions(d.1, graph.all_packages.vals()[i]),
        forall|i: int|
            0 <= i < graph.all_packages.keys().len() && distinct_versions(#[trigger] graph.all_packages.vals()[i]).len() > 1
                ==> exists|d: (Seq<char>, Seq<Seq<char>>)| #[trigger] duplicates_spec(graph).contains(d) && d.0
                == graph.all_packages.keys()[i],
        sorted_by(duplicates_spec(graph), key_fn::<DuplicateDep>()),
{
    let names = graph.all_packages.keys();
    let lists = graph.all_packages.vals();
    let key = key_fn::<DuplicateDep>();
    assert forall|d: (Seq<char>, Seq<Seq<char>>)| #[trigger]
        duplicates_spec(graph).contains(d) implies d.1.len() > 1 && exists|i: int|
            #![trigger names[i]]
            0 <= i < names.len() && names[i] == d.0 && same_versions(d.1, lists[i]) by {
        lemma_sort_contains(duplicate_rows(names, lists), key, d);
        lemma_duplicate_rows_source(names, lists, d);
        let i = choose|i: int|
            0 <= i < names.len() && names[i] == d.0 && distinct_versions(lists[i]).len() > 1 && d.1
                == sorted_versions(distinct_versions(#[trigger] lists[i]));
        let dv = distinct_versions(lists[i]);
        lemma_sort_len(dv, key_fn::<String>());
        lemma_distinct_names(lists[i].deep_view());
        assert forall|v: Seq<char>| #[trigger] d.1.contains(v) <==> lists[i].deep_view().contains(v) by {
            lemma_sort_contains(dv, key_fn::<String>(), v);
        }
        lemma_sort_sorted(dv, key_fn::<String>());
        assert(0 <= i < names.len() && names[i] == d.0 && same_versions(d.1, lists[i]));
    }
    assert forall|i: int|
        0 <= i < names.len() && distinct_versions(#[trigger] lists[i]).len() > 1 implies exists|
        d: (Seq<char>, Seq<Seq<char>>),
    | #[trigger] duplicates_spec(graph).contains(d) && d.0 == names[i] by {
        lemma_duplicate_rows_has(names, lists, i);
        let row = (names[i], sorted_versions(distinct_versions(lists[i])));
        lemma_sort_contains(duplicate_rows(names, lists), key, row);
        assert(duplicates_spec(graph).contains(row));
    }
    lemma_sort_sorted(duplicate_rows(names, lists), key);
}

/// A list without repeats keeps all its names.
proof fn lemma_distinct_of_distinct(s: Seq<Seq<char>>)
    requires
        s.no_duplicates(),
    ensures
        distinct_names(s) == s,
    decreases s.len(),
{
    if s.len() > 0 {
        let d = s.drop_last();
        assert(d.no_duplicates()) by {
            assert forall|i: int, j: int| 0 <= i < d.len() && 0 <= j < d.len() && i != j implies d[i] != d[j] by {
                assert(d[i] == s[i] && d[j] == s[j]);
            }
        }
        lemma_distinct_of_distinct(d);
        assert(!d.contains(s.last())) by {
            if d.contains(s.last()) {
                let k = choose|k: int| 0 <= k < d.len() && d[k] == s.last();
                assert(s[k] == s[s.len() - 1]);
            }
        }
        assert(d.push(s.last()) =~= s);
    }
}

/// When no package records a version twice, a package is reported exactly
/// when it has more than one version, and its row lists as many versions
/// as were recorded (all of them, in ascending order).
pub proof fn law_duplicates_with_distinct_versions(graph: &DependencyGraph)
    requires
        graph.all_packages.keys().len() == graph.all_packages.vals().len(),
        graph.all_packages.keys().no_duplicates(),
        forall|i: int|
            0 <= i < graph.all_packages.vals().len() ==> (#[trigger] graph.all_packages.vals()[i]).deep_view().no_duplicates(),
    ensures
        forall|i: int|
            0 <= i < graph.all_packages.keys().len() ==> ((#[trigger] graph.all_packages.vals()[i])@.len() > 1 <==> exists|
                d: (Seq<char>, Seq<Seq<char>>),
            | #[trigger] duplicates_spec(graph).contains(d) && d.0 == graph.all_packages.keys()[i]),
        forall|d: (Seq<char>, Seq<Seq<char>>), i: int|
            #[trigger] duplicates_spec(graph).contains(d) && 0 <= i < graph.all_packages.keys().len() && d.0
                == #[trigger] graph.all_packages.keys()[i] ==> d.1.len() == graph.all_packages.vals()[i]@.len()
                && same_versions(d.1, graph.all_packages.vals()[i]),
{
    let names = graph.all_packages.keys();
    let lists = graph.all_packages.vals();
    let key = key_fn::<DuplicateDep>();
    law_duplicates_have_several_versions(graph);
    assert forall|i: int| 0 <= i < names.len() implies ((#[trigger] lists[i])@.len() > 1 <==> exists|
        d: (Seq<char>, Seq<Seq<char>>),
    | #[trigger] duplicates_spec(graph).contains(d) && d.0 == names[i]) by {
        lemma_distinct_of_distinct(lists[i].deep_view());
        assert(lists[i].deep_view().len() == lists[i]@.len());
        if exists|d: (Seq<char>, Seq<Seq<char>>)| #[trigger] duplicates_spec(graph).contains(d) && d.0 == names[i] {
            let d = choose|d: (Seq<char>, Seq<Seq<char>>)| #[trigger] duplicates_spec(graph).contains(d) && d.0 == names[i];
            lemma_sort_contains(duplicate_rows(names, lists), key, d);
            lemma_duplicate_rows_source(names, lists, d);
            let k = choose|k: int|
                0 <= k < names.len() && names[k] == d.0 && distinct_versions(lists[k]).len() > 1 && d.1
                    == sorted_versions(distinct_versions(#[trigger] lists[k]));
            assert(k == i);
        }
    }
    assert forall|d: (Seq<char>, Seq<Seq<char>>), i: int|
        #[trigger] duplicates_spec(graph).contains(d) && 0 <= i < names.len() && d.0 == #[trigger] names[i] implies d.1.len()
            == lists[i]@.len() && same_versions(d.1, lists[i]) by {
        lemma_sort_contains(duplicate_rows(names, lists), key, d);
        lemma_duplicate_rows_source(names, lists, d);
        let k = choose|k: int|
            0 <= k < names.len() && names[k] == d.0 && distinct_versions(lists[k]).len() > 1 && d.1
                == sorted_versions(distinct_versions(#[trigger] lists[k]));
        assert(k == i);
        lemma_distinct_of_distinct(lists[i].deep_view());
        lemma_sort_len(distinct_versions(lists[i]), key_fn::<String>());
        assert(lists[i].deep_view().len() == lists[i]@.len());
        assert(exists|j: int| #![trigger names[j]] 0 <= j < names.len() && names[j] == d.0 && same_versions(d.1, lists[j]));
        let j = choose|j: int| #![trigger names[j]] 0 <= j < names.len() && names[j] == d.0 && same_versions(d.1, lists[j]);
        assert(j == i);
    }
}

} // verus!
