//! Disk size of each dependency.
use vstd::prelude::*;

use crate::strmap::StrMap;
use crate::{DependencyGraph, PackageInfo, SizeEntry, SizeReport};

verus! {

/// `x` placed into `s` after every element at least as large.
pub open spec fn insert_by_size(s: Seq<(Seq<char>, u64)>, x: (Seq<char>, u64)) -> Seq<(Seq<char>, u64)>
    decreases s.len(),
{
    if s.len() == 0 {
        seq![x]
    } else if s.last().1 >= x.1 {
        s.push(x)
    } else {
        insert_by_size(s.drop_last(), x).push(s.last())
    }
}

/// `s` sorted by descending size, keeping the original order among equal
/// sizes (a stable sort).
pub open spec fn sort_by_size_desc(s: Seq<(Seq<char>, u64)>) -> Seq<(Seq<char>, u64)>
    decreases s.len(),
{
    if s.len() == 0 {
        s
    } else {
        insert_by_size(sort_by_size_desc(s.drop_last()), s.last())
    }
}

/// The measured size of package `name` (0 when nothing was measured).
pub open spec fn measured(sizes: &StrMap<u64>, name: Seq<char>) -> u64 {
    match sizes.lookup(name) {
        Some(n) => n,
        None => 0,
    }
}

/// One entry per name, in order.
pub open spec fn size_rows(names: Seq<Seq<char>>, sizes: &StrMap<u64>) -> Seq<(Seq<char>, u64)>
    decreases names.len(),
{
    if names.len() == 0 {
        Seq::empty()
    } else {
        size_rows(names.drop_last(), sizes).push((names.last(), measured(sizes, names.last())))
    }
}

/// Sum of the sizes.
pub open spec fn total_size(rows: Seq<(Seq<char>, u64)>) -> nat
    decreases rows.len(),
{
    if rows.len() == 0 {
        0
    } else {
        total_size(rows.drop_last()) + rows.last().1 as nat
    }
}

/// The entries of a size report: dependencies then dev dependencies.
pub open spec fn size_rows_of(graph: &DependencyGraph, sizes: &StrMap<u64>) -> Seq<(Seq<char>, u64)> {
    size_rows(graph.dependencies.keys() + graph.dev_dependencies.keys(), sizes)
}

/// Splitting `insert_by_size` at a position after which every size is smaller.
proof fn lemma_insert_size_split(s: Seq<(Seq<char>, u64)>, x: (Seq<char>, u64), j: int)
    requires
        0 <= j <= s.len(),
        forall|k: int| j <= k < s.len() ==> #[trigger] s[k].1 < x.1,
    ensures
        insert_by_size(s, x) == insert_by_size(s.take(j), x) + s.skip(j),
    decreases s.len() - j,
{
    if j < s.len() {
        lemma_insert_size_split(s.drop_last(), x, j);
        assert(s.drop_last().take(j) =~= s.take(j));
        assert(s.drop_last().skip(j).push(s.last()) =~= s.skip(j));
    } else {
        assert(s.take(j) =~= s);
        assert(s.skip(j) =~= Seq::<(Seq<char>, u64)>::empty());
    }
}

/// Inserts an entry after every entry at least as large.
fn insert_size(v: &mut Vec<SizeEntry>, x: SizeEntry)
    ensures
        final(v).deep_view() == insert_by_size(old(v).deep_view(), x.deep_view()),
{
    let mut j: usize = v.len();
    while j > 0 && v[j - 1].size_bytes < x.size_bytes
        invariant
            j <= v@.len(),
            v@ == old(v)@,
            forall|k: int| j <= k < v@.len() ==> #[trigger] v.deep_view()[k].1 < x.size_bytes,
        decreases j,
    {
        j = j - 1;
    }
    let ghost dv = v.deep_view();
    proof {
        lemma_insert_size_split(dv, x.deep_view(), j as int);
        let t = dv.take(j as int);
        if j > 0 {
            assert(t.last() == dv[j - 1]);
        }
    }
    v.insert(j, x);
    assert(v.deep_view() =~= dv.take(j as int).push(x.deep_view()) + dv.skip(j as int));
}

/// Inserting keeps the total.
proof fn lemma_insert_total(s: Seq<(Seq<char>, u64)>, x: (Seq<char>, u64))
    ensures
        total_size(insert_by_size(s, x)) == total_size(s) + x.1,
    decreases s.len(),
{
    if s.len() > 0 {
        if s.last().1 < x.1 {
            lemma_insert_total(s.drop_last(), x);
            let r = insert_by_size(s.drop_last(), x);
            assert(r.push(s.last()).drop_last() =~= r);
            assert(insert_by_size(s, x) == r.push(s.last()));
            assert(total_size(r.push(s.last())) == total_size(r) + s.last().1);
        } else {
            assert(s.push(x).drop_last() =~= s);
            assert(insert_by_size(s, x) == s.push(x));
            assert(total_size(s.push(x)) == total_size(s) + x.1);
        }
    } else {
        let e = Seq::<(Seq<char>, u64)>::empty();
        assert(seq![x].drop_last() =~= e);
        assert(insert_by_size(s, x) == seq![x]);
        assert(total_size(seq![x]) == total_size(e) + x.1);
    }
}

/// Sorting keeps the total.
pub proof fn lemma_sort_total(s: Seq<(Seq<char>, u64)>)
    ensures
        total_size(sort_by_size_desc(s)) == total_size(s),
    decreases s.len(),
{
    if s.len() > 0 {
        lemma_sort_total(s.drop_last());
        lemma_insert_total(sort_by_size_desc(s.drop_last()), s.last());
    }
}

/// A prefix never totals more than the whole.
proof fn lemma_total_prefix(s: Seq<(Seq<char>, u64)>, k: int)
    requires
        0 <= k <= s.len(),
    ensures
        total_size(s.take(k)) <= total_size(s),
    decreases s.len(),
{
    if k < s.len() {
        assert(s.drop_last().take(k) =~= s.take(k));
        lemma_total_prefix(s.drop_last(), k);
    } else {
        assert(s.take(k) =~= s);
    }
}

/// Adds an entry per package of `deps`.
fn collect_sizes(
    out: &mut Vec<SizeEntry>,
    deps: &StrMap<PackageInfo>,
    sizes: &StrMap<u64>,
    Ghost(names): Ghost<Seq<Seq<char>>>,
)
    requires
        old(out).deep_view() == sort_by_size_desc(size_rows(names, sizes)),
    ensures
        final(out).deep_view() == sort_by_size_desc(size_rows(names + deps.keys(), sizes)),
{
    deps.well_formed();
    let n = deps.len();
    let mut i: usize = 0;
    assert(names + deps.keys().take(0) =~= names);
    while i < n
        invariant
            i <= n,
            n == deps.keys().len(),
            out.deep_view() == sort_by_size_desc(size_rows(names + deps.keys().take(i as int), sizes)),
        decreases n - i,
    {
        let name = deps.key_at(i);
        let size: u64 = match sizes.get(name.as_str()) {
            Some(s) => *s,
            None => 0,
        };
        let e = SizeEntry { name: name.clone(), size_bytes: size };
        insert_size(out, e);
        proof {
            let ns = names + deps.keys().take(i + 1);
            assert(ns.drop_last() =~= names + deps.keys().take(i as int));
            assert(ns.last() == name@);
            assert(size_rows(ns, sizes).drop_last() =~= size_rows(names + deps.keys().take(i as int), sizes));
        }
        i = i + 1;
    }
    assert(deps.keys().take(n as int) =~= deps.keys());
}

/// The measured sizes of all declared packages fit in a `u64` when summed.
pub open spec fn sizes_fit(graph: &DependencyGraph, sizes: &StrMap<u64>) -> bool {
    total_size(size_rows_of(graph, sizes)) <= u64::MAX
}

/// Builds the size report from the measured directory sizes (keyed by
/// package name; unmeasured packages count as 0): one entry per dependency
/// and dev dependency, largest first, with their total.
pub fn analyze_size(graph: &DependencyGraph, sizes: &StrMap<u64>) -> (report: SizeReport)
    requires
        sizes_fit(graph, sizes),
    ensures
        report.entries.deep_view() == sort_by_size_desc(size_rows_of(graph, sizes)),
        report.total_bytes == total_size(size_rows_of(graph, sizes)),
{
    let mut out: Vec<SizeEntry> = Vec::new();
    let ghost e = Seq::<Seq<char>>::empty();
    assert(out.deep_view() =~= sort_by_size_desc(size_rows(e, sizes)));
    collect_sizes(&mut out, &graph.dependencies, sizes, Ghost(e));
    assert(e + graph.dependencies.keys() =~= graph.dependencies.keys());
    collect_sizes(&mut out, &graph.dev_dependencies, sizes, Ghost(graph.dependencies.keys()));
    let ghost rows = size_rows_of(graph, sizes);
    proof {
        lemma_sort_total(rows);
    }
    let ghost sorted = out.deep_view();
    let mut total: u64 = 0;
    let mut i: usize = 0;
    while i < out.len()
        invariant
            i <= out@.len(),
            sorted == out.deep_view(),
            total_size(sorted) <= u64::MAX,
            total == total_size(sorted.take(i as int)),
        decreases out@.len() - i,
    {
        proof {
            assert(sorted.take(i + 1).drop_last() =~= sorted.take(i as int));
            lemma_total_prefix(sorted, i + 1);
        }
        total = total + out[i].size_bytes;
        i = i + 1;
    }
    assert(sorted.take(i as int) =~= sorted);
    SizeReport { entries: out, total_bytes: total }
}

} // verus!
