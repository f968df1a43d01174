//! Stable ordering of records by their names (as `sort_by` on names does).
use vstd::prelude::*;

use crate::text::chars_of;
use crate::{DuplicateDep, LicenseEntry, UnusedDep};

verus! {

/// Lexicographic order on character sequences, by code point (the order of
/// `str`, since UTF-8 preserves code point order).
pub open spec fn seq_le(a: Seq<char>, b: Seq<char>) -> bool
    decreases a.len(),
{
    if a.len() == 0 {
        true
    } else if b.len() == 0 {
        false
    } else if a[0] != b[0] {
        a[0] < b[0]
    } else {
        seq_le(a.drop_first(), b.drop_first())
    }
}

/// Records ordered by a name, found in their deep view.
pub trait Named: DeepView + Sized {
    /// The name a record's view is ordered by.
    spec fn key(v: Self::V) -> Seq<char>;

    /// The name, as a string slice.
    fn name_str(&self) -> (s: &str)
        ensures
            s@ == Self::key(self.deep_view()),
    ;
}

impl Named for String {
    open spec fn key(v: Seq<char>) -> Seq<char> {
        v
    }

    fn name_str(&self) -> (s: &str) {
        self.as_str()
    }
}

impl Named for UnusedDep {
    open spec fn key(v: (Seq<char>, Seq<char>, crate::DepType)) -> Seq<char> {
        v.0
    }

    fn name_str(&self) -> (s: &str) {
        self.name.as_str()
    }
}

impl Named for DuplicateDep {
    open spec fn key(v: (Seq<char>, Seq<Seq<char>>)) -> Seq<char> {
        v.0
    }

    fn name_str(&self) -> (s: &str) {
        self.name.as_str()
    }
}

impl Named for LicenseEntry {
    open spec fn key(v: (Seq<char>, Seq<char>, Seq<char>, crate::DepType)) -> Seq<char> {
        v.0
    }

    fn name_str(&self) -> (s: &str) {
        self.name.as_str()
    }
}

/// `x` placed into `s` after every element whose key is not greater.
pub open spec fn insert_by<A>(s: Seq<A>, x: A, key: spec_fn(A) -> Seq<char>) -> Seq<A>
    decreases s.len(),
{
    if s.len() == 0 {
        seq![x]
    } else if seq_le(key(s.last()), key(x)) {
        s.push(x)
    } else {
        insert_by(s.drop_last(), x, key).push(s.last())
    }
}

/// `s` sorted by key, keeping the original order among equal keys (what a
/// stable sort by key yields).
pub open spec fn sort_by_key<A>(s: Seq<A>, key: spec_fn(A) -> Seq<char>) -> Seq<A>
    decreases s.len(),
{
    if s.len() == 0 {
        s
    } else {
        insert_by(sort_by_key(s.drop_last(), key), s.last(), key)
    }
}

/// The key function of a `Named` type.
pub open spec fn key_fn<T: Named>() -> spec_fn(T::V) -> Seq<char> {
    |v: T::V| T::key(v)
}

/// `a <= b` in the order of `seq_le`.
pub fn chars_le(a: &[char], b: &[char]) -> (r: bool)
    ensures
        r == seq_le(a@, b@),
{
    let mut i: usize = 0;
    assert(a@.skip(0) =~= a@);
    assert(b@.skip(0) =~= b@);
    while i < a.len() && i < b.len()
        invariant
            i <= a.len(),
            i <= b.len(),
            seq_le(a@, b@) == seq_le(a@.skip(i as int), b@.skip(i as int)),
        decreases a.len() - i,
    {
        assert(a@.skip(i as int)[0] == a@[i as int]);
        assert(b@.skip(i as int)[0] == b@[i as int]);
        if a[i] != b[i] {
            return a[i] < b[i];
        }
        assert(a@.skip(i as int).drop_first() =~= a@.skip(i + 1));
        assert(b@.skip(i as int).drop_first() =~= b@.skip(i + 1));
        i = i + 1;
    }
    assert(i == a.len() ==> a@.skip(i as int).len() == 0);
    assert(i < a.len() ==> b@.skip(i as int).len() == 0);
    i == a.len()
}

/// `a <= b` for string slices.
pub fn str_le(a: &str, b: &str) -> (r: bool)
    ensures
        r == seq_le(a@, b@),
{
    let va = chars_of(a);
    let vb = chars_of(b);
    chars_le(va.as_slice(), vb.as_slice())
}

/// Splitting `insert_by` at a position after which every key is greater.
proof fn lemma_insert_split<A>(s: Seq<A>, x: A, key: spec_fn(A) -> Seq<char>, j: int)
    requires
        0 <= j <= s.len(),
        forall|k: int| j <= k < s.len() ==> !seq_le(#[trigger] key(s[k]), key(x)),
    ensures
        insert_by(s, x, key) == insert_by(s.take(j), x, key) + s.skip(j),
    decreases s.len() - j,
{
    if j < s.len() {
        lemma_insert_split(s.drop_last(), x, key, j);
        assert(s.drop_last().take(j) =~= s.take(j));
        assert(s.drop_last().skip(j).push(s.last()) =~= s.skip(j));
    } else {
        assert(s.take(j) =~= s);
        assert(s.skip(j) =~= Seq::<A>::empty());
    }
}

/// Inserts `x` after every element whose name is not greater.
pub fn insert_named<T: Named>(v: &mut Vec<T>, x: T)
    ensures
        final(v).deep_view() == insert_by(old(v).deep_view(), x.deep_view(), key_fn::<T>()),
{
    let ghost key = key_fn::<T>();
    let mut j: usize = v.len();
    while j > 0 && !str_le(v[j - 1].name_str(), x.name_str())
        invariant
            j <= v@.len(),
            v@ == old(v)@,
            key == key_fn::<T>(),
            forall|k: int| j <= k < v@.len() ==> !seq_le(#[trigger] key(v.deep_view()[k]), key(x.deep_view())),
        decreases j,
    {
        j = j - 1;
    }
    let ghost dv = v.deep_view();
    proof {
        lemma_insert_split(dv, x.deep_view(), key, j as int);
        let t = dv.take(j as int);
        if j > 0 {
            assert(t.last() == dv[j - 1]);
            assert(insert_by(t, x.deep_view(), key) == t.push(x.deep_view()));
        } else {
            assert(insert_by(t, x.deep_view(), key) == seq![x.deep_view()]);
        }
    }
    v.insert(j, x);
    assert(v.deep_view() =~= dv.take(j as int).push(x.deep_view()) + dv.skip(j as int));
}

/// Inserting `x` adds exactly `x` to the elements.
pub proof fn lemma_insert_contains<A>(s: Seq<A>, x: A, key: spec_fn(A) -> Seq<char>, y: A)
    ensures
        insert_by(s, x, key).contains(y) <==> (s.contains(y) || y == x),
    decreases s.len(),
{
    let r = insert_by(s, x, key);
    if s.len() == 0 {
        assert(r[0] == x);
    } else if seq_le(key(s.last()), key(x)) {
        if s.contains(y) {
            let i = choose|i: int| 0 <= i < s.len() && s[i] == y;
            assert(r[i] == y);
        }
        if y == x {
            assert(r[s.len() as int] == y);
        }
        if r.contains(y) {
            let i = choose|i: int| 0 <= i < r.len() && r[i] == y;
            if i < s.len() {
                assert(s[i] == y);
            }
        }
    } else {
        let t = insert_by(s.drop_last(), x, key);
        lemma_insert_contains(s.drop_last(), x, key, y);
        if s.contains(y) {
            let i = choose|i: int| 0 <= i < s.len() && s[i] == y;
            if i == s.len() - 1 {
                assert(r[t.len() as int] == y);
            } else {
                assert(s.drop_last()[i] == y);
                let k = choose|k: int| 0 <= k < t.len() && t[k] == y;
                assert(r[k] == y);
            }
        }
        if y == x {
            let k = choose|k: int| 0 <= k < t.len() && t[k] == y;
            assert(r[k] == y);
        }
        if r.contains(y) {
            let i = choose|i: int| 0 <= i < r.len() && r[i] == y;
            if i < t.len() {
                assert(t[i] == y);
                if s.drop_last().contains(y) {
                    let k = choose|k: int| 0 <= k < s.drop_last().len() && s.drop_last()[k] == y;
                    assert(s[k] == y);
                }
            } else {
                assert(s[s.len() - 1] == y);
            }
        }
    }
}

/// Sorting keeps the elements: what the sorted list holds, the list holds,
/// and the other way round.
pub proof fn lemma_sort_contains<A>(s: Seq<A>, key: spec_fn(A) -> Seq<char>, y: A)
    ensures
        sort_by_key(s, key).contains(y) <==> s.contains(y),
    decreases s.len(),
{
    if s.len() > 0 {
        lemma_sort_contains(s.drop_last(), key, y);
        lemma_insert_contains(sort_by_key(s.drop_last(), key), s.last(), key, y);
        if s.contains(y) {
            let i = choose|i: int| 0 <= i < s.len() && s[i] == y;
            if i < s.len() - 1 {
                assert(s.drop_last()[i] == y);
            }
        }
        if s.drop_last().contains(y) {
            let k = choose|k: int| 0 <= k < s.drop_last().len() && s.drop_last()[k] == y;
            assert(s[k] == y);
        }
    }
}

/// A sequence is in ascending order of key.
pub open spec fn sorted_by<A>(s: Seq<A>, key: spec_fn(A) -> Seq<char>) -> bool {
    forall|i: int, j: int| 0 <= i < j < s.len() ==> seq_le(#[trigger] key(s[i]), #[trigger] key(s[j]))
}

/// Any two names are ordered one way or the other.
pub proof fn lemma_seq_le_total(a: Seq<char>, b: Seq<char>)
    ensures
        seq_le(a, b) || seq_le(b, a),
    decreases a.len(),
{
    if a.len() > 0 && b.len() > 0 && a[0] == b[0] {
        lemma_seq_le_total(a.drop_first(), b.drop_first());
    }
}

/// The order of names is transitive.
pub proof fn lemma_seq_le_trans(a: Seq<char>, b: Seq<char>, c: Seq<char>)
    requires
        seq_le(a, b),
        seq_le(b, c),
    ensures
        seq_le(a, c),
    decreases a.len(),
{
    if a.len() > 0 && a[0] == b[0] && b[0] == c[0] {
        lemma_seq_le_trans(a.drop_first(), b.drop_first(), c.drop_first());
    }
}

/// Inserting into an ordered sequence keeps it ordered.
pub proof fn lemma_insert_sorted<A>(s: Seq<A>, x: A, key: spec_fn(A) -> Seq<char>)
    requires
        sorted_by(s, key),
    ensures
        sorted_by(insert_by(s, x, key), key),
    decreases s.len(),
{
    let r = insert_by(s, x, key);
    if s.len() == 0 {
    } else if seq_le(key(s.last()), key(x)) {
        assert forall|i: int, j: int| 0 <= i < j < r.len() implies seq_le(#[trigger] key(r[i]), #[trigger] key(r[j])) by {
            if j == s.len() {
                if i < s.len() - 1 {
                    assert(seq_le(key(s[i]), key(s[s.len() - 1])));
                    lemma_seq_le_trans(key(s[i]), key(s.last()), key(x));
                }
            } else {
                assert(r[i] == s[i] && r[j] == s[j]);
            }
        }
    } else {
        let p = s.drop_last();
        assert forall|i: int, j: int| 0 <= i < j < p.len() implies seq_le(#[trigger] key(p[i]), #[trigger] key(p[j])) by {
            assert(p[i] == s[i] && p[j] == s[j]);
        }
        lemma_insert_sorted(p, x, key);
        let q = insert_by(p, x, key);
        lemma_seq_le_total(key(s.last()), key(x));
        assert forall|i: int, j: int| 0 <= i < j < r.len() implies seq_le(#[trigger] key(r[i]), #[trigger] key(r[j])) by {
            if j == r.len() - 1 {
                let y = q[i];
                assert(q.contains(y));
                lemma_insert_contains(p, x, key, y);
                if y != x {
                    let k = choose|k: int| 0 <= k < p.len() && p[k] == y;
                    assert(s[k] == y);
                    assert(seq_le(key(s[k]), key(s[s.len() - 1])));
                }
            } else {
                assert(r[i] == q[i] && r[j] == q[j]);
            }
        }
    }
}

/// Sorting gives an ordered sequence.
pub proof fn lemma_sort_sorted<A>(s: Seq<A>, key: spec_fn(A) -> Seq<char>)
    ensures
        sorted_by(sort_by_key(s, key), key),
    decreases s.len(),
{
    if s.len() > 0 {
        lemma_sort_sorted(s.drop_last(), key);
        lemma_insert_sorted(sort_by_key(s.drop_last(), key), s.last(), key);
    }
}

} // verus!
