//! Character-level text utilities shared by the parsers and renderers.
//!
//! Strings are handled as sequences of `char`s; each executable helper is
//! tied to a spec function over `Seq<char>`.
use vstd::prelude::*;

verus! {

/// Unicode `White_Space` characters (what `char::is_whitespace` accepts).
pub open spec fn is_ws(c: char) -> bool {
    ||| ('\u{9}' <= c && c <= '\u{d}')
    ||| c == ' '
    ||| c == '\u{85}'
    ||| c == '\u{a0}'
    ||| c == '\u{1680}'
    ||| ('\u{2000}' <= c && c <= '\u{200a}')
    ||| c == '\u{2028}'
    ||| c == '\u{2029}'
    ||| c == '\u{202f}'
    ||| c == '\u{205f}'
    ||| c == '\u{3000}'
}

/// `s` with leading whitespace removed.
pub open spec fn trim_start(s: Seq<char>) -> Seq<char>
    decreases s.len(),
{
    if s.len() > 0 && is_ws(s[0]) {
        trim_start(s.drop_first())
    } else {
        s
    }
}

/// `s` with trailing whitespace removed.
pub open spec fn trim_end(s: Seq<char>) -> Seq<char>
    decreases s.len(),
{
    if s.len() > 0 && is_ws(s.last()) {
        trim_end(s.drop_last())
    } else {
        s
    }
}

/// `s` with whitespace removed at both ends (`str::trim`).
pub open spec fn trim(s: Seq<char>) -> Seq<char> {
    trim_end(trim_start(s))
}

/// `s` begins with `p`.
pub open spec fn starts_with(s: Seq<char>, p: Seq<char>) -> bool {
    p.len() <= s.len() && s.subrange(0, p.len() as int) == p
}

/// `s` ends with `p`.
pub open spec fn ends_with(s: Seq<char>, p: Seq<char>) -> bool {
    p.len() <= s.len() && s.subrange(s.len() - p.len(), s.len() as int) == p
}

/// `p` occurs in `s` at position `i`.
pub open spec fn occurs_at(s: Seq<char>, p: Seq<char>, i: int) -> bool {
    0 <= i && i + p.len() <= s.len() && s.subrange(i, i + p.len()) == p
}

/// `p` occurs somewhere in `s` (`str::contains`).
pub open spec fn contains_seq(s: Seq<char>, p: Seq<char>) -> bool {
    exists|i: int| occurs_at(s, p, i)
}

/// Index of the first occurrence of `c` in `s`.
pub open spec fn first_index(s: Seq<char>, c: char) -> Option<int>
    decreases s.len(),
{
    if s.len() == 0 {
        None
    } else if s[0] == c {
        Some(0)
    } else {
        match first_index(s.drop_first(), c) {
            Some(i) => Some(i + 1),
            None => None,
        }
    }
}

/// Index of the last occurrence of `c` in `s`.
pub open spec fn last_index(s: Seq<char>, c: char) -> Option<int>
    decreases s.len(),
{
    if s.len() == 0 {
        None
    } else if s.last() == c {
        Some(s.len() - 1)
    } else {
        last_index(s.drop_last(), c)
    }
}

/// The pieces of `s` between occurrences of `c` (`str::split` on one char);
/// always at least one piece.
pub open spec fn split_on(s: Seq<char>, c: char) -> Seq<Seq<char>>
    decreases s.len(),
{
    if s.len() == 0 {
        seq![Seq::<char>::empty()]
    } else {
        let init = split_on(s.drop_last(), c);
        if s.last() == c {
            init.push(Seq::<char>::empty())
        } else {
            init.update(init.len() - 1, init.last().push(s.last()))
        }
    }
}

/// `line` without one trailing carriage return.
pub open spec fn strip_cr(line: Seq<char>) -> Seq<char> {
    if line.len() > 0 && line.last() == '\r' {
        line.drop_last()
    } else {
        line
    }
}

/// The lines of `s` as `str::lines` yields them.
pub open spec fn lines(s: Seq<char>) -> Seq<Seq<char>> {
    if s.len() == 0 {
        Seq::<Seq<char>>::empty()
    } else {
        let parts = split_on(s, '\n');
        let parts = if s.last() == '\n' {
            parts.drop_last()
        } else {
            parts
        };
        parts.map_values(|l: Seq<char>| strip_cr(l))
    }
}

/// The decimal digit for `d < 10`.
pub open spec fn digit_char(d: nat) -> char {
    if d == 0 {
        '0'
    } else if d == 1 {
        '1'
    } else if d == 2 {
        '2'
    } else if d == 3 {
        '3'
    } else if d == 4 {
        '4'
    } else if d == 5 {
        '5'
    } else if d == 6 {
        '6'
    } else if d == 7 {
        '7'
    } else if d == 8 {
        '8'
    } else {
        '9'
    }
}

/// Decimal rendering of a natural number, as `Display` prints it.
pub open spec fn dec(n: nat) -> Seq<char>
    decreases n,
{
    if n < 10 {
        seq![digit_char(n)]
    } else {
        dec(n / 10).push(digit_char(n % 10))
    }
}

/// Appends `c` to `s` (`String::push`).
#[verifier::external_body]
pub(crate) fn push_char(s: &mut String, c: char)
    ensures
        final(s)@ == old(s)@.push(c),
{
    s.push(c);
}

/// Copies the characters of a string slice into a vector.
pub fn chars_of(s: &str) -> (v: Vec<char>)
    ensures
        v@ == s@,
{
    let mut v: Vec<char> = Vec::new();
    for c in it: s.chars()
        invariant
            v@ == it.seq().take(it.index() as int),
            it.seq() == s@,
    {
        v.push(c);
    }
    v
}

/// Builds a `String` holding the given characters.
pub fn string_of(v: &[char]) -> (s: String)
    ensures
        s@ == v@,
{
    let mut s = String::new();
    let mut i: usize = 0;
    while i < v.len()
        invariant
            i <= v.len(),
            s@ == v@.take(i as int),
        decreases v.len() - i,
    {
        push_char(&mut s, v[i]);
        i = i + 1;
        assert(s@ =~= v@.take(i as int));
    }
    assert(v@.take(v.len() as int) =~= v@);
    s
}

/// Appends the characters of `v` to `s`.
pub fn push_chars(s: &mut String, v: &[char])
    ensures
        final(s)@ == old(s)@ + v@,
{
    let mut i: usize = 0;
    while i < v.len()
        invariant
            i <= v.len(),
            s@ == old(s)@ + v@.take(i as int),
        decreases v.len() - i,
    {
        push_char(s, v[i]);
        i = i + 1;
        assert(s@ =~= old(s)@ + v@.take(i as int));
    }
    assert(v@.take(v.len() as int) =~= v@);
}

/// Appends a string slice to `s`.
pub fn push_str(s: &mut String, t: &str)
    ensures
        final(s)@ == old(s)@ + t@,
{
    let v = chars_of(t);
    push_chars(s, v.as_slice());
}

/// Whether two character sequences are equal.
pub fn chars_eq(a: &[char], b: &[char]) -> (r: bool)
    ensures
        r == (a@ == b@),
{
    if a.len() != b.len() {
        return false;
    }
    let mut i: usize = 0;
    while i < a.len()
        invariant
            i <= a.len(),
            a.len() == b.len(),
            a@.take(i as int) == b@.take(i as int),
        decreases a.len() - i,
    {
        if a[i] != b[i] {
            assert(a@[i as int] != b@[i as int]);
            return false;
        }
        assert(a@.take(i + 1) =~= a@.take(i as int).push(a@[i as int]));
        assert(b@.take(i + 1) =~= b@.take(i as int).push(b@[i as int]));
        i = i + 1;
    }
    assert(a@ =~= a@.take(a.len() as int));
    assert(b@ =~= b@.take(b.len() as int));
    true
}

/// Whether two string slices hold the same characters.
pub fn str_eq(a: &str, b: &str) -> (r: bool)
    ensures
        r == (a@ == b@),
{
    let va = chars_of(a);
    let vb = chars_of(b);
    chars_eq(va.as_slice(), vb.as_slice())
}

/// Whether `s` begins with `p`.
pub fn chars_starts_with(s: &[char], p: &[char]) -> (r: bool)
    ensures
        r == starts_with(s@, p@),
{
    if p.len() > s.len() {
        return false;
    }
    let mut i: usize = 0;
    while i < p.len()
        invariant
            i <= p.len(),
            p.len() <= s.len(),
            s@.take(i as int) == p@.take(i as int),
        decreases p.len() - i,
    {
        if s[i] != p[i] {
            assert(s@.subrange(0, p.len() as int)[i as int] != p@[i as int]);
            return false;
        }
        assert(s@.take(i + 1) =~= s@.take(i as int).push(s@[i as int]));
        assert(p@.take(i + 1) =~= p@.take(i as int).push(p@[i as int]));
        i = i + 1;
    }
    assert(s@.subrange(0, p.len() as int) =~= s@.take(p.len() as int));
    assert(p@ =~= p@.take(p.len() as int));
    true
}

/// Whether `p` occurs in `s` at position `at`.
pub fn chars_occurs_at(s: &[char], p: &[char], at: usize) -> (r: bool)
    ensures
        r == occurs_at(s@, p@, at as int),
{
    if at > s.len() || p.len() > s.len() - at {
        return false;
    }
    let mut i: usize = 0;
    while i < p.len()
        invariant
            i <= p.len(),
            at + p.len() <= s.len(),
            s@.subrange(at as int, at + i) == p@.take(i as int),
        decreases p.len() - i,
    {
        if s[at + i] != p[i] {
            assert(s@.subrange(at as int, at + p.len())[i as int] != p@[i as int]);
            return false;
        }
        assert(s@.subrange(at as int, at + i + 1) =~= s@.subrange(at as int, at + i).push(
            s@[at + i],
        ));
        assert(p@.take(i + 1) =~= p@.take(i as int).push(p@[i as int]));
        i = i + 1;
    }
    assert(p@ =~= p@.take(p.len() as int));
    true
}

/// Whether `p` occurs anywhere in `s`.
pub fn chars_contains(s: &[char], p: &[char]) -> (r: bool)
    ensures
        r == contains_seq(s@, p@),
{
    if p.len() > s.len() {
        assert forall|i: int| !occurs_at(s@, p@, i) by {}
        return false;
    }
    let limit = s.len() - p.len();
    let mut at: usize = 0;
    loop
        invariant
            p.len() <= s.len(),
            limit == s.len() - p.len(),
            at <= limit,
            forall|j: int| 0 <= j < at ==> !occurs_at(s@, p@, j),
        decreases limit - at,
    {
        if chars_occurs_at(s, p, at) {
            return true;
        }
        if at == limit {
            assert forall|j: int| !occurs_at(s@, p@, j) by {
                if 0 <= j && j <= at {
                }
            }
            return false;
        }
        at = at + 1;
    }
}

/// Whether the character `c` occurs in `s`.
pub fn has_char(s: &[char], c: char) -> (r: bool)
    ensures
        r == s@.contains(c),
{
    let mut i: usize = 0;
    while i < s.len()
        invariant
            i <= s.len(),
            forall|j: int| 0 <= j < i ==> s@[j] != c,
        decreases s.len() - i,
    {
        if s[i] == c {
            return true;
        }
        i = i + 1;
    }
    false
}

/// Position of the first `c` in `s`.
pub fn find_char(s: &[char], c: char) -> (r: Option<usize>)
    ensures
        match first_index(s@, c) {
            Some(i) => r == Some(i as usize),
            None => r is None,
        },
{
    let mut i: usize = 0;
    while i < s.len()
        invariant
            i <= s.len(),
            forall|j: int| 0 <= j < i ==> s@[j] != c,
        decreases s.len() - i,
    {
        if s[i] == c {
            proof {
                lemma_first_index_at(s@, c, i as int);
            }
            return Some(i);
        }
        i = i + 1;
    }
    proof {
        lemma_first_index_none(s@, c);
    }
    None
}

/// Position of the last `c` in `s`.
pub fn rfind_char(s: &[char], c: char) -> (r: Option<usize>)
    ensures
        match last_index(s@, c) {
            Some(i) => r == Some(i as usize),
            None => r is None,
        },
{
    let mut i: usize = s.len();
    assert(s@.take(s.len() as int) =~= s@);
    while i > 0
        invariant
            i <= s.len(),
            last_index(s@, c) == last_index(s@.take(i as int), c),
        decreases i,
    {
        assert(s@.take(i as int).drop_last() =~= s@.take(i - 1));
        if s[i - 1] == c {
            return Some(i - 1);
        }
        i = i - 1;
    }
    assert(s@.take(0) =~= Seq::<char>::empty());
    None
}

/// When `c` first occurs at `i`, `first_index` finds `i`.
pub proof fn lemma_first_index_at(s: Seq<char>, c: char, i: int)
    requires
        0 <= i < s.len(),
        s[i] == c,
        forall|j: int| 0 <= j < i ==> s[j] != c,
    ensures
        first_index(s, c) == Some(i),
    decreases i,
{
    if i > 0 {
        lemma_first_index_at(s.drop_first(), c, i - 1);
    }
}

/// When `c` does not occur, `first_index` finds nothing.
pub proof fn lemma_first_index_none(s: Seq<char>, c: char)
    requires
        forall|j: int| 0 <= j < s.len() ==> s[j] != c,
    ensures
        first_index(s, c) is None,
    decreases s.len(),
{
    if s.len() > 0 {
        lemma_first_index_none(s.drop_first(), c);
    }
}

/// A found first index is in bounds and holds `c`, and nothing before it does.
pub proof fn lemma_first_index_found(s: Seq<char>, c: char)
    ensures
        match first_index(s, c) {
            Some(i) => 0 <= i < s.len() && s[i] == c && forall|j: int| 0 <= j < i ==> s[j] != c,
            None => forall|j: int| 0 <= j < s.len() ==> s[j] != c,
        },
    decreases s.len(),
{
    if s.len() > 0 {
        lemma_first_index_found(s.drop_first(), c);
        if s[0] != c {
            assert forall|j: int| 0 < j < s.len() implies s[j] == s.drop_first()[j - 1] by {}
        }
    }
}

/// A found last index is in bounds and holds `c`, and nothing after it does.
pub proof fn lemma_last_index_found(s: Seq<char>, c: char)
    ensures
        match last_index(s, c) {
            Some(i) => 0 <= i < s.len() && s[i] == c && forall|j: int| i < j < s.len() ==> s[j]
                != c,
            None => forall|j: int| 0 <= j < s.len() ==> s[j] != c,
        },
    decreases s.len(),
{
    if s.len() > 0 {
        lemma_last_index_found(s.drop_last(), c);
        assert forall|j: int| 0 <= j < s.len() - 1 implies s[j] == s.drop_last()[j] by {}
    }
}

/// Removes leading and trailing whitespace.
pub fn trim_chars(s: &[char]) -> (r: Vec<char>)
    ensures
        r@ == trim(s@),
{
    let mut lo: usize = 0;
    assert(s@.subrange(0, s.len() as int) =~= s@);
    while lo < s.len() && is_whitespace(s[lo])
        invariant
            lo <= s.len(),
            trim_start(s@) == trim_start(s@.subrange(lo as int, s.len() as int)),
        decreases s.len() - lo,
    {
        assert(s@.subrange(lo as int, s.len() as int).drop_first() =~= s@.subrange(
            lo + 1,
            s.len() as int,
        ));
        lo = lo + 1;
    }
    assert(s@.subrange(lo as int, s.len() as int) =~= s@.skip(lo as int));
    let mut hi: usize = s.len();
    while hi > lo && is_whitespace(s[hi - 1])
        invariant
            lo <= hi <= s.len(),
            trim_start(s@) == s@.subrange(lo as int, s.len() as int),
            trim(s@) == trim_end(s@.subrange(lo as int, hi as int)),
        decreases hi - lo,
    {
        assert(s@.subrange(lo as int, hi as int).drop_last() =~= s@.subrange(
            lo as int,
            hi - 1,
        ));
        hi = hi - 1;
    }
    let mut r: Vec<char> = Vec::new();
    let mut k: usize = lo;
    while k < hi
        invariant
            lo <= k <= hi <= s.len(),
            r@ == s@.subrange(lo as int, k as int),
        decreases hi - k,
    {
        r.push(s[k]);
        k = k + 1;
        assert(r@ =~= s@.subrange(lo as int, k as int));
    }
    r
}

/// `char::is_whitespace`.
pub fn is_whitespace(c: char) -> (r: bool)
    ensures
        r == is_ws(c),
{
    ('\u{9}' <= c && c <= '\u{d}') || c == ' ' || c == '\u{85}' || c == '\u{a0}' || c
        == '\u{1680}' || ('\u{2000}' <= c && c <= '\u{200a}') || c == '\u{2028}' || c
        == '\u{2029}' || c == '\u{202f}' || c == '\u{205f}' || c == '\u{3000}'
}

/// Copies `s[lo..hi]`.
pub fn sub_chars(s: &[char], lo: usize, hi: usize) -> (r: Vec<char>)
    requires
        lo <= hi <= s.len(),
    ensures
        r@ == s@.subrange(lo as int, hi as int),
{
    let mut r: Vec<char> = Vec::new();
    let mut k: usize = lo;
    while k < hi
        invariant
            lo <= k <= hi <= s.len(),
            r@ == s@.subrange(lo as int, k as int),
        decreases hi - k,
    {
        r.push(s[k]);
        k = k + 1;
        assert(r@ =~= s@.subrange(lo as int, k as int));
    }
    r
}

/// Splits `s` at every occurrence of `c`.
pub fn split_chars(s: &[char], c: char) -> (r: Vec<Vec<char>>)
    ensures
        r@.len() == split_on(s@, c).len(),
        forall|i: int| 0 <= i < r@.len() ==> #[trigger] r@[i]@ == split_on(s@, c)[i],
{
    let mut out: Vec<Vec<char>> = Vec::new();
    let mut cur: Vec<char> = Vec::new();
    let mut i: usize = 0;
    while i < s.len()
        invariant
            i <= s.len(),
            out@.len() + 1 == split_on(s@.take(i as int), c).len(),
            forall|j: int| 0 <= j < out@.len() ==> #[trigger] out@[j]@ == split_on(
                s@.take(i as int),
                c,
            )[j],
            cur@ == split_on(s@.take(i as int), c).last(),
        decreases s.len() - i,
    {
        proof {
            lemma_split_on_nonempty(s@.take(i as int), c);
            assert(s@.take(i + 1).drop_last() =~= s@.take(i as int));
        }
        if s[i] == c {
            out.push(cur);
            cur = Vec::new();
        } else {
            cur.push(s[i]);
        }
        i = i + 1;
        proof {
            lemma_split_on_nonempty(s@.take(i as int), c);
        }
    }
    assert(s@.take(s.len() as int) =~= s@);
    out.push(cur);
    out
}

/// `split_on` always yields at least one piece.
pub proof fn lemma_split_on_nonempty(s: Seq<char>, c: char)
    ensures
        split_on(s, c).len() >= 1,
    decreases s.len(),
{
    if s.len() > 0 {
        lemma_split_on_nonempty(s.drop_last(), c);
    }
}

/// Decimal rendering of an unsigned integer.
pub fn u64_to_chars(n: u64) -> (r: Vec<char>)
    ensures
        r@ == dec(n as nat),
    decreases n,
{
    if n < 10 {
        let d = digit(n);
        let mut r = Vec::new();
        r.push(d);
        assert(r@ =~= seq![digit_char(n as nat)]);
        r
    } else {
        let mut r = u64_to_chars(n / 10);
        r.push(digit(n % 10));
        r
    }
}

/// The decimal digit for `d < 10`.
pub fn digit(d: u64) -> (c: char)
    requires
        d < 10,
    ensures
        c == digit_char(d as nat),
{
    if d == 0 {
        '0'
    } else if d == 1 {
        '1'
    } else if d == 2 {
        '2'
    } else if d == 3 {
        '3'
    } else if d == 4 {
        '4'
    } else if d == 5 {
        '5'
    } else if d == 6 {
        '6'
    } else if d == 7 {
        '7'
    } else if d == 8 {
        '8'
    } else {
        '9'
    }
}

/// Appends the decimal rendering of `n` to `s`.
pub fn push_u64(s: &mut String, n: u64)
    ensures
        final(s)@ == old(s)@ + dec(n as nat),
{
    let v = u64_to_chars(n);
    push_chars(s, v.as_slice());
}

/// Whether `c` is an ASCII decimal digit.
pub open spec fn is_digit(c: char) -> bool {
    '0' <= c && c <= '9'
}

/// The value of an ASCII digit.
pub open spec fn digit_value(c: char) -> nat {
    (c as nat - '0' as nat) as nat
}

/// Every character is an ASCII digit.
pub open spec fn all_digits(s: Seq<char>) -> bool {
    forall|i: int| 0 <= i < s.len() ==> is_digit(#[trigger] s[i])
}

/// The number written by a string of digits.
pub open spec fn digits_value(s: Seq<char>) -> nat
    decreases s.len(),
{
    if s.len() == 0 {
        0
    } else {
        digits_value(s.drop_last()) * 10 + digit_value(s.last())
    }
}

/// What `u64::from_str` yields: an optional `+` sign followed by one or more
/// ASCII digits whose value fits in 64 bits.
pub open spec fn parse_u64_spec(s: Seq<char>) -> Option<u64> {
    let t = if s.len() > 0 && s[0] == '+' {
        s.drop_first()
    } else {
        s
    };
    if t.len() > 0 && all_digits(t) && digits_value(t) <= u64::MAX {
        Some(digits_value(t) as u64)
    } else {
        None
    }
}

/// A prefix of a digit string never has a larger value.
pub proof fn lemma_digits_value_prefix(s: Seq<char>, k: int)
    requires
        0 <= k <= s.len(),
        all_digits(s),
    ensures
        digits_value(s.take(k)) <= digits_value(s),
    decreases s.len(),
{
    if k < s.len() {
        assert(all_digits(s.drop_last()));
        assert(s.drop_last().take(k) =~= s.take(k));
        lemma_digits_value_prefix(s.drop_last(), k);
    } else {
        assert(s.take(k) =~= s);
    }
}

/// Parses a decimal `u64` the way `str::parse::<u64>` does.
#[verifier::spinoff_prover]
#[verifier::rlimit(30)]
pub fn parse_u64(s: &[char]) -> (r: Option<u64>)
    ensures
        r == parse_u64_spec(s@),
{
    let start: usize = if s.len() > 0 && s[0] == '+' {
        1
    } else {
        0
    };
    let ghost t = if s@.len() > 0 && s@[0] == '+' {
        s@.drop_first()
    } else {
        s@
    };
    assert(t =~= s@.skip(start as int));
    if start >= s.len() {
        return None;
    }
    let mut value: u64 = 0;
    let mut i: usize = start;
    while i < s.len()
        invariant
            start <= i <= s.len(),
            t == s@.skip(start as int),
            t == (if s@.len() > 0 && s@[0] == '+' {
                s@.drop_first()
            } else {
                s@
            }),
            all_digits(t.take(i - start)),
            value as nat == digits_value(t.take(i - start)),
        decreases s.len() - i,
    {
        let c = s[i];
        assert(t.take(i + 1 - start).drop_last() =~= t.take(i - start));
        assert(t[i - start] == c);
        if !('0' <= c && c <= '9') {
            assert(!is_digit(t[i - start]));
            assert(!all_digits(t));
            return None;
        }
        let d = (c as u32 - '0' as u32) as u64;
        assert(t.take(i + 1 - start).last() == c);
        assert(digits_value(t.take(i + 1 - start)) == value * 10 + d);
        match value.checked_mul(10) {
            Some(v10) => match v10.checked_add(d) {
                Some(v) => {
                    value = v;
                },
                None => {
                    proof {
                        if all_digits(t) {
                            lemma_digits_value_prefix(t, i + 1 - start);
                        }
                        assert(value * 10 + d > u64::MAX);
                    }
                    return None;
                },
            },
            None => {
                proof {
                    if all_digits(t) {
                        lemma_digits_value_prefix(t, i + 1 - start);
                    }
                    assert(value * 10 > u64::MAX);
                }
                return None;
            },
        }
        i = i + 1;
    }
    assert(t.take(i - start) =~= t);
    Some(value)
}

/// Index of the first occurrence of `p` in `s`, searching from `from`.
pub open spec fn find_from(s: Seq<char>, p: Seq<char>, from: int) -> Option<int>
    decreases s.len() + 1 - from,
{
    if from < 0 || from + p.len() > s.len() {
        None
    } else if occurs_at(s, p, from) {
        Some(from)
    } else {
        find_from(s, p, from + 1)
    }
}

/// Index of the first occurrence of `p` in `s` (`str::find`).
pub open spec fn find_seq(s: Seq<char>, p: Seq<char>) -> Option<int> {
    find_from(s, p, 0)
}

/// A found occurrence is an occurrence.
pub proof fn lemma_find_from(s: Seq<char>, p: Seq<char>, from: int)
    requires
        0 <= from,
    ensures
        match find_from(s, p, from) {
            Some(k) => from <= k && occurs_at(s, p, k),
            None => true,
        },
    decreases s.len() + 1 - from,
{
    if from + p.len() <= s.len() && !occurs_at(s, p, from) {
        lemma_find_from(s, p, from + 1);
    }
}

/// An occurrence at `k` with none between `from` and `k` is the one found.
pub proof fn lemma_find_from_first(s: Seq<char>, p: Seq<char>, from: int, k: int)
    requires
        0 <= from <= k,
        occurs_at(s, p, k),
        forall|i: int| from <= i < k ==> !occurs_at(s, p, i),
    ensures
        find_from(s, p, from) == Some(k),
    decreases k - from,
{
    if from < k {
        lemma_find_from_first(s, p, from + 1, k);
    }
}

/// Position of the first occurrence of `p` in `s`.
pub fn find_chars(s: &[char], p: &[char]) -> (r: Option<usize>)
    ensures
        match find_seq(s@, p@) {
            Some(k) => r == Some(k as usize),
            None => r is None,
        },
{
    if p.len() > s.len() {
        return None;
    }
    let limit = s.len() - p.len();
    let mut at: usize = 0;
    loop
        invariant
            p.len() <= s.len(),
            limit == s.len() - p.len(),
            at <= limit,
            find_seq(s@, p@) == find_from(s@, p@, at as int),
        decreases limit - at,
    {
        if chars_occurs_at(s, p, at) {
            return Some(at);
        }
        if at == limit {
            assert(find_from(s@, p@, at + 1) is None);
            return None;
        }
        at = at + 1;
    }
}

/// Whether `s` begins with the string slice `p`.
pub fn starts_with_str(s: &[char], p: &str) -> (r: bool)
    ensures
        r == starts_with(s@, p@),
{
    let pv = chars_of(p);
    chars_starts_with(s, pv.as_slice())
}

/// Whether `s` ends with the string slice `p`.
pub fn ends_with_str(s: &[char], p: &str) -> (r: bool)
    ensures
        r == ends_with(s@, p@),
{
    let pv = chars_of(p);
    if pv.len() > s.len() {
        return false;
    }
    let off = s.len() - pv.len();
    let tail = sub_chars(s, off, s.len());
    chars_eq(tail.as_slice(), pv.as_slice())
}

/// `s` without any trailing `c` (`str::trim_end_matches` for one char).
pub open spec fn trim_end_char(s: Seq<char>, c: char) -> Seq<char>
    decreases s.len(),
{
    if s.len() > 0 && s.last() == c {
        trim_end_char(s.drop_last(), c)
    } else {
        s
    }
}

/// `s` without any leading `c`.
pub open spec fn trim_start_char(s: Seq<char>, c: char) -> Seq<char>
    decreases s.len(),
{
    if s.len() > 0 && s[0] == c {
        trim_start_char(s.drop_first(), c)
    } else {
        s
    }
}

/// `s` without leading or trailing `c` (`str::trim_matches` for one char).
pub open spec fn trim_char(s: Seq<char>, c: char) -> Seq<char> {
    trim_end_char(trim_start_char(s, c), c)
}

/// Removes every trailing `c`.
pub fn trim_end_char_exec(s: &[char], c: char) -> (r: Vec<char>)
    ensures
        r@ == trim_end_char(s@, c),
{
    let mut hi: usize = s.len();
    assert(s@.take(s.len() as int) =~= s@);
    while hi > 0 && s[hi - 1] == c
        invariant
            hi <= s.len(),
            trim_end_char(s@, c) == trim_end_char(s@.take(hi as int), c),
        decreases hi,
    {
        assert(s@.take(hi as int).drop_last() =~= s@.take(hi - 1));
        hi = hi - 1;
    }
    let r = sub_chars(s, 0, hi);
    assert(r@ =~= s@.take(hi as int));
    r
}

/// Removes every leading and trailing `c`.
pub fn trim_char_exec(s: &[char], c: char) -> (r: Vec<char>)
    ensures
        r@ == trim_char(s@, c),
{
    let mut lo: usize = 0;
    assert(s@.skip(0) =~= s@);
    while lo < s.len() && s[lo] == c
        invariant
            lo <= s.len(),
            trim_start_char(s@, c) == trim_start_char(s@.skip(lo as int), c),
        decreases s.len() - lo,
    {
        assert(s@.skip(lo as int).drop_first() =~= s@.skip(lo + 1));
        lo = lo + 1;
    }
    let t = sub_chars(s, lo, s.len());
    assert(t@ =~= s@.skip(lo as int));
    trim_end_char_exec(t.as_slice(), c)
}

/// The lines of a text, as `str::lines` yields them.
pub fn lines_of(s: &[char]) -> (r: Vec<Vec<char>>)
    ensures
        r@.len() == lines(s@).len(),
        forall|i: int| 0 <= i < r@.len() ==> #[trigger] r@[i]@ == lines(s@)[i],
{
    let mut out: Vec<Vec<char>> = Vec::new();
    if s.len() == 0 {
        return out;
    }
    let parts = split_chars(s, '\n');
    proof {
        lemma_split_on_nonempty(s@, '\n');
    }
    let ghost sp = split_on(s@, '\n');
    let count = if s[s.len() - 1] == '\n' {
        parts.len() - 1
    } else {
        parts.len()
    };
    let ghost kept = if s@.last() == '\n' {
        sp.drop_last()
    } else {
        sp
    };
    assert(count == kept.len());
    let mut i: usize = 0;
    while i < count
        invariant
            i <= count,
            count == kept.len(),
            count <= parts@.len(),
            parts@.len() == sp.len(),
            forall|k: int| 0 <= k < parts@.len() ==> #[trigger] parts@[k]@ == sp[k],
            forall|k: int| 0 <= k < kept.len() ==> #[trigger] kept[k] == sp[k],
            out@.len() == i,
            forall|k: int| 0 <= k < i ==> #[trigger] out@[k]@ == strip_cr(kept[k]),
        decreases count - i,
    {
        let p = &parts[i];
        let line = if p.len() > 0 && p[p.len() - 1] == '\r' {
            sub_chars(p.as_slice(), 0, p.len() - 1)
        } else {
            sub_chars(p.as_slice(), 0, p.len())
        };
        assert(p@.len() > 0 && p@.last() == '\r' ==> line@ =~= p@.drop_last());
        assert(!(p@.len() > 0 && p@.last() == '\r') ==> line@ =~= p@);
        out.push(line);
        i = i + 1;
    }
    out
}

} // verus!
