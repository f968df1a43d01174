//! On-disk caches of registry and vulnerability lookups: file names and
//! freshness. Reading and writing the files is the caller's.
pub mod osv;
pub mod registry;

use vstd::prelude::*;

verus! {

/// A character kept in a cache file name: ASCII letters and digits, `-`,
/// `.` and `_`.
pub open spec fn kept_in_filename(c: char) -> bool {
    ('a' <= c && c <= 'z') || ('A' <= c && c <= 'Z') || ('0' <= c && c <= '9') || c == '-' || c
        == '.' || c == '_'
}

/// `s` with every other character replaced by `_`.
pub open spec fn sanitized(s: Seq<char>) -> Seq<char> {
    s.map_values(
        |c: char|
            if kept_in_filename(c) {
                c
            } else {
                '_'
            },
    )
}

/// Makes a string safe to use in a file name.
pub fn sanitize_for_filename(s: &str) -> (r: String)
    ensures
        r@ == sanitized(s@),
{
    let cs = crate::text::chars_of(s);
    let mut out: Vec<char> = Vec::new();
    let mut i: usize = 0;
    while i < cs.len()
        invariant
            i <= cs@.len(),
            cs@ == s@,
            out@ == sanitized(s@.take(i as int)),
        decreases cs@.len() - i,
    {
        let c = cs[i];
        let keep = ('a' <= c && c <= 'z') || ('A' <= c && c <= 'Z') || ('0' <= c && c <= '9') || c
            == '-' || c == '.' || c == '_';
        if keep {
            out.push(c);
        } else {
            out.push('_');
        }
        i = i + 1;
        assert(out@ =~= sanitized(s@.take(i as int)));
    }
    assert(s@.take(s@.len() as int) =~= s@);
    crate::text::string_of(out.as_slice())
}

/// Whether an entry written at `cached_at` is still fresh at `now` for a
/// lifetime of `ttl` seconds.
pub open spec fn fresh(cached_at: u64, ttl: u64, now: u64) -> bool {
    cached_at + ttl > now
}

/// Whether a cache entry is still fresh.
pub fn is_fresh(cached_at: u64, ttl_secs: u64, now: u64) -> (b: bool)
    ensures
        b == fresh(cached_at, ttl_secs, now),
{
    match cached_at.checked_add(ttl_secs) {
        Some(end) => end > now,
        None => true,
    }
}

/// A longer time to live keeps a fresh entry fresh, and an entry fresh at
/// some moment was fresh at every earlier one.
pub proof fn law_freshness_is_monotone(cached_at: u64, ttl: u64, longer: u64, now: u64, earlier: u64)
    ensures
        fresh(cached_at, ttl, now) && ttl <= longer ==> fresh(cached_at, longer, now),
        fresh(cached_at, ttl, now) && earlier <= now ==> fresh(cached_at, ttl, earlier),
{
}

/// A sanitized name holds only letters, digits, `-`, `.` and `_`, and has
/// the length of the original.
pub proof fn law_sanitized_names_are_safe(s: Seq<char>)
    ensures
        sanitized(s).len() == s.len(),
        forall|i: int| 0 <= i < s.len() ==> kept_in_filename(#[trigger] sanitized(s)[i]),
{
}

} // verus!
