//! npm registry lookups of the latest published versions.
//!
//! The requests are made by the caller; this module builds their URLs and
//! reads their answers.
use vstd::prelude::*;

use crate::json::{as_str, field, get_field, json_document, parse_json, str_of};
use crate::strmap::StrMap;
use crate::text::{chars_of, push_str, string_of, trim_end_char, trim_end_char_exec};

verus! {

/// The registry asked when none is configured.
pub const DEFAULT_REGISTRY: &'static str = "https://registry.npmjs.org";

/// How many registry requests run at once.
pub const MAX_CONCURRENT: usize = 16;

/// A package name as it appears in a registry URL: the `/` of a scoped
/// name is written `%2f`.
pub open spec fn encoded_name(name: Seq<char>) -> Seq<char>
    decreases name.len(),
{
    if name.len() > 0 && name[0] == '@' {
        seq!['@'] + slash_escaped(name.drop_first())
    } else {
        name
    }
}

/// `s` with every `/` written `%2f`.
pub open spec fn slash_escaped(s: Seq<char>) -> Seq<char>
    decreases s.len(),
{
    if s.len() == 0 {
        Seq::empty()
    } else if s.last() == '/' {
        slash_escaped(s.drop_last()) + "%2f"@
    } else {
        slash_escaped(s.drop_last()).push(s.last())
    }
}

/// Encodes a package name for a registry URL.
pub fn encode_package_name(name: &str) -> (r: String)
    ensures
        r@ == encoded_name(name@),
{
    let cs = chars_of(name);
    if cs.len() > 0 && cs[0] == '@' {
        let mut out = String::new();
        crate::text::push_char(&mut out, '@');
        let ghost rest = name@.drop_first();
        let mut i: usize = 1;
        while i < cs.len()
            invariant
                1 <= i <= cs@.len(),
                cs@ == name@,
                rest == name@.drop_first(),
                out@ == seq!['@'] + slash_escaped(rest.take(i - 1)),
            decreases cs@.len() - i,
        {
            assert(rest.take(i as int).drop_last() =~= rest.take(i - 1));
            assert(rest.take(i as int).last() == cs@[i as int]);
            if cs[i] == '/' {
                push_str(&mut out, "%2f");
            } else {
                crate::text::push_char(&mut out, cs[i]);
            }
            i = i + 1;
            assert(out@ =~= seq!['@'] + slash_escaped(rest.take(i - 1)));
        }
        assert(rest.take(rest.len() as int) =~= rest);
        out
    } else {
        string_of(cs.as_slice())
    }
}

/// The URL of a package's latest version on a registry (the default one
/// when none is given; trailing slashes of the base are dropped).
pub open spec fn latest_url_spec(registry: Option<Seq<char>>, name: Seq<char>) -> Seq<char> {
    let base = match registry {
        Some(r) => r,
        None => DEFAULT_REGISTRY@,
    };
    trim_end_char(base, '/') + "/"@ + encoded_name(name) + "/latest"@
}

/// The URL of a package's latest version.
pub fn latest_url(registry_url: Option<&str>, name: &str) -> (r: String)
    ensures
        r@ == latest_url_spec(
            match registry_url {
                Some(u) => Some(u@),
                None => None,
            },
            name@,
        ),
{
    let base = match registry_url {
        Some(u) => u,
        None => DEFAULT_REGISTRY,
    };
    let bc = chars_of(base);
    let trimmed = trim_end_char_exec(bc.as_slice(), '/');
    let mut out = string_of(trimmed.as_slice());
    push_str(&mut out, "/");
    let enc = encode_package_name(name);
    push_str(&mut out, enc.as_str());
    push_str(&mut out, "/latest");
    out
}

/// The version a registry answer names: its `version` field when that is a
/// string; none when the answer is not JSON.
pub open spec fn answered_version(body: Seq<char>) -> Option<Seq<char>> {
    match json_document(body) {
        Ok(doc) => match field(doc, "version"@) {
            Some(v) => str_of(v),
            None => None,
        },
        Err(_) => None,
    }
}

/// The latest version in a registry answer.
pub fn latest_from_response(body: &str) -> (r: Option<String>)
    ensures
        match answered_version(body@) {
            Some(v) => r matches Some(s) && s@ == v,
            None => r is None,
        },
{
    let doc = match parse_json(body) {
        Ok(d) => d,
        Err(_) => {
            return None;
        },
    };
    match get_field(&doc, "version") {
        Some(v) => match as_str(v) {
            Some(s) => Some(s.to_string()),
            None => None,
        },
        None => None,
    }
}

/// Records each pair, a later one replacing an earlier one of the same name.
fn insert_pairs(
    m: &mut StrMap<String>,
    pairs: &Vec<(String, String)>,
    Ghost(prev): Ghost<Seq<(Seq<char>, Seq<char>)>>,
)
    requires
        old(m).deep_is(pairs_map(prev)),
    ensures
        final(m).deep_is(pairs_map(prev + pairs.deep_view())),
{
    let ghost pv = pairs.deep_view();
    let mut i: usize = 0;
    assert(prev + pv.take(0) =~= prev);
    while i < pairs.len()
        invariant
            i <= pv.len(),
            pv == pairs.deep_view(),
            m.deep_is(pairs_map(prev + pv.take(i as int))),
        decreases pv.len() - i,
    {
        let pair = &pairs[i];
        assert((pair.0@, pair.1@) == pv[i as int]);
        assert((prev + pv.take(i + 1)).drop_last() =~= prev + pv.take(i as int));
        assert((prev + pv.take(i + 1)).last() == pv[i as int]);
        let ghost before = *m;
        let v = pair.1.clone();
        let ghost gv = v;
        m.well_formed();
        let had = m.contains_key(pair.0.as_str());
        m.insert(pair.0.clone(), v);
        m.well_formed();
        proof {
            if had {
                StrMap::<String>::lemma_deep_is_update(
                    before,
                    *m,
                    pair.0@,
                    gv,
                    pairs_map(prev + pv.take(i as int)),
                );
            } else {
                StrMap::<String>::lemma_deep_is_push(
                    before,
                    *m,
                    pair.0@,
                    gv,
                    pairs_map(prev + pv.take(i as int)),
                );
            }
        }
        i = i + 1;
    }
    assert(pv.take(pv.len() as int) =~= pv);
}

/// The latest versions by package: those found in the cache, then those
/// fetched, a fetched version replacing a cached one.
pub fn merge_latest(cached: &Vec<(String, String)>, fetched: &Vec<(String, String)>) -> (r: StrMap<
    String,
>)
    ensures
        r.deep_is(pairs_map(cached.deep_view() + fetched.deep_view())),
{
    let mut m: StrMap<String> = StrMap::new();
    proof {
        assert forall|q: Seq<char>| #[trigger] m.has(q) implies false by {}
    }
    let ghost e = Seq::<(Seq<char>, Seq<char>)>::empty();
    insert_pairs(&mut m, cached, Ghost(e));
    assert(e + cached.deep_view() =~= cached.deep_view());
    insert_pairs(&mut m, fetched, Ghost(cached.deep_view()));
    m
}

/// Name to version; a later pair with the same name wins.
pub open spec fn pairs_map(ps: Seq<(Seq<char>, Seq<char>)>) -> Map<Seq<char>, Seq<char>>
    decreases ps.len(),
{
    if ps.len() == 0 {
        Map::empty()
    } else {
        pairs_map(ps.drop_last()).insert(ps.last().0, ps.last().1)
    }
}

/// Merging cached and fetched versions: a package that was fetched gets the
/// fetched version; any other package keeps its cached one.
pub proof fn law_fetched_versions_win(
    cached: Seq<(Seq<char>, Seq<char>)>,
    fetched: Seq<(Seq<char>, Seq<char>)>,
)
    ensures
        forall|k: Seq<char>| #[trigger]
            pairs_map(cached + fetched).dom().contains(k) <==> (pairs_map(cached).dom().contains(k)
                || pairs_map(fetched).dom().contains(k)),
        forall|k: Seq<char>| #[trigger]
            pairs_map(fetched).dom().contains(k) ==> pairs_map(cached + fetched)[k] == pairs_map(fetched)[k],
        forall|k: Seq<char>|
            !pairs_map(fetched).dom().contains(k) && #[trigger] pairs_map(cached).dom().contains(k)
                ==> pairs_map(cached + fetched)[k] == pairs_map(cached)[k],
    decreases fetched.len(),
{
    if fetched.len() == 0 {
        assert(cached + fetched =~= cached);
    } else {
        law_fetched_versions_win(cached, fetched.drop_last());
        let x = fetched.last();
        assert((cached + fetched).drop_last() =~= cached + fetched.drop_last());
        assert((cached + fetched).last() == x);
        let all = pairs_map(cached + fetched);
        let pre = pairs_map(cached + fetched.drop_last());
        assert(all == pre.insert(x.0, x.1));
        assert(pairs_map(fetched) == pairs_map(fetched.drop_last()).insert(x.0, x.1));
        assert forall|k: Seq<char>| #[trigger] all.dom().contains(k) <==> (pairs_map(cached).dom().contains(k)
            || pairs_map(fetched).dom().contains(k)) by {
            assert(pre.dom().contains(k) <==> (pairs_map(cached).dom().contains(k) || pairs_map(
                fetched.drop_last(),
            ).dom().contains(k)));
        }
        assert forall|k: Seq<char>| #[trigger] pairs_map(fetched).dom().contains(k) implies all[k] == pairs_map(
            fetched,
        )[k] by {
            if k != x.0 {
                assert(pairs_map(fetched.drop_last()).dom().contains(k));
            }
        }
        assert forall|k: Seq<char>|
            !pairs_map(fetched).dom().contains(k) && #[trigger] pairs_map(cached).dom().contains(k) implies all[k]
            == pairs_map(cached)[k] by {
            assert(!pairs_map(fetched.drop_last()).dom().contains(k));
        }
    }
}

} // verus!
