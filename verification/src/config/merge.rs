//! How the command line and `.lockpickrc` combine: where both give a
//! setting the command line's wins, and the two ignore lists are joined.
use vstd::prelude::*;

use crate::config::types::{OutputFormatConfig, Thresholds};
use crate::scanner::unused::is_used;
use crate::threshold::{counts_fit, evaluate, evaluate_spec, fail_on_spec, from_fail_on};
use crate::AnalysisResult;

verus! {

/// The names of a list, each once, in the order they first occur.
pub open spec fn distinct_names(s: Seq<Seq<char>>) -> Seq<Seq<char>>
    decreases s.len(),
{
    if s.len() == 0 {
        Seq::empty()
    } else {
        let d = distinct_names(s.drop_last());
        if d.contains(s.last()) {
            d
        } else {
            d.push(s.last())
        }
    }
}

/// Appends `name` unless the list already holds it.
pub(crate) fn push_new(out: &mut Vec<String>, name: &String)
    ensures
        final(out).deep_view() == (if old(out).deep_view().contains(name@) {
            old(out).deep_view()
        } else {
            old(out).deep_view().push(name@)
        }),
{
    if !is_used(out.as_slice(), name.as_str()) {
        let ghost before = out.deep_view();
        out.push(name.clone());
        assert(out.deep_view() =~= before.push(name@));
    }
}

/// The strings of a list, each once, in the order they first occur.
pub fn distinct_strings(v: &Vec<String>) -> (r: Vec<String>)
    ensures
        r.deep_view() == distinct_names(v.deep_view()),
{
    let ghost all = v.deep_view();
    let mut out: Vec<String> = Vec::new();
    assert(all.take(0) =~= Seq::<Seq<char>>::empty());
    assert(out.deep_view() =~= Seq::<Seq<char>>::empty());
    let mut i: usize = 0;
    while i < v.len()
        invariant
            i <= v@.len(),
            all == v.deep_view(),
            out.deep_view() == distinct_names(all.take(i as int)),
        decreases v@.len() - i,
    {
        assert(all.take(i + 1).drop_last() =~= all.take(i as int));
        assert(all.take(i + 1).last() == v[i as int]@);
        push_new(&mut out, &v[i]);
        i = i + 1;
    }
    assert(all.take(i as int) =~= all);
    out
}

/// The packages to ignore: those of `.lockpickrc`, then those given on the
/// command line, each once.
pub fn merge_ignore(rc: &Vec<String>, cli: &Vec<String>) -> (r: Vec<String>)
    ensures
        r.deep_view() == distinct_names(rc.deep_view() + cli.deep_view()),
{
    let ghost all = rc.deep_view() + cli.deep_view();
    let ghost n = rc@.len() as int;
    let mut out: Vec<String> = Vec::new();
    assert(all.take(0) =~= Seq::<Seq<char>>::empty());
    assert(out.deep_view() =~= Seq::<Seq<char>>::empty());
    let mut i: usize = 0;
    while i < rc.len()
        invariant
            i <= rc@.len(),
            n == rc@.len(),
            all == rc.deep_view() + cli.deep_view(),
            out.deep_view() == distinct_names(all.take(i as int)),
        decreases rc@.len() - i,
    {
        assert(all.take(i + 1).drop_last() =~= all.take(i as int));
        assert(all.take(i + 1).last() == rc[i as int]@);
        push_new(&mut out, &rc[i]);
        i = i + 1;
    }
    let mut j: usize = 0;
    while j < cli.len()
        invariant
            j <= cli@.len(),
            n == rc@.len(),
            all == rc.deep_view() + cli.deep_view(),
            out.deep_view() == distinct_names(all.take(n + j)),
        decreases cli@.len() - j,
    {
        assert(all.take(n + j + 1).drop_last() =~= all.take(n + j));
        assert(all.take(n + j + 1).last() == cli[j as int]@);
        push_new(&mut out, &cli[j]);
        j = j + 1;
    }
    assert(all.take(n + j) =~= all);
    out
}

/// The setting in force: the command line's when it gives one, else
/// `.lockpickrc`'s.
pub open spec fn preferred<T>(cli: Option<T>, rc: Option<T>) -> Option<T> {
    match cli {
        Some(_) => cli,
        None => rc,
    }
}

/// The setting in force (language, registry, output format): the command
/// line's when it gives one, else `.lockpickrc`'s.
pub fn prefer_cli<T>(cli: Option<T>, rc: Option<T>) -> (r: Option<T>)
    ensures
        r == preferred(cli, rc),
{
    match cli {
        Some(v) => Some(v),
        None => rc,
    }
}

/// The output format in force: the command line's, else `.lockpickrc`'s,
/// else the terminal.
pub open spec fn format_spec(cli: Option<OutputFormatConfig>, rc: Option<OutputFormatConfig>) -> OutputFormatConfig {
    match preferred(cli, rc) {
        Some(f) => f,
        None => OutputFormatConfig::Terminal,
    }
}

/// The output format in force.
pub fn effective_format(cli: Option<OutputFormatConfig>, rc: Option<OutputFormatConfig>) -> (f: OutputFormatConfig)
    ensures
        f == format_spec(cli, rc),
{
    match prefer_cli(cli, rc) {
        Some(f) => f,
        None => OutputFormatConfig::Terminal,
    }
}

/// The thresholds in force: those of the `--fail-on` level when one is
/// given, else those of `.lockpickrc`, if any.
pub open spec fn thresholds_spec(fail_on: Option<Seq<char>>, rc: Option<Thresholds>) -> Option<Thresholds> {
    match fail_on {
        Some(level) => Some(fail_on_spec(level)),
        None => rc,
    }
}

/// The thresholds in force.
pub fn effective_thresholds(fail_on: Option<&str>, rc: Option<Thresholds>) -> (t: Option<Thresholds>)
    ensures
        t == thresholds_spec(
            match fail_on {
                Some(l) => Some(l@),
                None => None,
            },
            rc,
        ),
{
    match fail_on {
        Some(level) => Some(from_fail_on(level)),
        None => rc,
    }
}

/// Whether a run fails the build: it found issues, or its result exceeds
/// the thresholds in force.
pub open spec fn fails_spec(has_issues: bool, result: Option<&AnalysisResult>, thresholds: Option<Thresholds>) -> bool {
    has_issues || match (result, thresholds) {
        (Some(r), Some(t)) => evaluate_spec(r, t),
        _ => false,
    }
}

/// Whether a run fails the build.
pub fn run_fails(has_issues: bool, result: Option<&AnalysisResult>, thresholds: Option<Thresholds>) -> (b: bool)
    requires
        result matches Some(r) ==> counts_fit(r),
    ensures
        b == fails_spec(has_issues, result, thresholds),
{
    if has_issues {
        return true;
    }
    match (result, thresholds) {
        (Some(r), Some(t)) => evaluate(r, &t),
        _ => false,
    }
}

/// The names kept by `distinct_names` are those of the list, each once.
pub proof fn lemma_distinct_names(s: Seq<Seq<char>>)
    ensures
        distinct_names(s).no_duplicates(),
        forall|x: Seq<char>| #[trigger] distinct_names(s).contains(x) <==> s.contains(x),
    decreases s.len(),
{
    if s.len() > 0 {
        let p = s.drop_last();
        lemma_distinct_names(p);
        assert forall|x: Seq<char>| #[trigger] s.contains(x) <==> p.contains(x) || x == s.last() by {
            if s.contains(x) {
                let i = choose|i: int| 0 <= i < s.len() && s[i] == x;
                if i < s.len() - 1 {
                    assert(p[i] == x);
                }
            }
            if p.contains(x) {
                let i = choose|i: int| 0 <= i < p.len() && p[i] == x;
                assert(s[i] == x);
            }
            if x == s.last() {
                assert(s[s.len() - 1] == x);
            }
        }
        let d = distinct_names(p);
        if !d.contains(s.last()) {
            let e = d.push(s.last());
            assert forall|x: Seq<char>| #[trigger] e.contains(x) <==> d.contains(x) || x == s.last() by {
                if e.contains(x) {
                    let i = choose|i: int| 0 <= i < e.len() && e[i] == x;
                    if i < d.len() {
                        assert(d[i] == x);
                    }
                }
                if d.contains(x) {
                    let i = choose|i: int| 0 <= i < d.len() && d[i] == x;
                    assert(e[i] == x);
                }
                if x == s.last() {
                    assert(e[e.len() - 1] == x);
                }
            }
        }
    }
}

/// Command-line settings override those of `.lockpickrc`: a format, a
/// language or a registry given on the command line is the one in force
/// whatever the file says, and so are the thresholds of a `--fail-on`
/// level; without them the file's settings stand. The ignore lists are not
/// overridden but joined: a package named in either is ignored, and each
/// is listed once.
pub proof fn law_command_line_overrides_config<T>(
    cli: Option<T>,
    rc: Option<T>,
    cli_format: Option<OutputFormatConfig>,
    rc_format: Option<OutputFormatConfig>,
    fail_on: Option<Seq<char>>,
    rc_thresholds: Option<Thresholds>,
    rc_ignore: Seq<Seq<char>>,
    cli_ignore: Seq<Seq<char>>,
)
    ensures
        cli is Some ==> preferred(cli, rc) == cli,
        cli is None ==> preferred(cli, rc) == rc,
        cli_format matches Some(f) ==> format_spec(cli_format, rc_format) == f,
        cli_format is None ==> format_spec(cli_format, rc_format) == match rc_format {
            Some(f) => f,
            None => OutputFormatConfig::Terminal,
        },
        fail_on matches Some(l) ==> thresholds_spec(fail_on, rc_thresholds) == Some(fail_on_spec(l)),
        fail_on is None ==> thresholds_spec(fail_on, rc_thresholds) == rc_thresholds,
        forall|x: Seq<char>| #[trigger] distinct_names(rc_ignore + cli_ignore).contains(x) <==> (rc_ignore.contains(x)
            || cli_ignore.contains(x)),
        distinct_names(rc_ignore + cli_ignore).no_duplicates(),
{
    let all = rc_ignore + cli_ignore;
    lemma_distinct_names(all);
    assert forall|x: Seq<char>| #[trigger] all.contains(x) <==> (rc_ignore.contains(x) || cli_ignore.contains(x)) by {
        if all.contains(x) {
            let i = choose|i: int| 0 <= i < all.len() && all[i] == x;
            if i < rc_ignore.len() {
                assert(rc_ignore[i] == x);
            } else {
                assert(cli_ignore[i - rc_ignore.len()] == x);
            }
        }
        if rc_ignore.contains(x) {
            let i = choose|i: int| 0 <= i < rc_ignore.len() && rc_ignore[i] == x;
            assert(all[i] == x);
        }
        if cli_ignore.contains(x) {
            let i = choose|i: int| 0 <= i < cli_ignore.len() && cli_ignore[i] == x;
            assert(all[rc_ignore.len() + i] == x);
        }
    }
}

} // verus!
