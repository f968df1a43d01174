//! Package names referenced by the commands of package.json scripts.
use vstd::prelude::*;

use crate::json::{as_object, as_str, field, get_field, json_document, members_of, parse_json, str_of, JsonValue};
use crate::text::{chars_of, is_whitespace, is_ws, lines, lines_of, str_eq, string_of, trim, trim_chars};

verus! {

/// The command-line tools whose use marks a package as used, with that
/// package.
pub open spec fn cli_packages() -> Seq<(Seq<char>, Seq<char>)> {
    seq![
        ("tsc"@, "typescript"@),
        ("tsup"@, "tsup"@),
        ("tsx"@, "tsx"@),
        ("vitest"@, "vitest"@),
        ("jest"@, "jest"@),
        ("mocha"@, "mocha"@),
        ("eslint"@, "eslint"@),
        ("prettier"@, "prettier"@),
        ("webpack"@, "webpack"@),
        ("rollup"@, "rollup"@),
        ("esbuild"@, "esbuild"@),
        ("vite"@, "vite"@),
        ("next"@, "next"@),
        ("nuxt"@, "nuxt"@),
        ("tailwindcss"@, "tailwindcss"@),
        ("postcss"@, "postcss"@),
        ("nodemon"@, "nodemon"@),
        ("ts-node"@, "ts-node"@),
        ("cross-env"@, "cross-env"@),
        ("rimraf"@, "rimraf"@),
        ("concurrently"@, "concurrently"@),
        ("lint-staged"@, "lint-staged"@),
        ("husky"@, "husky"@),
        ("commitlint"@, "commitlint"@),
        ("typedoc"@, "typedoc"@),
        ("tsc-alias"@, "tsc-alias"@),
        ("turbo"@, "turbo"@),
        ("turbo-run"@, "@vben/turbo-run"@)
    ]
}

/// The tool → package table.
fn cli_to_package() -> (v: Vec<(&'static str, &'static str)>)
    ensures
        v@.len() == cli_packages().len(),
        forall|i: int| 0 <= i < v@.len() ==> (#[trigger] v@[i]).0@ == cli_packages()[i].0 && v@[i].1@ == cli_packages()[i].1,
{
    vec![
        ("tsc", "typescript"),
        ("tsup", "tsup"),
        ("tsx", "tsx"),
        ("vitest", "vitest"),
        ("jest", "jest"),
        ("mocha", "mocha"),
        ("eslint", "eslint"),
        ("prettier", "prettier"),
        ("webpack", "webpack"),
        ("rollup", "rollup"),
        ("esbuild", "esbuild"),
        ("vite", "vite"),
        ("next", "next"),
        ("nuxt", "nuxt"),
        ("tailwindcss", "tailwindcss"),
        ("postcss", "postcss"),
        ("nodemon", "nodemon"),
        ("ts-node", "ts-node"),
        ("cross-env", "cross-env"),
        ("rimraf", "rimraf"),
        ("concurrently", "concurrently"),
        ("lint-staged", "lint-staged"),
        ("husky", "husky"),
        ("commitlint", "commitlint"),
        ("typedoc", "typedoc"),
        ("tsc-alias", "tsc-alias"),
        ("turbo", "turbo"),
        ("turbo-run", "@vben/turbo-run"),
    ]
}

/// Runners and shell commands, skipped when looking for the real tool.
pub open spec fn skip_commands() -> Seq<Seq<char>> {
    seq![
        "node"@,
        "npx"@,
        "npm"@,
        "yarn"@,
        "pnpm"@,
        "run"@,
        "exec"@,
        "env"@,
        "sh"@,
        "bash"@,
        "echo"@,
        "cd"@,
        "rm"@,
        "cp"@,
        "mkdir"@,
        "cat"@,
        "exit"@,
        "true"@,
        "false"@,
        "test"@
    ]
}

/// The runner table.
fn skip_table() -> (v: Vec<&'static str>)
    ensures
        v@.len() == skip_commands().len(),
        forall|i: int| 0 <= i < v@.len() ==> #[trigger] v@[i]@ == skip_commands()[i],
{
    vec![
        "node",
        "npx",
        "npm",
        "yarn",
        "pnpm",
        "run",
        "exec",
        "env",
        "sh",
        "bash",
        "echo",
        "cd",
        "rm",
        "cp",
        "mkdir",
        "cat",
        "exit",
        "true",
        "false",
        "test",
    ]
}

/// The whitespace-separated tokens of `s` found so far, and the token
/// being read at its end.
pub open spec fn ws_split(s: Seq<char>) -> (Seq<Seq<char>>, Seq<char>)
    decreases s.len(),
{
    if s.len() == 0 {
        (Seq::empty(), Seq::empty())
    } else {
        let (ts, cur) = ws_split(s.drop_last());
        if is_ws(s.last()) {
            if cur.len() > 0 {
                (ts.push(cur), Seq::empty())
            } else {
                (ts, Seq::empty())
            }
        } else {
            (ts, cur.push(s.last()))
        }
    }
}

/// The whitespace-separated tokens of `s` (`str::split_whitespace`).
pub open spec fn ws_tokens(s: Seq<char>) -> Seq<Seq<char>> {
    let (ts, cur) = ws_split(s);
    if cur.len() > 0 {
        ts.push(cur)
    } else {
        ts
    }
}

/// A token that is not the tool: an environment assignment, a flag or a
/// runner.
pub open spec fn skipped_token(t: Seq<char>) -> bool {
    let flag = t.len() > 0 && t[0] == '-';
    (t.contains('=') && !flag) || flag || skip_commands().contains(t)
}

/// The first token of `ts[i..]` that is not skipped.
pub open spec fn first_command(ts: Seq<Seq<char>>, i: int) -> Option<Seq<char>>
    decreases ts.len() - i,
{
    if i < 0 || i >= ts.len() {
        None
    } else if skipped_token(ts[i]) {
        first_command(ts, i + 1)
    } else {
        Some(ts[i])
    }
}

/// The tool a command segment runs.
pub open spec fn segment_command(segment: Seq<char>) -> Option<Seq<char>> {
    first_command(ws_tokens(segment), 0)
}

/// The tokens of `s`.
fn split_whitespace(s: &[char]) -> (r: Vec<Vec<char>>)
    ensures
        r.deep_view() == ws_tokens(s@),
{
    let mut ts: Vec<Vec<char>> = Vec::new();
    let mut cur: Vec<char> = Vec::new();
    let mut i: usize = 0;
    while i < s.len()
        invariant
            i <= s.len(),
            (ts.deep_view(), cur@) == ws_split(s@.take(i as int)),
        decreases s.len() - i,
    {
        assert(s@.take(i + 1).drop_last() =~= s@.take(i as int));
        assert(s@.take(i + 1).last() == s@[i as int]);
        if is_whitespace(s[i]) {
            if cur.len() > 0 {
                let ghost before = ts.deep_view();
                let done = cur;
                cur = Vec::new();
                ts.push(done);
                assert(ts.deep_view() =~= before.push(done@)) by {
                    assert(done.deep_view() =~= done@);
                }
            } else {
                cur = Vec::new();
            }
            assert(cur@ =~= Seq::<char>::empty());
        } else {
            cur.push(s[i]);
        }
        i = i + 1;
    }
    assert(s@.take(s.len() as int) =~= s@);
    if cur.len() > 0 {
        let ghost before = ts.deep_view();
        let done = cur;
        ts.push(done);
        assert(ts.deep_view() =~= before.push(done@)) by {
            assert(done.deep_view() =~= done@);
        }
    }
    ts
}

/// Whether a token names a runner.
fn is_skip_command(t: &[char]) -> (b: bool)
    ensures
        b == skip_commands().contains(t@),
{
    let table = skip_table();
    let mut i: usize = 0;
    while i < table.len()
        invariant
            i <= table@.len(),
            table@.len() == skip_commands().len(),
            forall|k: int| 0 <= k < table@.len() ==> #[trigger] table@[k]@ == skip_commands()[k],
            forall|k: int| 0 <= k < i ==> skip_commands()[k] != t@,
        decreases table@.len() - i,
    {
        let e = chars_of(table[i]);
        if crate::text::chars_eq(e.as_slice(), t) {
            assert(skip_commands()[i as int] == t@);
            return true;
        }
        i = i + 1;
    }
    false
}

/// Extracts the first meaningful command token from a single command
/// segment, skipping environment assignments (`KEY=val`), flags (`--foo`)
/// and runner commands.
pub fn extract_command_from_segment(segment: &str) -> (r: Option<String>)
    ensures
        match segment_command(segment@) {
            Some(c) => r matches Some(s) && s@ == c,
            None => r is None,
        },
{
    let cs = chars_of(segment);
    let tokens = split_whitespace(cs.as_slice());
    let ghost ts = ws_tokens(segment@);
    let mut i: usize = 0;
    while i < tokens.len()
        invariant
            i <= tokens@.len(),
            ts == tokens.deep_view(),
            ts == ws_tokens(segment@),
            first_command(ts, 0) == first_command(ts, i as int),
        decreases tokens@.len() - i,
    {
        let t = &tokens[i];
        assert(ts[i as int] == t@) by {
            assert(t.deep_view() =~= t@);
        }
        let flag = t.len() > 0 && t[0] == '-';
        let has_eq = crate::text::has_char(t.as_slice(), '=');
        assert(flag == (t@.len() > 0 && t@[0] == '-'));
        if (has_eq && !flag) || flag || is_skip_command(t.as_slice()) {
            i = i + 1;
        } else {
            return Some(string_of(t.as_slice()));
        }
    }
    None
}

/// `s` with every `cc` (two `c` in a row, read left to right) replaced by a
/// newline.
pub open spec fn replace_double(s: Seq<char>, c: char) -> Seq<char>
    decreases s.len(),
{
    if s.len() == 0 {
        Seq::empty()
    } else if s.len() >= 2 && s[0] == c && s[1] == c {
        seq!['\n'] + replace_double(s.skip(2), c)
    } else {
        seq![s[0]] + replace_double(s.drop_first(), c)
    }
}

/// A script with its chain operators (`&&`, `||`, `;`, `|`) turned into
/// line breaks.
pub open spec fn chain_split(s: Seq<char>) -> Seq<char> {
    replace_double(replace_double(s, '&'), '|').map_values(
        |c: char|
            if c == ';' || c == '|' {
                '\n'
            } else {
                c
            },
    )
}

/// The tools of the segments `segs[..n]`, in order.
pub open spec fn segment_commands(segs: Seq<Seq<char>>) -> Seq<Seq<char>>
    decreases segs.len(),
{
    if segs.len() == 0 {
        Seq::empty()
    } else {
        let rest = segment_commands(segs.drop_last());
        match segment_command(trim(segs.last())) {
            Some(c) => rest.push(c),
            None => rest,
        }
    }
}

/// The tools a script value runs, segment by segment.
pub open spec fn script_commands(script: Seq<char>) -> Seq<Seq<char>> {
    segment_commands(lines(chain_split(script)))
}

/// Replaces each `cc` by a newline.
fn replace_double_exec(s: &[char], c: char) -> (r: Vec<char>)
    ensures
        r@ == replace_double(s@, c),
{
    let mut out: Vec<char> = Vec::new();
    let mut i: usize = 0;
    assert(s@.skip(0) =~= s@);
    while i < s.len()
        invariant
            i <= s.len(),
            out@ + replace_double(s@.skip(i as int), c) == replace_double(s@, c),
        decreases s.len() - i,
    {
        let ghost rest = s@.skip(i as int);
        if i + 1 < s.len() && s[i] == c && s[i + 1] == c {
            assert(rest.skip(2) =~= s@.skip(i + 2));
            out.push('\n');
            assert(out@ + replace_double(s@.skip(i + 2), c) =~= replace_double(s@, c)) by {
                assert(replace_double(rest, c) == seq!['\n'] + replace_double(rest.skip(2), c));
            }
            i = i + 2;
        } else {
            assert(rest.drop_first() =~= s@.skip(i + 1));
            out.push(s[i]);
            assert(out@ + replace_double(s@.skip(i + 1), c) =~= replace_double(s@, c)) by {
                assert(replace_double(rest, c) == seq![s@[i as int]] + replace_double(
                    rest.drop_first(),
                    c,
                ));
            }
            i = i + 1;
        }
    }
    assert(s@.skip(i as int) =~= Seq::<char>::empty());
    assert(out@ + Seq::<char>::empty() =~= out@);
    out
}

/// Splits a script value by chain operators (`&&`, `||`, `;`, `|`) and
/// extracts the tool of each segment.
pub fn extract_commands(script_value: &str) -> (r: Vec<String>)
    ensures
        r.deep_view() == script_commands(script_value@),
{
    let cs = chars_of(script_value);
    let a = replace_double_exec(cs.as_slice(), '&');
    let b = replace_double_exec(a.as_slice(), '|');
    let mut normalized: Vec<char> = Vec::new();
    let mut i: usize = 0;
    while i < b.len()
        invariant
            i <= b@.len(),
            b@ == replace_double(replace_double(script_value@, '&'), '|'),
            normalized@ == b@.take(i as int).map_values(
                |c: char|
                    if c == ';' || c == '|' {
                        '\n'
                    } else {
                        c
                    },
            ),
        decreases b@.len() - i,
    {
        if b[i] == ';' || b[i] == '|' {
            normalized.push('\n');
        } else {
            normalized.push(b[i]);
        }
        i = i + 1;
        assert(normalized@ =~= b@.take(i as int).map_values(
            |c: char|
                if c == ';' || c == '|' {
                    '\n'
                } else {
                    c
                },
        ));
    }
    assert(b@.take(b@.len() as int) =~= b@);
    assert(normalized@ == chain_split(script_value@));
    let segs = lines_of(normalized.as_slice());
    let ghost sv = lines(chain_split(script_value@));
    let mut out: Vec<String> = Vec::new();
    let mut k: usize = 0;
    while k < segs.len()
        invariant
            k <= segs@.len(),
            segs@.len() == sv.len(),
            forall|q: int| 0 <= q < segs@.len() ==> #[trigger] segs@[q]@ == sv[q],
            out.deep_view() == segment_commands(sv.take(k as int)),
        decreases segs@.len() - k,
    {
        assert(sv.take(k + 1).drop_last() =~= sv.take(k as int));
        assert(sv.take(k + 1).last() == sv[k as int]);
        let seg = trim_chars(segs[k].as_slice());
        let seg_s = string_of(seg.as_slice());
        match extract_command_from_segment(seg_s.as_str()) {
            Some(c) => {
                let ghost before = out.deep_view();
                out.push(c);
                assert(out.deep_view() =~= before.push(c@));
            },
            None => {},
        }
        k = k + 1;
    }
    assert(sv.take(sv.len() as int) =~= sv);
    out
}

/// The package a tool belongs to, if it is a known tool.
pub open spec fn tool_package(tool: Seq<char>) -> Option<Seq<char>> {
    tool_package_from(cli_packages(), tool)
}

/// The package of `tool` in a table.
pub open spec fn tool_package_from(table: Seq<(Seq<char>, Seq<char>)>, tool: Seq<char>) -> Option<
    Seq<char>,
>
    decreases table.len(),
{
    if table.len() == 0 {
        None
    } else if table[0].0 == tool {
        Some(table[0].1)
    } else {
        tool_package_from(table.drop_first(), tool)
    }
}

/// The package of a tool.
fn package_for_tool(tool: &str) -> (r: Option<&'static str>)
    ensures
        match tool_package(tool@) {
            Some(p) => r matches Some(s) && s@ == p,
            None => r is None,
        },
{
    let table = cli_to_package();
    let ghost t = cli_packages();
    let mut i: usize = 0;
    assert(t.skip(0) =~= t);
    while i < table.len()
        invariant
            i <= table@.len(),
            table@.len() == t.len(),
            t == cli_packages(),
            forall|k: int| 0 <= k < table@.len() ==> (#[trigger] table@[k]).0@ == t[k].0 && table@[k].1@ == t[k].1,
            tool_package(tool@) == tool_package_from(t.skip(i as int), tool@),
        decreases table@.len() - i,
    {
        let (name, pkg) = table[i];
        assert((name@, pkg@) == t[i as int]);
        assert(t.skip(i as int)[0] == t[i as int]);
        assert(t.skip(i as int).drop_first() =~= t.skip(i + 1));
        if str_eq(name, tool) {
            return Some(pkg);
        }
        i = i + 1;
    }
    None
}

/// The packages the tools of `cmds` belong to, added to `acc` when new.
pub open spec fn add_packages(acc: Seq<Seq<char>>, cmds: Seq<Seq<char>>) -> Seq<Seq<char>>
    decreases cmds.len(),
{
    if cmds.len() == 0 {
        acc
    } else {
        let a = add_packages(acc, cmds.drop_last());
        match tool_package(cmds.last()) {
            Some(p) => if a.contains(p) {
                a
            } else {
                a.push(p)
            },
            None => a,
        }
    }
}

/// The packages the string-valued scripts among `ms` use, each once, in
/// order of first use.
pub open spec fn scripts_packages(ms: Seq<(String, JsonValue)>) -> Seq<Seq<char>>
    decreases ms.len(),
{
    if ms.len() == 0 {
        Seq::empty()
    } else {
        let acc = scripts_packages(ms.drop_last());
        match str_of(ms.last().1) {
            Some(s) => add_packages(acc, script_commands(s)),
            None => acc,
        }
    }
}

/// The packages the scripts of a package.json text use; none when the text
/// is not JSON.
pub open spec fn script_packages_of(text: Seq<char>) -> Seq<Seq<char>> {
    match json_document(text) {
        Ok(doc) => scripts_packages(members_of(field(doc, "scripts"@))),
        Err(_) => Seq::empty(),
    }
}

/// Whether `name` is among `names`.
fn has_name(names: &Vec<String>, name: &str) -> (b: bool)
    ensures
        b == names.deep_view().contains(name@),
{
    crate::scanner::unused::is_used(names.as_slice(), name)
}

/// The package names the scripts of a package.json text reference, each
/// once.
pub fn script_deps_from_json(content: &str) -> (r: Vec<String>)
    ensures
        r.deep_view() == script_packages_of(content@),
{
    let mut deps: Vec<String> = Vec::new();
    let doc = match parse_json(content) {
        Ok(d) => d,
        Err(_) => {
            assert(deps.deep_view() =~= Seq::<Seq<char>>::empty());
            return deps;
        },
    };
    let empty: Vec<(String, JsonValue)> = Vec::new();
    let scripts = match get_field(&doc, "scripts") {
        Some(s) => match as_object(s) {
            Some(ms) => ms,
            None => &empty,
        },
        None => &empty,
    };
    let ghost ms = scripts@;
    assert(ms == members_of(field(doc, "scripts"@)));
    assert(deps.deep_view() =~= scripts_packages(ms.take(0)));
    let mut j: usize = 0;
    while j < scripts.len()
        invariant
            j <= ms.len(),
            ms == scripts@,
            deps.deep_view() == scripts_packages(ms.take(j as int)),
        decreases ms.len() - j,
    {
        assert(ms.take(j + 1).drop_last() =~= ms.take(j as int));
        assert(ms.take(j + 1).last() == ms[j as int]);
        match as_str(&scripts[j].1) {
            Some(val) => {
                let cmds = extract_commands(val);
                let ghost acc0 = deps.deep_view();
                let ghost cv = cmds.deep_view();
                let mut k: usize = 0;
                assert(cv.take(0) =~= Seq::<Seq<char>>::empty());
                while k < cmds.len()
                    invariant
                        k <= cv.len(),
                        cv == cmds.deep_view(),
                        deps.deep_view() == add_packages(acc0, cv.take(k as int)),
                    decreases cv.len() - k,
                {
                    assert(cv.take(k + 1).drop_last() =~= cv.take(k as int));
                    assert(cmds@[k as int]@ == cv[k as int]);
                    match package_for_tool(cmds[k].as_str()) {
                        Some(p) => {
                            if !has_name(&deps, p) {
                                let ghost before = deps.deep_view();
                                deps.push(p.to_string());
                                assert(deps.deep_view() =~= before.push(p@));
                            }
                        },
                        None => {},
                    }
                    k = k + 1;
                }
                assert(cv.take(cv.len() as int) =~= cv);
            },
            None => {},
        }
        j = j + 1;
    }
    assert(ms.take(ms.len() as int) =~= ms);
    deps
}

} // verus!
