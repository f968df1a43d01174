//! Packages referenced by configuration files (ESLint, Babel, PostCSS,
//! TypeScript, Stylelint, and JS config modules).
//!
//! The files are read by the caller; this module decides what they
//! reference.
use vstd::prelude::*;

use crate::json::{
    as_str, get_field, json_document, parse_json, parse_yml, str_of, yml_document, JsonValue, field,
};
use crate::text::{
    chars_of, ends_with, push_chars, push_str, split_chars, split_on, starts_with, starts_with_str,
    string_of, sub_chars, trim, trim_char, trim_char_exec, trim_chars,
};
use crate::utils::{strip_jsonc, strip_jsonc_comments};

verus! {

/// The JS/TS configuration files whose imports count as uses, in the
/// order they are looked for.
pub open spec fn js_config_names() -> Seq<Seq<char>> {
    seq![
        "eslint.config.js"@,
        "eslint.config.mjs"@,
        "eslint.config.cjs"@,
        "eslint.config.ts"@,
        "tailwind.config.js"@,
        "tailwind.config.ts"@,
        "tailwind.config.mjs"@,
        "tailwind.config.cjs"@,
        "vite.config.js"@,
        "vite.config.ts"@,
        "vite.config.mjs"@,
        "next.config.js"@,
        "next.config.mjs"@,
        "next.config.ts"@,
        "next.config.cjs"@,
        "webpack.config.js"@,
        "webpack.config.ts"@,
        "babel.config.js"@,
        "babel.config.cjs"@,
        "babel.config.mjs"@,
        "babel.config.ts"@,
        "postcss.config.js"@,
        "postcss.config.cjs"@,
        "postcss.config.mjs"@,
        "postcss.config.ts"@,
        "jest.config.js"@,
        "jest.config.ts"@,
        "jest.config.mjs"@,
        "jest.config.cjs"@,
        "vitest.config.js"@,
        "vitest.config.ts"@,
        "vitest.config.mts"@,
        "vitest.config.mjs"@,
        "vitest.config.cjs"@,
        "rollup.config.js"@,
        "rollup.config.ts"@,
        "rollup.config.mjs"@,
        "tsup.config.ts"@,
        "tsup.config.js"@,
        "stylelint.config.js"@,
        "stylelint.config.mjs"@,
        "stylelint.config.cjs"@,
    ]
}

/// The JS/TS configuration files whose imports count as uses.
pub fn js_config_files() -> (v: Vec<&'static str>)
    ensures
        strs(v@) == js_config_names(),
{
    let v = vec![
        "eslint.config.js",
        "eslint.config.mjs",
        "eslint.config.cjs",
        "eslint.config.ts",
        "tailwind.config.js",
        "tailwind.config.ts",
        "tailwind.config.mjs",
        "tailwind.config.cjs",
        "vite.config.js",
        "vite.config.ts",
        "vite.config.mjs",
        "next.config.js",
        "next.config.mjs",
        "next.config.ts",
        "next.config.cjs",
        "webpack.config.js",
        "webpack.config.ts",
        "babel.config.js",
        "babel.config.cjs",
        "babel.config.mjs",
        "babel.config.ts",
        "postcss.config.js",
        "postcss.config.cjs",
        "postcss.config.mjs",
        "postcss.config.ts",
        "jest.config.js",
        "jest.config.ts",
        "jest.config.mjs",
        "jest.config.cjs",
        "vitest.config.js",
        "vitest.config.ts",
        "vitest.config.mts",
        "vitest.config.mjs",
        "vitest.config.cjs",
        "rollup.config.js",
        "rollup.config.ts",
        "rollup.config.mjs",
        "tsup.config.ts",
        "tsup.config.js",
        "stylelint.config.js",
        "stylelint.config.mjs",
        "stylelint.config.cjs",
    ];
    assert(strs(v@) =~= js_config_names());
    v
}

/// A JS/TS configuration file as read from disk, with the packages its
/// import statements name.
#[derive(Debug, Clone)]
pub struct JsConfigSource {
    pub filename: String,
    pub source: String,
    pub imports: Vec<String>,
}

/// What a JSON/YAML configuration rule looks at: the files it applies to,
/// the fields that list packages, and the prefixes short names expand with.
#[derive(Debug)]
pub struct JsonConfigRule {
    pub filenames: Vec<&'static str>,
    pub fields: Vec<&'static str>,
    pub prefixes: Vec<&'static str>,
}

/// The string slices of a table, as character sequences.
pub open spec fn strs(v: Seq<&'static str>) -> Seq<Seq<char>> {
    v.map_values(|s: &'static str| s@)
}

/// The fields and prefixes of each JSON configuration rule.
pub open spec fn rule_specs() -> Seq<(Seq<Seq<char>>, Seq<Seq<char>>)> {
    seq![
        (seq!["extends"@, "plugins"@], seq!["eslint-plugin-"@, "eslint-config-"@]),
        (
            seq!["presets"@, "plugins"@],
            seq!["babel-plugin-"@, "babel-preset-"@, "@babel/plugin-"@, "@babel/preset-"@],
        ),
        (seq!["plugins"@], Seq::empty()),
        (seq!["extends"@], Seq::empty()),
        (seq!["extends"@, "plugins"@], seq!["stylelint-"@])
    ]
}

/// The files each JSON/YAML configuration rule applies to, rule by rule.
pub open spec fn rule_files() -> Seq<Seq<Seq<char>>> {
    seq![
        seq![".eslintrc.json"@, ".eslintrc.yml"@, ".eslintrc.yaml"@],
        seq![".babelrc"@, ".babelrc.json"@],
        seq![".postcssrc"@, ".postcssrc.json"@],
        seq!["tsconfig.json"@],
        seq![".stylelintrc"@, ".stylelintrc.json"@, ".stylelintrc.yml"@, ".stylelintrc.yaml"@]
    ]
}

/// The JSON/YAML configuration rules, in the order they are applied.
pub fn json_config_rules() -> (v: Vec<JsonConfigRule>)
    ensures
        v@.len() == rule_specs().len(),
        forall|i: int| 0 <= i < v@.len() ==> strs((#[trigger] v@[i]).filenames@) == rule_files()[i],
        forall|i: int|
            0 <= i < v@.len() ==> strs((#[trigger] v@[i]).fields@) == rule_specs()[i].0 && strs(
                v@[i].prefixes@,
            ) == rule_specs()[i].1,
{
    let v = vec![
        JsonConfigRule {
            filenames: vec![".eslintrc.json", ".eslintrc.yml", ".eslintrc.yaml"],
            fields: vec!["extends", "plugins"],
            prefixes: vec!["eslint-plugin-", "eslint-config-"],
        },
        JsonConfigRule {
            filenames: vec![".babelrc", ".babelrc.json"],
            fields: vec!["presets", "plugins"],
            prefixes: vec!["babel-plugin-", "babel-preset-", "@babel/plugin-", "@babel/preset-"],
        },
        JsonConfigRule {
            filenames: vec![".postcssrc", ".postcssrc.json"],
            fields: vec!["plugins"],
            prefixes: vec![],
        },
        JsonConfigRule { filenames: vec!["tsconfig.json"], fields: vec!["extends"], prefixes: vec![] },
        JsonConfigRule {
            filenames: vec![".stylelintrc", ".stylelintrc.json", ".stylelintrc.yml", ".stylelintrc.yaml"],
            fields: vec!["extends", "plugins"],
            prefixes: vec!["stylelint-"],
        },
    ];
    proof {
        assert(strs(v@[0].fields@) =~= rule_specs()[0].0);
        assert(strs(v@[0].prefixes@) =~= rule_specs()[0].1);
        assert(strs(v@[1].fields@) =~= rule_specs()[1].0);
        assert(strs(v@[1].prefixes@) =~= rule_specs()[1].1);
        assert(strs(v@[2].fields@) =~= rule_specs()[2].0);
        assert(strs(v@[2].prefixes@) =~= rule_specs()[2].1);
        assert(strs(v@[3].fields@) =~= rule_specs()[3].0);
        assert(strs(v@[3].prefixes@) =~= rule_specs()[3].1);
        assert(strs(v@[4].fields@) =~= rule_specs()[4].0);
        assert(strs(v@[4].prefixes@) =~= rule_specs()[4].1);
        assert(strs(v@[0].filenames@) =~= rule_files()[0]);
        assert(strs(v@[1].filenames@) =~= rule_files()[1]);
        assert(strs(v@[2].filenames@) =~= rule_files()[2]);
        assert(strs(v@[3].filenames@) =~= rule_files()[3]);
        assert(strs(v@[4].filenames@) =~= rule_files()[4]);
    }
    v
}

/// `acc` with each of `xs` appended unless already present.
pub open spec fn add_all(acc: Seq<Seq<char>>, xs: Seq<Seq<char>>) -> Seq<Seq<char>>
    decreases xs.len(),
{
    if xs.len() == 0 {
        acc
    } else {
        let a = add_all(acc, xs.drop_last());
        if a.contains(xs.last()) {
            a
        } else {
            a.push(xs.last())
        }
    }
}

/// Appends each name not yet present.
fn add_names(deps: &mut Vec<String>, xs: &Vec<String>)
    ensures
        final(deps).deep_view() == add_all(old(deps).deep_view(), xs.deep_view()),
{
    let ghost d0 = deps.deep_view();
    let ghost xv = xs.deep_view();
    let mut i: usize = 0;
    assert(xv.take(0) =~= Seq::<Seq<char>>::empty());
    while i < xs.len()
        invariant
            i <= xv.len(),
            xv == xs.deep_view(),
            deps.deep_view() == add_all(d0, xv.take(i as int)),
        decreases xv.len() - i,
    {
        assert(xv.take(i + 1).drop_last() =~= xv.take(i as int));
        assert(xs@[i as int]@ == xv[i as int]);
        if !crate::scanner::unused::is_used(deps.as_slice(), xs[i].as_str()) {
            let ghost before = deps.deep_view();
            deps.push(xs[i].clone());
            assert(deps.deep_view() =~= before.push(xv[i as int]));
        }
        i = i + 1;
    }
    assert(xv.take(xv.len() as int) =~= xv);
}

/// Appends all of `xs`.
fn append_all(out: &mut Vec<String>, xs: &Vec<String>)
    ensures
        final(out).deep_view() == old(out).deep_view() + xs.deep_view(),
{
    let ghost start = out.deep_view();
    let ghost xv = xs.deep_view();
    let mut k: usize = 0;
    while k < xs.len()
        invariant
            k <= xv.len(),
            xv == xs.deep_view(),
            out.deep_view() == start + xv.take(k as int),
        decreases xv.len() - k,
    {
        let ghost prev = out.deep_view();
        let x = xs[k].clone();
        assert(x@ == xv[k as int]);
        out.push(x);
        assert(out.deep_view() =~= prev.push(x@));
        assert(xv.take(k + 1) =~= xv.take(k as int).push(xv[k as int]));
        k = k + 1;
        assert(out.deep_view() =~= start + xv.take(k as int));
    }
    assert(xv.take(xv.len() as int) =~= xv);
}

/// The package a Stylelint `extends` entry names: `@scope/pkg` for a
/// scoped entry, else its first path segment.
pub open spec fn extends_package(e: Seq<char>) -> Seq<char> {
    let parts = split_on(e, '/');
    if starts_with(e, "@"@) {
        if parts.len() >= 2 {
            parts[0] + "/"@ + parts[1]
        } else {
            e
        }
    } else {
        parts[0]
    }
}

/// The package a Stylelint `extends` entry names.
fn extract_package_name_from_extends(extends: &[char]) -> (r: String)
    ensures
        r@ == extends_package(extends@),
{
    let parts = split_chars(extends, '/');
    proof {
        crate::text::lemma_split_on_nonempty(extends@, '/');
    }
    if starts_with_str(extends, "@") {
        if parts.len() >= 2 {
            let mut s = string_of(parts[0].as_slice());
            push_str(&mut s, "/");
            push_chars(&mut s, parts[1].as_slice());
            s
        } else {
            string_of(extends)
        }
    } else {
        string_of(parts[0].as_slice())
    }
}

/// What the first group of each match of `pattern` in `text` captured, in
/// order (none for a match where the group took no part); nothing when
/// `pattern` is not a valid regular expression.
pub uninterp spec fn regex_groups(pattern: Seq<char>, text: Seq<char>) -> Seq<Option<Seq<char>>>;

/// `regex::Regex::new(pattern)` then `captures_iter(text)`, each capture
/// giving its first group; the result is `regex_groups` of the arguments.
#[verifier::external_body]
fn capture_groups(pattern: &str, text: &str) -> (r: Vec<Option<String>>)
    ensures
        r.deep_view() == regex_groups(pattern@, text@),
{
    match regex::Regex::new(pattern) {
        Ok(re) => re.captures_iter(text).map(|c| c.get(1).map(|m| m.as_str().to_string())).collect(),
        Err(_) => Vec::new(),
    }
}

/// The patterns that find `extends` lists in a Stylelint JS config.
pub open spec fn extends_patterns() -> Seq<Seq<char>> {
    seq![
        "extends\\s*:\\s*\\[([^\\]]+)\\]"@,
        "extends\\s*:\\s*\\x22([^\\x22]+)\\x22"@,
        "extends\\s*:\\s*'([^']+)'"@
    ]
}

/// An `extends` list entry with blanks and quotes removed.
pub open spec fn extends_entry(piece: Seq<char>) -> Seq<char> {
    trim_char(trim_char(trim(piece), '"'), '\'')
}

/// The packages named by the comma-separated entries of one captured
/// `extends` list (entries that are empty or relative are skipped).
pub open spec fn extends_list(pieces: Seq<Seq<char>>) -> Seq<Seq<char>>
    decreases pieces.len(),
{
    if pieces.len() == 0 {
        Seq::empty()
    } else {
        let rest = extends_list(pieces.drop_last());
        let pkg = extends_entry(pieces.last());
        if pkg.len() > 0 && !starts_with(pkg, "."@) {
            rest.push(extends_package(pkg))
        } else {
            rest
        }
    }
}

/// The packages named by captured `extends` lists.
pub open spec fn extends_captures(caps: Seq<Option<Seq<char>>>) -> Seq<Seq<char>>
    decreases caps.len(),
{
    if caps.len() == 0 {
        Seq::empty()
    } else {
        extends_captures(caps.drop_last()) + match caps.last() {
            Some(c) => extends_list(split_on(c, ',')),
            None => Seq::empty(),
        }
    }
}

/// The packages a Stylelint JS config extends, each once, by pattern.
pub open spec fn extends_of(source: Seq<char>) -> Seq<Seq<char>> {
    add_all(
        add_all(
            add_all(Seq::empty(), extends_captures(regex_groups(extends_patterns()[0], source))),
            extends_captures(regex_groups(extends_patterns()[1], source)),
        ),
        extends_captures(regex_groups(extends_patterns()[2], source)),
    )
}

/// The packages one captured `extends` list names.
fn extends_from_capture(content: &str) -> (r: Vec<String>)
    ensures
        r.deep_view() == extends_list(split_on(content@, ',')),
{
    let cs = chars_of(content);
    let pieces = split_chars(cs.as_slice(), ',');
    let ghost ps = split_on(content@, ',');
    let mut out: Vec<String> = Vec::new();
    let mut i: usize = 0;
    assert(out.deep_view() =~= extends_list(ps.take(0)));
    while i < pieces.len()
        invariant
            i <= pieces@.len(),
            pieces@.len() == ps.len(),
            forall|k: int| 0 <= k < pieces@.len() ==> #[trigger] pieces@[k]@ == ps[k],
            out.deep_view() == extends_list(ps.take(i as int)),
        decreases pieces@.len() - i,
    {
        assert(ps.take(i + 1).drop_last() =~= ps.take(i as int));
        assert(ps.take(i + 1).last() == ps[i as int]);
        let t = trim_chars(pieces[i].as_slice());
        let u = trim_char_exec(t.as_slice(), '"');
        let pkg = trim_char_exec(u.as_slice(), '\'');
        if pkg.len() > 0 && !starts_with_str(pkg.as_slice(), ".") {
            let name = extract_package_name_from_extends(pkg.as_slice());
            let ghost before = out.deep_view();
            out.push(name);
            assert(out.deep_view() =~= before.push(name@));
        }
        i = i + 1;
    }
    assert(ps.take(ps.len() as int) =~= ps);
    out
}

/// The packages named by the captures of one pattern.
fn extends_for_pattern(source: &str, pattern: &str) -> (r: Vec<String>)
    ensures
        r.deep_view() == extends_captures(regex_groups(pattern@, source@)),
{
    let caps = capture_groups(pattern, source);
    let ghost cv = caps.deep_view();
    let mut out: Vec<String> = Vec::new();
    let mut i: usize = 0;
    assert(out.deep_view() =~= extends_captures(cv.take(0)));
    while i < caps.len()
        invariant
            i <= cv.len(),
            cv == caps.deep_view(),
            cv == regex_groups(pattern@, source@),
            out.deep_view() == extends_captures(cv.take(i as int)),
        decreases cv.len() - i,
    {
        assert(cv.take(i + 1).drop_last() =~= cv.take(i as int));
        assert(cv.take(i + 1).last() == cv[i as int]);
        assert(caps@[i as int].deep_view() == cv[i as int]);
        match &caps[i] {
            Some(c) => {
                let names = extends_from_capture(c.as_str());
                append_all(&mut out, &names);
            },
            None => {
                assert(out.deep_view() =~= out.deep_view() + Seq::<Seq<char>>::empty());
            },
        }
        i = i + 1;
    }
    assert(cv.take(cv.len() as int) =~= cv);
    out
}

/// The packages a Stylelint JS config extends, each once.
fn extract_extends_from_js_config(source: &str) -> (r: Vec<String>)
    ensures
        r.deep_view() == extends_of(source@),
{
    let patterns: Vec<&'static str> = vec![
        "extends\\s*:\\s*\\[([^\\]]+)\\]",
        "extends\\s*:\\s*\\x22([^\\x22]+)\\x22",
        "extends\\s*:\\s*'([^']+)'",
    ];
    assert(patterns@[0]@ == extends_patterns()[0]);
    assert(patterns@[1]@ == extends_patterns()[1]);
    assert(patterns@[2]@ == extends_patterns()[2]);
    let mut deps: Vec<String> = Vec::new();
    assert(deps.deep_view() =~= Seq::<Seq<char>>::empty());
    let a = extends_for_pattern(source, patterns[0]);
    add_names(&mut deps, &a);
    let b = extends_for_pattern(source, patterns[1]);
    add_names(&mut deps, &b);
    let c = extends_for_pattern(source, patterns[2]);
    add_names(&mut deps, &c);
    deps
}

/// The base name of a configured plugin or preset: the part after
/// `plugin:` up to its first `/`, and for a scoped name its first two path
/// segments.
pub open spec fn plugin_base(short_name: Seq<char>) -> Seq<char> {
    let name = if starts_with(short_name, "plugin:"@) {
        split_on(short_name.skip(7), '/')[0]
    } else {
        short_name
    };
    let parts = split_on(name, '/');
    if starts_with(name, "@"@) && parts.len() >= 2 {
        parts[0] + "/"@ + parts[1]
    } else {
        name
    }
}

/// Whether `name` starts with one of `prefixes`.
pub open spec fn has_prefix(name: Seq<char>, prefixes: Seq<Seq<char>>) -> bool {
    exists|i: int| 0 <= i < prefixes.len() && starts_with(name, #[trigger] prefixes[i])
}

/// The package names a configured short name may stand for: the name
/// itself when it is scoped, already prefixed, or there are no prefixes;
/// otherwise each prefix followed by the name, then the name.
pub open spec fn plugin_candidates(short_name: Seq<char>, prefixes: Seq<Seq<char>>) -> Seq<Seq<char>> {
    let name = plugin_base(short_name);
    if starts_with(name, "@"@) || has_prefix(name, prefixes) || prefixes.len() == 0 {
        seq![name]
    } else {
        prefixes.map_values(|p: Seq<char>| p + name).push(name)
    }
}

/// Expands a short plugin or preset name to the package names it may
/// stand for (`react` with the ESLint prefixes gives `eslint-plugin-react`,
/// `eslint-config-react` and `react`).
pub fn expand_plugin_name(short_name: &str, prefixes: &[&str]) -> (r: Vec<String>)
    ensures
        r.deep_view() == plugin_candidates(short_name@, strs(prefixes@)),
{
    let cs = chars_of(short_name);
    let ghost ps = strs(prefixes@);
    let name0: Vec<char> = if starts_with_str(cs.as_slice(), "plugin:") {
        proof {
            reveal_strlit("plugin:");
        }
        let rest = sub_chars(cs.as_slice(), 7, cs.len());
        assert(rest@ =~= short_name@.skip(7));
        let parts = split_chars(rest.as_slice(), '/');
        proof {
            crate::text::lemma_split_on_nonempty(rest@, '/');
        }
        sub_chars(parts[0].as_slice(), 0, parts[0].len())
    } else {
        cs
    };
    assert(name0@ =~= (if starts_with(short_name@, "plugin:"@) {
        split_on(short_name@.skip(7), '/')[0]
    } else {
        short_name@
    }));
    let parts = split_chars(name0.as_slice(), '/');
    proof {
        crate::text::lemma_split_on_nonempty(name0@, '/');
    }
    let name: String = if starts_with_str(name0.as_slice(), "@") && parts.len() >= 2 {
        let mut s = string_of(parts[0].as_slice());
        push_str(&mut s, "/");
        push_chars(&mut s, parts[1].as_slice());
        s
    } else {
        string_of(name0.as_slice())
    };
    assert(name@ == plugin_base(short_name@));
    let nc = chars_of(name.as_str());
    let mut prefixed = false;
    let mut i: usize = 0;
    while i < prefixes.len()
        invariant
            i <= prefixes@.len(),
            ps == strs(prefixes@),
            nc@ == name@,
            prefixed == (exists|k: int| 0 <= k < i && starts_with(name@, #[trigger] ps[k])),
        decreases prefixes@.len() - i,
    {
        assert(ps[i as int] == prefixes@[i as int]@);
        if starts_with_str(nc.as_slice(), prefixes[i]) {
            prefixed = true;
        }
        i = i + 1;
    }
    let mut out: Vec<String> = Vec::new();
    if starts_with_str(nc.as_slice(), "@") || prefixed || prefixes.len() == 0 {
        out.push(name);
        assert(out.deep_view() =~= seq![name@]);
        return out;
    }
    let mut k: usize = 0;
    while k < prefixes.len()
        invariant
            k <= prefixes@.len(),
            ps == strs(prefixes@),
            out.deep_view() == ps.take(k as int).map_values(|p: Seq<char>| p + name@),
        decreases prefixes@.len() - k,
    {
        let mut s = String::new();
        push_str(&mut s, prefixes[k]);
        push_str(&mut s, name.as_str());
        let ghost before = out.deep_view();
        assert(s@ == ps[k as int] + name@);
        out.push(s);
        assert(out.deep_view() =~= before.push(ps[k as int] + name@));
        assert(ps.take(k + 1).map_values(|p: Seq<char>| p + name@) =~= ps.take(k as int).map_values(
            |p: Seq<char>| p + name@,
        ).push(ps[k as int] + name@));
        k = k + 1;
    }
    assert(ps.take(ps.len() as int) =~= ps);
    let ghost before = out.deep_view();
    out.push(name);
    assert(out.deep_view() =~= before.push(name@));
    out
}

/// The strings a configuration value lists.
pub open spec fn string_values(v: JsonValue) -> Seq<Seq<char>> {
    match v {
        JsonValue::Str(s) => seq![s@],
        JsonValue::Array(a) => array_strings(a@),
        JsonValue::Object(ms) => ms@.map_values(|m: (String, JsonValue)| m.0@),
        _ => Seq::empty(),
    }
}

/// The strings an array lists: its string elements, and the first element
/// of each array element when that is a string (`["preset", {options}]`).
pub open spec fn array_strings(a: Seq<JsonValue>) -> Seq<Seq<char>>
    decreases a.len(),
{
    if a.len() == 0 {
        Seq::empty()
    } else {
        let rest = array_strings(a.drop_last());
        match a.last() {
            JsonValue::Str(s) => rest.push(s@),
            JsonValue::Array(inner) => if inner@.len() > 0 {
                match str_of(inner@[0]) {
                    Some(s) => rest.push(s),
                    None => rest,
                }
            } else {
                rest
            },
            _ => rest,
        }
    }
}

/// The strings a configuration value lists.
fn extract_json_string_values(value: &JsonValue) -> (r: Vec<String>)
    ensures
        r.deep_view() == string_values(*value),
{
    let mut out: Vec<String> = Vec::new();
    match value {
        JsonValue::Str(s) => {
            out.push(s.clone());
            assert(out.deep_view() =~= seq![s@]);
        },
        JsonValue::Array(a) => {
            let ghost av = a@;
            let mut i: usize = 0;
            assert(out.deep_view() =~= array_strings(av.take(0)));
            while i < a.len()
                invariant
                    i <= av.len(),
                    av == a@,
                    out.deep_view() == array_strings(av.take(i as int)),
                decreases av.len() - i,
            {
                assert(av.take(i + 1).drop_last() =~= av.take(i as int));
                assert(av.take(i + 1).last() == av[i as int]);
                let ghost before = out.deep_view();
                match &a[i] {
                    JsonValue::Str(s) => {
                        out.push(s.clone());
                        assert(out.deep_view() =~= before.push(s@));
                    },
                    JsonValue::Array(inner) => {
                        if inner.len() > 0 {
                            match as_str(&inner[0]) {
                                Some(s) => {
                                    out.push(s.to_string());
                                    assert(out.deep_view() =~= before.push(s@));
                                },
                                None => {},
                            }
                        }
                    },
                    _ => {},
                }
                i = i + 1;
            }
            assert(av.take(av.len() as int) =~= av);
        },
        JsonValue::Object(ms) => {
            let ghost mv = ms@;
            let mut i: usize = 0;
            while i < ms.len()
                invariant
                    i <= mv.len(),
                    mv == ms@,
                    out.deep_view() == mv.take(i as int).map_values(|m: (String, JsonValue)| m.0@),
                decreases mv.len() - i,
            {
                let ghost before = out.deep_view();
                let key = ms[i].0.clone();
                out.push(key);
                assert(out.deep_view() =~= before.push(mv[i as int].0@));
                assert(mv.take(i + 1).map_values(|m: (String, JsonValue)| m.0@) =~= mv.take(
                    i as int,
                ).map_values(|m: (String, JsonValue)| m.0@).push(mv[i as int].0@));
                i = i + 1;
            }
            assert(mv.take(mv.len() as int) =~= mv);
        },
        _ => {
            assert(out.deep_view() =~= Seq::<Seq<char>>::empty());
        },
    }
    out
}

/// The document of a configuration file: YAML for `.yml`/`.yaml` files,
/// JSON with comments otherwise; none when it does not parse.
pub open spec fn config_document(filename: Seq<char>, content: Seq<char>) -> Option<JsonValue> {
    if ends_with(filename, ".yml"@) || ends_with(filename, ".yaml"@) {
        match yml_document(content) {
            Ok(d) => Some(d),
            Err(_) => None,
        }
    } else {
        match json_document(strip_jsonc(content)) {
            Ok(d) => Some(d),
            Err(_) => None,
        }
    }
}

/// The package names the fields `fields[..]` of a document list, each
/// expanded with the prefixes.
pub open spec fn field_packages(doc: JsonValue, fields: Seq<Seq<char>>, prefixes: Seq<Seq<char>>) -> Seq<
    Seq<char>,
>
    decreases fields.len(),
{
    if fields.len() == 0 {
        Seq::empty()
    } else {
        field_packages(doc, fields.drop_last(), prefixes) + match field(doc, fields.last()) {
            Some(v) => expand_all(string_values(v), prefixes),
            None => Seq::empty(),
        }
    }
}

/// Every name expanded with the prefixes, in order.
pub open spec fn expand_all(names: Seq<Seq<char>>, prefixes: Seq<Seq<char>>) -> Seq<Seq<char>>
    decreases names.len(),
{
    if names.len() == 0 {
        Seq::empty()
    } else {
        expand_all(names.drop_last(), prefixes) + plugin_candidates(names.last(), prefixes)
    }
}

/// The packages a configuration file of a rule references.
pub open spec fn file_packages(rule: (Seq<Seq<char>>, Seq<Seq<char>>), file: (Seq<char>, Seq<char>)) -> Seq<
    Seq<char>,
> {
    match config_document(file.0, file.1) {
        Some(doc) => field_packages(doc, rule.0, rule.1),
        None => Seq::empty(),
    }
}

/// The packages of the files `files[..]` found for a rule, added to `acc`.
pub open spec fn rule_packages(
    acc: Seq<Seq<char>>,
    rule: (Seq<Seq<char>>, Seq<Seq<char>>),
    files: Seq<(Seq<char>, Seq<char>)>,
) -> Seq<Seq<char>>
    decreases files.len(),
{
    if files.len() == 0 {
        acc
    } else {
        add_all(rule_packages(acc, rule, files.drop_last()), file_packages(rule, files.last()))
    }
}

/// The packages of JSON/YAML configuration files, where `found[i]` holds
/// the files found for rule `i` (as (name, text) pairs), added to `acc` rule
/// by rule.
pub open spec fn json_packages(acc: Seq<Seq<char>>, found: Seq<Seq<(Seq<char>, Seq<char>)>>, n: int) -> Seq<
    Seq<char>,
>
    decreases n,
{
    if n <= 0 {
        acc
    } else {
        let a = json_packages(acc, found, n - 1);
        if n - 1 < found.len() {
            rule_packages(a, rule_specs()[n - 1], found[n - 1])
        } else {
            a
        }
    }
}

/// The packages a configuration file references.
fn config_file_deps(filename: &str, content: &str, fields: &Vec<&'static str>, prefixes: &Vec<&'static str>) -> (r:
    Vec<String>)
    ensures
        r.deep_view() == file_packages((strs(fields@), strs(prefixes@)), (filename@, content@)),
{
    let fc = chars_of(filename);
    let is_yaml = crate::text::ends_with_str(fc.as_slice(), ".yml") || crate::text::ends_with_str(
        fc.as_slice(),
        ".yaml",
    );
    let parsed = if is_yaml {
        parse_yml(content)
    } else {
        let stripped = strip_jsonc_comments(content);
        parse_json(stripped.as_str())
    };
    let mut out: Vec<String> = Vec::new();
    let doc = match parsed {
        Ok(d) => d,
        Err(_) => {
            assert(out.deep_view() =~= Seq::<Seq<char>>::empty());
            return out;
        },
    };
    let ghost fs = strs(fields@);
    let ghost ps = strs(prefixes@);
    let mut i: usize = 0;
    assert(out.deep_view() =~= field_packages(doc, fs.take(0), ps));
    while i < fields.len()
        invariant
            i <= fields@.len(),
            fs == strs(fields@),
            ps == strs(prefixes@),
            out.deep_view() == field_packages(doc, fs.take(i as int), ps),
        decreases fields@.len() - i,
    {
        assert(fs.take(i + 1).drop_last() =~= fs.take(i as int));
        assert(fs.take(i + 1).last() == fields@[i as int]@);
        match get_field(&doc, fields[i]) {
            Some(v) => {
                let names = extract_json_string_values(v);
                let ghost nv = names.deep_view();
                let ghost before = out.deep_view();
                let mut k: usize = 0;
                assert(expand_all(nv.take(0), ps) =~= Seq::<Seq<char>>::empty());
                assert(out.deep_view() =~= before + expand_all(nv.take(0), ps));
                while k < names.len()
                    invariant
                        k <= nv.len(),
                        nv == names.deep_view(),
                        ps == strs(prefixes@),
                        out.deep_view() == before + expand_all(nv.take(k as int), ps),
                    decreases nv.len() - k,
                {
                    assert(nv.take(k + 1).drop_last() =~= nv.take(k as int));
                    assert(names@[k as int]@ == nv[k as int]);
                    let cands = expand_plugin_name(names[k].as_str(), prefixes.as_slice());
                    let ghost mid = out.deep_view();
                    append_all(&mut out, &cands);
                    assert(out.deep_view() =~= before + expand_all(nv.take(k + 1), ps));
                    k = k + 1;
                }
                assert(nv.take(nv.len() as int) =~= nv);
            },
            None => {
                assert(out.deep_view() =~= out.deep_view() + Seq::<Seq<char>>::empty());
            },
        }
        i = i + 1;
    }
    assert(fs.take(fs.len() as int) =~= fs);
    out
}

/// The configuration files of a project, as read from disk.
#[derive(Debug, Clone)]
pub struct ConfigSources {
    /// The JS/TS configuration files found, in the order of
    /// `js_config_files`.
    pub js: Vec<JsConfigSource>,
    /// For each JSON/YAML rule, in the order of `json_config_rules`, the
    /// files found for it as (file name, text).
    pub json: Vec<Vec<(String, String)>>,
}

/// The packages the JS/TS configuration files `files[..]` reference: their
/// imports, and for Stylelint configs what they extend; added to `acc`.
pub open spec fn js_packages(acc: Seq<Seq<char>>, files: Seq<JsConfigSource>) -> Seq<Seq<char>>
    decreases files.len(),
{
    if files.len() == 0 {
        acc
    } else {
        let a = add_all(js_packages(acc, files.drop_last()), files.last().imports.deep_view());
        if starts_with(files.last().filename@, "stylelint.config"@) {
            add_all(a, extends_of(files.last().source@))
        } else {
            a
        }
    }
}

/// The packages all configuration files reference, each once.
pub open spec fn config_packages(sources: ConfigSources) -> Seq<Seq<char>> {
    json_packages(
        js_packages(Seq::empty(), sources.js@),
        sources.json.deep_view(),
        rule_specs().len() as int,
    )
}

/// Collects the packages referenced by configuration files: imports of
/// JS/TS configs (and the extends of Stylelint configs), and the fields of
/// ESLint, Babel, PostCSS, TypeScript and Stylelint JSON/YAML configs.
pub fn extract_config_deps(sources: &ConfigSources) -> (r: Vec<String>)
    ensures
        r.deep_view() == config_packages(*sources),
{
    let mut deps: Vec<String> = Vec::new();
    let ghost js = sources.js@;
    let mut i: usize = 0;
    assert(deps.deep_view() =~= js_packages(Seq::empty(), js.take(0)));
    while i < sources.js.len()
        invariant
            i <= js.len(),
            js == sources.js@,
            deps.deep_view() == js_packages(Seq::empty(), js.take(i as int)),
        decreases js.len() - i,
    {
        assert(js.take(i + 1).drop_last() =~= js.take(i as int));
        assert(js.take(i + 1).last() == js[i as int]);
        let f = &sources.js[i];
        add_names(&mut deps, &f.imports);
        let fc = chars_of(f.filename.as_str());
        if starts_with_str(fc.as_slice(), "stylelint.config") {
            let ext = extract_extends_from_js_config(f.source.as_str());
            add_names(&mut deps, &ext);
        }
        i = i + 1;
    }
    assert(js.take(js.len() as int) =~= js);
    let rules = json_config_rules();
    let ghost found = sources.json.deep_view();
    let ghost base = deps.deep_view();
    let mut r: usize = 0;
    while r < rules.len()
        invariant
            r <= rules@.len(),
            rules@.len() == rule_specs().len(),
            forall|q: int|
                0 <= q < rules@.len() ==> strs((#[trigger] rules@[q]).fields@) == rule_specs()[q].0
                    && strs(rules@[q].prefixes@) == rule_specs()[q].1,
            found == sources.json.deep_view(),
            base == js_packages(Seq::empty(), sources.js@),
            deps.deep_view() == json_packages(base, found, r as int),
        decreases rules@.len() - r,
    {
        if r < sources.json.len() {
            let files = &sources.json[r];
            let ghost fv = found[r as int];
            assert(fv == files.deep_view());
            let ghost start = deps.deep_view();
            let mut k: usize = 0;
            assert(deps.deep_view() =~= rule_packages(start, rule_specs()[r as int], fv.take(0)));
            while k < files.len()
                invariant
                    k <= fv.len(),
                    r < rules@.len(),
                    fv == files.deep_view(),
                    strs(rules@[r as int].fields@) == rule_specs()[r as int].0,
                    strs(rules@[r as int].prefixes@) == rule_specs()[r as int].1,
                    deps.deep_view() == rule_packages(start, rule_specs()[r as int], fv.take(k as int)),
                decreases fv.len() - k,
            {
                assert(fv.take(k + 1).drop_last() =~= fv.take(k as int));
                assert(fv.take(k + 1).last() == fv[k as int]);
                assert(fv[k as int] == (files@[k as int].0@, files@[k as int].1@));
                let names = config_file_deps(
                    files[k].0.as_str(),
                    files[k].1.as_str(),
                    &rules[r].fields,
                    &rules[r].prefixes,
                );
                add_names(&mut deps, &names);
                k = k + 1;
            }
            assert(fv.take(fv.len() as int) =~= fv);
        }
        r = r + 1;
    }
    deps
}

/// The configuration files looked for in the whole project tree; those of
/// the other rules are looked for at its root only.
pub open spec fn recursive_config_files() -> Seq<Seq<char>> {
    seq!["tsconfig.json"@, ".stylelintrc"@, ".stylelintrc.json"@, ".stylelintrc.yml"@, ".stylelintrc.yaml"@]
}

/// Whether the files of a rule are looked for in the whole tree: one of its
/// file names is.
pub fn searched_recursively(rule: &JsonConfigRule) -> (b: bool)
    ensures
        b == exists|i: int|
            0 <= i < rule.filenames@.len() && recursive_config_files().contains(#[trigger] rule.filenames@[i]@),
{
    let names: [&str; 5] = ["tsconfig.json", ".stylelintrc", ".stylelintrc.json", ".stylelintrc.yml", ".stylelintrc.yaml"];
    assert(names@.map_values(|n: &str| n@) =~= recursive_config_files());
    let mut i: usize = 0;
    while i < rule.filenames.len()
        invariant
            i <= rule.filenames@.len(),
            names@.map_values(|n: &str| n@) == recursive_config_files(),
            forall|k: int| 0 <= k < i ==> !recursive_config_files().contains(#[trigger] rule.filenames@[k]@),
        decreases rule.filenames@.len() - i,
    {
        if crate::scanner::one_of(names.as_slice(), rule.filenames[i]) {
            return true;
        }
        i = i + 1;
    }
    false
}

/// The directories the search for configuration files does not enter.
pub open spec fn config_skipped_dirs() -> Seq<Seq<char>> {
    seq!["node_modules"@, "dist"@, "build"@, ".git"@, ".next"@, "coverage"@, ".turbo"@]
}

/// Whether the search for configuration files leaves out a directory of
/// this name.
pub fn skips_config_dir(name: &str) -> (b: bool)
    ensures
        b == config_skipped_dirs().contains(name@),
{
    let dirs: [&str; 7] = ["node_modules", "dist", "build", ".git", ".next", "coverage", ".turbo"];
    assert(dirs@.map_values(|n: &str| n@) =~= config_skipped_dirs());
    crate::scanner::one_of(dirs.as_slice(), name)
}

} // verus!
