//! yarn.lock (v1) parsing.
//!
//! The file is read line by line.  An entry starts at a header line (not
//! indented, not a comment, ending with `:`) and owns the indented lines
//! that follow it.
use vstd::prelude::*;

use crate::error::LockpickError;
use crate::strmap::StrMap;
use crate::text::{
    chars_contains, chars_of, contains_seq, ends_with, find_char, first_index, lines, lines_of,
    push_chars, push_str, starts_with, starts_with_str, string_of, sub_chars, trim, trim_char,
    trim_char_exec, trim_chars, trim_end_char, trim_end_char_exec,
};
use crate::{DepEdge, DependencyGraph, LockfileType, PackageInfo};

verus! {

/// An entry as the parser sees it: (name, version, integrity).
pub type EntryView = (Seq<char>, Seq<char>, Option<Seq<char>>);

/// A line skipped between entries: a comment or a blank line.
pub open spec fn skipped_line(line: Seq<char>) -> bool {
    starts_with(line, seq!['#']) || trim(line).len() == 0
}

/// A line belonging to the block of the entry above it.
pub open spec fn indented(line: Seq<char>) -> bool {
    starts_with(line, seq![' '])
}

/// A line that starts an entry.
pub open spec fn header_line(line: Seq<char>) -> bool {
    !skipped_line(line) && !indented(line) && ends_with(line, seq![':'])
}

/// The first line at or after `i` that is not indented.
pub open spec fn block_end(ls: Seq<Seq<char>>, i: int) -> int
    decreases ls.len() - i,
{
    if 0 <= i < ls.len() && indented(ls[i]) {
        block_end(ls, i + 1)
    } else {
        i
    }
}

/// `block_end` stays within the lines and skips only indented lines.
pub proof fn lemma_block_end(ls: Seq<Seq<char>>, i: int)
    requires
        0 <= i <= ls.len(),
    ensures
        i <= block_end(ls, i) <= ls.len(),
        forall|j: int| i <= j < block_end(ls, i) ==> indented(#[trigger] ls[j]),
        block_end(ls, i) < ls.len() ==> !indented(ls[block_end(ls, i)]),
    decreases ls.len() - i,
{
    if i < ls.len() && indented(ls[i]) {
        lemma_block_end(ls, i + 1);
    }
}

/// The value after `key` on a trimmed line, trimmed and unquoted.
pub open spec fn quoted_value(t: Seq<char>, key: Seq<char>) -> Seq<char> {
    trim_char(trim(t.skip(key.len() as int)), '"')
}

/// The value of the last line in `ls[from..to]` that reads `key value`.
pub open spec fn block_field(ls: Seq<Seq<char>>, from: int, to: int, key: Seq<char>) -> Option<
    Seq<char>,
>
    decreases to - from,
{
    if to <= from {
        None
    } else {
        let t = trim(ls[to - 1]);
        if starts_with(t, key.push(' ')) {
            Some(quoted_value(t, key))
        } else {
            block_field(ls, from, to - 1, key)
        }
    }
}

/// The header of an entry line, without its colon and surrounding blanks.
pub open spec fn header_text(line: Seq<char>) -> Seq<char> {
    trim(trim_end_char(line, ':'))
}

/// The package name in an entry header such as `lodash@^4.17.21` or
/// `"@scope/pkg@^1.0.0"`, or the message explaining why there is none.
pub open spec fn package_name(header: Seq<char>) -> Result<Seq<char>, Seq<char>> {
    let h = trim_char(header, '"');
    if h.len() > 0 && h[0] == '@' {
        match first_index(h.drop_first(), '@') {
            Some(p) => Ok(h.take(p + 1)),
            None => Err("Invalid scoped package entry: "@ + h),
        }
    } else {
        match first_index(h, '@') {
            Some(p) => Ok(h.take(p)),
            None => Err("Invalid package entry (no version specifier): "@ + h),
        }
    }
}

/// The entry whose header is line `i`, or the message of its error.
pub open spec fn entry_at(ls: Seq<Seq<char>>, i: int) -> Result<EntryView, Seq<char>> {
    match package_name(header_text(ls[i])) {
        Err(m) => Err(m),
        Ok(name) => {
            let end = block_end(ls, i + 1);
            match block_field(ls, i + 1, end, "version"@) {
                None => Err("Missing version for package '"@ + name + "'"@),
                Some(v) => Ok((name, v, block_field(ls, i + 1, end, "integrity"@))),
            }
        },
    }
}

/// The entries from line `i` on, in file order, or the first error.
pub open spec fn scan_entries(ls: Seq<Seq<char>>, i: int) -> Result<Seq<EntryView>, Seq<char>>
    decreases ls.len() - i,
{
    if i < 0 || i >= ls.len() {
        Ok(Seq::empty())
    } else if header_line(ls[i]) {
        match entry_at(ls, i) {
            Err(m) => Err(m),
            Ok(e) => {
                proof {
                    lemma_block_end(ls, i + 1);
                }
                match scan_entries(ls, block_end(ls, i + 1)) {
                    Err(m) => Err(m),
                    Ok(rest) => Ok(seq![e] + rest),
                }
            },
        }
    } else {
        scan_entries(ls, i + 1)
    }
}

/// `done` followed by the outcome `r`.
pub open spec fn prepend<T>(done: Seq<T>, r: Result<Seq<T>, Seq<char>>) -> Result<
    Seq<T>,
    Seq<char>,
> {
    match r {
        Ok(rest) => Ok(done + rest),
        Err(m) => Err(m),
    }
}

/// The first entry of each name that is (`dev`) or is not (`!dev`) among
/// the dev dependency names: a later entry with the same name is ignored.
pub open spec fn first_entries(es: Seq<EntryView>, dev_names: Seq<Seq<char>>, dev: bool) -> Map<
    Seq<char>,
    EntryView,
>
    decreases es.len(),
{
    if es.len() == 0 {
        Map::empty()
    } else {
        let m = first_entries(es.drop_last(), dev_names, dev);
        let e = es.last();
        if dev_names.contains(e.0) == dev && !m.dom().contains(e.0) {
            m.insert(e.0, e)
        } else {
            m
        }
    }
}

/// Every version listed for each name, in file order.
pub open spec fn version_lists(es: Seq<EntryView>) -> Map<Seq<char>, Seq<Seq<char>>>
    decreases es.len(),
{
    if es.len() == 0 {
        Map::empty()
    } else {
        let m = version_lists(es.drop_last());
        let e = es.last();
        if m.dom().contains(e.0) {
            m.insert(e.0, m[e.0].push(e.1))
        } else {
            m.insert(e.0, seq![e.1])
        }
    }
}

/// A text that has content but no production entry and no yarn header is
/// not a yarn.lock file.
pub open spec fn not_yarn(content: Seq<char>, es: Seq<EntryView>, dev_names: Seq<Seq<char>>) -> bool {
    &&& first_entries(es, dev_names, false).dom() == Set::<Seq<char>>::empty()
    &&& trim(content).len() != 0
    &&& !contains_seq(content, "yarn lockfile v1"@)
}

/// The entries of a yarn.lock text, or the message of the parse error.
pub open spec fn yarn_result(content: Seq<char>, dev_names: Seq<Seq<char>>) -> Result<
    Seq<EntryView>,
    Seq<char>,
> {
    match scan_entries(lines(content), 0) {
        Err(m) => Err(m),
        Ok(es) => if not_yarn(content, es, dev_names) {
            Err("Invalid yarn.lock format"@)
        } else {
            Ok(es)
        },
    }
}

/// The packages of the graph built from the entries: production and dev
/// dependencies keep the first entry of each name, every version is listed.
pub open spec fn yarn_packages(g: DependencyGraph, es: Seq<EntryView>, dev_names: Seq<Seq<char>>) -> bool {
    &&& g.lockfile_type == LockfileType::Yarn
    &&& g.dependencies.deep_is(first_entries(es, dev_names, false))
    &&& g.dev_dependencies.deep_is(first_entries(es, dev_names, true))
    &&& g.all_packages.deep_is(version_lists(es))
}

/// The graph built from the entries, without edges.
pub open spec fn yarn_graph(g: DependencyGraph, es: Seq<EntryView>, dev_names: Seq<Seq<char>>) -> bool {
    &&& yarn_packages(g, es, dev_names)
    &&& g.dep_edges.size() == 0
}

/// What the edge pass knows inside a block: the version seen last, the
/// edges collected, and whether it is inside a `dependencies:` list.
pub type EdgeState = (Seq<char>, Seq<(Seq<char>, Seq<char>)>, bool);

/// One block line read by the edge pass.
pub open spec fn edge_step(st: EdgeState, line: Seq<char>) -> EdgeState {
    let t = trim(line);
    if starts_with(t, "version "@) {
        (quoted_value(t, "version"@), st.1, st.2)
    } else if t == "dependencies:"@ {
        (st.0, st.1, true)
    } else if st.2 && t.contains(' ') {
        let p = first_index(t, ' ')->0;
        (st.0, st.1.push((trim_char(t.take(p), '"'), trim_char(t.skip(p + 1), '"'))), true)
    } else {
        (st.0, st.1, false)
    }
}

/// The edge pass over the block lines `ls[from..to]`.
pub open spec fn edge_block(ls: Seq<Seq<char>>, from: int, to: int) -> EdgeState
    decreases to - from,
{
    if to <= from {
        (Seq::empty(), Seq::empty(), false)
    } else {
        edge_step(edge_block(ls, from, to - 1), ls[to - 1])
    }
}

/// The name of the entry at line `i`, empty when it has none.
pub open spec fn edge_name(ls: Seq<Seq<char>>, i: int) -> Seq<char> {
    match package_name(header_text(ls[i])) {
        Ok(n) => n,
        Err(_) => Seq::empty(),
    }
}

/// The edge lists from line `i` on, keyed `name@version`, for every entry
/// with a version and at least one dependency, in file order.
pub open spec fn scan_edges(ls: Seq<Seq<char>>, i: int) -> Seq<
    (Seq<char>, Seq<(Seq<char>, Seq<char>)>),
>
    decreases ls.len() - i,
{
    if i < 0 || i >= ls.len() {
        Seq::empty()
    } else if header_line(ls[i]) {
        proof {
            lemma_block_end(ls, i + 1);
        }
        let end = block_end(ls, i + 1);
        let st = edge_block(ls, i + 1, end);
        let rest = scan_edges(ls, end);
        if st.1.len() > 0 && st.0.len() > 0 {
            seq![(edge_name(ls, i) + "@"@ + st.0, st.1)] + rest
        } else {
            rest
        }
    } else {
        scan_edges(ls, i + 1)
    }
}

/// The edge lists by key; a later list with the same key replaces an
/// earlier one.
pub open spec fn edge_map(s: Seq<(Seq<char>, Seq<(Seq<char>, Seq<char>)>)>) -> Map<
    Seq<char>,
    Seq<(Seq<char>, Seq<char>)>,
>
    decreases s.len(),
{
    if s.len() == 0 {
        Map::empty()
    } else {
        edge_map(s.drop_last()).insert(s.last().0, s.last().1)
    }
}

/// Parses yarn.lock v1 content into a dependency graph.
pub fn parse(content: &str) -> (r: Result<DependencyGraph, LockpickError>)
    ensures
        match yarn_result(content@, Seq::empty()) {
            Ok(es) => r matches Ok(g) && yarn_graph(g, es, Seq::empty()),
            Err(msg) => r matches Err(LockpickError::Parse(m)) && m@ == msg,
        },
{
    let none: Vec<String> = Vec::new();
    let names = none.as_slice();
    assert(names.deep_view() =~= Seq::<Seq<char>>::empty());
    parse_with_dev_names(content, names)
}

/// Whether the line at hand starts an entry.
fn is_header(line: &[char]) -> (b: bool)
    ensures
        b == header_line(line@),
{
    let skipped = (line.len() > 0 && line[0] == '#') || trim_chars(line).len() == 0;
    let spaced = line.len() > 0 && line[0] == ' ';
    let colon = line.len() > 0 && line[line.len() - 1] == ':';
    proof {
        if line@.len() > 0 {
            let first = line@.subrange(0, 1);
            let last = line@.subrange(line@.len() - 1, line@.len() as int);
            assert(first =~= seq![line@[0]]);
            assert(last =~= seq![line@.last()]);
            assert(first[0] == line@[0]);
            assert(last[0] == line@.last());
            if line@[0] == '#' {
                assert(first =~= seq!['#']);
            }
            if line@[0] == ' ' {
                assert(first =~= seq![' ']);
            }
            if line@.last() == ':' {
                assert(last =~= seq![':']);
            }
        }
    }
    !skipped && !spaced && colon
}

/// Extracts the package name from a yarn.lock entry header.
/// Handles both regular (`lodash@^4.17.21`) and scoped (`@scope/pkg@^1.0.0`)
/// packages.
fn extract_package_name(header: &[char]) -> (r: Result<String, String>)
    ensures
        match package_name(header@) {
            Ok(n) => r matches Ok(s) && s@ == n,
            Err(m) => r matches Err(s) && s@ == m,
        },
{
    let h = trim_char_exec(header, '"');
    if h.len() > 0 && h[0] == '@' {
        let rest = sub_chars(h.as_slice(), 1, h.len());
        assert(rest@ =~= h@.drop_first());
        proof {
            crate::text::lemma_first_index_found(rest@, '@');
        }
        match find_char(rest.as_slice(), '@') {
            Some(p) => {
                let name = sub_chars(h.as_slice(), 0, p + 1);
                assert(name@ =~= h@.take(p + 1));
                Ok(string_of(name.as_slice()))
            },
            None => {
                let mut msg = String::new();
                push_str(&mut msg, "Invalid scoped package entry: ");
                push_chars(&mut msg, h.as_slice());
                Err(msg)
            },
        }
    } else {
        proof {
            crate::text::lemma_first_index_found(h@, '@');
        }
        match find_char(h.as_slice(), '@') {
            Some(p) => {
                let name = sub_chars(h.as_slice(), 0, p);
                assert(name@ =~= h@.take(p as int));
                Ok(string_of(name.as_slice()))
            },
            None => {
                let mut msg = String::new();
                push_str(&mut msg, "Invalid package entry (no version specifier): ");
                push_chars(&mut msg, h.as_slice());
                Err(msg)
            },
        }
    }
}

/// Extracts a quoted value from a line like `version "1.2.3"`.
fn extract_quoted_value(line: &[char], key: &str) -> (r: Result<Vec<char>, String>)
    ensures
        starts_with(line@, key@) ==> (r matches Ok(v) && v@ == quoted_value(line@, key@)),
        !starts_with(line@, key@) ==> (r matches Err(m) && m@ == "Line does not start with '"@
            + key@ + "': "@ + line@),
{
    if !starts_with_str(line, key) {
        let mut msg = String::new();
        push_str(&mut msg, "Line does not start with '");
        push_str(&mut msg, key);
        push_str(&mut msg, "': ");
        push_chars(&mut msg, line);
        return Err(msg);
    }
    let kv = chars_of(key);
    let k = kv.len();
    let after = sub_chars(line, k, line.len());
    assert(after@ =~= line@.skip(key@.len() as int));
    let trimmed = trim_chars(after.as_slice());
    Ok(trim_char_exec(trimmed.as_slice(), '"'))
}

/// Reads the entry whose header is line `i`: its package information and
/// the first line after its block.
fn read_entry(ls: &Vec<Vec<char>>, i: usize) -> (r: Result<(PackageInfo, usize), String>)
    requires
        i < ls@.len(),
    ensures
        match entry_at(ls.deep_view(), i as int) {
            Ok(e) => r matches Ok((info, end)) && info.deep_view() == e && end == block_end(
                ls.deep_view(),
                i + 1,
            ),
            Err(m) => r matches Err(s) && s@ == m,
        },
{
    let ghost ld = ls.deep_view();
    let n = ls.len();
    assert(ld[i as int] == ls@[i as int]@) by {
        assert(ls@[i as int].deep_view() =~= ls@[i as int]@);
    }
    let stripped = trim_end_char_exec(ls[i].as_slice(), ':');
    let header = trim_chars(stripped.as_slice());
    assert(header@ == header_text(ld[i as int]));
    let name = match extract_package_name(header.as_slice()) {
        Ok(n) => n,
        Err(m) => {
            return Err(m);
        },
    };
    proof {
        reveal_strlit("version ");
        reveal_strlit("version");
        reveal_strlit("integrity ");
        reveal_strlit("integrity");
        assert("version "@ =~= "version"@.push(' '));
        assert("integrity "@ =~= "integrity"@.push(' '));
        lemma_block_end(ld, i + 1);
    }
    let mut version: Option<Vec<char>> = None;
    let mut integrity: Option<Vec<char>> = None;
    let mut j: usize = i + 1;
    while j < ls.len() && ls[j].len() > 0 && ls[j][0] == ' '
        invariant
            i + 1 <= j <= ls@.len(),
            ld == ls.deep_view(),
            block_end(ld, i + 1) == block_end(ld, j as int),
            version.deep_view() == block_field(ld, i + 1, j as int, "version"@),
            integrity.deep_view() == block_field(ld, i + 1, j as int, "integrity"@),
            "version "@ == "version"@.push(' '),
            "integrity "@ == "integrity"@.push(' '),
            "version "@.len() == 8 && "version "@[0] == 'v',
            "integrity "@.len() == 10 && "integrity "@[0] == 'i',
        decreases ls@.len() - j,
    {
        assert(ld[j as int] == ls@[j as int]@) by {
            assert(ls@[j as int].deep_view() =~= ls@[j as int]@);
        }
        assert(indented(ld[j as int])) by {
            assert(ld[j as int].subrange(0, 1) =~= seq![' ']);
        }
        let t = trim_chars(ls[j].as_slice());
        if starts_with_str(t.as_slice(), "version ") {
            assert(starts_with(t@, "version"@)) by {
                assert(t@.subrange(0, 7) =~= "version "@.subrange(0, 7));
                assert("version "@.subrange(0, 7) =~= "version"@);
            }
            assert(!starts_with(t@, "integrity "@)) by {
                assert(t@[0] == t@.subrange(0, 8)[0]);
            }
            match extract_quoted_value(t.as_slice(), "version") {
                Ok(v) => {
                    version = Some(v);
                },
                Err(_) => {},
            }
        } else if starts_with_str(t.as_slice(), "integrity ") {
            assert(starts_with(t@, "integrity"@)) by {
                assert(t@.subrange(0, 9) =~= "integrity "@.subrange(0, 9));
                assert("integrity "@.subrange(0, 9) =~= "integrity"@);
            }
            match extract_quoted_value(t.as_slice(), "integrity") {
                Ok(v) => {
                    integrity = Some(v);
                },
                Err(_) => {},
            }
        }
        j = j + 1;
    }
    assert(j < ls@.len() ==> !indented(ld[j as int])) by {
        if j < ls@.len() {
            assert(ld[j as int] == ls@[j as int]@) by {
                assert(ls@[j as int].deep_view() =~= ls@[j as int]@);
            }
            if indented(ld[j as int]) {
                let first = ld[j as int].subrange(0, 1);
                assert(first[0] == ' ');
                assert(first[0] == ld[j as int][0]);
            }
        }
    }
    assert(block_end(ld, j as int) == j);
    match version {
        None => {
            let mut msg = String::new();
            push_str(&mut msg, "Missing version for package '");
            push_str(&mut msg, name.as_str());
            push_str(&mut msg, "'");
            Err(msg)
        },
        Some(v) => {
            let integ = match integrity {
                Some(x) => Some(string_of(x.as_slice())),
                None => None,
            };
            let info = PackageInfo { name, version: string_of(v.as_slice()), integrity: integ };
            Ok((info, j))
        },
    }
}

/// Parses yarn.lock content; packages named in `dev_names` (from
/// package.json's devDependencies) go to the dev dependencies.
pub fn parse_with_dev_names(content: &str, dev_names: &[String]) -> (r: Result<
    DependencyGraph,
    LockpickError,
>)
    ensures
        match yarn_result(content@, dev_names.deep_view()) {
            Ok(es) => r matches Ok(g) && yarn_graph(g, es, dev_names.deep_view()),
            Err(msg) => r matches Err(LockpickError::Parse(m)) && m@ == msg,
        },
{
    let ghost dv = dev_names.deep_view();
    let text = chars_of(content);
    let ls = lines_of(text.as_slice());
    let ghost ld = lines(content@);
    assert(ls.deep_view() =~= ld) by {
        assert forall|k: int| 0 <= k < ls@.len() implies #[trigger] ls.deep_view()[k] == ld[k] by {
            assert(ls@[k].deep_view() =~= ls@[k]@);
        }
    }
    let mut dependencies: StrMap<PackageInfo> = StrMap::new();
    let mut dev_dependencies: StrMap<PackageInfo> = StrMap::new();
    let mut all_packages: StrMap<Vec<String>> = StrMap::new();
    let ghost mut done: Seq<EntryView> = Seq::empty();
    proof {
        assert(done + Seq::<EntryView>::empty() =~= done);
        assert(prepend(done, scan_entries(ld, 0)) == scan_entries(ld, 0)) by {
            match scan_entries(ld, 0) {
                Ok(rest) => {
                    assert(done + rest =~= rest);
                },
                Err(_) => {},
            }
        }
    }
    let mut i: usize = 0;
    while i < ls.len()
        invariant
            i <= ls@.len(),
            ld == ls.deep_view(),
            ld == lines(content@),
            dv == dev_names.deep_view(),
            scan_entries(ld, 0) == prepend(done, scan_entries(ld, i as int)),
            dependencies.deep_is(first_entries(done, dv, false)),
            dev_dependencies.deep_is(first_entries(done, dv, true)),
            all_packages.deep_is(version_lists(done)),
        decreases ls@.len() - i,
    {
        assert(ld[i as int] == ls@[i as int]@) by {
            assert(ls@[i as int].deep_view() =~= ls@[i as int]@);
        }
        if is_header(ls[i].as_slice()) {
            let (info, end) = match read_entry(&ls, i) {
                Ok(x) => x,
                Err(m) => {
                    assert(scan_entries(ld, i as int) == Err::<Seq<EntryView>, Seq<char>>(m@));
                    assert(scan_entries(ld, 0) == Err::<Seq<EntryView>, Seq<char>>(m@));
                    assert(yarn_result(content@, dv) == Err::<Seq<EntryView>, Seq<char>>(m@));
                    return Err(LockpickError::Parse(m));
                },
            };
            let ghost e = info.deep_view();
            let ghost ginfo = info;
            proof {
                lemma_block_end(ld, i + 1);
                match scan_entries(ld, end as int) {
                    Ok(rest) => {
                        assert(done + (seq![e] + rest) =~= done.push(e) + rest);
                    },
                    Err(_) => {},
                }
            }
            let is_dev = contains_name(dev_names, info.name.as_str());
            let ghost before_all = all_packages;
            all_packages.well_formed();
            let ver = info.version.clone();
            let ghost gver = ver;
            all_packages.push_to(info.name.clone(), ver);
            all_packages.well_formed();
            proof {
                lemma_version_lists_push(done, e);
                lemma_push_to_deep(before_all, all_packages, e.0, gver, version_lists(done));
            }
            let ghost before_prod = dependencies;
            let ghost before_dev = dev_dependencies;
            dependencies.well_formed();
            dev_dependencies.well_formed();
            if is_dev {
                let name = info.name.clone();
                dev_dependencies.insert_if_absent(name, info);
            } else {
                let name = info.name.clone();
                dependencies.insert_if_absent(name, info);
            }
            dependencies.well_formed();
            dev_dependencies.well_formed();
            proof {
                let nd = done.push(e);
                assert(nd.drop_last() =~= done);
                if is_dev {
                    assert(dependencies.keys() == before_prod.keys());
                    assert(dependencies.vals() == before_prod.vals());
                    assert(first_entries(nd, dv, false) == first_entries(done, dv, false));
                    StrMap::<PackageInfo>::lemma_deep_is_same(
                        before_prod,
                        dependencies,
                        first_entries(done, dv, false),
                    );
                    if before_dev.has(e.0) {
                        assert(first_entries(nd, dv, true) == first_entries(done, dv, true));
                        StrMap::<PackageInfo>::lemma_deep_is_same(
                            before_dev,
                            dev_dependencies,
                            first_entries(done, dv, true),
                        );
                    } else {
                        StrMap::<PackageInfo>::lemma_deep_is_push(
                            before_dev,
                            dev_dependencies,
                            e.0,
                            ginfo,
                            first_entries(done, dv, true),
                        );
                    }
                } else {
                    assert(dev_dependencies.keys() == before_dev.keys());
                    assert(dev_dependencies.vals() == before_dev.vals());
                    assert(first_entries(nd, dv, true) == first_entries(done, dv, true));
                    StrMap::<PackageInfo>::lemma_deep_is_same(
                        before_dev,
                        dev_dependencies,
                        first_entries(done, dv, true),
                    );
                    if before_prod.has(e.0) {
                        assert(first_entries(nd, dv, false) == first_entries(done, dv, false));
                        assert(dependencies.keys() == before_prod.keys());
                        assert(dependencies.vals() == before_prod.vals());
                        StrMap::<PackageInfo>::lemma_deep_is_same(
                            before_prod,
                            dependencies,
                            first_entries(done, dv, false),
                        );
                    } else {
                        StrMap::<PackageInfo>::lemma_deep_is_push(
                            before_prod,
                            dependencies,
                            e.0,
                            ginfo,
                            first_entries(done, dv, false),
                        );
                    }
                }
                done = nd;
            }
            i = end;
        } else {
            i = i + 1;
        }
    }
    proof {
        assert(scan_entries(ld, i as int) == Ok::<Seq<EntryView>, Seq<char>>(Seq::empty()));
        assert(done + Seq::<EntryView>::empty() =~= done);
    }
    dependencies.well_formed();
    if dependencies.len() == 0 {
        let trimmed = trim_chars(text.as_slice());
        let marker = chars_of("yarn lockfile v1");
        if trimmed.len() != 0 && !chars_contains(text.as_slice(), marker.as_slice()) {
            proof {
                let m = first_entries(done, dv, false);
                assert forall|k: Seq<char>| !m.dom().contains(k) by {
                    assert(!dependencies.has(k));
                }
                assert(m.dom() =~= Set::<Seq<char>>::empty());
            }
            let mut msg = String::new();
            push_str(&mut msg, "Invalid yarn.lock format");
            return Err(LockpickError::Parse(msg));
        }
    }
    proof {
        if dependencies.keys().len() > 0 {
            let k = dependencies.keys()[0];
            assert(dependencies.has(k));
            assert(first_entries(done, dv, false).dom().contains(k));
        }
    }
    Ok(
        DependencyGraph {
            dependencies,
            dev_dependencies,
            lockfile_type: LockfileType::Yarn,
            all_packages,
            dep_edges: StrMap::new(),
        },
    )
}

/// Parses yarn.lock content with the transitive dependency edges of each
/// entry.
pub fn parse_with_edges(content: &str, dev_names: &[String]) -> (r: Result<
    DependencyGraph,
    LockpickError,
>)
    ensures
        match yarn_result(content@, dev_names.deep_view()) {
            Ok(es) => r matches Ok(g) && yarn_packages(g, es, dev_names.deep_view())
                && g.dep_edges.deep_is(edge_map(scan_edges(lines(content@), 0))),
            Err(msg) => r matches Err(LockpickError::Parse(m)) && m@ == msg,
        },
{
    let mut graph = match parse_with_dev_names(content, dev_names) {
        Ok(g) => g,
        Err(e) => {
            return Err(e);
        },
    };
    let ghost g0 = graph;
    let ghost dv = dev_names.deep_view();
    let ghost es = yarn_result(content@, dv)->Ok_0;
    let text = chars_of(content);
    let ls = lines_of(text.as_slice());
    let ghost ld = lines(content@);
    assert(ls.deep_view() =~= ld) by {
        assert forall|k: int| 0 <= k < ls@.len() implies #[trigger] ls.deep_view()[k] == ld[k] by {
            assert(ls@[k].deep_view() =~= ls@[k]@);
        }
    }
    let ghost mut done: Seq<(Seq<char>, Seq<(Seq<char>, Seq<char>)>)> = Seq::empty();
    proof {
        assert(done + scan_edges(ld, 0) =~= scan_edges(ld, 0));
        assert forall|q: Seq<char>| #[trigger] graph.dep_edges.has(q) implies false by {}
        assert(graph.dep_edges.deep_is(edge_map(done)));
    }
    let mut i: usize = 0;
    while i < ls.len()
        invariant
            i <= ls@.len(),
            ld == ls.deep_view(),
            scan_edges(ld, 0) == done + scan_edges(ld, i as int),
            graph.dep_edges.deep_is(edge_map(done)),
            yarn_packages(graph, es, dv),
        decreases ls@.len() - i,
    {
        assert(ld[i as int] == ls@[i as int]@) by {
            assert(ls@[i as int].deep_view() =~= ls@[i as int]@);
        }
        if is_header(ls[i].as_slice()) {
            let (found, end) = read_edges(&ls, i);
            proof {
                lemma_block_end(ld, i + 1);
            }
            match found {
                Some((key, edges)) => {
                    let ghost item = (key@, edges.deep_view());
                    let ghost gedges = edges;
                    let ghost before = graph.dep_edges;
                    graph.dep_edges.well_formed();
                    let ghost had = graph.dep_edges.has(key@);
                    graph.dep_edges.insert(key, edges);
                    graph.dep_edges.well_formed();
                    proof {
                        let nd = done.push(item);
                        assert(nd.drop_last() =~= done);
                        assert(edge_map(nd) == edge_map(done).insert(item.0, item.1));
                        if had {
                            StrMap::<Vec<DepEdge>>::lemma_deep_is_update(
                                before,
                                graph.dep_edges,
                                item.0,
                                gedges,
                                edge_map(done),
                            );
                        } else {
                            StrMap::<Vec<DepEdge>>::lemma_deep_is_push(
                                before,
                                graph.dep_edges,
                                item.0,
                                gedges,
                                edge_map(done),
                            );
                        }
                        assert(done + scan_edges(ld, i as int) =~= nd + scan_edges(ld, end as int));
                        done = nd;
                    }
                },
                None => {},
            }
            i = end;
        } else {
            i = i + 1;
        }
    }
    assert(done + scan_edges(ld, i as int) =~= done);
    Ok(graph)
}

/// Reads the edges of the entry whose header is line `i`: its key and
/// edge list when it has a version and at least one edge, and the first
/// line after its block.
fn read_edges(ls: &Vec<Vec<char>>, i: usize) -> (r: (Option<(String, Vec<DepEdge>)>, usize))
    requires
        i < ls@.len(),
    ensures
        r.1 == block_end(ls.deep_view(), i + 1),
        ({
            let st = edge_block(ls.deep_view(), i + 1, r.1 as int);
            if st.1.len() > 0 && st.0.len() > 0 {
                r.0 matches Some(x) && x.0@ == edge_name(ls.deep_view(), i as int) + "@"@ + st.0
                    && x.1.deep_view() == st.1
            } else {
                r.0 is None
            }
        }),
{
    let ghost ld = ls.deep_view();
    let n = ls.len();
    assert(ld[i as int] == ls@[i as int]@) by {
        assert(ls@[i as int].deep_view() =~= ls@[i as int]@);
    }
    let stripped = trim_end_char_exec(ls[i].as_slice(), ':');
    let header = trim_chars(stripped.as_slice());
    let name = match extract_package_name(header.as_slice()) {
        Ok(n) => n,
        Err(_) => String::new(),
    };
    assert(name@ == edge_name(ld, i as int));
    proof {
        reveal_strlit("version ");
        reveal_strlit("version");
        assert("version "@.subrange(0, 7) =~= "version"@);
        lemma_block_end(ld, i + 1);
    }
    let deps_line = chars_of("dependencies:");
    let mut version: Vec<char> = Vec::new();
    let mut edges: Vec<DepEdge> = Vec::new();
    let mut in_deps = false;
    let mut j: usize = i + 1;
    assert(version@ =~= Seq::<char>::empty());
    assert(edges.deep_view() =~= Seq::<(Seq<char>, Seq<char>)>::empty());
    while j < n && ls[j].len() > 0 && ls[j][0] == ' '
        invariant
            i + 1 <= j <= ls@.len(),
            n == ls@.len(),
            ld == ls.deep_view(),
            deps_line@ == "dependencies:"@,
            block_end(ld, i + 1) == block_end(ld, j as int),
            (version@, edges.deep_view(), in_deps) == edge_block(ld, i + 1, j as int),
            "version "@.len() == 8,
            "version "@.subrange(0, 7) == "version"@,
        decreases ls@.len() - j,
    {
        assert(ld[j as int] == ls@[j as int]@) by {
            assert(ls@[j as int].deep_view() =~= ls@[j as int]@);
        }
        assert(indented(ld[j as int])) by {
            assert(ld[j as int].subrange(0, 1) =~= seq![' ']);
        }
        let t = trim_chars(ls[j].as_slice());
        if starts_with_str(t.as_slice(), "version ") {
            assert(starts_with(t@, "version"@)) by {
                assert(t@.subrange(0, 7) =~= "version "@.subrange(0, 7));
            }
            version = match extract_quoted_value(t.as_slice(), "version") {
                Ok(v) => v,
                Err(_) => Vec::new(),
            };
        } else if crate::text::chars_eq(t.as_slice(), deps_line.as_slice()) {
            in_deps = true;
        } else if in_deps && crate::text::has_char(t.as_slice(), ' ') {
            proof {
                crate::text::lemma_first_index_found(t@, ' ');
            }
            let p = match find_char(t.as_slice(), ' ') {
                Some(p) => p,
                None => {
                    assert(!t@.contains(' '));
                    0
                },
            };
            let tl = t.len();
            assert(p < tl);
            let left = sub_chars(t.as_slice(), 0, p);
            let right = sub_chars(t.as_slice(), p + 1, tl);
            assert(left@ =~= t@.take(p as int));
            assert(right@ =~= t@.skip(p + 1));
            let dep_name = trim_char_exec(left.as_slice(), '"');
            let dep_version = trim_char_exec(right.as_slice(), '"');
            let ghost before = edges.deep_view();
            let edge = DepEdge {
                name: string_of(dep_name.as_slice()),
                version: string_of(dep_version.as_slice()),
            };
            edges.push(edge);
            assert(edges.deep_view() =~= before.push(edge.deep_view()));
        } else {
            in_deps = false;
        }
        j = j + 1;
    }
    assert(j < ls@.len() ==> !indented(ld[j as int])) by {
        if j < ls@.len() {
            assert(ld[j as int] == ls@[j as int]@) by {
                assert(ls@[j as int].deep_view() =~= ls@[j as int]@);
            }
            if indented(ld[j as int]) {
                let first = ld[j as int].subrange(0, 1);
                assert(first[0] == ' ');
                assert(first[0] == ld[j as int][0]);
            }
        }
    }
    assert(block_end(ld, j as int) == j);
    if edges.len() > 0 && version.len() > 0 {
        let mut key = name;
        push_str(&mut key, "@");
        push_chars(&mut key, version.as_slice());
        (Some((key, edges)), j)
    } else {
        (None, j)
    }
}

/// Whether `name` is one of `names`.
fn contains_name(names: &[String], name: &str) -> (b: bool)
    ensures
        b == names.deep_view().contains(name@),
{
    let ghost nv = names.deep_view();
    let mut i: usize = 0;
    while i < names.len()
        invariant
            i <= names@.len(),
            nv == names.deep_view(),
            forall|k: int| 0 <= k < i ==> nv[k] != name@,
        decreases names@.len() - i,
    {
        if crate::text::str_eq(names[i].as_str(), name) {
            assert(nv[i as int] == name@);
            return true;
        }
        i = i + 1;
    }
    false
}

/// Adding an entry extends the version list of its name.
pub proof fn lemma_version_lists_push(done: Seq<EntryView>, e: EntryView)
    ensures
        version_lists(done.push(e)) == (if version_lists(done).dom().contains(e.0) {
            version_lists(done).insert(e.0, version_lists(done)[e.0].push(e.1))
        } else {
            version_lists(done).insert(e.0, seq![e.1])
        }),
{
    assert(done.push(e).drop_last() =~= done);
}

/// What `push_to` does to a map of version lists, in terms of deep views.
pub proof fn lemma_push_to_deep(
    before: StrMap<Vec<String>>,
    after: StrMap<Vec<String>>,
    k: Seq<char>,
    item: String,
    target: Map<Seq<char>, Seq<Seq<char>>>,
)
    requires
        before.deep_is(target),
        before.keys().no_duplicates(),
        before.keys().len() == before.vals().len(),
        after.keys().no_duplicates(),
        before.has(k) ==> after.keys() == before.keys() && after.vals().len()
            == before.vals().len() && (forall|j: int|
            0 <= j < before.vals().len() && j != before.pos(k) ==> #[trigger] after.vals()[j]
                == before.vals()[j]) && after.vals()[before.pos(k)]@ == before.vals()[before.pos(
            k,
        )]@.push(item),
        !before.has(k) ==> after.keys() == before.keys().push(k) && after.vals().len()
            == before.vals().len() + 1 && (forall|j: int|
            0 <= j < before.vals().len() ==> #[trigger] after.vals()[j] == before.vals()[j])
            && after.vals().last()@ == seq![item],
    ensures
        after.deep_is(
            if target.dom().contains(k) {
                target.insert(k, target[k].push(item@))
            } else {
                target.insert(k, seq![item@])
            },
        ),
{
    if before.has(k) {
        let p = before.pos(k);
        let nv = after.vals()[p];
        assert(after.vals() =~= before.vals().update(p, nv));
        assert(nv.deep_view() =~= before.vals()[p].deep_view().push(item@));
        StrMap::<Vec<String>>::lemma_deep_is_update(before, after, k, nv, target);
    } else {
        let nv = after.vals().last();
        assert(after.vals() =~= before.vals().push(nv));
        assert(nv.deep_view() =~= seq![item@]);
        StrMap::<Vec<String>>::lemma_deep_is_push(before, after, k, nv, target);
    }
}

} // verus!
