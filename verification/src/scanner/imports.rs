//! Package names from module specifiers in import statements.
use vstd::prelude::*;

use crate::text::{chars_eq, chars_of, split_chars, split_on, starts_with, starts_with_str, string_of};

verus! {

/// Node.js built-in modules.
pub open spec fn node_builtins() -> Seq<Seq<char>> {
    seq![
        "assert"@,
        "async_hooks"@,
        "buffer"@,
        "child_process"@,
        "cluster"@,
        "console"@,
        "constants"@,
        "crypto"@,
        "dgram"@,
        "diagnostics_channel"@,
        "dns"@,
        "domain"@,
        "events"@,
        "fs"@,
        "http"@,
        "http2"@,
        "https"@,
        "inspector"@,
        "module"@,
        "net"@,
        "os"@,
        "path"@,
        "perf_hooks"@,
        "process"@,
        "punycode"@,
        "querystring"@,
        "readline"@,
        "repl"@,
        "stream"@,
        "string_decoder"@,
        "sys"@,
        "timers"@,
        "tls"@,
        "trace_events"@,
        "tty"@,
        "url"@,
        "util"@,
        "v8"@,
        "vm"@,
        "wasi"@,
        "worker_threads"@,
        "zlib"@
    ]
}

/// The built-in module table.
fn builtin_table() -> (v: Vec<&'static str>)
    ensures
        v@.len() == node_builtins().len(),
        forall|i: int| 0 <= i < v@.len() ==> #[trigger] v@[i]@ == node_builtins()[i],
{
    vec![
        "assert",
        "async_hooks",
        "buffer",
        "child_process",
        "cluster",
        "console",
        "constants",
        "crypto",
        "dgram",
        "diagnostics_channel",
        "dns",
        "domain",
        "events",
        "fs",
        "http",
        "http2",
        "https",
        "inspector",
        "module",
        "net",
        "os",
        "path",
        "perf_hooks",
        "process",
        "punycode",
        "querystring",
        "readline",
        "repl",
        "stream",
        "string_decoder",
        "sys",
        "timers",
        "tls",
        "trace_events",
        "tty",
        "url",
        "util",
        "v8",
        "vm",
        "wasi",
        "worker_threads",
        "zlib",
    ]
}

/// A specifier naming a built-in module (its first path segment is one).
pub open spec fn is_builtin(source: Seq<char>) -> bool {
    node_builtins().contains(split_on(source, '/')[0])
}

/// The package an import specifier names: none for relative paths,
/// `node:` modules and built-ins; `@scope/pkg` for scoped specifiers; the
/// first path segment otherwise.
pub open spec fn package_of_specifier(source: Seq<char>) -> Option<Seq<char>> {
    let parts = split_on(source, '/');
    if starts_with(source, "."@) || starts_with(source, "node:"@) || is_builtin(source) {
        None
    } else if starts_with(source, "@"@) {
        if parts.len() >= 2 {
            Some(parts[0] + "/"@ + parts[1])
        } else {
            Some(source)
        }
    } else {
        Some(parts[0])
    }
}

/// Whether a specifier names a built-in module.
fn is_node_builtin(name: &[char]) -> (b: bool)
    ensures
        b == is_builtin(name@),
{
    let parts = split_chars(name, '/');
    proof {
        crate::text::lemma_split_on_nonempty(name@, '/');
    }
    let base = &parts[0];
    let table = builtin_table();
    let mut i: usize = 0;
    while i < table.len()
        invariant
            i <= table@.len(),
            table@.len() == node_builtins().len(),
            forall|k: int| 0 <= k < table@.len() ==> #[trigger] table@[k]@ == node_builtins()[k],
            base@ == split_on(name@, '/')[0],
            forall|k: int| 0 <= k < i ==> node_builtins()[k] != base@,
        decreases table@.len() - i,
    {
        let e = chars_of(table[i]);
        if chars_eq(e.as_slice(), base.as_slice()) {
            assert(node_builtins()[i as int] == base@);
            return true;
        }
        i = i + 1;
    }
    false
}

/// Normalizes an import specifier to the package it names: `@scope/pkg/sub`
/// gives `@scope/pkg`, `lodash/get` gives `lodash`; relative paths and
/// Node.js built-ins give none.
pub fn normalize_package_name(source: &str) -> (r: Option<String>)
    ensures
        match package_of_specifier(source@) {
            Some(p) => r matches Some(s) && s@ == p,
            None => r is None,
        },
{
    let cs = chars_of(source);
    if starts_with_str(cs.as_slice(), ".") || starts_with_str(cs.as_slice(), "node:") || is_node_builtin(
        cs.as_slice(),
    ) {
        return None;
    }
    let parts = split_chars(cs.as_slice(), '/');
    proof {
        crate::text::lemma_split_on_nonempty(source@, '/');
    }
    if starts_with_str(cs.as_slice(), "@") {
        if parts.len() >= 2 {
            let mut s = string_of(parts[0].as_slice());
            crate::text::push_str(&mut s, "/");
            crate::text::push_chars(&mut s, parts[1].as_slice());
            return Some(s);
        }
        return Some(string_of(cs.as_slice()));
    }
    Some(string_of(parts[0].as_slice()))
}

/// The pieces joined again, with `c` between neighbours.
pub open spec fn joined(ps: Seq<Seq<char>>, c: char) -> Seq<char>
    decreases ps.len(),
{
    if ps.len() <= 1 {
        if ps.len() == 1 {
            ps[0]
        } else {
            Seq::empty()
        }
    } else {
        joined(ps.drop_last(), c) + seq![c] + ps.last()
    }
}

/// Splitting on `c` gives pieces free of `c` that join back to the text.
proof fn lemma_split_join(s: Seq<char>, c: char)
    ensures
        split_on(s, c).len() >= 1,
        joined(split_on(s, c), c) == s,
        forall|k: int| 0 <= k < split_on(s, c).len() ==> !(#[trigger] split_on(s, c)[k]).contains(c),
    decreases s.len(),
{
    if s.len() > 0 {
        let init = split_on(s.drop_last(), c);
        lemma_split_join(s.drop_last(), c);
        let r = split_on(s, c);
        if s.last() == c {
            assert(r.drop_last() =~= init);
            assert(joined(r, c) =~= s);
            assert forall|k: int| 0 <= k < r.len() implies !(#[trigger] r[k]).contains(c) by {
                if k < init.len() {
                    assert(r[k] == init[k]);
                }
            }
        } else {
            let n = init.len();
            let lastp = init[n - 1].push(s.last());
            assert(r == init.update(n - 1, lastp));
            assert forall|k: int| 0 <= k < r.len() implies !(#[trigger] r[k]).contains(c) by {
                if k < n - 1 {
                    assert(r[k] == init[k]);
                } else {
                    assert(r[k] == lastp);
                    if lastp.contains(c) {
                        let j = choose|j: int| 0 <= j < lastp.len() && lastp[j] == c;
                        assert(init[n - 1][j] == c);
                    }
                }
            }
            if n == 1 {
                assert(joined(r, c) == lastp);
                assert(init[0] == s.drop_last());
                assert(lastp =~= s);
            } else {
                assert(r.drop_last() =~= init.drop_last());
                assert(joined(init, c) == joined(init.drop_last(), c) + seq![c] + init[n - 1]);
                assert(joined(r, c) =~= joined(init, c).push(s.last()));
                assert(s =~= s.drop_last().push(s.last()));
            }
        }
    }
}

/// The joined text starts with its first piece, and with the first two
/// pieces and the separator between them.
proof fn lemma_joined_prefix(ps: Seq<Seq<char>>, c: char)
    requires
        ps.len() >= 1,
    ensures
        starts_with(joined(ps, c), ps[0]),
        ps.len() >= 2 ==> starts_with(joined(ps, c), ps[0] + seq![c] + ps[1]),
    decreases ps.len(),
{
    let j = joined(ps, c);
    if ps.len() == 1 {
        assert(j.subrange(0, ps[0].len() as int) =~= ps[0]);
    } else if ps.len() == 2 {
        assert(ps.drop_last().len() == 1 && ps.drop_last()[0] == ps[0]);
        assert(joined(ps.drop_last(), c) == ps[0]);
        assert(ps.last() == ps[1]);
        let p = ps[0] + seq![c] + ps[1];
        assert(j =~= p);
        assert(j.subrange(0, ps[0].len() as int) =~= ps[0]);
        assert(j.subrange(0, p.len() as int) =~= p);
    } else {
        let d = ps.drop_last();
        lemma_joined_prefix(d, c);
        assert(d[0] == ps[0] && d[1] == ps[1]);
        let jd = joined(d, c);
        assert(j == jd + seq![c] + ps.last());
        let p = ps[0] + seq![c] + ps[1];
        assert(jd.subrange(0, p.len() as int) =~= p);
        assert(j.subrange(0, p.len() as int) =~= jd.subrange(0, p.len() as int));
        assert(jd.subrange(0, ps[0].len() as int) =~= ps[0]);
        assert(j.subrange(0, ps[0].len() as int) =~= jd.subrange(0, ps[0].len() as int));
    }
}

/// An import specifier names no package exactly when it is relative, a
/// `node:` module or a built-in; the package it names is a prefix of it,
/// and either a scoped name or a name without `/`.
pub proof fn law_package_of_specifier(source: Seq<char>)
    ensures
        package_of_specifier(source) is None <==> (starts_with(source, "."@) || starts_with(source, "node:"@)
            || is_builtin(source)),
        package_of_specifier(source) matches Some(p) ==> starts_with(source, p) && (starts_with(p, "@"@)
            || !p.contains('/')),
{
    let parts = split_on(source, '/');
    lemma_split_join(source, '/');
    lemma_joined_prefix(parts, '/');
    match package_of_specifier(source) {
        Some(p) => {
            reveal_strlit("@");
            reveal_strlit("/");
            if starts_with(source, "@"@) {
                assert("@"@.len() == 1 && "@"@[0] == '@');
                assert(source.subrange(0, 1)[0] == source[0]);
                assert(source[0] == '@');
                if parts.len() >= 2 {
                    assert(p == parts[0] + "/"@ + parts[1]);
                    assert("/"@ =~= seq!['/']);
                    if parts[0].len() == 0 {
                        let q = parts[0] + seq!['/'] + parts[1];
                        assert(source.subrange(0, q.len() as int) == q);
                        assert(source[0] == q[0]);
                    }
                    assert(parts[0][0] == source[0]);
                    assert(p[0] == parts[0][0]);
                    assert(p.subrange(0, 1) =~= "@"@);
                }
            } else {
                assert(p == parts[0]);
            }
        },
        None => {},
    }
}

/// Appending text without `c` extends the last piece.
proof fn lemma_split_append_plain(x: Seq<char>, y: Seq<char>, c: char)
    requires
        !y.contains(c),
    ensures
        split_on(x + y, c) == split_on(x, c).update(
            split_on(x, c).len() - 1,
            split_on(x, c).last() + y,
        ),
    decreases y.len(),
{
    crate::text::lemma_split_on_nonempty(x, c);
    if y.len() == 0 {
        assert(x + y =~= x);
        assert(split_on(x, c).last() + y =~= split_on(x, c).last());
        assert(split_on(x, c).update(split_on(x, c).len() - 1, split_on(x, c).last()) =~= split_on(x, c));
    } else {
        let yd = y.drop_last();
        assert(!yd.contains(c)) by {
            if yd.contains(c) {
                let j = choose|j: int| 0 <= j < yd.len() && yd[j] == c;
                assert(y[j] == c);
            }
        }
        lemma_split_append_plain(x, yd, c);
        assert((x + y).drop_last() =~= x + yd);
        assert((x + y).last() == y.last());
        assert(y[y.len() - 1] != c);
        let sx = split_on(x, c);
        assert((sx.last() + yd).push(y.last()) =~= sx.last() + y);
        assert(split_on(x, c).update(sx.len() - 1, sx.last() + yd).update(sx.len() - 1, sx.last() + y)
            =~= sx.update(sx.len() - 1, sx.last() + y));
    }
}

/// Text without `c` is one piece; two such pieces joined by `c` split back
/// into them.
proof fn lemma_split_two(a: Seq<char>, b: Seq<char>, c: char)
    requires
        !a.contains(c),
        !b.contains(c),
    ensures
        split_on(a, c) == seq![a],
        split_on(a + seq![c] + b, c) == seq![a, b],
{
    let e = Seq::<char>::empty();
    lemma_split_append_plain(e, a, c);
    assert(e + a =~= a);
    assert(split_on(e, c) == seq![e]);
    assert(seq![e].update(0, e + a) =~= seq![a]);
    let ac = a + seq![c];
    assert(ac.drop_last() =~= a);
    assert(ac.last() == c);
    assert(split_on(ac, c) == seq![a].push(e));
    lemma_split_append_plain(ac, b, c);
    assert(seq![a].push(e).update(1, e + b) =~= seq![a, b]);
    assert(e + b =~= b);
}

/// The package an import specifier names is named by itself.
pub proof fn law_package_names_name_themselves(source: Seq<char>)
    ensures
        package_of_specifier(source) matches Some(p) ==> package_of_specifier(p) == Some(p),
{
    let parts = split_on(source, '/');
    lemma_split_join(source, '/');
    lemma_joined_prefix(parts, '/');
    law_package_of_specifier(source);
    reveal_strlit("@");
    reveal_strlit("/");
    reveal_strlit(".");
    reveal_strlit("node:");
    match package_of_specifier(source) {
        Some(p) => {
            assert(!parts[0].contains('/'));
            if starts_with(source, "@"@) && parts.len() >= 2 {
                assert(!parts[1].contains('/'));
                assert("/"@ =~= seq!['/']);
                lemma_split_two(parts[0], parts[1], '/');
                assert(split_on(p, '/') == seq![parts[0], parts[1]]);
                assert(p[parts[0].len() as int] == '/');
                assert(p.contains('/'));
                assert(starts_with(p, "@"@));
                assert(p[0] == '@');
                assert(!starts_with(p, "."@)) by {
                    assert("."@[0] == '.');
                    if starts_with(p, "."@) {
                        assert(p.subrange(0, 1)[0] == p[0]);
                    }
                }
                assert(!starts_with(p, "node:"@)) by {
                    assert("node:"@[0] == 'n');
                    if starts_with(p, "node:"@) {
                        assert(p.subrange(0, 5)[0] == p[0]);
                    }
                }
            } else if starts_with(source, "@"@) {
                assert(p == source);
            } else {
                assert(p == parts[0]);
                lemma_split_two(parts[0], parts[0], '/');
                assert(split_on(p, '/') == seq![p]);
                assert(!starts_with(p, "."@)) by {
                    if starts_with(p, "."@) {
                        assert(p.subrange(0, 1) =~= source.subrange(0, 1));
                    }
                }
                assert(!starts_with(p, "node:"@)) by {
                    if starts_with(p, "node:"@) {
                        assert(p.subrange(0, 5) =~= source.subrange(0, 5));
                    }
                }
                assert(!starts_with(p, "@"@)) by {
                    if starts_with(p, "@"@) {
                        assert(p.subrange(0, 1) =~= source.subrange(0, 1));
                    }
                }
            }
        },
        None => {},
    }
}

/// A piece of a parsed JS/TS module, as far as imports are concerned.
#[derive(Debug)]
pub enum JsNode {
    /// An `import ... from`, `export ... from` or `export * from`
    /// declaration, with its module specifier.
    ModuleDecl(String),
    /// A call: the specifier of `require('..')`, of `require.resolve('..')`,
    /// and of each `require('..')` or `import('..')` written directly as one
    /// of its arguments (none where the call or argument is not of that
    /// form or its specifier is not a string literal).
    Call { require: Option<String>, resolve: Option<String>, nested: Vec<Option<String>> },
    /// A dynamic `import(..)`, with its specifier when it is a string
    /// literal.
    DynamicImport(Option<String>),
    /// A construct whose parts are searched in order: a block or body, a
    /// declaration's initialisers, the test and branches of an `if`, a
    /// loop's body, a `switch`, a `return`, an `await`, a conditional or
    /// logical expression, an assignment's value, a function or class body,
    /// a sequence.
    Parts(Vec<JsNode>),
    /// Anything else: nothing in it is searched.
    Other,
}

/// The package a specifier names, if it names one.
pub open spec fn specifier_package(o: Option<String>) -> Seq<Seq<char>> {
    match o {
        Some(s) => match package_of_specifier(s@) {
            Some(p) => seq![p],
            None => Seq::empty(),
        },
        None => Seq::empty(),
    }
}

/// The packages named by a call's nested specifiers, in order.
pub open spec fn nested_packages(ns: Seq<Option<String>>) -> Seq<Seq<char>>
    decreases ns.len(),
{
    if ns.len() == 0 {
        Seq::empty()
    } else {
        nested_packages(ns.drop_last()) + specifier_package(ns.last())
    }
}

/// The packages a node imports, in the order they are met.
pub open spec fn node_imports(n: JsNode) -> Seq<Seq<char>>
    decreases n, 1nat,
{
    match n {
        JsNode::ModuleDecl(s) => specifier_package(Some(s)),
        JsNode::Call { require, resolve, nested } => specifier_package(require) + specifier_package(resolve)
            + nested_packages(nested@),
        JsNode::DynamicImport(o) => specifier_package(o),
        JsNode::Parts(v) => {
            proof {
                assert(decreases_to!(n => v));
                assert(decreases_to!(v => v@));
            }
            nodes_imports(v@)
        },
        JsNode::Other => Seq::empty(),
    }
}

/// The packages a sequence of nodes imports, in order.
pub open spec fn nodes_imports(ns: Seq<JsNode>) -> Seq<Seq<char>>
    decreases ns, 0nat,
{
    if ns.len() == 0 {
        Seq::empty()
    } else {
        proof {
            assert(decreases_to!(ns => ns.subrange(0, ns.len() - 1)));
            assert(decreases_to!(ns => ns[ns.len() - 1]));
        }
        nodes_imports(ns.subrange(0, ns.len() - 1)) + node_imports(ns[ns.len() - 1])
    }
}

/// Appends the package a specifier names, if any.
fn push_specifier(out: &mut Vec<String>, o: &Option<String>)
    ensures
        final(out).deep_view() == old(out).deep_view() + specifier_package(*o),
{
    if let Some(s) = o {
        if let Some(p) = normalize_package_name(s.as_str()) {
            let ghost before = out.deep_view();
            out.push(p);
            assert(out.deep_view() =~= before.push(p@));
            return;
        }
    }
    assert(old(out).deep_view() + Seq::<Seq<char>>::empty() =~= old(out).deep_view());
}

/// Appends the packages a node imports.
#[verifier::loop_isolation(false)]
fn collect_imports(n: &JsNode, out: &mut Vec<String>)
    ensures
        final(out).deep_view() == old(out).deep_view() + node_imports(*n),
    decreases *n,
{
    let ghost start = out.deep_view();
    match n {
        JsNode::ModuleDecl(s) => {
            let o = Some(s.clone());
            push_specifier(out, &o);
        },
        JsNode::Call { require, resolve, nested } => {
            push_specifier(out, require);
            push_specifier(out, resolve);
            let ghost mid = out.deep_view();
            let mut i: usize = 0;
            while i < nested.len()
                invariant
                    i <= nested@.len(),
                    out.deep_view() == mid + nested_packages(nested@.take(i as int)),
                decreases nested@.len() - i,
            {
                assert(nested@.take(i + 1).drop_last() =~= nested@.take(i as int));
                push_specifier(out, &nested[i]);
                i = i + 1;
            }
            assert(nested@.take(nested@.len() as int) =~= nested@);
            assert(out.deep_view() =~= start + node_imports(*n));
        },
        JsNode::DynamicImport(o) => {
            push_specifier(out, o);
        },
        JsNode::Parts(v) => {
            let mut i: usize = 0;
            assert(v@.take(0) =~= Seq::<JsNode>::empty());
            assert(out.deep_view() =~= start + nodes_imports(v@.take(0)));
            while i < v.len()
                invariant
                    i <= v@.len(),
                    out.deep_view() == start + nodes_imports(v@.take(i as int)),
                decreases v@.len() - i,
            {
                proof {
                    assert(decreases_to!(*n => *v));
                    assert(decreases_to!(*v => v@));
                    assert(decreases_to!(v@ => v@[i as int]));
                }
                let ghost t = v@.take(i + 1);
                assert(t.subrange(0, t.len() - 1) =~= v@.take(i as int));
                assert(t[t.len() - 1] == v@[i as int]);
                collect_imports(&v[i], out);
                assert(out.deep_view() =~= start + nodes_imports(v@.take(i + 1)));
                i = i + 1;
            }
            assert(v@.take(v@.len() as int) =~= v@);
        },
        JsNode::Other => {
            assert(out.deep_view() =~= start + Seq::<Seq<char>>::empty());
        },
    }
}

/// The packages a module imports, in the order they are met (a package
/// met twice is listed twice).
pub fn imports_of(nodes: &Vec<JsNode>) -> (r: Vec<String>)
    ensures
        r.deep_view() == nodes_imports(nodes@),
{
    let mut out: Vec<String> = Vec::new();
    let mut i: usize = 0;
    assert(nodes@.take(0) =~= Seq::<JsNode>::empty());
    assert(out.deep_view() =~= nodes_imports(nodes@.take(0)));
    while i < nodes.len()
        invariant
            i <= nodes@.len(),
            out.deep_view() == nodes_imports(nodes@.take(i as int)),
        decreases nodes@.len() - i,
    {
        let ghost t = nodes@.take(i + 1);
        assert(t.subrange(0, t.len() - 1) =~= nodes@.take(i as int));
        assert(t[t.len() - 1] == nodes@[i as int]);
        collect_imports(&nodes[i], &mut out);
        i = i + 1;
    }
    assert(nodes@.take(nodes@.len() as int) =~= nodes@);
    out
}

} // verus!
