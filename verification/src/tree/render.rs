//! Rendering dependency trees as text, Graphviz DOT or Mermaid.
use vstd::prelude::*;

use super::{tv, tvs, DepTree, TreeNode, TreeV};
use crate::i18n::I18n;
use crate::text::{chars_of, push_str};
use crate::DepType;

verus! {

/// Output formats for a tree.
#[derive(Debug, Clone, Copy, PartialEq, Eq, Structural)]
pub enum TreeFormat {
    Terminal,
    Dot,
    Json,
    Mermaid,
}

/// `name@version`.
pub open spec fn node_label(t: TreeV) -> Seq<char> {
    t.name + "@"@ + t.version
}

/// A node's label in the text tree: `name@version`, marked when circular.
pub open spec fn label(t: TreeV) -> Seq<char> {
    node_label(t) + if t.circular {
        " (circular)"@
    } else {
        ""@
    }
}

/// A root's label: also marked when it is a dev dependency.
pub open spec fn root_label(t: TreeV) -> Seq<char> {
    label(t) + if t.dep_type == DepType::Dev {
        " (dev)"@
    } else {
        ""@
    }
}

/// The branch drawn before an entry.
pub open spec fn connector(last: bool) -> Seq<char> {
    if last {
        "└── "@
    } else {
        "├── "@
    }
}

/// What the entries below an entry are indented with.
pub open spec fn extension(last: bool) -> Seq<char> {
    if last {
        "    "@
    } else {
        "│   "@
    }
}

/// The text tree of the entries `cs[i..]` and everything below them.
pub open spec fn children_text(cs: Seq<TreeV>, i: int, prefix: Seq<char>) -> Seq<char>
    decreases cs, cs.len() - i,
{
    if i < 0 || i >= cs.len() {
        Seq::empty()
    } else {
        let last = i == cs.len() - 1;
        prefix + connector(last) + label(cs[i]) + "\n"@ + children_text(
            cs[i].children,
            0,
            prefix + extension(last),
        ) + children_text(cs, i + 1, prefix)
    }
}

/// The text tree of the roots `rs[i..]`.
pub open spec fn roots_text(rs: Seq<TreeV>, i: int) -> Seq<char>
    decreases rs.len() - i,
{
    if i < 0 || i >= rs.len() {
        Seq::empty()
    } else {
        let last = i == rs.len() - 1;
        connector(last) + root_label(rs[i]) + "\n"@ + children_text(
            rs[i].children,
            0,
            extension(last),
        ) + roots_text(rs, i + 1)
    }
}

/// The DOT edges from `from` to the children `cs[i..]` that are not
/// circular, each followed by the edges below it.
pub open spec fn dot_text(from: Seq<char>, cs: Seq<TreeV>, i: int) -> Seq<char>
    decreases cs, cs.len() - i,
{
    if i < 0 || i >= cs.len() {
        Seq::empty()
    } else {
        let c = cs[i];
        (if c.circular {
            Seq::empty()
        } else {
            "  \""@ + from + "\" -> \""@ + node_label(c) + "\";\n"@ + dot_text(
                node_label(c),
                c.children,
                0,
            )
        }) + dot_text(from, cs, i + 1)
    }
}

/// The DOT edges below the roots `rs[i..]`.
pub open spec fn dot_roots(rs: Seq<TreeV>, i: int) -> Seq<char>
    decreases rs.len() - i,
{
    if i < 0 || i >= rs.len() {
        Seq::empty()
    } else {
        dot_text(node_label(rs[i]), rs[i].children, 0) + dot_roots(rs, i + 1)
    }
}

/// A label as a Mermaid node id: `@`, `/` and `.` become `_`.
pub open spec fn mermaid_id(s: Seq<char>) -> Seq<char> {
    s.map_values(
        |c: char|
            if c == '@' || c == '/' || c == '.' {
                '_'
            } else {
                c
            },
    )
}

/// The Mermaid edges from `from` to the children `cs[i..]` that are not
/// circular, each followed by the edges below it.
pub open spec fn mermaid_text(from: Seq<char>, cs: Seq<TreeV>, i: int) -> Seq<char>
    decreases cs, cs.len() - i,
{
    if i < 0 || i >= cs.len() {
        Seq::empty()
    } else {
        let c = cs[i];
        let to = node_label(c);
        (if c.circular {
            Seq::empty()
        } else {
            "  "@ + mermaid_id(from) + "[\""@ + from + "\"] --> "@ + mermaid_id(to) + "[\""@ + to
                + "\"]\n"@ + mermaid_text(to, c.children, 0)
        }) + mermaid_text(from, cs, i + 1)
    }
}

/// The Mermaid edges below the roots `rs[i..]`.
pub open spec fn mermaid_roots(rs: Seq<TreeV>, i: int) -> Seq<char>
    decreases rs.len() - i,
{
    if i < 0 || i >= rs.len() {
        Seq::empty()
    } else {
        mermaid_text(node_label(rs[i]), rs[i].children, 0) + mermaid_roots(rs, i + 1)
    }
}

/// The rendering of a tree's roots in a format; JSON is not rendered here
/// (it is the tree serialized as it stands).
pub open spec fn rendered(rs: Seq<TreeV>, format: TreeFormat) -> Option<Seq<char>> {
    match format {
        TreeFormat::Terminal => Some(roots_text(rs, 0)),
        TreeFormat::Dot => Some(
            "digraph dependencies {\n  rankdir=LR;\n"@ + dot_roots(rs, 0) + "}\n"@,
        ),
        TreeFormat::Mermaid => Some("graph LR\n"@ + mermaid_roots(rs, 0)),
        TreeFormat::Json => None,
    }
}

/// Renders a tree in the given format; for JSON the result is `None` and the
/// caller serializes the tree itself.
pub fn render(tree: &DepTree, format: &TreeFormat, _i18n: &I18n) -> (r: Option<String>)
    ensures
        match rendered(tvs(tree.roots@), *format) {
            Some(t) => r matches Some(s) && s@ == t,
            None => r is None,
        },
{
    match format {
        TreeFormat::Terminal => Some(render_terminal(tree)),
        TreeFormat::Dot => Some(render_dot(tree)),
        TreeFormat::Json => None,
        TreeFormat::Mermaid => Some(render_mermaid(tree)),
    }
}

/// Appends a node's label.
fn push_label(out: &mut String, node: &TreeNode)
    ensures
        final(out)@ == old(out)@ + label(tv(*node)),
{
    push_str(out, node.name.as_str());
    push_str(out, "@");
    push_str(out, node.version.as_str());
    if node.circular {
        push_str(out, " (circular)");
    } else {
        push_str(out, "");
    }
}

/// Appends a root's label.
fn push_root_label(out: &mut String, node: &TreeNode)
    ensures
        final(out)@ == old(out)@ + root_label(tv(*node)),
{
    push_label(out, node);
    match node.dep_type {
        DepType::Dev => push_str(out, " (dev)"),
        DepType::Prod => push_str(out, ""),
    }
}

/// Appends the branch drawn before an entry.
fn push_connector(out: &mut String, last: bool)
    ensures
        final(out)@ == old(out)@ + connector(last),
{
    if last {
        push_str(out, "└── ");
    } else {
        push_str(out, "├── ");
    }
}

/// The text tree of a tree's roots.
fn render_terminal(tree: &DepTree) -> (s: String)
    ensures
        s@ == roots_text(tvs(tree.roots@), 0),
{
    let ghost rs = tvs(tree.roots@);
    let mut out = String::new();
    let n = tree.roots.len();
    let mut i: usize = 0;
    while i < n
        invariant
            i <= n,
            n == tree.roots@.len(),
            rs == tvs(tree.roots@),
            out@ + roots_text(rs, i as int) == roots_text(rs, 0),
        decreases n - i,
    {
        let root = &tree.roots[i];
        let last = i == n - 1;
        let ghost before = out@;
        assert(rs[i as int] == tv(*root));
        push_connector(&mut out, last);
        push_root_label(&mut out, root);
        push_str(&mut out, "\n");
        let child_prefix = if last {
            "    "
        } else {
            "│   "
        };
        render_children(&mut out, root, child_prefix);
        proof {
            let item = connector(last) + root_label(rs[i as int]) + "\n"@ + children_text(
                rs[i as int].children,
                0,
                extension(last),
            );
            assert(out@ =~= before + item);
            assert(roots_text(rs, i as int) == item + roots_text(rs, i + 1));
            assert(before + roots_text(rs, i as int) =~= out@ + roots_text(rs, i + 1));
        }
        i = i + 1;
    }
    assert(roots_text(rs, n as int) =~= Seq::<char>::empty());
    assert(out@ =~= out@ + Seq::<char>::empty());
    out
}

/// Appends the text tree of a node's children.
fn render_children(out: &mut String, node: &TreeNode, prefix: &str)
    ensures
        final(out)@ == old(out)@ + children_text(tv(*node).children, 0, prefix@),
    decreases node,
{
    let ghost cs = tv(*node).children;
    let n = node.children.len();
    let mut i: usize = 0;
    while i < n
        invariant
            i <= n,
            n == node.children@.len(),
            cs == tv(*node).children,
            cs.len() == n,
            out@ + children_text(cs, i as int, prefix@) == old(out)@ + children_text(cs, 0, prefix@),
        decreases n - i,
    {
        let child = &node.children[i];
        assert(cs[i as int] == tv(*child));
        let last = i == n - 1;
        let ghost before = out@;
        push_str(out, prefix);
        push_connector(out, last);
        push_label(out, child);
        push_str(out, "\n");
        let mut next = String::new();
        push_str(&mut next, prefix);
        if last {
            push_str(&mut next, "    ");
        } else {
            push_str(&mut next, "│   ");
        }
        render_children(out, child, next.as_str());
        proof {
            let item = prefix@ + connector(last) + label(cs[i as int]) + "\n"@ + children_text(
                cs[i as int].children,
                0,
                prefix@ + extension(last),
            );
            assert(next@ == prefix@ + extension(last));
            assert(out@ =~= before + item);
            assert(children_text(cs, i as int, prefix@) == item + children_text(cs, i + 1, prefix@));
            assert(before + children_text(cs, i as int, prefix@) =~= out@ + children_text(
                cs,
                i + 1,
                prefix@,
            ));
        }
        i = i + 1;
    }
    assert(children_text(cs, n as int, prefix@) =~= Seq::<char>::empty());
    assert(out@ =~= out@ + Seq::<char>::empty());
}

/// The DOT rendering of a tree.
fn render_dot(tree: &DepTree) -> (s: String)
    ensures
        s@ == "digraph dependencies {\n  rankdir=LR;\n"@ + dot_roots(tvs(tree.roots@), 0) + "}\n"@,
{
    let ghost rs = tvs(tree.roots@);
    let mut out = String::new();
    push_str(&mut out, "digraph dependencies {\n  rankdir=LR;\n");
    let ghost head = out@;
    let n = tree.roots.len();
    let mut i: usize = 0;
    while i < n
        invariant
            i <= n,
            n == tree.roots@.len(),
            rs == tvs(tree.roots@),
            out@ + dot_roots(rs, i as int) == head + dot_roots(rs, 0),
        decreases n - i,
    {
        let root = &tree.roots[i];
        assert(rs[i as int] == tv(*root));
        let ghost before = out@;
        let mut from = String::new();
        push_str(&mut from, root.name.as_str());
        push_str(&mut from, "@");
        push_str(&mut from, root.version.as_str());
        dot_edges(&mut out, root, from.as_str());
        proof {
            assert(dot_roots(rs, i as int) == dot_text(node_label(rs[i as int]), rs[i as int].children, 0)
                + dot_roots(rs, i + 1));
            assert(before + dot_roots(rs, i as int) =~= out@ + dot_roots(rs, i + 1));
        }
        i = i + 1;
    }
    assert(dot_roots(rs, n as int) =~= Seq::<char>::empty());
    assert(out@ =~= head + dot_roots(rs, 0));
    push_str(&mut out, "}\n");
    out
}

/// Appends the DOT edges from `from` (the node's label) below a node.
fn dot_edges(out: &mut String, node: &TreeNode, from: &str)
    ensures
        final(out)@ == old(out)@ + dot_text(from@, tv(*node).children, 0),
    decreases node,
{
    let ghost cs = tv(*node).children;
    let n = node.children.len();
    let mut i: usize = 0;
    while i < n
        invariant
            i <= n,
            n == node.children@.len(),
            cs == tv(*node).children,
            cs.len() == n,
            out@ + dot_text(from@, cs, i as int) == old(out)@ + dot_text(from@, cs, 0),
        decreases n - i,
    {
        let child = &node.children[i];
        assert(cs[i as int] == tv(*child));
        let ghost before = out@;
        if !child.circular {
            let mut to = String::new();
            push_str(&mut to, child.name.as_str());
            push_str(&mut to, "@");
            push_str(&mut to, child.version.as_str());
            push_str(out, "  \"");
            push_str(out, from);
            push_str(out, "\" -> \"");
            push_str(out, to.as_str());
            push_str(out, "\";\n");
            dot_edges(out, child, to.as_str());
        }
        proof {
            let c = cs[i as int];
            let item = if c.circular {
                Seq::<char>::empty()
            } else {
                "  \""@ + from@ + "\" -> \""@ + node_label(c) + "\";\n"@ + dot_text(
                    node_label(c),
                    c.children,
                    0,
                )
            };
            assert(out@ =~= before + item);
            assert(dot_text(from@, cs, i as int) == item + dot_text(from@, cs, i + 1));
            assert(before + dot_text(from@, cs, i as int) =~= out@ + dot_text(from@, cs, i + 1));
        }
        i = i + 1;
    }
    assert(dot_text(from@, cs, n as int) =~= Seq::<char>::empty());
    assert(out@ =~= out@ + Seq::<char>::empty());
}

/// The Mermaid rendering of a tree.
fn render_mermaid(tree: &DepTree) -> (s: String)
    ensures
        s@ == "graph LR\n"@ + mermaid_roots(tvs(tree.roots@), 0),
{
    let ghost rs = tvs(tree.roots@);
    let mut out = String::new();
    push_str(&mut out, "graph LR\n");
    let ghost head = out@;
    let n = tree.roots.len();
    let mut i: usize = 0;
    while i < n
        invariant
            i <= n,
            n == tree.roots@.len(),
            rs == tvs(tree.roots@),
            out@ + mermaid_roots(rs, i as int) == head + mermaid_roots(rs, 0),
        decreases n - i,
    {
        let root = &tree.roots[i];
        assert(rs[i as int] == tv(*root));
        let ghost before = out@;
        let mut from = String::new();
        push_str(&mut from, root.name.as_str());
        push_str(&mut from, "@");
        push_str(&mut from, root.version.as_str());
        mermaid_edges(&mut out, root, from.as_str());
        proof {
            assert(mermaid_roots(rs, i as int) == mermaid_text(
                node_label(rs[i as int]),
                rs[i as int].children,
                0,
            ) + mermaid_roots(rs, i + 1));
            assert(before + mermaid_roots(rs, i as int) =~= out@ + mermaid_roots(rs, i + 1));
        }
        i = i + 1;
    }
    assert(mermaid_roots(rs, n as int) =~= Seq::<char>::empty());
    assert(out@ =~= head + mermaid_roots(rs, 0));
    out
}

/// A label as a Mermaid node id: `@`, `/` and `.` become `_`.
pub fn sanitize_id(s: &str) -> (r: String)
    ensures
        r@ == mermaid_id(s@),
{
    let cs = chars_of(s);
    let mut out: Vec<char> = Vec::new();
    let mut i: usize = 0;
    while i < cs.len()
        invariant
            i <= cs@.len(),
            cs@ == s@,
            out@ == mermaid_id(s@.take(i as int)),
        decreases cs@.len() - i,
    {
        let c = cs[i];
        if c == '@' || c == '/' || c == '.' {
            out.push('_');
        } else {
            out.push(c);
        }
        assert(mermaid_id(s@.take(i + 1)) =~= mermaid_id(s@.take(i as int)).push(out@.last()));
        i = i + 1;
    }
    assert(s@.take(s@.len() as int) =~= s@);
    crate::text::string_of(out.as_slice())
}

/// Appends the Mermaid edges from `from` (the node's label) below a node.
fn mermaid_edges(out: &mut String, node: &TreeNode, from: &str)
    ensures
        final(out)@ == old(out)@ + mermaid_text(from@, tv(*node).children, 0),
    decreases node,
{
    let ghost cs = tv(*node).children;
    let from_id = sanitize_id(from);
    let n = node.children.len();
    let mut i: usize = 0;
    while i < n
        invariant
            i <= n,
            n == node.children@.len(),
            cs == tv(*node).children,
            cs.len() == n,
            from_id@ == mermaid_id(from@),
            out@ + mermaid_text(from@, cs, i as int) == old(out)@ + mermaid_text(from@, cs, 0),
        decreases n - i,
    {
        let child = &node.children[i];
        assert(cs[i as int] == tv(*child));
        let ghost before = out@;
        if !child.circular {
            let mut to = String::new();
            push_str(&mut to, child.name.as_str());
            push_str(&mut to, "@");
            push_str(&mut to, child.version.as_str());
            let to_id = sanitize_id(to.as_str());
            push_str(out, "  ");
            push_str(out, from_id.as_str());
            push_str(out, "[\"");
            push_str(out, from);
            push_str(out, "\"] --> ");
            push_str(out, to_id.as_str());
            push_str(out, "[\"");
            push_str(out, to.as_str());
            push_str(out, "\"]\n");
            mermaid_edges(out, child, to.as_str());
        }
        proof {
            let c = cs[i as int];
            let to = node_label(c);
            let item = if c.circular {
                Seq::<char>::empty()
            } else {
                "  "@ + mermaid_id(from@) + "[\""@ + from@ + "\"] --> "@ + mermaid_id(to) + "[\""@ + to
                    + "\"]\n"@ + mermaid_text(to, c.children, 0)
            };
            assert(out@ =~= before + item);
            assert(mermaid_text(from@, cs, i as int) == item + mermaid_text(from@, cs, i + 1));
            assert(before + mermaid_text(from@, cs, i as int) =~= out@ + mermaid_text(
                from@,
                cs,
                i + 1,
            ));
        }
        i = i + 1;
    }
    assert(mermaid_text(from@, cs, n as int) =~= Seq::<char>::empty());
    assert(out@ =~= out@ + Seq::<char>::empty());
}

} // verus!
