//! The items of the tree view: one per dependency tree node, identified by
//! its path of positions, labelled with its name and version and marked
//! when it closes a cycle or when its name occurs more than once.
use vstd::prelude::*;

use crate::text::{dec, push_str, push_u64, str_eq};
use crate::tree::{tv, tvs, DepTree, TreeNode, TreeV};

verus! {

/// An item of the tree view.
#[derive(Debug)]
pub struct TreeItem {
    /// The path of positions that leads to the node: `2/0/1`.
    pub id: String,
    pub label: String,
    pub children: Vec<TreeItem>,
}

/// How many nodes of `t` are named `name`.
pub open spec fn count_named(t: TreeV, name: Seq<char>) -> nat
    decreases t, 1nat,
{
    (if t.name == name {
        1nat
    } else {
        0nat
    }) + count_named_in(t.children, name)
}

/// How many nodes of the trees `ts` are named `name`.
pub open spec fn count_named_in(ts: Seq<TreeV>, name: Seq<char>) -> nat
    decreases ts, 0nat,
{
    if ts.len() == 0 {
        0
    } else {
        count_named_in(ts.drop_last(), name) + count_named(ts[ts.len() - 1], name)
    }
}

/// A count cut off at two (enough to tell whether a name repeats).
pub open spec fn upto_two(n: nat) -> nat {
    if n >= 2 {
        2
    } else {
        n
    }
}

/// The label of a node: name and version, marked `(circular)` when it
/// closes a cycle, else `[DUP]` when its name occurs more than once.
pub open spec fn item_label(t: TreeV, duplicate: bool) -> Seq<char> {
    if t.circular {
        t.name + " "@ + t.version + " (circular)"@
    } else if duplicate {
        t.name + " "@ + t.version + " [DUP]"@
    } else {
        t.name + " "@ + t.version
    }
}

/// `it` is the item of node `t` at `path`, duplicates counted over the
/// trees `all`.
pub open spec fn item_of(it: TreeItem, t: TreeV, all: Seq<TreeV>, path: Seq<char>) -> bool
    decreases t,
{
    &&& it.id@ == path
    &&& it.label@ == item_label(t, count_named_in(all, t.name) > 1)
    &&& it.children@.len() == t.children.len()
    &&& forall|i: int|
        0 <= i < t.children.len() ==> item_of(
            #[trigger] it.children@[i],
            t.children[i],
            all,
            path + "/"@ + dec(i as nat),
        )
}

/// The number of nodes named `name` in a node's tree, cut off at two.
fn count_in_node(n: &TreeNode, name: &str) -> (c: usize)
    ensures
        c == upto_two(count_named(tv(*n), name@)),
    decreases n,
{
    let ghost t = tv(*n);
    let own: usize = if str_eq(n.name.as_str(), name) {
        1
    } else {
        0
    };
    let mut c: usize = own;
    let mut i: usize = 0;
    assert(t.children.take(0) =~= Seq::<TreeV>::empty());
    while i < n.children.len()
        invariant
            i <= n.children@.len(),
            t == tv(*n),
            t.children.len() == n.children@.len(),
            own == (if t.name == name@ {
                1nat
            } else {
                0nat
            }),
            c == upto_two((own + count_named_in(t.children.take(i as int), name@)) as nat),
        decreases n.children@.len() - i,
    {
        let k = count_in_node(&n.children[i], name);
        assert(t.children[i as int] == tv(n.children@[i as int]));
        assert(t.children.take(i + 1).drop_last() =~= t.children.take(i as int));
        assert(t.children.take(i + 1)[i as int] == t.children[i as int]);
        c = if c + k >= 2 {
            2
        } else {
            c + k
        };
        i = i + 1;
    }
    assert(t.children.take(i as int) =~= t.children);
    c
}

/// The number of nodes named `name` in the trees, cut off at two.
fn count_in_trees(ns: &Vec<TreeNode>, name: &str) -> (c: usize)
    ensures
        c == upto_two(count_named_in(tvs(ns@), name@)),
{
    let ghost ts = tvs(ns@);
    let mut c: usize = 0;
    let mut i: usize = 0;
    assert(ts.take(0) =~= Seq::<TreeV>::empty());
    while i < ns.len()
        invariant
            i <= ns@.len(),
            ts == tvs(ns@),
            c == upto_two(count_named_in(ts.take(i as int), name@)),
        decreases ns@.len() - i,
    {
        let k = count_in_node(&ns[i], name);
        assert(ts.take(i + 1).drop_last() =~= ts.take(i as int));
        assert(ts.take(i + 1)[i as int] == tv(ns@[i as int]));
        c = if c + k >= 2 {
            2
        } else {
            c + k
        };
        i = i + 1;
    }
    assert(ts.take(i as int) =~= ts);
    c
}

/// The item of a node at `path`, duplicates counted over the trees `roots`.
fn item_for(node: &TreeNode, roots: &Vec<TreeNode>, path: String) -> (r: TreeItem)
    ensures
        item_of(r, tv(*node), tvs(roots@), path@),
    decreases node,
{
    let ghost t = tv(*node);
    let duplicate = count_in_trees(roots, node.name.as_str()) > 1;
    let mut label = node.name.clone();
    push_str(&mut label, " ");
    push_str(&mut label, node.version.as_str());
    if node.circular {
        push_str(&mut label, " (circular)");
    } else if duplicate {
        push_str(&mut label, " [DUP]");
    }
    let mut children: Vec<TreeItem> = Vec::new();
    let mut i: usize = 0;
    while i < node.children.len()
        invariant
            i <= node.children@.len(),
            t == tv(*node),
            children@.len() == i,
            forall|j: int|
                0 <= j < i ==> item_of(
                    #[trigger] children@[j],
                    t.children[j],
                    tvs(roots@),
                    path@ + "/"@ + dec(j as nat),
                ),
        decreases node.children@.len() - i,
    {
        let mut child_path = path.clone();
        push_str(&mut child_path, "/");
        push_u64(&mut child_path, i as u64);
        assert(t.children[i as int] == tv(node.children@[i as int]));
        let item = item_for(&node.children[i], roots, child_path);
        children.push(item);
        i = i + 1;
    }
    let r = TreeItem { id: path, label, children };
    assert forall|j: int| 0 <= j < t.children.len() implies item_of(
        #[trigger] r.children@[j],
        t.children[j],
        tvs(roots@),
        path@ + "/"@ + dec(j as nat),
    ) by {
        assert(r.children@[j] == children@[j]);
    }
    r
}

/// The items of a dependency tree: the `i`-th root at path `i`, each node
/// labelled with its name and version, marked `(circular)` when it closes a
/// cycle and `[DUP]` when its name occurs more than once in the tree.
pub fn tree_items(tree: &DepTree) -> (r: Vec<TreeItem>)
    ensures
        r@.len() == tree.roots@.len(),
        forall|i: int|
            0 <= i < r@.len() ==> item_of(
                #[trigger] r@[i],
                tv(tree.roots@[i]),
                tvs(tree.roots@),
                dec(i as nat),
            ),
{
    let mut r: Vec<TreeItem> = Vec::new();
    let mut i: usize = 0;
    while i < tree.roots.len()
        invariant
            i <= tree.roots@.len(),
            r@.len() == i,
            forall|j: int|
                0 <= j < i ==> item_of(#[trigger] r@[j], tv(tree.roots@[j]), tvs(tree.roots@), dec(j as nat)),
        decreases tree.roots@.len() - i,
    {
        let mut id = String::new();
        push_u64(&mut id, i as u64);
        assert(id@ =~= dec(i as nat));
        let item = item_for(&tree.roots[i], &tree.roots, id);
        r.push(item);
        i = i + 1;
    }
    r
}

} // verus!
