//! Dependency trees built from a graph's transitive edges.
//!
//! A node's children are the edges recorded under `name@version`.  A package
//! already on the path from the root is marked circular and not expanded;
//! below `max_depth` nothing is expanded.
pub mod render;

use vstd::prelude::*;

use crate::sorting::{insert_named, key_fn, lemma_sort_sorted, seq_le, sort_by_key, Named};
use crate::strmap::StrMap;
use crate::text::{push_str, str_eq};
use crate::{DepEdge, DepType, DependencyGraph};
use vstd::seq_lib::seq_to_set_is_finite;
use vstd::set::{axiom_set_difference_finite, axiom_set_remove_len};

verus! {

/// A node of a dependency tree.
#[derive(Debug)]
pub struct TreeNode {
    pub name: String,
    pub version: String,
    pub dep_type: DepType,
    pub children: Vec<TreeNode>,
    pub circular: bool,
}

/// A dependency tree: one root per direct dependency.
#[derive(Debug)]
pub struct DepTree {
    pub roots: Vec<TreeNode>,
}

/// A tree node as a mathematical value.
pub struct TreeV {
    pub name: Seq<char>,
    pub version: Seq<char>,
    pub dep_type: DepType,
    pub children: Seq<TreeV>,
    pub circular: bool,
}

/// A node with empty fields and no children.
pub open spec fn leaf_v() -> TreeV {
    TreeV {
        name: Seq::empty(),
        version: Seq::empty(),
        dep_type: DepType::Prod,
        children: Seq::empty(),
        circular: false,
    }
}

/// The value of a tree node.
pub open spec fn tv(n: TreeNode) -> TreeV
    decreases n,
{
    TreeV {
        name: n.name@,
        version: n.version@,
        dep_type: n.dep_type,
        children: Seq::new(
            n.children@.len(),
            |i: int|
                if 0 <= i < n.children@.len() {
                    tv(n.children@[i])
                } else {
                    leaf_v()
                },
        ),
        circular: n.circular,
    }
}

/// The values of a list of nodes.
pub open spec fn tvs(ns: Seq<TreeNode>) -> Seq<TreeV> {
    Seq::new(ns.len(), |i: int| tv(ns[i]))
}

/// The key under which a package's edges are recorded.
pub open spec fn node_key(name: Seq<char>, version: Seq<char>) -> Seq<char> {
    name + "@"@ + version
}

/// The edges recorded under `key`, none when there are none.
pub open spec fn edges_for(edges: StrMap<Vec<DepEdge>>, key: Seq<char>) -> Seq<(Seq<char>, Seq<char>)> {
    match edges.lookup(key) {
        Some(es) => es.deep_view(),
        None => Seq::empty(),
    }
}

/// `t` is the tree grown for package `name` at `version`: `path` holds the
/// keys of its ancestors and `depth` their number.
pub open spec fn grown(
    t: TreeV,
    name: Seq<char>,
    version: Seq<char>,
    dep_type: DepType,
    edges: StrMap<Vec<DepEdge>>,
    path: Seq<Seq<char>>,
    max_depth: Option<usize>,
    depth: nat,
) -> bool
    decreases t,
{
    let key = node_key(name, version);
    let es = edges_for(edges, key);
    &&& t.name == name
    &&& t.version == version
    &&& t.dep_type == dep_type
    &&& if path.contains(key) {
        t.circular && t.children.len() == 0
    } else if (max_depth matches Some(d) && depth >= d) {
        !t.circular && t.children.len() == 0
    } else {
        &&& !t.circular
        &&& t.children.len() == es.len()
        &&& forall|i: int|
            0 <= i < t.children.len() ==> grown(
                #[trigger] t.children[i],
                es[i].0,
                es[i].1,
                DepType::Prod,
                edges,
                path.push(key),
                max_depth,
                depth + 1,
            )
    }
}

/// A root to grow: (name, version, dependency type).
pub struct Seed {
    pub name: String,
    pub version: String,
    pub dep_type: DepType,
}

impl DeepView for Seed {
    type V = (Seq<char>, Seq<char>, DepType);

    open spec fn deep_view(&self) -> Self::V {
        (self.name@, self.version@, self.dep_type)
    }
}

impl Named for Seed {
    open spec fn key(v: (Seq<char>, Seq<char>, DepType)) -> Seq<char> {
        v.0
    }

    fn name_str(&self) -> (s: &str) {
        self.name.as_str()
    }
}

/// The roots of a graph's tree, before sorting: production dependencies,
/// then dev dependencies, each in the map's order.
pub open spec fn root_seeds(graph: DependencyGraph) -> Seq<(Seq<char>, Seq<char>, DepType)> {
    Seq::new(
        graph.dependencies.keys().len(),
        |i: int| (graph.dependencies.keys()[i], graph.dependencies.vals()[i].version@, DepType::Prod),
    ) + Seq::new(
        graph.dev_dependencies.keys().len(),
        |i: int|
            (
                graph.dev_dependencies.keys()[i],
                graph.dev_dependencies.vals()[i].version@,
                DepType::Dev,
            ),
    )
}

/// The roots of a graph's tree, sorted by name (production before dev on a
/// tie).
pub open spec fn sorted_seeds(graph: DependencyGraph) -> Seq<(Seq<char>, Seq<char>, DepType)> {
    sort_by_key(root_seeds(graph), key_fn::<Seed>())
}

/// `tree` is the tree of `graph` with depth limit `max_depth`.
pub open spec fn tree_of(tree: DepTree, graph: DependencyGraph, max_depth: Option<usize>) -> bool {
    let seeds = sorted_seeds(graph);
    &&& tree.roots@.len() == seeds.len()
    &&& forall|i: int|
        0 <= i < seeds.len() ==> grown(
            #[trigger] tv(tree.roots@[i]),
            seeds[i].0,
            seeds[i].1,
            seeds[i].2,
            graph.dep_edges,
            Seq::empty(),
            max_depth,
            0,
        )
}

/// The part of `t` that leads to nodes named `target`: a node so named is
/// kept whole; another node is kept, not circular, with its filtered
/// children when any remain.
pub open spec fn focus_v(t: TreeV, target: Seq<char>) -> Option<TreeV>
    decreases t, 1nat,
{
    if t.name == target {
        Some(t)
    } else {
        let fc = focus_all(t.children, target);
        if fc.len() == 0 {
            None
        } else {
            Some(TreeV { children: fc, circular: false, ..t })
        }
    }
}

/// The focused nodes among `cs`, in order.
pub open spec fn focus_all(cs: Seq<TreeV>, target: Seq<char>) -> Seq<TreeV>
    decreases cs, 0nat,
{
    if cs.len() == 0 {
        Seq::empty()
    } else {
        let rest = focus_all(cs.drop_last(), target);
        match focus_v(cs[cs.len() - 1], target) {
            Some(x) => rest.push(x),
            None => rest,
        }
    }
}

/// The distinct keys with edges that are not on the path.
pub open spec fn unexplored(edges: StrMap<Vec<DepEdge>>, path: Seq<Seq<char>>) -> Set<Seq<char>> {
    edges.keys().to_set().difference(path.to_set())
}

/// Putting a key with edges on the path leaves fewer keys to explore.
proof fn lemma_unexplored_shrinks(edges: StrMap<Vec<DepEdge>>, path: Seq<Seq<char>>, key: Seq<char>)
    requires
        edges.has(key),
        !path.contains(key),
    ensures
        unexplored(edges, path.push(key)).len() < unexplored(edges, path).len(),
{
    let ks = edges.keys().to_set();
    seq_to_set_is_finite(edges.keys());
    axiom_set_difference_finite(ks, path.to_set());
    let d = unexplored(edges, path);
    assert(d.contains(key));
    assert(unexplored(edges, path.push(key)) =~= d.remove(key)) by {
        assert forall|x: Seq<char>| path.push(key).to_set().contains(x) <==> (path.to_set().contains(x)
            || x == key) by {
            if path.push(key).contains(x) {
                let i = choose|i: int| 0 <= i < path.push(key).len() && path.push(key)[i] == x;
                if i < path.len() {
                    assert(path[i] == x);
                }
            }
            if path.contains(x) {
                let i = choose|i: int| 0 <= i < path.len() && path[i] == x;
                assert(path.push(key)[i] == x);
            }
            if x == key {
                assert(path.push(key)[path.len() as int] == x);
            }
        }
    }
    axiom_set_remove_len(d, key);
}

/// Whether `key` is on the path.
fn on_path(path: &Vec<String>, key: &str) -> (b: bool)
    ensures
        b == path.deep_view().contains(key@),
{
    let ghost pv = path.deep_view();
    let mut i: usize = 0;
    while i < path.len()
        invariant
            i <= path@.len(),
            pv == path.deep_view(),
            forall|k: int| 0 <= k < i ==> pv[k] != key@,
        decreases path@.len() - i,
    {
        if str_eq(path[i].as_str(), key) {
            assert(pv[i as int] == key@);
            return true;
        }
        i = i + 1;
    }
    false
}

/// Grows the tree of package `name` at `version`; `path` holds the keys of
/// its ancestors and is handed back unchanged.
#[verifier::loop_isolation(false)]
fn build_node(
    name: &str,
    version: &str,
    dep_type: DepType,
    edges: &StrMap<Vec<DepEdge>>,
    path: Vec<String>,
    max_depth: Option<usize>,
    depth: usize,
) -> (r: (TreeNode, Vec<String>))
    requires
        depth <= path@.len(),
    ensures
        r.1@ == path@,
        grown(tv(r.0), name@, version@, dep_type, *edges, path.deep_view(), max_depth, depth as nat),
    decreases unexplored(*edges, path.deep_view()).len(),
{
    let mut key = String::new();
    push_str(&mut key, name);
    push_str(&mut key, "@");
    push_str(&mut key, version);
    let ghost k = key@;
    assert(k == node_key(name@, version@));
    if on_path(&path, key.as_str()) {
        let node = TreeNode {
            name: name.to_string(),
            version: version.to_string(),
            dep_type,
            children: Vec::new(),
            circular: true,
        };
        assert(tv(node).children =~= Seq::<TreeV>::empty());
        return (node, path);
    }
    let stop = match max_depth {
        Some(d) => depth >= d,
        None => false,
    };
    if stop {
        let node = TreeNode {
            name: name.to_string(),
            version: version.to_string(),
            dep_type,
            children: Vec::new(),
            circular: false,
        };
        assert(tv(node).children =~= Seq::<TreeV>::empty());
        return (node, path);
    }
    let ghost pv = path.deep_view();
    let ghost p0 = path@;
    let mut path = path;
    let n_path = path.len();
    let kc = key.clone();
    let ghost gk = kc;
    path.push(kc);
    let n1 = path.len();
    assert(path.deep_view() =~= pv.push(k));
    let mut children: Vec<TreeNode> = Vec::new();
    let ghost es = edges_for(*edges, k);
    match edges.get(key.as_str()) {
        Some(list) => {
            proof {
                assert(edges.has(k));
                assert(list.deep_view() == es);
                lemma_unexplored_shrinks(*edges, pv, k);
            }
            let mut i: usize = 0;
            while i < list.len()
                invariant
                    i <= list@.len(),
                    list.deep_view() == es,
                    edges.has(k),
                    !pv.contains(k),
                    path.deep_view() == pv.push(k),
                    path@ == p0.push(gk),
                    path@.len() == n_path + 1,
                    n1 == n_path + 1,
                    depth <= n_path,
                    unexplored(*edges, pv.push(k)).len() < unexplored(*edges, pv).len(),
                    children@.len() == i,
                    forall|j: int|
                        0 <= j < i ==> grown(
                            #[trigger] tv(children@[j]),
                            es[j].0,
                            es[j].1,
                            DepType::Prod,
                            *edges,
                            pv.push(k),
                            max_depth,
                            (depth + 1) as nat,
                        ),
                decreases list@.len() - i,
            {
                let edge = &list[i];
                assert(edge.deep_view() == es[i as int]);
                let ghost before = path@;
                let (child, back) = build_node(
                    edge.name.as_str(),
                    edge.version.as_str(),
                    DepType::Prod,
                    edges,
                    path,
                    max_depth,
                    depth + 1,
                );
                path = back;
                assert(path@ == before);
                children.push(child);
                i = i + 1;
            }
        },
        None => {
            assert(!edges.has(k));
            assert(es =~= Seq::<(Seq<char>, Seq<char>)>::empty());
        },
    }
    path.pop();
    assert(path@ =~= p0);
    let node = TreeNode {
        name: name.to_string(),
        version: version.to_string(),
        dep_type,
        children,
        circular: false,
    };
    proof {
        let t = tv(node);
        assert forall|i: int| 0 <= i < t.children.len() implies grown(
            #[trigger] t.children[i],
            es[i].0,
            es[i].1,
            DepType::Prod,
            *edges,
            pv.push(k),
            max_depth,
            (depth + 1) as nat,
        ) by {
            assert(t.children[i] == tv(node.children@[i]));
        }
    }
    (node, path)
}

impl DepTree {
    /// Builds the dependency tree of a graph, with children at most
    /// `max_depth` levels below the roots when a limit is given.
    pub fn from_graph_with_depth(graph: &DependencyGraph, max_depth: Option<usize>) -> (tree: Self)
        ensures
            tree_of(tree, *graph, max_depth),
    {
        let mut seeds: Vec<Seed> = Vec::new();
        let ghost all = root_seeds(*graph);
        let deps = &graph.dependencies;
        let devs = &graph.dev_dependencies;
        deps.well_formed();
        devs.well_formed();
        let nd = deps.len();
        let nv = devs.len();
        let ghost key = key_fn::<Seed>();
        let mut i: usize = 0;
        while i < nd
            invariant
                i <= nd,
                nd == deps.keys().len(),
                deps.keys().len() == deps.vals().len(),
                all == root_seeds(*graph),
                *deps == graph.dependencies,
                key == key_fn::<Seed>(),
                seeds.deep_view() == sort_by_key(all.take(i as int), key),
            decreases nd - i,
        {
            let s = Seed {
                name: deps.key_at(i).clone(),
                version: deps.value_at(i).version.clone(),
                dep_type: DepType::Prod,
            };
            proof {
                assert(all[i as int] == s.deep_view());
                assert(all.take(i + 1).drop_last() =~= all.take(i as int));
            }
            insert_named(&mut seeds, s);
            i = i + 1;
        }
        let mut j: usize = 0;
        while j < nv
            invariant
                j <= nv,
                nd == deps.keys().len(),
                nv == devs.keys().len(),
                devs.keys().len() == devs.vals().len(),
                all == root_seeds(*graph),
                all.len() == nd + nv,
                *devs == graph.dev_dependencies,
                key == key_fn::<Seed>(),
                seeds.deep_view() == sort_by_key(all.take(nd + j), key),
            decreases nv - j,
        {
            let s = Seed {
                name: devs.key_at(j).clone(),
                version: devs.value_at(j).version.clone(),
                dep_type: DepType::Dev,
            };
            proof {
                assert(all[nd + j] == s.deep_view());
                assert(all.take(nd + j + 1).drop_last() =~= all.take(nd + j));
            }
            insert_named(&mut seeds, s);
            j = j + 1;
        }
        assert(all.take(nd + nv) =~= all);
        let ghost sorted = seeds.deep_view();
        let mut roots: Vec<TreeNode> = Vec::new();
        let mut k: usize = 0;
        while k < seeds.len()
            invariant
                k <= seeds@.len(),
                sorted == seeds.deep_view(),
                sorted == sorted_seeds(*graph),
                roots@.len() == k,
                forall|q: int|
                    0 <= q < k ==> grown(
                        #[trigger] tv(roots@[q]),
                        sorted[q].0,
                        sorted[q].1,
                        sorted[q].2,
                        graph.dep_edges,
                        Seq::empty(),
                        max_depth,
                        0,
                    ),
            decreases seeds@.len() - k,
        {
            let s = &seeds[k];
            assert(s.deep_view() == sorted[k as int]);
            let start: Vec<String> = Vec::new();
            assert(start.deep_view() =~= Seq::<Seq<char>>::empty());
            let (node, _path) = build_node(
                s.name.as_str(),
                s.version.as_str(),
                s.dep_type,
                &graph.dep_edges,
                start,
                max_depth,
                0,
            );
            roots.push(node);
            k = k + 1;
        }
        DepTree { roots }
    }

    /// Builds the full dependency tree of a graph.
    pub fn from_graph(graph: &DependencyGraph) -> (tree: Self)
        ensures
            tree_of(tree, *graph, None),
    {
        Self::from_graph_with_depth(graph, None)
    }

    /// The tree cut down to the paths that lead to `package`.
    pub fn focus(&self, package: &str) -> (tree: Self)
        ensures
            tvs(tree.roots@) == focus_all(tvs(self.roots@), package@),
    {
        let mut roots: Vec<TreeNode> = Vec::new();
        let mut i: usize = 0;
        while i < self.roots.len()
            invariant
                i <= self.roots@.len(),
                tvs(roots@) == focus_all(tvs(self.roots@.take(i as int)), package@),
            decreases self.roots@.len() - i,
        {
            proof {
                assert(tvs(self.roots@.take(i + 1)).drop_last() =~= tvs(self.roots@.take(i as int)));
                assert(tvs(self.roots@.take(i + 1))[i as int] == tv(self.roots@[i as int]));
            }
            match filter_node(&self.roots[i], package) {
                Some(n) => {
                    let ghost before = tvs(roots@);
                    roots.push(n);
                    assert(tvs(roots@) =~= before.push(tv(n)));
                },
                None => {},
            }
            i = i + 1;
        }
        assert(self.roots@.take(self.roots@.len() as int) =~= self.roots@);
        DepTree { roots }
    }
}

/// A copy of a node and everything below it.
fn copy_node(node: &TreeNode) -> (r: TreeNode)
    ensures
        tv(r) == tv(*node),
    decreases node,
{
    let mut children: Vec<TreeNode> = Vec::new();
    let mut i: usize = 0;
    while i < node.children.len()
        invariant
            i <= node.children@.len(),
            children@.len() == i,
            forall|j: int| 0 <= j < i ==> #[trigger] tv(children@[j]) == tv(node.children@[j]),
        decreases node.children@.len() - i,
    {
        let c = copy_node(&node.children[i]);
        children.push(c);
        i = i + 1;
    }
    let r = TreeNode {
        name: node.name.clone(),
        version: node.version.clone(),
        dep_type: node.dep_type,
        children,
        circular: node.circular,
    };
    assert forall|j: int| 0 <= j < node.children@.len() implies tv(r).children[j] == tv(
        *node,
    ).children[j] by {
        assert(r.children@[j] == children@[j]);
        assert(tv(children@[j]) == tv(node.children@[j]));
        assert(tv(r).children[j] == tv(r.children@[j]));
        assert(tv(*node).children[j] == tv(node.children@[j]));
    }
    assert(tv(r).children =~= tv(*node).children);
    r
}

/// The part of a node's tree that leads to nodes named `target`.
fn filter_node(node: &TreeNode, target: &str) -> (r: Option<TreeNode>)
    ensures
        match focus_v(tv(*node), target@) {
            Some(x) => r matches Some(n) && tv(n) == x,
            None => r is None,
        },
    decreases node,
{
    if str_eq(node.name.as_str(), target) {
        return Some(copy_node(node));
    }
    let ghost cs = tv(*node).children;
    let mut filtered: Vec<TreeNode> = Vec::new();
    let mut i: usize = 0;
    while i < node.children.len()
        invariant
            i <= node.children@.len(),
            cs == tv(*node).children,
            cs.len() == node.children@.len(),
            tvs(filtered@) == focus_all(cs.take(i as int), target@),
        decreases node.children@.len() - i,
    {
        proof {
            assert(cs.take(i + 1).drop_last() =~= cs.take(i as int));
            assert(cs.take(i + 1)[i as int] == tv(node.children@[i as int]));
        }
        match filter_node(&node.children[i], target) {
            Some(c) => {
                let ghost before = tvs(filtered@);
                filtered.push(c);
                assert(tvs(filtered@) =~= before.push(tv(c)));
            },
            None => {},
        }
        i = i + 1;
    }
    assert(cs.take(cs.len() as int) =~= cs);
    if filtered.len() == 0 {
        return None;
    }
    let r = TreeNode {
        name: node.name.clone(),
        version: node.version.clone(),
        dep_type: node.dep_type,
        children: filtered,
        circular: false,
    };
    assert(tv(r).children =~= tvs(r.children@));
    Some(r)
}

/// Whether a node named `target` occurs in `t`.
pub open spec fn has_named(t: TreeV, target: Seq<char>) -> bool
    decreases t, 1nat,
{
    t.name == target || has_named_in(t.children, target)
}

/// Whether a node named `target` occurs in one of the trees `cs`.
pub open spec fn has_named_in(cs: Seq<TreeV>, target: Seq<char>) -> bool
    decreases cs, 0nat,
{
    if cs.len() == 0 {
        false
    } else {
        has_named_in(cs.drop_last(), target) || has_named(cs[cs.len() - 1], target)
    }
}

/// The number of levels below `t`.
pub open spec fn height(t: TreeV) -> nat
    decreases t, 1nat,
{
    if t.children.len() == 0 {
        0
    } else {
        1 + heights(t.children)
    }
}

/// The largest height among `cs`.
pub open spec fn heights(cs: Seq<TreeV>) -> nat
    decreases cs, 0nat,
{
    if cs.len() == 0 {
        0
    } else {
        let h = height(cs[cs.len() - 1]);
        let r = heights(cs.drop_last());
        if h > r {
            h
        } else {
            r
        }
    }
}

/// Focusing keeps a tree exactly when a node of the target's name occurs in
/// it, and the kept tree still holds such a node.
pub proof fn law_focus_keeps_paths_to_the_target(t: TreeV, target: Seq<char>)
    ensures
        focus_v(t, target) is Some <==> has_named(t, target),
        focus_v(t, target) matches Some(x) ==> has_named(x, target),
    decreases t, 1nat,
{
    if t.name != target {
        lemma_focus_all_paths(t.children, target);
        let fc = focus_all(t.children, target);
        if fc.len() > 0 {
            let x = TreeV { children: fc, circular: false, ..t };
            assert(x.children == fc);
        }
    }
}

/// The focused trees among `cs` are those holding the target, and each
/// still holds it.
proof fn lemma_focus_all_paths(cs: Seq<TreeV>, target: Seq<char>)
    ensures
        focus_all(cs, target).len() > 0 <==> has_named_in(cs, target),
        has_named_in(focus_all(cs, target), target) <==> has_named_in(cs, target),
    decreases cs, 0nat,
{
    if cs.len() > 0 {
        let last = cs[cs.len() - 1];
        assert(decreases_to!(cs => cs.drop_last())) by {
            assert(cs.drop_last().len() < cs.len());
        }
        lemma_focus_all_paths(cs.drop_last(), target);
        law_focus_keeps_paths_to_the_target(last, target);
        let rest = focus_all(cs.drop_last(), target);
        match focus_v(last, target) {
            Some(x) => {
                assert(focus_all(cs, target) == rest.push(x));
                assert(rest.push(x).drop_last() =~= rest);
            },
            None => {},
        }
    }
}

/// Focusing twice on the same package gives what focusing once gives.
pub proof fn law_focus_is_idempotent(t: TreeV, target: Seq<char>)
    ensures
        focus_v(t, target) matches Some(x) ==> focus_v(x, target) == Some(x),
    decreases t, 1nat,
{
    if t.name != target {
        lemma_focus_all_idempotent(t.children, target);
    }
}

/// Focusing a list of focused trees again leaves it unchanged.
proof fn lemma_focus_all_idempotent(cs: Seq<TreeV>, target: Seq<char>)
    ensures
        focus_all(focus_all(cs, target), target) == focus_all(cs, target),
    decreases cs, 0nat,
{
    if cs.len() > 0 {
        let last = cs[cs.len() - 1];
        assert(decreases_to!(cs => cs.drop_last())) by {
            assert(cs.drop_last().len() < cs.len());
        }
        lemma_focus_all_idempotent(cs.drop_last(), target);
        law_focus_is_idempotent(last, target);
        let rest = focus_all(cs.drop_last(), target);
        match focus_v(last, target) {
            Some(x) => {
                let all = rest.push(x);
                assert(all.drop_last() =~= rest);
                assert(all[all.len() - 1] == x);
            },
            None => {},
        }
    }
}

/// A tree grown with a depth limit is no deeper than the limit allows, and
/// a node that closes a cycle has no children.
pub proof fn law_grown_trees_respect_the_depth_limit(
    t: TreeV,
    name: Seq<char>,
    version: Seq<char>,
    dep_type: DepType,
    edges: StrMap<Vec<DepEdge>>,
    path: Seq<Seq<char>>,
    limit: usize,
    depth: nat,
)
    requires
        grown(t, name, version, dep_type, edges, path, Some(limit), depth),
        depth <= limit,
    ensures
        height(t) <= limit - depth,
        t.circular ==> t.children.len() == 0,
    decreases t, 1nat,
{
    let key = node_key(name, version);
    let es = edges_for(edges, key);
    if !path.contains(key) && depth < limit {
        lemma_grown_heights(t.children, es, edges, path.push(key), limit, depth + 1);
    }
}

/// The children grown at `depth` are no deeper than the limit allows.
proof fn lemma_grown_heights(
    cs: Seq<TreeV>,
    es: Seq<(Seq<char>, Seq<char>)>,
    edges: StrMap<Vec<DepEdge>>,
    path: Seq<Seq<char>>,
    limit: usize,
    depth: nat,
)
    requires
        cs.len() <= es.len(),
        depth <= limit,
        forall|i: int|
            0 <= i < cs.len() ==> grown(
                #[trigger] cs[i],
                es[i].0,
                es[i].1,
                DepType::Prod,
                edges,
                path,
                Some(limit),
                depth,
            ),
    ensures
        heights(cs) <= limit - depth,
    decreases cs, 0nat,
{
    if cs.len() > 0 {
        let last = cs[cs.len() - 1];
        assert(decreases_to!(cs => cs.drop_last())) by {
            assert(cs.drop_last().len() < cs.len());
        }
        assert forall|i: int| 0 <= i < cs.drop_last().len() implies grown(
            #[trigger] cs.drop_last()[i],
            es[i].0,
            es[i].1,
            DepType::Prod,
            edges,
            path,
            Some(limit),
            depth,
        ) by {
            assert(cs.drop_last()[i] == cs[i]);
        }
        lemma_grown_heights(cs.drop_last(), es, edges, path, limit, depth);
        let k = cs.len() - 1;
        assert(grown(cs[k], es[k].0, es[k].1, DepType::Prod, edges, path, Some(limit), depth));
        law_grown_trees_respect_the_depth_limit(
            last,
            es[k].0,
            es[k].1,
            DepType::Prod,
            edges,
            path,
            limit,
            depth,
        );
    }
}

/// The roots of a graph's tree are in ascending order of name.
pub proof fn law_tree_roots_are_sorted(tree: DepTree, graph: DependencyGraph, max_depth: Option<usize>)
    requires
        tree_of(tree, graph, max_depth),
    ensures
        forall|i: int, j: int|
            0 <= i < j < tree.roots@.len() ==> seq_le(
                #[trigger] tv(tree.roots@[i]).name,
                #[trigger] tv(tree.roots@[j]).name,
            ),
{
    let seeds = sorted_seeds(graph);
    lemma_sort_sorted(root_seeds(graph), key_fn::<Seed>());
    assert forall|i: int, j: int| 0 <= i < j < tree.roots@.len() implies seq_le(
        #[trigger] tv(tree.roots@[i]).name,
        #[trigger] tv(tree.roots@[j]).name,
    ) by {
        assert(grown(tv(tree.roots@[i]), seeds[i].0, seeds[i].1, seeds[i].2, graph.dep_edges, Seq::empty(), max_depth, 0));
        assert(grown(tv(tree.roots@[j]), seeds[j].0, seeds[j].1, seeds[j].2, graph.dep_edges, Seq::empty(), max_depth, 0));
        assert(seq_le(key_fn::<Seed>()(seeds[i]), key_fn::<Seed>()(seeds[j])));
    }
}

/// Whether a tree holds a node of the target's name.
pub open spec fn holds_target(target: Seq<char>) -> spec_fn(TreeV) -> bool {
    |t: TreeV| has_named(t, target)
}

/// Focusing keeps exactly the trees that hold a node of the target's name,
/// in their order, each focused in turn.
pub proof fn law_focus_keeps_the_trees_holding_the_target(cs: Seq<TreeV>, target: Seq<char>)
    ensures
        focus_all(cs, target).len() == cs.filter(holds_target(target)).len(),
        forall|i: int|
            0 <= i < focus_all(cs, target).len() ==> Some(#[trigger] focus_all(cs, target)[i]) == focus_v(
                cs.filter(holds_target(target))[i],
                target,
            ),
    decreases cs.len(),
{
    reveal_with_fuel(Seq::filter, 1);
    if cs.len() > 0 {
        let last = cs[cs.len() - 1];
        law_focus_keeps_the_trees_holding_the_target(cs.drop_last(), target);
        law_focus_keeps_paths_to_the_target(last, target);
        let rest = focus_all(cs.drop_last(), target);
        let kept = cs.drop_last().filter(holds_target(target));
        assert(cs.last() == last);
        if has_named(last, target) {
            assert(cs.filter(holds_target(target)) == kept.push(last));
            assert(focus_all(cs, target) == rest.push(focus_v(last, target)->0));
        } else {
            assert(cs.filter(holds_target(target)) == kept);
            assert(focus_all(cs, target) == rest);
        }
    }
}

} // verus!
