use vstd::prelude::*;

verus! {

/// The kind of a node in a workspace folder hierarchy.
#[derive(Clone, Copy, Debug, PartialEq, Eq, Structural)]
pub enum NodeKind {
    Space,
    Document,
    Grid,
    Board,
    Calendar,
}

/// A decoded folder hierarchy node: a rooted tree with ordered children.
#[derive(Debug, PartialEq, Eq)]
pub struct FolderTree {
    pub id: String,
    pub name: String,
    pub kind: NodeKind,
    pub children: Vec<FolderTree>,
}

/// A folder hierarchy truncated to a caller-supplied depth.
#[derive(Debug, PartialEq, Eq)]
pub struct FolderView {
    pub id: String,
    pub name: String,
    pub kind: NodeKind,
    pub children: Vec<FolderView>,
}

/// The mathematical model of a folder node: identifiers as character
/// sequences, children as a sequence of models.
pub ghost struct FolderNode {
    pub id: Seq<char>,
    pub name: Seq<char>,
    pub kind: NodeKind,
    pub children: Seq<FolderNode>,
}

pub open spec fn tree_model(t: FolderTree) -> FolderNode
    decreases t,
{
    FolderNode { id: t.id@, name: t.name@, kind: t.kind, children: trees_model(t.children@) }
}

pub open spec fn trees_model(s: Seq<FolderTree>) -> Seq<FolderNode>
    decreases s,
{
    if s.len() == 0 {
        Seq::empty()
    } else {
        trees_model(s.drop_last()).push(tree_model(s.last()))
    }
}

pub open spec fn view_model(v: FolderView) -> FolderNode
    decreases v,
{
    FolderNode { id: v.id@, name: v.name@, kind: v.kind, children: views_model(v.children@) }
}

pub open spec fn views_model(s: Seq<FolderView>) -> Seq<FolderNode>
    decreases s,
{
    if s.len() == 0 {
        Seq::empty()
    } else {
        views_model(s.drop_last()).push(view_model(s.last()))
    }
}

/// The depth of a node: a leaf has depth 0.
pub open spec fn node_depth(n: FolderNode) -> nat
    decreases n,
{
    if n.children.len() == 0 {
        0
    } else {
        1 + max_depth(n.children)
    }
}

/// The largest depth among a sequence of nodes (0 when empty).
pub open spec fn max_depth(s: Seq<FolderNode>) -> nat
    decreases s,
{
    if s.len() == 0 {
        0
    } else if node_depth(s.last()) >= max_depth(s.drop_last()) {
        node_depth(s.last())
    } else {
        max_depth(s.drop_last())
    }
}

/// The node truncated to depth d: at depth 0 only the node itself remains;
/// nodes beyond the ceiling are omitted entirely.
pub open spec fn truncate_node(n: FolderNode, d: nat) -> FolderNode
    decreases d, n,
{
    FolderNode {
        id: n.id,
        name: n.name,
        kind: n.kind,
        children: if d == 0 {
            Seq::empty()
        } else {
            truncate_nodes(n.children, (d - 1) as nat)
        },
    }
}

pub open spec fn truncate_nodes(s: Seq<FolderNode>, d: nat) -> Seq<FolderNode>
    decreases d, s,
{
    if s.len() == 0 {
        Seq::empty()
    } else {
        truncate_nodes(s.drop_last(), d).push(truncate_node(s.last(), d))
    }
}

pub proof fn lemma_truncate_nodes_len(s: Seq<FolderNode>, d: nat)
    ensures
        truncate_nodes(s, d).len() == s.len(),
    decreases s,
{
    if s.len() > 0 {
        lemma_truncate_nodes_len(s.drop_last(), d);
    }
}

/// Law: truncation yields exactly the smaller of the requested depth and the
/// tree's own depth.
pub proof fn lemma_truncate_depth(n: FolderNode, d: nat)
    ensures
        node_depth(truncate_node(n, d)) == if d <= node_depth(n) {
            d
        } else {
            node_depth(n)
        },
    decreases d, n,
{
    if d > 0 && n.children.len() > 0 {
        lemma_truncate_nodes_len(n.children, (d - 1) as nat);
        lemma_truncate_max_depth(n.children, (d - 1) as nat);
    }
}

pub proof fn lemma_truncate_max_depth(s: Seq<FolderNode>, d: nat)
    ensures
        max_depth(truncate_nodes(s, d)) == if d <= max_depth(s) {
            d
        } else {
            max_depth(s)
        },
    decreases d, s,
{
    if s.len() > 0 {
        lemma_truncate_max_depth(s.drop_last(), d);
        lemma_truncate_depth(s.last(), d);
        assert(truncate_nodes(s, d).drop_last() =~= truncate_nodes(s.drop_last(), d));
        assert(truncate_nodes(s, d).last() == truncate_node(s.last(), d));
    }
}

/// A deep copy of a folder tree, preserving its model.
pub fn clone_tree(t: &FolderTree) -> (r: FolderTree)
    ensures
        tree_model(r) == tree_model(*t),
    decreases *t,
{
    let mut children: Vec<FolderTree> = Vec::new();
    let n = t.children.len();
    let mut i: usize = 0;
    while i < n
        invariant
            n == t.children@.len(),
            i <= n,
            trees_model(children@) == trees_model(t.children@.take(i as int)),
        decreases n - i,
    {
        let c = clone_tree(&t.children[i]);
        proof {
            let t0 = t.children@.take(i as int);
            let t1 = t.children@.take(i as int + 1);
            assert(t1.drop_last() =~= t0);
            assert(t1.last() == t.children@[i as int]);
            assert(trees_model(t1) == trees_model(t0).push(tree_model(t.children@[i as int])));
            assert(children@.push(c).drop_last() =~= children@);
            assert(children@.push(c).last() == c);
            assert(trees_model(children@.push(c)) == trees_model(children@).push(tree_model(c)));
        }
        children.push(c);
        i = i + 1;
    }
    proof {
        assert(t.children@.take(n as int) =~= t.children@);
    }
    FolderTree { id: t.id.clone(), name: t.name.clone(), kind: t.kind, children }
}

/// Truncates a folder tree to the given depth: each node at depth below the
/// ceiling keeps its children recursively; depth 0 keeps only the root.
pub fn to_folder_view(t: &FolderTree, depth: u32) -> (r: FolderView)
    ensures
        view_model(r) == truncate_node(tree_model(*t), depth as nat),
    decreases depth,
{
    let mut children: Vec<FolderView> = Vec::new();
    if depth > 0 {
        let n = t.children.len();
        let mut i: usize = 0;
        while i < n
            invariant
                depth > 0,
                n == t.children@.len(),
                i <= n,
                views_model(children@) == truncate_nodes(
                    trees_model(t.children@.take(i as int)),
                    (depth - 1) as nat,
                ),
            decreases n - i,
        {
            let c = to_folder_view(&t.children[i], depth - 1);
            proof {
                let t0 = t.children@.take(i as int);
                let t1 = t.children@.take(i as int + 1);
                assert(t1.drop_last() =~= t0);
                assert(t1.last() == t.children@[i as int]);
                assert(trees_model(t1) == trees_model(t0).push(tree_model(t.children@[i as int])));
                let m0 = trees_model(t0);
                let m1 = trees_model(t1);
                assert(m1.drop_last() =~= m0);
                assert(m1.last() == tree_model(t.children@[i as int]));
                assert(truncate_nodes(m1, (depth - 1) as nat) == truncate_nodes(
                    m0,
                    (depth - 1) as nat,
                ).push(truncate_node(tree_model(t.children@[i as int]), (depth - 1) as nat)));
                assert(children@.push(c).drop_last() =~= children@);
                assert(children@.push(c).last() == c);
                assert(views_model(children@.push(c)) == views_model(children@).push(
                    view_model(c),
                ));
            }
            children.push(c);
            i = i + 1;
        }
        proof {
            assert(t.children@.take(n as int) =~= t.children@);
        }
    }
    FolderView { id: t.id.clone(), name: t.name.clone(), kind: t.kind, children }
}

} // verus!
