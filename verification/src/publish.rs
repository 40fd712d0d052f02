use vstd::prelude::*;

use crate::folder::{tree_model, trees_model, FolderNode, FolderTree, NodeKind};

verus! {

/// A folder hierarchy filtered to the published view ids: a node stays only
/// if its id is published or it is an ancestor needed to reach one.
#[derive(Debug, PartialEq, Eq)]
pub struct PublishedView {
    pub id: String,
    pub name: String,
    pub kind: NodeKind,
    pub children: Vec<PublishedView>,
}

pub open spec fn published_model(v: PublishedView) -> FolderNode
    decreases v,
{
    FolderNode { id: v.id@, name: v.name@, kind: v.kind, children: published_models(v.children@) }
}

pub open spec fn published_models(s: Seq<PublishedView>) -> Seq<FolderNode>
    decreases s,
{
    if s.len() == 0 {
        Seq::empty()
    } else {
        published_models(s.drop_last()).push(published_model(s.last()))
    }
}

pub proof fn lemma_published_models_len(s: Seq<PublishedView>)
    ensures
        published_models(s).len() == s.len(),
    decreases s,
{
    if s.len() > 0 {
        lemma_published_models_len(s.drop_last());
    }
}

/// The set of identifiers a list of id strings denotes.
pub open spec fn id_set(v: Seq<String>) -> Set<Seq<char>> {
    Set::new(|c: Seq<char>| exists|i: int| 0 <= i < v.len() && v[i]@ == c)
}

/// Whether a node survives the filtering: its id is published, or some
/// descendant's is.
pub open spec fn keeps(n: FolderNode, pubs: Set<Seq<char>>) -> bool
    decreases n,
{
    pubs.contains(n.id) || any_kept(n.children, pubs)
}

pub open spec fn any_kept(s: Seq<FolderNode>, pubs: Set<Seq<char>>) -> bool
    decreases s,
{
    if s.len() == 0 {
        false
    } else {
        keeps(s.last(), pubs) || any_kept(s.drop_last(), pubs)
    }
}

/// The structural projection of a node onto the published ids: kept children
/// are pruned recursively and stay in source order; the node itself is always
/// returned, so the root is always present.
pub open spec fn prune_node(n: FolderNode, pubs: Set<Seq<char>>) -> FolderNode
    decreases n,
{
    FolderNode { id: n.id, name: n.name, kind: n.kind, children: prune_nodes(n.children, pubs) }
}

pub open spec fn prune_nodes(s: Seq<FolderNode>, pubs: Set<Seq<char>>) -> Seq<FolderNode>
    decreases s,
{
    if s.len() == 0 {
        Seq::empty()
    } else if keeps(s.last(), pubs) {
        prune_nodes(s.drop_last(), pubs).push(prune_node(s.last(), pubs))
    } else {
        prune_nodes(s.drop_last(), pubs)
    }
}

/// A pruned child list is non-empty exactly when some child is kept.
pub proof fn lemma_any_kept_iff(s: Seq<FolderNode>, pubs: Set<Seq<char>>)
    ensures
        any_kept(s, pubs) <==> prune_nodes(s, pubs).len() > 0,
    decreases s,
{
    if s.len() > 0 {
        lemma_any_kept_iff(s.drop_last(), pubs);
    }
}

/// A node of the output is justified: its id is published, or it still has
/// children (it is an ancestor of a published node), and recursively so.
pub open spec fn justified(n: FolderNode, pubs: Set<Seq<char>>) -> bool
    decreases n,
{
    (pubs.contains(n.id) || n.children.len() > 0) && justified_all(n.children, pubs)
}

pub open spec fn justified_all(s: Seq<FolderNode>, pubs: Set<Seq<char>>) -> bool
    decreases s,
{
    if s.len() == 0 {
        true
    } else {
        justified(s.last(), pubs) && justified_all(s.drop_last(), pubs)
    }
}

pub proof fn lemma_prune_node_justified(n: FolderNode, pubs: Set<Seq<char>>)
    requires
        keeps(n, pubs),
    ensures
        justified(prune_node(n, pubs), pubs),
    decreases n,
{
    lemma_any_kept_iff(n.children, pubs);
    lemma_prune_nodes_justified(n.children, pubs);
}

pub proof fn lemma_prune_nodes_justified(s: Seq<FolderNode>, pubs: Set<Seq<char>>)
    ensures
        justified_all(prune_nodes(s, pubs), pubs),
    decreases s,
{
    if s.len() > 0 {
        lemma_prune_nodes_justified(s.drop_last(), pubs);
        if keeps(s.last(), pubs) {
            lemma_prune_node_justified(s.last(), pubs);
            let p = prune_nodes(s.drop_last(), pubs);
            let q = prune_node(s.last(), pubs);
            assert(p.push(q).drop_last() =~= p);
            assert(p.push(q).last() == q);
        }
    }
}

/// Law: the published view holds only nodes whose id is published or that are
/// structural ancestors needed to reach one; below the root every node is
/// justified.
pub proof fn lemma_published_view_justified(n: FolderNode, pubs: Set<Seq<char>>)
    ensures
        justified_all(prune_node(n, pubs).children, pubs),
{
    lemma_prune_nodes_justified(n.children, pubs);
}

pub proof fn lemma_empty_set_keeps_nothing(n: FolderNode, pubs: Set<Seq<char>>)
    requires
        pubs =~= Set::<Seq<char>>::empty(),
    ensures
        !keeps(n, pubs),
    decreases n,
{
    lemma_empty_set_keeps_no_child(n.children, pubs);
}

pub proof fn lemma_empty_set_keeps_no_child(s: Seq<FolderNode>, pubs: Set<Seq<char>>)
    requires
        pubs =~= Set::<Seq<char>>::empty(),
    ensures
        !any_kept(s, pubs),
    decreases s,
{
    if s.len() > 0 {
        lemma_empty_set_keeps_nothing(s.last(), pubs);
        lemma_empty_set_keeps_no_child(s.drop_last(), pubs);
    }
}

/// Law: an empty published-id set yields a root-only view, never the full
/// tree.
pub proof fn lemma_empty_set_yields_root_only(n: FolderNode, pubs: Set<Seq<char>>)
    requires
        pubs =~= Set::<Seq<char>>::empty(),
    ensures
        prune_node(n, pubs).children =~= Seq::<FolderNode>::empty(),
{
    lemma_empty_set_keeps_no_child(n.children, pubs);
    lemma_any_kept_iff(n.children, pubs);
}

/// Whether the id list contains the given id.
pub fn contains_id(ids: &Vec<String>, id: &String) -> (r: bool)
    ensures
        r <==> id_set(ids@).contains(id@),
{
    let n = ids.len();
    let mut i: usize = 0;
    while i < n
        invariant
            n == ids@.len(),
            i <= n,
            forall|j: int| 0 <= j < i ==> ids@[j]@ != id@,
        decreases n - i,
    {
        if ids[i] == *id {
            return true;
        }
        i = i + 1;
    }
    false
}

/// Filters a folder tree to the published view ids: only nodes whose id is
/// published, or that are needed to reach one, are kept; the root always
/// stays. Structural relationships among the retained nodes are preserved.
pub fn to_published_outline(t: &FolderTree, publish_ids: &Vec<String>) -> (r: PublishedView)
    ensures
        published_model(r) == prune_node(tree_model(*t), id_set(publish_ids@)),
    decreases *t,
{
    let ghost pubs = id_set(publish_ids@);
    let mut children: Vec<PublishedView> = Vec::new();
    let n = t.children.len();
    let mut i: usize = 0;
    while i < n
        invariant
            n == t.children@.len(),
            i <= n,
            pubs == id_set(publish_ids@),
            published_models(children@) == prune_nodes(
                trees_model(t.children@.take(i as int)),
                id_set(publish_ids@),
            ),
        decreases n - i,
    {
        let c = to_published_outline(&t.children[i], publish_ids);
        let keep = contains_id(publish_ids, &t.children[i].id) || c.children.len() > 0;
        proof {
            let t0 = t.children@.take(i as int);
            let t1 = t.children@.take(i as int + 1);
            assert(t1.drop_last() =~= t0);
            assert(t1.last() == t.children@[i as int]);
            assert(trees_model(t1) == trees_model(t0).push(tree_model(t.children@[i as int])));
            let m0 = trees_model(t0);
            let m1 = trees_model(t1);
            assert(m1.drop_last() =~= m0);
            assert(m1.last() == tree_model(t.children@[i as int]));
            lemma_any_kept_iff(tree_model(t.children@[i as int]).children, pubs);
            lemma_published_models_len(c.children@);
            assert(published_models(c.children@) == prune_nodes(
                tree_model(t.children@[i as int]).children,
                pubs,
            ));
            assert(keep <==> keeps(tree_model(t.children@[i as int]), pubs));
            if keep {
                assert(children@.push(c).drop_last() =~= children@);
                assert(children@.push(c).last() == c);
                assert(published_models(children@.push(c)) == published_models(children@).push(
                    published_model(c),
                ));
            }
        }
        if keep {
            children.push(c);
        }
        i = i + 1;
    }
    proof {
        assert(t.children@.take(n as int) =~= t.children@);
    }
    PublishedView { id: t.id.clone(), name: t.name.clone(), kind: t.kind, children }
}

} // verus!
