//! Backend node ids of a DOM subtree, as `DOM.describeNode` reports it.
use vstd::prelude::*;
use std::collections::HashSet;

verus! {

broadcast use vstd::std_specs::hash::group_hash_axioms;

/// A DOM node as described by the browser: its backend node id (when it has
/// an integer one), its children, its shadow roots and, for frames, its
/// content document.
pub struct DomNode {
    pub backend_node_id: Option<i64>,
    pub children: Vec<DomNode>,
    pub shadow_roots: Vec<DomNode>,
    pub content_document: Option<Box<DomNode>>,
}

/// The backend node ids found in `node`, its children, its shadow roots and
/// its content document, recursively.
pub open spec fn subtree_ids(node: DomNode) -> Set<i64>
    decreases node, 1int,
{
    let own = match node.backend_node_id {
        Some(id) => Set::empty().insert(id),
        None => Set::empty(),
    };
    let doc = match node.content_document {
        Some(d) => subtree_ids(*d),
        None => Set::empty(),
    };
    own.union(forest_ids(node.children@)).union(forest_ids(node.shadow_roots@)).union(doc)
}

/// The backend node ids found in the subtrees of `nodes`.
pub open spec fn forest_ids(nodes: Seq<DomNode>) -> Set<i64>
    decreases nodes, 0int,
{
    if nodes.len() == 0 {
        Set::empty()
    } else {
        forest_ids(nodes.drop_last()).union(subtree_ids(nodes.last()))
    }
}

/// The ids of every node of a forest are among the forest's ids.
pub proof fn lemma_forest_contains_member(nodes: Seq<DomNode>, i: int)
    requires
        0 <= i < nodes.len(),
    ensures
        subtree_ids(nodes[i]).subset_of(forest_ids(nodes)),
    decreases nodes.len(),
{
    if i < nodes.len() - 1 {
        lemma_forest_contains_member(nodes.drop_last(), i);
        assert(nodes.drop_last()[i] == nodes[i]);
    }
}

/// The collected ids are closed under descent: they hold the node's own id
/// and all ids below each child, each shadow root and the content document.
pub proof fn law_subtree_ids_closed_under_descent(node: DomNode)
    ensures
        node.backend_node_id matches Some(id) ==> subtree_ids(node).contains(id),
        forall|i: int|
            0 <= i < node.children@.len() ==> #[trigger] subtree_ids(node.children@[i]).subset_of(
                subtree_ids(node),
            ),
        forall|i: int|
            0 <= i < node.shadow_roots@.len() ==> #[trigger] subtree_ids(
                node.shadow_roots@[i],
            ).subset_of(subtree_ids(node)),
        node.content_document matches Some(d) ==> subtree_ids(*d).subset_of(subtree_ids(node)),
{
    assert forall|i: int| 0 <= i < node.children@.len() implies #[trigger] subtree_ids(
        node.children@[i],
    ).subset_of(subtree_ids(node)) by {
        lemma_forest_contains_member(node.children@, i);
    }
    assert forall|i: int| 0 <= i < node.shadow_roots@.len() implies #[trigger] subtree_ids(
        node.shadow_roots@[i],
    ).subset_of(subtree_ids(node)) by {
        lemma_forest_contains_member(node.shadow_roots@, i);
    }
}

/// Every id of a forest belongs to one of its trees.
pub proof fn lemma_forest_member_of_some_tree(nodes: Seq<DomNode>, id: i64) -> (i: int)
    requires
        forest_ids(nodes).contains(id),
    ensures
        0 <= i < nodes.len(),
        subtree_ids(nodes[i]).contains(id),
    decreases nodes.len(),
{
    if subtree_ids(nodes.last()).contains(id) {
        nodes.len() - 1
    } else {
        let i = lemma_forest_member_of_some_tree(nodes.drop_last(), id);
        assert(nodes.drop_last()[i] == nodes[i]);
        i
    }
}

/// The collected ids hold nothing else: each is the node's own id or an id
/// from below one of its children, shadow roots or its content document.
pub proof fn law_subtree_ids_come_from_the_tree(node: DomNode, id: i64)
    requires
        subtree_ids(node).contains(id),
    ensures
        node.backend_node_id == Some(id) || (exists|i: int|
            0 <= i < node.children@.len() && #[trigger] subtree_ids(node.children@[i]).contains(id))
            || (exists|i: int|
            0 <= i < node.shadow_roots@.len() && #[trigger] subtree_ids(
                node.shadow_roots@[i],
            ).contains(id)) || (node.content_document matches Some(d) && subtree_ids(
            *d,
        ).contains(id)),
{
    if forest_ids(node.children@).contains(id) {
        let i = lemma_forest_member_of_some_tree(node.children@, id);
        assert(subtree_ids(node.children@[i]).contains(id));
    } else if forest_ids(node.shadow_roots@).contains(id) {
        let i = lemma_forest_member_of_some_tree(node.shadow_roots@, id);
        assert(subtree_ids(node.shadow_roots@[i]).contains(id));
    }
}

/// Adds to `ids` the backend node id of `node` and of every node below it,
/// through children, shadow roots and content documents.
pub fn collect_backend_node_ids(node: &DomNode, ids: &mut HashSet<i64>)
    ensures
        final(ids)@ == old(ids)@.union(subtree_ids(*node)),
    decreases node, 1int,
{
    if let Some(bid) = node.backend_node_id {
        ids.insert(bid);
    }
    collect_forest(&node.children, ids);
    collect_forest(&node.shadow_roots, ids);
    if let Some(content_doc) = &node.content_document {
        collect_backend_node_ids(content_doc, ids);
    }
    proof {
        assert(final(ids)@ =~= old(ids)@.union(subtree_ids(*node)));
    }
}

fn collect_forest(nodes: &Vec<DomNode>, ids: &mut HashSet<i64>)
    ensures
        final(ids)@ == old(ids)@.union(forest_ids(nodes@)),
    decreases nodes@, 0int,
{
    let mut i: usize = 0;
    while i < nodes.len()
        invariant
            i <= nodes@.len(),
            ids@ == old(ids)@.union(forest_ids(nodes@.take(i as int))),
        decreases nodes@.len() - i,
    {
        proof {
            assert(nodes@.take(i + 1).drop_last() =~= nodes@.take(i as int));
        }
        collect_backend_node_ids(&nodes[i], ids);
        proof {
            assert(ids@ =~= old(ids)@.union(forest_ids(nodes@.take(i + 1))));
        }
        i = i + 1;
    }
    proof {
        assert(nodes@.take(nodes@.len() as int) =~= nodes@);
    }
}

} // verus!
