//! Trusted interface to the `id_tree` arena that holds the per-apply
//! topology tree.
//!
//! Node payloads are `u64` values: the reserved `ROOT_DATA` for the
//! synthetic root, and a matched screen's slot number for every other node.
//! Four uninterpreted names describe a tree value: which handles belong to
//! it, what payload a handle carries, the payload-to-parent-payload
//! relation of its non-root nodes, and a well-formedness predicate (pairwise
//! distinct payloads, a single parentless root carrying `ROOT_DATA`, and
//! every non-root node's parent as the relation states). The wrappers below
//! state what `id_tree`'s source shows of each call, over those names.

use vstd::prelude::*;
use id_tree::{InsertBehavior, Node, NodeId, Tree, TreeBuilder};

verus! {

#[verifier::external_type_specification]
#[verifier::external_body]
#[verifier::reject_recursive_types(T)]
pub struct ExTree<T>(Tree<T>);

#[verifier::external_type_specification]
#[verifier::external_body]
pub struct ExNodeId(NodeId);

/// Payload of the synthetic root node; no screen slot ever uses it.
pub const ROOT_DATA: u64 = 0xffff_ffff_ffff_ffff;

/// Payload-to-parent-payload relation over the tree's non-root nodes.
pub uninterp spec fn tree_parent_map(t: Tree<u64>) -> Map<u64, u64>;

/// Whether `id` is a live handle of this tree.
pub uninterp spec fn tree_has_node(t: Tree<u64>, id: NodeId) -> bool;

/// Payload carried by the node behind a live handle.
pub uninterp spec fn node_data(t: Tree<u64>, id: NodeId) -> u64;

/// The tree shape these wrappers preserve: payloads pairwise distinct, one
/// parentless root carrying `ROOT_DATA`, and every other node's parent
/// payload given by `tree_parent_map`.
pub uninterp spec fn tree_shape_wf(t: Tree<u64>) -> bool;

/// Relies on id_tree::TreeBuilder::with_root: a fresh tree holds exactly
/// its root node, which carries `ROOT_DATA` and has no parent.
#[verifier::external_body]
pub(crate) fn tree_with_root() -> (r: Tree<u64>)
    ensures
        tree_shape_wf(r),
        tree_parent_map(r) =~= Map::empty(),
{
    TreeBuilder::new().with_root(Node::new(ROOT_DATA)).build()
}

/// Relies on id_tree::Tree::root_node_id: a well-shaped tree reports the
/// handle of its root node, which carries `ROOT_DATA`.
#[verifier::external_body]
pub(crate) fn tree_root_id(t: &Tree<u64>) -> (r: NodeId)
    requires
        tree_shape_wf(*t),
    ensures
        tree_has_node(*t, r),
        node_data(*t, r) == ROOT_DATA,
{
    t.root_node_id().expect("a well-shaped tree has a root").clone()
}

/// Relies on id_tree::Tree::insert with InsertBehavior::UnderNode: a new
/// node with the given payload appears under the given parent, existing
/// handles and payloads stay valid and unchanged, and the new handle is
/// returned.
#[verifier::external_body]
pub(crate) fn tree_insert_under(t: &mut Tree<u64>, data: u64, parent: &NodeId) -> (r: NodeId)
    requires
        tree_shape_wf(*old(t)),
        tree_has_node(*old(t), *parent),
        data != ROOT_DATA,
        !tree_parent_map(*old(t)).dom().contains(data),
    ensures
        tree_shape_wf(*final(t)),
        tree_parent_map(*final(t)) == tree_parent_map(*old(t)).insert(
            data,
            node_data(*old(t), *parent),
        ),
        tree_has_node(*final(t), r),
        node_data(*final(t), r) == data,
        forall|id: NodeId|
            tree_has_node(*old(t), id) ==> #[trigger] tree_has_node(*final(t), id) && node_data(
                *final(t),
                id,
            ) == node_data(*old(t), id),
{
    t.insert(Node::new(data), InsertBehavior::UnderNode(parent)).expect(
        "inserting under a live handle cannot fail",
    )
}

/// Relies on id_tree::Tree::get and Node::parent: the root node reports no
/// parent; every other node reports the handle of its parent, whose
/// payload the relation gives.
#[verifier::external_body]
pub(crate) fn tree_node_parent(t: &Tree<u64>, id: &NodeId) -> (r: Option<NodeId>)
    requires
        tree_shape_wf(*t),
        tree_has_node(*t, *id),
    ensures
        match r {
            None => node_data(*t, *id) == ROOT_DATA,
            Some(p) => {
                &&& node_data(*t, *id) != ROOT_DATA
                &&& tree_has_node(*t, p)
                &&& tree_parent_map(*t).dom().contains(node_data(*t, *id))
                &&& node_data(*t, p) == tree_parent_map(*t)[node_data(*t, *id)]
            },
        },
{
    t.get(id).expect("a live handle resolves").parent().cloned()
}

/// Relies on id_tree::Tree::get and Node::data: a live handle resolves to
/// its node's payload.
#[verifier::external_body]
pub(crate) fn tree_node_data(t: &Tree<u64>, id: &NodeId) -> (r: u64)
    requires
        tree_has_node(*t, *id),
    ensures
        r == node_data(*t, *id),
{
    *t.get(id).expect("a live handle resolves").data()
}

} // verus!
