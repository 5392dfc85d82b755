use vstd::prelude::*;

verus! {

/// The tag that identifies the concrete type of a node (Postgres' `NodeTag`).
#[derive(Clone, Copy, Debug, PartialEq, Eq, Structural)]
pub struct NodeTag(pub u32);

/// A node of a query or expression tree.
///
/// `type_` is the node's tag. `expression_walkable` and `raw_walkable` say
/// whether the expression walker and the raw (parse-tree) expression walker
/// handle nodes of this tag; on a node of a tag it does not handle, a walker
/// raises an error. `children` are the sub-nodes that a walker hands to its
/// callback for this node, in the order it hands them over, with `None`
/// where the walker passes a null pointer (an empty field or list cell).
/// The walks hand them over in the order `children` gives.
pub struct Node {
    pub type_: NodeTag,
    pub expression_walkable: bool,
    pub raw_walkable: bool,
    pub children: Vec<Option<Node>>,
}

/// A node of an executor plan-state tree.
///
/// `children` are the plan states that the plan-state walker hands to its
/// callback for this one (init plans, left and right subtrees, the members
/// of an append or a bitmap combination, sub-plans), in that order, with
/// `None` for a null pointer. The walk hands them over in the order
/// `children` gives; that this is the walker's order is up to whoever builds
/// the value.
pub struct PlanState {
    pub type_: NodeTag,
    pub children: Vec<Option<PlanState>>,
}

/// Whether `node` is present and carries the tag `tag` (Postgres' `IsA`).
pub fn is_a(node: Option<&Node>, tag: NodeTag) -> (r: bool)
    ensures
        r == (node matches Some(n) && n.type_ == tag),
{
    match node {
        Some(n) => n.type_ == tag,
        None => false,
    }
}

} // verus!
