use vstd::prelude::*;

use crate::query::presented;
use crate::visitor::{
    lemma_planstate_run_step, lemma_tree_run_step, planstate_walk_run, presented_nodes,
    tree_walk_run,
};
use crate::walk::{aborts, walk_of_done};

pub use crate::query::{Query, QueryField, QueryPart, WalkQueryTree};
pub use crate::text::node_to_string;
pub use crate::tree::{is_a, Node, NodeTag, PlanState};
pub use crate::visitor::{PlanStateVisitor, TreeVisitor};
pub use crate::walk::Walk;

verus! {

/// Whether some entry of `children` is present.
pub open spec fn some_present<T>(children: Seq<Option<T>>) -> bool {
    exists|i: int| 0 <= i < children.len() && children[i] is Some
}

/// Whether a query walk with `flags` over the fields `query` hands at least
/// one present node to its callback: some field of a part that the flags let
/// through holds a node.
pub open spec fn some_presented(query: Seq<QueryField>, flags: i32) -> bool {
    exists|i: int|
        0 <= i < query.len() && presented(query[i].part, flags) && query[i].node is Some
}

/// The callback that the plan-state walker calls for each plan state it
/// hands over. A null pointer (`None`) is passed by without a visit; for a
/// plan state, the visitor's answer is returned in the walker's convention
/// (`true` aborts the walk, see [`Walk::aborts_walk`]).
pub fn planstate_walker_callback<V: PlanStateVisitor>(
    planstate: Option<&PlanState>,
    visitor: &mut V,
) -> (abort: bool)
    ensures
        planstate is None ==> !abort && *final(visitor) == *old(visitor),
        planstate matches Some(p) ==> exists|answer: Walk|
            old(visitor).visit_ends(*p, *final(visitor), answer) && abort == aborts(answer),
{
    match planstate {
        None => false,
        Some(p) => visitor.visit(p).aborts_walk(),
    }
}

/// The callback that the expression, raw-expression and query walkers call
/// for each node they hand over. A null pointer (`None`) is passed by
/// without a visit; for a node, the visitor's answer is returned in the
/// walker's convention (`true` aborts the walk, see [`Walk::aborts_walk`]).
pub fn tree_walker_callback<V: TreeVisitor>(node: Option<&Node>, visitor: &mut V) -> (abort: bool)
    ensures
        node is None ==> !abort && *final(visitor) == *old(visitor),
        node matches Some(n) ==> exists|answer: Walk|
            old(visitor).visit_ends(*n, *final(visitor), answer) && abort == aborts(answer),
{
    match node {
        None => false,
        Some(n) => visitor.visit(n).aborts_walk(),
    }
}

/// Hands each of `children` to the tree callback, in order, until one
/// aborts; returns whether one did.
fn walk_node_children<V: TreeVisitor>(children: &Vec<Option<Node>>, visitor: &mut V) -> (done: bool)
    ensures
        tree_walk_run(children@, *old(visitor), *final(visitor), walk_of_done(done)),
        done ==> some_present(children@),
        !some_present(children@) ==> !done && *final(visitor) == *old(visitor),
{
    let n = children.len();
    let mut i: usize = 0;
    assert(children@.skip(0) =~= children@);
    while i < n
        invariant
            n == children@.len(),
            i <= n,
            (forall|j: int| 0 <= j < i ==> children@[j] is None) ==> *visitor == *old(visitor),
            i == n ==> tree_walk_run(children@, *old(visitor), *visitor, Walk::Continue),
            forall|e: V, w: Walk|
                #[trigger] tree_walk_run(children@.skip(i as int), *visitor, e, w)
                    ==> tree_walk_run(children@, *old(visitor), e, w),
        decreases n - i,
    {
        let ghost before: V = *visitor;
        let child: Option<&Node> = match &children[i] {
            Some(c) => Some(c),
            None => None,
        };
        let abort = tree_walker_callback(child, visitor);
        proof {
            lemma_tree_run_step(children@, i as int, *old(visitor), before, *visitor, abort);
        }
        if abort {
            assert(children@[i as int] is Some);
            return true;
        }
        i = i + 1;
    }
    false
}

/// Walks the plan states directly under `planstate`: hands each of its
/// children to the visitor, in order, skipping null ones, until the visitor
/// answers `Stop`. Answers `Stop` when the walk was aborted, `Continue`
/// otherwise.
pub fn walk_planstate_tree<V: PlanStateVisitor>(planstate: &PlanState, visitor: &mut V) -> (w: Walk)
    ensures
        planstate_walk_run(planstate.children@, *old(visitor), *final(visitor), w),
        w == Walk::Stop ==> some_present(planstate.children@),
        !some_present(planstate.children@) ==> w == Walk::Continue && *final(visitor) == *old(
            visitor,
        ),
{
    let children = &planstate.children;
    let n = children.len();
    let mut i: usize = 0;
    let mut done = false;
    assert(children@.skip(0) =~= children@);
    while i < n
        invariant_except_break
            n == children@.len(),
            i <= n,
            !done,
            (forall|j: int| 0 <= j < i ==> children@[j] is None) ==> *visitor == *old(visitor),
            i == n ==> planstate_walk_run(children@, *old(visitor), *visitor, Walk::Continue),
            forall|e: V, w: Walk|
                #[trigger] planstate_walk_run(children@.skip(i as int), *visitor, e, w)
                    ==> planstate_walk_run(children@, *old(visitor), e, w),
        ensures
            done ==> some_present(children@),
            !some_present(children@) ==> !done && *visitor == *old(visitor),
            planstate_walk_run(children@, *old(visitor), *visitor, walk_of_done(done)),
        decreases n - i,
    {
        let ghost before: V = *visitor;
        let child: Option<&PlanState> = match &children[i] {
            Some(c) => Some(c),
            None => None,
        };
        let abort = planstate_walker_callback(child, visitor);
        proof {
            lemma_planstate_run_step(children@, i as int, *old(visitor), before, *visitor, abort);
        }
        if abort {
            assert(children@[i as int] is Some);
            done = true;
            break;
        }
        i = i + 1;
    }
    Walk::from_done(done)
}

/// Walks the nodes directly under an expression node: hands each of its
/// children to the visitor, in order, skipping null ones, until the visitor
/// answers `Stop`. Answers `Stop` when the walk was aborted, `Continue`
/// otherwise. A node of a tag that the expression walker does not handle
/// is an error, left out by `requires`.
pub fn walk_expression_tree<V: TreeVisitor>(node: &Node, visitor: &mut V) -> (w: Walk)
    requires
        node.expression_walkable,
    ensures
        tree_walk_run(node.children@, *old(visitor), *final(visitor), w),
        w == Walk::Stop ==> some_present(node.children@),
        !some_present(node.children@) ==> w == Walk::Continue && *final(visitor) == *old(visitor),
{
    let done = walk_node_children(&node.children, visitor);
    Walk::from_done(done)
}

/// Walks the nodes directly under a raw (parse-tree) expression node, as
/// [`walk_expression_tree`] does for an expression node. A node of a tag
/// that the raw walker does not handle is an error, left out by `requires`.
pub fn walk_raw_expression_tree<V: TreeVisitor>(node: &Node, visitor: &mut V) -> (w: Walk)
    requires
        node.raw_walkable,
    ensures
        tree_walk_run(node.children@, *old(visitor), *final(visitor), w),
        w == Walk::Stop ==> some_present(node.children@),
        !some_present(node.children@) ==> w == Walk::Continue && *final(visitor) == *old(visitor),
{
    let done = walk_node_children(&node.children, visitor);
    Walk::from_done(done)
}

/// Walks the nodes directly under `query`: hands each sub-node of a part
/// that `options` let through (see [`WalkQueryTree::presents`]) to the
/// visitor, in order, skipping null ones, until the visitor answers `Stop`.
/// Answers `Stop` when the walk was aborted, `Continue` otherwise.
pub fn walk_query_tree<V: TreeVisitor>(query: &Query, visitor: &mut V, options: WalkQueryTree) -> (w: Walk)
    ensures
        tree_walk_run(presented_nodes(query.fields@, options@), *old(visitor), *final(visitor), w),
        w == Walk::Stop ==> some_presented(query.fields@, options@),
        !some_presented(query.fields@, options@) ==> w == Walk::Continue && *final(visitor) == *old(
            visitor,
        ),
{
    let fields = &query.fields;
    let n = fields.len();
    let ghost kids = presented_nodes(fields@, options@);
    let mut i: usize = 0;
    let mut done = false;
    assert(kids.skip(0) =~= kids);
    while i < n
        invariant_except_break
            n == fields@.len(),
            kids == presented_nodes(fields@, options@),
            kids.len() == n,
            i <= n,
            !done,
            (forall|j: int|
                0 <= j < i ==> !(presented(fields@[j].part, options@) && fields@[j].node is Some))
                ==> *visitor == *old(visitor),
            i == n ==> tree_walk_run(kids, *old(visitor), *visitor, Walk::Continue),
            forall|e: V, w: Walk|
                #[trigger] tree_walk_run(kids.skip(i as int), *visitor, e, w) ==> tree_walk_run(
                    kids,
                    *old(visitor),
                    e,
                    w,
                ),
        ensures
            done ==> some_presented(fields@, options@),
            !some_presented(fields@, options@) ==> !done && *visitor == *old(visitor),
            tree_walk_run(kids, *old(visitor), *visitor, walk_of_done(done)),
        decreases n - i,
    {
        let ghost before: V = *visitor;
        let field = &fields[i];
        let abort = if options.presents(field.part) {
            let child: Option<&Node> = match &field.node {
                Some(c) => Some(c),
                None => None,
            };
            tree_walker_callback(child, visitor)
        } else {
            false
        };
        proof {
            lemma_tree_run_step(kids, i as int, *old(visitor), before, *visitor, abort);
        }
        if abort {
            assert(presented(fields@[i as int].part, options@) && fields@[i as int].node is Some);
            done = true;
            break;
        }
        i = i + 1;
    }
    Walk::from_done(done)
}

} // verus!
