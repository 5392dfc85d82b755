use vstd::prelude::*;

use crate::query::{presented, QueryField};
use crate::tree::{Node, PlanState};
use crate::walk::{aborts, Walk};

verus! {

/// A visitor of the plan states that `walk_planstate_tree` hands over.
pub trait PlanStateVisitor: Sized {
    /// How a visit can end: a visit to `planstate` from the visitor `self`
    /// can leave the visitor as `after` and answer `answer`. A visitor that
    /// does not define it leaves it `true`, which says nothing.
    closed spec fn visit_ends(&self, planstate: PlanState, after: Self, answer: Walk) -> bool {
        true
    }

    fn visit(&mut self, planstate: &PlanState) -> (answer: Walk)
        ensures
            old(self).visit_ends(*planstate, *final(self), answer),
    ;
}

/// A visitor of the nodes that the expression, raw-expression and query
/// walkers hand over.
pub trait TreeVisitor: Sized {
    /// How a visit can end: a visit to `node` from the visitor `self` can
    /// leave the visitor as `after` and answer `answer`. A visitor that does
    /// not define it leaves it `true`, which says nothing.
    closed spec fn visit_ends(&self, node: Node, after: Self, answer: Walk) -> bool {
        true
    }

    fn visit(&mut self, node: &Node) -> (answer: Walk)
        ensures
            old(self).visit_ends(*node, *final(self), answer),
    ;
}

/// The nodes that a query walk with `flags` hands to its callback, in
/// order: the node of each field whose part the flags let through, and a
/// null pointer (`None`) in place of every other field.
pub open spec fn presented_nodes(fields: Seq<QueryField>, flags: i32) -> Seq<Option<Node>> {
    fields.map_values(
        |f: QueryField|
            if presented(f.part, flags) {
                f.node
            } else {
                None
            },
    )
}

/// `children` with the null entries left out.
pub open spec fn drop_nulls<T>(children: Seq<Option<T>>) -> Seq<Option<T>>
    decreases children.len(),
{
    if children.len() == 0 {
        children
    } else if children[0] is None {
        drop_nulls(children.drop_first())
    } else {
        seq![children[0]] + drop_nulls(children.drop_first())
    }
}

/// A walk that hands each present entry of `children` to the tree
/// visitor, in order, until the visitor answers `Stop`, can take the visitor
/// from `start` to `end` and answer `w`: every visit ends as
/// [`TreeVisitor::visit_ends`] allows, a `Stop` answer ends the walk with
/// `Stop`, and a walk that runs out of children answers `Continue`.
pub open spec fn tree_walk_run<V: TreeVisitor>(
    children: Seq<Option<Node>>,
    start: V,
    end: V,
    w: Walk,
) -> bool
    decreases children.len(),
{
    if children.len() == 0 {
        end == start && w == Walk::Continue
    } else {
        match children[0] {
            None => tree_walk_run(children.drop_first(), start, end, w),
            Some(n) => exists|mid: V, answer: Walk|
                #![trigger start.visit_ends(n, mid, answer)]
                start.visit_ends(n, mid, answer) && if answer == Walk::Stop {
                    end == mid && w == Walk::Stop
                } else {
                    tree_walk_run(children.drop_first(), mid, end, w)
                },
        }
    }
}

/// The answers of the visits that a tree walk over `children` makes on
/// its way from `start` to `end`, one entry per child it passes, in order:
/// `None` for a null child, which is skipped, and `Some(a)` for a child
/// that a visit, ending as [`TreeVisitor::visit_ends`] allows, answers `a`. The
/// entries stop after the first `Stop`, or at the end of `children`.
pub open spec fn tree_walk_trace<V: TreeVisitor>(
    children: Seq<Option<Node>>,
    start: V,
    end: V,
    answers: Seq<Option<Walk>>,
) -> bool
    decreases children.len(),
{
    if children.len() == 0 {
        end == start && answers.len() == 0
    } else if answers.len() == 0 {
        false
    } else {
        match children[0] {
            None => answers[0] is None && tree_walk_trace(
                children.drop_first(),
                start,
                end,
                answers.drop_first(),
            ),
            Some(n) => answers[0] matches Some(a) && exists|mid: V|
                #![trigger start.visit_ends(n, mid, a)]
                start.visit_ends(n, mid, a) && if a == Walk::Stop {
                    end == mid && answers.len() == 1
                } else {
                    tree_walk_trace(children.drop_first(), mid, end, answers.drop_first())
                },
        }
    }
}

/// One more step of a tree walk: when a walk from `origin` reaches the
/// child at `i` with the visitor `before`, and handing that child to the
/// callback leaves the visitor `now` and returns `abort`, the walk from
/// `origin` can end at `now` with `Stop` on `abort`, goes on as the walk over
/// the children after `i` from `now` otherwise, and answers `Continue` at
/// `now` when that was the last child.
pub proof fn lemma_tree_run_step<V: TreeVisitor>(
    children: Seq<Option<Node>>,
    i: int,
    origin: V,
    before: V,
    now: V,
    abort: bool,
)
    requires
        0 <= i < children.len(),
        forall|e: V, w: Walk|
            #[trigger] tree_walk_run(children.skip(i), before, e, w) ==> tree_walk_run(
                children,
                origin,
                e,
                w,
            ),
        children[i] is None ==> now == before && !abort,
        children[i] matches Some(n) ==> exists|a: Walk|
            before.visit_ends(n, now, a) && abort == aborts(a),
    ensures
        abort ==> tree_walk_run(children, origin, now, Walk::Stop),
        !abort ==> forall|e: V, w: Walk|
            #[trigger] tree_walk_run(children.skip(i + 1), now, e, w) ==> tree_walk_run(
                children,
                origin,
                e,
                w,
            ),
        !abort && i + 1 == children.len() ==> tree_walk_run(children, origin, now, Walk::Continue),
{
    let rest = children.skip(i);
    assert(rest.drop_first() =~= children.skip(i + 1));
    assert(rest[0] == children[i]);
    match children[i] {
        None => {
            assert forall|e: V, w: Walk|
                #[trigger] tree_walk_run(children.skip(i + 1), now, e, w) implies tree_walk_run(
                children,
                origin,
                e,
                w,
            ) by {
                assert(tree_walk_run(rest, before, e, w));
            }
        },
        Some(n) => {
            let a = choose|a: Walk| before.visit_ends(n, now, a) && abort == aborts(a);
            if abort {
                assert(tree_walk_run(rest, before, now, Walk::Stop));
            } else {
                assert forall|e: V, w: Walk|
                    #[trigger] tree_walk_run(children.skip(i + 1), now, e, w) implies tree_walk_run(
                    children,
                    origin,
                    e,
                    w,
                ) by {
                    assert(before.visit_ends(n, now, a));
                    assert(tree_walk_run(rest, before, e, w));
                }
            }
        },
    }
    if !abort && i + 1 == children.len() {
        assert(children.skip(i + 1) =~= Seq::<Option<Node>>::empty());
        assert(tree_walk_run(children.skip(i + 1), now, now, Walk::Continue));
    }
}

/// A walk that hands each present entry of `children` to the plan-state
/// visitor, in order, until the visitor answers `Stop`, can take the visitor
/// from `start` to `end` and answer `w`: every visit ends as
/// [`PlanStateVisitor::visit_ends`] allows, a `Stop` answer ends the walk with
/// `Stop`, and a walk that runs out of children answers `Continue`.
pub open spec fn planstate_walk_run<V: PlanStateVisitor>(
    children: Seq<Option<PlanState>>,
    start: V,
    end: V,
    w: Walk,
) -> bool
    decreases children.len(),
{
    if children.len() == 0 {
        end == start && w == Walk::Continue
    } else {
        match children[0] {
            None => planstate_walk_run(children.drop_first(), start, end, w),
            Some(n) => exists|mid: V, answer: Walk|
                #![trigger start.visit_ends(n, mid, answer)]
                start.visit_ends(n, mid, answer) && if answer == Walk::Stop {
                    end == mid && w == Walk::Stop
                } else {
                    planstate_walk_run(children.drop_first(), mid, end, w)
                },
        }
    }
}

/// The answers of the visits that a plan-state walk over `children` makes on
/// its way from `start` to `end`, one entry per child it passes, in order:
/// `None` for a null child, which is skipped, and `Some(a)` for a child
/// that a visit, ending as [`PlanStateVisitor::visit_ends`] allows, answers `a`. The
/// entries stop after the first `Stop`, or at the end of `children`.
pub open spec fn planstate_walk_trace<V: PlanStateVisitor>(
    children: Seq<Option<PlanState>>,
    start: V,
    end: V,
    answers: Seq<Option<Walk>>,
) -> bool
    decreases children.len(),
{
    if children.len() == 0 {
        end == start && answers.len() == 0
    } else if answers.len() == 0 {
        false
    } else {
        match children[0] {
            None => answers[0] is None && planstate_walk_trace(
                children.drop_first(),
                start,
                end,
                answers.drop_first(),
            ),
            Some(n) => answers[0] matches Some(a) && exists|mid: V|
                #![trigger start.visit_ends(n, mid, a)]
                start.visit_ends(n, mid, a) && if a == Walk::Stop {
                    end == mid && answers.len() == 1
                } else {
                    planstate_walk_trace(children.drop_first(), mid, end, answers.drop_first())
                },
        }
    }
}

/// One more step of a plan-state walk: when a walk from `origin` reaches the
/// child at `i` with the visitor `before`, and handing that child to the
/// callback leaves the visitor `now` and returns `abort`, the walk from
/// `origin` can end at `now` with `Stop` on `abort`, goes on as the walk over
/// the children after `i` from `now` otherwise, and answers `Continue` at
/// `now` when that was the last child.
pub proof fn lemma_planstate_run_step<V: PlanStateVisitor>(
    children: Seq<Option<PlanState>>,
    i: int,
    origin: V,
    before: V,
    now: V,
    abort: bool,
)
    requires
        0 <= i < children.len(),
        forall|e: V, w: Walk|
            #[trigger] planstate_walk_run(children.skip(i), before, e, w) ==> planstate_walk_run(
                children,
                origin,
                e,
                w,
            ),
        children[i] is None ==> now == before && !abort,
        children[i] matches Some(n) ==> exists|a: Walk|
            before.visit_ends(n, now, a) && abort == aborts(a),
    ensures
        abort ==> planstate_walk_run(children, origin, now, Walk::Stop),
        !abort ==> forall|e: V, w: Walk|
            #[trigger] planstate_walk_run(children.skip(i + 1), now, e, w) ==> planstate_walk_run(
                children,
                origin,
                e,
                w,
            ),
        !abort && i + 1 == children.len() ==> planstate_walk_run(children, origin, now, Walk::Continue),
{
    let rest = children.skip(i);
    assert(rest.drop_first() =~= children.skip(i + 1));
    assert(rest[0] == children[i]);
    match children[i] {
        None => {
            assert forall|e: V, w: Walk|
                #[trigger] planstate_walk_run(children.skip(i + 1), now, e, w) implies planstate_walk_run(
                children,
                origin,
                e,
                w,
            ) by {
                assert(planstate_walk_run(rest, before, e, w));
            }
        },
        Some(n) => {
            let a = choose|a: Walk| before.visit_ends(n, now, a) && abort == aborts(a);
            if abort {
                assert(planstate_walk_run(rest, before, now, Walk::Stop));
            } else {
                assert forall|e: V, w: Walk|
                    #[trigger] planstate_walk_run(children.skip(i + 1), now, e, w) implies planstate_walk_run(
                    children,
                    origin,
                    e,
                    w,
                ) by {
                    assert(before.visit_ends(n, now, a));
                    assert(planstate_walk_run(rest, before, e, w));
                }
            }
        },
    }
    if !abort && i + 1 == children.len() {
        assert(children.skip(i + 1) =~= Seq::<Option<PlanState>>::empty());
        assert(planstate_walk_run(children.skip(i + 1), now, now, Walk::Continue));
    }
}

} // verus!
