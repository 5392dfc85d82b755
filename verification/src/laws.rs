use vstd::prelude::*;

use crate::query::{
    has_flag, is_range_part, presented, without_range_table, QueryField, QueryPart,
};
use crate::tree::{Node, PlanState};
use crate::visitor::{
    drop_nulls, planstate_walk_run, planstate_walk_trace, presented_nodes, tree_walk_run,
    tree_walk_trace, PlanStateVisitor, TreeVisitor,
};
use crate::walk::{aborts, present_count, walk_of_done, walk_outcome, Walk};

verus! {

/// Walking one run of sub-nodes after another: the walk over
/// `first + second` ends inside `first` when the walk over `first` answers
/// `Stop`; otherwise it answers as the walk over `second` does, with the
/// visits of both runs added up.
pub proof fn law_walk_concat(first: Seq<Option<Walk>>, second: Seq<Option<Walk>>)
    ensures
        walk_outcome(first + second) == (if walk_outcome(first).0 == Walk::Stop {
            walk_outcome(first)
        } else {
            (walk_outcome(second).0, walk_outcome(first).1 + walk_outcome(second).1)
        }),
    decreases first.len(),
{
    if first.len() == 0 {
        assert(first + second =~= second);
    } else {
        assert((first + second).drop_first() =~= first.drop_first() + second);
        assert((first + second)[0] == first[0]);
        law_walk_concat(first.drop_first(), second);
    }
}

/// A null pointer handed to the callback, at any place among the sub-nodes,
/// changes neither the walk's answer nor its number of visits.
pub proof fn law_null_is_skipped(answers: Seq<Option<Walk>>, i: int)
    requires
        0 <= i <= answers.len(),
    ensures
        walk_outcome(answers.insert(i, None)) == walk_outcome(answers),
{
    let before = answers.take(i);
    let after = answers.skip(i);
    let with_null = seq![None::<Walk>] + after;
    assert(answers =~= before + after);
    assert(answers.insert(i, None) =~= before + with_null);
    assert(with_null.drop_first() =~= after);
    law_walk_concat(before, with_null);
    law_walk_concat(before, after);
}

/// A walk answers `Stop` exactly when some present sub-node is answered
/// `Stop` by the visitor.
pub proof fn law_stop_iff_visitor_stops(answers: Seq<Option<Walk>>)
    ensures
        walk_outcome(answers).0 == Walk::Stop <==> exists|i: int|
            0 <= i < answers.len() && answers[i] == Some(Walk::Stop),
    decreases answers.len(),
{
    if answers.len() > 0 {
        let rest = answers.drop_first();
        law_stop_iff_visitor_stops(rest);
        if exists|i: int| 0 <= i < rest.len() && rest[i] == Some(Walk::Stop) {
            let i = choose|i: int| 0 <= i < rest.len() && rest[i] == Some(Walk::Stop);
            assert(answers[i + 1] == Some(Walk::Stop));
        }
        if exists|i: int| 0 <= i < answers.len() && answers[i] == Some(Walk::Stop) {
            let i = choose|i: int| 0 <= i < answers.len() && answers[i] == Some(Walk::Stop);
            if i > 0 {
                assert(rest[i - 1] == Some(Walk::Stop));
            }
        }
    }
}

/// The first present sub-node answered `Stop` ends the walk: the walk
/// answers `Stop` after visiting exactly the present sub-nodes up to and
/// including that one, and none after it.
pub proof fn law_first_stop_ends_walk(answers: Seq<Option<Walk>>, k: int)
    requires
        0 <= k < answers.len(),
        answers[k] == Some(Walk::Stop),
        forall|j: int| 0 <= j < k ==> answers[j] != Some(Walk::Stop),
    ensures
        walk_outcome(answers) == (Walk::Stop, present_count(answers.take(k + 1))),
    decreases k,
{
    let head = answers.take(k + 1);
    assert(head.drop_first() =~= answers.drop_first().take(k));
    if k == 0 {
        assert(head.drop_first() =~= Seq::<Option<Walk>>::empty());
    } else {
        assert(answers[0] != Some(Walk::Stop));
        law_first_stop_ends_walk(answers.drop_first(), k - 1);
    }
}

/// When no present sub-node is answered `Stop`, the walk visits every
/// present sub-node exactly once and answers `Continue`.
pub proof fn law_no_stop_visits_all(answers: Seq<Option<Walk>>)
    requires
        forall|i: int| 0 <= i < answers.len() ==> answers[i] != Some(Walk::Stop),
    ensures
        walk_outcome(answers) == (Walk::Continue, present_count(answers)),
    decreases answers.len(),
{
    if answers.len() > 0 {
        assert(answers[0] != Some(Walk::Stop));
        law_no_stop_visits_all(answers.drop_first());
    }
}

/// The callback convention (`true` aborts) and the walk's answer convert
/// into each other without loss, both ways.
pub proof fn law_done_roundtrip(w: Walk, done: bool)
    ensures
        walk_of_done(aborts(w)) == w,
        aborts(walk_of_done(done)) == done,
{
}


/// Every tree (expression, raw-expression or query) walk follows the visitor's answers: a walk over `children`
/// from `start` to `end` that answers `w` makes visits whose answers, with
/// `None` for each null child passed, form a trace of it (each answer the
/// end of a visit as [`TreeVisitor::visit_ends`] allows, the visitor carried from
/// one visit to the next), and [`walk_outcome`] of those answers is `w`
/// together with the number of visits made.
pub proof fn law_tree_walk_follows_outcome<V: TreeVisitor>(
    children: Seq<Option<Node>>,
    start: V,
    end: V,
    w: Walk,
)
    requires
        tree_walk_run(children, start, end, w),
    ensures
        exists|answers: Seq<Option<Walk>>|
            #[trigger] tree_walk_trace(children, start, end, answers) && walk_outcome(answers) == (
                w,
                present_count(answers),
            ),
    decreases children.len(),
{
    if children.len() == 0 {
        assert(tree_walk_trace(children, start, end, Seq::<Option<Walk>>::empty()));
        assert(walk_outcome(Seq::<Option<Walk>>::empty()) == (w, 0nat));
    } else {
        let rest = children.drop_first();
        match children[0] {
            None => {
                law_tree_walk_follows_outcome(rest, start, end, w);
                let r = choose|r: Seq<Option<Walk>>|
                    #[trigger] tree_walk_trace(rest, start, end, r) && walk_outcome(r) == (
                        w,
                        present_count(r),
                    );
                let a = seq![None::<Walk>] + r;
                assert(a.drop_first() =~= r);
                assert(a[0] is None);
                assert(tree_walk_trace(children, start, end, a));
                assert(walk_outcome(a) == (w, present_count(a)));
            },
            Some(n) => {
                let (mid, ans) = choose|mid: V, ans: Walk|
                    start.visit_ends(n, mid, ans) && if ans == Walk::Stop {
                        end == mid && w == Walk::Stop
                    } else {
                        tree_walk_run(rest, mid, end, w)
                    };
                if ans == Walk::Stop {
                    let a = seq![Some(Walk::Stop)];
                    assert(a.drop_first() =~= Seq::<Option<Walk>>::empty());
                    assert(present_count(a.drop_first()) == 0);
                    assert(a[0] == Some(ans));
                    assert(start.visit_ends(n, mid, ans));
                    assert(tree_walk_trace(children, start, end, a));
                    assert(walk_outcome(a) == (w, present_count(a)));
                } else {
                    law_tree_walk_follows_outcome(rest, mid, end, w);
                    let r = choose|r: Seq<Option<Walk>>|
                        #[trigger] tree_walk_trace(rest, mid, end, r) && walk_outcome(r) == (
                            w,
                            present_count(r),
                        );
                    let a = seq![Some(Walk::Continue)] + r;
                    assert(a.drop_first() =~= r);
                    assert(a[0] == Some(ans));
                    assert(start.visit_ends(n, mid, ans));
                    assert(tree_walk_trace(children, start, end, a));
                    assert(walk_outcome(a) == (w, present_count(a)));
                }
            },
        }
    }
}

/// Null children do not change a tree (expression, raw-expression or query) walk: a walk over `children` can
/// take the visitor from `start` to `end` and answer `w` exactly when a
/// walk over the same children with the null ones left out can.
pub proof fn law_tree_walk_ignores_nulls<V: TreeVisitor>(
    children: Seq<Option<Node>>,
    start: V,
    end: V,
    w: Walk,
)
    ensures
        tree_walk_run(children, start, end, w) == tree_walk_run(drop_nulls(children), start, end, w),
    decreases children.len(),
{
    if children.len() > 0 {
        let rest = children.drop_first();
        match children[0] {
            None => {
                law_tree_walk_ignores_nulls(rest, start, end, w);
            },
            Some(n) => {
                let d = drop_nulls(rest);
                let dc = drop_nulls(children);
                assert(dc == seq![children[0]] + d);
                assert(dc.drop_first() =~= d);
                assert(dc[0] == Some(n));
                if tree_walk_run(children, start, end, w) {
                    let (mid, ans) = choose|mid: V, ans: Walk|
                        start.visit_ends(n, mid, ans) && if ans == Walk::Stop {
                            end == mid && w == Walk::Stop
                        } else {
                            tree_walk_run(rest, mid, end, w)
                        };
                    law_tree_walk_ignores_nulls(rest, mid, end, w);
                    assert(start.visit_ends(n, mid, ans));
                    assert(tree_walk_run(dc, start, end, w));
                }
                if tree_walk_run(dc, start, end, w) {
                    let (mid, ans) = choose|mid: V, ans: Walk|
                        start.visit_ends(n, mid, ans) && if ans == Walk::Stop {
                            end == mid && w == Walk::Stop
                        } else {
                            tree_walk_run(d, mid, end, w)
                        };
                    law_tree_walk_ignores_nulls(rest, mid, end, w);
                    assert(start.visit_ends(n, mid, ans));
                    assert(tree_walk_run(children, start, end, w));
                }
            },
        }
    }
}

/// Two tree (expression, raw-expression or query) walks over children that differ only in null entries go the
/// same way: from the same visitor they can reach the same visitor with the
/// same answer.
pub proof fn law_tree_walks_agree_up_to_nulls<V: TreeVisitor>(
    first: Seq<Option<Node>>,
    second: Seq<Option<Node>>,
    start: V,
    end: V,
    w: Walk,
)
    requires
        drop_nulls(first) == drop_nulls(second),
    ensures
        tree_walk_run(first, start, end, w) == tree_walk_run(second, start, end, w),
{
    law_tree_walk_ignores_nulls(first, start, end, w);
    law_tree_walk_ignores_nulls(second, start, end, w);
}

/// Every plan-state walk follows the visitor's answers: a walk over `children`
/// from `start` to `end` that answers `w` makes visits whose answers, with
/// `None` for each null child passed, form a trace of it (each answer the
/// end of a visit as [`PlanStateVisitor::visit_ends`] allows, the visitor carried from
/// one visit to the next), and [`walk_outcome`] of those answers is `w`
/// together with the number of visits made.
pub proof fn law_planstate_walk_follows_outcome<V: PlanStateVisitor>(
    children: Seq<Option<PlanState>>,
    start: V,
    end: V,
    w: Walk,
)
    requires
        planstate_walk_run(children, start, end, w),
    ensures
        exists|answers: Seq<Option<Walk>>|
            #[trigger] planstate_walk_trace(children, start, end, answers) && walk_outcome(answers) == (
                w,
                present_count(answers),
            ),
    decreases children.len(),
{
    if children.len() == 0 {
        assert(planstate_walk_trace(children, start, end, Seq::<Option<Walk>>::empty()));
        assert(walk_outcome(Seq::<Option<Walk>>::empty()) == (w, 0nat));
    } else {
        let rest = children.drop_first();
        match children[0] {
            None => {
                law_planstate_walk_follows_outcome(rest, start, end, w);
                let r = choose|r: Seq<Option<Walk>>|
                    #[trigger] planstate_walk_trace(rest, start, end, r) && walk_outcome(r) == (
                        w,
                        present_count(r),
                    );
                let a = seq![None::<Walk>] + r;
                assert(a.drop_first() =~= r);
                assert(a[0] is None);
                assert(planstate_walk_trace(children, start, end, a));
                assert(walk_outcome(a) == (w, present_count(a)));
            },
            Some(n) => {
                let (mid, ans) = choose|mid: V, ans: Walk|
                    start.visit_ends(n, mid, ans) && if ans == Walk::Stop {
                        end == mid && w == Walk::Stop
                    } else {
                        planstate_walk_run(rest, mid, end, w)
                    };
                if ans == Walk::Stop {
                    let a = seq![Some(Walk::Stop)];
                    assert(a.drop_first() =~= Seq::<Option<Walk>>::empty());
                    assert(present_count(a.drop_first()) == 0);
                    assert(a[0] == Some(ans));
                    assert(start.visit_ends(n, mid, ans));
                    assert(planstate_walk_trace(children, start, end, a));
                    assert(walk_outcome(a) == (w, present_count(a)));
                } else {
                    law_planstate_walk_follows_outcome(rest, mid, end, w);
                    let r = choose|r: Seq<Option<Walk>>|
                        #[trigger] planstate_walk_trace(rest, mid, end, r) && walk_outcome(r) == (
                            w,
                            present_count(r),
                        );
                    let a = seq![Some(Walk::Continue)] + r;
                    assert(a.drop_first() =~= r);
                    assert(a[0] == Some(ans));
                    assert(start.visit_ends(n, mid, ans));
                    assert(planstate_walk_trace(children, start, end, a));
                    assert(walk_outcome(a) == (w, present_count(a)));
                }
            },
        }
    }
}

/// Null children do not change a plan-state walk: a walk over `children` can
/// take the visitor from `start` to `end` and answer `w` exactly when a
/// walk over the same children with the null ones left out can.
pub proof fn law_planstate_walk_ignores_nulls<V: PlanStateVisitor>(
    children: Seq<Option<PlanState>>,
    start: V,
    end: V,
    w: Walk,
)
    ensures
        planstate_walk_run(children, start, end, w) == planstate_walk_run(drop_nulls(children), start, end, w),
    decreases children.len(),
{
    if children.len() > 0 {
        let rest = children.drop_first();
        match children[0] {
            None => {
                law_planstate_walk_ignores_nulls(rest, start, end, w);
            },
            Some(n) => {
                let d = drop_nulls(rest);
                let dc = drop_nulls(children);
                assert(dc == seq![children[0]] + d);
                assert(dc.drop_first() =~= d);
                assert(dc[0] == Some(n));
                if planstate_walk_run(children, start, end, w) {
                    let (mid, ans) = choose|mid: V, ans: Walk|
                        start.visit_ends(n, mid, ans) && if ans == Walk::Stop {
                            end == mid && w == Walk::Stop
                        } else {
                            planstate_walk_run(rest, mid, end, w)
                        };
                    law_planstate_walk_ignores_nulls(rest, mid, end, w);
                    assert(start.visit_ends(n, mid, ans));
                    assert(planstate_walk_run(dc, start, end, w));
                }
                if planstate_walk_run(dc, start, end, w) {
                    let (mid, ans) = choose|mid: V, ans: Walk|
                        start.visit_ends(n, mid, ans) && if ans == Walk::Stop {
                            end == mid && w == Walk::Stop
                        } else {
                            planstate_walk_run(d, mid, end, w)
                        };
                    law_planstate_walk_ignores_nulls(rest, mid, end, w);
                    assert(start.visit_ends(n, mid, ans));
                    assert(planstate_walk_run(children, start, end, w));
                }
            },
        }
    }
}

/// Two plan-state walks over children that differ only in null entries go the
/// same way: from the same visitor they can reach the same visitor with the
/// same answer.
pub proof fn law_planstate_walks_agree_up_to_nulls<V: PlanStateVisitor>(
    first: Seq<Option<PlanState>>,
    second: Seq<Option<PlanState>>,
    start: V,
    end: V,
    w: Walk,
)
    requires
        drop_nulls(first) == drop_nulls(second),
    ensures
        planstate_walk_run(first, start, end, w) == planstate_walk_run(second, start, end, w),
{
    law_planstate_walk_ignores_nulls(first, start, end, w);
    law_planstate_walk_ignores_nulls(second, start, end, w);
}


/// With `IGNORE_RANGE_TABLE`, the nodes a query walk hands over are, nulls
/// aside, the same for the query and for the query without its range table.
proof fn lemma_presented_without_range_table(fields: Seq<QueryField>, flags: i32)
    requires
        has_flag(flags, 0x08),
    ensures
        drop_nulls(presented_nodes(fields, flags)) == drop_nulls(
            presented_nodes(without_range_table(fields), flags),
        ),
    decreases fields.len(),
{
    if fields.len() > 0 {
        let rest = fields.drop_first();
        lemma_presented_without_range_table(rest, flags);
        let p = presented_nodes(fields, flags);
        assert(p.drop_first() =~= presented_nodes(rest, flags));
        if is_range_part(fields[0].part) {
            assert(!presented(fields[0].part, flags));
            assert(p[0] is None);
        } else {
            let wr = without_range_table(rest);
            let wf = without_range_table(fields);
            assert(wf == seq![fields[0]] + wr);
            let pw = presented_nodes(wf, flags);
            assert(pw.drop_first() =~= presented_nodes(wr, flags));
            assert(pw[0] == p[0]);
            assert(pw.len() > 0);
        }
    }
}

/// A query walk with `IGNORE_RANGE_TABLE` does not depend on the range
/// table: over two queries that are the same but for their range-table
/// fields, it can take the visitor from the same `start` to the same `end`
/// with the same answer.
pub proof fn law_query_walk_ignores_range_table<V: TreeVisitor>(
    first: Seq<QueryField>,
    second: Seq<QueryField>,
    flags: i32,
    start: V,
    end: V,
    w: Walk,
)
    requires
        has_flag(flags, 0x08),
        without_range_table(first) == without_range_table(second),
    ensures
        tree_walk_run(presented_nodes(first, flags), start, end, w) == tree_walk_run(
            presented_nodes(second, flags),
            start,
            end,
            w,
        ),
{
    lemma_presented_without_range_table(first, flags);
    lemma_presented_without_range_table(second, flags);
    law_tree_walks_agree_up_to_nulls(
        presented_nodes(first, flags),
        presented_nodes(second, flags),
        start,
        end,
        w,
    );
}


/// What a query walk hands to its callback for each field, flag by flag
/// (the flags' bits are those of the `WalkQueryTree` constructors):
/// a clause always; a SortGroupClause list only with `EXAMINE_SORT_GROUP`
/// (0x80), a window offset only without it; the CTE list unless
/// `IGNORE_CTE_SUBQUERIES` (0x02), whatever else is set; and of the range
/// table, unless `IGNORE_RANGE_TABLE` (0x08): the entry itself ahead of its
/// contents only with `EXAMINE_RTES_BEFORE` (0x10) and after them only with
/// `EXAMINE_RTES_AFTER` (0x20), a subquery unless `IGNORE_RTABLE_SUBQUERIES`
/// (0x01), join alias vars unless `IGNORE_JOIN_ALIASES` (0x04), group
/// expressions unless `IGNORE_GROUP_EXPRS` (0x100), and any other content.
/// A field that is not handed over stands as a null pointer.
pub proof fn law_query_walk_hands_over(fields: Seq<QueryField>, flags: i32, i: int)
    requires
        0 <= i < fields.len(),
    ensures
        presented_nodes(fields, flags).len() == fields.len(),
        ({
            let handed = presented_nodes(fields, flags)[i];
            let node = fields[i].node;
            let through = flags & 0x08 == 0;
            match fields[i].part {
                QueryPart::Clause => handed == node,
                QueryPart::SortGroupList => handed == (if flags & 0x80 != 0 {
                    node
                } else {
                    None
                }),
                QueryPart::WindowOffset => handed == (if flags & 0x80 == 0 {
                    node
                } else {
                    None
                }),
                QueryPart::CteList => handed == (if flags & 0x02 == 0 {
                    node
                } else {
                    None
                }),
                QueryPart::RangeEntryBefore => handed == (if through && flags & 0x10 != 0 {
                    node
                } else {
                    None
                }),
                QueryPart::RangeSubquery => handed == (if through && flags & 0x01 == 0 {
                    node
                } else {
                    None
                }),
                QueryPart::RangeJoinAliases => handed == (if through && flags & 0x04 == 0 {
                    node
                } else {
                    None
                }),
                QueryPart::RangeContent => handed == (if through {
                    node
                } else {
                    None
                }),
                QueryPart::RangeEntryAfter => handed == (if through && flags & 0x20 != 0 {
                    node
                } else {
                    None
                }),
                QueryPart::RangeGroupExprs => handed == (if through && flags & 0x100 == 0 {
                    node
                } else {
                    None
                }),
            }
        }),
{
}

/// Leaving a null entry out changes nothing once nulls are dropped.
proof fn lemma_drop_nulls_remove_null<T>(s: Seq<Option<T>>, i: int)
    requires
        0 <= i < s.len(),
        s[i] is None,
    ensures
        drop_nulls(s.remove(i)) == drop_nulls(s),
    decreases i,
{
    if i == 0 {
        assert(s.remove(0) =~= s.drop_first());
    } else {
        let r = s.remove(i);
        assert(r.drop_first() =~= s.drop_first().remove(i - 1));
        assert(r[0] == s[0]);
        lemma_drop_nulls_remove_null(s.drop_first(), i - 1);
    }
}

/// A field that a query walk does not hand over plays no part in it: with
/// that field left out of the query, the walk can take the visitor from the
/// same `start` to the same `end` with the same answer. With the flag
/// meanings of [`law_query_walk_hands_over`], for example, a range-table
/// subquery is no part of a walk with `IGNORE_RTABLE_SUBQUERIES`, and join
/// alias vars are no part of one with `IGNORE_JOIN_ALIASES`.
pub proof fn law_query_walk_ignores_hidden_field<V: TreeVisitor>(
    fields: Seq<QueryField>,
    flags: i32,
    i: int,
    start: V,
    end: V,
    w: Walk,
)
    requires
        0 <= i < fields.len(),
        presented_nodes(fields, flags)[i] is None,
    ensures
        tree_walk_run(presented_nodes(fields.remove(i), flags), start, end, w) == tree_walk_run(
            presented_nodes(fields, flags),
            start,
            end,
            w,
        ),
{
    let p = presented_nodes(fields, flags);
    assert(presented_nodes(fields.remove(i), flags) =~= p.remove(i));
    lemma_drop_nulls_remove_null(p, i);
    law_tree_walks_agree_up_to_nulls(p.remove(i), p, start, end, w);
}

} // verus!
