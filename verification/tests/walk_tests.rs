use pgrx_nodes::nodes::{
    is_a, node_to_string, planstate_walker_callback, tree_walker_callback, walk_expression_tree,
    walk_planstate_tree, walk_query_tree, walk_raw_expression_tree, Node, NodeTag, PlanState,
    PlanStateVisitor, Query, QueryField, QueryPart, TreeVisitor, Walk, WalkQueryTree,
};
use pgrx_nodes::walk::replay_walk;
use pgrx_nodes::walk::Walk::{Continue, Stop};

const T_LIST: NodeTag = NodeTag(1);
const T_VAR: NodeTag = NodeTag(2);
const T_RESULT_STATE: NodeTag = NodeTag(3);
const T_PROJECT_SET_STATE: NodeTag = NodeTag(4);

fn leaf(tag: NodeTag) -> Node {
    Node { type_: tag, expression_walkable: true, raw_walkable: true, children: Vec::new() }
}

fn list(children: Vec<Option<Node>>) -> Node {
    Node { type_: T_LIST, expression_walkable: true, raw_walkable: true, children }
}

struct CountingVisitor {
    count: usize,
}

impl TreeVisitor for CountingVisitor {
    fn visit(&mut self, _node: &Node) -> Walk {
        self.count += 1;
        Walk::Continue
    }
}

struct StoppingVisitor {
    count: usize,
}

impl TreeVisitor for StoppingVisitor {
    fn visit(&mut self, _node: &Node) -> Walk {
        self.count += 1;
        Walk::Stop
    }
}

/// Stops at the first node carrying `target`, recording the tags it saw.
struct SearchingVisitor {
    target: NodeTag,
    seen: Vec<NodeTag>,
}

impl TreeVisitor for SearchingVisitor {
    fn visit(&mut self, node: &Node) -> Walk {
        self.seen.push(node.type_);
        if node.type_ == self.target {
            Walk::Stop
        } else {
            Walk::Continue
        }
    }
}

struct PlanStateCountingVisitor {
    count: usize,
}

impl PlanStateVisitor for PlanStateCountingVisitor {
    fn visit(&mut self, _planstate: &PlanState) -> Walk {
        self.count += 1;
        Walk::Continue
    }
}

/// Stops at the first result plan state, recording the tags it saw.
struct StopAtResult {
    seen: Vec<NodeTag>,
}

impl PlanStateVisitor for StopAtResult {
    fn visit(&mut self, planstate: &PlanState) -> Walk {
        self.seen.push(planstate.type_);
        if planstate.type_ == T_RESULT_STATE { Walk::Stop } else { Walk::Continue }
    }
}

#[test]
fn test_walk_expression_tree() {
    let node = list(vec![Some(leaf(T_VAR)), Some(leaf(T_VAR))]);
    let mut visitor = CountingVisitor { count: 0 };
    let result = walk_expression_tree(&node, &mut visitor);
    assert_eq!(visitor.count, 2);
    assert_eq!(result, Walk::Continue);
}

#[test]
fn test_walk_raw_expression_tree() {
    let node = list(vec![Some(leaf(T_VAR)), Some(leaf(T_VAR))]);
    let mut visitor = CountingVisitor { count: 0 };
    let result = walk_raw_expression_tree(&node, &mut visitor);
    assert_eq!(visitor.count, 2);
    assert_eq!(result, Walk::Continue);
}

#[test]
fn test_walk_query_tree() {
    let target_list = list(vec![Some(leaf(T_VAR))]);
    let query = Query {
        fields: vec![
            QueryField { part: QueryPart::Clause, node: Some(target_list) },
            QueryField { part: QueryPart::Clause, node: None },
        ],
    };
    let mut visitor = CountingVisitor { count: 0 };
    let result = walk_query_tree(&query, &mut visitor, WalkQueryTree::default());
    assert!(visitor.count > 0);
    assert_eq!(visitor.count, 1);
    assert_eq!(result, Walk::Continue);
}

#[test]
fn test_walk_planstate_tree() {
    let child1 = PlanState { type_: T_PROJECT_SET_STATE, children: Vec::new() };
    let child2 = PlanState { type_: T_PROJECT_SET_STATE, children: Vec::new() };
    let parent = PlanState { type_: T_RESULT_STATE, children: vec![Some(child1), Some(child2)] };
    let mut visitor = PlanStateCountingVisitor { count: 0 };
    let result = walk_planstate_tree(&parent, &mut visitor);
    assert_eq!(visitor.count, 2);
    assert_eq!(result, Walk::Continue);
}

#[test]
fn test_walk_expression_tree_early_stop() {
    let node = list(vec![Some(leaf(T_VAR)), Some(leaf(T_VAR))]);
    let mut visitor = StoppingVisitor { count: 0 };
    let result = walk_expression_tree(&node, &mut visitor);
    assert_eq!(visitor.count, 1);
    assert!(matches!(result, Walk::Stop));
}

#[test]
fn test_walk_expression_tree_null_handling() {
    let node = list(vec![None, Some(leaf(T_VAR))]);
    let mut visitor = CountingVisitor { count: 0 };
    let result = walk_expression_tree(&node, &mut visitor);
    assert_eq!(visitor.count, 1);
    assert!(matches!(result, Walk::Continue));
}

#[test]
fn walk_over_no_children_visits_nothing() {
    let node = list(vec![None, None]);
    let mut visitor = StoppingVisitor { count: 0 };
    assert_eq!(walk_expression_tree(&node, &mut visitor), Walk::Continue);
    assert_eq!(walk_raw_expression_tree(&leaf(T_VAR), &mut visitor), Walk::Continue);
    assert_eq!(visitor.count, 0);
}

#[test]
fn walk_visits_only_immediate_children() {
    let inner = list(vec![Some(leaf(T_VAR)), Some(leaf(T_VAR))]);
    let node = list(vec![Some(inner), Some(leaf(T_VAR))]);
    let mut visitor = CountingVisitor { count: 0 };
    walk_expression_tree(&node, &mut visitor);
    assert_eq!(visitor.count, 2);
}

#[test]
fn walk_stops_at_first_match_in_order() {
    let node = list(vec![
        Some(leaf(T_VAR)),
        None,
        Some(leaf(T_LIST)),
        Some(leaf(T_VAR)),
    ]);
    let mut visitor = SearchingVisitor { target: T_LIST, seen: Vec::new() };
    let result = walk_expression_tree(&node, &mut visitor);
    assert_eq!(result, Walk::Stop);
    assert_eq!(visitor.seen, vec![T_VAR, T_LIST]);
}

#[test]
fn planstate_walk_stops_and_skips_nulls() {
    let parent = PlanState {
        type_: T_RESULT_STATE,
        children: vec![
            None,
            Some(PlanState { type_: T_PROJECT_SET_STATE, children: Vec::new() }),
            Some(PlanState { type_: T_RESULT_STATE, children: Vec::new() }),
            Some(PlanState { type_: T_PROJECT_SET_STATE, children: Vec::new() }),
        ],
    };
    let mut visitor = StopAtResult { seen: Vec::new() };
    assert_eq!(walk_planstate_tree(&parent, &mut visitor), Walk::Stop);
    assert_eq!(visitor.seen, vec![T_PROJECT_SET_STATE, T_RESULT_STATE]);
}

#[test]
fn query_walk_honours_flags() {
    let field = |part: QueryPart| QueryField { part, node: Some(leaf(T_VAR)) };
    let query = Query {
        fields: vec![
            field(QueryPart::Clause),
            field(QueryPart::SortGroupList),
            field(QueryPart::WindowOffset),
            field(QueryPart::CteList),
            field(QueryPart::RangeEntryBefore),
            field(QueryPart::RangeSubquery),
            field(QueryPart::RangeJoinAliases),
            field(QueryPart::RangeContent),
            field(QueryPart::RangeEntryAfter),
            field(QueryPart::RangeGroupExprs),
        ],
    };
    let count = |flags: WalkQueryTree| {
        let mut visitor = CountingVisitor { count: 0 };
        assert_eq!(walk_query_tree(&query, &mut visitor, flags), Walk::Continue);
        visitor.count
    };
    // Clause, WindowOffset, CteList, RangeSubquery, RangeJoinAliases,
    // RangeContent, RangeGroupExprs.
    assert_eq!(count(WalkQueryTree::empty()), 7);
    // Clause, WindowOffset, CteList.
    assert_eq!(count(WalkQueryTree::IGNORE_RANGE_TABLE()), 3);
    // Clause, SortGroupList, CteList, RangeSubquery, RangeJoinAliases,
    // RangeContent, RangeGroupExprs.
    assert_eq!(count(WalkQueryTree::EXAMINE_SORT_GROUP()), 7);
    // Clause, WindowOffset, RangeJoinAliases, RangeContent, RangeGroupExprs.
    assert_eq!(
        count(WalkQueryTree::IGNORE_CTE_SUBQUERIES().union(WalkQueryTree::IGNORE_RTABLE_SUBQUERIES())),
        5
    );
    // both range entry examinations on: 7 + 2.
    assert_eq!(
        count(WalkQueryTree::EXAMINE_RTES_BEFORE().union(WalkQueryTree::EXAMINE_RTES_AFTER())),
        9
    );
    // Clause, WindowOffset, CteList, RangeSubquery, RangeContent, RangeGroupExprs.
    assert_eq!(count(WalkQueryTree::IGNORE_JOIN_ALIASES()), 6);
    // Clause, WindowOffset, CteList, RangeSubquery, RangeJoinAliases, RangeContent.
    assert_eq!(count(WalkQueryTree::IGNORE_GROUP_EXPRS()), 6);
    assert_eq!(count(WalkQueryTree::DONT_COPY_QUERY()), 7);
}

#[test]
fn query_walk_stops_in_presented_part_only() {
    let query = Query {
        fields: vec![
            QueryField { part: QueryPart::RangeContent, node: Some(leaf(T_LIST)) },
            QueryField { part: QueryPart::Clause, node: Some(leaf(T_VAR)) },
        ],
    };
    let mut visitor = SearchingVisitor { target: T_LIST, seen: Vec::new() };
    let result = walk_query_tree(&query, &mut visitor, WalkQueryTree::IGNORE_RANGE_TABLE());
    assert_eq!(result, Walk::Continue);
    assert_eq!(visitor.seen, vec![T_VAR]);
    let mut visitor = SearchingVisitor { target: T_LIST, seen: Vec::new() };
    let result = walk_query_tree(&query, &mut visitor, WalkQueryTree::empty());
    assert_eq!(result, Walk::Stop);
    assert_eq!(visitor.seen, vec![T_LIST]);
}

#[test]
fn callbacks_follow_walker_convention() {
    let mut visitor = StoppingVisitor { count: 0 };
    assert!(!tree_walker_callback(None, &mut visitor));
    assert_eq!(visitor.count, 0);
    assert!(tree_walker_callback(Some(&leaf(T_VAR)), &mut visitor));
    assert_eq!(visitor.count, 1);
    let mut counting = CountingVisitor { count: 0 };
    assert!(!tree_walker_callback(Some(&leaf(T_VAR)), &mut counting));
    assert_eq!(counting.count, 1);

    let mut pvisitor = PlanStateCountingVisitor { count: 0 };
    assert!(!planstate_walker_callback(None, &mut pvisitor));
    assert_eq!(pvisitor.count, 0);
    let p = PlanState { type_: T_RESULT_STATE, children: Vec::new() };
    assert!(!planstate_walker_callback(Some(&p), &mut pvisitor));
    assert_eq!(pvisitor.count, 1);
}

#[test]
fn walk_and_done_flag_convert() {
    assert_eq!(Walk::from_done(true), Walk::Stop);
    assert_eq!(Walk::from_done(false), Walk::Continue);
    assert!(Walk::Stop.aborts_walk());
    assert!(!Walk::Continue.aborts_walk());
    for w in [Walk::Continue, Walk::Stop] {
        assert_eq!(Walk::from_done(w.aborts_walk()), w);
    }
    for done in [false, true] {
        assert_eq!(Walk::from_done(done).aborts_walk(), done);
    }
}

#[test]
fn replay_walk_outcomes() {
    assert_eq!(replay_walk(&[]), (Continue, 0));
    assert_eq!(replay_walk(&[None, None]), (Continue, 0));
    assert_eq!(replay_walk(&[Some(Continue), None, Some(Continue)]), (Continue, 2));
    assert_eq!(replay_walk(&[None, Some(Continue), Some(Stop), Some(Continue)]), (Stop, 2));
    assert_eq!(replay_walk(&[Some(Stop), Some(Stop)]), (Stop, 1));
    // a null anywhere changes nothing
    assert_eq!(replay_walk(&[Some(Continue), Some(Stop)]), replay_walk(&[Some(Continue), None, Some(Stop)]));
    // walking one run after another
    let first = [Some(Continue), None];
    let second = [Some(Continue), Some(Stop)];
    let both = [Some(Continue), None, Some(Continue), Some(Stop)];
    let (w1, v1) = replay_walk(&first);
    let (w2, v2) = replay_walk(&second);
    assert_eq!(w1, Continue);
    assert_eq!(replay_walk(&both), (w2, v1 + v2));
}

#[test]
fn is_a_checks_presence_and_tag() {
    let var = leaf(T_VAR);
    assert!(is_a(Some(&var), T_VAR));
    assert!(!is_a(Some(&var), T_LIST));
    assert!(!is_a(None, T_VAR));
}

#[test]
fn node_to_string_reads_rendered_text() {
    assert_eq!(node_to_string(None), None);
    let rendered = b"{VAR :varno 1 :varattno 2}";
    assert_eq!(node_to_string(Some(&rendered[..])), Some("{VAR :varno 1 :varattno 2}"));
    let utf8 = "{CONST :constvalue \u{e9}}".as_bytes();
    assert_eq!(node_to_string(Some(utf8)), Some("{CONST :constvalue \u{e9}}"));
    assert_eq!(node_to_string(Some(&b""[..])), Some(""));
}

#[test]
fn walk_query_tree_flag_bits() {
    assert_eq!(WalkQueryTree::default().bits(), 0);
    assert_eq!(WalkQueryTree::IGNORE_RTABLE_SUBQUERIES().bits(), 0x01);
    assert_eq!(WalkQueryTree::IGNORE_CTE_SUBQUERIES().bits(), 0x02);
    assert_eq!(WalkQueryTree::IGNORE_JOIN_ALIASES().bits(), 0x04);
    assert_eq!(WalkQueryTree::IGNORE_RANGE_TABLE().bits(), 0x08);
    assert_eq!(WalkQueryTree::EXAMINE_RTES_BEFORE().bits(), 0x10);
    assert_eq!(WalkQueryTree::EXAMINE_RTES_AFTER().bits(), 0x20);
    assert_eq!(WalkQueryTree::DONT_COPY_QUERY().bits(), 0x40);
    assert_eq!(WalkQueryTree::EXAMINE_SORT_GROUP().bits(), 0x80);
    assert_eq!(WalkQueryTree::IGNORE_GROUP_EXPRS().bits(), 0x100);
    assert_eq!(WalkQueryTree::all().bits(), 0x1FF);
    assert!(WalkQueryTree::all().is_all());
    assert!(WalkQueryTree::empty().is_empty());

    let mut f = WalkQueryTree::IGNORE_RANGE_TABLE();
    f.insert(WalkQueryTree::EXAMINE_SORT_GROUP());
    assert_eq!(f.bits(), 0x88);
    assert!(f.contains(WalkQueryTree::EXAMINE_SORT_GROUP()));
    assert!(!f.contains(WalkQueryTree::all()));
    assert!(f.intersects(WalkQueryTree::all()));
    f.remove(WalkQueryTree::IGNORE_RANGE_TABLE());
    assert_eq!(f, WalkQueryTree::EXAMINE_SORT_GROUP());
    assert_eq!(WalkQueryTree::all().difference(f).bits(), 0x17F);
    assert_eq!(WalkQueryTree::all().intersection(f).bits(), 0x80);

    assert_eq!(WalkQueryTree::from_bits(0x81).map(|f| f.bits()), Some(0x81));
    assert_eq!(WalkQueryTree::from_bits(0x100).map(|f| f.bits()), Some(0x100));
    assert!(WalkQueryTree::from_bits(0x200).is_none());
    assert_eq!(WalkQueryTree::from_bits_truncate(0x281).bits(), 0x81);
    assert_eq!(WalkQueryTree::from_bits_retain(0x281).bits(), 0x281);
    assert!(WalkQueryTree::all().presents(QueryPart::SortGroupList));
    assert!(!WalkQueryTree::all().presents(QueryPart::RangeContent));
    assert!(WalkQueryTree::empty().presents(QueryPart::RangeContent));
}

#[test]
fn walk_query_tree_flag_operations() {
    let a = WalkQueryTree::IGNORE_RANGE_TABLE() | WalkQueryTree::EXAMINE_SORT_GROUP();
    assert_eq!(a.bits(), 0x88);
    assert_eq!((a & WalkQueryTree::EXAMINE_SORT_GROUP()).bits(), 0x80);
    assert_eq!((a ^ WalkQueryTree::all()).bits(), 0x177);
    assert_eq!((a - WalkQueryTree::IGNORE_RANGE_TABLE()).bits(), 0x80);
    assert_eq!((!a).bits(), 0x177);
    assert_eq!(a.complement().bits(), 0x177);
    assert_eq!(a.symmetric_difference(WalkQueryTree::IGNORE_RANGE_TABLE()).bits(), 0x80);

    let mut f = WalkQueryTree::empty();
    f.toggle(WalkQueryTree::DONT_COPY_QUERY());
    assert_eq!(f.bits(), 0x40);
    f.toggle(WalkQueryTree::DONT_COPY_QUERY());
    assert_eq!(f.bits(), 0);
    f.set(WalkQueryTree::IGNORE_GROUP_EXPRS(), true);
    assert_eq!(f.bits(), 0x100);
    f.set(WalkQueryTree::IGNORE_GROUP_EXPRS(), false);
    assert!(f.is_empty());
    assert!(!WalkQueryTree::IGNORE_GROUP_EXPRS().presents(QueryPart::RangeGroupExprs));
    assert!(!WalkQueryTree::IGNORE_RANGE_TABLE().presents(QueryPart::RangeGroupExprs));
    assert!(WalkQueryTree::empty().presents(QueryPart::RangeGroupExprs));
}

#[test]
fn query_walk_same_without_range_table() {
    let clause = |tag: NodeTag| QueryField { part: QueryPart::Clause, node: Some(leaf(tag)) };
    let with_rtable = Query {
        fields: vec![
            clause(T_VAR),
            QueryField { part: QueryPart::RangeContent, node: Some(leaf(T_LIST)) },
            QueryField { part: QueryPart::RangeSubquery, node: Some(leaf(T_LIST)) },
            clause(T_LIST),
        ],
    };
    let without = Query { fields: vec![clause(T_VAR), clause(T_LIST)] };
    let flags = WalkQueryTree::IGNORE_RANGE_TABLE();
    let mut v1 = SearchingVisitor { target: T_LIST, seen: Vec::new() };
    let mut v2 = SearchingVisitor { target: T_LIST, seen: Vec::new() };
    assert_eq!(walk_query_tree(&with_rtable, &mut v1, flags), walk_query_tree(&without, &mut v2, flags));
    assert_eq!(v1.seen, v2.seen);
    assert_eq!(v1.seen, vec![T_VAR, T_LIST]);
}

#[test]
fn walks_agree_up_to_nulls() {
    let sparse = list(vec![None, Some(leaf(T_VAR)), None, None, Some(leaf(T_LIST)), None]);
    let dense = list(vec![Some(leaf(T_VAR)), Some(leaf(T_LIST))]);
    let mut v1 = SearchingVisitor { target: T_LIST, seen: Vec::new() };
    let mut v2 = SearchingVisitor { target: T_LIST, seen: Vec::new() };
    assert_eq!(walk_expression_tree(&sparse, &mut v1), walk_expression_tree(&dense, &mut v2));
    assert_eq!(v1.seen, v2.seen);
    let mut v3 = SearchingVisitor { target: T_LIST, seen: Vec::new() };
    let mut v4 = SearchingVisitor { target: T_LIST, seen: Vec::new() };
    assert_eq!(walk_raw_expression_tree(&sparse, &mut v3), walk_raw_expression_tree(&dense, &mut v4));
    assert_eq!(v3.seen, v4.seen);
}
