# pgrx_nodes

Walking Postgres node trees with a visitor, verified with Verus.

A Postgres tree walker hands the sub-nodes of a node to a callback one at a
time; the callback answers `true` to abort the walk. This crate holds the
part of that protocol that sits on the Rust side:

- `walk`: the visitor's answer `Walk`, its conversion to and from the
  walker's `true`-aborts flag, and `walk_outcome`, the answer and number of
  visits of a walk as a function of the visitor's answers (`replay_walk`
  computes it).
- `laws`: proof functions on `walk_outcome` (nulls are skipped, the first
  `Stop` ends the walk, runs compose, the flag conversion round-trips); that
  every run of a walk leaves a trace of visit answers whose `walk_outcome`
  is the walk's answer and number of visits; that null children do not
  change a walk; and that a query walk with `IGNORE_RANGE_TABLE` does not
  depend on the range table.
- `tree`: nodes and plan states, each with the sub-nodes a walker hands
  over for it, and `is_a`.
- `query`: queries as the sequence of their walkable fields, each tagged
  with the part it comes from, and the `WalkQueryTree` flags that decide
  which parts a query walk hands over.
- `visitor`: the `TreeVisitor` and `PlanStateVisitor` traits (each with a
  spec function `visit_ends` that describes how a visit can end, `true` by
  default), and what a run and a trace of a walk are.
- `nodes`: the callbacks and the walks `walk_expression_tree`, `walk_raw_expression_tree`,
  `walk_query_tree` and `walk_planstate_tree`.
- `text`: `node_to_string`, the text of a rendered node.

The calls into Postgres itself (`nodeToString` and the C tree walkers that
call the callbacks) are not part of this crate: they go through the
`pg_sys` bindings, which need a PostgreSQL build, and through raw pointers.
Nodes here carry, as plain values, what those walkers hand over.
