//! Helpers for walking Postgres query-tree, expression-tree and plan-state
//! nodes: the walker's callback protocol, the visitor callbacks and the
//! walks over a node's sub-nodes, all verified.
//!
//! - [`walk`]: the visitor's answer [`walk::Walk`], the walker's `true`-aborts
//!   convention, and the outcome of a walk as a function of the visitor's
//!   answers.
//! - [`laws`]: what every walk obeys, stated over that outcome.
//! - [`tree`]: nodes and plan states, and the tag test [`tree::is_a`].
//! - [`query`]: queries and the flags of a query-tree walk.
//! - [`visitor`]: the visitor traits and what a run of a walk is.
//! - [`nodes`]: the callbacks and the walks.
//! - [`text`]: the textual representation of a node.
//!
//! The Postgres calls themselves (`nodeToString` and the C walkers that call
//! the callbacks) are not here: they go through raw pointers into the
//! `pg_sys` bindings, which need a PostgreSQL build; nodes here carry, as
//! plain values, what those walkers hand over.

pub mod laws;
pub mod nodes;
pub mod query;
pub mod text;
pub mod tree;
pub mod visitor;
pub mod walk;
