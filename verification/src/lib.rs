//! A single-user task list that replicates across machines by riding on a
//! version-control backend. The library covers the replication and
//! conflict-resolution subsystem: the line-oriented record store, the merge
//! policy that reconciles two record lists, the conflict-marker resolver,
//! and the decision logic of the fetch/merge/push cycle.

pub mod argument;
pub mod codec;
pub mod commands;
pub mod config;
pub mod conflict;
pub mod errors;
pub mod merge;
pub mod parser;
pub mod priority;
pub mod sort_order;
pub mod sync;
pub mod text;
pub mod todo;
pub mod todo_list;
