//! Early partition pruning by data ranges.
//!
//! A `table_range` index keeps, for each leaf partition, a summary of every indexed column's actual
//! data: minimum and maximum, or a covering extent for range types and geometry, and two flags on
//! nulls. At planning time a partition whose summary cannot match the query is dropped, also where
//! the column is not the partition key.
//!
//! This crate is the logic of that: the stored form of a summary ([`index_storage`]), how one is
//! built ([`summary_build`]) and widened ([`index_am`]), which clauses prove from it that nothing
//! matches ([`prune_hook`], [`decision`]), and what is remembered for how long ([`plan_state`],
//! [`summary_cache`]). It calls no server: where a decision needs to know something, it asks a
//! question ([`backend`]). [`soundness`] and [`maintenance`] prove that pruning never loses a row,
//! [`precision`] says what exactly is done, and [`scenarios`] are scripts to try it on a live
//! server.

pub mod backend;
pub mod decision;
pub mod index_am;
pub mod index_storage;
pub mod maintenance;
pub mod plan_state;
pub mod precision;
pub mod prune_hook;
pub mod scenarios;
pub mod soundness;
pub mod summary_build;
pub mod summary_cache;
pub mod text;
