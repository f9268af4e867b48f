//! Catalog introspection: builds an immutable Database -> Schema ->
//! Relation -> Column tree from rows read out of a relational database's
//! system catalog, under a single read-only session.
//!
//! The catalog round-trips themselves (I/O) live outside this crate; here
//! stands everything that decides: which schemas to visit and in what
//! order, which catalog rows to keep, how to order columns, and how the
//! tree is assembled, expressed as a step machine that a driver feeds with
//! query results.

pub mod builder;
pub mod catalog;
pub mod error;
pub mod model;
pub mod selector;
