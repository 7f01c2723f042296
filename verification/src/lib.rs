//! Metadata-discovery and columnar-encoding core for a ClickHouse-backed
//! tabular driver.
//!
//! Given a requested traversal depth and optional name filters, the crate
//! plans the information-schema queries for that depth, groups the returned
//! flat rows into a catalog -> schema -> table -> column forest, and encodes
//! the forest into a single nested columnar record with explicit offset
//! buffers.  A sibling encoder turns a flat sequence of typed info pairs into
//! a type-tagged union record.  Query execution itself is left to the caller:
//! every function here is a pure transformation over plain values.

pub mod assemble;
pub mod database;
pub mod depth;
pub mod driver;
pub mod error;
pub mod info;
pub mod laws;
pub mod objects;
pub mod plan;
pub mod record;
pub mod schemas;
pub mod statement;
