//! A verified reader for a single-file paged database in the SQLite 3
//! on-disk format.
//!
//! The crate decodes the binary layout — page access, b-tree page headers,
//! variable-length integers, per-page-kind cells, and typed records — and
//! answers simple single-table read queries through a thin catalog and a
//! minimal `CREATE TABLE` / `SELECT` parser. File I/O is left to callers:
//! every function here works on bytes already in memory.
#![verifier::loop_isolation(false)]

pub mod bytes;
pub mod cells;
pub mod error;
pub mod pages;
pub mod query;
pub mod record;
pub mod schema;
pub mod sql;
pub mod text;
pub mod varint;
