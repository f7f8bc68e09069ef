//! Incremental mirror of a remote project catalog.
//!
//! The crate walks a cursor-paginated listing of projects to completion and
//! reconciles the result into a local table image idempotently.  The
//! surrounding application performs the HTTP requests and keeps the durable
//! SQLite copy of the table; everything that decides — query construction,
//! cursor extraction, accumulation, upsert semantics — lives here, verified.

pub mod client;
pub mod db;
pub mod error;
pub mod numbers;
pub mod pagination;
pub mod project;
