//! Core of a Postgres execution-plan viewer: builds the dialect-specific
//! EXPLAIN statement ladder, normalizes query output, and keeps a bounded,
//! encrypted, dedup-by-id local history of plan captures.

pub mod db;
pub mod json;
pub mod text;
pub mod vault;
