//! Verified core of a small object-storage listing tool.
//!
//! The library resolves a `bucket/prefix` path argument, turns listing
//! responses into typed rows, and renders those rows as an aligned plain-text
//! table. Network and terminal I/O live outside the library; every function
//! here is pure and carries a contract.

pub mod listing;
pub mod path;
pub mod rows;
pub mod table;
