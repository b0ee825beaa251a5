//! An in-memory, prefix-scoped, typed key-value store ("blockfile").
//!
//! A store instance begins as a mutable builder, accumulates `(prefix, key,
//! value)` entries through a writer handle, and is frozen into an immutable
//! container at commit.  A reader handle, statically typed to one key type and
//! one value type, is then opened against the committed instance by its
//! identifier and serves exact lookups, prefix enumeration, and the four
//! one-bound range queries.

pub mod error;
pub mod keys;
pub mod values;
pub mod bitmap;
pub mod storage;
pub mod manager;
pub mod reader_writer;
pub mod laws;
