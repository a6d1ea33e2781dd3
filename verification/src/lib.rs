//! Verified core of a unitypackage-style asset-archive extractor.
//!
//! An archive is a sequence of named entries. Consecutive entries sharing a
//! path prefix form one logical asset record (data, metadata, logical path,
//! optional preview). This crate holds the verified logic: the assembler that
//! groups entries into records, the resolver that filters and rewrites output
//! paths, the planner that decides which files a record produces, and the
//! slot-pool model that bounds extraction concurrency. The surrounding binary
//! does the actual container decoding and disk writes.

pub mod assembler;
pub mod bytes;
pub mod config;
pub mod model;
pub mod pipeline;
pub mod planner;
pub mod pool;
pub mod resolver;
