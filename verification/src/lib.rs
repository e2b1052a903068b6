//! Verified core of a commit/change/snapshot extraction pipeline.
//!
//! Commits arrive from an external mining engine as plain records. The
//! library filters them by language and author timestamp, flattens the
//! surviving commits into their file-level changes, deduplicates snapshot
//! content by snapshot id, and accumulates the mapping table that relates
//! each exported snapshot back to its original file location. All reading
//! from the engine and all writing to disk stays outside the library; the
//! functions here decide, for every record, what must be written and what
//! must be recorded.

pub mod export;
pub mod pipeline;
pub mod predicate;
pub mod records;
pub mod select;
pub mod timestamp;
