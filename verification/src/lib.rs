//! A concurrent refreshable lookup cache for (primary, secondary) identifier
//! pairs. A rule set is rebuilt in full from a line-oriented feed and
//! published as an immutable snapshot; lookups resolve against exactly one
//! snapshot generation and never block on a reload.

pub mod cache;
pub mod feed;
pub mod index;
pub mod keys;
pub mod laws;
pub mod loader;
pub mod outcome;
pub mod snapshot;
