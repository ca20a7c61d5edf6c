//! Results of a lookup, and their mathematical models. A lookup ends in one
//! of three ways: the pair is blocked with an associated value, the pair is
//! not blocked, or the snapshot is internally inconsistent (both identifiers
//! resolve to indices, yet the value map has no entry for their combination).
//! The inconsistent case carries structured data, not a rendered message, so
//! callers can program against it.

use vstd::prelude::*;

verus! {

/// Structured description of an anomalous lookup: both identifiers resolved
/// to valid indices in one snapshot, but the value map holds no entry under
/// their combined key. This signals a defect in snapshot construction or
/// publication and is never coerced into an ordinary miss.
#[derive(Debug, Clone, PartialEq, Eq)]
pub struct AnomalyDetail {
    /// The primary identifier that resolved.
    pub primary: String,
    /// The index the primary identifier resolved to.
    pub primary_index: u64,
    /// The secondary identifier that resolved.
    pub secondary: String,
    /// The index the secondary identifier resolved to.
    pub secondary_index: u64,
    /// The combined composite key that was absent from the value map.
    pub key: u64,
}

/// What a lookup returns.
#[derive(Debug, Clone, PartialEq, Eq)]
pub enum LookupResult {
    /// The pair is blocked; carries the rule's associated value.
    Found(String),
    /// The pair is not blocked. An ordinary result, not an error.
    NotFound,
    /// The snapshot is internally inconsistent for this pair.
    Anomaly(AnomalyDetail),
}

/// Model of an anomaly: the identifiers as character sequences together
/// with the indices they resolved to and the missing key.
pub struct AnomalyModel {
    pub primary: Seq<char>,
    pub primary_index: u64,
    pub secondary: Seq<char>,
    pub secondary_index: u64,
    pub key: u64,
}

/// Model of a lookup result.
pub enum Outcome {
    Found(Seq<char>),
    NotFound,
    Anomaly(AnomalyModel),
}

impl View for AnomalyDetail {
    type V = AnomalyModel;

    open spec fn view(&self) -> AnomalyModel {
        AnomalyModel {
            primary: self.primary@,
            primary_index: self.primary_index,
            secondary: self.secondary@,
            secondary_index: self.secondary_index,
            key: self.key,
        }
    }
}

impl View for LookupResult {
    type V = Outcome;

    open spec fn view(&self) -> Outcome {
        match self {
            LookupResult::Found(v) => Outcome::Found(v@),
            LookupResult::NotFound => Outcome::NotFound,
            LookupResult::Anomaly(d) => Outcome::Anomaly(d@),
        }
    }
}

} // verus!
