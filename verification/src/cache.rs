//! The cache: one swappable reference cell holding the current snapshot.
//! The read path loads the cell once and resolves entirely against that one
//! immutable snapshot; the write path builds a brand-new snapshot off the
//! read path and publishes it as a single atomic pointer replacement. A
//! lookup concurrent with a refresh therefore sees either the fully old or
//! the fully new snapshot, never a mixture.

use vstd::prelude::*;
use std::sync::Arc;
use crate::loader::build_from_lines;
use crate::outcome::LookupResult;
use crate::snapshot::{block_response, outcome_of, CacheData, CacheModel};

verus! {

/// One swappable reference cell over a snapshot, an `arc_swap::ArcSwap`.
/// The cell's default strategy type is not public outside arc-swap, so the
/// cell cannot be declared to the verifier and is held opaquely instead.
#[verifier::external_body]
struct SnapshotCell {
    cell: arc_swap::ArcSwap<CacheData>,
}

/// Relies on arc-swap's `ArcSwap::from_pointee`: makes a cell that holds the
/// given value.
#[verifier::external_body]
fn swap_cell_new(data: CacheData) -> (cell: SnapshotCell) {
    SnapshotCell { cell: arc_swap::ArcSwap::from_pointee(data) }
}

/// Relies on arc-swap's `ArcSwap::load_full`: returns the snapshot the cell
/// holds at some single instant. Which snapshot that is depends on
/// concurrent stores, so nothing more is promised of it.
#[verifier::external_body]
fn swap_cell_load(cell: &SnapshotCell) -> (snap: Arc<CacheData>) {
    cell.cell.load_full()
}

/// Relies on arc-swap's `ArcSwap::store`: replaces the cell's snapshot as
/// one atomic step; later loads yield the new snapshot.
#[verifier::external_body]
fn swap_cell_store(cell: &SnapshotCell, data: CacheData) {
    cell.cell.store(Arc::new(data));
}

/// The concurrent refreshable lookup cache: a swappable reference to the
/// current snapshot, read by `lookup` and replaced wholesale by a refresh.
pub struct BlockCache {
    cell: SnapshotCell,
}

impl BlockCache {
    /// A cache that starts from the empty snapshot, so lookups can be
    /// served before the first load completes.
    pub fn new() -> BlockCache {
        BlockCache { cell: swap_cell_new(CacheData::empty()) }
    }

    /// The snapshot the cache holds at some single instant, to be read as
    /// one immutable generation. It stays valid for its holder even after a
    /// newer snapshot has been published.
    pub fn snapshot(&self) -> Arc<CacheData> {
        swap_cell_load(&self.cell)
    }

    /// Builds a brand-new snapshot from the feed's lines, off the read
    /// path, and publishes it as one atomic replacement. Reading the feed
    /// is the caller's concern: on a read failure this is simply not
    /// called, and the previous snapshot stays authoritative.
    pub fn refresh_from_lines(&self, lines: &Vec<String>) {
        let data = build_from_lines(lines);
        swap_cell_store(&self.cell, data);
    }

    /// Resolves one (primary, secondary) pair against the snapshot current
    /// at the moment the call starts: the result is the tiered resolution
    /// against exactly one snapshot generation, never a mixture of two.
    pub fn lookup(&self, primary: &str, secondary: &str) -> (r: LookupResult)
        ensures
            exists|m: CacheModel| r@ == #[trigger] outcome_of(m, primary@, secondary@),
    {
        let snap = self.snapshot();
        let r = snap.lookup(primary, secondary);
        proof {
            assert(r@ == outcome_of(snap@, primary@, secondary@));
        }
        r
    }

    /// Resolves one pair as `lookup` does, against exactly one snapshot
    /// generation, and renders the outcome as the bare response: the rule's
    /// value on a hit, the sentinel "0" on an ordinary miss, and the
    /// structured anomaly report as the error.
    pub fn get_block(&self, ip: &str, user_agent: &str) -> (r: Result<
        String,
        crate::outcome::AnomalyDetail,
    >)
        ensures
            exists|m: CacheModel| block_response(
                #[trigger] outcome_of(m, ip@, user_agent@),
                r,
            ),
    {
        let snap = self.snapshot();
        let r = snap.get_block(ip, user_agent);
        proof {
            assert(block_response(outcome_of(snap@, ip@, user_agent@), r));
        }
        r
    }
}

} // verus!
