//! The state-provider constructor: whether a query at a block sees the
//! latest plain state or a historical changeset overlay.
//!
//! The changeset at height `k` stores the values overwritten *after* block
//! `k - 1`, so the snapshot after block `n` replays changesets keyed at
//! `n + 1` and above: the `+ 1` lives here, centralized, and nowhere else.

use vstd::prelude::*;
use crate::primitives::{B256, ProviderError};
use crate::provider::{
    best_block_number, is_latest_block_number, last_canonical_header, read_block_number,
    spec_block_number, spec_is_latest, ShareableDatabase,
};
use crate::store::Database;
use crate::table::{tbl_contains_key, tbl_index_of_key};

verus! {

/// A state view over the store: the latest plain state, or a historical
/// overlay that replays changesets from the recorded key upward.
#[derive(Clone, Copy, Debug, PartialEq, Eq, Structural)]
pub enum StateProvider {
    Latest,
    Historical { lowest_changeset_block: u64 },
}

/// The view owed for a query at `block_number`: the latest state exactly
/// when the stage checkpoint and the canonical tip agree on the number, and
/// otherwise the overlay starting one changeset above the block.
pub open spec fn spec_history_by_block_number(db: Database, block_number: u64) -> StateProvider {
    if spec_is_latest(db, block_number) {
        StateProvider::Latest
    } else {
        StateProvider::Historical { lowest_changeset_block: (block_number + 1) as u64 }
    }
}

impl ShareableDatabase {
    /// Storage provider for the latest block.
    pub fn latest(&self) -> (r: Result<StateProvider, ProviderError>)
        ensures
            r == Ok::<StateProvider, ProviderError>(StateProvider::Latest),
    {
        Ok(StateProvider::Latest)
    }

    /// Storage provider for the state at the given block. The number must
    /// leave room for the changeset key above it.
    pub fn history_by_block_number(&self, block_number: u64) -> (r: Result<
        StateProvider,
        ProviderError,
    >)
        requires
            self.wf(),
            block_number < u64::MAX,
        ensures
            r == Ok::<StateProvider, ProviderError>(
                spec_history_by_block_number(self.db, block_number),
            ),
    {
        if is_latest_block_number(&self.db, block_number) {
            return Ok(StateProvider::Latest);
        }
        // +1: the changeset that completes this snapshot is the one applied
        // after this block, as changesets hold the old values.
        Ok(StateProvider::Historical { lowest_changeset_block: block_number + 1 })
    }

    /// Storage provider for the state at the given block hash; an unknown
    /// hash is a hard error.
    pub fn history_by_block_hash(&self, block_hash: B256) -> (r: Result<
        StateProvider,
        ProviderError,
    >)
        requires
            self.wf(),
        ensures
            r == match spec_block_number(self.db, block_hash) {
                None => Err::<StateProvider, ProviderError>(
                    ProviderError::BlockHashNotFound(block_hash),
                ),
                Some(number) => Ok::<StateProvider, ProviderError>(
                    spec_history_by_block_number(self.db, number),
                ),
            },
    {
        let block_number = match read_block_number(&self.db, block_hash) {
            Some(number) => number,
            None => {
                return Err(ProviderError::BlockHashNotFound(block_hash));
            },
        };
        proof {
            // The store keeps every recorded block number below u64::MAX, so
            // the changeset key above this block exists.
            assert(tbl_contains_key(self.db.header_numbers_tbl(), block_hash));
            let j = tbl_index_of_key(self.db.header_numbers_tbl(), block_hash);
            assert(self.db.header_numbers_tbl()[j].1 < u64::MAX);
            crate::table::lemma_tbl_get_index(self.db.header_numbers_tbl(), j, block_hash);
        }
        if is_latest_block_number(&self.db, block_number) {
            return Ok(StateProvider::Latest);
        }
        // +1: as above, the changeset above this block completes it.
        Ok(StateProvider::Historical { lowest_changeset_block: block_number + 1 })
    }
}

} // verus!
