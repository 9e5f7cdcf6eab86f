//! The chain provider facade and its low-level index helpers.
//!
//! [`ShareableDatabase`] answers every read query of the node — headers,
//! canonical hashes, blocks, transactions with their metadata, receipts,
//! withdrawals, ommers, chain info and stage checkpoints — by precisely
//! ordered reads over the store's tables. Each public method's contract pins
//! its result to a spec-level composition of table gets, seeks and walks.
//!
//! Callers depend on narrow capability slices of this surface, not on the
//! whole of it: header and chain-info queries live here, the state-view
//! constructor in [`crate::state`], and the EVM environment filler in
//! [`crate::env`], each as its own `impl` block over the one provider.

use vstd::prelude::*;
use crate::chain_spec::ChainSpec;
use crate::primitives::{
    B256, Block, BlockHashOrNumber, BlockSource, ChainInfo, Header, ProviderError, Receipt,
    SealedBlock, SealedHeader, StageCheckpoint, StageId, StoredBlockBodyIndices,
    TransactionMeta, TransactionSigned, U256, Withdrawal,
};
use crate::store::Database;
use crate::table::{
    entry_values, in_key_range, tbl_get, tbl_last, tbl_range, tbl_seek,
    tbl_values,
};

verus! {

/// What `HeaderNumbers` knows of a hash.
pub open spec fn spec_block_number(db: Database, hash: B256) -> Option<u64> {
    tbl_get(db.header_numbers_tbl(), hash)
}

/// A designator resolved to a block number: a number stands for itself, a
/// hash goes through `HeaderNumbers`.
pub open spec fn spec_convert_hash_or_number(db: Database, id: BlockHashOrNumber) -> Option<u64> {
    match id {
        BlockHashOrNumber::Hash(hash) => spec_block_number(db, hash),
        BlockHashOrNumber::Number(number) => Some(number),
    }
}

/// The canonical hash owed at a height; its absence is a hard error.
pub open spec fn spec_read_header_hash(db: Database, number: u64) -> Result<B256, ProviderError> {
    match tbl_get(db.canonical_tbl(), number) {
        Some(hash) => Ok(hash),
        None => Err(ProviderError::HeaderNotFound(BlockHashOrNumber::Number(number))),
    }
}

/// A header joined with its canonical hash; a missing canonical entry makes
/// the header non-canonical and the join empty.
pub open spec fn spec_read_sealed_header(db: Database, number: u64) -> Option<(Header, B256)> {
    match tbl_get(db.canonical_tbl(), number) {
        None => None,
        Some(hash) => match tbl_get(db.headers_tbl(), number) {
            Some(header) => Some((header, hash)),
            None => None,
        },
    }
}

/// The transactions of a block: absent body indices mean an unknown body,
/// and the indices' half-open range slices the `Transactions` table.
pub open spec fn spec_read_transactions_by_number(db: Database, number: u64) -> Option<
    Seq<TransactionSigned>,
> {
    match tbl_get(db.body_indices_tbl(), number) {
        None => None,
        Some(body) => Some(
            tbl_values(
                tbl_range(db.transactions_tbl(), body.first_tx_num as int, body.spec_end_tx_num()),
            ),
        ),
    }
}

/// The receipts of a block, sliced by the same body indices.
pub open spec fn spec_read_receipts_by_number(db: Database, number: u64) -> Option<Seq<Receipt>> {
    match tbl_get(db.body_indices_tbl(), number) {
        None => None,
        Some(body) => Some(
            tbl_values(
                tbl_range(db.receipts_tbl(), body.first_tx_num as int, body.spec_end_tx_num()),
            ),
        ),
    }
}

/// The `Finish` stage's checkpoint: the authoritative best block number.
pub open spec fn spec_best_block_number(db: Database) -> Option<u64> {
    match tbl_get(db.stages_tbl(), StageId::Finish) {
        Some(checkpoint) => Some(checkpoint.block_number),
        None => None,
    }
}

/// The number of the last canonical header, zero on an empty chain.
pub open spec fn spec_last_canonical_number(db: Database) -> u64 {
    match tbl_last(db.canonical_tbl()) {
        Some(e) => e.0,
        None => 0,
    }
}

/// The best block number the facade reports: the `Finish` checkpoint, or
/// zero when the pipeline has never finished.
pub open spec fn spec_best_or_zero(db: Database) -> u64 {
    match spec_best_block_number(db) {
        Some(number) => number,
        None => 0,
    }
}

/// A number is the latest block only when the stage checkpoint and the last
/// canonical header agree on it; mid-sync they may diverge, and then no
/// number is latest.
pub open spec fn spec_is_latest(db: Database, number: u64) -> bool {
    number == spec_best_or_zero(db) && number == spec_last_canonical_number(db)
}

/// The chain tip: best number with its canonical hash, all-zero on an empty
/// database.
pub open spec fn spec_chain_info(db: Database) -> ChainInfo {
    let best_number = spec_best_or_zero(db);
    let best_hash = match tbl_get(db.canonical_tbl(), best_number) {
        Some(hash) => hash,
        None => B256::spec_zero(),
    };
    ChainInfo { best_hash, best_number }
}

/// A common provider that fetches data from a database snapshot, sharing an
/// immutable chain specification.
#[derive(Clone)]
pub struct ShareableDatabase {
    pub db: Database,
    pub chain_spec: ChainSpec,
}

impl ShareableDatabase {
    /// The provider is usable whenever its store is well-formed.
    pub open spec fn wf(self) -> bool {
        self.db.wf()
    }

    /// Creates a new database provider.
    pub fn new(db: Database, chain_spec: ChainSpec) -> (r: ShareableDatabase)
        ensures
            r.db == db,
            r.chain_spec == chain_spec,
    {
        ShareableDatabase { db, chain_spec }
    }

    /// The header of a known hash, canonical or not.
    pub fn header(&self, block_hash: &B256) -> (r: Result<Option<Header>, ProviderError>)
        requires
            self.wf(),
        ensures
            r == Ok::<Option<Header>, ProviderError>(
                match spec_block_number(self.db, *block_hash) {
                    Some(number) => tbl_get(self.db.headers_tbl(), number),
                    None => None,
                },
            ),
    {
        if let Some(number) = self.db.header_number(block_hash) {
            Ok(self.db.header(number))
        } else {
            Ok(None)
        }
    }

    /// The header stored at a block number.
    pub fn header_by_number(&self, num: u64) -> (r: Result<Option<Header>, ProviderError>)
        requires
            self.wf(),
        ensures
            r == Ok::<Option<Header>, ProviderError>(tbl_get(self.db.headers_tbl(), num)),
    {
        Ok(self.db.header(num))
    }

    /// The total difficulty of a known hash.
    pub fn header_td(&self, hash: &B256) -> (r: Result<Option<U256>, ProviderError>)
        requires
            self.wf(),
        ensures
            r == Ok::<Option<U256>, ProviderError>(
                match spec_block_number(self.db, *hash) {
                    Some(number) => tbl_get(self.db.header_td_tbl(), number),
                    None => None,
                },
            ),
    {
        if let Some(number) = self.db.header_number(hash) {
            Ok(self.db.td(number))
        } else {
            Ok(None)
        }
    }

    /// The total difficulty stored at a block number.
    pub fn header_td_by_number(&self, number: u64) -> (r: Result<Option<U256>, ProviderError>)
        requires
            self.wf(),
        ensures
            r == Ok::<Option<U256>, ProviderError>(tbl_get(self.db.header_td_tbl(), number)),
    {
        Ok(self.db.td(number))
    }

    /// The canonical hash at a height.
    pub fn block_hash(&self, number: u64) -> (r: Result<Option<B256>, ProviderError>)
        requires
            self.wf(),
        ensures
            r == Ok::<Option<B256>, ProviderError>(tbl_get(self.db.canonical_tbl(), number)),
    {
        Ok(self.db.canonical_hash(number))
    }

    /// The number a hash is known under.
    pub fn block_number(&self, hash: B256) -> (r: Result<Option<u64>, ProviderError>)
        requires
            self.wf(),
        ensures
            r == Ok::<Option<u64>, ProviderError>(spec_block_number(self.db, hash)),
    {
        Ok(read_block_number(&self.db, hash))
    }

    /// The best block number: the `Finish` stage checkpoint, or zero.
    pub fn best_block_number(&self) -> (r: Result<u64, ProviderError>)
        requires
            self.wf(),
        ensures
            r == Ok::<u64, ProviderError>(spec_best_or_zero(self.db)),
    {
        match best_block_number(&self.db) {
            Some(number) => Ok(number),
            None => Ok(0),
        }
    }

    /// The chain tip. On an empty database this is number zero with the
    /// all-zero hash, and no error.
    pub fn chain_info(&self) -> (r: Result<ChainInfo, ProviderError>)
        requires
            self.wf(),
        ensures
            r == Ok::<ChainInfo, ProviderError>(spec_chain_info(self.db)),
    {
        let best_number = match best_block_number(&self.db) {
            Some(number) => number,
            None => 0,
        };
        let best_hash = match self.db.canonical_hash(best_number) {
            Some(hash) => hash,
            None => B256::zero(),
        };
        Ok(ChainInfo { best_hash, best_number })
    }

    /// The stage checkpoint recorded for `id`.
    pub fn get_stage_checkpoint(&self, id: StageId) -> (r: Result<
        Option<StageCheckpoint>,
        ProviderError,
    >)
        requires
            self.wf(),
        ensures
            r == Ok::<Option<StageCheckpoint>, ProviderError>(
                tbl_get(self.db.stages_tbl(), id),
            ),
    {
        Ok(get_stage_checkpoint(&self.db, id))
    }
}

/// Returns the block number for the given block hash or number.
pub fn convert_hash_or_number(db: &Database, block: BlockHashOrNumber) -> (r: Option<u64>)
    requires
        db.wf(),
    ensures
        r == spec_convert_hash_or_number(*db, block),
{
    match block {
        BlockHashOrNumber::Hash(hash) => read_block_number(db, hash),
        BlockHashOrNumber::Number(number) => Some(number),
    }
}

/// Reads the number for the given block hash.
pub fn read_block_number(db: &Database, hash: B256) -> (r: Option<u64>)
    requires
        db.wf(),
    ensures
        r == spec_block_number(*db, hash),
{
    db.header_number(&hash)
}

/// Reads the canonical hash for the given block number; the caller requires
/// canonicity, so absence is a hard error.
pub fn read_header_hash(db: &Database, number: u64) -> (r: Result<B256, ProviderError>)
    requires
        db.wf(),
    ensures
        r == spec_read_header_hash(*db, number),
{
    match db.canonical_hash(number) {
        Some(hash) => Ok(hash),
        None => Err(ProviderError::HeaderNotFound(BlockHashOrNumber::Number(number))),
    }
}

/// Fetches the corresponding header.
pub fn read_header(db: &Database, block_number: u64) -> (r: Option<Header>)
    requires
        db.wf(),
    ensures
        r == tbl_get(db.headers_tbl(), block_number),
{
    db.header(block_number)
}

/// Fetches a header and its canonical hash; a header without a canonical
/// entry is non-canonical and not sealed.
pub fn read_sealed_header(db: &Database, block_number: u64) -> (r: Option<(Header, B256)>)
    requires
        db.wf(),
    ensures
        r == spec_read_sealed_header(*db, block_number),
{
    let block_hash = match db.canonical_hash(block_number) {
        Some(hash) => hash,
        None => {
            return None;
        },
    };
    match read_header(db, block_number) {
        Some(header) => Some((header, block_hash)),
        None => None,
    }
}

/// Fetches the transactions that belong to the given block number, walking
/// the `Transactions` table over the body's range.
pub fn read_transactions_by_number(db: &Database, block_number: u64) -> (r: Option<
    Vec<TransactionSigned>,
>)
    requires
        db.wf(),
    ensures
        match r {
            Some(v) => spec_read_transactions_by_number(*db, block_number) == Some(v@),
            None => spec_read_transactions_by_number(*db, block_number) is None,
        },
{
    if let Some(body) = db.body_indices(block_number) {
        if body.tx_count() == 0 {
            let r: Vec<TransactionSigned> = Vec::new();
            proof {
                let range = tbl_range(
                    db.transactions_tbl(),
                    body.first_tx_num as int,
                    body.spec_end_tx_num(),
                );
                db.transactions_tbl().lemma_all_neg_filter_empty(
                    in_key_range(body.first_tx_num as int, body.spec_end_tx_num()),
                );
                assert(tbl_values(range) =~= r@);
            }
            return Some(r);
        }
        let ghost gi = crate::table::tbl_index_of_key(db.body_indices_tbl(), block_number);
        proof {
            crate::table::lemma_sorted_implies_uniq(db.body_indices_tbl());
            assert(db.body_indices_tbl()[gi].1 == body);
        }
        let entries = db.transactions_in_range(
            body.first_tx_num(),
            body.first_tx_num() + body.tx_count(),
        );
        let r = entry_values(&entries);
        Some(r)
    } else {
        None
    }
}

/// Fetches the withdrawals that belong to the given block number.
pub fn read_withdrawals_by_number(db: &Database, block_number: u64) -> (r: Option<Vec<Withdrawal>>)
    requires
        db.wf(),
    ensures
        match r {
            Some(v) => tbl_get(db.withdrawals_tbl(), block_number) == Some(v@),
            None => tbl_get(db.withdrawals_tbl(), block_number) is None,
        },
{
    db.withdrawals(block_number)
}

/// Checks whether the block number is the latest: the stage checkpoint and
/// the last canonical header must both name it.
pub fn is_latest_block_number(db: &Database, block_number: u64) -> (r: bool)
    requires
        db.wf(),
    ensures
        r == spec_is_latest(*db, block_number),
{
    let best = match best_block_number(db) {
        Some(number) => number,
        None => 0,
    };
    let last = match last_canonical_header(db) {
        Some(e) => e.0,
        None => 0,
    };
    block_number == best && block_number == last
}

/// Fetches the best block number from the `Finish` stage checkpoint.
pub fn best_block_number(db: &Database) -> (r: Option<u64>)
    requires
        db.wf(),
    ensures
        r == spec_best_block_number(*db),
{
    match db.stage_checkpoint(StageId::Finish) {
        Some(checkpoint) => Some(checkpoint.block_number),
        None => None,
    }
}

/// Fetches the last canonical header entry.
pub fn last_canonical_header(db: &Database) -> (r: Option<(u64, B256)>)
    requires
        db.wf(),
    ensures
        r == tbl_last(db.canonical_tbl()),
{
    db.last_canonical()
}

/// Get checkpoint for the given stage.
pub fn get_stage_checkpoint(db: &Database, id: StageId) -> (r: Option<StageCheckpoint>)
    requires
        db.wf(),
    ensures
        r == tbl_get(db.stages_tbl(), id),
{
    db.stage_checkpoint(id)
}


/// A resolved block, assembled: the tagged outcome of `block`.
pub open spec fn spec_block(db: Database, chain_spec: ChainSpec, id: BlockHashOrNumber) -> Result<
    Option<crate::primitives::BlockView>,
    ProviderError,
> {
    match spec_convert_hash_or_number(db, id) {
        None => Ok(None),
        Some(number) => match tbl_get(db.headers_tbl(), number) {
            None => Ok(None),
            Some(header) => match spec_read_transactions_by_number(db, number) {
                None => Err(ProviderError::BlockBodyIndicesNotFound(number)),
                Some(body) => Ok(
                    Some(
                        crate::primitives::BlockView {
                            header,
                            body,
                            ommers: if chain_spec.spec_is_shanghai_active(header.timestamp) {
                                Seq::empty()
                            } else {
                                match tbl_get(db.ommers_tbl(), number) {
                                    Some(o) => o,
                                    None => Seq::empty(),
                                }
                            },
                            withdrawals: if chain_spec.spec_is_shanghai_active(header.timestamp) {
                                tbl_get(db.withdrawals_tbl(), number)
                            } else {
                                None
                            },
                        },
                    ),
                ),
            },
        },
    }
}

/// The ommer list recorded for a designated block.
pub open spec fn spec_ommers(db: Database, id: BlockHashOrNumber) -> Option<Seq<Header>> {
    match spec_convert_hash_or_number(db, id) {
        None => None,
        Some(number) => tbl_get(db.ommers_tbl(), number),
    }
}

/// A transaction with its chain position: hash to number, number to body,
/// range-encoded seek to block, sealed header, and the intra-block index
/// `id - first_tx_num`.
pub open spec fn spec_transaction_by_hash_with_meta(db: Database, tx_hash: B256) -> Option<
    (TransactionSigned, TransactionMeta),
> {
    match tbl_get(db.tx_hash_numbers_tbl(), tx_hash) {
        None => None,
        Some(transaction_id) => match tbl_get(db.transactions_tbl(), transaction_id) {
            None => None,
            Some(transaction) => match tbl_seek(db.transaction_blocks_tbl(), transaction_id) {
                None => None,
                Some(e) => match spec_read_sealed_header(db, e.1) {
                    None => None,
                    Some(sealed) => match tbl_get(db.body_indices_tbl(), e.1) {
                        None => None,
                        Some(block_body) => if transaction_id >= block_body.first_tx_num {
                            Some(
                                (
                                    transaction,
                                    TransactionMeta {
                                        tx_hash,
                                        index: (transaction_id - block_body.first_tx_num) as u64,
                                        block_hash: sealed.1,
                                        block_number: e.1,
                                        base_fee: sealed.0.base_fee_per_gas,
                                    },
                                ),
                            )
                        } else {
                            None
                        },
                    },
                },
            },
        },
    }
}

/// The transactions of a designated block.
pub open spec fn spec_transactions_by_block(db: Database, id: BlockHashOrNumber) -> Option<
    Seq<TransactionSigned>,
> {
    match spec_convert_hash_or_number(db, id) {
        None => None,
        Some(number) => spec_read_transactions_by_number(db, number),
    }
}

/// The receipts of a designated block.
pub open spec fn spec_receipts_by_block(db: Database, id: BlockHashOrNumber) -> Option<
    Seq<Receipt>,
> {
    match spec_convert_hash_or_number(db, id) {
        None => None,
        Some(number) => spec_read_receipts_by_number(db, number),
    }
}

/// The transaction slice of one body-index entry.
pub open spec fn spec_block_txs_fn(db: Database) -> spec_fn((u64, StoredBlockBodyIndices)) -> Seq<
    TransactionSigned,
> {
    |e: (u64, StoredBlockBodyIndices)|
        tbl_values(
            tbl_range(db.transactions_tbl(), e.1.first_tx_num as int, e.1.spec_end_tx_num()),
        )
}

/// Per-block transaction lists over a range of block numbers, ascending.
pub open spec fn spec_transactions_by_block_range(db: Database, lo: int, hi: int) -> Seq<
    Seq<TransactionSigned>,
> {
    tbl_range(db.body_indices_tbl(), lo, hi).map_values(spec_block_txs_fn(db))
}

/// The views of a vector of transaction lists.
pub open spec fn vec_views(s: Seq<Vec<TransactionSigned>>) -> Seq<Seq<TransactionSigned>> {
    s.map_values(|b: Vec<TransactionSigned>| b@)
}

/// The withdrawals of a designated block: only meaningful once Shanghai is
/// active at the block timestamp, and then owed even if empty.
pub open spec fn spec_withdrawals_by_block(
    db: Database,
    chain_spec: ChainSpec,
    id: BlockHashOrNumber,
    timestamp: u64,
) -> Option<Seq<Withdrawal>> {
    if chain_spec.spec_is_shanghai_active(timestamp) {
        match spec_convert_hash_or_number(db, id) {
            None => None,
            Some(number) => Some(
                match tbl_get(db.withdrawals_tbl(), number) {
                    Some(w) => w,
                    None => Seq::empty(),
                },
            ),
        }
    } else {
        None
    }
}

/// The last withdrawal of the last block that has any.
pub open spec fn spec_latest_withdrawal(db: Database) -> Option<Withdrawal> {
    match tbl_last(db.withdrawals_tbl()) {
        None => None,
        Some(e) => if e.1.len() == 0 {
            None
        } else {
            Some(e.1.last())
        },
    }
}

/// A header sealed at a height: `Ok(None)` without a header, a hard error
/// when the header exists but its canonical hash does not.
pub open spec fn spec_sealed_header(db: Database, number: u64) -> Result<
    Option<SealedHeader>,
    ProviderError,
> {
    match tbl_get(db.headers_tbl(), number) {
        None => Ok(None),
        Some(header) => match tbl_get(db.canonical_tbl(), number) {
            None => Err(ProviderError::HeaderNotFound(BlockHashOrNumber::Number(number))),
            Some(hash) => Ok(Some(SealedHeader { header, hash })),
        },
    }
}

/// Seals a walked header slice front to back; the first header whose
/// canonical hash is missing fails the whole walk.
pub open spec fn spec_seal_all(db: Database, entries: Seq<(u64, Header)>) -> Result<
    Seq<SealedHeader>,
    ProviderError,
>
    decreases entries.len(),
{
    if entries.len() == 0 {
        Ok(Seq::empty())
    } else {
        match tbl_get(db.canonical_tbl(), entries[0].0) {
            None => Err(ProviderError::HeaderNotFound(BlockHashOrNumber::Number(entries[0].0))),
            Some(hash) => match spec_seal_all(db, entries.subrange(1, entries.len() as int)) {
                Ok(rest) => Ok(seq![SealedHeader { header: entries[0].1, hash }] + rest),
                Err(e) => Err(e),
            },
        }
    }
}

impl ShareableDatabase {
    /// Headers over `[start, end)`, ascending by number.
    pub fn headers_range(&self, start: u64, end: u64) -> (r: Result<Vec<Header>, ProviderError>)
        requires
            self.wf(),
        ensures
            r matches Ok(v) && v@ == tbl_values(
                tbl_range(self.db.headers_tbl(), start as int, end as int),
            ),
    {
        let entries = self.db.headers_in_range(start, end);
        Ok(entry_values(&entries))
    }

    /// Sealed headers over `[start, end)`; any header in the walk lacking a
    /// canonical hash fails the whole operation.
    pub fn sealed_headers_range(&self, start: u64, end: u64) -> (r: Result<
        Vec<SealedHeader>,
        ProviderError,
    >)
        requires
            self.wf(),
        ensures
            ({
                let s = spec_seal_all(
                    self.db,
                    tbl_range(self.db.headers_tbl(), start as int, end as int),
                );
                match r {
                    Ok(v) => s == Ok::<Seq<SealedHeader>, ProviderError>(v@),
                    Err(e) => s == Err::<Seq<SealedHeader>, ProviderError>(e),
                }
            }),
    {
        let entries = self.db.headers_in_range(start, end);
        let n: usize = entries.len();
        let mut headers: Vec<SealedHeader> = Vec::new();
        let mut i: usize = 0;
        proof {
            assert(entries@.skip(0) =~= entries@);
        }
        while i < n
            invariant
                self.wf(),
                n == entries@.len(),
                i <= n,
                entries@ == tbl_range(self.db.headers_tbl(), start as int, end as int),
                spec_seal_all(self.db, entries@) == (match spec_seal_all(
                    self.db,
                    entries@.skip(i as int),
                ) {
                    Ok(rest) => Ok::<Seq<SealedHeader>, ProviderError>(headers@ + rest),
                    Err(e) => Err::<Seq<SealedHeader>, ProviderError>(e),
                }),
            decreases n - i,
        {
            let ghost t = entries@.skip(i as int);
            proof {
                assert(t[0] == entries@[i as int]);
                assert(t.subrange(1, t.len() as int) =~= entries@.skip(i as int + 1));
            }
            let num = entries[i].0;
            let header = entries[i].1;
            let hash = match read_header_hash(&self.db, num) {
                Ok(hash) => hash,
                Err(e) => {
                    return Err(e);
                },
            };
            let ghost h0 = headers@;
            headers.push(SealedHeader { header, hash });
            proof {
                match spec_seal_all(self.db, entries@.skip(i as int + 1)) {
                    Ok(rest) => {
                        assert(h0 + (seq![SealedHeader { header, hash }] + rest) =~= headers@
                            + rest);
                    },
                    Err(_) => {
                    },
                }
            }
            i += 1;
        }
        proof {
            assert(entries@.skip(n as int).len() == 0);
            assert(headers@ + Seq::<SealedHeader>::empty() =~= headers@);
        }
        Ok(headers)
    }

    /// The sealed header at a height.
    pub fn sealed_header(&self, number: u64) -> (r: Result<Option<SealedHeader>, ProviderError>)
        requires
            self.wf(),
        ensures
            r == spec_sealed_header(self.db, number),
    {
        if let Some(header) = self.db.header(number) {
            match read_header_hash(&self.db, number) {
                Ok(hash) => Ok(Some(SealedHeader { header, hash })),
                Err(e) => Err(e),
            }
        } else {
            Ok(None)
        }
    }

    /// Canonical hashes over `[start, end)`, ascending by number.
    pub fn canonical_hashes_range(&self, start: u64, end: u64) -> (r: Result<
        Vec<B256>,
        ProviderError,
    >)
        requires
            self.wf(),
        ensures
            r matches Ok(v) && v@ == tbl_values(
                tbl_range(self.db.canonical_tbl(), start as int, end as int),
            ),
    {
        let entries = self.db.canonical_in_range(start, end);
        Ok(entry_values(&entries))
    }

    /// A block looked up by hash, from the requested source; this core owns
    /// only the database, so any pending source yields nothing.
    pub fn find_block_by_hash(&self, hash: B256, source: BlockSource) -> (r: Result<
        Option<Block>,
        ProviderError,
    >)
        requires
            self.wf(),
        ensures
            ({
                let s = if source.spec_is_database() {
                    spec_block(self.db, self.chain_spec, BlockHashOrNumber::Hash(hash))
                } else {
                    Ok(None)
                };
                match r {
                    Ok(Some(b)) => s == Ok::<Option<crate::primitives::BlockView>, ProviderError>(
                        Some(b@),
                    ),
                    Ok(None) => s == Ok::<Option<crate::primitives::BlockView>, ProviderError>(
                        None,
                    ),
                    Err(e) => s == Err::<Option<crate::primitives::BlockView>, ProviderError>(e),
                }
            }),
    {
        if source.is_database() {
            self.block(BlockHashOrNumber::Hash(hash))
        } else {
            Ok(None)
        }
    }

    /// The full block at a designator: header, transactions, and the
    /// fork-era exclusive ommers or withdrawals. A header whose body indices
    /// are missing marks an inconsistent database and is a hard error.
    pub fn block(&self, id: BlockHashOrNumber) -> (r: Result<Option<Block>, ProviderError>)
        requires
            self.wf(),
        ensures
            ({
                let s = spec_block(self.db, self.chain_spec, id);
                match r {
                    Ok(Some(b)) => s == Ok::<Option<crate::primitives::BlockView>, ProviderError>(
                        Some(b@),
                    ),
                    Ok(None) => s == Ok::<Option<crate::primitives::BlockView>, ProviderError>(
                        None,
                    ),
                    Err(e) => s == Err::<Option<crate::primitives::BlockView>, ProviderError>(e),
                }
            }),
    {
        if let Some(number) = convert_hash_or_number(&self.db, id) {
            if let Some(header) = read_header(&self.db, number) {
                // Shanghai decides which of the two lists is meaningful.
                let (ommers, withdrawals) = self.read_block_ommers_and_withdrawals(
                    number,
                    header.timestamp,
                );
                let transactions = match read_transactions_by_number(&self.db, number) {
                    Some(transactions) => transactions,
                    None => {
                        return Err(ProviderError::BlockBodyIndicesNotFound(number));
                    },
                };
                let ommers_list = match ommers {
                    Some(o) => o,
                    None => Vec::new(),
                };
                let b = Block { header, body: transactions, ommers: ommers_list, withdrawals };
                proof {
                    if self.chain_spec.spec_is_shanghai_active(header.timestamp) {
                        assert(b@.ommers =~= Seq::<Header>::empty());
                    } else {
                        if tbl_get(self.db.ommers_tbl(), number) is None {
                            assert(b@.ommers =~= Seq::<Header>::empty());
                        }
                    }
                }
                return Ok(Some(b));
            }
        }
        Ok(None)
    }

    /// Pending blocks are out of this core's scope.
    pub fn pending_block(&self) -> (r: Result<Option<SealedBlock>, ProviderError>)
        ensures
            r matches Ok(b) && b is None,
    {
        Ok(None)
    }

    /// The ommers recorded for a designated block; an absent entry stays
    /// distinguishable from an empty list.
    pub fn ommers(&self, id: BlockHashOrNumber) -> (r: Result<Option<Vec<Header>>, ProviderError>)
        requires
            self.wf(),
        ensures
            ({
                let s = spec_ommers(self.db, id);
                match r {
                    Ok(Some(v)) => s == Some(v@),
                    Ok(None) => s is None,
                    Err(_) => false,
                }
            }),
    {
        if let Some(number) = convert_hash_or_number(&self.db, id) {
            return Ok(self.db.ommers(number));
        }
        Ok(None)
    }

    /// Reads the block's ommers and withdrawals. These are mutually
    /// exclusive: after Shanghai only withdrawals are read, before it only
    /// ommers.
    fn read_block_ommers_and_withdrawals(&self, block_number: u64, timestamp: u64) -> (r: (
        Option<Vec<Header>>,
        Option<Vec<Withdrawal>>,
    ))
        requires
            self.wf(),
        ensures
            self.chain_spec.spec_is_shanghai_active(timestamp) ==> r.0 is None && (match r.1 {
                Some(v) => tbl_get(self.db.withdrawals_tbl(), block_number) == Some(v@),
                None => tbl_get(self.db.withdrawals_tbl(), block_number) is None,
            }),
            !self.chain_spec.spec_is_shanghai_active(timestamp) ==> r.1 is None && (match r.0 {
                Some(v) => tbl_get(self.db.ommers_tbl(), block_number) == Some(v@),
                None => tbl_get(self.db.ommers_tbl(), block_number) is None,
            }),
    {
        let mut ommers: Option<Vec<Header>> = None;
        let mut withdrawals: Option<Vec<Withdrawal>> = None;
        if self.chain_spec.is_shanghai_activated_at_timestamp(timestamp) {
            withdrawals = read_withdrawals_by_number(&self.db, block_number);
        } else {
            ommers = self.db.ommers(block_number);
        }
        (ommers, withdrawals)
    }

    /// The transaction number a hash is indexed under.
    pub fn transaction_id(&self, tx_hash: B256) -> (r: Result<Option<u64>, ProviderError>)
        requires
            self.wf(),
        ensures
            r == Ok::<Option<u64>, ProviderError>(tbl_get(self.db.tx_hash_numbers_tbl(), tx_hash)),
    {
        Ok(self.db.tx_number(&tx_hash))
    }

    /// The transaction stored at a transaction number.
    pub fn transaction_by_id(&self, id: u64) -> (r: Result<
        Option<TransactionSigned>,
        ProviderError,
    >)
        requires
            self.wf(),
        ensures
            r == Ok::<Option<TransactionSigned>, ProviderError>(
                tbl_get(self.db.transactions_tbl(), id),
            ),
    {
        Ok(self.db.transaction(id))
    }

    /// The transaction with the given hash.
    pub fn transaction_by_hash(&self, hash: B256) -> (r: Result<
        Option<TransactionSigned>,
        ProviderError,
    >)
        requires
            self.wf(),
        ensures
            r == Ok::<Option<TransactionSigned>, ProviderError>(
                match tbl_get(self.db.tx_hash_numbers_tbl(), hash) {
                    Some(id) => tbl_get(self.db.transactions_tbl(), id),
                    None => None,
                },
            ),
    {
        if let Some(id) = self.db.tx_number(&hash) {
            Ok(self.db.transaction(id))
        } else {
            Ok(None)
        }
    }

    /// The transaction with the given hash, joined with its chain position.
    /// Any missing link along the way is a soft `None`, never an error.
    pub fn transaction_by_hash_with_meta(&self, tx_hash: B256) -> (r: Result<
        Option<(TransactionSigned, TransactionMeta)>,
        ProviderError,
    >)
        requires
            self.wf(),
        ensures
            r == Ok::<Option<(TransactionSigned, TransactionMeta)>, ProviderError>(
                spec_transaction_by_hash_with_meta(self.db, tx_hash),
            ),
    {
        if let Some(transaction_id) = self.db.tx_number(&tx_hash) {
            if let Some(transaction) = self.db.transaction(transaction_id) {
                if let Some(e) = self.db.seek_transaction_block(transaction_id) {
                    let block_number = e.1;
                    if let Some(sealed) = read_sealed_header(&self.db, block_number) {
                        if let Some(block_body) = self.db.body_indices(block_number) {
                            // In a consistent store the range marker found by
                            // the seek covers this transaction, so its number
                            // is at or above the block's first; anything else
                            // is a dangling marker and yields no position.
                            if transaction_id >= block_body.first_tx_num() {
                                let index = transaction_id - block_body.first_tx_num();
                                let meta = TransactionMeta {
                                    tx_hash,
                                    index,
                                    block_hash: sealed.1,
                                    block_number,
                                    base_fee: sealed.0.base_fee_per_gas,
                                };
                                return Ok(Some((transaction, meta)));
                            }
                        }
                    }
                }
            }
        }
        Ok(None)
    }

    /// The number of the block a transaction number belongs to, resolved by
    /// seeking the range-encoded `TransactionBlock` table.
    pub fn transaction_block(&self, id: u64) -> (r: Result<Option<u64>, ProviderError>)
        requires
            self.wf(),
        ensures
            r == Ok::<Option<u64>, ProviderError>(
                match tbl_seek(self.db.transaction_blocks_tbl(), id) {
                    Some(e) => Some(e.1),
                    None => None,
                },
            ),
    {
        match self.db.seek_transaction_block(id) {
            Some(e) => Ok(Some(e.1)),
            None => Ok(None),
        }
    }

    /// The transactions of a designated block; `None` when the designator or
    /// the body indices are unknown.
    pub fn transactions_by_block(&self, id: BlockHashOrNumber) -> (r: Result<
        Option<Vec<TransactionSigned>>,
        ProviderError,
    >)
        requires
            self.wf(),
        ensures
            ({
                let s = spec_transactions_by_block(self.db, id);
                match r {
                    Ok(Some(v)) => s == Some(v@),
                    Ok(None) => s is None,
                    Err(_) => false,
                }
            }),
    {
        if let Some(number) = convert_hash_or_number(&self.db, id) {
            return Ok(read_transactions_by_number(&self.db, number));
        }
        Ok(None)
    }

    /// Per-block transaction lists over `[start, end)`, in ascending block
    /// order; a block with an empty range contributes an empty list.
    pub fn transactions_by_block_range(&self, start: u64, end: u64) -> (r: Result<
        Vec<Vec<TransactionSigned>>,
        ProviderError,
    >)
        requires
            self.wf(),
        ensures
            r matches Ok(v) && vec_views(v@) == spec_transactions_by_block_range(
                self.db,
                start as int,
                end as int,
            ),
    {
        let bodies = self.db.body_indices_in_range(start, end);
        let ghost f = spec_block_txs_fn(self.db);
        let n: usize = bodies.len();
        let mut results: Vec<Vec<TransactionSigned>> = Vec::new();
        let mut i: usize = 0;
        proof {
            assert(vec_views(results@) =~= bodies@.take(0).map_values(f));
        }
        while i < n
            invariant
                self.wf(),
                n == bodies@.len(),
                i <= n,
                bodies@ == tbl_range(self.db.body_indices_tbl(), start as int, end as int),
                f == spec_block_txs_fn(self.db),
                vec_views(results@) == bodies@.take(i as int).map_values(f),
            decreases n - i,
        {
            let body = bodies[i].1;
            proof {
                crate::table::lemma_tbl_range_members(
                    self.db.body_indices_tbl(),
                    start as int,
                    end as int,
                    i as int,
                );
                let j = choose|j: int|
                    0 <= j < self.db.body_indices_tbl().len() && #[trigger] self.db.body_indices_tbl()[j]
                        == bodies@[i as int];
                assert(self.db.body_indices_tbl()[j].1 == body);
            }
            let tx_num_start = body.first_tx_num();
            let tx_num_end = tx_num_start + body.tx_count();
            let block_txs: Vec<TransactionSigned> = if body.tx_count() == 0 {
                let empty_txs: Vec<TransactionSigned> = Vec::new();
                proof {
                    self.db.transactions_tbl().lemma_all_neg_filter_empty(
                        in_key_range(tx_num_start as int, tx_num_end as int),
                    );
                    assert(empty_txs@ =~= f(bodies@[i as int]));
                }
                empty_txs
            } else {
                let entries = self.db.transactions_in_range(tx_num_start, tx_num_end);
                entry_values(&entries)
            };
            proof {
                assert(block_txs@ == f(bodies@[i as int]));
            }
            let ghost r0 = results@;
            let ghost new_view = block_txs@;
            results.push(block_txs);
            proof {
                bodies@.lemma_take_succ_push(i as int);
                let prev = bodies@.take(i as int);
                assert(vec_views(r0.push(results@[i as int])) =~= vec_views(r0).push(new_view));
                assert(prev.push(bodies@[i as int]).map_values(f) =~= prev.map_values(f).push(
                    f(bodies@[i as int]),
                ));
                assert(vec_views(results@) == bodies@.take(i as int + 1).map_values(f));
            }
            i += 1;
        }
        proof {
            assert(bodies@.take(n as int) =~= bodies@);
        }
        Ok(results)
    }

    /// The receipt stored at a transaction number.
    pub fn receipt(&self, id: u64) -> (r: Result<Option<Receipt>, ProviderError>)
        requires
            self.wf(),
        ensures
            r == Ok::<Option<Receipt>, ProviderError>(tbl_get(self.db.receipts_tbl(), id)),
    {
        Ok(self.db.receipt(id))
    }

    /// The receipt of the transaction with the given hash.
    pub fn receipt_by_hash(&self, hash: B256) -> (r: Result<Option<Receipt>, ProviderError>)
        requires
            self.wf(),
        ensures
            r == Ok::<Option<Receipt>, ProviderError>(
                match tbl_get(self.db.tx_hash_numbers_tbl(), hash) {
                    Some(id) => tbl_get(self.db.receipts_tbl(), id),
                    None => None,
                },
            ),
    {
        if let Some(id) = self.db.tx_number(&hash) {
            Ok(self.db.receipt(id))
        } else {
            Ok(None)
        }
    }

    /// The receipts of a designated block, sliced by its body indices.
    pub fn receipts_by_block(&self, block: BlockHashOrNumber) -> (r: Result<
        Option<Vec<Receipt>>,
        ProviderError,
    >)
        requires
            self.wf(),
        ensures
            ({
                let s = spec_receipts_by_block(self.db, block);
                match r {
                    Ok(Some(v)) => s == Some(v@),
                    Ok(None) => s is None,
                    Err(_) => false,
                }
            }),
    {
        if let Some(number) = convert_hash_or_number(&self.db, block) {
            if let Some(body) = self.db.body_indices(number) {
                if body.tx_count() == 0 {
                    let empty_receipts: Vec<Receipt> = Vec::new();
                    proof {
                        self.db.receipts_tbl().lemma_all_neg_filter_empty(
                            in_key_range(body.first_tx_num as int, body.spec_end_tx_num()),
                        );
                        assert(tbl_values(
                            tbl_range(
                                self.db.receipts_tbl(),
                                body.first_tx_num as int,
                                body.spec_end_tx_num(),
                            ),
                        ) =~= empty_receipts@);
                    }
                    return Ok(Some(empty_receipts));
                }
                let ghost gi = crate::table::tbl_index_of_key(self.db.body_indices_tbl(), number);
                proof {
                    crate::table::lemma_sorted_implies_uniq(self.db.body_indices_tbl());
                    assert(self.db.body_indices_tbl()[gi].1 == body);
                }
                let entries = self.db.receipts_in_range(
                    body.first_tx_num(),
                    body.first_tx_num() + body.tx_count(),
                );
                return Ok(Some(entry_values(&entries)));
            }
        }
        Ok(None)
    }

    /// The withdrawals of a designated block: present from Shanghai on, even
    /// if empty, and `None` before.
    pub fn withdrawals_by_block(&self, id: BlockHashOrNumber, timestamp: u64) -> (r: Result<
        Option<Vec<Withdrawal>>,
        ProviderError,
    >)
        requires
            self.wf(),
        ensures
            ({
                let s = spec_withdrawals_by_block(self.db, self.chain_spec, id, timestamp);
                match r {
                    Ok(Some(v)) => s == Some(v@),
                    Ok(None) => s is None,
                    Err(_) => false,
                }
            }),
    {
        if self.chain_spec.is_shanghai_activated_at_timestamp(timestamp) {
            if let Some(number) = convert_hash_or_number(&self.db, id) {
                // Past Shanghai every block owes a withdrawal list, even an
                // empty one.
                let withdrawals = match read_withdrawals_by_number(&self.db, number) {
                    Some(w) => w,
                    None => {
                        let empty_withdrawals: Vec<Withdrawal> = Vec::new();
                        proof {
                            assert(empty_withdrawals@ =~= Seq::<Withdrawal>::empty());
                        }
                        empty_withdrawals
                    },
                };
                return Ok(Some(withdrawals));
            }
        }
        Ok(None)
    }

    /// The most recent withdrawal on record: the last element of the last
    /// block's withdrawal list.
    pub fn latest_withdrawal(&self) -> (r: Result<Option<Withdrawal>, ProviderError>)
        requires
            self.wf(),
        ensures
            r == Ok::<Option<Withdrawal>, ProviderError>(spec_latest_withdrawal(self.db)),
    {
        match self.db.last_block_withdrawals() {
            Some(e) => {
                let list = e.1;
                let m: usize = list.len();
                if m == 0 {
                    Ok(None)
                } else {
                    Ok(Some(list[m - 1]))
                }
            },
            None => Ok(None),
        }
    }
}

} // verus!
