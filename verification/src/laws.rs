//! The chain-structure invariants of the data model, and the laws the
//! provider guarantees over any store that satisfies them.
//!
//! The pipeline that writes the tables maintains these invariants; the
//! proofs here show that the facade's contracts then compose into the
//! properties callers rely on: hash/number round-trips, body-range
//! soundness, fork-era exclusivity, the latest-state choice, the
//! transaction-metadata index law, and the empty-database chain info.

use vstd::prelude::*;
use crate::chain_spec::ChainSpec;
use crate::primitives::{B256, BlockHashOrNumber, ChainInfo, Header};
use crate::provider::{
    spec_best_or_zero, spec_block, spec_block_number, spec_chain_info, spec_is_latest,
    spec_last_canonical_number, spec_read_receipts_by_number, spec_read_transactions_by_number,
    spec_transaction_by_hash_with_meta, spec_transactions_by_block,
};
use crate::state::{spec_history_by_block_number, StateProvider};
use crate::store::Database;
use crate::table::{
    lemma_sorted_implies_uniq, lemma_tbl_get_index, lemma_tbl_range_complete,
    lemma_tbl_seek_props, tbl_contains_key, tbl_get, tbl_index_of_key, tbl_range, tbl_seek,
    tbl_values,
};

verus! {

/// A table holds every key of `[lo, hi)`.
pub open spec fn range_covered<V>(s: Seq<(u64, V)>, lo: int, hi: int) -> bool {
    forall|k: int| lo <= k < hi ==> #[trigger] tbl_contains_key(s, k as u64)
}

/// Every canonical entry is indexed back: `HeaderNumbers` maps the hash at
/// height `n` to `n`.
pub open spec fn canonical_indexed(db: Database) -> bool {
    forall|i: int| 0 <= i < db.canonical_tbl().len() ==> tbl_get(
        db.header_numbers_tbl(),
        (#[trigger] db.canonical_tbl()[i]).1,
    ) == Some(db.canonical_tbl()[i].0)
}

/// Every block body's transaction-number range is backed by entries of both
/// `Transactions` and `Receipts`.
pub open spec fn bodies_complete(db: Database) -> bool {
    forall|i: int| 0 <= i < db.body_indices_tbl().len() ==> range_covered(
        db.transactions_tbl(),
        (#[trigger] db.body_indices_tbl()[i]).1.first_tx_num as int,
        db.body_indices_tbl()[i].1.spec_end_tx_num(),
    ) && range_covered(
        db.receipts_tbl(),
        db.body_indices_tbl()[i].1.first_tx_num as int,
        db.body_indices_tbl()[i].1.spec_end_tx_num(),
    )
}

/// Ommers and withdrawals are exclusive by fork era: a block whose header
/// timestamp falls at or past Shanghai owes a withdrawal entry and carries
/// no ommers.
pub open spec fn fork_era_exclusive(db: Database, chain_spec: ChainSpec) -> bool {
    forall|i: int| 0 <= i < db.headers_tbl().len() ==> (chain_spec.spec_is_shanghai_active(
        (#[trigger] db.headers_tbl()[i]).1.timestamp,
    ) ==> tbl_contains_key(db.withdrawals_tbl(), db.headers_tbl()[i].0) && !tbl_contains_key(
        db.ommers_tbl(),
        db.headers_tbl()[i].0,
    ))
}

/// The transaction-hash index is sound: every `TxHashNumber` entry names a
/// stored transaction that hashes to its key.
pub open spec fn tx_hash_indexed(db: Database) -> bool {
    forall|i: int| 0 <= i < db.tx_hash_numbers_tbl().len() ==> (match tbl_get(
        db.transactions_tbl(),
        (#[trigger] db.tx_hash_numbers_tbl()[i]).1,
    ) {
        Some(tx) => tx.hash == db.tx_hash_numbers_tbl()[i].0,
        None => false,
    })
}

/// Every `TransactionBlock` marker sits at the last transaction number of
/// the non-empty block it names.
pub open spec fn block_markers_sound(db: Database) -> bool {
    forall|i: int| 0 <= i < db.transaction_blocks_tbl().len() ==> (match tbl_get(
        db.body_indices_tbl(),
        (#[trigger] db.transaction_blocks_tbl()[i]).1,
    ) {
        Some(b) => b.tx_count > 0 && db.transaction_blocks_tbl()[i].0 == b.spec_end_tx_num() - 1,
        None => false,
    })
}

/// The two best-block oracles agree: the `Finish` checkpoint and the last
/// canonical header name the same height. During a reorg or mid-pipeline
/// they may transiently diverge; the laws below hold of the settled store.
pub open spec fn best_agrees(db: Database) -> bool {
    spec_best_or_zero(db) == spec_last_canonical_number(db)
}

/// Hash/number round-trip: for every canonical height `n`, looking the hash
/// at `n` back up in `HeaderNumbers` yields `n` again.
pub proof fn lemma_hash_number_round_trip(db: Database, n: u64)
    requires
        db.wf(),
        canonical_indexed(db),
        tbl_contains_key(db.canonical_tbl(), n),
    ensures
        tbl_get(db.canonical_tbl(), n) is Some,
        spec_block_number(db, tbl_get(db.canonical_tbl(), n).unwrap()) == Some(n),
{
    lemma_sorted_implies_uniq(db.canonical_tbl());
    let i = tbl_index_of_key(db.canonical_tbl(), n);
    lemma_tbl_get_index(db.canonical_tbl(), i, n);
    assert(tbl_get(db.header_numbers_tbl(), db.canonical_tbl()[i].1) == Some(
        db.canonical_tbl()[i].0,
    ));
}

/// Body-range soundness: a block with body indices yields exactly
/// `tx_count` transactions, and a receipt exists at every one of those
/// positions.
pub proof fn lemma_body_range_soundness(db: Database, n: u64)
    requires
        db.wf(),
        bodies_complete(db),
        tbl_contains_key(db.body_indices_tbl(), n),
    ensures
        tbl_get(db.body_indices_tbl(), n) is Some,
        spec_read_transactions_by_number(db, n) is Some,
        spec_read_transactions_by_number(db, n).unwrap().len() == tbl_get(
            db.body_indices_tbl(),
            n,
        ).unwrap().tx_count,
        spec_read_receipts_by_number(db, n) is Some,
        spec_read_receipts_by_number(db, n).unwrap().len() == tbl_get(
            db.body_indices_tbl(),
            n,
        ).unwrap().tx_count,
{
    lemma_sorted_implies_uniq(db.body_indices_tbl());
    let i = tbl_index_of_key(db.body_indices_tbl(), n);
    lemma_tbl_get_index(db.body_indices_tbl(), i, n);
    let b = db.body_indices_tbl()[i].1;
    assert(range_covered(db.transactions_tbl(), b.first_tx_num as int, b.spec_end_tx_num()));
    assert(range_covered(db.receipts_tbl(), b.first_tx_num as int, b.spec_end_tx_num()));
    lemma_tbl_range_complete(db.transactions_tbl(), b.first_tx_num as int, b.spec_end_tx_num());
    lemma_tbl_range_complete(db.receipts_tbl(), b.first_tx_num as int, b.spec_end_tx_num());
}

/// Fork-era exclusivity: any block the facade assembles has an empty ommer
/// list and a present withdrawal list when Shanghai is active at its header
/// timestamp, and no withdrawal list when it is not.
pub proof fn lemma_fork_era_exclusivity(
    db: Database,
    chain_spec: ChainSpec,
    id: BlockHashOrNumber,
)
    requires
        db.wf(),
        fork_era_exclusive(db, chain_spec),
    ensures
        ({
            match spec_block(db, chain_spec, id) {
                Ok(Some(b)) => {
                    &&& (chain_spec.spec_is_shanghai_active(b.header.timestamp) ==> b.ommers
                        == Seq::<Header>::empty() && b.withdrawals is Some)
                    &&& (!chain_spec.spec_is_shanghai_active(b.header.timestamp)
                        ==> b.withdrawals is None)
                },
                _ => true,
            }
        }),
{
    lemma_sorted_implies_uniq(db.headers_tbl());
    match spec_block(db, chain_spec, id) {
        Ok(Some(b)) => {
            let number = crate::provider::spec_convert_hash_or_number(db, id).unwrap();
            let i = tbl_index_of_key(db.headers_tbl(), number);
            lemma_tbl_get_index(db.headers_tbl(), i, number);
            assert(db.headers_tbl()[i].1 == b.header);
            if chain_spec.spec_is_shanghai_active(b.header.timestamp) {
                assert(tbl_contains_key(db.withdrawals_tbl(), number));
            }
        },
        _ => {
        },
    }
}

/// State-view choice: when the two best-block oracles agree, the history
/// view at the best block is the latest view itself.
pub proof fn lemma_state_view_choice(db: Database)
    requires
        db.wf(),
        best_agrees(db),
    ensures
        spec_history_by_block_number(db, spec_best_or_zero(db)) == StateProvider::Latest,
{
    assert(spec_is_latest(db, spec_best_or_zero(db)));
}

/// Transaction-metadata index law: whenever a hash resolves to a
/// transaction with metadata, the block named by the metadata lists that
/// very transaction at the metadata's intra-block index.
pub proof fn lemma_tx_meta_index(db: Database, tx_hash: B256)
    requires
        db.wf(),
        tx_hash_indexed(db),
        bodies_complete(db),
        block_markers_sound(db),
        spec_transaction_by_hash_with_meta(db, tx_hash) is Some,
    ensures
        ({
            let p = spec_transaction_by_hash_with_meta(db, tx_hash).unwrap();
            let ts_opt = spec_transactions_by_block(
                db,
                BlockHashOrNumber::Number(p.1.block_number),
            );
            &&& ts_opt is Some
            &&& p.1.index < ts_opt.unwrap().len()
            &&& ts_opt.unwrap()[p.1.index as int] == p.0
            &&& ts_opt.unwrap()[p.1.index as int].hash == tx_hash
        }),
{
    lemma_sorted_implies_uniq(db.transactions_tbl());
    lemma_sorted_implies_uniq(db.transaction_blocks_tbl());
    lemma_sorted_implies_uniq(db.body_indices_tbl());
    let p = spec_transaction_by_hash_with_meta(db, tx_hash).unwrap();
    let transaction = p.0;
    let meta = p.1;
    let id = tbl_get(db.tx_hash_numbers_tbl(), tx_hash).unwrap();

    // The stored transaction hashes back to the queried hash.
    let hi = tbl_index_of_key(db.tx_hash_numbers_tbl(), tx_hash);
    lemma_tbl_get_index(db.tx_hash_numbers_tbl(), hi, tx_hash);
    assert(db.tx_hash_numbers_tbl()[hi].1 == id);
    assert(transaction == tbl_get(db.transactions_tbl(), id).unwrap());
    assert(transaction.hash == tx_hash);

    // The seek found a sound marker: it ends the body of meta.block_number.
    lemma_tbl_seek_props(db.transaction_blocks_tbl(), id);
    let e = tbl_seek(db.transaction_blocks_tbl(), id).unwrap();
    let ti = tbl_index_of_key(db.transaction_blocks_tbl(), e.0);
    lemma_tbl_get_index(db.transaction_blocks_tbl(), ti, e.0);
    assert(db.transaction_blocks_tbl()[ti].1 == e.1);
    let b = tbl_get(db.body_indices_tbl(), e.1).unwrap();
    assert(b.tx_count > 0 && e.0 == b.spec_end_tx_num() - 1);

    // The metadata's intra-block position: the transaction number sits in
    // the block's half-open range.
    assert(meta.block_number == e.1);
    assert(id >= b.first_tx_num);
    assert(id as int <= b.spec_end_tx_num() - 1);
    assert(meta.index == id - b.first_tx_num);

    // The block's transaction list is complete, and position `index` holds
    // the transaction numbered `id`.
    let bi = tbl_index_of_key(db.body_indices_tbl(), e.1);
    lemma_tbl_get_index(db.body_indices_tbl(), bi, e.1);
    assert(db.body_indices_tbl()[bi].1 == b);
    assert(range_covered(db.transactions_tbl(), b.first_tx_num as int, b.spec_end_tx_num()));
    lemma_tbl_range_complete(db.transactions_tbl(), b.first_tx_num as int, b.spec_end_tx_num());
    let range = tbl_range(db.transactions_tbl(), b.first_tx_num as int, b.spec_end_tx_num());
    assert(Some(range[meta.index as int].1) == tbl_get(
        db.transactions_tbl(),
        (b.first_tx_num + meta.index) as u64,
    ));
    assert((b.first_tx_num + meta.index) as u64 == id);
    assert(tbl_values(range)[meta.index as int] == range[meta.index as int].1);
}

/// Empty-database chain info: with no tables written, the tip is block zero
/// under the all-zero hash, and no error.
pub proof fn lemma_empty_db_chain_info(db: Database)
    requires
        db.is_empty(),
    ensures
        spec_chain_info(db) == (ChainInfo { best_hash: B256::spec_zero(), best_number: 0u64 }),
{
    assert(!tbl_contains_key(db.stages_tbl(), crate::primitives::StageId::Finish));
    assert(!tbl_contains_key(db.canonical_tbl(), 0u64));
}

} // verus!
