use chain_provider::chain_spec::{revm_spec, ChainSpec, SpecId};
use chain_provider::env::{BlockEnv, CfgEnv};
use chain_provider::primitives::{
    B256, BlockHashOrNumber, BlockSource, Head, Header, ProviderError, Receipt, StageCheckpoint,
    StageId, StoredBlockBodyIndices, TransactionSigned, U256, Withdrawal,
};
use chain_provider::provider::ShareableDatabase;
use chain_provider::state::StateProvider;
use chain_provider::store::Database;

const SHANGHAI_TIME: u64 = 1000;

fn test_chain_spec() -> ChainSpec {
    ChainSpec {
        chain_id: 1,
        homestead_block: Some(1),
        byzantium_block: Some(4),
        london_block: Some(8),
        paris_total_difficulty: Some(U256 { w0: 1000, w1: 0, w2: 0, w3: 0 }),
        shanghai_time: Some(SHANGHAI_TIME),
    }
}

fn hash_of(n: u64) -> B256 {
    B256 { w0: n, w1: 77, w2: 0, w3: 0 }
}

fn header_at(n: u64, timestamp: u64) -> Header {
    Header {
        parent_hash: if n == 0 { B256::zero() } else { hash_of(n - 1) },
        number: n,
        timestamp,
        gas_limit: 30_000_000,
        beneficiary: B256 { w0: 9, w1: 9, w2: 0, w3: 0 },
        difficulty: U256 { w0: 10, w1: 0, w2: 0, w3: 0 },
        mix_hash: B256 { w0: 42, w1: 0, w2: 0, w3: 0 },
        base_fee_per_gas: Some(7),
    }
}

fn tx_at(id: u64) -> TransactionSigned {
    TransactionSigned {
        hash: B256 { w0: id, w1: 0, w2: 55, w3: 0 },
        nonce: id,
        gas_limit: 21_000,
        to: B256::zero(),
        value: 100 + id,
    }
}

#[test]
fn common_history_provider() {
    let chain_spec = test_chain_spec();
    let db = Database::new();
    let provider = ShareableDatabase::new(db, chain_spec);
    let _ = provider.latest();
}

#[test]
fn default_chain_info() {
    let chain_spec = test_chain_spec();
    let db = Database::new();
    let provider = ShareableDatabase::new(db, chain_spec);

    let chain_info = provider.chain_info().expect("should be ok");
    assert_eq!(chain_info.best_number, 0);
    assert_eq!(chain_info.best_hash, B256::zero());
}

#[test]
fn pre_shanghai_block_has_ommers_slot_and_no_withdrawals() {
    let mut db = Database::new();
    assert!(db.put_header(1, header_at(1, 0)));
    assert!(db.put_body_indices(1, StoredBlockBodyIndices { first_tx_num: 0, tx_count: 1 }));
    assert!(db.put_transaction(0, tx_at(0)));
    let provider = ShareableDatabase::new(db, test_chain_spec());

    let block = provider
        .block(BlockHashOrNumber::Number(1))
        .expect("no hard error")
        .expect("block exists");
    assert_eq!(block.body, vec![tx_at(0)]);
    assert_eq!(block.ommers, vec![]);
    assert_eq!(block.withdrawals, None);
}

#[test]
fn post_shanghai_block_has_empty_withdrawals_and_no_ommers() {
    let mut db = Database::new();
    let ts = SHANGHAI_TIME + 500;
    assert!(db.put_header(2, header_at(2, ts)));
    assert!(db.put_body_indices(2, StoredBlockBodyIndices { first_tx_num: 0, tx_count: 0 }));
    assert!(db.put_withdrawals(2, vec![]));
    let provider = ShareableDatabase::new(db, test_chain_spec());

    let block = provider
        .block(BlockHashOrNumber::Number(2))
        .expect("no hard error")
        .expect("block exists");
    assert_eq!(block.withdrawals, Some(vec![]));
    assert_eq!(block.ommers, vec![]);
    let withdrawals = provider
        .withdrawals_by_block(BlockHashOrNumber::Number(2), ts)
        .expect("no hard error");
    assert_eq!(withdrawals, Some(vec![]));
}

#[test]
fn withdrawals_by_block_is_none_before_shanghai() {
    let mut db = Database::new();
    assert!(db.put_header(1, header_at(1, 0)));
    let provider = ShareableDatabase::new(db, test_chain_spec());
    let withdrawals = provider
        .withdrawals_by_block(BlockHashOrNumber::Number(1), 0)
        .expect("no hard error");
    assert_eq!(withdrawals, None);
}

#[test]
fn history_at_best_block_is_latest_view() {
    let mut db = Database::new();
    for n in 0..=10 {
        assert!(db.put_canonical_header(n, hash_of(n)));
    }
    assert!(db.put_stage_checkpoint(StageId::Finish, StageCheckpoint { block_number: 10 }));
    let provider = ShareableDatabase::new(db, test_chain_spec());

    let at_best = provider.history_by_block_number(10).expect("should be ok");
    let latest = provider.latest().expect("should be ok");
    assert_eq!(at_best, latest);
    assert_eq!(at_best, StateProvider::Latest);

    let historical = provider.history_by_block_number(5).expect("should be ok");
    assert_eq!(historical, StateProvider::Historical { lowest_changeset_block: 6 });
}

#[test]
fn history_by_block_hash_uses_same_changeset_offset() {
    let mut db = Database::new();
    for n in 0..=10 {
        assert!(db.put_canonical_header(n, hash_of(n)));
        assert!(db.put_header_number(hash_of(n), n));
    }
    assert!(db.put_stage_checkpoint(StageId::Finish, StageCheckpoint { block_number: 10 }));
    let provider = ShareableDatabase::new(db, test_chain_spec());

    assert_eq!(
        provider.history_by_block_hash(hash_of(10)).expect("known hash"),
        StateProvider::Latest
    );
    assert_eq!(
        provider.history_by_block_hash(hash_of(5)).expect("known hash"),
        StateProvider::Historical { lowest_changeset_block: 6 }
    );
}

#[test]
fn unknown_hash_fails_historical_state_construction() {
    let db = Database::new();
    let provider = ShareableDatabase::new(db, test_chain_spec());
    let missing = B256 { w0: 123, w1: 0, w2: 0, w3: 0 };
    assert_eq!(
        provider.history_by_block_hash(missing),
        Err(ProviderError::BlockHashNotFound(missing))
    );
}

#[test]
fn tx_meta_reports_block_and_intra_block_index() {
    let mut db = Database::new();
    assert!(db.put_header(7, header_at(7, 0)));
    assert!(db.put_canonical_header(7, hash_of(7)));
    assert!(db.put_body_indices(7, StoredBlockBodyIndices { first_tx_num: 10, tx_count: 5 }));
    for id in 10..15 {
        assert!(db.put_transaction(id, tx_at(id)));
        assert!(db.put_tx_hash_number(tx_at(id).hash, id));
    }
    assert!(db.put_transaction_block(14, 7));
    let provider = ShareableDatabase::new(db, test_chain_spec());

    let wanted = tx_at(13);
    let (tx, meta) = provider
        .transaction_by_hash_with_meta(wanted.hash)
        .expect("no hard error")
        .expect("transaction is known");
    assert_eq!(tx, wanted);
    assert_eq!(meta.index, 3);
    assert_eq!(meta.block_number, 7);
    assert_eq!(meta.block_hash, hash_of(7));
    assert_eq!(meta.tx_hash, wanted.hash);
    assert_eq!(meta.base_fee, Some(7));

    // The index law, checked on values: the block's list holds the same
    // transaction at the reported position.
    let txs = provider
        .transactions_by_block(BlockHashOrNumber::Number(meta.block_number))
        .expect("no hard error")
        .expect("body exists");
    assert_eq!(txs[meta.index as usize], wanted);
}

#[test]
fn headers_range_is_exact_and_ascending() {
    let mut db = Database::new();
    for n in 0..10 {
        assert!(db.put_header(n, header_at(n, n * 12)));
    }
    let provider = ShareableDatabase::new(db, test_chain_spec());

    let headers = provider.headers_range(3, 6).expect("should be ok");
    assert_eq!(
        headers,
        vec![header_at(3, 36), header_at(4, 48), header_at(5, 60)]
    );
}

#[test]
fn canonical_round_trip_on_values() {
    let mut db = Database::new();
    for n in 0..5 {
        assert!(db.put_canonical_header(n, hash_of(n)));
        assert!(db.put_header_number(hash_of(n), n));
    }
    let provider = ShareableDatabase::new(db, test_chain_spec());

    for n in 0..5 {
        let hash = provider.block_hash(n).expect("should be ok").expect("canonical");
        assert_eq!(provider.block_number(hash).expect("should be ok"), Some(n));
    }
}

#[test]
fn body_range_counts_match_for_transactions_and_receipts() {
    let mut db = Database::new();
    assert!(db.put_header(3, header_at(3, 0)));
    assert!(db.put_body_indices(3, StoredBlockBodyIndices { first_tx_num: 4, tx_count: 3 }));
    for id in 4..7 {
        assert!(db.put_transaction(id, tx_at(id)));
        assert!(db.put_receipt(id, Receipt { success: true, cumulative_gas_used: 21_000 * id }));
    }
    let provider = ShareableDatabase::new(db, test_chain_spec());

    let txs = provider
        .transactions_by_block(BlockHashOrNumber::Number(3))
        .expect("no hard error")
        .expect("body exists");
    let receipts = provider
        .receipts_by_block(BlockHashOrNumber::Number(3))
        .expect("no hard error")
        .expect("body exists");
    assert_eq!(txs.len(), 3);
    assert_eq!(receipts.len(), 3);
    assert_eq!(receipts[1], Receipt { success: true, cumulative_gas_used: 21_000 * 5 });
}

#[test]
fn block_with_header_but_no_body_indices_is_a_hard_error() {
    let mut db = Database::new();
    assert!(db.put_header(4, header_at(4, 0)));
    let provider = ShareableDatabase::new(db, test_chain_spec());
    assert_eq!(
        provider.block(BlockHashOrNumber::Number(4)),
        Err(ProviderError::BlockBodyIndicesNotFound(4))
    );
}

#[test]
fn sealed_header_without_canonical_entry_is_a_hard_error() {
    let mut db = Database::new();
    assert!(db.put_header(5, header_at(5, 0)));
    let provider = ShareableDatabase::new(db, test_chain_spec());
    assert_eq!(
        provider.sealed_header(5),
        Err(ProviderError::HeaderNotFound(BlockHashOrNumber::Number(5)))
    );
    // Without even a header the answer is a soft None.
    assert_eq!(provider.sealed_header(6), Ok(None));
}

#[test]
fn sealed_headers_range_seals_each_header() {
    let mut db = Database::new();
    for n in 0..4 {
        assert!(db.put_header(n, header_at(n, 0)));
        assert!(db.put_canonical_header(n, hash_of(n)));
    }
    let provider = ShareableDatabase::new(db, test_chain_spec());
    let sealed = provider.sealed_headers_range(1, 3).expect("all canonical");
    assert_eq!(sealed.len(), 2);
    assert_eq!(sealed[0].header, header_at(1, 0));
    assert_eq!(sealed[0].hash, hash_of(1));
    assert_eq!(sealed[1].hash, hash_of(2));
}

#[test]
fn sealed_headers_range_fails_on_first_missing_hash() {
    let mut db = Database::new();
    assert!(db.put_header(0, header_at(0, 0)));
    assert!(db.put_header(1, header_at(1, 0)));
    assert!(db.put_canonical_header(0, hash_of(0)));
    let provider = ShareableDatabase::new(db, test_chain_spec());
    assert_eq!(
        provider.sealed_headers_range(0, 2),
        Err(ProviderError::HeaderNotFound(BlockHashOrNumber::Number(1)))
    );
}

#[test]
fn canonical_hashes_range_walks_the_interval() {
    let mut db = Database::new();
    for n in 0..6 {
        assert!(db.put_canonical_header(n, hash_of(n)));
    }
    let provider = ShareableDatabase::new(db, test_chain_spec());
    let hashes = provider.canonical_hashes_range(2, 5).expect("should be ok");
    assert_eq!(hashes, vec![hash_of(2), hash_of(3), hash_of(4)]);
}

#[test]
fn transactions_by_block_range_keeps_order_and_empty_blocks() {
    let mut db = Database::new();
    assert!(db.put_body_indices(1, StoredBlockBodyIndices { first_tx_num: 0, tx_count: 2 }));
    assert!(db.put_body_indices(2, StoredBlockBodyIndices { first_tx_num: 2, tx_count: 0 }));
    assert!(db.put_body_indices(3, StoredBlockBodyIndices { first_tx_num: 2, tx_count: 1 }));
    for id in 0..3 {
        assert!(db.put_transaction(id, tx_at(id)));
    }
    let provider = ShareableDatabase::new(db, test_chain_spec());
    let lists = provider.transactions_by_block_range(1, 4).expect("should be ok");
    assert_eq!(lists, vec![vec![tx_at(0), tx_at(1)], vec![], vec![tx_at(2)]]);
}

#[test]
fn ommers_distinguishes_absent_from_empty() {
    let mut db = Database::new();
    assert!(db.put_ommers(2, vec![]));
    assert!(db.put_ommers(3, vec![header_at(1, 0)]));
    let provider = ShareableDatabase::new(db, test_chain_spec());
    assert_eq!(provider.ommers(BlockHashOrNumber::Number(1)), Ok(None));
    assert_eq!(provider.ommers(BlockHashOrNumber::Number(2)), Ok(Some(vec![])));
    assert_eq!(
        provider.ommers(BlockHashOrNumber::Number(3)),
        Ok(Some(vec![header_at(1, 0)]))
    );
}

#[test]
fn latest_withdrawal_is_last_of_last_block() {
    let w = |i: u64| Withdrawal {
        index: i,
        validator_index: 7,
        address: B256::zero(),
        amount: 1_000 + i,
    };
    let mut db = Database::new();
    assert!(db.put_withdrawals(5, vec![w(0), w(1)]));
    assert!(db.put_withdrawals(6, vec![w(2), w(3)]));
    let provider = ShareableDatabase::new(db, test_chain_spec());
    assert_eq!(provider.latest_withdrawal(), Ok(Some(w(3))));

    let empty_db = Database::new();
    let empty_provider = ShareableDatabase::new(empty_db, test_chain_spec());
    assert_eq!(empty_provider.latest_withdrawal(), Ok(None));
}

#[test]
fn find_block_by_hash_only_serves_database_sources() {
    let mut db = Database::new();
    assert!(db.put_header(1, header_at(1, 0)));
    assert!(db.put_header_number(hash_of(1), 1));
    assert!(db.put_body_indices(1, StoredBlockBodyIndices { first_tx_num: 0, tx_count: 0 }));
    let provider = ShareableDatabase::new(db, test_chain_spec());

    let from_db = provider
        .find_block_by_hash(hash_of(1), BlockSource::Database)
        .expect("no hard error");
    assert!(from_db.is_some());
    let from_any = provider
        .find_block_by_hash(hash_of(1), BlockSource::Any)
        .expect("no hard error");
    assert_eq!(from_db, from_any);
    let from_pending = provider
        .find_block_by_hash(hash_of(1), BlockSource::Pending)
        .expect("no hard error");
    assert_eq!(from_pending, None);
    assert_eq!(provider.pending_block(), Ok(None));
}

#[test]
fn transaction_lookups_compose() {
    let mut db = Database::new();
    for id in 0..4 {
        assert!(db.put_transaction(id, tx_at(id)));
        assert!(db.put_tx_hash_number(tx_at(id).hash, id));
        assert!(db.put_receipt(id, Receipt { success: id % 2 == 0, cumulative_gas_used: id }));
    }
    let provider = ShareableDatabase::new(db, test_chain_spec());

    assert_eq!(provider.transaction_id(tx_at(2).hash), Ok(Some(2)));
    assert_eq!(provider.transaction_by_id(2), Ok(Some(tx_at(2))));
    assert_eq!(provider.transaction_by_hash(tx_at(2).hash), Ok(Some(tx_at(2))));
    assert_eq!(
        provider.receipt_by_hash(tx_at(2).hash),
        Ok(Some(Receipt { success: true, cumulative_gas_used: 2 }))
    );
    let unknown = B256 { w0: 999, w1: 0, w2: 0, w3: 0 };
    assert_eq!(provider.transaction_by_hash(unknown), Ok(None));
    assert_eq!(provider.receipt_by_hash(unknown), Ok(None));
}

#[test]
fn transaction_block_seeks_the_range_marker() {
    let mut db = Database::new();
    assert!(db.put_transaction_block(4, 1));
    assert!(db.put_transaction_block(9, 2));
    let provider = ShareableDatabase::new(db, test_chain_spec());
    assert_eq!(provider.transaction_block(0), Ok(Some(1)));
    assert_eq!(provider.transaction_block(4), Ok(Some(1)));
    assert_eq!(provider.transaction_block(5), Ok(Some(2)));
    assert_eq!(provider.transaction_block(9), Ok(Some(2)));
    assert_eq!(provider.transaction_block(10), Ok(None));
}

#[test]
fn chain_info_reports_best_hash_and_number() {
    let mut db = Database::new();
    for n in 0..=10 {
        assert!(db.put_canonical_header(n, hash_of(n)));
    }
    assert!(db.put_stage_checkpoint(StageId::Finish, StageCheckpoint { block_number: 10 }));
    let provider = ShareableDatabase::new(db, test_chain_spec());
    let info = provider.chain_info().expect("should be ok");
    assert_eq!(info.best_number, 10);
    assert_eq!(info.best_hash, hash_of(10));
    assert_eq!(provider.best_block_number(), Ok(10));
    assert_eq!(
        provider.get_stage_checkpoint(StageId::Finish),
        Ok(Some(StageCheckpoint { block_number: 10 }))
    );
    assert_eq!(provider.get_stage_checkpoint(StageId::Bodies), Ok(None));
}

#[test]
fn header_queries_resolve_hashes_and_numbers() {
    let mut db = Database::new();
    assert!(db.put_header(1, header_at(1, 12)));
    assert!(db.put_header_number(hash_of(1), 1));
    assert!(db.put_header_td(1, U256 { w0: 500, w1: 0, w2: 0, w3: 0 }));
    let provider = ShareableDatabase::new(db, test_chain_spec());

    assert_eq!(provider.header(&hash_of(1)), Ok(Some(header_at(1, 12))));
    assert_eq!(provider.header_by_number(1), Ok(Some(header_at(1, 12))));
    assert_eq!(
        provider.header_td(&hash_of(1)),
        Ok(Some(U256 { w0: 500, w1: 0, w2: 0, w3: 0 }))
    );
    assert_eq!(
        provider.header_td_by_number(1),
        Ok(Some(U256 { w0: 500, w1: 0, w2: 0, w3: 0 }))
    );
    let unknown = B256 { w0: 404, w1: 0, w2: 0, w3: 0 };
    assert_eq!(provider.header(&unknown), Ok(None));
}

#[test]
fn revm_spec_picks_the_newest_active_fork() {
    let spec = test_chain_spec();
    let head = |number: u64, timestamp: u64, td: u64| Head {
        number,
        hash: B256::zero(),
        timestamp,
        difficulty: U256 { w0: 0, w1: 0, w2: 0, w3: 0 },
        total_difficulty: U256 { w0: td, w1: 0, w2: 0, w3: 0 },
    };
    assert_eq!(revm_spec(&spec, &head(0, 0, 0)), SpecId::Frontier);
    assert_eq!(revm_spec(&spec, &head(2, 0, 0)), SpecId::Homestead);
    assert_eq!(revm_spec(&spec, &head(5, 0, 0)), SpecId::Byzantium);
    assert_eq!(revm_spec(&spec, &head(9, 0, 0)), SpecId::London);
    assert_eq!(revm_spec(&spec, &head(9, 0, 1000)), SpecId::Merge);
    assert_eq!(revm_spec(&spec, &head(9, SHANGHAI_TIME, 1000)), SpecId::Shanghai);
}

#[test]
fn fill_block_env_applies_post_merge_rules() {
    let mut db = Database::new();
    let header = header_at(9, SHANGHAI_TIME + 1);
    assert!(db.put_header(9, header));
    assert!(db.put_header_td(9, U256 { w0: 2000, w1: 0, w2: 0, w3: 0 }));
    let provider = ShareableDatabase::new(db, test_chain_spec());

    let mut block_env = BlockEnv::new();
    provider
        .fill_block_env_with_header(&mut block_env, &header)
        .expect("td on record");
    assert_eq!(block_env.number, 9);
    assert_eq!(block_env.coinbase, header.beneficiary);
    assert_eq!(block_env.timestamp, SHANGHAI_TIME + 1);
    assert_eq!(block_env.prevrandao, Some(header.mix_hash));
    assert_eq!(block_env.difficulty, U256 { w0: 0, w1: 0, w2: 0, w3: 0 });
    assert_eq!(block_env.basefee, 7);
    assert_eq!(block_env.gas_limit, 30_000_000);
}

#[test]
fn fill_block_env_keeps_difficulty_before_merge() {
    let mut db = Database::new();
    let header = header_at(2, 0);
    assert!(db.put_header(2, header));
    assert!(db.put_header_td(2, U256 { w0: 20, w1: 0, w2: 0, w3: 0 }));
    let provider = ShareableDatabase::new(db, test_chain_spec());

    let mut block_env = BlockEnv::new();
    provider
        .fill_block_env_with_header(&mut block_env, &header)
        .expect("td on record");
    assert_eq!(block_env.prevrandao, None);
    assert_eq!(block_env.difficulty, header.difficulty);
}

#[test]
fn fill_env_at_resolves_and_fills_both_envs() {
    let mut db = Database::new();
    let header = header_at(3, 0);
    assert!(db.put_header(3, header));
    assert!(db.put_canonical_header(3, hash_of(3)));
    assert!(db.put_header_number(hash_of(3), 3));
    assert!(db.put_header_td(3, U256 { w0: 30, w1: 0, w2: 0, w3: 0 }));
    let provider = ShareableDatabase::new(db, test_chain_spec());

    let mut cfg = CfgEnv::new();
    let mut block_env = BlockEnv::new();
    provider
        .fill_env_at(&mut cfg, &mut block_env, BlockHashOrNumber::Number(3))
        .expect("block is known");
    assert_eq!(cfg.chain_id, 1);
    assert_eq!(cfg.spec_id, SpecId::Homestead);
    assert_eq!(block_env.number, 3);

    let mut cfg2 = CfgEnv::new();
    let mut block_env2 = BlockEnv::new();
    assert_eq!(
        provider.fill_env_at(&mut cfg2, &mut block_env2, BlockHashOrNumber::Number(4)),
        Err(ProviderError::HeaderNotFound(BlockHashOrNumber::Number(4)))
    );
    assert_eq!(cfg2, CfgEnv::new());
}

#[test]
fn fill_env_with_header_needs_total_difficulty() {
    let mut db = Database::new();
    let header = header_at(6, 0);
    assert!(db.put_header(6, header));
    let provider = ShareableDatabase::new(db, test_chain_spec());

    let mut cfg = CfgEnv::new();
    let mut block_env = BlockEnv::new();
    assert_eq!(
        provider.fill_env_with_header(&mut cfg, &mut block_env, &header),
        Err(ProviderError::HeaderNotFound(BlockHashOrNumber::Number(6)))
    );
    let mut cfg_only = CfgEnv::new();
    assert_eq!(
        provider.fill_cfg_env_with_header(&mut cfg_only, &header),
        Err(ProviderError::HeaderNotFound(BlockHashOrNumber::Number(6)))
    );
    let mut block_only = BlockEnv::new();
    assert_eq!(
        provider.fill_block_env_at(&mut block_only, BlockHashOrNumber::Number(6)),
        Err(ProviderError::HeaderNotFound(BlockHashOrNumber::Number(6)))
    );
    let mut cfg_at = CfgEnv::new();
    assert_eq!(
        provider.fill_cfg_env_at(&mut cfg_at, BlockHashOrNumber::Number(6)),
        Err(ProviderError::HeaderNotFound(BlockHashOrNumber::Number(6)))
    );
}

#[test]
fn u256_comparison_orders_by_value() {
    let small = U256 { w0: u64::MAX, w1: 0, w2: 0, w3: 0 };
    let big = U256 { w0: 0, w1: 1, w2: 0, w3: 0 };
    assert!(big.ge(&small));
    assert!(!small.ge(&big));
    assert!(small.ge(&small));
    assert!(U256::from_u64(7).ge(&U256::zero()));
}

#[test]
fn diverging_best_oracles_never_promote_to_latest() {
    // The Finish checkpoint says 10, but the canonical tip is still 9, as
    // mid-pipeline: a query at either number must stay historical.
    let mut db = Database::new();
    for n in 0..=9 {
        assert!(db.put_canonical_header(n, hash_of(n)));
    }
    assert!(db.put_stage_checkpoint(StageId::Finish, StageCheckpoint { block_number: 10 }));
    let provider = ShareableDatabase::new(db, test_chain_spec());

    assert_eq!(
        provider.history_by_block_number(10).expect("should be ok"),
        StateProvider::Historical { lowest_changeset_block: 11 }
    );
    assert_eq!(
        provider.history_by_block_number(9).expect("should be ok"),
        StateProvider::Historical { lowest_changeset_block: 10 }
    );
}

#[test]
fn non_canonical_header_is_served_by_hash_but_never_sealed() {
    // A side-chain header is known to HeaderNumbers and Headers, but has no
    // canonical entry at its height.
    let mut db = Database::new();
    let side = B256 { w0: 5000, w1: 0, w2: 0, w3: 0 };
    assert!(db.put_header(4, header_at(4, 0)));
    assert!(db.put_header_number(side, 4));
    let provider = ShareableDatabase::new(db, test_chain_spec());

    assert_eq!(provider.header(&side), Ok(Some(header_at(4, 0))));
    assert_eq!(
        provider.sealed_header(4),
        Err(ProviderError::HeaderNotFound(BlockHashOrNumber::Number(4)))
    );
}

#[test]
fn stage_checkpoints_are_read_per_stage() {
    let mut db = Database::new();
    assert!(db.put_stage_checkpoint(StageId::Headers, StageCheckpoint { block_number: 42 }));
    assert!(db.put_stage_checkpoint(StageId::Finish, StageCheckpoint { block_number: 40 }));
    // A stage can be recorded once.
    assert!(!db.put_stage_checkpoint(StageId::Finish, StageCheckpoint { block_number: 41 }));
    assert_eq!(
        chain_provider::provider::get_stage_checkpoint(&db, StageId::Headers),
        Some(StageCheckpoint { block_number: 42 })
    );
    assert_eq!(
        chain_provider::provider::get_stage_checkpoint(&db, StageId::Execution),
        None
    );
    let provider = ShareableDatabase::new(db, test_chain_spec());
    assert_eq!(provider.best_block_number(), Ok(40));
}

#[test]
fn builders_append_in_key_order_only() {
    let mut db = Database::new();
    assert!(db.put_header(5, header_at(5, 0)));
    assert!(!db.put_header(5, header_at(5, 0)));
    assert!(!db.put_header(4, header_at(4, 0)));
    assert!(db.put_header(6, header_at(6, 0)));
    assert!(db.put_header_number(hash_of(6), 6));
    assert!(!db.put_header_number(hash_of(6), 6));
    assert!(!db.put_header_number(hash_of(7), u64::MAX));
}
