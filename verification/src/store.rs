//! The transactional store, modelled: one value of [`Database`] is the
//! consistent snapshot a read transaction observes.
//!
//! Each logical table of the schema is held sorted (number keys) or
//! unique-keyed (hash and stage keys); the typed point-gets, seeks, last-entry
//! reads and range walks that the provider issues are all verified against the
//! table model of [`crate::table`]. Writes are the sync pipeline's job: the
//! store only offers append-style builders that preserve well-formedness.

use vstd::prelude::*;
use crate::primitives::{
    B256, Header, Receipt, StageCheckpoint, StageId, StoredBlockBodyIndices, TransactionSigned,
    U256, Withdrawal,
};
use crate::table::{
    copy_values, lemma_sorted_implies_uniq, sorted_keys, tbl_contains_key, tbl_get,
    tbl_index_of_key, tbl_last, tbl_lookup, tbl_range, tbl_seek, tbl_seek_ge, tbl_walk_range,
    uniq_keys,
};

verus! {

/// The sorted push of a fresh greatest key keeps a table sorted.
proof fn lemma_sorted_push<V>(s: Seq<(u64, V)>, key: u64, value: V)
    requires
        sorted_keys(s),
        s.len() == 0 || s.last().0 < key,
    ensures
        sorted_keys(s.push((key, value))),
{
    let t = s.push((key, value));
    assert forall|i: int, j: int| 0 <= i < j < t.len() implies (#[trigger] t[i]).0 < (
    #[trigger] t[j]).0 by {
        if j < s.len() {
            assert(t[i] == s[i] && t[j] == s[j]);
        } else {
            assert(t[j] == (key, value));
            if i < s.len() - 1 {
                assert(s[i].0 < s[s.len() - 1].0);
            }
            assert(t[i] == s[i]);
        }
    }
}

/// Pushing a fresh key keeps keys unique.
proof fn lemma_uniq_push<K, V>(s: Seq<(K, V)>, key: K, value: V)
    requires
        uniq_keys(s),
        !tbl_contains_key(s, key),
    ensures
        uniq_keys(s.push((key, value))),
{
    let t = s.push((key, value));
    assert forall|i: int, j: int| 0 <= i < j < t.len() implies (#[trigger] t[i]).0 != (
    #[trigger] t[j]).0 by {
        if j < s.len() {
            assert(t[i] == s[i] && t[j] == s[j]);
        } else {
            assert(t[i] == s[i]);
            assert(s[i].0 == key ==> tbl_contains_key(s, key));
        }
    }
}

/// Appends an entry to a number-keyed table if its key exceeds the last one.
fn tbl_append<V>(table: &mut Vec<(u64, V)>, key: u64, value: V) -> (r: bool)
    ensures
        r == (old(table)@.len() == 0 || old(table)@.last().0 < key),
        r ==> final(table)@ == old(table)@.push((key, value)),
        !r ==> final(table)@ == old(table)@,
{
    let n: usize = table.len();
    if n == 0 || table[n - 1].0 < key {
        table.push((key, value));
        true
    } else {
        false
    }
}

/// Point lookup over a unique `B256`-keyed table.
fn hash_tbl_lookup<V: Copy>(table: &Vec<(B256, V)>, key: &B256) -> (r: Option<V>)
    requires
        uniq_keys(table@),
    ensures
        r == tbl_get(table@, *key),
{
    let n: usize = table.len();
    let mut i: usize = 0;
    while i < n
        invariant
            n == table@.len(),
            i <= n,
            uniq_keys(table@),
            forall|j: int| 0 <= j < i ==> (#[trigger] table@[j]).0 != *key,
        decreases n - i,
    {
        if table[i].0 == *key {
            proof {
                crate::table::lemma_tbl_get_index(table@, i as int, *key);
            }
            return Some(table[i].1);
        }
        i += 1;
    }
    proof {
        assert(!tbl_contains_key(table@, *key));
    }
    None
}

/// Membership test over a `B256`-keyed table.
fn hash_tbl_contains<V>(table: &Vec<(B256, V)>, key: &B256) -> (r: bool)
    ensures
        r == tbl_contains_key(table@, *key),
{
    let n: usize = table.len();
    let mut i: usize = 0;
    while i < n
        invariant
            n == table@.len(),
            i <= n,
            forall|j: int| 0 <= j < i ==> (#[trigger] table@[j]).0 != *key,
        decreases n - i,
    {
        if table[i].0 == *key {
            return true;
        }
        i += 1;
    }
    false
}

/// The snapshot of the normalized tables a read transaction sees.
#[derive(Clone)]
pub struct Database {
    headers: Vec<(u64, Header)>,
    canonical_headers: Vec<(u64, B256)>,
    header_numbers: Vec<(B256, u64)>,
    header_td: Vec<(u64, U256)>,
    block_body_indices: Vec<(u64, StoredBlockBodyIndices)>,
    transactions: Vec<(u64, TransactionSigned)>,
    tx_hash_numbers: Vec<(B256, u64)>,
    transaction_blocks: Vec<(u64, u64)>,
    receipts: Vec<(u64, Receipt)>,
    block_ommers: Vec<(u64, Vec<Header>)>,
    block_withdrawals: Vec<(u64, Vec<Withdrawal>)>,
    sync_stages: Vec<(StageId, StageCheckpoint)>,
}

impl Database {
    /// `Headers`: block number to header record.
    pub closed spec fn headers_tbl(self) -> Seq<(u64, Header)> {
        self.headers@
    }

    /// `CanonicalHeaders`: block number to the hash at that height.
    pub closed spec fn canonical_tbl(self) -> Seq<(u64, B256)> {
        self.canonical_headers@
    }

    /// `HeaderNumbers`: header hash to block number, canonical or not.
    pub closed spec fn header_numbers_tbl(self) -> Seq<(B256, u64)> {
        self.header_numbers@
    }

    /// `HeaderTD`: block number to total difficulty.
    pub closed spec fn header_td_tbl(self) -> Seq<(u64, U256)> {
        self.header_td@
    }

    /// `BlockBodyIndices`: block number to its transaction-number range.
    pub closed spec fn body_indices_tbl(self) -> Seq<(u64, StoredBlockBodyIndices)> {
        self.block_body_indices@
    }

    /// `Transactions`: transaction number to signed transaction.
    pub closed spec fn transactions_tbl(self) -> Seq<(u64, TransactionSigned)> {
        self.transactions@
    }

    /// `TxHashNumber`: transaction hash to transaction number.
    pub closed spec fn tx_hash_numbers_tbl(self) -> Seq<(B256, u64)> {
        self.tx_hash_numbers@
    }

    /// `TransactionBlock`: last transaction number of a block to its number.
    pub closed spec fn transaction_blocks_tbl(self) -> Seq<(u64, u64)> {
        self.transaction_blocks@
    }

    /// `Receipts`: transaction number to receipt.
    pub closed spec fn receipts_tbl(self) -> Seq<(u64, Receipt)> {
        self.receipts@
    }

    /// `BlockOmmers`: block number to its list of ommer headers.
    pub closed spec fn ommers_tbl(self) -> Seq<(u64, Seq<Header>)> {
        self.block_ommers@.map_values(|e: (u64, Vec<Header>)| (e.0, e.1@))
    }

    /// `BlockWithdrawals`: block number to its withdrawal list.
    pub closed spec fn withdrawals_tbl(self) -> Seq<(u64, Seq<Withdrawal>)> {
        self.block_withdrawals@.map_values(|e: (u64, Vec<Withdrawal>)| (e.0, e.1@))
    }

    /// `SyncStage`: stage identifier to its checkpoint.
    pub closed spec fn stages_tbl(self) -> Seq<(StageId, StageCheckpoint)> {
        self.sync_stages@
    }

    /// Shape of a well-formed store: ordered cursors demand sorted number
    /// keys, point gets demand unique keys, and two machine limits hold — a
    /// block's transaction range fits in `u64`, and a known block number
    /// leaves room for the changeset key above it.
    pub open spec fn wf(self) -> bool {
        &&& sorted_keys(self.headers_tbl())
        &&& sorted_keys(self.canonical_tbl())
        &&& uniq_keys(self.header_numbers_tbl())
        &&& sorted_keys(self.header_td_tbl())
        &&& sorted_keys(self.body_indices_tbl())
        &&& sorted_keys(self.transactions_tbl())
        &&& uniq_keys(self.tx_hash_numbers_tbl())
        &&& sorted_keys(self.transaction_blocks_tbl())
        &&& sorted_keys(self.receipts_tbl())
        &&& sorted_keys(self.ommers_tbl())
        &&& sorted_keys(self.withdrawals_tbl())
        &&& uniq_keys(self.stages_tbl())
        &&& forall|i: int| 0 <= i < self.body_indices_tbl().len() ==> (
            #[trigger] self.body_indices_tbl()[i]).1.first_tx_num
            + self.body_indices_tbl()[i].1.tx_count <= u64::MAX
        &&& forall|i: int| 0 <= i < self.header_numbers_tbl().len() ==> (
            #[trigger] self.header_numbers_tbl()[i]).1 < u64::MAX
    }

    /// Every table empty.
    pub open spec fn is_empty(self) -> bool {
        &&& self.headers_tbl().len() == 0
        &&& self.canonical_tbl().len() == 0
        &&& self.header_numbers_tbl().len() == 0
        &&& self.header_td_tbl().len() == 0
        &&& self.body_indices_tbl().len() == 0
        &&& self.transactions_tbl().len() == 0
        &&& self.tx_hash_numbers_tbl().len() == 0
        &&& self.transaction_blocks_tbl().len() == 0
        &&& self.receipts_tbl().len() == 0
        &&& self.ommers_tbl().len() == 0
        &&& self.withdrawals_tbl().len() == 0
        &&& self.stages_tbl().len() == 0
    }

    /// A fresh, empty store.
    pub fn new() -> (r: Database)
        ensures
            r.wf(),
            r.is_empty(),
    {
        Database {
            headers: Vec::new(),
            canonical_headers: Vec::new(),
            header_numbers: Vec::new(),
            header_td: Vec::new(),
            block_body_indices: Vec::new(),
            transactions: Vec::new(),
            tx_hash_numbers: Vec::new(),
            transaction_blocks: Vec::new(),
            receipts: Vec::new(),
            block_ommers: Vec::new(),
            block_withdrawals: Vec::new(),
            sync_stages: Vec::new(),
        }
    }

    /// Point get on `Headers`.
    pub fn header(&self, number: u64) -> (r: Option<Header>)
        requires
            self.wf(),
        ensures
            r == tbl_get(self.headers_tbl(), number),
    {
        proof {
            lemma_sorted_implies_uniq(self.headers_tbl());
        }
        tbl_lookup(&self.headers, number)
    }

    /// Point get on `CanonicalHeaders`.
    pub fn canonical_hash(&self, number: u64) -> (r: Option<B256>)
        requires
            self.wf(),
        ensures
            r == tbl_get(self.canonical_tbl(), number),
    {
        proof {
            lemma_sorted_implies_uniq(self.canonical_tbl());
        }
        tbl_lookup(&self.canonical_headers, number)
    }

    /// Point get on `HeaderNumbers`.
    pub fn header_number(&self, hash: &B256) -> (r: Option<u64>)
        requires
            self.wf(),
        ensures
            r == tbl_get(self.header_numbers_tbl(), *hash),
    {
        hash_tbl_lookup(&self.header_numbers, hash)
    }

    /// Point get on `HeaderTD`.
    pub fn td(&self, number: u64) -> (r: Option<U256>)
        requires
            self.wf(),
        ensures
            r == tbl_get(self.header_td_tbl(), number),
    {
        proof {
            lemma_sorted_implies_uniq(self.header_td_tbl());
        }
        tbl_lookup(&self.header_td, number)
    }

    /// Point get on `BlockBodyIndices`.
    pub fn body_indices(&self, number: u64) -> (r: Option<StoredBlockBodyIndices>)
        requires
            self.wf(),
        ensures
            r == tbl_get(self.body_indices_tbl(), number),
    {
        proof {
            lemma_sorted_implies_uniq(self.body_indices_tbl());
        }
        tbl_lookup(&self.block_body_indices, number)
    }

    /// Point get on `Transactions`.
    pub fn transaction(&self, id: u64) -> (r: Option<TransactionSigned>)
        requires
            self.wf(),
        ensures
            r == tbl_get(self.transactions_tbl(), id),
    {
        proof {
            lemma_sorted_implies_uniq(self.transactions_tbl());
        }
        tbl_lookup(&self.transactions, id)
    }

    /// Point get on `TxHashNumber`.
    pub fn tx_number(&self, hash: &B256) -> (r: Option<u64>)
        requires
            self.wf(),
        ensures
            r == tbl_get(self.tx_hash_numbers_tbl(), *hash),
    {
        hash_tbl_lookup(&self.tx_hash_numbers, hash)
    }

    /// Seek on `TransactionBlock`: the range-encoded block lookup.
    pub fn seek_transaction_block(&self, id: u64) -> (r: Option<(u64, u64)>)
        requires
            self.wf(),
        ensures
            r == tbl_seek(self.transaction_blocks_tbl(), id),
    {
        tbl_seek_ge(&self.transaction_blocks, id)
    }

    /// Point get on `Receipts`.
    pub fn receipt(&self, id: u64) -> (r: Option<Receipt>)
        requires
            self.wf(),
        ensures
            r == tbl_get(self.receipts_tbl(), id),
    {
        proof {
            lemma_sorted_implies_uniq(self.receipts_tbl());
        }
        tbl_lookup(&self.receipts, id)
    }

    /// Point get on `BlockOmmers`.
    pub fn ommers(&self, number: u64) -> (r: Option<Vec<Header>>)
        requires
            self.wf(),
        ensures
            match r {
                Some(v) => tbl_get(self.ommers_tbl(), number) == Some(v@),
                None => tbl_get(self.ommers_tbl(), number) is None,
            },
    {
        proof {
            lemma_sorted_implies_uniq(self.ommers_tbl());
        }
        let n: usize = self.block_ommers.len();
        let mut i: usize = 0;
        while i < n
            invariant
                self.wf(),
                n == self.block_ommers@.len(),
                i <= n,
                forall|j: int| 0 <= j < i ==> (#[trigger] self.block_ommers@[j]).0 != number,
            decreases n - i,
        {
            if self.block_ommers[i].0 == number {
                let v = copy_values(&self.block_ommers[i].1);
                proof {
                    lemma_sorted_implies_uniq(self.ommers_tbl());
                    assert(self.ommers_tbl()[i as int].0 == number);
                    crate::table::lemma_tbl_get_index(self.ommers_tbl(), i as int, number);
                }
                return Some(v);
            }
            i += 1;
        }
        proof {
            assert forall|j: int| 0 <= j < self.ommers_tbl().len() implies (
            #[trigger] self.ommers_tbl()[j]).0 != number by {
                assert(self.ommers_tbl()[j].0 == self.block_ommers@[j].0);
            }
            assert(!tbl_contains_key(self.ommers_tbl(), number));
        }
        None
    }

    /// Point get on `BlockWithdrawals`.
    pub fn withdrawals(&self, number: u64) -> (r: Option<Vec<Withdrawal>>)
        requires
            self.wf(),
        ensures
            match r {
                Some(v) => tbl_get(self.withdrawals_tbl(), number) == Some(v@),
                None => tbl_get(self.withdrawals_tbl(), number) is None,
            },
    {
        proof {
            lemma_sorted_implies_uniq(self.withdrawals_tbl());
        }
        let n: usize = self.block_withdrawals.len();
        let mut i: usize = 0;
        while i < n
            invariant
                self.wf(),
                n == self.block_withdrawals@.len(),
                i <= n,
                forall|j: int| 0 <= j < i ==> (#[trigger] self.block_withdrawals@[j]).0 != number,
            decreases n - i,
        {
            if self.block_withdrawals[i].0 == number {
                let v = copy_values(&self.block_withdrawals[i].1);
                proof {
                    lemma_sorted_implies_uniq(self.withdrawals_tbl());
                    assert(self.withdrawals_tbl()[i as int].0 == number);
                    crate::table::lemma_tbl_get_index(self.withdrawals_tbl(), i as int, number);
                }
                return Some(v);
            }
            i += 1;
        }
        proof {
            assert forall|j: int| 0 <= j < self.withdrawals_tbl().len() implies (
            #[trigger] self.withdrawals_tbl()[j]).0 != number by {
                assert(self.withdrawals_tbl()[j].0 == self.block_withdrawals@[j].0);
            }
            assert(!tbl_contains_key(self.withdrawals_tbl(), number));
        }
        None
    }

    /// Point get on `SyncStage`.
    pub fn stage_checkpoint(&self, id: StageId) -> (r: Option<StageCheckpoint>)
        requires
            self.wf(),
        ensures
            r == tbl_get(self.stages_tbl(), id),
    {
        let n: usize = self.sync_stages.len();
        let mut i: usize = 0;
        while i < n
            invariant
                self.wf(),
                n == self.sync_stages@.len(),
                i <= n,
                forall|j: int| 0 <= j < i ==> (#[trigger] self.sync_stages@[j]).0 != id,
            decreases n - i,
        {
            if self.sync_stages[i].0 == id {
                proof {
                    crate::table::lemma_tbl_get_index(self.stages_tbl(), i as int, id);
                }
                return Some(self.sync_stages[i].1);
            }
            i += 1;
        }
        proof {
            assert(!tbl_contains_key(self.stages_tbl(), id));
        }
        None
    }

    /// Last entry of `CanonicalHeaders`.
    pub fn last_canonical(&self) -> (r: Option<(u64, B256)>)
        ensures
            r == tbl_last(self.canonical_tbl()),
    {
        crate::table::tbl_last_entry(&self.canonical_headers)
    }

    /// Last entry of `BlockWithdrawals`.
    pub fn last_block_withdrawals(&self) -> (r: Option<(u64, Vec<Withdrawal>)>)
        ensures
            match r {
                Some(e) => tbl_last(self.withdrawals_tbl()) == Some((e.0, e.1@)),
                None => tbl_last(self.withdrawals_tbl()) is None,
            },
    {
        let n: usize = self.block_withdrawals.len();
        if n == 0 {
            None
        } else {
            let v = copy_values(&self.block_withdrawals[n - 1].1);
            Some((self.block_withdrawals[n - 1].0, v))
        }
    }

    /// Range walk of `Headers` over `[lo, hi)`.
    pub fn headers_in_range(&self, lo: u64, hi: u64) -> (r: Vec<(u64, Header)>)
        ensures
            r@ == tbl_range(self.headers_tbl(), lo as int, hi as int),
    {
        tbl_walk_range(&self.headers, lo, hi)
    }

    /// Range walk of `CanonicalHeaders` over `[lo, hi)`.
    pub fn canonical_in_range(&self, lo: u64, hi: u64) -> (r: Vec<(u64, B256)>)
        ensures
            r@ == tbl_range(self.canonical_tbl(), lo as int, hi as int),
    {
        tbl_walk_range(&self.canonical_headers, lo, hi)
    }

    /// Range walk of `Transactions` over `[lo, hi)`.
    pub fn transactions_in_range(&self, lo: u64, hi: u64) -> (r: Vec<(u64, TransactionSigned)>)
        ensures
            r@ == tbl_range(self.transactions_tbl(), lo as int, hi as int),
    {
        tbl_walk_range(&self.transactions, lo, hi)
    }

    /// Range walk of `Receipts` over `[lo, hi)`.
    pub fn receipts_in_range(&self, lo: u64, hi: u64) -> (r: Vec<(u64, Receipt)>)
        ensures
            r@ == tbl_range(self.receipts_tbl(), lo as int, hi as int),
    {
        tbl_walk_range(&self.receipts, lo, hi)
    }

    /// Range walk of `BlockBodyIndices` over `[lo, hi)`.
    pub fn body_indices_in_range(&self, lo: u64, hi: u64) -> (r: Vec<(
        u64,
        StoredBlockBodyIndices,
    )>)
        ensures
            r@ == tbl_range(self.body_indices_tbl(), lo as int, hi as int),
    {
        tbl_walk_range(&self.block_body_indices, lo, hi)
    }

    /// Appends a header under a fresh greatest block number.
    pub fn put_header(&mut self, number: u64, header: Header) -> (r: bool)
        requires
            old(self).wf(),
        ensures
            final(self).wf(),
            r == (old(self).headers_tbl().len() == 0 || old(self).headers_tbl().last().0
                < number),
            r ==> final(self).headers_tbl() == old(self).headers_tbl().push((number, header)),
            !r ==> final(self).headers_tbl() == old(self).headers_tbl(),
            final(self).canonical_tbl() == old(self).canonical_tbl(),
            final(self).header_numbers_tbl() == old(self).header_numbers_tbl(),
            final(self).header_td_tbl() == old(self).header_td_tbl(),
            final(self).body_indices_tbl() == old(self).body_indices_tbl(),
            final(self).transactions_tbl() == old(self).transactions_tbl(),
            final(self).tx_hash_numbers_tbl() == old(self).tx_hash_numbers_tbl(),
            final(self).transaction_blocks_tbl() == old(self).transaction_blocks_tbl(),
            final(self).receipts_tbl() == old(self).receipts_tbl(),
            final(self).ommers_tbl() == old(self).ommers_tbl(),
            final(self).withdrawals_tbl() == old(self).withdrawals_tbl(),
            final(self).stages_tbl() == old(self).stages_tbl(),
    {
        let r = tbl_append(&mut self.headers, number, header);
        proof {
            if r {
                lemma_sorted_push(old(self).headers_tbl(), number, header);
            }
        }
        r
    }

    /// Appends a canonical hash under a fresh greatest block number.
    pub fn put_canonical_header(&mut self, number: u64, hash: B256) -> (r: bool)
        requires
            old(self).wf(),
        ensures
            final(self).wf(),
            r == (old(self).canonical_tbl().len() == 0 || old(self).canonical_tbl().last().0
                < number),
            r ==> final(self).canonical_tbl() == old(self).canonical_tbl().push((number, hash)),
            !r ==> final(self).canonical_tbl() == old(self).canonical_tbl(),
            final(self).headers_tbl() == old(self).headers_tbl(),
            final(self).header_numbers_tbl() == old(self).header_numbers_tbl(),
            final(self).header_td_tbl() == old(self).header_td_tbl(),
            final(self).body_indices_tbl() == old(self).body_indices_tbl(),
            final(self).transactions_tbl() == old(self).transactions_tbl(),
            final(self).tx_hash_numbers_tbl() == old(self).tx_hash_numbers_tbl(),
            final(self).transaction_blocks_tbl() == old(self).transaction_blocks_tbl(),
            final(self).receipts_tbl() == old(self).receipts_tbl(),
            final(self).ommers_tbl() == old(self).ommers_tbl(),
            final(self).withdrawals_tbl() == old(self).withdrawals_tbl(),
            final(self).stages_tbl() == old(self).stages_tbl(),
    {
        let r = tbl_append(&mut self.canonical_headers, number, hash);
        proof {
            if r {
                lemma_sorted_push(old(self).canonical_tbl(), number, hash);
            }
        }
        r
    }

    /// Records the number of a header hash; the hash must be fresh, and the
    /// number must leave room for the changeset key above it.
    pub fn put_header_number(&mut self, hash: B256, number: u64) -> (r: bool)
        requires
            old(self).wf(),
        ensures
            final(self).wf(),
            r == (!tbl_contains_key(old(self).header_numbers_tbl(), hash) && number < u64::MAX),
            r ==> final(self).header_numbers_tbl() == old(self).header_numbers_tbl().push(
                (hash, number),
            ),
            !r ==> final(self).header_numbers_tbl() == old(self).header_numbers_tbl(),
            final(self).headers_tbl() == old(self).headers_tbl(),
            final(self).canonical_tbl() == old(self).canonical_tbl(),
            final(self).header_td_tbl() == old(self).header_td_tbl(),
            final(self).body_indices_tbl() == old(self).body_indices_tbl(),
            final(self).transactions_tbl() == old(self).transactions_tbl(),
            final(self).tx_hash_numbers_tbl() == old(self).tx_hash_numbers_tbl(),
            final(self).transaction_blocks_tbl() == old(self).transaction_blocks_tbl(),
            final(self).receipts_tbl() == old(self).receipts_tbl(),
            final(self).ommers_tbl() == old(self).ommers_tbl(),
            final(self).withdrawals_tbl() == old(self).withdrawals_tbl(),
            final(self).stages_tbl() == old(self).stages_tbl(),
    {
        if number < u64::MAX && !hash_tbl_contains(&self.header_numbers, &hash) {
            proof {
                lemma_uniq_push(old(self).header_numbers_tbl(), hash, number);
            }
            self.header_numbers.push((hash, number));
            true
        } else {
            false
        }
    }

    /// Appends a total difficulty under a fresh greatest block number.
    pub fn put_header_td(&mut self, number: u64, td: U256) -> (r: bool)
        requires
            old(self).wf(),
        ensures
            final(self).wf(),
            r == (old(self).header_td_tbl().len() == 0 || old(self).header_td_tbl().last().0
                < number),
            r ==> final(self).header_td_tbl() == old(self).header_td_tbl().push((number, td)),
            !r ==> final(self).header_td_tbl() == old(self).header_td_tbl(),
            final(self).headers_tbl() == old(self).headers_tbl(),
            final(self).canonical_tbl() == old(self).canonical_tbl(),
            final(self).header_numbers_tbl() == old(self).header_numbers_tbl(),
            final(self).body_indices_tbl() == old(self).body_indices_tbl(),
            final(self).transactions_tbl() == old(self).transactions_tbl(),
            final(self).tx_hash_numbers_tbl() == old(self).tx_hash_numbers_tbl(),
            final(self).transaction_blocks_tbl() == old(self).transaction_blocks_tbl(),
            final(self).receipts_tbl() == old(self).receipts_tbl(),
            final(self).ommers_tbl() == old(self).ommers_tbl(),
            final(self).withdrawals_tbl() == old(self).withdrawals_tbl(),
            final(self).stages_tbl() == old(self).stages_tbl(),
    {
        let r = tbl_append(&mut self.header_td, number, td);
        proof {
            if r {
                lemma_sorted_push(old(self).header_td_tbl(), number, td);
            }
        }
        r
    }

    /// Appends a block's body indices; the transaction range must fit.
    pub fn put_body_indices(&mut self, number: u64, indices: StoredBlockBodyIndices) -> (r: bool)
        requires
            old(self).wf(),
        ensures
            final(self).wf(),
            r == ((old(self).body_indices_tbl().len() == 0 || old(
                self,
            ).body_indices_tbl().last().0 < number) && indices.first_tx_num + indices.tx_count
                <= u64::MAX),
            r ==> final(self).body_indices_tbl() == old(self).body_indices_tbl().push(
                (number, indices),
            ),
            !r ==> final(self).body_indices_tbl() == old(self).body_indices_tbl(),
            final(self).headers_tbl() == old(self).headers_tbl(),
            final(self).canonical_tbl() == old(self).canonical_tbl(),
            final(self).header_numbers_tbl() == old(self).header_numbers_tbl(),
            final(self).header_td_tbl() == old(self).header_td_tbl(),
            final(self).transactions_tbl() == old(self).transactions_tbl(),
            final(self).tx_hash_numbers_tbl() == old(self).tx_hash_numbers_tbl(),
            final(self).transaction_blocks_tbl() == old(self).transaction_blocks_tbl(),
            final(self).receipts_tbl() == old(self).receipts_tbl(),
            final(self).ommers_tbl() == old(self).ommers_tbl(),
            final(self).withdrawals_tbl() == old(self).withdrawals_tbl(),
            final(self).stages_tbl() == old(self).stages_tbl(),
    {
        if indices.tx_count <= u64::MAX - indices.first_tx_num {
            let r = tbl_append(&mut self.block_body_indices, number, indices);
            proof {
                if r {
                    lemma_sorted_push(old(self).body_indices_tbl(), number, indices);
                }
            }
            r
        } else {
            false
        }
    }

    /// Appends a transaction under a fresh greatest transaction number.
    pub fn put_transaction(&mut self, id: u64, transaction: TransactionSigned) -> (r: bool)
        requires
            old(self).wf(),
        ensures
            final(self).wf(),
            r == (old(self).transactions_tbl().len() == 0 || old(self).transactions_tbl().last().0
                < id),
            r ==> final(self).transactions_tbl() == old(self).transactions_tbl().push(
                (id, transaction),
            ),
            !r ==> final(self).transactions_tbl() == old(self).transactions_tbl(),
            final(self).headers_tbl() == old(self).headers_tbl(),
            final(self).canonical_tbl() == old(self).canonical_tbl(),
            final(self).header_numbers_tbl() == old(self).header_numbers_tbl(),
            final(self).header_td_tbl() == old(self).header_td_tbl(),
            final(self).body_indices_tbl() == old(self).body_indices_tbl(),
            final(self).tx_hash_numbers_tbl() == old(self).tx_hash_numbers_tbl(),
            final(self).transaction_blocks_tbl() == old(self).transaction_blocks_tbl(),
            final(self).receipts_tbl() == old(self).receipts_tbl(),
            final(self).ommers_tbl() == old(self).ommers_tbl(),
            final(self).withdrawals_tbl() == old(self).withdrawals_tbl(),
            final(self).stages_tbl() == old(self).stages_tbl(),
    {
        let r = tbl_append(&mut self.transactions, id, transaction);
        proof {
            if r {
                lemma_sorted_push(old(self).transactions_tbl(), id, transaction);
            }
        }
        r
    }

    /// Records the number of a transaction hash; the hash must be fresh.
    pub fn put_tx_hash_number(&mut self, hash: B256, id: u64) -> (r: bool)
        requires
            old(self).wf(),
        ensures
            final(self).wf(),
            r == !tbl_contains_key(old(self).tx_hash_numbers_tbl(), hash),
            r ==> final(self).tx_hash_numbers_tbl() == old(self).tx_hash_numbers_tbl().push(
                (hash, id),
            ),
            !r ==> final(self).tx_hash_numbers_tbl() == old(self).tx_hash_numbers_tbl(),
            final(self).headers_tbl() == old(self).headers_tbl(),
            final(self).canonical_tbl() == old(self).canonical_tbl(),
            final(self).header_numbers_tbl() == old(self).header_numbers_tbl(),
            final(self).header_td_tbl() == old(self).header_td_tbl(),
            final(self).body_indices_tbl() == old(self).body_indices_tbl(),
            final(self).transactions_tbl() == old(self).transactions_tbl(),
            final(self).transaction_blocks_tbl() == old(self).transaction_blocks_tbl(),
            final(self).receipts_tbl() == old(self).receipts_tbl(),
            final(self).ommers_tbl() == old(self).ommers_tbl(),
            final(self).withdrawals_tbl() == old(self).withdrawals_tbl(),
            final(self).stages_tbl() == old(self).stages_tbl(),
    {
        if !hash_tbl_contains(&self.tx_hash_numbers, &hash) {
            proof {
                lemma_uniq_push(old(self).tx_hash_numbers_tbl(), hash, id);
            }
            self.tx_hash_numbers.push((hash, id));
            true
        } else {
            false
        }
    }

    /// Appends a range marker: the last transaction number of a block.
    pub fn put_transaction_block(&mut self, last_tx_num: u64, number: u64) -> (r: bool)
        requires
            old(self).wf(),
        ensures
            final(self).wf(),
            r == (old(self).transaction_blocks_tbl().len() == 0 || old(
                self,
            ).transaction_blocks_tbl().last().0 < last_tx_num),
            r ==> final(self).transaction_blocks_tbl() == old(self).transaction_blocks_tbl().push(
                (last_tx_num, number),
            ),
            !r ==> final(self).transaction_blocks_tbl() == old(self).transaction_blocks_tbl(),
            final(self).headers_tbl() == old(self).headers_tbl(),
            final(self).canonical_tbl() == old(self).canonical_tbl(),
            final(self).header_numbers_tbl() == old(self).header_numbers_tbl(),
            final(self).header_td_tbl() == old(self).header_td_tbl(),
            final(self).body_indices_tbl() == old(self).body_indices_tbl(),
            final(self).transactions_tbl() == old(self).transactions_tbl(),
            final(self).tx_hash_numbers_tbl() == old(self).tx_hash_numbers_tbl(),
            final(self).receipts_tbl() == old(self).receipts_tbl(),
            final(self).ommers_tbl() == old(self).ommers_tbl(),
            final(self).withdrawals_tbl() == old(self).withdrawals_tbl(),
            final(self).stages_tbl() == old(self).stages_tbl(),
    {
        let r = tbl_append(&mut self.transaction_blocks, last_tx_num, number);
        proof {
            if r {
                lemma_sorted_push(old(self).transaction_blocks_tbl(), last_tx_num, number);
            }
        }
        r
    }

    /// Appends a receipt under a fresh greatest transaction number.
    pub fn put_receipt(&mut self, id: u64, receipt: Receipt) -> (r: bool)
        requires
            old(self).wf(),
        ensures
            final(self).wf(),
            r == (old(self).receipts_tbl().len() == 0 || old(self).receipts_tbl().last().0 < id),
            r ==> final(self).receipts_tbl() == old(self).receipts_tbl().push((id, receipt)),
            !r ==> final(self).receipts_tbl() == old(self).receipts_tbl(),
            final(self).headers_tbl() == old(self).headers_tbl(),
            final(self).canonical_tbl() == old(self).canonical_tbl(),
            final(self).header_numbers_tbl() == old(self).header_numbers_tbl(),
            final(self).header_td_tbl() == old(self).header_td_tbl(),
            final(self).body_indices_tbl() == old(self).body_indices_tbl(),
            final(self).transactions_tbl() == old(self).transactions_tbl(),
            final(self).tx_hash_numbers_tbl() == old(self).tx_hash_numbers_tbl(),
            final(self).transaction_blocks_tbl() == old(self).transaction_blocks_tbl(),
            final(self).ommers_tbl() == old(self).ommers_tbl(),
            final(self).withdrawals_tbl() == old(self).withdrawals_tbl(),
            final(self).stages_tbl() == old(self).stages_tbl(),
    {
        let r = tbl_append(&mut self.receipts, id, receipt);
        proof {
            if r {
                lemma_sorted_push(old(self).receipts_tbl(), id, receipt);
            }
        }
        r
    }

    /// Appends a block's ommer list under a fresh greatest block number.
    pub fn put_ommers(&mut self, number: u64, ommers: Vec<Header>) -> (r: bool)
        requires
            old(self).wf(),
        ensures
            final(self).wf(),
            r == (old(self).ommers_tbl().len() == 0 || old(self).ommers_tbl().last().0 < number),
            r ==> final(self).ommers_tbl() == old(self).ommers_tbl().push((number, ommers@)),
            !r ==> final(self).ommers_tbl() == old(self).ommers_tbl(),
            final(self).headers_tbl() == old(self).headers_tbl(),
            final(self).canonical_tbl() == old(self).canonical_tbl(),
            final(self).header_numbers_tbl() == old(self).header_numbers_tbl(),
            final(self).header_td_tbl() == old(self).header_td_tbl(),
            final(self).body_indices_tbl() == old(self).body_indices_tbl(),
            final(self).transactions_tbl() == old(self).transactions_tbl(),
            final(self).tx_hash_numbers_tbl() == old(self).tx_hash_numbers_tbl(),
            final(self).transaction_blocks_tbl() == old(self).transaction_blocks_tbl(),
            final(self).receipts_tbl() == old(self).receipts_tbl(),
            final(self).withdrawals_tbl() == old(self).withdrawals_tbl(),
            final(self).stages_tbl() == old(self).stages_tbl(),
    {
        let ghost prior = self.ommers_tbl();
        let n: usize = self.block_ommers.len();
        proof {
            if n > 0 {
                assert(prior.last() == (self.block_ommers@.last().0, self.block_ommers@.last().1@));
            }
        }
        if n == 0 || self.block_ommers[n - 1].0 < number {
            self.block_ommers.push((number, ommers));
            proof {
                assert(self.ommers_tbl() =~= prior.push((number, ommers@)));
                lemma_sorted_push(prior, number, ommers@);
            }
            true
        } else {
            false
        }
    }

    /// Appends a block's withdrawal list under a fresh greatest block number.
    pub fn put_withdrawals(&mut self, number: u64, withdrawals: Vec<Withdrawal>) -> (r: bool)
        requires
            old(self).wf(),
        ensures
            final(self).wf(),
            r == (old(self).withdrawals_tbl().len() == 0 || old(self).withdrawals_tbl().last().0
                < number),
            r ==> final(self).withdrawals_tbl() == old(self).withdrawals_tbl().push(
                (number, withdrawals@),
            ),
            !r ==> final(self).withdrawals_tbl() == old(self).withdrawals_tbl(),
            final(self).headers_tbl() == old(self).headers_tbl(),
            final(self).canonical_tbl() == old(self).canonical_tbl(),
            final(self).header_numbers_tbl() == old(self).header_numbers_tbl(),
            final(self).header_td_tbl() == old(self).header_td_tbl(),
            final(self).body_indices_tbl() == old(self).body_indices_tbl(),
            final(self).transactions_tbl() == old(self).transactions_tbl(),
            final(self).tx_hash_numbers_tbl() == old(self).tx_hash_numbers_tbl(),
            final(self).transaction_blocks_tbl() == old(self).transaction_blocks_tbl(),
            final(self).receipts_tbl() == old(self).receipts_tbl(),
            final(self).ommers_tbl() == old(self).ommers_tbl(),
            final(self).stages_tbl() == old(self).stages_tbl(),
    {
        let ghost prior = self.withdrawals_tbl();
        let n: usize = self.block_withdrawals.len();
        proof {
            if n > 0 {
                assert(prior.last() == (
                    self.block_withdrawals@.last().0,
                    self.block_withdrawals@.last().1@,
                ));
            }
        }
        if n == 0 || self.block_withdrawals[n - 1].0 < number {
            self.block_withdrawals.push((number, withdrawals));
            proof {
                assert(self.withdrawals_tbl() =~= prior.push((number, withdrawals@)));
                lemma_sorted_push(prior, number, withdrawals@);
            }
            true
        } else {
            false
        }
    }

    /// Records a stage checkpoint; the stage must not be present yet.
    pub fn put_stage_checkpoint(&mut self, id: StageId, checkpoint: StageCheckpoint) -> (r: bool)
        requires
            old(self).wf(),
        ensures
            final(self).wf(),
            r == !tbl_contains_key(old(self).stages_tbl(), id),
            r ==> final(self).stages_tbl() == old(self).stages_tbl().push((id, checkpoint)),
            !r ==> final(self).stages_tbl() == old(self).stages_tbl(),
            final(self).headers_tbl() == old(self).headers_tbl(),
            final(self).canonical_tbl() == old(self).canonical_tbl(),
            final(self).header_numbers_tbl() == old(self).header_numbers_tbl(),
            final(self).header_td_tbl() == old(self).header_td_tbl(),
            final(self).body_indices_tbl() == old(self).body_indices_tbl(),
            final(self).transactions_tbl() == old(self).transactions_tbl(),
            final(self).tx_hash_numbers_tbl() == old(self).tx_hash_numbers_tbl(),
            final(self).transaction_blocks_tbl() == old(self).transaction_blocks_tbl(),
            final(self).receipts_tbl() == old(self).receipts_tbl(),
            final(self).ommers_tbl() == old(self).ommers_tbl(),
            final(self).withdrawals_tbl() == old(self).withdrawals_tbl(),
    {
        let n: usize = self.sync_stages.len();
        let mut i: usize = 0;
        while i < n
            invariant
                old(self) == self,
                old(self).wf(),
                n == self.sync_stages@.len(),
                i <= n,
                forall|j: int| 0 <= j < i ==> (#[trigger] self.sync_stages@[j]).0 != id,
            decreases n - i,
        {
            if self.sync_stages[i].0 == id {
                return false;
            }
            i += 1;
        }
        proof {
            assert(!tbl_contains_key(self.stages_tbl(), id));
            lemma_uniq_push(old(self).stages_tbl(), id, checkpoint);
        }
        self.sync_stages.push((id, checkpoint));
        true
    }
}

} // verus!
