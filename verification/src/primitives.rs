//! Plain data types of the chain: hashes, headers, transactions, receipts,
//! withdrawals, blocks, and the small records the provider hands out.
//!
//! A 32-byte word is modelled as four 64-bit limbs, least significant first,
//! so that equality and ordering are plain field arithmetic.

use vstd::prelude::*;

verus! {

/// A 256-bit word (block hash, transaction hash, address padding, difficulty).
/// Limb `w0` is least significant.
#[derive(Clone, Copy, Debug, PartialEq, Eq, Structural, Hash)]
pub struct B256 {
    pub w0: u64,
    pub w1: u64,
    pub w2: u64,
    pub w3: u64,
}

impl B256 {
    /// The all-zero word: the hash an empty chain reports as its best hash.
    pub fn zero() -> (r: B256)
        ensures
            r == B256::spec_zero(),
    {
        B256 { w0: 0, w1: 0, w2: 0, w3: 0 }
    }

    pub open spec fn spec_zero() -> B256 {
        B256 { w0: 0, w1: 0, w2: 0, w3: 0 }
    }
}

/// A 256-bit unsigned integer (total difficulty). Limb `w0` is least
/// significant.
#[derive(Clone, Copy, Debug, PartialEq, Eq, Structural, Hash)]
pub struct U256 {
    pub w0: u64,
    pub w1: u64,
    pub w2: u64,
    pub w3: u64,
}

impl U256 {
    /// The mathematical value of the four limbs.
    pub open spec fn as_nat(self) -> nat {
        (self.w0 + self.w1 * 0x10000000000000000 + self.w2 * 0x100000000000000000000000000000000
            + self.w3 * 0x1000000000000000000000000000000000000000000000000) as nat
    }

    pub fn zero() -> (r: U256)
        ensures
            r.as_nat() == 0,
    {
        U256 { w0: 0, w1: 0, w2: 0, w3: 0 }
    }

    pub fn from_u64(v: u64) -> (r: U256)
        ensures
            r.as_nat() == v,
    {
        U256 { w0: v, w1: 0, w2: 0, w3: 0 }
    }

    /// Limb-wise comparison, most significant limb first.
    pub fn ge(&self, other: &U256) -> (r: bool)
        ensures
            r == (self.as_nat() >= other.as_nat()),
    {
        proof {
            lemma_u256_limb_order(*self, *other);
        }
        if self.w3 != other.w3 {
            self.w3 > other.w3
        } else if self.w2 != other.w2 {
            self.w2 > other.w2
        } else if self.w1 != other.w1 {
            self.w1 > other.w1
        } else {
            self.w0 >= other.w0
        }
    }
}

/// The lexicographic order on limbs agrees with the order on values.
proof fn lemma_u256_limb_order(a: U256, b: U256)
    ensures
        a.w3 > b.w3 ==> a.as_nat() > b.as_nat(),
        a.w3 == b.w3 && a.w2 > b.w2 ==> a.as_nat() > b.as_nat(),
        a.w3 == b.w3 && a.w2 == b.w2 && a.w1 > b.w1 ==> a.as_nat() > b.as_nat(),
        a.w3 == b.w3 && a.w2 == b.w2 && a.w1 == b.w1 ==> (a.as_nat() >= b.as_nat() <==> a.w0
            >= b.w0),
{
    if a.w3 > b.w3 {
        assert(a.w3 * 0x1000000000000000000000000000000000000000000000000 >= (b.w3 + 1)
            * 0x1000000000000000000000000000000000000000000000000) by (nonlinear_arith)
            requires
                a.w3 >= b.w3 + 1,
        ;
    }
    if a.w3 == b.w3 && a.w2 > b.w2 {
        assert(a.w2 * 0x100000000000000000000000000000000 >= (b.w2 + 1)
            * 0x100000000000000000000000000000000) by (nonlinear_arith)
            requires
                a.w2 >= b.w2 + 1,
        ;
    }
    if a.w3 == b.w3 && a.w2 == b.w2 && a.w1 > b.w1 {
        assert(a.w1 * 0x10000000000000000 >= (b.w1 + 1) * 0x10000000000000000) by (nonlinear_arith)
            requires
                a.w1 >= b.w1 + 1,
        ;
    }
}

/// A block header record, as stored in the `Headers` table.
#[derive(Clone, Copy, Debug, PartialEq, Eq, Structural)]
pub struct Header {
    pub parent_hash: B256,
    pub number: u64,
    pub timestamp: u64,
    pub gas_limit: u64,
    pub beneficiary: B256,
    pub difficulty: U256,
    pub mix_hash: B256,
    pub base_fee_per_gas: Option<u64>,
}

/// A header together with its canonical 32-byte hash.
#[derive(Clone, Copy, Debug, PartialEq, Eq, Structural)]
pub struct SealedHeader {
    pub header: Header,
    pub hash: B256,
}

/// A signed transaction record, as stored in the `Transactions` table.
#[derive(Clone, Copy, Debug, PartialEq, Eq, Structural)]
pub struct TransactionSigned {
    pub hash: B256,
    pub nonce: u64,
    pub gas_limit: u64,
    pub to: B256,
    pub value: u64,
}

/// A transaction receipt, keyed by the same transaction number as the body.
#[derive(Clone, Copy, Debug, PartialEq, Eq, Structural)]
pub struct Receipt {
    pub success: bool,
    pub cumulative_gas_used: u64,
}

/// A validator withdrawal record, present from the Shanghai fork on.
#[derive(Clone, Copy, Debug, PartialEq, Eq, Structural)]
pub struct Withdrawal {
    pub index: u64,
    pub validator_index: u64,
    pub address: B256,
    pub amount: u64,
}

/// The transaction-number range of a block: the half-open interval
/// `[first_tx_num, first_tx_num + tx_count)` of the `Transactions` table.
#[derive(Clone, Copy, Debug, PartialEq, Eq, Structural)]
pub struct StoredBlockBodyIndices {
    pub first_tx_num: u64,
    pub tx_count: u64,
}

impl StoredBlockBodyIndices {
    pub fn first_tx_num(&self) -> (r: u64)
        ensures
            r == self.first_tx_num,
    {
        self.first_tx_num
    }

    pub fn tx_count(&self) -> (r: u64)
        ensures
            r == self.tx_count,
    {
        self.tx_count
    }

    /// One past the last transaction number of the block.
    pub open spec fn spec_end_tx_num(self) -> int {
        self.first_tx_num + self.tx_count
    }
}

/// A full block as the facade assembles it: header, body, and the fork-era
/// exclusive ommers / withdrawals.
#[derive(Clone, Debug, PartialEq, Eq)]
pub struct Block {
    pub header: Header,
    pub body: Vec<TransactionSigned>,
    pub ommers: Vec<Header>,
    pub withdrawals: Option<Vec<Withdrawal>>,
}

/// The mathematical view of an assembled block: header, body sequence, and
/// the fork-era exclusive ommers / withdrawals.
pub ghost struct BlockView {
    pub header: Header,
    pub body: Seq<TransactionSigned>,
    pub ommers: Seq<Header>,
    pub withdrawals: Option<Seq<Withdrawal>>,
}

impl View for Block {
    type V = BlockView;

    open spec fn view(&self) -> BlockView {
        BlockView {
            header: self.header,
            body: self.body@,
            ommers: self.ommers@,
            withdrawals: match self.withdrawals {
                Some(w) => Some(w@),
                None => None,
            },
        }
    }
}

/// A sealed block: only ever reported as absent by this core (no pending
/// blocks), but part of the facade's surface.
#[derive(Clone, Debug, PartialEq, Eq)]
pub struct SealedBlock {
    pub header: SealedHeader,
    pub body: Vec<TransactionSigned>,
    pub ommers: Vec<Header>,
    pub withdrawals: Option<Vec<Withdrawal>>,
}

/// Where a transaction sits in the canonical chain.
#[derive(Clone, Copy, Debug, PartialEq, Eq, Structural)]
pub struct TransactionMeta {
    pub tx_hash: B256,
    pub index: u64,
    pub block_hash: B256,
    pub block_number: u64,
    pub base_fee: Option<u64>,
}

/// The tip of the canonical chain as the provider reports it.
#[derive(Clone, Copy, Debug, PartialEq, Eq, Structural)]
pub struct ChainInfo {
    pub best_hash: B256,
    pub best_number: u64,
}

/// A block designator: either a 32-byte hash or a block number.
#[derive(Clone, Copy, Debug, PartialEq, Eq, Structural)]
pub enum BlockHashOrNumber {
    Hash(B256),
    Number(u64),
}

/// Where a block lookup may search. The database serves `Any` and `Database`;
/// this core has no pending blocks.
#[derive(Clone, Copy, Debug, PartialEq, Eq, Structural)]
pub enum BlockSource {
    Any,
    Pending,
    Database,
}

impl BlockSource {
    pub open spec fn spec_is_database(self) -> bool {
        self is Any || self is Database
    }

    pub fn is_database(&self) -> (r: bool)
        ensures
            r == self.spec_is_database(),
    {
        match self {
            BlockSource::Any => true,
            BlockSource::Database => true,
            BlockSource::Pending => false,
        }
    }
}

/// The identifier of a sync-pipeline stage; the checkpoint of the final
/// `Finish` stage is the authoritative best block number.
#[derive(Clone, Copy, Debug, PartialEq, Eq, Structural, Hash)]
pub enum StageId {
    Headers,
    Bodies,
    SenderRecovery,
    Execution,
    Finish,
}

/// The progress record of a pipeline stage.
#[derive(Clone, Copy, Debug, PartialEq, Eq, Structural)]
pub struct StageCheckpoint {
    pub block_number: u64,
}

/// The chain head a fork choice is evaluated against.
#[derive(Clone, Copy, Debug, PartialEq, Eq, Structural)]
pub struct Head {
    pub number: u64,
    pub hash: B256,
    pub timestamp: u64,
    pub difficulty: U256,
    pub total_difficulty: U256,
}

/// The hard failures of the provider. Soft "not present" answers are `None`
/// values, never errors.
#[derive(Clone, Copy, Debug, PartialEq, Eq, Structural)]
pub enum ProviderError {
    /// A header that must exist (environment filling, sealing) is missing.
    HeaderNotFound(BlockHashOrNumber),
    /// A hash could not be resolved while constructing a historical state view.
    BlockHashNotFound(B256),
    /// A header exists but its body indices do not: the database is
    /// inconsistent.
    BlockBodyIndicesNotFound(u64),
}

} // verus!
