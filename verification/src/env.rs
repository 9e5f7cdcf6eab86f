//! The EVM environment filler: block-env and config-env records populated at
//! a designated block for stateless execution.
//!
//! The "at" forms resolve a designator to a canonical hash and then a
//! header; the "with header" forms fetch the total difficulty, derive the
//! specification identifier, and fill the records, applying post-merge
//! logic: an inert difficulty and an active prevrandao.

use vstd::prelude::*;
use crate::chain_spec::{revm_spec, spec_revm_spec, ChainSpec, SpecId};
use crate::primitives::{B256, BlockHashOrNumber, Head, Header, ProviderError, U256};
use crate::provider::{spec_block_number, ShareableDatabase};
use crate::store::Database;
use crate::table::tbl_get;

verus! {

/// The per-block execution environment an EVM consumes.
#[derive(Clone, Copy, Debug, PartialEq, Eq, Structural)]
pub struct BlockEnv {
    pub number: u64,
    pub coinbase: B256,
    pub timestamp: u64,
    pub difficulty: U256,
    pub prevrandao: Option<B256>,
    pub basefee: u64,
    pub gas_limit: u64,
}

impl BlockEnv {
    pub open spec fn spec_default() -> BlockEnv {
        BlockEnv {
            number: 0,
            coinbase: B256::spec_zero(),
            timestamp: 0,
            difficulty: U256 { w0: 0, w1: 0, w2: 0, w3: 0 },
            prevrandao: None,
            basefee: 0,
            gas_limit: 0,
        }
    }

    /// An all-zero environment, ready to be filled.
    pub fn new() -> (r: BlockEnv)
        ensures
            r == BlockEnv::spec_default(),
    {
        BlockEnv {
            number: 0,
            coinbase: B256::zero(),
            timestamp: 0,
            difficulty: U256::zero(),
            prevrandao: None,
            basefee: 0,
            gas_limit: 0,
        }
    }
}

/// The chain-level execution configuration an EVM consumes.
#[derive(Clone, Copy, Debug, PartialEq, Eq, Structural)]
pub struct CfgEnv {
    pub chain_id: u64,
    pub spec_id: SpecId,
}

impl CfgEnv {
    pub open spec fn spec_default() -> CfgEnv {
        CfgEnv { chain_id: 0, spec_id: SpecId::Frontier }
    }

    /// A default configuration, ready to be filled.
    pub fn new() -> (r: CfgEnv)
        ensures
            r == CfgEnv::spec_default(),
    {
        CfgEnv { chain_id: 0, spec_id: SpecId::Frontier }
    }
}

/// The head a fork choice is evaluated against when filling at a header:
/// the header's own fields with the stored total difficulty; the head hash
/// plays no role in the decision.
pub open spec fn spec_head_of(header: Header, total_difficulty: U256) -> Head {
    Head {
        number: header.number,
        hash: B256::spec_zero(),
        timestamp: header.timestamp,
        difficulty: header.difficulty,
        total_difficulty,
    }
}

/// Whether the derived specification is at or past the merge.
pub open spec fn spec_after_merge(chain_spec: ChainSpec, header: Header, total_difficulty: U256) -> bool {
    spec_revm_spec(chain_spec, spec_head_of(header, total_difficulty)).spec_rank()
        >= SpecId::Merge.spec_rank()
}

/// The block environment a header fills: post-merge the difficulty field is
/// inert (zero) and prevrandao carries the header's mix hash; before the
/// merge it is the reverse.
pub open spec fn spec_block_env(header: Header, after_merge: bool) -> BlockEnv {
    BlockEnv {
        number: header.number,
        coinbase: header.beneficiary,
        timestamp: header.timestamp,
        difficulty: if after_merge {
            U256 { w0: 0, w1: 0, w2: 0, w3: 0 }
        } else {
            header.difficulty
        },
        prevrandao: if after_merge {
            Some(header.mix_hash)
        } else {
            None
        },
        basefee: match header.base_fee_per_gas {
            Some(fee) => fee,
            None => 0,
        },
        gas_limit: header.gas_limit,
    }
}

/// The configuration a header fills: the chain id and the derived
/// specification identifier.
pub open spec fn spec_cfg_env(chain_spec: ChainSpec, header: Header, total_difficulty: U256) -> CfgEnv {
    CfgEnv {
        chain_id: chain_spec.chain_id,
        spec_id: spec_revm_spec(chain_spec, spec_head_of(header, total_difficulty)),
    }
}

/// Fills the block environment from a header.
pub fn fill_block_env(
    block_env: &mut BlockEnv,
    chain_spec: &ChainSpec,
    header: &Header,
    after_merge: bool,
)
    ensures
        *final(block_env) == spec_block_env(*header, after_merge),
{
    block_env.number = header.number;
    block_env.coinbase = header.beneficiary;
    block_env.timestamp = header.timestamp;
    if after_merge {
        block_env.prevrandao = Some(header.mix_hash);
        block_env.difficulty = U256::zero();
    } else {
        block_env.difficulty = header.difficulty;
        block_env.prevrandao = None;
    }
    block_env.basefee = match header.base_fee_per_gas {
        Some(fee) => fee,
        None => 0,
    };
    block_env.gas_limit = header.gas_limit;
}

/// Fills the configuration environment from a header and its total
/// difficulty.
pub fn fill_cfg_env(
    cfg: &mut CfgEnv,
    chain_spec: &ChainSpec,
    header: &Header,
    total_difficulty: U256,
)
    ensures
        *final(cfg) == spec_cfg_env(*chain_spec, *header, total_difficulty),
{
    let head = Head {
        number: header.number,
        hash: B256::zero(),
        timestamp: header.timestamp,
        difficulty: header.difficulty,
        total_difficulty,
    };
    let spec_id = revm_spec(chain_spec, &head);
    cfg.chain_id = chain_spec.chain_id;
    cfg.spec_id = spec_id;
}

/// Fills both environments from a header and its total difficulty.
pub fn fill_cfg_and_block_env(
    cfg: &mut CfgEnv,
    block_env: &mut BlockEnv,
    chain_spec: &ChainSpec,
    header: &Header,
    total_difficulty: U256,
)
    ensures
        *final(cfg) == spec_cfg_env(*chain_spec, *header, total_difficulty),
        *final(block_env) == spec_block_env(
            *header,
            spec_after_merge(*chain_spec, *header, total_difficulty),
        ),
{
    fill_cfg_env(cfg, chain_spec, header, total_difficulty);
    let head = Head {
        number: header.number,
        hash: B256::zero(),
        timestamp: header.timestamp,
        difficulty: header.difficulty,
        total_difficulty,
    };
    let spec_id = revm_spec(chain_spec, &head);
    let after_merge = spec_id.is_at_least_merge();
    fill_block_env(block_env, chain_spec, header, after_merge);
}

/// A designator resolved to the canonical hash it names: a hash stands for
/// itself, a number goes through `CanonicalHeaders`.
pub open spec fn spec_convert_number(db: Database, id: BlockHashOrNumber) -> Option<B256> {
    match id {
        BlockHashOrNumber::Hash(hash) => Some(hash),
        BlockHashOrNumber::Number(number) => tbl_get(db.canonical_tbl(), number),
    }
}

/// The header the environment filler resolves a designator to; every
/// missing link is the hard `HeaderNotFound` of the designator itself.
pub open spec fn spec_env_header_at(db: Database, at: BlockHashOrNumber) -> Result<
    Header,
    ProviderError,
> {
    match spec_convert_number(db, at) {
        None => Err(ProviderError::HeaderNotFound(at)),
        Some(hash) => match spec_block_number(db, hash) {
            None => Err(ProviderError::HeaderNotFound(at)),
            Some(number) => match tbl_get(db.headers_tbl(), number) {
                None => Err(ProviderError::HeaderNotFound(at)),
                Some(header) => Ok(header),
            },
        },
    }
}

/// The outcome of filling at a header: the stored total difficulty, or the
/// hard error naming the header's number.
pub open spec fn spec_env_td(db: Database, header: Header) -> Result<U256, ProviderError> {
    match tbl_get(db.header_td_tbl(), header.number) {
        None => Err(
            ProviderError::HeaderNotFound(BlockHashOrNumber::Number(header.number)),
        ),
        Some(td) => Ok(td),
    }
}

impl ShareableDatabase {
    /// Resolves a designator to the canonical hash it names.
    pub fn convert_number(&self, id: BlockHashOrNumber) -> (r: Result<Option<B256>, ProviderError>)
        requires
            self.wf(),
        ensures
            r == Ok::<Option<B256>, ProviderError>(spec_convert_number(self.db, id)),
    {
        match id {
            BlockHashOrNumber::Hash(hash) => Ok(Some(hash)),
            BlockHashOrNumber::Number(number) => self.block_hash(number),
        }
    }

    /// Resolves the header the environment filler works from.
    fn env_header_at(&self, at: BlockHashOrNumber) -> (r: Result<Header, ProviderError>)
        requires
            self.wf(),
        ensures
            r == spec_env_header_at(self.db, at),
    {
        let hash = match self.convert_number(at) {
            Ok(Some(hash)) => hash,
            _ => {
                return Err(ProviderError::HeaderNotFound(at));
            },
        };
        match self.header(&hash) {
            Ok(Some(header)) => Ok(header),
            _ => Err(ProviderError::HeaderNotFound(at)),
        }
    }

    /// Fills both environments at a designated block.
    pub fn fill_env_at(
        &self,
        cfg: &mut CfgEnv,
        block_env: &mut BlockEnv,
        at: BlockHashOrNumber,
    ) -> (r: Result<(), ProviderError>)
        requires
            self.wf(),
        ensures
            ({
                match spec_env_header_at(self.db, at) {
                    Err(e) => r == Err::<(), ProviderError>(e) && *final(cfg) == *old(cfg)
                        && *final(block_env) == *old(block_env),
                    Ok(header) => match spec_env_td(self.db, header) {
                        Err(e) => r == Err::<(), ProviderError>(e) && *final(cfg) == *old(cfg)
                            && *final(block_env) == *old(block_env),
                        Ok(td) => r == Ok::<(), ProviderError>(()) && *final(cfg) == spec_cfg_env(
                            self.chain_spec,
                            header,
                            td,
                        ) && *final(block_env) == spec_block_env(
                            header,
                            spec_after_merge(self.chain_spec, header, td),
                        ),
                    },
                }
            }),
    {
        let header = match self.env_header_at(at) {
            Ok(header) => header,
            Err(e) => {
                return Err(e);
            },
        };
        self.fill_env_with_header(cfg, block_env, &header)
    }

    /// Fills both environments from a header whose total difficulty is on
    /// record.
    pub fn fill_env_with_header(
        &self,
        cfg: &mut CfgEnv,
        block_env: &mut BlockEnv,
        header: &Header,
    ) -> (r: Result<(), ProviderError>)
        requires
            self.wf(),
        ensures
            ({
                match spec_env_td(self.db, *header) {
                    Err(e) => r == Err::<(), ProviderError>(e) && *final(cfg) == *old(cfg)
                        && *final(block_env) == *old(block_env),
                    Ok(td) => r == Ok::<(), ProviderError>(()) && *final(cfg) == spec_cfg_env(
                        self.chain_spec,
                        *header,
                        td,
                    ) && *final(block_env) == spec_block_env(
                        *header,
                        spec_after_merge(self.chain_spec, *header, td),
                    ),
                }
            }),
    {
        let total_difficulty = match self.db.td(header.number) {
            Some(td) => td,
            None => {
                return Err(ProviderError::HeaderNotFound(BlockHashOrNumber::Number(header.number)));
            },
        };
        fill_cfg_and_block_env(cfg, block_env, &self.chain_spec, header, total_difficulty);
        Ok(())
    }

    /// Fills the block environment at a designated block.
    pub fn fill_block_env_at(&self, block_env: &mut BlockEnv, at: BlockHashOrNumber) -> (r: Result<
        (),
        ProviderError,
    >)
        requires
            self.wf(),
        ensures
            ({
                match spec_env_header_at(self.db, at) {
                    Err(e) => r == Err::<(), ProviderError>(e) && *final(block_env) == *old(
                        block_env,
                    ),
                    Ok(header) => match spec_env_td(self.db, header) {
                        Err(e) => r == Err::<(), ProviderError>(e) && *final(block_env) == *old(
                            block_env,
                        ),
                        Ok(td) => r == Ok::<(), ProviderError>(()) && *final(block_env)
                            == spec_block_env(
                            header,
                            spec_after_merge(self.chain_spec, header, td),
                        ),
                    },
                }
            }),
    {
        let header = match self.env_header_at(at) {
            Ok(header) => header,
            Err(e) => {
                return Err(e);
            },
        };
        self.fill_block_env_with_header(block_env, &header)
    }

    /// Fills the block environment from a header whose total difficulty is
    /// on record.
    pub fn fill_block_env_with_header(&self, block_env: &mut BlockEnv, header: &Header) -> (r:
        Result<(), ProviderError>)
        requires
            self.wf(),
        ensures
            ({
                match spec_env_td(self.db, *header) {
                    Err(e) => r == Err::<(), ProviderError>(e) && *final(block_env) == *old(
                        block_env,
                    ),
                    Ok(td) => r == Ok::<(), ProviderError>(()) && *final(block_env)
                        == spec_block_env(
                        *header,
                        spec_after_merge(self.chain_spec, *header, td),
                    ),
                }
            }),
    {
        let total_difficulty = match self.db.td(header.number) {
            Some(td) => td,
            None => {
                return Err(ProviderError::HeaderNotFound(BlockHashOrNumber::Number(header.number)));
            },
        };
        let head = Head {
            number: header.number,
            hash: B256::zero(),
            timestamp: header.timestamp,
            difficulty: header.difficulty,
            total_difficulty,
        };
        let spec_id = revm_spec(&self.chain_spec, &head);
        let after_merge = spec_id.is_at_least_merge();
        fill_block_env(block_env, &self.chain_spec, header, after_merge);
        Ok(())
    }

    /// Fills the configuration environment at a designated block.
    pub fn fill_cfg_env_at(&self, cfg: &mut CfgEnv, at: BlockHashOrNumber) -> (r: Result<
        (),
        ProviderError,
    >)
        requires
            self.wf(),
        ensures
            ({
                match spec_env_header_at(self.db, at) {
                    Err(e) => r == Err::<(), ProviderError>(e) && *final(cfg) == *old(cfg),
                    Ok(header) => match spec_env_td(self.db, header) {
                        Err(e) => r == Err::<(), ProviderError>(e) && *final(cfg) == *old(cfg),
                        Ok(td) => r == Ok::<(), ProviderError>(()) && *final(cfg) == spec_cfg_env(
                            self.chain_spec,
                            header,
                            td,
                        ),
                    },
                }
            }),
    {
        let header = match self.env_header_at(at) {
            Ok(header) => header,
            Err(e) => {
                return Err(e);
            },
        };
        self.fill_cfg_env_with_header(cfg, &header)
    }

    /// Fills the configuration environment from a header whose total
    /// difficulty is on record.
    pub fn fill_cfg_env_with_header(&self, cfg: &mut CfgEnv, header: &Header) -> (r: Result<
        (),
        ProviderError,
    >)
        requires
            self.wf(),
        ensures
            ({
                match spec_env_td(self.db, *header) {
                    Err(e) => r == Err::<(), ProviderError>(e) && *final(cfg) == *old(cfg),
                    Ok(td) => r == Ok::<(), ProviderError>(()) && *final(cfg) == spec_cfg_env(
                        self.chain_spec,
                        *header,
                        td,
                    ),
                }
            }),
    {
        let total_difficulty = match self.db.td(header.number) {
            Some(td) => td,
            None => {
                return Err(ProviderError::HeaderNotFound(BlockHashOrNumber::Number(header.number)));
            },
        };
        fill_cfg_env(cfg, &self.chain_spec, header, total_difficulty);
        Ok(())
    }
}

} // verus!
