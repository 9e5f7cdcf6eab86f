//! The chain specification: which hard fork is active at a given head.
//!
//! The provider needs exactly two questions answered: whether Shanghai is
//! active at a timestamp (ommers/withdrawals exclusivity), and which EVM spec
//! a head falls under (post-merge block environment shape).

use vstd::prelude::*;
use crate::primitives::{Head, U256};

verus! {

/// The totally-ordered EVM specification identifiers this core distinguishes.
#[derive(Clone, Copy, Debug, PartialEq, Eq, Structural)]
pub enum SpecId {
    Frontier,
    Homestead,
    Byzantium,
    London,
    Merge,
    Shanghai,
}

impl SpecId {
    /// The position of the identifier in fork order.
    pub open spec fn spec_rank(self) -> int {
        match self {
            SpecId::Frontier => 0,
            SpecId::Homestead => 1,
            SpecId::Byzantium => 2,
            SpecId::London => 3,
            SpecId::Merge => 4,
            SpecId::Shanghai => 5,
        }
    }

    /// Whether this spec is at or past the merge boundary, i.e. proof-of-work
    /// block fields are inert.
    pub fn is_at_least_merge(&self) -> (r: bool)
        ensures
            r == (self.spec_rank() >= SpecId::Merge.spec_rank()),
    {
        match self {
            SpecId::Merge => true,
            SpecId::Shanghai => true,
            _ => false,
        }
    }
}

/// Activation points of the forks the provider cares about. Block-based forks
/// activate at a block number, the merge at a total difficulty, Shanghai at a
/// timestamp; `None` means the fork never activates on this chain.
#[derive(Clone, Copy, Debug, PartialEq, Eq, Structural)]
pub struct ChainSpec {
    pub chain_id: u64,
    pub homestead_block: Option<u64>,
    pub byzantium_block: Option<u64>,
    pub london_block: Option<u64>,
    pub paris_total_difficulty: Option<U256>,
    pub shanghai_time: Option<u64>,
}

impl ChainSpec {
    pub open spec fn spec_is_shanghai_active(self, timestamp: u64) -> bool {
        match self.shanghai_time {
            Some(t) => timestamp >= t,
            None => false,
        }
    }

    /// Whether the Shanghai fork is active at the given block timestamp.
    pub fn is_shanghai_activated_at_timestamp(&self, timestamp: u64) -> (r: bool)
        ensures
            r == self.spec_is_shanghai_active(timestamp),
    {
        match self.shanghai_time {
            Some(t) => timestamp >= t,
            None => false,
        }
    }

    pub open spec fn spec_is_merge_reached(self, total_difficulty: U256) -> bool {
        match self.paris_total_difficulty {
            Some(ttd) => total_difficulty.as_nat() >= ttd.as_nat(),
            None => false,
        }
    }

    pub open spec fn spec_block_fork_active(fork_block: Option<u64>, number: u64) -> bool {
        match fork_block {
            Some(b) => number >= b,
            None => false,
        }
    }
}

/// The EVM specification a head falls under: the newest fork whose activation
/// point the head has passed.
pub open spec fn spec_revm_spec(chain_spec: ChainSpec, head: Head) -> SpecId {
    if chain_spec.spec_is_shanghai_active(head.timestamp) {
        SpecId::Shanghai
    } else if chain_spec.spec_is_merge_reached(head.total_difficulty) {
        SpecId::Merge
    } else if ChainSpec::spec_block_fork_active(chain_spec.london_block, head.number) {
        SpecId::London
    } else if ChainSpec::spec_block_fork_active(chain_spec.byzantium_block, head.number) {
        SpecId::Byzantium
    } else if ChainSpec::spec_block_fork_active(chain_spec.homestead_block, head.number) {
        SpecId::Homestead
    } else {
        SpecId::Frontier
    }
}

/// Resolves the EVM specification for the given head.
pub fn revm_spec(chain_spec: &ChainSpec, head: &Head) -> (r: SpecId)
    ensures
        r == spec_revm_spec(*chain_spec, *head),
{
    if chain_spec.is_shanghai_activated_at_timestamp(head.timestamp) {
        SpecId::Shanghai
    } else if match chain_spec.paris_total_difficulty {
        Some(ttd) => head.total_difficulty.ge(&ttd),
        None => false,
    } {
        SpecId::Merge
    } else if match chain_spec.london_block {
        Some(b) => head.number >= b,
        None => false,
    } {
        SpecId::London
    } else if match chain_spec.byzantium_block {
        Some(b) => head.number >= b,
        None => false,
    } {
        SpecId::Byzantium
    } else if match chain_spec.homestead_block {
        Some(b) => head.number >= b,
        None => false,
    } {
        SpecId::Homestead
    } else {
        SpecId::Frontier
    }
}

} // verus!
