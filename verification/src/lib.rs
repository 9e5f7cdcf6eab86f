//! Chain data provider core: a verified read-only facade over the normalized
//! on-disk tables of an execution-layer node.
//!
//! The crate models the transactional key-value store as sorted typed tables
//! ([`store::Database`]), and builds on it the index helpers, the chain
//! provider facade ([`provider::ShareableDatabase`]), the state-provider
//! constructor and the EVM environment filler. Every query contract is stated
//! over the mathematical view of the tables.

pub mod chain_spec;
pub mod env;
pub mod laws;
pub mod primitives;
pub mod provider;
pub mod state;
pub mod store;
pub mod table;

pub use chain_spec::ChainSpec;
pub use primitives::{B256, ProviderError};
pub use provider::ShareableDatabase;
pub use state::StateProvider;
pub use store::Database;
