//! A zero-copy block validator: it borrows a chain configuration and checks
//! incoming block headers against it.

use vstd::prelude::*;

verus! {

/// The chain-wide configuration a validator checks against.
pub struct ConsensusConfig {
    pub chain_id: u64,
    pub magic_bytes: String,
}

/// A validator holding a borrowed configuration for as long as it lives.
pub struct Validator<'a> {
    pub config: &'a ConsensusConfig,
}

impl<'a> Validator<'a> {
    /// A validator over the given configuration.
    pub fn new(config: &'a ConsensusConfig) -> (v: Validator<'a>)
        ensures
            v.config == config,
    {
        Validator { config }
    }

    /// A block is valid exactly when its chain id matches the configured one.
    pub fn validate_block(&self, block_chain_id: u64) -> (valid: bool)
        ensures
            valid == (block_chain_id == self.config.chain_id),
    {
        block_chain_id == self.config.chain_id
    }
}

} // verus!
