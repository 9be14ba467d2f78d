//! Sui chains: adapter configuration.

use vstd::prelude::*;

verus! {

/// Configuration of a Sui chain adapter.
#[derive(Debug, Clone)]
pub struct SuiConfig {
    pub rpc_url: String,
    /// Network: mainnet 1, testnet 2, devnet 3.
    pub chain_id: u64,
    /// Object id of the package that handles messages.
    pub package_id: [u8; 32],
    /// Checkpoints that must follow one for it to be final.
    pub required_confirmations: u32,
}

} // verus!
