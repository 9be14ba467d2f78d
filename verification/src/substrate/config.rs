//! Configuration of Substrate adapters: presets for known networks and the
//! defaults that stand in for settings left unset. Durations are in
//! nanoseconds.

use vstd::prelude::*;
use crate::text::owned;

verus! {

broadcast use vstd::string::group_string_axioms;

/// Confirmations required for finality when none are configured.
pub const DEFAULT_CONFIRMATIONS: u32 = 12;

/// RPC timeout when none is configured (30 s).
pub const DEFAULT_RPC_TIMEOUT: u64 = 30_000_000_000;

/// Least interval between RPC calls when none is configured (100 ms).
pub const DEFAULT_MIN_CALL_INTERVAL: u64 = 100_000_000;

/// Concurrent RPC requests when no limit is configured.
pub const DEFAULT_MAX_CONCURRENT_REQUESTS: u32 = 10;

/// Interval between health checks of the presets (30 s).
pub const DEFAULT_HEALTH_CHECK_INTERVAL: u64 = 30_000_000_000;

/// Block time assumed when the chain configuration gives none (6 s).
pub const SUBSTRATE_BLOCK_TIME: u64 = 6_000_000_000;

/// Configuration of a Substrate chain adapter given by its pallet.
#[derive(Debug, Clone)]
pub struct SubstrateConfig {
    pub rpc_url: String,
    pub chain_id: u64,
    /// Pallet that handles messages.
    pub pallet_name: String,
    /// Largest weight of one extrinsic.
    pub max_weight: u64,
}

/// Settings of one Substrate chain.
#[derive(Debug, Clone)]
pub struct ChainSpecificConfig {
    /// Name of the chain, such as "polkadot" or "kusama".
    pub chain_id: String,
    /// Average block time.
    pub block_time: Option<u64>,
    /// Blocks until finality.
    pub finality_blocks: Option<u32>,
    /// Custom RPC methods by name.
    pub custom_rpc_methods: Option<Vec<(String, String)>>,
}

/// Configuration of the Polkadot adapter.
#[derive(Debug, Clone)]
pub struct PolkadotConfig {
    pub rpc_url: String,
    /// Seed phrase, `//Name` derivation or hex key of the signer.
    pub signer_seed: String,
    pub confirmations: Option<u32>,
    pub rpc_timeout: Option<u64>,
    pub max_concurrent_requests: Option<u32>,
    /// Interval between health checks; none turns the monitor off.
    pub health_check_interval: Option<u64>,
    pub min_call_interval: Option<u64>,
    /// Pallet of cross-chain messages; "XcmpQueue" when none.
    pub message_pallet: Option<String>,
    pub chain_specific: Option<ChainSpecificConfig>,
}

/// The settings a preset chooses, apart from endpoint, signer and names.
pub open spec fn preset_numbers(
    c: PolkadotConfig,
    confirmations: Option<u32>,
    rpc_timeout: Option<u64>,
    max_concurrent: Option<u32>,
    health_interval: Option<u64>,
    min_interval: Option<u64>,
    block_time: Option<u64>,
    finality_blocks: Option<u32>,
) -> bool {
    &&& c.confirmations == confirmations
    &&& c.rpc_timeout == rpc_timeout
    &&& c.max_concurrent_requests == max_concurrent
    &&& c.health_check_interval == health_interval
    &&& c.min_call_interval == min_interval
    &&& c.chain_specific matches Some(cs) && cs.block_time == block_time && cs.finality_blocks == finality_blocks
        && cs.custom_rpc_methods is None
}

impl PolkadotConfig {
    /// Polkadot mainnet: 12 confirmations, 30 s timeout, 10 concurrent
    /// requests, health checks every 30 s, 100 ms between calls, the
    /// "XcmpQueue" pallet, 6 s blocks, finality after 12 blocks.
    pub fn mainnet(rpc_url: String, signer_seed: String) -> (c: PolkadotConfig)
        ensures
            c.rpc_url == rpc_url,
            c.signer_seed == signer_seed,
            preset_numbers(c, Some(DEFAULT_CONFIRMATIONS), Some(DEFAULT_RPC_TIMEOUT), Some(DEFAULT_MAX_CONCURRENT_REQUESTS),
                Some(DEFAULT_HEALTH_CHECK_INTERVAL), Some(DEFAULT_MIN_CALL_INTERVAL), Some(SUBSTRATE_BLOCK_TIME),
                Some(DEFAULT_CONFIRMATIONS)),
            c.message_pallet matches Some(p) && p@ == "XcmpQueue"@,
            c.chain_specific matches Some(cs) && cs.chain_id@ == "polkadot"@,
    {
        PolkadotConfig {
            rpc_url,
            signer_seed,
            confirmations: Some(DEFAULT_CONFIRMATIONS),
            rpc_timeout: Some(DEFAULT_RPC_TIMEOUT),
            max_concurrent_requests: Some(DEFAULT_MAX_CONCURRENT_REQUESTS),
            health_check_interval: Some(DEFAULT_HEALTH_CHECK_INTERVAL),
            min_call_interval: Some(DEFAULT_MIN_CALL_INTERVAL),
            message_pallet: Some(owned("XcmpQueue")),
            chain_specific: Some(ChainSpecificConfig {
                chain_id: owned("polkadot"),
                block_time: Some(SUBSTRATE_BLOCK_TIME),
                finality_blocks: Some(DEFAULT_CONFIRMATIONS),
                custom_rpc_methods: None,
            }),
        }
    }

    /// Kusama: 6 confirmations, 20 s timeout, 10 concurrent requests, health
    /// checks every 30 s, 100 ms between calls, the "XcmpQueue" pallet, 6 s
    /// blocks, finality after 6 blocks.
    pub fn kusama(rpc_url: String, signer_seed: String) -> (c: PolkadotConfig)
        ensures
            c.rpc_url == rpc_url,
            c.signer_seed == signer_seed,
            preset_numbers(c, Some(6u32), Some(20_000_000_000u64), Some(DEFAULT_MAX_CONCURRENT_REQUESTS),
                Some(DEFAULT_HEALTH_CHECK_INTERVAL), Some(DEFAULT_MIN_CALL_INTERVAL), Some(6_000_000_000u64), Some(6u32)),
            c.message_pallet matches Some(p) && p@ == "XcmpQueue"@,
            c.chain_specific matches Some(cs) && cs.chain_id@ == "kusama"@,
    {
        PolkadotConfig {
            rpc_url,
            signer_seed,
            confirmations: Some(6),
            rpc_timeout: Some(20_000_000_000),
            max_concurrent_requests: Some(DEFAULT_MAX_CONCURRENT_REQUESTS),
            health_check_interval: Some(DEFAULT_HEALTH_CHECK_INTERVAL),
            min_call_interval: Some(DEFAULT_MIN_CALL_INTERVAL),
            message_pallet: Some(owned("XcmpQueue")),
            chain_specific: Some(ChainSpecificConfig {
                chain_id: owned("kusama"),
                block_time: Some(6_000_000_000),
                finality_blocks: Some(6),
                custom_rpc_methods: None,
            }),
        }
    }

    /// A development chain: 1 confirmation, 10 s timeout, 5 concurrent
    /// requests, no health monitor, 50 ms between calls, the default pallet, 3
    /// s blocks, finality after 1 block.
    pub fn development(rpc_url: String, signer_seed: String) -> (c: PolkadotConfig)
        ensures
            c.rpc_url == rpc_url,
            c.signer_seed == signer_seed,
            preset_numbers(c, Some(1u32), Some(10_000_000_000u64), Some(5u32), None, Some(50_000_000u64),
                Some(3_000_000_000u64), Some(1u32)),
            c.message_pallet is None,
            c.chain_specific matches Some(cs) && cs.chain_id@ == "dev"@,
    {
        PolkadotConfig {
            rpc_url,
            signer_seed,
            confirmations: Some(1),
            rpc_timeout: Some(10_000_000_000),
            max_concurrent_requests: Some(5),
            health_check_interval: None,
            min_call_interval: Some(50_000_000),
            message_pallet: None,
            chain_specific: Some(ChainSpecificConfig {
                chain_id: owned("dev"),
                block_time: Some(3_000_000_000),
                finality_blocks: Some(1),
                custom_rpc_methods: None,
            }),
        }
    }

    /// Confirmations required for finality.
    pub fn required_confirmations(&self) -> (n: u32)
        ensures
            n == match self.confirmations { Some(c) => c, None => DEFAULT_CONFIRMATIONS },
    {
        match self.confirmations {
            Some(c) => c,
            None => DEFAULT_CONFIRMATIONS,
        }
    }

    /// The RPC timeout in force.
    pub fn effective_rpc_timeout(&self) -> (t: u64)
        ensures
            t == match self.rpc_timeout { Some(t) => t, None => DEFAULT_RPC_TIMEOUT },
    {
        match self.rpc_timeout {
            Some(t) => t,
            None => DEFAULT_RPC_TIMEOUT,
        }
    }

    /// The least interval between RPC calls in force.
    pub fn effective_min_call_interval(&self) -> (t: u64)
        ensures
            t == match self.min_call_interval { Some(t) => t, None => DEFAULT_MIN_CALL_INTERVAL },
    {
        match self.min_call_interval {
            Some(t) => t,
            None => DEFAULT_MIN_CALL_INTERVAL,
        }
    }

    /// The number of concurrent RPC requests allowed.
    pub fn max_concurrent(&self) -> (n: u32)
        ensures
            n == match self.max_concurrent_requests { Some(n) => n, None => DEFAULT_MAX_CONCURRENT_REQUESTS },
    {
        match self.max_concurrent_requests {
            Some(n) => n,
            None => DEFAULT_MAX_CONCURRENT_REQUESTS,
        }
    }

    /// The block time in force: the chain's own, else [`SUBSTRATE_BLOCK_TIME`].
    pub fn block_time(&self) -> (t: u64)
        ensures
            t == match self.chain_specific {
                Some(cs) => match cs.block_time { Some(b) => b, None => SUBSTRATE_BLOCK_TIME },
                None => SUBSTRATE_BLOCK_TIME,
            },
    {
        match &self.chain_specific {
            Some(cs) => match cs.block_time {
                Some(b) => b,
                None => SUBSTRATE_BLOCK_TIME,
            },
            None => SUBSTRATE_BLOCK_TIME,
        }
    }

    /// The pallet of cross-chain messages: the configured one, else
    /// "XcmpQueue".
    pub fn pallet_name(&self) -> (p: String)
        ensures
            p@ == match self.message_pallet { Some(p) => p@, None => "XcmpQueue"@ },
    {
        match &self.message_pallet {
            Some(p) => owned(p.as_str()),
            None => owned("XcmpQueue"),
        }
    }
}

} // verus!
