//! What a chain offers: its proof system, its kind of finality, its limits,
//! and the capabilities each family of adapters reports.

use vstd::prelude::*;
use crate::evm::EvmConfig;
use crate::solana::SolanaConfig;
use crate::substrate::config::SubstrateConfig;
use crate::sui::SuiConfig;
use crate::digest::{random_message_id, uuid_string, uuid_text};
use crate::text::{join, str_eq};

verus! {

broadcast use vstd::string::group_string_axioms;

/// Proof systems a chain may support.
#[derive(Debug, Clone, PartialEq, Eq)]
pub enum ProofType {
    NoProof,
    ZkSnark,
    ZkStark,
    Groth16,
    Plonk,
    Custom(String),
}

/// How a chain finalizes blocks.
#[derive(Debug, Clone, Copy, PartialEq, Eq, Structural)]
pub enum FinalityType {
    /// Final after the given number of confirmations.
    Probabilistic { confirmations: u32 },
    /// Final once a finality gadget says so.
    Deterministic,
    /// Final on inclusion.
    Instant,
}

/// The capabilities and limits of a chain.
#[derive(Debug, Clone)]
pub struct ChainCapabilities {
    pub supports_smart_contracts: bool,
    pub supports_native_tokens: bool,
    pub supports_onchain_verification: bool,
    /// Largest message, in bytes.
    pub max_message_size: usize,
    pub proof_type: ProofType,
    pub finality_type: FinalityType,
    /// Largest proof, in bytes, when limited.
    pub max_proof_size: Option<usize>,
    pub supports_parallel_execution: bool,
}

/// Reports the capabilities of a chain.
pub trait ChainCapabilityProvider {
    /// The capabilities of the chain.
    fn capabilities(&self) -> ChainCapabilities;

    /// Whether the chain supports the named feature.
    fn supports_feature(&self, feature: &str) -> bool;
}

/// Filter of the events to report.
#[derive(Debug, Clone)]
pub struct EventFilter {
    pub from_block: Option<u64>,
    pub to_block: Option<u64>,
    pub event_types: Vec<String>,
}

/// The families of adapters.
#[derive(Debug, Clone, Copy, PartialEq, Eq, Structural)]
pub enum AdapterFamily {
    Evm,
    Substrate,
    Solana,
    Sui,
}

/// Whether a report of capabilities includes the named one: smart contracts,
/// native tokens, on-chain verification or parallel execution. Any other name
/// is unsupported.
pub open spec fn reports_capability(caps: ChainCapabilities, capability: Seq<char>) -> bool {
    ||| capability == "smart_contracts"@ && caps.supports_smart_contracts
    ||| capability == "native_tokens"@ && caps.supports_native_tokens
    ||| capability == "onchain_verification"@ && caps.supports_onchain_verification
    ||| capability == "parallel_execution"@ && caps.supports_parallel_execution
}

/// Whether an adapter of a family supports a named capability: exactly when
/// the capabilities it reports include it.
pub open spec fn spec_supports(family: AdapterFamily, capability: Seq<char>) -> bool {
    reports_capability(spec_family_capabilities(family, 0), capability)
}

/// Whether an adapter of a family supports a named capability.
pub fn supports_capability(family: AdapterFamily, capability: &str) -> (r: bool)
    ensures
        r == spec_supports(family, capability@),
{
    let caps = family_capabilities(family, 0);
    (str_eq(capability, "smart_contracts") && caps.supports_smart_contracts)
        || (str_eq(capability, "native_tokens") && caps.supports_native_tokens)
        || (str_eq(capability, "onchain_verification") && caps.supports_onchain_verification)
        || (str_eq(capability, "parallel_execution") && caps.supports_parallel_execution)
}

/// What an adapter says it supports agrees with the capabilities it
/// reports, whatever confirmations its chain needs.
pub proof fn lemma_supports_matches_report(family: AdapterFamily, capability: Seq<char>, confirmations: u32)
    ensures
        spec_supports(family, capability) == reports_capability(spec_family_capabilities(family, confirmations), capability),
{
}

/// The capabilities an adapter of a family reports, for a chain that needs
/// `confirmations` confirmations where finality is probabilistic.
pub open spec fn spec_family_capabilities(family: AdapterFamily, confirmations: u32) -> ChainCapabilities {
    match family {
        AdapterFamily::Evm => ChainCapabilities {
            supports_smart_contracts: true,
            supports_native_tokens: true,
            supports_onchain_verification: true,
            max_message_size: 32_768,
            proof_type: ProofType::NoProof,
            finality_type: FinalityType::Probabilistic { confirmations },
            max_proof_size: None,
            supports_parallel_execution: false,
        },
        AdapterFamily::Substrate => ChainCapabilities {
            supports_smart_contracts: false,
            supports_native_tokens: true,
            supports_onchain_verification: true,
            max_message_size: 16_384,
            proof_type: ProofType::NoProof,
            finality_type: FinalityType::Deterministic,
            max_proof_size: None,
            supports_parallel_execution: false,
        },
        AdapterFamily::Solana => ChainCapabilities {
            supports_smart_contracts: true,
            supports_native_tokens: true,
            supports_onchain_verification: true,
            max_message_size: 1024,
            proof_type: ProofType::NoProof,
            finality_type: FinalityType::Probabilistic { confirmations: 32 },
            max_proof_size: None,
            supports_parallel_execution: true,
        },
        AdapterFamily::Sui => ChainCapabilities {
            supports_smart_contracts: true,
            supports_native_tokens: true,
            supports_onchain_verification: true,
            max_message_size: 16_384,
            proof_type: ProofType::NoProof,
            finality_type: FinalityType::Probabilistic { confirmations },
            max_proof_size: None,
            supports_parallel_execution: true,
        },
    }
}

/// The capabilities an adapter of a family reports.
pub fn family_capabilities(family: AdapterFamily, confirmations: u32) -> (c: ChainCapabilities)
    ensures
        c == spec_family_capabilities(family, confirmations),
{
    match family {
        AdapterFamily::Evm => ChainCapabilities {
            supports_smart_contracts: true,
            supports_native_tokens: true,
            supports_onchain_verification: true,
            max_message_size: 32_768,
            proof_type: ProofType::NoProof,
            finality_type: FinalityType::Probabilistic { confirmations },
            max_proof_size: None,
            supports_parallel_execution: false,
        },
        AdapterFamily::Substrate => ChainCapabilities {
            supports_smart_contracts: false,
            supports_native_tokens: true,
            supports_onchain_verification: true,
            max_message_size: 16_384,
            proof_type: ProofType::NoProof,
            finality_type: FinalityType::Deterministic,
            max_proof_size: None,
            supports_parallel_execution: false,
        },
        AdapterFamily::Solana => ChainCapabilities {
            supports_smart_contracts: true,
            supports_native_tokens: true,
            supports_onchain_verification: true,
            max_message_size: 1024,
            proof_type: ProofType::NoProof,
            finality_type: FinalityType::Probabilistic { confirmations: 32 },
            max_proof_size: None,
            supports_parallel_execution: true,
        },
        AdapterFamily::Sui => ChainCapabilities {
            supports_smart_contracts: true,
            supports_native_tokens: true,
            supports_onchain_verification: true,
            max_message_size: 16_384,
            proof_type: ProofType::NoProof,
            finality_type: FinalityType::Probabilistic { confirmations },
            max_proof_size: None,
            supports_parallel_execution: true,
        },
    }
}

impl ChainCapabilityProvider for EvmConfig {
    fn capabilities(&self) -> (c: ChainCapabilities)
        ensures
            c == spec_family_capabilities(AdapterFamily::Evm, self.required_confirmations),
    {
        family_capabilities(AdapterFamily::Evm, self.required_confirmations)
    }

    fn supports_feature(&self, feature: &str) -> (r: bool)
        ensures
            r == spec_supports(AdapterFamily::Evm, feature@),
    {
        supports_capability(AdapterFamily::Evm, feature)
    }
}

impl ChainCapabilityProvider for SubstrateConfig {
    fn capabilities(&self) -> (c: ChainCapabilities)
        ensures
            c == spec_family_capabilities(AdapterFamily::Substrate, 0),
    {
        family_capabilities(AdapterFamily::Substrate, 0)
    }

    fn supports_feature(&self, feature: &str) -> (r: bool)
        ensures
            r == spec_supports(AdapterFamily::Substrate, feature@),
    {
        supports_capability(AdapterFamily::Substrate, feature)
    }
}

impl ChainCapabilityProvider for SolanaConfig {
    fn capabilities(&self) -> (c: ChainCapabilities)
        ensures
            c == spec_family_capabilities(AdapterFamily::Solana, 32),
    {
        family_capabilities(AdapterFamily::Solana, 32)
    }

    fn supports_feature(&self, feature: &str) -> (r: bool)
        ensures
            r == spec_supports(AdapterFamily::Solana, feature@),
    {
        supports_capability(AdapterFamily::Solana, feature)
    }
}

impl ChainCapabilityProvider for SuiConfig {
    fn capabilities(&self) -> (c: ChainCapabilities)
        ensures
            c == spec_family_capabilities(AdapterFamily::Sui, self.required_confirmations),
    {
        family_capabilities(AdapterFamily::Sui, self.required_confirmations)
    }

    fn supports_feature(&self, feature: &str) -> (r: bool)
        ensures
            r == spec_supports(AdapterFamily::Sui, feature@),
    {
        supports_capability(AdapterFamily::Sui, feature)
    }
}

/// The prefix of the ids of a family's adapters.
pub open spec fn family_prefix(family: AdapterFamily) -> Seq<char> {
    match family {
        AdapterFamily::Evm => "evm-"@,
        AdapterFamily::Substrate => "substrate-"@,
        AdapterFamily::Solana => "solana-"@,
        AdapterFamily::Sui => "sui-"@,
    }
}

/// A fresh id for an adapter of a family: the family's prefix followed by a
/// random UUID.
pub fn new_adapter_id(family: AdapterFamily) -> (id: String)
    ensures
        exists|u: u128| id@ == family_prefix(family) + uuid_text(u),
{
    let u = random_message_id();
    let text = uuid_string(u);
    let prefix = match family {
        AdapterFamily::Evm => "evm-",
        AdapterFamily::Substrate => "substrate-",
        AdapterFamily::Solana => "solana-",
        AdapterFamily::Sui => "sui-",
    };
    let id = join(prefix, text.as_str());
    assert(id@ == family_prefix(family) + uuid_text(u));
    id
}

/// A block known to be final.
#[derive(Debug, Clone)]
pub struct FinalizedBlock<T> {
    pub block: T,
    /// Proof of finality, where the chain gives one.
    pub finality_proof: Option<Vec<u8>>,
    /// When finality was observed (milliseconds since the epoch).
    pub finalized_at: u64,
    pub confirmations: Option<u32>,
}

/// Access to the block of a [`FinalizedBlock`].
pub trait FinalizedBlockExt<T> {
    /// The block.
    fn into_inner(self) -> T;
}

impl<T> FinalizedBlockExt<T> for FinalizedBlock<T> {
    fn into_inner(self) -> (b: T)
        ensures
            b == self.block,
    {
        self.block
    }
}

} // verus!
