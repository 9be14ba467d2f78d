//! Chain identifiers, cross-chain messages and the common adapter error.

use vstd::prelude::*;
use crate::text::owned;

verus! {

/// The chains that the interoperability protocol knows about.
#[derive(Debug, Clone, Copy, PartialEq, Eq, Structural)]
pub enum ChainId {
    Ethereum,
    Polkadot,
    Solana,
    Sui,
}

/// Numeric code of each chain, as it travels in event payloads.
pub open spec fn chain_code(c: ChainId) -> u64 {
    match c {
        ChainId::Ethereum => 1,
        ChainId::Polkadot => 2,
        ChainId::Solana => 3,
        ChainId::Sui => 4,
    }
}

/// The chain that a numeric code names, if any.
pub open spec fn chain_of_code(code: u64) -> Option<ChainId> {
    if code == 1 {
        Some(ChainId::Ethereum)
    } else if code == 2 {
        Some(ChainId::Polkadot)
    } else if code == 3 {
        Some(ChainId::Solana)
    } else if code == 4 {
        Some(ChainId::Sui)
    } else {
        None
    }
}

/// The name of a chain, as its `Debug` text shows it.
pub open spec fn chain_name(c: ChainId) -> Seq<char> {
    match c {
        ChainId::Ethereum => "Ethereum"@,
        ChainId::Polkadot => "Polkadot"@,
        ChainId::Solana => "Solana"@,
        ChainId::Sui => "Sui"@,
    }
}

impl ChainId {
    /// The name of this chain.
    pub fn name(&self) -> (s: &'static str)
        ensures
            s@ == chain_name(*self),
    {
        match self {
            ChainId::Ethereum => "Ethereum",
            ChainId::Polkadot => "Polkadot",
            ChainId::Solana => "Solana",
            ChainId::Sui => "Sui",
        }
    }

    /// The numeric code of this chain.
    pub fn to_u64(&self) -> (code: u64)
        ensures
            code == chain_code(*self),
    {
        match self {
            ChainId::Ethereum => 1,
            ChainId::Polkadot => 2,
            ChainId::Solana => 3,
            ChainId::Sui => 4,
        }
    }

    /// The chain named by a numeric code; `None` for a code that names no chain.
    pub fn try_from_u64(code: u64) -> (c: Option<ChainId>)
        ensures
            c == chain_of_code(code),
    {
        if code == 1 {
            Some(ChainId::Ethereum)
        } else if code == 2 {
            Some(ChainId::Polkadot)
        } else if code == 3 {
            Some(ChainId::Solana)
        } else if code == 4 {
            Some(ChainId::Sui)
        } else {
            None
        }
    }
}

/// Decoding the code of a chain gives the chain back, and distinct chains have
/// distinct codes.
pub proof fn lemma_chain_code_roundtrip(c: ChainId, d: ChainId)
    ensures
        chain_of_code(chain_code(c)) == Some(c),
        chain_code(c) == chain_code(d) ==> c == d,
{
}

/// Errors reported by chain adapters and registries.
#[derive(Debug, Clone, PartialEq, Eq)]
pub enum AdapterError {
    Network(String),
    Serialization(String),
    Deserialization(String),
    Configuration(String),
    ConfigurationError(String),
    ConnectionError(String),
    FinalityError(String),
    CapabilityError(String),
    TransactionError(String),
    Timeout(String),
    InvalidInput(String),
    MessageNotFound(String),
    Other(String),
}

impl AdapterError {
    /// Wraps a free-form message as `AdapterError::Other`.
    pub fn from_message(msg: String) -> (e: AdapterError)
        ensures
            e == AdapterError::Other(msg),
    {
        AdapterError::Other(msg)
    }
}

impl From<String> for AdapterError {
    fn from(error: String) -> (e: AdapterError) {
        AdapterError::Other(error)
    }
}

impl vstd::std_specs::convert::FromSpecImpl<String> for AdapterError {
    open spec fn obeys_from_spec() -> bool {
        true
    }

    open spec fn from_spec(error: String) -> AdapterError {
        AdapterError::Other(error)
    }
}

impl From<&str> for AdapterError {
    /// Wraps a free-form message as `AdapterError::Other`, holding the same
    /// characters.
    fn from(error: &str) -> (e: AdapterError)
        ensures
            e matches AdapterError::Other(m) && m@ == error@,
    {
        AdapterError::Other(owned(error))
    }
}

/// The conversion from `&str` is stated on `from` itself, over the
/// characters of the message: a `String` is not determined by its characters
/// in specifications, so no single value can be named here.
impl vstd::std_specs::convert::FromSpecImpl<&str> for AdapterError {
    open spec fn obeys_from_spec() -> bool {
        false
    }

    open spec fn from_spec(error: &str) -> AdapterError {
        AdapterError::Other(choose|m: String| m@ == error@)
    }
}

/// Status of a cross-chain message as an adapter reports it.
#[derive(Debug, Clone, PartialEq, Eq)]
pub enum MessageStatus {
    Pending,
    Confirmed,
    Failed(String),
}

} // verus!
