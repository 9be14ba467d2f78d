//! Verified core of a multi-chain adapter layer: the registries of chain
//! adapters, their health bookkeeping, configuration rules, finality and fee
//! decisions, and the decoding of cross-chain message events.

pub mod chain;
pub mod scale;
pub mod transaction;
pub mod message;
pub mod digest;
pub mod bytes;
pub mod text;
pub mod substrate;
pub mod health;
pub mod adapter_registry;
pub mod registry;
pub mod evm;
pub mod solana;
pub mod retry;
pub mod sui;
pub mod capabilities;
pub mod finality;
pub mod errors;
pub mod chain_config;
