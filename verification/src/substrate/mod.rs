//! Substrate (Polkadot) chains: configuration, transaction tracking and the
//! decoding of message events.

pub mod config;
pub mod events;
pub mod event_cache;
pub mod listener;
pub mod tracking;
pub mod verifier_cache;
