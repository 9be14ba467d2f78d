# frostgate_icap

A verified core for adapters that connect a cross-chain messaging protocol to
Ethereum-style chains, Substrate (Polkadot) chains, Solana and Sui.

`src/` is the library, checked by Verus: the registries of adapters, health
bookkeeping, configuration presets and their validation, gas price, fee and
retry rules, finality decisions, transaction and message tracking, the SCALE
decoding of message events with their deterministic ids, and the deduplicating
cache of observed events. Calls into BLAKE2b, UUID, SS58, Solana signature
parsing, randomness and the clock stand behind small trusted wrappers whose
contracts name what they compute.

`app/` holds the asynchronous drivers: the loops that retry calls, wait for
finality and probe health, and the asynchronous traits adapters implement.

`tests/` exercises the library, cross-checking the decoders against
`parity-scale-codec` and the ids against `blake2` and `uuid`.
