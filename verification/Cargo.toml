[package]
name = "frostgate_icap"
version = "0.1.0"
edition = "2021"
publish = false

[dependencies]
blake2 = "0.10"
uuid = { version = "1", features = ["v4"] }
subxt-core = "*"
solana-signature = "*"
rand = "0.8"
tokio = { version = "1", features = ["time", "rt", "macros", "sync"] }

[dev-dependencies]
parity-scale-codec = "3"
primitive-types = "*"
