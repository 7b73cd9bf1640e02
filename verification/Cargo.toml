[package]
name = "rise_fault_proof"
version = "0.1.0"
edition = "2021"
publish = false

[dependencies]
alloy-consensus = { version = "=1.8.3", default-features = false }
alloy-eips = { version = "=1.8.3", default-features = false }
alloy-json-rpc = { version = "=1.8.3", default-features = false }
alloy-primitives = { version = "=1.7.3", default-features = false, features = ["std", "rlp"] }
alloy-rlp = "=0.3.17"
alloy-rpc-types-eth = { version = "=1.8.3", default-features = false }
alloy-sol-types = { version = "=1.7.3", default-features = false, features = ["std"] }
alloy-transport = { version = "=1.8.3", default-features = false }
alloy-transport-http = { version = "=1.8.3", default-features = false, features = ["reqwest"] }
anyhow = "=1.0.104"
async-trait = "=0.1.92"
clap = { version = "4", default-features = false, features = ["derive", "error-context", "help", "std", "usage"] }
futures = "=0.3.34"
hex = "=0.4.3"
kona-genesis = { version = "=0.4.5", default-features = false }
kona-preimage = { version = "=0.3.0", default-features = false, features = ["std"] }
kona-protocol = { version = "=0.4.5", default-features = false }
op-alloy-consensus = { version = "=0.18.14", default-features = false }
rand = "=0.9.5"
serde = { version = "=1.0.229", features = ["derive"] }
serde_json = "=1.0.154"
sha2 = "=0.10.9"
tokio = { version = "=1.54.1", features = ["fs", "macros", "rt-multi-thread", "signal", "sync", "time"] }
tokio-util = "=0.7.20"
tracing = "=0.1.44"
