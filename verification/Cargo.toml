[package]
name = "starknet_eth_bridge"
version = "0.1.0"
edition = "2021"
publish = false

[dependencies]
alloy-consensus = "=2.5.0"
alloy-primitives = "=1.7.3"
alloy-rlp = "=0.3.16"
clap = { version = "=4.6.7", default-features = false, features = ["std", "derive", "help", "usage", "error-context"] }
env_logger = { version = "=0.11.11", default-features = false }
hex = "=0.4.3"
log = "=0.4.34"
starknet-core = "*"
starknet-providers = "*"
tokio = { version = "=1.54.1", features = ["macros", "rt-multi-thread"] }
