[package]
name = "perun_solana_program"
version = "0.1.0"
edition = "2021"
publish = false

[dependencies]
alloy-primitives = "=1.7.3"
alloy-sol-types = "=1.7.3"
solana-program = "=2.3.0"
borsh = { version = "=1.8.1", features = ["derive"] }
thiserror = "=2.0.21"
num-derive = "=0.4.2"
num-traits = "=0.2.19"
spl-token = { version = "=8.0.0", features = ["no-entrypoint"] }
spl-associated-token-account-client = "2"

[dev-dependencies]
k256 = { version = "=0.13.4", features = ["ecdsa"] }
rand = "=0.8.8"
