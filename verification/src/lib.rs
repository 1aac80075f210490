//! Perun state channels on Solana with EVM-compatible signatures.
//!
//! The library holds the channel model, the Solidity ABI layout of the
//! off-chain states and parameters, the signature checks and the decision
//! logic of every instruction of the on-chain program.
pub mod error;
pub mod multi;
pub mod perun_types;
pub mod sol;
pub mod instructions;
pub mod processor;
pub mod laws;
