//! The instructions of the program and what it sees of its accounts.
use vstd::prelude::*;
use crate::multi::bytes_eq;
use crate::perun_types::{ChannelID, ChannelState, Params};

verus! {

/// The instructions of the Perun program.
#[derive(Clone, Debug)]
pub enum PerunInstruction {
    Open { params: Params, state: ChannelState },
    Fund { channel_id: ChannelID, party_idx: bool },
    Close { state: ChannelState, sig_a: [u8; 65], sig_b: [u8; 65] },
    ForceClose { channel_id: ChannelID },
    Dispute { state: ChannelState, sig_a: [u8; 65], sig_b: [u8; 65] },
    Withdraw { channel_id: ChannelID, party_idx: bool, one_withdrawer: bool },
    AbortFunding { channel_id: ChannelID },
}

/// What the program sees of an account passed to an instruction.
#[derive(Clone, Copy, Debug, PartialEq, Eq)]
pub struct AccountSnapshot {
    /// The account's address.
    pub key: [u8; 32],
    /// Whether the account signed the transaction.
    pub is_signer: bool,
    /// The account's balance in lamports.
    pub lamports: u64,
    /// Whether the account holds no data.
    pub data_is_empty: bool,
}

/// Checks if the given payer is a participant in the channel defined by the parameters.
pub fn check_participant(payer: &AccountSnapshot, params: &Params) -> (r: bool)
    ensures
        r == (params.a.solana_address@ == payer.key@ || params.b.solana_address@ == payer.key@),
{
    if bytes_eq(&params.a.solana_address, &payer.key) || bytes_eq(&params.b.solana_address, &payer.key) {
        return true;
    }
    false
}

} // verus!
