//! Error types
use vstd::prelude::*;

verus! {

/// Errors that may be returned by the Perun program.
#[derive(Clone, Copy, Debug, PartialEq, Eq, Structural, PartialOrd, Ord)]
pub enum PerunError {
    InvalidInstruction,
    ChannelIDMismatch,
    InvalidVersionNumber,
    OpenOnFinalState,
    ChannelAlreadyExists,
    ChannelNotFound,
    EncodingError,
    InvalidActor,
    AlreadyFunded,
    CloseOnNonFinalState,
    SecpRecoveryFailed,
    MalformedVerificationInput,
    InvalidSignature,
    OperationOnUnfundedChannel,
    WithdrawOnOpenChannel,
    AlreadyWithdrawn,
    DisputeOnClosedChannel,
    InvalidStateTransition,
    ForceCloseOnClosedChannel,
    ForceCloseOnUndisputedChannel,
    TimelockNotExpired,
    AbortFundingOnFundedChannel,
    AbortFundingOnClosedChannel,
    AbortFundingOnDisputedChannel,
    AbortFundingWithoutFunds,
    VerificationFailed,
    InvalidPubKeyType,
    InvalidKeyType,
    ConversionError,
    WrongAssetType,
    InvalidChanIdSize,
    WrongChannelTypeErr,
    InvalidAddressType,
}

/// The numeric code of an error: its position in the declaration, from 0.
pub open spec fn spec_error_code(e: PerunError) -> u32 {
    match e {
        PerunError::InvalidInstruction => 0,
        PerunError::ChannelIDMismatch => 1,
        PerunError::InvalidVersionNumber => 2,
        PerunError::OpenOnFinalState => 3,
        PerunError::ChannelAlreadyExists => 4,
        PerunError::ChannelNotFound => 5,
        PerunError::EncodingError => 6,
        PerunError::InvalidActor => 7,
        PerunError::AlreadyFunded => 8,
        PerunError::CloseOnNonFinalState => 9,
        PerunError::SecpRecoveryFailed => 10,
        PerunError::MalformedVerificationInput => 11,
        PerunError::InvalidSignature => 12,
        PerunError::OperationOnUnfundedChannel => 13,
        PerunError::WithdrawOnOpenChannel => 14,
        PerunError::AlreadyWithdrawn => 15,
        PerunError::DisputeOnClosedChannel => 16,
        PerunError::InvalidStateTransition => 17,
        PerunError::ForceCloseOnClosedChannel => 18,
        PerunError::ForceCloseOnUndisputedChannel => 19,
        PerunError::TimelockNotExpired => 20,
        PerunError::AbortFundingOnFundedChannel => 21,
        PerunError::AbortFundingOnClosedChannel => 22,
        PerunError::AbortFundingOnDisputedChannel => 23,
        PerunError::AbortFundingWithoutFunds => 24,
        PerunError::VerificationFailed => 25,
        PerunError::InvalidPubKeyType => 26,
        PerunError::InvalidKeyType => 27,
        PerunError::ConversionError => 28,
        PerunError::WrongAssetType => 29,
        PerunError::InvalidChanIdSize => 30,
        PerunError::WrongChannelTypeErr => 31,
        PerunError::InvalidAddressType => 32,
    }
}

/// Distinct errors have distinct codes: an error is found again from its
/// code.
pub proof fn lemma_error_code_injective(e1: PerunError, e2: PerunError)
    ensures
        spec_error_code(e1) == spec_error_code(e2) ==> e1 == e2,
{
}

impl PerunError {
    /// The custom error code under which the program reports this error.
    pub fn code(&self) -> (c: u32)
        ensures
            c == spec_error_code(*self),
    {
        match self {
            PerunError::InvalidInstruction => 0,
            PerunError::ChannelIDMismatch => 1,
            PerunError::InvalidVersionNumber => 2,
            PerunError::OpenOnFinalState => 3,
            PerunError::ChannelAlreadyExists => 4,
            PerunError::ChannelNotFound => 5,
            PerunError::EncodingError => 6,
            PerunError::InvalidActor => 7,
            PerunError::AlreadyFunded => 8,
            PerunError::CloseOnNonFinalState => 9,
            PerunError::SecpRecoveryFailed => 10,
            PerunError::MalformedVerificationInput => 11,
            PerunError::InvalidSignature => 12,
            PerunError::OperationOnUnfundedChannel => 13,
            PerunError::WithdrawOnOpenChannel => 14,
            PerunError::AlreadyWithdrawn => 15,
            PerunError::DisputeOnClosedChannel => 16,
            PerunError::InvalidStateTransition => 17,
            PerunError::ForceCloseOnClosedChannel => 18,
            PerunError::ForceCloseOnUndisputedChannel => 19,
            PerunError::TimelockNotExpired => 20,
            PerunError::AbortFundingOnFundedChannel => 21,
            PerunError::AbortFundingOnClosedChannel => 22,
            PerunError::AbortFundingOnDisputedChannel => 23,
            PerunError::AbortFundingWithoutFunds => 24,
            PerunError::VerificationFailed => 25,
            PerunError::InvalidPubKeyType => 26,
            PerunError::InvalidKeyType => 27,
            PerunError::ConversionError => 28,
            PerunError::WrongAssetType => 29,
            PerunError::InvalidChanIdSize => 30,
            PerunError::WrongChannelTypeErr => 31,
            PerunError::InvalidAddressType => 32,
        }
    }

    /// The error whose code is `c`, if there is one.
    pub fn from_code(c: u32) -> (e: Option<PerunError>)
        ensures
            match e {
                Some(err) => spec_error_code(err) == c,
                None => c > 32,
            },
    {
        let all: [PerunError; 33] = [
            PerunError::InvalidInstruction,
            PerunError::ChannelIDMismatch,
            PerunError::InvalidVersionNumber,
            PerunError::OpenOnFinalState,
            PerunError::ChannelAlreadyExists,
            PerunError::ChannelNotFound,
            PerunError::EncodingError,
            PerunError::InvalidActor,
            PerunError::AlreadyFunded,
            PerunError::CloseOnNonFinalState,
            PerunError::SecpRecoveryFailed,
            PerunError::MalformedVerificationInput,
            PerunError::InvalidSignature,
            PerunError::OperationOnUnfundedChannel,
            PerunError::WithdrawOnOpenChannel,
            PerunError::AlreadyWithdrawn,
            PerunError::DisputeOnClosedChannel,
            PerunError::InvalidStateTransition,
            PerunError::ForceCloseOnClosedChannel,
            PerunError::ForceCloseOnUndisputedChannel,
            PerunError::TimelockNotExpired,
            PerunError::AbortFundingOnFundedChannel,
            PerunError::AbortFundingOnClosedChannel,
            PerunError::AbortFundingOnDisputedChannel,
            PerunError::AbortFundingWithoutFunds,
            PerunError::VerificationFailed,
            PerunError::InvalidPubKeyType,
            PerunError::InvalidKeyType,
            PerunError::ConversionError,
            PerunError::WrongAssetType,
            PerunError::InvalidChanIdSize,
            PerunError::WrongChannelTypeErr,
            PerunError::InvalidAddressType,
        ];
        if c > 32 {
            None
        } else {
            let e = all[c as usize];
            let k = e.code();
            if k == c {
                Some(e)
            } else {
                None
            }
        }
    }
}

/// The errors with which an instruction of the program fails.
#[derive(Clone, Copy, Debug, PartialEq, Eq, Structural)]
pub enum ProgramError {
    /// A Perun error, reported under its custom code.
    Perun(PerunError),
    /// An argument (such as the channel account) is not the expected one.
    InvalidArgument,
    /// The instruction was given fewer accounts than it needs.
    NotEnoughAccountKeys,
    /// The account that must authorize the instruction did not.
    MissingRequiredSignature,
    /// A lamport balance would drop below zero or exceed `u64::MAX`.
    InsufficientFunds,
    /// The account that should receive the rent is not the channel's creator.
    IllegalOwner,
    /// The channel account does not hold a channel.
    BorshIoError,
    /// The program stops without returning (it panics); the runtime fails
    /// the transaction.
    Aborted,
}

impl From<PerunError> for ProgramError {
    fn from(e: PerunError) -> (r: ProgramError) {
        ProgramError::Perun(e)
    }
}

impl vstd::std_specs::convert::FromSpecImpl<PerunError> for ProgramError {
    open spec fn obeys_from_spec() -> bool {
        true
    }

    open spec fn from_spec(e: PerunError) -> ProgramError {
        ProgramError::Perun(e)
    }
}

} // verus!
