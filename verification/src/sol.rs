//! Solidity <-> Solana data types.
//!
//! The off-chain protocol signs states in the Solidity ABI encoding of the
//! Ethereum Perun contracts. This module holds those Solidity structures, with
//! every `uint256` kept as its 32-byte big-endian word, their ABI encoding
//! (computed by `alloy_sol_types`), and the channel identifier derived from the
//! encoded parameters.
use vstd::prelude::*;
use crate::perun_types::{ChannelID, Params, Participant};
use alloy_primitives::{Address, U256};
use alloy_sol_types::SolValue;

verus! {

// ---------------------------------------------------------------------------
// Hashing
// ---------------------------------------------------------------------------

/// The Keccak-256 digest of `data`, as computed by `alloy_primitives::keccak256`.
pub uninterp spec fn keccak256_digest(data: Seq<u8>) -> Seq<u8>;

/// Calls `alloy_primitives::keccak256` on `data`. Claimed: the 32 bytes it
/// returns are `keccak256_digest(data)`, a function of the input bytes alone.
#[verifier::external_body]
pub fn keccak256(data: &[u8]) -> (hash: [u8; 32])
    ensures
        hash@ == keccak256_digest(data@),
{
    alloy_primitives::keccak256(data).0
}

// ---------------------------------------------------------------------------
// ABI words
// ---------------------------------------------------------------------------

/// `n` zero bytes.
pub open spec fn zeros(n: nat) -> Seq<u8> {
    Seq::new(n, |i: int| 0u8)
}

/// The big-endian bytes of `x`, eight of them.
pub open spec fn be_bytes_u64(x: u64) -> Seq<u8> {
    Seq::new(8, |i: int| ((x >> ((56 - 8 * i) as u64)) & 0xff) as u8)
}

/// The ABI word (a `uint256`) holding the value `x`.
pub open spec fn word_u64(x: u64) -> Seq<u8> {
    zeros(24) + be_bytes_u64(x)
}

/// The views of the words `ws`.
pub open spec fn word_views(ws: Seq<[u8; 32]>) -> Seq<Seq<u8>> {
    ws.map_values(|w: [u8; 32]| w@)
}

/// The word holding `x`, with the proof of its layout.
pub fn u64_word(x: u64) -> (w: [u8; 32])
    ensures
        w@ == word_u64(x),
{
    let mut w = [0u8; 32];
    let mut i: usize = 0;
    while i < 8
        invariant
            0 <= i <= 8,
            w@.len() == 32,
            forall|j: int| 0 <= j < 24 ==> w@[j] == 0u8,
            forall|j: int| 24 <= j < 24 + i ==> #[trigger] w@[j] == be_bytes_u64(x)[j - 24],
        decreases 8 - i,
    {
        let shift: u64 = 56 - 8 * (i as u64);
        w[24 + i] = ((x >> shift) & 0xff) as u8;
        i = i + 1;
    }
    assert(w@ =~= word_u64(x));
    w
}

/// Appends the bytes of `b` to `out`.
fn push_slice(out: &mut Vec<u8>, b: &[u8])
    ensures
        final(out)@ == old(out)@ + b@,
{
    let mut i: usize = 0;
    while i < b.len()
        invariant
            0 <= i <= b@.len(),
            out@ == old(out)@ + b@.subrange(0, i as int),
        decreases b@.len() - i,
    {
        out.push(b[i]);
        assert(b@.subrange(0, (i + 1) as int) =~= b@.subrange(0, i as int).push(b@[i as int]));
        i = i + 1;
    }
    assert(b@.subrange(0, b@.len() as int) =~= b@);
}

/// Appends the bytes of `a` to `out`.
pub fn push_array<const N: usize>(out: &mut Vec<u8>, a: &[u8; N])
    ensures
        final(out)@ == old(out)@ + a@,
{
    push_slice(out, a);
}

// ---------------------------------------------------------------------------
// Solidity structures
// ---------------------------------------------------------------------------

/// A channel participant as the Solidity contracts see it.
#[allow(non_snake_case)]
#[derive(Clone, Debug, PartialEq, Eq)]
pub struct ParticipantSol {
    pub ethAddress: [u8; 20],
    pub ccAddress: Vec<u8>,
}

/// The channel parameters as the Solidity contracts see them.
#[allow(non_snake_case)]
#[derive(Clone, Debug, PartialEq, Eq)]
pub struct ParamsSol {
    pub challengeDuration: [u8; 32],
    pub nonce: [u8; 32],
    pub participants: Vec<ParticipantSol>,
    pub app: [u8; 20],
    pub ledgerChannel: bool,
    pub virtualChannel: bool,
}

/// A channel state as the Solidity contracts see it.
#[allow(non_snake_case)]
#[derive(Clone, Debug, PartialEq, Eq)]
pub struct StateSol {
    pub channelID: [u8; 32],
    pub version: u64,
    pub outcome: AllocationSol,
    pub appData: Vec<u8>,
    pub isFinal: bool,
}

/// An asset as the Solidity contracts see it.
#[allow(non_snake_case)]
#[derive(Clone, Debug, PartialEq, Eq)]
pub struct AssetSol {
    pub chainID: [u8; 32],
    pub ethHolder: [u8; 20],
    pub ccHolder: Vec<u8>,
}

/// The allocation of a state: outer dimension of `balances` are the assets,
/// inner dimension the participants.
#[derive(Clone, Debug, PartialEq, Eq)]
pub struct AllocationSol {
    pub assets: Vec<AssetSol>,
    pub backends: Vec<[u8; 32]>,
    pub balances: Vec<Vec<[u8; 32]>>,
    pub locked: Vec<SubAllocSol>,
}

/// A sub-allocation locked in a sub-channel.
#[allow(non_snake_case)]
#[derive(Clone, Debug, PartialEq, Eq)]
pub struct SubAllocSol {
    /// ID is the channelID of the subchannel
    pub ID: Vec<[u8; 32]>,
    /// balances holds the total balance of the subchannel of every asset.
    pub balances: Vec<[u8; 32]>,
    /// indexMap maps each sub-channel participant to a parent channel
    /// participant such that subPart[i] == parentPart[indexMap[i]].
    pub indexMap: Vec<u16>,
}

/// The value of a `ParticipantSol`.
pub struct ParticipantSolView {
    pub eth_address: Seq<u8>,
    pub cc_address: Seq<u8>,
}

/// The value of a `ParamsSol`.
pub struct ParamsSolView {
    pub challenge_duration: Seq<u8>,
    pub nonce: Seq<u8>,
    pub participants: Seq<ParticipantSolView>,
    pub app: Seq<u8>,
    pub ledger_channel: bool,
    pub virtual_channel: bool,
}

/// The value of an `AssetSol`.
pub struct AssetSolView {
    pub chain_id: Seq<u8>,
    pub eth_holder: Seq<u8>,
    pub cc_holder: Seq<u8>,
}

/// The value of a `SubAllocSol`.
pub struct SubAllocSolView {
    pub id: Seq<Seq<u8>>,
    pub balances: Seq<Seq<u8>>,
    pub index_map: Seq<u16>,
}

/// The value of an `AllocationSol`.
pub struct AllocationSolView {
    pub assets: Seq<AssetSolView>,
    pub backends: Seq<Seq<u8>>,
    pub balances: Seq<Seq<Seq<u8>>>,
    pub locked: Seq<SubAllocSolView>,
}

/// The value of a `StateSol`.
pub struct StateSolView {
    pub channel_id: Seq<u8>,
    pub version: u64,
    pub outcome: AllocationSolView,
    pub app_data: Seq<u8>,
    pub is_final: bool,
}

impl View for ParticipantSol {
    type V = ParticipantSolView;

    open spec fn view(&self) -> ParticipantSolView {
        ParticipantSolView { eth_address: self.ethAddress@, cc_address: self.ccAddress@ }
    }
}

impl View for ParamsSol {
    type V = ParamsSolView;

    open spec fn view(&self) -> ParamsSolView {
        ParamsSolView {
            challenge_duration: self.challengeDuration@,
            nonce: self.nonce@,
            participants: self.participants@.map_values(|p: ParticipantSol| p@),
            app: self.app@,
            ledger_channel: self.ledgerChannel,
            virtual_channel: self.virtualChannel,
        }
    }
}

impl View for AssetSol {
    type V = AssetSolView;

    open spec fn view(&self) -> AssetSolView {
        AssetSolView {
            chain_id: self.chainID@,
            eth_holder: self.ethHolder@,
            cc_holder: self.ccHolder@,
        }
    }
}

impl View for SubAllocSol {
    type V = SubAllocSolView;

    open spec fn view(&self) -> SubAllocSolView {
        SubAllocSolView {
            id: word_views(self.ID@),
            balances: word_views(self.balances@),
            index_map: self.indexMap@,
        }
    }
}

impl View for AllocationSol {
    type V = AllocationSolView;

    open spec fn view(&self) -> AllocationSolView {
        AllocationSolView {
            assets: self.assets@.map_values(|a: AssetSol| a@),
            backends: word_views(self.backends@),
            balances: self.balances@.map_values(|r: Vec<[u8; 32]>| word_views(r@)),
            locked: self.locked@.map_values(|l: SubAllocSol| l@),
        }
    }
}

impl View for StateSol {
    type V = StateSolView;

    open spec fn view(&self) -> StateSolView {
        StateSolView {
            channel_id: self.channelID@,
            version: self.version,
            outcome: self.outcome@,
            app_data: self.appData@,
            is_final: self.isFinal,
        }
    }
}

// ---------------------------------------------------------------------------
// ABI encoding
// ---------------------------------------------------------------------------

/// The bytes that `alloy_sol_types::SolValue::abi_encode` gives for the
/// Solidity parameters `p`, encoded as the tuple `(uint256 challengeDuration,
/// uint256 nonce, (address, bytes)[] participants, address app, bool
/// ledgerChannel, bool virtualChannel)`.
pub uninterp spec fn sol_encoded_params(p: ParamsSolView) -> Seq<u8>;

/// Calls `alloy_sol_types::SolValue::abi_encode` on the Solidity parameters
/// `p`, each `uint256` word read as a big-endian `U256`. Claimed: the result
/// is `sol_encoded_params` of `p`, a function of `p` alone.
#[verifier::external_body]
fn abi_encode_params(p: &ParamsSol) -> (v: Vec<u8>)
    ensures
        v@ == sol_encoded_params(p@),
{
    let parts: Vec<(Address, &[u8])> =
        p.participants.iter().map(|q| (Address::from(q.ethAddress), &q.ccAddress[..])).collect();
    let (d, n) = (U256::from_be_bytes(p.challengeDuration), U256::from_be_bytes(p.nonce));
    (d, n, parts, Address::from(p.app), p.ledgerChannel, p.virtualChannel).abi_encode()
}

/// The bytes that `alloy_sol_types::SolValue::abi_encode` gives for the
/// Solidity state `s`, encoded as the tuple `(bytes32 channelID, uint64
/// version, ((uint256, address, bytes)[] assets, bytes32[] backends,
/// bytes32[][] balances, (bytes32[], bytes32[], uint16[])[] locked) outcome,
/// bytes appData, bool isFinal)`. The `uint256` words of the backends, the
/// balances and the locked balances go in as their 32 big-endian bytes typed
/// `bytes32`:
/// the ABI lays out a `uint256` and a `bytes32` alike, as one 32-byte word.
pub uninterp spec fn sol_encoded_state(s: StateSolView) -> Seq<u8>;

/// Calls `alloy_sol_types::SolValue::abi_encode` on the Solidity state `s`.
/// Claimed: the result is `sol_encoded_state` of `s`, a function of `s` alone.
#[verifier::external_body]
pub(crate) fn abi_encode_state(s: &StateSol) -> (v: Vec<u8>)
    ensures
        v@ == sol_encoded_state(s@),
{
    let o = &s.outcome;
    let assets: Vec<_> = o.assets.iter()
        .map(|a| (U256::from_be_bytes(a.chainID), Address::from(a.ethHolder), &a.ccHolder[..])).collect();
    let locked: Vec<_> = o.locked.iter().map(|l| (l.ID.clone(), l.balances.clone(), l.indexMap.clone())).collect();
    let outcome = (assets, o.backends.clone(), o.balances.clone(), locked);
    (s.channelID, s.version, outcome, &s.appData[..], s.isFinal).abi_encode()
}

// ---------------------------------------------------------------------------
// Channel identifier
// ---------------------------------------------------------------------------

/// The Solidity participant of a participant: its Ethereum address, and as
/// cross-chain address the Solana address, Ethereum address and secp256k1
/// key, concatenated (117 bytes).
pub open spec fn spec_participant_sol(p: Participant) -> ParticipantSolView {
    ParticipantSolView {
        eth_address: p.cc_address@,
        cc_address: p.solana_address@ + p.cc_address@ + p.l2_pubkey@,
    }
}

/// The Solidity parameters of a channel: its challenge duration and nonce as
/// `uint256`, its two participants, no app, a ledger channel.
pub open spec fn spec_params_sol(p: Params) -> ParamsSolView {
    ParamsSolView {
        challenge_duration: word_u64(p.challenge_duration),
        nonce: p.nonce@,
        participants: seq![spec_participant_sol(p.a), spec_participant_sol(p.b)],
        app: zeros(20),
        ledger_channel: true,
        virtual_channel: false,
    }
}

/// The identifier of the channel with parameters `p`: the Keccak-256 digest
/// of the ABI encoding of its Solidity parameters.
pub open spec fn spec_channel_id(p: Params) -> Seq<u8> {
    keccak256_digest(sol_encoded_params(spec_params_sol(p)))
}

/// convert_participant converts a Participant into a ParticipantSol
pub fn convert_participant(participant: &Participant) -> (res: ParticipantSol)
    ensures
        res@ == spec_participant_sol(*participant),
{
    let mut part_bytes: Vec<u8> = Vec::new();
    push_array(&mut part_bytes, &participant.solana_address);
    push_array(&mut part_bytes, &participant.cc_address);
    push_array(&mut part_bytes, &participant.l2_pubkey);
    ParticipantSol { ethAddress: participant.cc_address, ccAddress: part_bytes }
}

/// Converts Params to ParamsSol
pub fn convert_params(params: &Params) -> (res: ParamsSol)
    ensures
        res@ == spec_params_sol(*params),
{
    let part_sol_a = convert_participant(&params.a);
    let part_sol_b = convert_participant(&params.b);
    let mut participants_sol: Vec<ParticipantSol> = Vec::new();
    participants_sol.push(part_sol_a);
    participants_sol.push(part_sol_b);
    let app_alloy: [u8; 20] = [0u8; 20];
    let res = ParamsSol {
        challengeDuration: u64_word(params.challenge_duration),
        nonce: params.nonce,
        participants: participants_sol,
        app: app_alloy,
        ledgerChannel: true,
        virtualChannel: false,
    };
    assert(res@.participants =~= spec_params_sol(*params).participants);
    assert(res@.app =~= zeros(20));
    res
}

/// The identifier of the channel with parameters `params`.
pub fn get_channel_id_cross(params: &Params) -> (id: ChannelID)
    ensures
        id.spec_bytes()@ == spec_channel_id(*params),
{
    let params_sol = convert_params(params);
    let encoded_data = abi_encode_params(&params_sol);
    let hash = keccak256(encoded_data.as_slice());
    ChannelID::ID(hash)
}

} // verus!
