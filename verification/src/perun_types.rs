//! The channel: its parameters, its off-chain state and its on-chain control bits.
use vstd::prelude::*;
use crate::error::PerunError;
use crate::multi::{convert_cross_assets, spec_asset_sol, Chain, CrossAsset, bytes_eq, same_assets};
use crate::sol::{abi_encode_state, keccak256, keccak256_digest, push_array, sol_encoded_state, u64_word, word_u64, word_views, zeros, AllocationSol, AssetSol, AssetSolView, AllocationSolView, StateSol, StateSolView, SubAllocSolView};

verus! {

/// Participant represents a participant in the channel.
/// All channels have two participants.
#[derive(Clone, Copy, Debug, PartialEq, Eq)]
pub struct Participant {
    /// The participant's on-chain (Solana) address. The participant receives
    /// payments on this address.
    pub solana_address: [u8; 32],
    /// The participant's Ethereum address.
    pub cc_address: [u8; 20],
    /// Uncompressed secp256k1 public key
    pub l2_pubkey: [u8; 65],
}

impl Participant {
    /// 32 bytes for Pubkey + 20 bytes for Ethereum address
    pub const SPACE: usize = 52;
}

/// ChannelID is the unique identifier for a channel.
/// It is a 32-byte array that can be derived from the channel's participants and parameters.
#[derive(Clone, Copy, Debug, PartialEq, Eq)]
pub enum ChannelID {
    ID([u8; 32]),
}

impl ChannelID {
    /// 32 bytes for the channel ID
    pub const SPACE: usize = 32;

    /// The 32 bytes of the identifier.
    pub open spec fn spec_bytes(self) -> [u8; 32] {
        match self {
            ChannelID::ID(id) => id,
        }
    }

    pub fn as_bytes(&self) -> (r: &[u8; 32])
        ensures
            *r == self.spec_bytes(),
    {
        match self {
            ChannelID::ID(id) => id,
        }
    }
}

/// Balances represents the balance distribution in a channel: for every
/// asset in `tokens`, what party A and what party B hold of it.
#[derive(Clone, Debug, PartialEq, Eq)]
pub struct Balances {
    pub tokens: Vec<CrossAsset>,
    pub bal_a: Vec<u64>,
    pub bal_b: Vec<u64>,
}

/// The value of a `Balances`.
pub struct BalancesView {
    pub tokens: Seq<CrossAsset>,
    pub bal_a: Seq<u64>,
    pub bal_b: Seq<u64>,
}

impl View for Balances {
    type V = BalancesView;

    open spec fn view(&self) -> BalancesView {
        BalancesView { tokens: self.tokens@, bal_a: self.bal_a@, bal_b: self.bal_b@ }
    }
}

/// Params is the on-chain version of go-perun's channel.Params.
#[derive(Clone, Copy, Debug, PartialEq, Eq)]
pub struct Params {
    /// Participant A
    pub a: Participant,
    /// Participant B
    pub b: Participant,
    /// Nonce ensures that the channel is unique (generated off-chain).
    pub nonce: [u8; 32],
    /// challenge_duration is a duration in seconds. A channel can be
    /// force-closed, if it was disputed and the relative time lock is expired
    /// (i.e. the last dispute was at least challenge_duration seconds ago).
    pub challenge_duration: u64,
}

/// ChannelState represents the (off-chain signed) state of a channel.
#[derive(Clone, Debug, PartialEq, Eq)]
pub struct ChannelState {
    /// channel_id is the unique identifier for the channel.
    /// It is the hash of the channel's Params.
    pub channel_id: [u8; 32],
    /// balances represent the balance distribution in the channel.
    pub balances: Balances,
    /// version is incremented on off-chain state updates and therefore
    /// establishes a strict happened-before relation between all states that
    /// belong to a channel.
    pub version: u64,
    /// finalized signals whether a state is considered final. A final state
    /// can be closed gracefully by using the `close` endpoint with both
    /// participants' signatures on the state.
    pub finalized: bool,
}

/// The value of a `ChannelState`.
pub struct ChannelStateView {
    pub channel_id: [u8; 32],
    pub balances: BalancesView,
    pub version: u64,
    pub finalized: bool,
}

impl View for ChannelState {
    type V = ChannelStateView;

    open spec fn view(&self) -> ChannelStateView {
        ChannelStateView {
            channel_id: self.channel_id,
            balances: self.balances@,
            version: self.version,
            finalized: self.finalized,
        }
    }
}

// ---------------------------------------------------------------------------
// The Solidity view of a state, and its hash
// ---------------------------------------------------------------------------

/// The backend code of an asset in the Solidity allocation: 6 for Solana,
/// 1 (Ethereum) for every other chain.
pub open spec fn backend_of(c: CrossAsset) -> u64 {
    if c.chain.0 == Chain::SOLANA_BACKEND_ID {
        Chain::SOLANA_BACKEND_ID
    } else {
        1
    }
}

/// Whether a state has what its Solidity form needs: exactly two assets and
/// at least two balances of each party.
pub open spec fn convertible(s: ChannelStateView) -> bool {
    &&& s.balances.tokens.len() == 2
    &&& s.balances.bal_a.len() >= 2
    &&& s.balances.bal_b.len() >= 2
}

/// The Solidity allocation of a convertible state: two assets, their
/// backends, the balances per asset (A's, then B's), nothing locked.
pub open spec fn spec_allocation_sol(s: ChannelStateView) -> AllocationSolView {
    let t = s.balances.tokens;
    let a = s.balances.bal_a;
    let b = s.balances.bal_b;
    AllocationSolView {
        assets: seq![spec_asset_sol(t[0]), spec_asset_sol(t[1])],
        backends: seq![word_u64(backend_of(t[0])), word_u64(backend_of(t[1]))],
        balances: seq![seq![word_u64(a[0]), word_u64(b[0])], seq![word_u64(a[1]), word_u64(b[1])]],
        locked: Seq::empty(),
    }
}

/// The Solidity state of a convertible state, with empty app data.
pub open spec fn spec_state_sol(s: ChannelStateView) -> StateSolView {
    StateSolView {
        channel_id: s.channel_id@,
        version: s.version,
        outcome: spec_allocation_sol(s),
        app_data: Seq::empty(),
        is_final: s.finalized,
    }
}

/// The prefix of an Ethereum signed 32-byte message: "\x19Ethereum Signed Message:\n32".
pub open spec fn eth_message_prefix() -> Seq<u8> {
    seq![
        0x19u8, 0x45, 0x74, 0x68, 0x65, 0x72, 0x65, 0x75, 0x6d, 0x20, 0x53, 0x69, 0x67, 0x6e,
        0x65, 0x64, 0x20, 0x4d, 0x65, 0x73, 0x73, 0x61, 0x67, 0x65, 0x3a, 0x0a, 0x33, 0x32,
    ]
}

/// The hash that both participants sign for a state: the Ethereum
/// signed-message hash of the Keccak-256 digest of its ABI encoding.
pub open spec fn spec_state_hash(s: ChannelStateView) -> Seq<u8> {
    keccak256_digest(
        eth_message_prefix() + keccak256_digest(sol_encoded_state(spec_state_sol(s))),
    )
}

/// The words holding the values of `xs`.
fn words_of(x0: u64, x1: u64) -> (ws: Vec<[u8; 32]>)
    ensures
        word_views(ws@) == seq![word_u64(x0), word_u64(x1)],
{
    let mut ws: Vec<[u8; 32]> = Vec::new();
    ws.push(u64_word(x0));
    ws.push(u64_word(x1));
    assert(word_views(ws@) =~= seq![word_u64(x0), word_u64(x1)]);
    ws
}

/// The Ethereum signed-message hash of a 32-byte digest: the Keccak-256
/// digest of "\x19Ethereum Signed Message:\n32" followed by the digest.
pub fn eth_signed_message_hash(digest: &[u8; 32]) -> (h: [u8; 32])
    ensures
        h@ == keccak256_digest(eth_message_prefix() + digest@),
{
    let prefix: [u8; 28] = [
        0x19u8, 0x45, 0x74, 0x68, 0x65, 0x72, 0x65, 0x75, 0x6d, 0x20, 0x53, 0x69, 0x67, 0x6e,
        0x65, 0x64, 0x20, 0x4d, 0x65, 0x73, 0x73, 0x61, 0x67, 0x65, 0x3a, 0x0a, 0x33, 0x32,
    ];
    let mut prefix_hash: Vec<u8> = Vec::new();
    push_array(&mut prefix_hash, &prefix);
    push_array(&mut prefix_hash, digest);
    assert(prefix@ =~= eth_message_prefix());
    keccak256(prefix_hash.as_slice())
}

impl ChannelState {
    /// The Solidity allocation of this state; `ConversionError` unless it
    /// has exactly two assets and two balances of each party.
    pub fn convert_allocation(&self) -> (res: Result<AllocationSol, PerunError>)
        ensures
            match res {
                Ok(o) => convertible(self@) && o@ == spec_allocation_sol(self@),
                Err(e) => !convertible(self@) && e == PerunError::ConversionError,
            },
    {
        let cross_assets = &self.balances.tokens;
        let (asset_sol_0, asset_sol_1) = match convert_cross_assets(cross_assets) {
            Ok(pair) => pair,
            Err(e) => return Err(e),
        };
        let backend_0: u64 = if cross_assets[0].chain.as_u64() != Chain::SOLANA_BACKEND_ID {
            1
        } else {
            Chain::SOLANA_BACKEND_ID
        };
        let backend_1: u64 = if cross_assets[1].chain.as_u64() != Chain::SOLANA_BACKEND_ID {
            1
        } else {
            Chain::SOLANA_BACKEND_ID
        };
        if self.balances.bal_a.len() < 2 || self.balances.bal_b.len() < 2 {
            return Err(PerunError::ConversionError);
        }
        let bals_cc_a = self.balances.bal_a[0];
        let bals_solana_a = self.balances.bal_a[1];
        let bals_cc_b = self.balances.bal_b[0];
        let bals_solana_b = self.balances.bal_b[1];
        let mut assets: Vec<AssetSol> = Vec::new();
        assets.push(asset_sol_0);
        assets.push(asset_sol_1);
        let mut balances: Vec<Vec<[u8; 32]>> = Vec::new();
        balances.push(words_of(bals_cc_a, bals_cc_b));
        balances.push(words_of(bals_solana_a, bals_solana_b));
        let o = AllocationSol {
            assets,
            backends: words_of(backend_0, backend_1),
            balances,
            locked: Vec::new(),
        };
        proof {
            let t = self@.balances.tokens;
            assert(o@.assets[0] == spec_asset_sol(t[0]));
            assert(o@.assets[1] == spec_asset_sol(t[1]));
            assert(o@.assets =~= seq![spec_asset_sol(t[0]), spec_asset_sol(t[1])]);
            assert(o@.balances =~= spec_allocation_sol(self@).balances);
            assert(o@.locked =~= Seq::<SubAllocSolView>::empty());
        }
        Ok(o)
    }

    /// The Solidity form of this state; `ConversionError` as for
    /// `convert_allocation`.
    pub fn convert_state(&self) -> (res: Result<StateSol, PerunError>)
        ensures
            match res {
                Ok(s) => convertible(self@) && s@ == spec_state_sol(self@),
                Err(e) => !convertible(self@) && e == PerunError::ConversionError,
            },
    {
        let outcome = match self.convert_allocation() {
            Ok(o) => o,
            Err(e) => return Err(e),
        };
        let s = StateSol {
            channelID: self.channel_id,
            version: self.version,
            outcome,
            appData: Vec::new(),
            isFinal: self.finalized,
        };
        assert(s@.app_data =~= Seq::<u8>::empty());
        Ok(s)
    }

    /// The hash that both participants sign for this state (see
    /// `spec_state_hash`); `ConversionError` as for `convert_allocation`.
    pub fn hash_state_eth_prefixed(&self) -> (res: Result<[u8; 32], PerunError>)
        ensures
            match res {
                Ok(h) => convertible(self@) && h@ == spec_state_hash(self@),
                Err(e) => !convertible(self@) && e == PerunError::ConversionError,
            },
    {
        let state_sol = match self.convert_state() {
            Ok(s) => s,
            Err(e) => return Err(e),
        };
        let state_abienc = abi_encode_state(&state_sol);
        let state_sol_hashed = keccak256(state_abienc.as_slice());
        Ok(eth_signed_message_hash(&state_sol_hashed))
    }

    /// Whether the two states are equal.
    pub fn same_as(&self, other: &ChannelState) -> (r: bool)
        ensures
            r == (self@ == other@),
    {
        let r = bytes_eq(&self.channel_id, &other.channel_id) && same_assets(
            &self.balances.tokens,
            &other.balances.tokens,
        ) && same_u64s(&self.balances.bal_a, &other.balances.bal_a) && same_u64s(
            &self.balances.bal_b,
            &other.balances.bal_b,
        ) && self.version == other.version && self.finalized == other.finalized;
        proof {
            if self.channel_id@ == other.channel_id@ {
                assert(self.channel_id =~= other.channel_id);
            }
        }
        r
    }
}

/// Whether two sequences of numbers are equal.
pub fn same_u64s(a: &Vec<u64>, b: &Vec<u64>) -> (r: bool)
    ensures
        r == (a@ == b@),
{
    if a.len() != b.len() {
        return false;
    }
    let mut i: usize = 0;
    while i < a.len()
        invariant
            0 <= i <= a@.len(),
            a@.len() == b@.len(),
            forall|j: int| 0 <= j < i ==> a@[j] == b@[j],
        decreases a@.len() - i,
    {
        if a[i] != b[i] {
            return false;
        }
        i = i + 1;
    }
    assert(a@ =~= b@);
    true
}

/// Control contains additional information that allows
/// the contract to judge the channel's state.
#[derive(Clone, Copy, Debug, PartialEq, Eq)]
pub struct Control {
    /// funded_a is true, iff A has funded the channel.
    pub funded_a: bool,
    /// funded_b is true, iff B has funded the channel.
    pub funded_b: bool,
    /// closed indicates that a fully funded channel is closed and can be
    /// withdrawn from.
    pub closed: bool,
    /// withdrawn_a is true, iff either A has already withrawn their balance
    /// from a closed channel or A's balance in the closed channel was 0 to
    /// begin with.
    pub withdrawn_a: bool,
    /// withdrawn_b is true, iff either B has already withrawn their balance
    /// from a closed channel or B's balance in the closed channel was 0 to
    /// begin with.
    pub withdrawn_b: bool,
    /// disputed is true, iff the channel was successfully disputed at least once.
    pub disputed: bool,
    /// timestamp must always contain the unix time in seconds of the last
    /// successful dispute. If the channel has not been successfully disputed,
    /// the timestamp value is not significant.
    pub timestamp: u64,
    /// creator of the channel, i.e. the participant that created it.
    pub creator: [u8; 32],
}

impl Control {
    /// 1 + 1 + 1 + 1 + 1 + 1 + 8 + 32
    pub const SPACE: usize = 46;
}

/// A channel: its constant parameters, its latest on-chain state and its
/// control bits.
#[derive(Clone, Debug, PartialEq, Eq)]
pub struct Channel {
    /// params contains the (constant) channel parameters.
    pub params: Params,
    /// state contains the latest (on-chain) channel state.
    /// Note that there can be off-chain state updates that are more recent
    /// (have higher version number) than the registered on-chain state for a
    /// channel.
    pub state: ChannelState,
    /// control contains the channel's control bits.
    pub control: Control,
}

/// The value of a `Channel`.
pub struct ChannelView {
    pub params: Params,
    pub state: ChannelStateView,
    pub control: Control,
}

impl View for Channel {
    type V = ChannelView;

    open spec fn view(&self) -> ChannelView {
        ChannelView { params: self.params, state: self.state@, control: self.control }
    }
}

/// Whether both participants have funded the channel.
pub open spec fn spec_is_funded(c: Control) -> bool {
    c.funded_a && c.funded_b
}

/// Whether both participants have withdrawn from the closed channel.
pub open spec fn spec_is_withdrawn(c: Control) -> bool {
    c.closed && c.withdrawn_a && c.withdrawn_b
}

impl Channel {
    /// The first seed of a channel's program-derived address: "channel".
    pub fn seed_prefix() -> (p: [u8; 7])
        ensures
            p@ == seed_prefix_bytes(),
    {
        let p: [u8; 7] = [0x63u8, 0x68, 0x61, 0x6e, 0x6e, 0x65, 0x6c];
        assert(p@ =~= seed_prefix_bytes());
        p
    }

    /// is_funded checks if both participants have funded the channel.
    pub fn is_funded(&self) -> (r: bool)
        ensures
            r == spec_is_funded(self.control),
    {
        self.control.funded_a && self.control.funded_b
    }

    /// is_withdrawn checks if both participants have withdrawn their
    /// balances from a closed channel.
    pub fn is_withdrawn(&self) -> (r: bool)
        ensures
            r == spec_is_withdrawn(self.control),
    {
        self.control.closed && self.control.withdrawn_a && self.control.withdrawn_b
    }
}

/// The bytes of "channel", the first seed of a channel's address.
pub open spec fn seed_prefix_bytes() -> Seq<u8> {
    seq![0x63u8, 0x68, 0x61, 0x6e, 0x6e, 0x65, 0x6c]
}

} // verus!
