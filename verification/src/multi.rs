//! Assets that live on several chains, and the cross-chain signature check.
use vstd::prelude::*;
use crate::error::PerunError;
use crate::sol::{word_u64, zeros, u64_word, AssetSol, AssetSolView};

verus! {

/// The backend (chain) an asset lives on.
#[derive(Clone, Copy, Debug, PartialEq, Eq, Structural)]
pub struct Chain(pub u64);

impl Chain {
    /// u64 size in bytes
    pub const SPACE: usize = 8;

    /// The backend identifier of Solana.
    pub const SOLANA_BACKEND_ID: u64 = 6;

    pub fn new(value: u64) -> (c: Self)
        ensures
            c.0 == value,
    {
        Chain(value)
    }

    pub fn as_u64(&self) -> (v: u64)
        ensures
            v == self.0,
    {
        self.0
    }
}

/// Whether `a` and `b` hold the same bytes.
pub fn bytes_eq<const N: usize>(a: &[u8; N], b: &[u8; N]) -> (r: bool)
    ensures
        r == (a@ == b@),
{
    let mut i: usize = 0;
    while i < N
        invariant
            0 <= i <= N,
            a@.len() == N,
            b@.len() == N,
            forall|j: int| 0 <= j < i ==> a@[j] == b@[j],
        decreases N - i,
    {
        if a[i] != b[i] {
            return false;
        }
        i = i + 1;
    }
    assert(a@ =~= b@);
    true
}

/// Whether all bytes of `a` are zero.
pub fn is_zero_bytes<const N: usize>(a: &[u8; N]) -> (r: bool)
    ensures
        r == (a@ == zeros(N as nat)),
{
    let mut i: usize = 0;
    while i < N
        invariant
            0 <= i <= N,
            a@.len() == N,
            forall|j: int| 0 <= j < i ==> a@[j] == 0u8,
        decreases N - i,
    {
        if a[i] != 0 {
            assert(a@[i as int] != zeros(N as nat)[i as int]);
            return false;
        }
        i = i + 1;
    }
    assert(a@ =~= zeros(N as nat));
    true
}

/// An asset held on one of the chains of a cross-chain channel.
#[derive(Clone, Copy, Debug, PartialEq, Eq)]
pub struct CrossAsset {
    pub chain: Chain,
    pub solana_address: [u8; 32],
    pub eth_address: [u8; 20],
}

impl CrossAsset {
    /// Chain (u64) + Solana address (Pubkey) + Ethereum address (20 bytes).
    pub const SPACE: usize = 60;

    /// Native SOL is the Solana asset whose address is the all-zero key; any
    /// other Solana asset is the SPL token minted at its address.
    pub open spec fn spec_is_native_sol(self) -> bool {
        self.solana_address@ == zeros(32)
    }

    /// Whether this Solana asset is native SOL (rather than an SPL token).
    pub fn is_native_sol(&self) -> (r: bool)
        ensures
            r == self.spec_is_native_sol(),
    {
        is_zero_bytes(&self.solana_address)
    }

    /// Whether the two assets are the same.
    pub fn same_as(&self, other: &CrossAsset) -> (r: bool)
        ensures
            r == (*self == *other),
    {
        let r = self.chain.0 == other.chain.0 && bytes_eq(&self.solana_address, &other.solana_address)
            && bytes_eq(&self.eth_address, &other.eth_address);
        proof {
            if self.solana_address@ == other.solana_address@ {
                assert(self.solana_address =~= other.solana_address);
            }
            if self.eth_address@ == other.eth_address@ {
                assert(self.eth_address =~= other.eth_address);
            }
        }
        r
    }
}

/// Whether two sequences of assets are equal.
pub fn same_assets(a: &Vec<CrossAsset>, b: &Vec<CrossAsset>) -> (r: bool)
    ensures
        r == (a@ == b@),
{
    if a.len() != b.len() {
        return false;
    }
    let mut i: usize = 0;
    while i < a.len()
        invariant
            0 <= i <= a@.len(),
            a@.len() == b@.len(),
            forall|j: int| 0 <= j < i ==> a@[j] == b@[j],
        decreases a@.len() - i,
    {
        if !a[i].same_as(&b[i]) {
            return false;
        }
        i = i + 1;
    }
    assert(a@ =~= b@);
    true
}

// ---------------------------------------------------------------------------
// Conversion to the Solidity asset
// ---------------------------------------------------------------------------

/// The Solidity asset of a cross-chain asset: its chain as a `uint256`; on
/// Solana the Solana address as holder and the zero Ethereum address, on any
/// other chain the Ethereum address and 32 zero bytes.
pub open spec fn spec_asset_sol(c: CrossAsset) -> AssetSolView {
    if c.chain.0 == Chain::SOLANA_BACKEND_ID {
        AssetSolView {
            chain_id: word_u64(c.chain.0),
            eth_holder: zeros(20),
            cc_holder: c.solana_address@,
        }
    } else {
        AssetSolView {
            chain_id: word_u64(c.chain.0),
            eth_holder: c.eth_address@,
            cc_holder: zeros(32),
        }
    }
}

fn array_to_vec<const N: usize>(a: &[u8; N]) -> (v: Vec<u8>)
    ensures
        v@ == a@,
{
    let mut v: Vec<u8> = Vec::new();
    let mut i: usize = 0;
    while i < N
        invariant
            0 <= i <= N,
            a@.len() == N,
            v@ == a@.subrange(0, i as int),
        decreases N - i,
    {
        v.push(a[i]);
        assert(a@.subrange(0, (i + 1) as int) =~= a@.subrange(0, i as int).push(a@[i as int]));
        i = i + 1;
    }
    assert(a@.subrange(0, N as int) =~= a@);
    v
}

fn convert_asset(cross_asset: &CrossAsset) -> (asset: AssetSol)
    ensures
        asset@ == spec_asset_sol(*cross_asset),
{
    let chain_id = u64_word(cross_asset.chain.as_u64());
    if cross_asset.chain.as_u64() != Chain::SOLANA_BACKEND_ID {
        let zero_cc_address: [u8; 32] = [0u8; 32];
        let cc = array_to_vec(&zero_cc_address);
        assert(cc@ =~= zeros(32));
        AssetSol { chainID: chain_id, ethHolder: cross_asset.eth_address, ccHolder: cc }
    } else {
        let zero_eth_address: [u8; 20] = [0u8; 20];
        assert(zero_eth_address@ =~= zeros(20));
        AssetSol {
            chainID: chain_id,
            ethHolder: zero_eth_address,
            ccHolder: array_to_vec(&cross_asset.solana_address),
        }
    }
}

/// Converts the two assets of a channel into their Solidity form; fails with
/// `ConversionError` unless there are exactly two.
pub fn convert_cross_assets(cross_assets: &Vec<CrossAsset>) -> (res: Result<
    (AssetSol, AssetSol),
    PerunError,
>)
    ensures
        cross_assets@.len() != 2 ==> res == Err::<(AssetSol, AssetSol), PerunError>(
            PerunError::ConversionError,
        ),
        cross_assets@.len() == 2 ==> (res matches Ok((a0, a1)) && a0@ == spec_asset_sol(cross_assets@[0])
            && a1@ == spec_asset_sol(cross_assets@[1])),
{
    if cross_assets.len() != 2 {
        return Err(PerunError::ConversionError);
    }
    Ok((convert_asset(&cross_assets[0]), convert_asset(&cross_assets[1])))
}

// ---------------------------------------------------------------------------
// Signatures
// ---------------------------------------------------------------------------

#[verifier::external_type_specification]
#[verifier::external_body]
pub struct ExSecp256k1RecoverError(solana_program::secp256k1_recover::Secp256k1RecoverError);

/// The 64-byte public key (X || Y) that `solana_program::secp256k1_recover`
/// recovers from a 32-byte message hash, a recovery id and a 64-byte
/// signature (r || s), or `None` where it returns an error.
pub uninterp spec fn secp256k1_recovered_key(hash: Seq<u8>, recovery_id: u8, signature: Seq<u8>) -> Option<Seq<u8>>;

/// Calls `solana_program::secp256k1_recover::secp256k1_recover`. Claimed: it
/// succeeds exactly when `secp256k1_recovered_key` is `Some`, and then returns
/// that key; the error value is not described.
#[verifier::external_body]
fn secp256k1_recover(hash: &[u8; 32], recovery_id: u8, signature: &[u8; 64]) -> (res: Result<
    [u8; 64],
    solana_program::secp256k1_recover::Secp256k1RecoverError,
>)
    ensures
        res is Ok <==> secp256k1_recovered_key(hash@, recovery_id, signature@) is Some,
        res matches Ok(k) ==> secp256k1_recovered_key(hash@, recovery_id, signature@) == Some(k@),
{
    solana_program::secp256k1_recover::secp256k1_recover(hash, recovery_id, signature).map(|k| k.0)
}

/// The recovery id that the last byte `v` of a signature stands for: 0 and 1
/// as they are, 27 and 28 in the Ethereum convention.
pub open spec fn recovery_id_of(v: u8) -> Option<u8> {
    if v == 0 || v == 1 {
        Some(v)
    } else if v == 27 || v == 28 {
        Some((v - 27) as u8)
    } else {
        None
    }
}

/// The outcome of checking the signature `sig` (r || s || v) of the message
/// hash `msg` against the uncompressed public key `key` (0x04 || X || Y).
pub open spec fn signature_check(key: Seq<u8>, msg: Seq<u8>, sig: Seq<u8>) -> Result<(), PerunError> {
    match recovery_id_of(sig[64]) {
        None => Err(PerunError::InvalidSignature),
        Some(rid) => match secp256k1_recovered_key(msg, rid, sig.subrange(0, 64)) {
            None => Err(PerunError::SecpRecoveryFailed),
            Some(k) => if k == key.subrange(1, 65) {
                Ok(())
            } else {
                Err(PerunError::InvalidSignature)
            },
        },
    }
}

/// A participant's off-chain (secp256k1) public key.
#[derive(Clone, Copy, Debug, PartialEq, Eq)]
pub struct ChannelPubKeyCross {
    /// Uncompressed secp256k1 public key
    pub key: [u8; 65],
}

impl ChannelPubKeyCross {
    /// Checks an Ethereum-style signature (r || s || v) of the 32-byte message
    /// hash `msg_bytes`: the key recovered from it must be this key.
    pub fn verify_signature_cross(&self, msg_bytes: &[u8; 32], sig: &[u8; 65]) -> (res: Result<
        (),
        PerunError,
    >)
        ensures
            res == signature_check(self.key@, msg_bytes@, sig@),
    {
        let mut r_s: [u8; 64] = [0u8; 64];
        let mut i: usize = 0;
        while i < 64
            invariant
                0 <= i <= 64,
                sig@.len() == 65,
                r_s@.len() == 64,
                forall|j: int| 0 <= j < i ==> r_s@[j] == sig@[j],
            decreases 64 - i,
        {
            r_s[i] = sig[i];
            i = i + 1;
        }
        assert(r_s@ =~= sig@.subrange(0, 64));
        let v = sig[64];
        let recovery_id: u8 = if v == 0 || v == 1 {
            v
        } else if v == 27 || v == 28 {
            v - 27
        } else {
            return Err(PerunError::InvalidSignature);
        };
        let recovered = match secp256k1_recover(msg_bytes, recovery_id, &r_s) {
            Ok(k) => k,
            Err(_) => return Err(PerunError::SecpRecoveryFailed),
        };
        let mut j: usize = 0;
        while j < 64
            invariant
                0 <= j <= 64,
                self.key@.len() == 65,
                recovered@.len() == 64,
                sig@.len() == 65,
                recovery_id_of(sig@[64]) == Some(recovery_id),
                secp256k1_recovered_key(msg_bytes@, recovery_id, sig@.subrange(0, 64)) == Some(
                    recovered@,
                ),
                forall|t: int| 0 <= t < j ==> recovered@[t] == self.key@[t + 1],
            decreases 64 - j,
        {
            if recovered[j] != self.key[j + 1] {
                assert(recovered@[j as int] != self.key@.subrange(1, 65)[j as int]);
                assert(recovered@ != self.key@.subrange(1, 65));
                return Err(PerunError::InvalidSignature);
            }
            j = j + 1;
        }
        assert(recovered@ =~= self.key@.subrange(1, 65));
        Ok(())
    }
}

} // verus!
