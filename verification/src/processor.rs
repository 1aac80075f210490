//! The decisions of the program's instructions.
//!
//! Each instruction is a function from what the program reads (its accounts,
//! the deserialized channel, the clock and the rent) to what it does: the
//! channel account to create, store or close, the lamport balances it leaves,
//! and the token transfers it asks the token program for, in order.
use vstd::prelude::*;
use crate::error::{PerunError, ProgramError};
use crate::instructions::{AccountSnapshot, PerunInstruction};
use crate::multi::{bytes_eq, signature_check, Chain, ChannelPubKeyCross, CrossAsset, same_assets};
use crate::perun_types::{
    convertible, seed_prefix_bytes, spec_is_funded, spec_is_withdrawn, spec_state_hash, Channel,
    ChannelID, ChannelState, ChannelStateView, ChannelView, Control, Params,
};
use crate::sol::spec_channel_id;
use crate::sol::get_channel_id_cross;

verus! {

// ---------------------------------------------------------------------------
// What an instruction does
// ---------------------------------------------------------------------------

/// A transfer of an SPL token that the instruction asks the token program for.
#[derive(Clone, Copy, Debug, PartialEq, Eq)]
pub struct TokenTransfer {
    /// The index of the token in the channel's balances.
    pub token: usize,
    /// The amount to transfer.
    pub amount: u64,
    /// The index of the first of the accounts that the transfer uses (the
    /// mint, then the token accounts and programs).
    pub first_account: usize,
    /// The index of the account of the party that pays in (funding) or is
    /// paid (payouts); its token account takes part in the transfer.
    pub party: usize,
}

/// What becomes of the channel account.
#[derive(Clone, Debug)]
pub enum ChannelUpdate {
    /// Create it at the derived address with this bump seed, holding `channel`.
    Create { channel: Channel, bump: u8 },
    /// Store `channel` in it.
    Store(Channel),
    /// Close it: its data is erased and it returns to the system program.
    Close,
}

/// The effect of a successful instruction.
#[derive(Clone, Debug)]
pub struct Plan {
    pub update: ChannelUpdate,
    /// The lamports of every account passed to the instruction afterwards.
    pub lamports: Vec<u64>,
    /// The token transfers, in the order in which they are made.
    pub transfers: Vec<TokenTransfer>,
}

/// The value of a `ChannelUpdate`.
#[verifier::ext_equal]
pub enum ChannelUpdateView {
    Create(ChannelView, u8),
    Store(ChannelView),
    Close,
}

/// The value of a `Plan`.
#[verifier::ext_equal]
pub struct PlanView {
    pub update: ChannelUpdateView,
    pub lamports: Seq<u64>,
    pub transfers: Seq<TokenTransfer>,
}

impl View for ChannelUpdate {
    type V = ChannelUpdateView;

    open spec fn view(&self) -> ChannelUpdateView {
        match self {
            ChannelUpdate::Create { channel, bump } => ChannelUpdateView::Create(channel@, *bump),
            ChannelUpdate::Store(c) => ChannelUpdateView::Store(c@),
            ChannelUpdate::Close => ChannelUpdateView::Close,
        }
    }
}

impl View for Plan {
    type V = PlanView;

    open spec fn view(&self) -> PlanView {
        PlanView { update: self.update@, lamports: self.lamports@, transfers: self.transfers@ }
    }
}

/// The value of the outcome of an instruction.
pub open spec fn outcome_view(res: Result<Plan, ProgramError>) -> Result<PlanView, ProgramError> {
    match res {
        Ok(p) => Ok(p@),
        Err(e) => Err(e),
    }
}

/// The lamports of the accounts.
pub open spec fn lamports_of(accounts: Seq<AccountSnapshot>) -> Seq<u64> {
    accounts.map_values(|a: AccountSnapshot| a.lamports)
}

/// A plan that changes no balance and makes no transfer.
pub open spec fn plain_plan(update: ChannelUpdateView, accounts: Seq<AccountSnapshot>) -> PlanView {
    PlanView { update, lamports: lamports_of(accounts), transfers: Seq::empty() }
}

fn initial_lamports(accounts: &Vec<AccountSnapshot>) -> (ls: Vec<u64>)
    ensures
        ls@ == lamports_of(accounts@),
{
    let mut ls: Vec<u64> = Vec::new();
    let mut i: usize = 0;
    while i < accounts.len()
        invariant
            0 <= i <= accounts@.len(),
            ls@ == lamports_of(accounts@.take(i as int)),
        decreases accounts@.len() - i,
    {
        ls.push(accounts[i].lamports);
        assert(lamports_of(accounts@.take((i + 1) as int)) =~= lamports_of(accounts@.take(i as int)).push(accounts@[i as int].lamports));
        i = i + 1;
    }
    assert(accounts@.take(accounts@.len() as int) =~= accounts@);
    ls
}

// ---------------------------------------------------------------------------
// The channel account
// ---------------------------------------------------------------------------

/// The program-derived address and bump seed that
/// `Pubkey::try_find_program_address` finds for `seeds` under `program_id`,
/// or `None` where it finds none.
pub uninterp spec fn program_address(seeds: Seq<Seq<u8>>, program_id: Seq<u8>) -> Option<(Seq<u8>, u8)>;

/// Calls `solana_program::pubkey::Pubkey::try_find_program_address` with the
/// two seeds. Claimed: it returns `program_address` of the seeds and the
/// program id, a function of them alone.
#[verifier::external_body]
fn try_find_program_address(seed0: &[u8], seed1: &[u8], program_id: &[u8; 32]) -> (res: Option<([u8; 32], u8)>)
    ensures
        match res {
            Some((k, b)) => program_address(seq![seed0@, seed1@], program_id@) == Some((k@, b)),
            None => program_address(seq![seed0@, seed1@], program_id@) is None,
        },
{
    solana_program::pubkey::Pubkey::try_find_program_address(
        &[seed0, seed1],
        &solana_program::pubkey::Pubkey::new_from_array(*program_id),
    ).map(|(k, b)| (k.to_bytes(), b))
}

/// The address and bump seed of the account of the channel `channel_id`:
/// derived from the seeds "channel" and the identifier.
pub open spec fn spec_channel_address(channel_id: [u8; 32], program_id: [u8; 32]) -> Option<(Seq<u8>, u8)> {
    program_address(seq![seed_prefix_bytes(), channel_id@], program_id@)
}

/// Finds the address and bump seed of the account of the channel `channel_id`.
pub fn find_channel_address(channel_id: &[u8; 32], program_id: &[u8; 32]) -> (res: Option<([u8; 32], u8)>)
    ensures
        match res {
            Some((k, b)) => spec_channel_address(*channel_id, *program_id) == Some((k@, b)),
            None => spec_channel_address(*channel_id, *program_id) is None,
        },
{
    let prefix = Channel::seed_prefix();
    try_find_program_address(&prefix, channel_id, program_id)
}

/// The first checks of every instruction on a channel: the instruction has
/// at least `needed` accounts, and the first is the channel's account. The
/// program aborts where no address can be derived. Gives the bump seed.
pub open spec fn spec_locate(
    program_id: [u8; 32],
    accounts: Seq<AccountSnapshot>,
    needed: nat,
    channel_id: [u8; 32],
) -> Result<u8, ProgramError> {
    if accounts.len() < needed {
        Err(ProgramError::NotEnoughAccountKeys)
    } else {
        match spec_channel_address(channel_id, program_id) {
            None => Err(ProgramError::Aborted),
            Some((k, b)) => if accounts[0].key@ != k {
                Err(ProgramError::InvalidArgument)
            } else {
                Ok(b)
            },
        }
    }
}

fn locate(program_id: &[u8; 32], accounts: &Vec<AccountSnapshot>, needed: usize, channel_id: &[u8; 32]) -> (res: Result<u8, ProgramError>)
    requires
        needed >= 1,
    ensures
        res == spec_locate(*program_id, accounts@, needed as nat, *channel_id),
{
    if accounts.len() < needed {
        return Err(ProgramError::NotEnoughAccountKeys);
    }
    match find_channel_address(channel_id, program_id) {
        None => Err(ProgramError::Aborted),
        Some((k, b)) => {
            if !bytes_eq(&accounts[0].key, &k) {
                Err(ProgramError::InvalidArgument)
            } else {
                Ok(b)
            }
        },
    }
}

// ---------------------------------------------------------------------------
// State transitions and the time lock
// ---------------------------------------------------------------------------

/// Whether asset `i` has both parties' balances in both states, with the
/// same total in both (the totals taken as integers).
pub open spec fn keeps_total(old: ChannelStateView, new: ChannelStateView, i: int) -> bool {
    &&& i < old.balances.bal_b.len()
    &&& i < new.balances.bal_a.len()
    &&& i < new.balances.bal_b.len()
    &&& old.balances.bal_a[i] + old.balances.bal_b[i] == new.balances.bal_a[i] + new.balances.bal_b[i]
}

/// Whether the check of a transition gets to comparing the totals.
pub open spec fn transition_compares_totals(old: ChannelStateView, new: ChannelStateView) -> bool {
    &&& !old.finalized
    &&& !(old.version == 0 && new.version == 0)
    &&& old.version < new.version
    &&& old.channel_id == new.channel_id
    &&& old.balances.tokens == new.balances.tokens
}

/// There is a valid transition from the old state to the new state iff the
/// old one is not final and either both have version 0 and are equal, or
/// the version strictly increases, the channel and the assets stay the same
/// and every asset of party A's old balances keeps its total over both
/// parties (a balance missing from either state makes the transition
/// invalid).
pub open spec fn spec_valid_transition(old: ChannelStateView, new: ChannelStateView) -> bool {
    if old.finalized {
        false
    } else if old.version == 0 && new.version == 0 {
        old == new
    } else if old.version >= new.version {
        false
    } else if old.channel_id != new.channel_id {
        false
    } else if old.balances.tokens != new.balances.tokens {
        false
    } else {
        forall|i: int| 0 <= i < old.balances.bal_a.len() ==> #[trigger] keeps_total(old, new, i)
    }
}

/// is_valid_state_transition returns true, iff there is a valid transition
/// from the old state to the new state.
pub fn is_valid_state_transition(old: &ChannelState, new: &ChannelState) -> (r: bool)
    ensures
        r == spec_valid_transition(old@, new@),
{
    if old.finalized {
        return false;
    }
    if old.version == 0 && new.version == 0 {
        return old.same_as(new);
    } else if old.version >= new.version {
        return false;
    }
    if !bytes_eq(&old.channel_id, &new.channel_id) {
        proof {
            if old.channel_id@ == new.channel_id@ {
                assert(old.channel_id =~= new.channel_id);
            }
        }
        return false;
    }
    proof {
        assert(old.channel_id =~= new.channel_id);
    }
    if !same_assets(&old.balances.tokens, &new.balances.tokens) {
        return false;
    }
    let mut i: usize = 0;
    while i < old.balances.bal_a.len()
        invariant
            0 <= i <= old@.balances.bal_a.len(),
            transition_compares_totals(old@, new@),
            forall|j: int| 0 <= j < i ==> #[trigger] keeps_total(old@, new@, j),
        decreases old@.balances.bal_a.len() - i,
    {
        if i >= old.balances.bal_b.len() || i >= new.balances.bal_a.len() || i >= new.balances.bal_b.len() {
            assert(!keeps_total(old@, new@, i as int));
            return false;
        }
        let total_old: u128 = old.balances.bal_a[i] as u128 + old.balances.bal_b[i] as u128;
        let total_new: u128 = new.balances.bal_a[i] as u128 + new.balances.bal_b[i] as u128;
        if total_old != total_new {
            assert(!keeps_total(old@, new@, i as int));
            return false;
        }
        assert(keeps_total(old@, new@, i as int));
        i = i + 1;
    }
    true
}

/// Whether the relative time lock of a disputed channel has expired at
/// `current_time`: its last dispute was at least `challenge_duration`
/// seconds ago.
pub open spec fn spec_timelock_expired(channel: ChannelView, current_time: u64) -> bool {
    channel.control.disputed && channel.control.timestamp + channel.params.challenge_duration
        <= current_time
}

/// Whether checking the time lock overflows (the program aborts).
pub open spec fn timelock_overflows(channel: ChannelView) -> bool {
    channel.control.disputed && channel.control.timestamp + channel.params.challenge_duration
        > u64::MAX
}

/// is_timelock_expired checks, if the relative timelock that (re)starts with
/// a dispute has expired at `current_time`. The timelock is considered to be
/// expired, iff the channel has been disputed at least once and the last
/// dispute was at least challenge_duration seconds ago.
pub fn is_timelock_expired(channel: &Channel, current_time: u64) -> (r: bool)
    requires
        !timelock_overflows(channel@),
    ensures
        r == spec_timelock_expired(channel@, current_time),
{
    if !channel.control.disputed {
        return false;
    }
    channel.control.timestamp + channel.params.challenge_duration <= current_time
}

/// Whether the party whose balances are `amount` has nothing to pay in on
/// Solana: every Solana asset of `tokens` that has a balance in `amount` has
/// balance 0.
pub open spec fn spec_funded(tokens: Seq<CrossAsset>, amount: Seq<u64>) -> bool {
    forall|i: int|
        0 <= i < tokens.len() && tokens[i].chain.0 == Chain::SOLANA_BACKEND_ID && i < amount.len()
            ==> #[trigger] amount[i] == 0
}

/// get_funded looks if other party has to fund
pub fn get_funded(tokens: &Vec<CrossAsset>, amount: &Vec<u64>) -> (r: bool)
    ensures
        r == spec_funded(tokens@, amount@),
{
    let mut funded = true;
    let mut i: usize = 0;
    while i < tokens.len()
        invariant
            0 <= i <= tokens@.len(),
            funded == spec_funded(tokens@.take(i as int), amount@),
        decreases tokens@.len() - i,
    {
        let token = &tokens[i];
        if token.chain.as_u64() == Chain::SOLANA_BACKEND_ID {
            if i < amount.len() {
                if amount[i] > 0 {
                    funded = false;
                }
            }
        }
        proof {
            let pre = tokens@.take(i as int);
            let post = tokens@.take((i + 1) as int);
            assert(post =~= pre.push(tokens@[i as int]));
            if spec_funded(post, amount@) {
                assert forall|k: int|
                    0 <= k < pre.len() && pre[k].chain.0 == Chain::SOLANA_BACKEND_ID && k < amount@.len()
                        implies #[trigger] amount@[k] == 0 by {
                    assert(post[k] == pre[k]);
                }
            }
        }
        i = i + 1;
    }
    assert(tokens@.take(tokens@.len() as int) =~= tokens@);
    funded
}

/// The channel that the program deserialized from the channel account, if any.
pub open spec fn opt_view(channel: Option<Channel>) -> Option<ChannelView> {
    match channel {
        Some(c) => Some(c@),
        None => None,
    }
}

// ---------------------------------------------------------------------------
// Open
// ---------------------------------------------------------------------------

/// Opening a channel: the state must belong to the parameters (its channel
/// identifier is theirs), the channel account (first account, then the
/// payer and the system program) must be the channel's derived address and
/// empty, and the state must be the initial one (version 0, not final). The
/// channel is created with all control bits off, the current time and the
/// payer as creator.
pub open spec fn spec_open(
    program_id: [u8; 32],
    accounts: Seq<AccountSnapshot>,
    params: Params,
    state: ChannelStateView,
    now: i64,
) -> Result<PlanView, ProgramError> {
    if spec_channel_id(params) != state.channel_id@ {
        Err(ProgramError::Perun(PerunError::ChannelIDMismatch))
    } else {
        match spec_locate(program_id, accounts, 3, state.channel_id) {
            Err(e) => Err(e),
            Ok(bump) => if !accounts[0].data_is_empty {
                Err(ProgramError::Perun(PerunError::ChannelAlreadyExists))
            } else if state.version != 0 {
                Err(ProgramError::Perun(PerunError::InvalidVersionNumber))
            } else if state.finalized {
                Err(ProgramError::Perun(PerunError::OpenOnFinalState))
            } else {
                Ok(
                    plain_plan(
                        ChannelUpdateView::Create(
                            ChannelView {
                                params,
                                state,
                                control: Control {
                                    funded_a: false,
                                    funded_b: false,
                                    closed: false,
                                    withdrawn_a: false,
                                    withdrawn_b: false,
                                    disputed: false,
                                    timestamp: now as u64,
                                    creator: accounts[1].key,
                                },
                            },
                            bump,
                        ),
                        accounts,
                    ),
                )
            },
        }
    }
}

/// Opens a channel with the parameters `params` in its initial state `state`.
pub fn process_open(
    program_id: &[u8; 32],
    accounts: &Vec<AccountSnapshot>,
    params: Params,
    state: ChannelState,
    now: i64,
) -> (res: Result<Plan, ProgramError>)
    ensures
        outcome_view(res) == spec_open(*program_id, accounts@, params, state@, now),
{
    let cid = get_channel_id_cross(&params);
    if !bytes_eq(cid.as_bytes(), &state.channel_id) {
        return Err(ProgramError::Perun(PerunError::ChannelIDMismatch));
    }
    let bump = locate(program_id, accounts, 3, &state.channel_id)?;
    if !accounts[0].data_is_empty {
        return Err(ProgramError::Perun(PerunError::ChannelAlreadyExists));
    }
    if state.version != 0 {
        return Err(ProgramError::Perun(PerunError::InvalidVersionNumber));
    }
    if state.finalized {
        return Err(ProgramError::Perun(PerunError::OpenOnFinalState));
    }
    let control = Control {
        funded_a: false,
        funded_b: false,
        closed: false,
        withdrawn_a: false,
        withdrawn_b: false,
        disputed: false,
        timestamp: now as u64,
        creator: accounts[1].key,
    };
    let channel = Channel { params, state, control };
    Ok(Plan {
        update: ChannelUpdate::Create { channel, bump },
        lamports: initial_lamports(accounts),
        transfers: Vec::new(),
    })
}

// ---------------------------------------------------------------------------
// Close
// ---------------------------------------------------------------------------

/// Whether every balance of `bals` is zero.
pub open spec fn all_zero(bals: Seq<u64>) -> bool {
    forall|i: int| 0 <= i < bals.len() ==> #[trigger] bals[i] == 0
}

/// The control bits of a channel as it closes, its balances being `bal_a`
/// and `bal_b`: closed, and a party whose balance is all zero counts as
/// withdrawn.
pub open spec fn closing_control(c: Control, bal_a: Seq<u64>, bal_b: Seq<u64>) -> Control {
    Control {
        closed: true,
        withdrawn_a: c.withdrawn_a || all_zero(bal_a),
        withdrawn_b: c.withdrawn_b || all_zero(bal_b),
        ..c
    }
}

/// Whether every balance of `bals` is zero.
pub fn is_all_zero(bals: &Vec<u64>) -> (r: bool)
    ensures
        r == all_zero(bals@),
{
    let mut i: usize = 0;
    while i < bals.len()
        invariant
            0 <= i <= bals@.len(),
            forall|j: int| 0 <= j < i ==> #[trigger] bals@[j] == 0,
        decreases bals@.len() - i,
    {
        if bals[i] != 0 {
            return false;
        }
        i = i + 1;
    }
    true
}

/// Marks the channel closed, with its current balances.
fn close_channel(channel: &mut Channel)
    ensures
        final(channel).params == old(channel).params,
        final(channel).state == old(channel).state,
        final(channel).control == closing_control(
            old(channel).control,
            old(channel).state.balances.bal_a@,
            old(channel).state.balances.bal_b@,
        ),
{
    let zero_a = is_all_zero(&channel.state.balances.bal_a);
    let zero_b = is_all_zero(&channel.state.balances.bal_b);
    channel.control.closed = true;
    channel.control.withdrawn_a = channel.control.withdrawn_a || zero_a;
    channel.control.withdrawn_b = channel.control.withdrawn_b || zero_b;
}

/// The channel after a close on the final state `state`: closed, with the
/// version, balances and finality of `state` (assets and identifier stay);
/// a party whose balance in `state` is all zero counts as withdrawn.
pub open spec fn closed_channel(c: ChannelView, state: ChannelStateView) -> ChannelView {
    ChannelView {
        params: c.params,
        state: ChannelStateView {
            channel_id: c.state.channel_id,
            balances: crate::perun_types::BalancesView {
                tokens: c.state.balances.tokens,
                bal_a: state.balances.bal_a,
                bal_b: state.balances.bal_b,
            },
            version: state.version,
            finalized: state.finalized,
        },
        control: closing_control(c.control, state.balances.bal_a, state.balances.bal_b),
    }
}

/// Closing a channel on a final state signed by both participants: the
/// state must be final, the channel funded, the state convertible to its
/// Solidity form, and both signatures must be valid on its hash.
pub open spec fn spec_close(
    program_id: [u8; 32],
    accounts: Seq<AccountSnapshot>,
    state: ChannelStateView,
    sig_a: Seq<u8>,
    sig_b: Seq<u8>,
    channel: Option<ChannelView>,
) -> Result<PlanView, ProgramError> {
    match spec_locate(program_id, accounts, 1, state.channel_id) {
        Err(e) => Err(e),
        Ok(_) => match channel {
            None => Err(ProgramError::BorshIoError),
            Some(c) => if !state.finalized {
                Err(ProgramError::Perun(PerunError::CloseOnNonFinalState))
            } else if !spec_is_funded(c.control) {
                Err(ProgramError::Perun(PerunError::OperationOnUnfundedChannel))
            } else if !convertible(state) {
                Err(ProgramError::Perun(PerunError::ConversionError))
            } else if signature_check(c.params.a.l2_pubkey@, spec_state_hash(state), sig_a) is Err {
                Err(ProgramError::Perun(PerunError::InvalidSignature))
            } else if signature_check(c.params.b.l2_pubkey@, spec_state_hash(state), sig_b) is Err {
                Err(ProgramError::Perun(PerunError::InvalidSignature))
            } else {
                Ok(plain_plan(ChannelUpdateView::Store(closed_channel(c, state)), accounts))
            },
        },
    }
}

/// Checks both participants' signatures on the state hash `hash`.
fn check_signatures(params: &Params, hash: &[u8; 32], sig_a: &[u8; 65], sig_b: &[u8; 65]) -> (r: bool)
    ensures
        r == (signature_check(params.a.l2_pubkey@, hash@, sig_a@) is Ok && signature_check(
            params.b.l2_pubkey@,
            hash@,
            sig_b@,
        ) is Ok),
{
    let pub_key_a = ChannelPubKeyCross { key: params.a.l2_pubkey };
    let pub_key_b = ChannelPubKeyCross { key: params.b.l2_pubkey };
    if pub_key_a.verify_signature_cross(hash, sig_a).is_err() {
        return false;
    }
    if pub_key_b.verify_signature_cross(hash, sig_b).is_err() {
        return false;
    }
    true
}

/// Closes a channel on a final state signed by both participants.
pub fn process_close(
    program_id: &[u8; 32],
    accounts: &Vec<AccountSnapshot>,
    state: ChannelState,
    sig_a: [u8; 65],
    sig_b: [u8; 65],
    channel: Option<Channel>,
) -> (res: Result<Plan, ProgramError>)
    ensures
        outcome_view(res) == spec_close(*program_id, accounts@, state@, sig_a@, sig_b@, opt_view(channel)),
{
    locate(program_id, accounts, 1, &state.channel_id)?;
    let mut channel = match channel {
        None => return Err(ProgramError::BorshIoError),
        Some(c) => c,
    };
    if !state.finalized {
        return Err(ProgramError::Perun(PerunError::CloseOnNonFinalState));
    }
    if !channel.is_funded() {
        return Err(ProgramError::Perun(PerunError::OperationOnUnfundedChannel));
    }
    let hash = match state.hash_state_eth_prefixed() {
        Ok(h) => h,
        Err(e) => return Err(ProgramError::Perun(e)),
    };
    if !check_signatures(&channel.params, &hash, &sig_a, &sig_b) {
        return Err(ProgramError::Perun(PerunError::InvalidSignature));
    }
    channel.state.version = state.version;
    channel.state.balances.bal_a = state.balances.bal_a;
    channel.state.balances.bal_b = state.balances.bal_b;
    channel.state.finalized = state.finalized;
    close_channel(&mut channel);
    Ok(Plan {
        update: ChannelUpdate::Store(channel),
        lamports: initial_lamports(accounts),
        transfers: Vec::new(),
    })
}

// ---------------------------------------------------------------------------
// Dispute
// ---------------------------------------------------------------------------

/// Disputing a channel registers a newer state signed by both participants:
/// the channel must be funded and not closed, the transition valid, and both
/// signatures valid on the new state's hash. The program aborts where the
/// new state has no Solidity form (its hash cannot be taken). The channel
/// takes the new state, is marked disputed and its time lock restarts now.
pub open spec fn spec_dispute(
    program_id: [u8; 32],
    accounts: Seq<AccountSnapshot>,
    new_state: ChannelStateView,
    sig_a: Seq<u8>,
    sig_b: Seq<u8>,
    channel: Option<ChannelView>,
    now: i64,
) -> Result<PlanView, ProgramError> {
    match spec_locate(program_id, accounts, 1, new_state.channel_id) {
        Err(e) => Err(e),
        Ok(_) => match channel {
            None => Err(ProgramError::BorshIoError),
            Some(c) => if !spec_is_funded(c.control) {
                Err(ProgramError::Perun(PerunError::OperationOnUnfundedChannel))
            } else if c.control.closed {
                Err(ProgramError::Perun(PerunError::DisputeOnClosedChannel))
            } else if !spec_valid_transition(c.state, new_state) {
                Err(ProgramError::Perun(PerunError::InvalidStateTransition))
            } else if !convertible(new_state) {
                Err(ProgramError::Aborted)
            } else if signature_check(c.params.a.l2_pubkey@, spec_state_hash(new_state), sig_a) is Err {
                Err(ProgramError::Perun(PerunError::InvalidSignature))
            } else if signature_check(c.params.b.l2_pubkey@, spec_state_hash(new_state), sig_b) is Err {
                Err(ProgramError::Perun(PerunError::InvalidSignature))
            } else {
                Ok(
                    plain_plan(
                        ChannelUpdateView::Store(
                            ChannelView {
                                params: c.params,
                                state: new_state,
                                control: Control {
                                    disputed: true,
                                    timestamp: now as u64,
                                    ..c.control
                                },
                            },
                        ),
                        accounts,
                    ),
                )
            },
        },
    }
}

/// Registers a newer state, signed by both participants, for a funded
/// channel that is not closed.
pub fn process_dispute(
    program_id: &[u8; 32],
    accounts: &Vec<AccountSnapshot>,
    new_state: ChannelState,
    sig_a: [u8; 65],
    sig_b: [u8; 65],
    channel: Option<Channel>,
    now: i64,
) -> (res: Result<Plan, ProgramError>)
    ensures
        outcome_view(res) == spec_dispute(
            *program_id,
            accounts@,
            new_state@,
            sig_a@,
            sig_b@,
            opt_view(channel),
            now,
        ),
{
    locate(program_id, accounts, 1, &new_state.channel_id)?;
    let mut channel = match channel {
        None => return Err(ProgramError::BorshIoError),
        Some(c) => c,
    };
    if !channel.is_funded() {
        return Err(ProgramError::Perun(PerunError::OperationOnUnfundedChannel));
    }
    if channel.control.closed {
        return Err(ProgramError::Perun(PerunError::DisputeOnClosedChannel));
    }
    if !is_valid_state_transition(&channel.state, &new_state) {
        return Err(ProgramError::Perun(PerunError::InvalidStateTransition));
    }
    let hash = match new_state.hash_state_eth_prefixed() {
        Ok(h) => h,
        Err(_) => return Err(ProgramError::Aborted),
    };
    if !check_signatures(&channel.params, &hash, &sig_a, &sig_b) {
        return Err(ProgramError::Perun(PerunError::InvalidSignature));
    }
    channel.control.disputed = true;
    channel.control.timestamp = now as u64;
    channel.state = new_state;
    Ok(Plan {
        update: ChannelUpdate::Store(channel),
        lamports: initial_lamports(accounts),
        transfers: Vec::new(),
    })
}

// ---------------------------------------------------------------------------
// Force close
// ---------------------------------------------------------------------------

/// Force-closing a channel: it must not be closed, be funded, have been
/// disputed, and its time lock must have expired at the current time (the
/// program aborts where the expiry time overflows). The channel is closed,
/// and a party whose balance is all zero counts as withdrawn.
pub open spec fn spec_force_close(
    program_id: [u8; 32],
    accounts: Seq<AccountSnapshot>,
    channel_id: ChannelID,
    channel: Option<ChannelView>,
    now: i64,
) -> Result<PlanView, ProgramError> {
    match spec_locate(program_id, accounts, 1, channel_id.spec_bytes()) {
        Err(e) => Err(e),
        Ok(_) => match channel {
            None => Err(ProgramError::BorshIoError),
            Some(c) => if c.control.closed {
                Err(ProgramError::Perun(PerunError::ForceCloseOnClosedChannel))
            } else if !spec_is_funded(c.control) {
                Err(ProgramError::Perun(PerunError::OperationOnUnfundedChannel))
            } else if !c.control.disputed {
                Err(ProgramError::Perun(PerunError::ForceCloseOnUndisputedChannel))
            } else if timelock_overflows(c) {
                Err(ProgramError::Aborted)
            } else if !spec_timelock_expired(c, now as u64) {
                Err(ProgramError::Perun(PerunError::TimelockNotExpired))
            } else {
                Ok(
                    plain_plan(
                        ChannelUpdateView::Store(
                            ChannelView {
                                control: closing_control(
                                    c.control,
                                    c.state.balances.bal_a,
                                    c.state.balances.bal_b,
                                ),
                                ..c
                            },
                        ),
                        accounts,
                    ),
                )
            },
        },
    }
}

/// Forcibly closes a channel after it has been disputed at least once and
/// the relative timelock (challenge_duration) has elapsed since the latest
/// dispute.
pub fn process_force_close(
    program_id: &[u8; 32],
    accounts: &Vec<AccountSnapshot>,
    channel_id: ChannelID,
    channel: Option<Channel>,
    now: i64,
) -> (res: Result<Plan, ProgramError>)
    ensures
        outcome_view(res) == spec_force_close(*program_id, accounts@, channel_id, opt_view(channel), now),
{
    locate(program_id, accounts, 1, channel_id.as_bytes())?;
    let mut channel = match channel {
        None => return Err(ProgramError::BorshIoError),
        Some(c) => c,
    };
    if channel.control.closed {
        return Err(ProgramError::Perun(PerunError::ForceCloseOnClosedChannel));
    }
    if !channel.is_funded() {
        return Err(ProgramError::Perun(PerunError::OperationOnUnfundedChannel));
    }
    if !channel.control.disputed {
        return Err(ProgramError::Perun(PerunError::ForceCloseOnUndisputedChannel));
    }
    if channel.control.timestamp.checked_add(channel.params.challenge_duration).is_none() {
        return Err(ProgramError::Aborted);
    }
    if !is_timelock_expired(&channel, now as u64) {
        return Err(ProgramError::Perun(PerunError::TimelockNotExpired));
    }
    close_channel(&mut channel);
    Ok(Plan {
        update: ChannelUpdate::Store(channel),
        lamports: initial_lamports(accounts),
        transfers: Vec::new(),
    })
}

// ---------------------------------------------------------------------------
// Moving funds
// ---------------------------------------------------------------------------

/// The lamports `ls` of the accounts after the balance of every account with
/// key `key` is set to `v` (an account passed twice is one account).
pub open spec fn set_lamports(accounts: Seq<AccountSnapshot>, ls: Seq<u64>, key: [u8; 32], v: u64) -> Seq<u64> {
    Seq::new(ls.len(), |j: int| if accounts[j].key == key { v } else { ls[j] })
}

fn set_lamports_exec(accounts: &Vec<AccountSnapshot>, ls: &mut Vec<u64>, key: [u8; 32], v: u64)
    requires
        old(ls)@.len() == accounts@.len(),
    ensures
        final(ls)@ == set_lamports(accounts@, old(ls)@, key, v),
{
    let mut j: usize = 0;
    while j < ls.len()
        invariant
            0 <= j <= ls@.len(),
            ls@.len() == old(ls)@.len(),
            ls@.len() == accounts@.len(),
            forall|k: int| 0 <= k < j ==> ls@[k] == set_lamports(accounts@, old(ls)@, key, v)[k],
            forall|k: int| j <= k < ls@.len() ==> ls@[k] == old(ls)@[k],
        decreases ls@.len() - j,
    {
        if bytes_eq(&accounts[j].key, &key) {
            proof {
                assert(accounts@[j as int].key =~= key);
            }
            ls.set(j, v);
        } else {
            proof {
                if accounts@[j as int].key == key {
                    assert(accounts@[j as int].key@ == key@);
                }
            }
        }
        j = j + 1;
    }
    assert(ls@ =~= set_lamports(accounts@, old(ls)@, key, v));
}

/// The progress of the transfers of an instruction: the lamports of the
/// accounts, the index of the next unused account, the token transfers.
pub struct TransferProgress {
    pub lamports: Seq<u64>,
    pub cursor: nat,
    pub transfers: Seq<TokenTransfer>,
}

/// Moves `amount` lamports from account `from` to account `to`: fails with
/// `InsufficientFunds` where `from` holds less, or `to` would overflow.
pub open spec fn move_lamports(
    accounts: Seq<AccountSnapshot>,
    ls: Seq<u64>,
    from: int,
    to: int,
    amount: u64,
) -> Result<Seq<u64>, ProgramError> {
    if ls[from] < amount {
        Err(ProgramError::InsufficientFunds)
    } else {
        let l1 = set_lamports(accounts, ls, accounts[from].key, (ls[from] - amount) as u64);
        if l1[to] + amount > u64::MAX {
            Err(ProgramError::InsufficientFunds)
        } else {
            Ok(set_lamports(accounts, l1, accounts[to].key, (l1[to] + amount) as u64))
        }
    }
}

/// One step of funding, for the asset `i`: nothing for assets off Solana;
/// native SOL moves from the paying party's account (account `party`) to
/// the channel account (account 0); an SPL token takes the next five
/// accounts and, for a positive amount, a transfer from the party. The
/// program aborts where the amount is missing.
pub open spec fn fund_step(
    accounts: Seq<AccountSnapshot>,
    tokens: Seq<CrossAsset>,
    amount: Seq<u64>,
    party: int,
    i: int,
    st: TransferProgress,
) -> Result<TransferProgress, ProgramError> {
    let t = tokens[i];
    if t.chain.0 != Chain::SOLANA_BACKEND_ID {
        Ok(st)
    } else if t.spec_is_native_sol() {
        if i >= amount.len() {
            Err(ProgramError::Aborted)
        } else if amount[i] == 0 {
            Ok(st)
        } else {
            match move_lamports(accounts, st.lamports, party, 0, amount[i]) {
                Err(e) => Err(e),
                Ok(ls) => Ok(TransferProgress { lamports: ls, ..st }),
            }
        }
    } else if st.cursor + 5 > accounts.len() {
        Err(ProgramError::NotEnoughAccountKeys)
    } else if i >= amount.len() {
        Err(ProgramError::Aborted)
    } else if amount[i] == 0 {
        Ok(TransferProgress { cursor: st.cursor + 5, ..st })
    } else {
        Ok(
            TransferProgress {
                cursor: st.cursor + 5,
                transfers: st.transfers.push(
                    TokenTransfer {
                        token: i as usize,
                        amount: amount[i],
                        first_account: st.cursor as usize,
                        party: party as usize,
                    },
                ),
                ..st
            },
        )
    }
}

/// One step of paying out, for the asset `i`: nothing for assets off Solana
/// or for a zero amount; native SOL moves from the channel account (account
/// 0) to the paid party's account (account `party`); an SPL token takes the
/// next six accounts and a transfer to the party. The program aborts where
/// the amount is missing.
pub open spec fn payout_step(
    accounts: Seq<AccountSnapshot>,
    tokens: Seq<CrossAsset>,
    amount: Seq<u64>,
    party: int,
    i: int,
    st: TransferProgress,
) -> Result<TransferProgress, ProgramError> {
    let t = tokens[i];
    if t.chain.0 != Chain::SOLANA_BACKEND_ID {
        Ok(st)
    } else if i >= amount.len() {
        Err(ProgramError::Aborted)
    } else if amount[i] == 0 {
        Ok(st)
    } else if t.spec_is_native_sol() {
        match move_lamports(accounts, st.lamports, 0, party, amount[i]) {
            Err(e) => Err(e),
            Ok(ls) => Ok(TransferProgress { lamports: ls, ..st }),
        }
    } else if st.cursor + 6 > accounts.len() {
        Err(ProgramError::NotEnoughAccountKeys)
    } else {
        Ok(
            TransferProgress {
                cursor: st.cursor + 6,
                transfers: st.transfers.push(
                    TokenTransfer {
                        token: i as usize,
                        amount: amount[i],
                        first_account: st.cursor as usize,
                        party: party as usize,
                    },
                ),
                ..st
            },
        )
    }
}

/// The steps for the first `n` assets, in order, from `init`; the first
/// failing step decides.
pub open spec fn transfer_steps(
    funding: bool,
    accounts: Seq<AccountSnapshot>,
    tokens: Seq<CrossAsset>,
    amount: Seq<u64>,
    party: int,
    n: nat,
    init: TransferProgress,
) -> Result<TransferProgress, ProgramError>
    decreases n,
{
    if n == 0 {
        Ok(init)
    } else {
        match transfer_steps(funding, accounts, tokens, amount, party, (n - 1) as nat, init) {
            Err(e) => Err(e),
            Ok(st) => if funding {
                fund_step(accounts, tokens, amount, party, n - 1, st)
            } else {
                payout_step(accounts, tokens, amount, party, n - 1, st)
            },
        }
    }
}

fn move_lamports_exec(accounts: &Vec<AccountSnapshot>, ls: &mut Vec<u64>, from: usize, to: usize, amount: u64) -> (res: Result<(), ProgramError>)
    requires
        old(ls)@.len() == accounts@.len(),
        from < accounts@.len(),
        to < accounts@.len(),
    ensures
        match move_lamports(accounts@, old(ls)@, from as int, to as int, amount) {
            Ok(l) => res is Ok && final(ls)@ == l,
            Err(e) => res == Err::<(), ProgramError>(e),
        },
        final(ls)@.len() == accounts@.len(),
{
    let have = ls[from];
    if have < amount {
        return Err(ProgramError::InsufficientFunds);
    }
    set_lamports_exec(accounts, ls, accounts[from].key, have - amount);
    let got = ls[to];
    match got.checked_add(amount) {
        None => Err(ProgramError::InsufficientFunds),
        Some(v) => {
            set_lamports_exec(accounts, ls, accounts[to].key, v);
            Ok(())
        },
    }
}

proof fn lemma_steps_fail_on(
    funding: bool,
    accounts: Seq<AccountSnapshot>,
    tokens: Seq<CrossAsset>,
    amount: Seq<u64>,
    party: int,
    n: nat,
    m: nat,
    init: TransferProgress,
)
    requires
        n <= m,
        transfer_steps(funding, accounts, tokens, amount, party, n, init) is Err,
    ensures
        transfer_steps(funding, accounts, tokens, amount, party, m, init) == transfer_steps(
            funding,
            accounts,
            tokens,
            amount,
            party,
            n,
            init,
        ),
    decreases m - n,
{
    if n < m {
        lemma_steps_fail_on(funding, accounts, tokens, amount, party, n, (m - 1) as nat, init);
    }
}

/// One funding or payout step for the asset `i`.
fn transfer_step(
    funding: bool,
    accounts: &Vec<AccountSnapshot>,
    tokens: &Vec<CrossAsset>,
    amount: &Vec<u64>,
    party: usize,
    i: usize,
    ls: &mut Vec<u64>,
    cur: &mut usize,
    ts: &mut Vec<TokenTransfer>,
) -> (res: Result<(), ProgramError>)
    requires
        i < tokens@.len(),
        accounts@.len() >= 2,
        party < accounts@.len(),
        old(ls)@.len() == accounts@.len(),
        *old(cur) <= accounts@.len(),
    ensures
        final(ls)@.len() == accounts@.len(),
        *final(cur) <= accounts@.len(),
        ({
            let st = TransferProgress { lamports: old(ls)@, cursor: *old(cur) as nat, transfers: old(ts)@ };
            let step = if funding {
                fund_step(accounts@, tokens@, amount@, party as int, i as int, st)
            } else {
                payout_step(accounts@, tokens@, amount@, party as int, i as int, st)
            };
            match step {
                Ok(next) => res is Ok && next == TransferProgress {
                    lamports: final(ls)@,
                    cursor: *final(cur) as nat,
                    transfers: final(ts)@,
                },
                Err(e) => res == Err::<(), ProgramError>(e),
            }
        }),
{
    let token = &tokens[i];
    if token.chain.as_u64() != Chain::SOLANA_BACKEND_ID {
        return Ok(());
    }
    let native = token.is_native_sol();
    if funding {
        if native {
            if i >= amount.len() {
                return Err(ProgramError::Aborted);
            }
            if amount[i] > 0 {
                move_lamports_exec(accounts, ls, party, 0, amount[i])?;
            }
        } else {
            if accounts.len() - *cur < 5 {
                return Err(ProgramError::NotEnoughAccountKeys);
            }
            if i >= amount.len() {
                return Err(ProgramError::Aborted);
            }
            if amount[i] > 0 {
                ts.push(TokenTransfer { token: i, amount: amount[i], first_account: *cur, party });
            }
            *cur = *cur + 5;
        }
    } else {
        if i >= amount.len() {
            return Err(ProgramError::Aborted);
        }
        if amount[i] > 0 {
            if native {
                move_lamports_exec(accounts, ls, 0, party, amount[i])?;
            } else {
                if accounts.len() - *cur < 6 {
                    return Err(ProgramError::NotEnoughAccountKeys);
                }
                ts.push(TokenTransfer { token: i, amount: amount[i], first_account: *cur, party });
                *cur = *cur + 6;
            }
        }
    }
    Ok(())
}

/// Runs the funding or payout steps of all assets, the first unused account
/// being `cursor`.
fn run_transfers(
    funding: bool,
    accounts: &Vec<AccountSnapshot>,
    tokens: &Vec<CrossAsset>,
    amount: &Vec<u64>,
    party: usize,
    cursor: usize,
) -> (res: Result<(Vec<u64>, usize, Vec<TokenTransfer>), ProgramError>)
    requires
        accounts@.len() >= 2,
        party < accounts@.len(),
        cursor <= accounts@.len(),
    ensures
        match transfer_steps(
            funding,
            accounts@,
            tokens@,
            amount@,
            party as int,
            tokens@.len(),
            TransferProgress { lamports: lamports_of(accounts@), cursor: cursor as nat, transfers: Seq::empty() },
        ) {
            Ok(st) => res matches Ok((ls, c, ts)) && ls@ == st.lamports && c == st.cursor && ts@ == st.transfers && c <= accounts@.len() && ls@.len() == accounts@.len(),
            Err(e) => res == Err::<(Vec<u64>, usize, Vec<TokenTransfer>), ProgramError>(e),
        },
{
    let ghost init = TransferProgress { lamports: lamports_of(accounts@), cursor: cursor as nat, transfers: Seq::empty() };
    let mut ls = initial_lamports(accounts);
    let mut cur = cursor;
    let mut ts: Vec<TokenTransfer> = Vec::new();
    assert(ts@ =~= Seq::<TokenTransfer>::empty());
    let mut i: usize = 0;
    while i < tokens.len()
        invariant
            0 <= i <= tokens@.len(),
            accounts@.len() >= 2,
            party < accounts@.len(),
            ls@.len() == accounts@.len(),
            cur <= accounts@.len(),
            init == (TransferProgress { lamports: lamports_of(accounts@), cursor: cursor as nat, transfers: Seq::empty() }),
            transfer_steps(funding, accounts@, tokens@, amount@, party as int, i as nat, init) == Ok::<TransferProgress, ProgramError>(
                TransferProgress { lamports: ls@, cursor: cur as nat, transfers: ts@ },
            ),
        decreases tokens@.len() - i,
    {
        let ghost st = TransferProgress { lamports: ls@, cursor: cur as nat, transfers: ts@ };
        let r = transfer_step(funding, accounts, tokens, amount, party, i, &mut ls, &mut cur, &mut ts);
        proof {
            let step = if funding {
                fund_step(accounts@, tokens@, amount@, party as int, i as int, st)
            } else {
                payout_step(accounts@, tokens@, amount@, party as int, i as int, st)
            };
            assert(transfer_steps(funding, accounts@, tokens@, amount@, party as int, (i + 1) as nat, init) == step);
            if r is Err {
                assert(step == Err::<TransferProgress, ProgramError>(r->Err_0));
            }
        }
        match r {
            Err(e) => {
                proof {
                    assert(transfer_steps(funding, accounts@, tokens@, amount@, party as int, (i + 1) as nat, init) == Err::<TransferProgress, ProgramError>(e));
                    lemma_steps_fail_on(funding, accounts@, tokens@, amount@, party as int, (i + 1) as nat, tokens@.len(), init);
                }
                return Err(e);
            },
            Ok(()) => {},
        }
        i = i + 1;
    }
    Ok((ls, cur, ts))
}

/// Adds `amount` lamports to account `to`, then takes them from account
/// `from`: fails with `InsufficientFunds` where `to` would overflow or `from`
/// holds less.
pub open spec fn credit_then_debit(
    accounts: Seq<AccountSnapshot>,
    ls: Seq<u64>,
    to: int,
    from: int,
    amount: u64,
) -> Result<Seq<u64>, ProgramError> {
    if ls[to] + amount > u64::MAX {
        Err(ProgramError::InsufficientFunds)
    } else {
        let l1 = set_lamports(accounts, ls, accounts[to].key, (ls[to] + amount) as u64);
        if l1[from] < amount {
            Err(ProgramError::InsufficientFunds)
        } else {
            Ok(set_lamports(accounts, l1, accounts[from].key, (l1[from] - amount) as u64))
        }
    }
}

fn credit_then_debit_exec(accounts: &Vec<AccountSnapshot>, ls: &mut Vec<u64>, to: usize, from: usize, amount: u64) -> (res: Result<(), ProgramError>)
    requires
        old(ls)@.len() == accounts@.len(),
        from < accounts@.len(),
        to < accounts@.len(),
    ensures
        match credit_then_debit(accounts@, old(ls)@, to as int, from as int, amount) {
            Ok(l) => res is Ok && final(ls)@ == l,
            Err(e) => res == Err::<(), ProgramError>(e),
        },
{
    let got = ls[to];
    match got.checked_add(amount) {
        None => Err(ProgramError::InsufficientFunds),
        Some(v) => {
            set_lamports_exec(accounts, ls, accounts[to].key, v);
            let have = ls[from];
            if have < amount {
                return Err(ProgramError::InsufficientFunds);
            }
            set_lamports_exec(accounts, ls, accounts[from].key, have - amount);
            Ok(())
        },
    }
}

// ---------------------------------------------------------------------------
// Fund
// ---------------------------------------------------------------------------

/// The control bits after party B (`party_idx`) or A funds: its bit is set,
/// and so is the other's where the other has nothing to pay in on Solana.
pub open spec fn fund_control(c: ChannelView, party_idx: bool) -> Control {
    if party_idx {
        Control {
            funded_b: true,
            funded_a: c.control.funded_a || spec_funded(c.state.balances.tokens, c.state.balances.bal_a),
            ..c.control
        }
    } else {
        Control {
            funded_a: true,
            funded_b: c.control.funded_b || spec_funded(c.state.balances.tokens, c.state.balances.bal_b),
            ..c.control
        }
    }
}

/// The balances of party B (`party_idx`) or A.
pub open spec fn party_balances(c: ChannelView, party_idx: bool) -> Seq<u64> {
    if party_idx {
        c.state.balances.bal_b
    } else {
        c.state.balances.bal_a
    }
}

/// The Solana address of party B (`party_idx`) or A.
pub open spec fn party_address(c: ChannelView, party_idx: bool) -> [u8; 32] {
    if party_idx {
        c.params.b.solana_address
    } else {
        c.params.a.solana_address
    }
}

/// Funding a channel on behalf of party A (`party_idx` false) or B: the
/// channel account, the payer and the system program come first; the party
/// must not have funded yet; the payer must be the party and sign; then its
/// Solana balances are paid into the channel, asset by asset.
pub open spec fn spec_fund(
    program_id: [u8; 32],
    accounts: Seq<AccountSnapshot>,
    channel_id: ChannelID,
    party_idx: bool,
    channel: Option<ChannelView>,
) -> Result<PlanView, ProgramError> {
    match spec_locate(program_id, accounts, 3, channel_id.spec_bytes()) {
        Err(e) => Err(e),
        Ok(_) => match channel {
            None => Err(ProgramError::BorshIoError),
            Some(c) => if (if party_idx { c.control.funded_b } else { c.control.funded_a }) {
                Err(ProgramError::Perun(PerunError::AlreadyFunded))
            } else if accounts[1].key != party_address(c, party_idx) || !accounts[1].is_signer {
                Err(ProgramError::MissingRequiredSignature)
            } else {
                match transfer_steps(
                    true,
                    accounts,
                    c.state.balances.tokens,
                    party_balances(c, party_idx),
                    1,
                    c.state.balances.tokens.len(),
                    TransferProgress { lamports: lamports_of(accounts), cursor: 3, transfers: Seq::empty() },
                ) {
                    Err(e) => Err(e),
                    Ok(st) => Ok(
                        PlanView {
                            update: ChannelUpdateView::Store(
                                ChannelView { control: fund_control(c, party_idx), ..c },
                            ),
                            lamports: st.lamports,
                            transfers: st.transfers,
                        },
                    ),
                }
            },
        },
    }
}

/// fund funds a channel with the given channel_id. If party_idx is false,
/// the funding is provided on behalf of party A, if party_idx is true, the
/// funding is provided on behalf of party B.
pub fn process_fund(
    program_id: &[u8; 32],
    accounts: &Vec<AccountSnapshot>,
    channel_id: ChannelID,
    party_idx: bool,
    channel: Option<Channel>,
) -> (res: Result<Plan, ProgramError>)
    ensures
        outcome_view(res) == spec_fund(*program_id, accounts@, channel_id, party_idx, opt_view(channel)),
{
    locate(program_id, accounts, 3, channel_id.as_bytes())?;
    let mut channel = match channel {
        None => return Err(ProgramError::BorshIoError),
        Some(c) => c,
    };
    let ghost c0 = channel@;
    let expected_funder = if !party_idx {
        if channel.control.funded_a {
            return Err(ProgramError::Perun(PerunError::AlreadyFunded));
        }
        channel.control.funded_a = true;
        if get_funded(&channel.state.balances.tokens, &channel.state.balances.bal_b) {
            channel.control.funded_b = true;
        }
        channel.params.a.solana_address
    } else {
        if channel.control.funded_b {
            return Err(ProgramError::Perun(PerunError::AlreadyFunded));
        }
        channel.control.funded_b = true;
        if get_funded(&channel.state.balances.tokens, &channel.state.balances.bal_a) {
            channel.control.funded_a = true;
        }
        channel.params.b.solana_address
    };
    assert(channel.control == fund_control(c0, party_idx));
    if !bytes_eq(&accounts[1].key, &expected_funder) || !accounts[1].is_signer {
        proof {
            if accounts@[1].key == expected_funder {
                assert(accounts@[1].key@ == expected_funder@);
            }
        }
        return Err(ProgramError::MissingRequiredSignature);
    }
    proof {
        assert(accounts@[1].key =~= expected_funder);
    }
    let (ls, _cursor, ts) = if !party_idx {
        run_transfers(true, accounts, &channel.state.balances.tokens, &channel.state.balances.bal_a, 1, 3)?
    } else {
        run_transfers(true, accounts, &channel.state.balances.tokens, &channel.state.balances.bal_b, 1, 3)?
    };
    Ok(Plan { update: ChannelUpdate::Store(channel), lamports: ls, transfers: ts })
}

// ---------------------------------------------------------------------------
// Abort funding
// ---------------------------------------------------------------------------

/// Aborting the funding of a channel that exactly one party funded: the
/// channel account and the payer come first; the channel must not be fully
/// funded, closed or disputed, and someone must have funded; the payer must
/// be that party and sign. Its Solana balances are paid back asset by asset,
/// then the next account must be the channel's creator, which gets the
/// account's rent (`rent` lamports), and the channel account is closed.
pub open spec fn spec_abort_funding(
    program_id: [u8; 32],
    accounts: Seq<AccountSnapshot>,
    channel_id: ChannelID,
    channel: Option<ChannelView>,
    rent: u64,
) -> Result<PlanView, ProgramError> {
    match spec_locate(program_id, accounts, 2, channel_id.spec_bytes()) {
        Err(e) => Err(e),
        Ok(_) => match channel {
            None => Err(ProgramError::BorshIoError),
            Some(c) => if spec_is_funded(c.control) {
                Err(ProgramError::Perun(PerunError::AbortFundingOnFundedChannel))
            } else if c.control.closed {
                Err(ProgramError::Perun(PerunError::AbortFundingOnClosedChannel))
            } else if c.control.disputed {
                Err(ProgramError::Perun(PerunError::AbortFundingOnDisputedChannel))
            } else if !c.control.funded_a && !c.control.funded_b {
                Err(ProgramError::Perun(PerunError::AbortFundingWithoutFunds))
            } else if accounts[1].key != party_address(c, !c.control.funded_a) || !accounts[1].is_signer {
                Err(ProgramError::MissingRequiredSignature)
            } else {
                match transfer_steps(
                    false,
                    accounts,
                    c.state.balances.tokens,
                    party_balances(c, !c.control.funded_a),
                    1,
                    c.state.balances.tokens.len(),
                    TransferProgress { lamports: lamports_of(accounts), cursor: 2, transfers: Seq::empty() },
                ) {
                    Err(e) => Err(e),
                    Ok(st) => if st.cursor >= accounts.len() {
                        Err(ProgramError::NotEnoughAccountKeys)
                    } else if c.control.creator != accounts[st.cursor as int].key {
                        Err(ProgramError::IllegalOwner)
                    } else {
                        match move_lamports(accounts, st.lamports, 0, st.cursor as int, rent) {
                            Err(e) => Err(e),
                            Ok(ls) => Ok(
                                PlanView {
                                    update: ChannelUpdateView::Close,
                                    lamports: ls,
                                    transfers: st.transfers,
                                },
                            ),
                        }
                    },
                }
            },
        },
    }
}

/// Aborts the funding of a channel that only one party funded, paying that
/// party back and the rent to the channel's creator.
pub fn process_abort_funding(
    program_id: &[u8; 32],
    accounts: &Vec<AccountSnapshot>,
    channel_id: ChannelID,
    channel: Option<Channel>,
    rent: u64,
) -> (res: Result<Plan, ProgramError>)
    ensures
        outcome_view(res) == spec_abort_funding(*program_id, accounts@, channel_id, opt_view(channel), rent),
{
    locate(program_id, accounts, 2, channel_id.as_bytes())?;
    let channel = match channel {
        None => return Err(ProgramError::BorshIoError),
        Some(c) => c,
    };
    if channel.is_funded() {
        return Err(ProgramError::Perun(PerunError::AbortFundingOnFundedChannel));
    }
    if channel.control.closed {
        return Err(ProgramError::Perun(PerunError::AbortFundingOnClosedChannel));
    }
    if channel.control.disputed {
        return Err(ProgramError::Perun(PerunError::AbortFundingOnDisputedChannel));
    }
    if !channel.control.funded_a && !channel.control.funded_b {
        return Err(ProgramError::Perun(PerunError::AbortFundingWithoutFunds));
    }
    let actor = if channel.control.funded_a {
        channel.params.a.solana_address
    } else {
        channel.params.b.solana_address
    };
    if !bytes_eq(&accounts[1].key, &actor) || !accounts[1].is_signer {
        proof {
            if accounts@[1].key == actor {
                assert(accounts@[1].key@ == actor@);
            }
        }
        return Err(ProgramError::MissingRequiredSignature);
    }
    proof {
        assert(accounts@[1].key =~= actor);
    }
    let (mut ls, cursor, ts) = if channel.control.funded_a {
        run_transfers(false, accounts, &channel.state.balances.tokens, &channel.state.balances.bal_a, 1, 2)?
    } else {
        run_transfers(false, accounts, &channel.state.balances.tokens, &channel.state.balances.bal_b, 1, 2)?
    };
    if cursor >= accounts.len() {
        return Err(ProgramError::NotEnoughAccountKeys);
    }
    if !bytes_eq(&channel.control.creator, &accounts[cursor].key) {
        proof {
            if channel.control.creator == accounts@[cursor as int].key {
                assert(channel.control.creator@ == accounts@[cursor as int].key@);
            }
        }
        return Err(ProgramError::IllegalOwner);
    }
    proof {
        assert(channel.control.creator =~= accounts@[cursor as int].key);
    }
    move_lamports_exec(accounts, &mut ls, 0, cursor, rent)?;
    Ok(Plan { update: ChannelUpdate::Close, lamports: ls, transfers: ts })
}

// ---------------------------------------------------------------------------
// Withdraw
// ---------------------------------------------------------------------------

/// The control bits after party B (`party_idx`) or A withdrew.
pub open spec fn withdraw_control(c: ChannelView, party_idx: bool) -> Control {
    if party_idx {
        Control { withdrawn_b: true, ..c.control }
    } else {
        Control { withdrawn_a: true, ..c.control }
    }
}

/// The account to which a withdrawal pays: the payer (account 1), or, where
/// party B withdraws for party A (`one_withdrawer`), A's own account, which
/// follows the creator's (account 3).
pub open spec fn withdraw_receiver(party_idx: bool, one_withdrawer: bool) -> nat {
    if one_withdrawer && !party_idx {
        3
    } else {
        1
    }
}

/// The first account after the fixed accounts of a withdrawal: the token
/// accounts start there.
pub open spec fn withdraw_cursor(party_idx: bool, one_withdrawer: bool) -> nat {
    if one_withdrawer && !party_idx {
        4
    } else {
        3
    }
}

/// Withdrawing a party's balances from a closed channel: the channel
/// account, the payer and the creator's account come first, then, where B
/// withdraws for A, A's account; the channel must be closed and the party
/// must not have withdrawn yet; the payer must sign and be the party, or
/// party B where B withdraws for both (`one_withdrawer`). The party's Solana
/// balances are paid to the party's own account, asset by asset: an account
/// other than the party's in the receiver's place is refused with
/// `InvalidArgument`. Once both parties have withdrawn, the creator (who
/// must be the third account) gets the account's rent (`rent` lamports) and
/// the channel account is closed.
pub open spec fn spec_withdraw(
    program_id: [u8; 32],
    accounts: Seq<AccountSnapshot>,
    channel_id: ChannelID,
    party_idx: bool,
    one_withdrawer: bool,
    channel: Option<ChannelView>,
    rent: u64,
) -> Result<PlanView, ProgramError> {
    match spec_locate(program_id, accounts, 3, channel_id.spec_bytes()) {
        Err(e) => Err(e),
        Ok(_) => match channel {
            None => Err(ProgramError::BorshIoError),
            Some(c) => if !c.control.closed {
                Err(ProgramError::Perun(PerunError::WithdrawOnOpenChannel))
            } else if (if party_idx { c.control.withdrawn_b } else { c.control.withdrawn_a }) {
                Err(ProgramError::Perun(PerunError::AlreadyWithdrawn))
            } else if accounts[1].key != party_address(c, one_withdrawer || party_idx)
                || !accounts[1].is_signer {
                Err(ProgramError::MissingRequiredSignature)
            } else if withdraw_receiver(party_idx, one_withdrawer) >= accounts.len() {
                Err(ProgramError::NotEnoughAccountKeys)
            } else if accounts[withdraw_receiver(party_idx, one_withdrawer) as int].key != party_address(
                c,
                party_idx,
            ) {
                Err(ProgramError::InvalidArgument)
            } else {
                match transfer_steps(
                    false,
                    accounts,
                    c.state.balances.tokens,
                    party_balances(c, party_idx),
                    withdraw_receiver(party_idx, one_withdrawer) as int,
                    c.state.balances.tokens.len(),
                    TransferProgress {
                        lamports: lamports_of(accounts),
                        cursor: withdraw_cursor(party_idx, one_withdrawer),
                        transfers: Seq::empty(),
                    },
                ) {
                    Err(e) => Err(e),
                    Ok(st) => if spec_is_withdrawn(withdraw_control(c, party_idx)) {
                        if c.control.creator != accounts[2].key {
                            Err(ProgramError::IllegalOwner)
                        } else {
                            match credit_then_debit(accounts, st.lamports, 2, 0, rent) {
                                Err(e) => Err(e),
                                Ok(ls) => Ok(
                                    PlanView {
                                        update: ChannelUpdateView::Close,
                                        lamports: ls,
                                        transfers: st.transfers,
                                    },
                                ),
                            }
                        }
                    } else {
                        Ok(
                            PlanView {
                                update: ChannelUpdateView::Store(
                                    ChannelView { control: withdraw_control(c, party_idx), ..c },
                                ),
                                lamports: st.lamports,
                                transfers: st.transfers,
                            },
                        )
                    },
                }
            },
        },
    }
}

/// process_withdraw withdraws a party's funds from a closed channel. If
/// party_idx is false, withdraw is executed on behalf of party A, else on
/// behalf of party B.
pub fn process_withdraw(
    program_id: &[u8; 32],
    accounts: &Vec<AccountSnapshot>,
    channel_id: ChannelID,
    party_idx: bool,
    one_withdrawer: bool,
    channel: Option<Channel>,
    rent: u64,
) -> (res: Result<Plan, ProgramError>)
    ensures
        outcome_view(res) == spec_withdraw(
            *program_id,
            accounts@,
            channel_id,
            party_idx,
            one_withdrawer,
            opt_view(channel),
            rent,
        ),
{
    locate(program_id, accounts, 3, channel_id.as_bytes())?;
    let mut channel = match channel {
        None => return Err(ProgramError::BorshIoError),
        Some(c) => c,
    };
    let ghost c0 = channel@;
    if !channel.control.closed {
        return Err(ProgramError::Perun(PerunError::WithdrawOnOpenChannel));
    }
    if !party_idx {
        if channel.control.withdrawn_a {
            return Err(ProgramError::Perun(PerunError::AlreadyWithdrawn));
        }
    } else {
        if channel.control.withdrawn_b {
            return Err(ProgramError::Perun(PerunError::AlreadyWithdrawn));
        }
    }
    // Always authenticate as party B if one_withdrawer is true
    let actor = if one_withdrawer || party_idx {
        channel.params.b.solana_address
    } else {
        channel.params.a.solana_address
    };
    if !bytes_eq(&accounts[1].key, &actor) || !accounts[1].is_signer {
        proof {
            if accounts@[1].key == actor {
                assert(accounts@[1].key@ == actor@);
            }
        }
        return Err(ProgramError::MissingRequiredSignature);
    }
    proof {
        assert(accounts@[1].key =~= actor);
    }
    // The balances go to the party's own account: the payer's, or, where B
    // withdraws for A, A's account after the creator's.
    let (receiver, cursor): (usize, usize) = if one_withdrawer && !party_idx {
        (3, 4)
    } else {
        (1, 3)
    };
    if receiver >= accounts.len() {
        return Err(ProgramError::NotEnoughAccountKeys);
    }
    let owner = if party_idx {
        channel.params.b.solana_address
    } else {
        channel.params.a.solana_address
    };
    if !bytes_eq(&accounts[receiver].key, &owner) {
        proof {
            if accounts@[receiver as int].key == owner {
                assert(accounts@[receiver as int].key@ == owner@);
            }
        }
        return Err(ProgramError::InvalidArgument);
    }
    proof {
        assert(accounts@[receiver as int].key =~= owner);
    }
    let (mut ls, _cursor, ts) = if !party_idx {
        run_transfers(false, accounts, &channel.state.balances.tokens, &channel.state.balances.bal_a, receiver, cursor)?
    } else {
        run_transfers(false, accounts, &channel.state.balances.tokens, &channel.state.balances.bal_b, receiver, cursor)?
    };
    if !party_idx {
        channel.control.withdrawn_a = true;
    } else {
        channel.control.withdrawn_b = true;
    }
    assert(channel.control == withdraw_control(c0, party_idx));
    if channel.is_withdrawn() {
        if !bytes_eq(&channel.control.creator, &accounts[2].key) {
            proof {
                if channel.control.creator == accounts@[2].key {
                    assert(channel.control.creator@ == accounts@[2].key@);
                }
            }
            return Err(ProgramError::IllegalOwner);
        }
        proof {
            assert(channel.control.creator =~= accounts@[2].key);
        }
        credit_then_debit_exec(accounts, &mut ls, 2, 0, rent)?;
        Ok(Plan { update: ChannelUpdate::Close, lamports: ls, transfers: ts })
    } else {
        Ok(Plan { update: ChannelUpdate::Store(channel), lamports: ls, transfers: ts })
    }
}

// ---------------------------------------------------------------------------
// Dispatch
// ---------------------------------------------------------------------------

/// What the program does with an instruction (`None` where its data does not
/// decode): the instruction's own decision, given the accounts, the channel
/// deserialized from the first account (`None` where there is none), the
/// current time and the rent of the channel account.
pub open spec fn spec_process_instruction(
    program_id: [u8; 32],
    accounts: Seq<AccountSnapshot>,
    instruction: Option<PerunInstruction>,
    channel: Option<ChannelView>,
    now: i64,
    rent: u64,
) -> Result<PlanView, ProgramError> {
    match instruction {
        None => Err(ProgramError::Perun(PerunError::InvalidInstruction)),
        Some(PerunInstruction::Open { params, state }) => spec_open(program_id, accounts, params, state@, now),
        Some(PerunInstruction::Fund { channel_id, party_idx }) => spec_fund(
            program_id,
            accounts,
            channel_id,
            party_idx,
            channel,
        ),
        Some(PerunInstruction::Close { state, sig_a, sig_b }) => spec_close(
            program_id,
            accounts,
            state@,
            sig_a@,
            sig_b@,
            channel,
        ),
        Some(PerunInstruction::ForceClose { channel_id }) => spec_force_close(
            program_id,
            accounts,
            channel_id,
            channel,
            now,
        ),
        Some(PerunInstruction::Dispute { state, sig_a, sig_b }) => spec_dispute(
            program_id,
            accounts,
            state@,
            sig_a@,
            sig_b@,
            channel,
            now,
        ),
        Some(PerunInstruction::Withdraw { channel_id, party_idx, one_withdrawer }) => spec_withdraw(
            program_id,
            accounts,
            channel_id,
            party_idx,
            one_withdrawer,
            channel,
            rent,
        ),
        Some(PerunInstruction::AbortFunding { channel_id }) => spec_abort_funding(
            program_id,
            accounts,
            channel_id,
            channel,
            rent,
        ),
    }
}

/// Program state handler.
pub struct Processor {}

impl Processor {
    /// Processes one instruction (`None` where its data does not decode).
    pub fn process_instruction(
        program_id: &[u8; 32],
        accounts: &Vec<AccountSnapshot>,
        instruction: Option<PerunInstruction>,
        channel: Option<Channel>,
        now: i64,
        rent: u64,
    ) -> (res: Result<Plan, ProgramError>)
        ensures
            outcome_view(res) == spec_process_instruction(
                *program_id,
                accounts@,
                instruction,
                opt_view(channel),
                now,
                rent,
            ),
    {
        let instruction = match instruction {
            None => return Err(ProgramError::Perun(PerunError::InvalidInstruction)),
            Some(i) => i,
        };
        match instruction {
            PerunInstruction::Open { params, state } => process_open(program_id, accounts, params, state, now),
            PerunInstruction::Fund { channel_id, party_idx } => process_fund(
                program_id,
                accounts,
                channel_id,
                party_idx,
                channel,
            ),
            PerunInstruction::Close { state, sig_a, sig_b } => process_close(
                program_id,
                accounts,
                state,
                sig_a,
                sig_b,
                channel,
            ),
            PerunInstruction::ForceClose { channel_id } => process_force_close(
                program_id,
                accounts,
                channel_id,
                channel,
                now,
            ),
            PerunInstruction::Dispute { state, sig_a, sig_b } => process_dispute(
                program_id,
                accounts,
                state,
                sig_a,
                sig_b,
                channel,
                now,
            ),
            PerunInstruction::Withdraw { channel_id, party_idx, one_withdrawer } => process_withdraw(
                program_id,
                accounts,
                channel_id,
                party_idx,
                one_withdrawer,
                channel,
                rent,
            ),
            PerunInstruction::AbortFunding { channel_id } => process_abort_funding(
                program_id,
                accounts,
                channel_id,
                channel,
                rent,
            ),
        }
    }
}

} // verus!
