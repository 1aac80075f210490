//! Properties of the channel protocol that span instructions.
use vstd::prelude::*;
use crate::error::{PerunError, ProgramError};
use crate::instructions::{AccountSnapshot, PerunInstruction};
use crate::multi::{secp256k1_recovered_key, signature_check, CrossAsset};
use crate::perun_types::{
    convertible, seed_prefix_bytes, spec_state_sol, spec_is_funded, spec_is_withdrawn, spec_state_hash, ChannelID, ChannelStateView,
    ChannelView, Control, Params, Participant,
};
use crate::processor::{
    program_address,    party_address, withdraw_cursor, withdraw_receiver, all_zero, credit_then_debit, lamports_of, move_lamports, set_lamports, transfer_steps, TransferProgress, spec_abort_funding, spec_close, spec_dispute, spec_force_close,
    spec_fund, spec_funded, spec_open, spec_process_instruction, spec_timelock_expired,
    spec_valid_transition, spec_withdraw, keeps_total, ChannelUpdateView, PlanView,
};
use crate::sol::{be_bytes_u64, spec_channel_id, spec_params_sol, spec_participant_sol, word_u64};

verus! {

/// The control bits of a channel are consistent: a closed channel was fully
/// funded, a party withdraws only from a closed channel, and only a fully
/// funded channel is disputed.
pub open spec fn control_consistent(c: Control) -> bool {
    &&& c.closed ==> c.funded_a && c.funded_b
    &&& (c.withdrawn_a || c.withdrawn_b) ==> c.closed
    &&& c.disputed ==> c.funded_a && c.funded_b
}

/// The channel that an instruction leaves in the channel account, if any.
pub open spec fn stored_channel(p: PlanView) -> Option<ChannelView> {
    match p.update {
        ChannelUpdateView::Create(c, _) => Some(c),
        ChannelUpdateView::Store(c) => Some(c),
        ChannelUpdateView::Close => None,
    }
}

/// Every instruction keeps the control bits of the channel consistent: a
/// channel that it creates or stores is consistent whenever the channel it
/// read was.
pub proof fn lemma_control_stays_consistent(
    program_id: [u8; 32],
    accounts: Seq<AccountSnapshot>,
    instruction: Option<PerunInstruction>,
    channel: Option<ChannelView>,
    now: i64,
    rent: u64,
)
    requires
        channel matches Some(c) ==> control_consistent(c.control),
    ensures
        spec_process_instruction(program_id, accounts, instruction, channel, now, rent) matches Ok(p)
            ==> (stored_channel(p) matches Some(c2) ==> control_consistent(c2.control)),
{
}

/// The parameters of a channel are constant, and so are its creator, its
/// identifier and its assets: every instruction that stores the channel it
/// read keeps them.
pub proof fn lemma_channel_constants_kept(
    program_id: [u8; 32],
    accounts: Seq<AccountSnapshot>,
    instruction: Option<PerunInstruction>,
    channel: Option<ChannelView>,
    now: i64,
    rent: u64,
)
    ensures
        spec_process_instruction(program_id, accounts, instruction, channel, now, rent) matches Ok(p)
            ==> (p.update matches ChannelUpdateView::Store(c2) ==> {
            &&& channel matches Some(c)
            &&& c2.params == c.params
            &&& c2.control.creator == c.control.creator
            &&& c2.state.channel_id == c.state.channel_id
            &&& c2.state.balances.tokens == c.state.balances.tokens
        }),
{
}

/// Only a dispute marks a channel disputed or restarts its time lock: every
/// other instruction that stores the channel it read keeps both.
pub proof fn lemma_only_dispute_restarts_timelock(
    program_id: [u8; 32],
    accounts: Seq<AccountSnapshot>,
    instruction: Option<PerunInstruction>,
    channel: Option<ChannelView>,
    now: i64,
    rent: u64,
)
    requires
        !(instruction matches Some(PerunInstruction::Dispute { .. })),
    ensures
        spec_process_instruction(program_id, accounts, instruction, channel, now, rent) matches Ok(p)
            ==> (p.update matches ChannelUpdateView::Store(c2) ==> {
            &&& channel matches Some(c)
            &&& c2.control.disputed == c.control.disputed
            &&& c2.control.timestamp == c.control.timestamp
        }),
{
}

/// A valid transition never lowers the version: it raises it, or it keeps a
/// state of version 0 unchanged.
pub proof fn lemma_transition_raises_version(old: ChannelStateView, new: ChannelStateView)
    requires
        spec_valid_transition(old, new),
    ensures
        new.version > old.version || (old.version == 0 && new == old),
{
}

/// A valid transition keeps the channel and its assets, and every asset
/// keeps its total over both parties.
pub proof fn lemma_transition_conserves_totals(old: ChannelStateView, new: ChannelStateView, i: int)
    requires
        spec_valid_transition(old, new),
        0 <= i < old.balances.bal_a.len(),
    ensures
        new.channel_id == old.channel_id,
        new.balances.tokens == old.balances.tokens,
        old.balances.bal_a[i] + old.balances.bal_b[i] == new.balances.bal_a[i]
            + new.balances.bal_b[i],
{
    if !(old.version == 0 && new.version == 0) {
        assert(keeps_total(old, new, i));
    }
}

/// A final state has no successor.
pub proof fn lemma_final_state_is_last(old: ChannelStateView, new: ChannelStateView)
    requires
        old.finalized,
    ensures
        !spec_valid_transition(old, new),
{
}

/// A channel opens only on the initial state of its own parameters: the
/// state's channel identifier is the hash of the parameters, its version 0,
/// and it is not final. The new channel holds them, with no control bit set,
/// the current time, and the payer (who pays the account's rent) as its
/// creator.
pub proof fn lemma_open_binds_state_to_params(
    program_id: [u8; 32],
    accounts: Seq<AccountSnapshot>,
    params: Params,
    state: ChannelStateView,
    now: i64,
)
    ensures
        spec_open(program_id, accounts, params, state, now) matches Ok(p) ==> {
            &&& state.channel_id@ == spec_channel_id(params)
            &&& state.version == 0
            &&& !state.finalized
            &&& p.update matches ChannelUpdateView::Create(c, _) && c.params == params && c.state
                == state && !c.control.funded_a && !c.control.funded_b && !c.control.closed
                && !c.control.disputed
            &&& p.update matches ChannelUpdateView::Create(c, _) && !c.control.withdrawn_a
                && !c.control.withdrawn_b && c.control.timestamp == now as u64
                && c.control.creator == accounts[1].key
            &&& accounts.len() >= 3
        },
{
}

/// A party funds a channel at most once: after a successful funding, the
/// same funding is refused with `AlreadyFunded`.
pub proof fn lemma_fund_once(
    program_id: [u8; 32],
    accounts: Seq<AccountSnapshot>,
    channel_id: ChannelID,
    party_idx: bool,
    c: ChannelView,
)
    requires
        spec_fund(program_id, accounts, channel_id, party_idx, Some(c)) is Ok,
    ensures
        spec_fund(program_id, accounts, channel_id, party_idx, Some(c)) matches Ok(p)
            && p.update matches ChannelUpdateView::Store(c2) && spec_fund(
            program_id,
            accounts,
            channel_id,
            party_idx,
            Some(c2),
        ) == Err::<PlanView, ProgramError>(ProgramError::Perun(PerunError::AlreadyFunded)),
{
}

/// Where the other party has nothing to pay in on Solana, one funding makes
/// the channel fully funded.
pub proof fn lemma_fund_completes(
    program_id: [u8; 32],
    accounts: Seq<AccountSnapshot>,
    channel_id: ChannelID,
    party_idx: bool,
    c: ChannelView,
)
    requires
        spec_funded(
            c.state.balances.tokens,
            if party_idx { c.state.balances.bal_a } else { c.state.balances.bal_b },
        ),
    ensures
        spec_fund(program_id, accounts, channel_id, party_idx, Some(c)) matches Ok(p) ==> (
        p.update matches ChannelUpdateView::Store(c2) && spec_is_funded(c2.control)),
{
}

/// Funding leaves everything but the control bits of the channel unchanged.
pub proof fn lemma_fund_keeps_state(
    program_id: [u8; 32],
    accounts: Seq<AccountSnapshot>,
    channel_id: ChannelID,
    party_idx: bool,
    c: ChannelView,
)
    ensures
        spec_fund(program_id, accounts, channel_id, party_idx, Some(c)) matches Ok(p) ==> (
        p.update matches ChannelUpdateView::Store(c2) && c2.params == c.params && c2.state
            == c.state),
{
}

/// Only a state signed by both participants closes a channel: a successful
/// close takes a final, convertible state whose hash both participants'
/// keys signed, on a funded channel, and leaves the channel closed with that
/// state's version and balances; a party whose balance in that state is all
/// zero counts as withdrawn.
pub proof fn lemma_close_needs_both_signatures(
    program_id: [u8; 32],
    accounts: Seq<AccountSnapshot>,
    state: ChannelStateView,
    sig_a: Seq<u8>,
    sig_b: Seq<u8>,
    channel: Option<ChannelView>,
)
    ensures
        spec_close(program_id, accounts, state, sig_a, sig_b, channel) matches Ok(p) ==> {
            &&& channel matches Some(c)
            &&& spec_is_funded(c.control)
            &&& state.finalized
            &&& convertible(state)
            &&& signature_check(c.params.a.l2_pubkey@, spec_state_hash(state), sig_a) is Ok
            &&& signature_check(c.params.b.l2_pubkey@, spec_state_hash(state), sig_b) is Ok
            &&& p.update matches ChannelUpdateView::Store(c2) && c2.control.closed
                && c2.state.version == state.version && c2.state.balances.bal_a
                == state.balances.bal_a && c2.state.balances.bal_b == state.balances.bal_b
            &&& p.update matches ChannelUpdateView::Store(c2) && c2.control.withdrawn_a == (
            c.control.withdrawn_a || all_zero(state.balances.bal_a)) && c2.control.withdrawn_b == (
            c.control.withdrawn_b || all_zero(state.balances.bal_b))
        },
{
}

/// Only a valid successor signed by both participants is registered by a
/// dispute: the channel must be funded and open; it then holds the new state,
/// is disputed, and its time lock restarts at the current time.
pub proof fn lemma_dispute_registers_signed_successor(
    program_id: [u8; 32],
    accounts: Seq<AccountSnapshot>,
    new_state: ChannelStateView,
    sig_a: Seq<u8>,
    sig_b: Seq<u8>,
    channel: Option<ChannelView>,
    now: i64,
)
    ensures
        spec_dispute(program_id, accounts, new_state, sig_a, sig_b, channel, now) matches Ok(p)
            ==> {
            &&& channel matches Some(c)
            &&& spec_is_funded(c.control)
            &&& !c.control.closed
            &&& spec_valid_transition(c.state, new_state)
            &&& signature_check(c.params.a.l2_pubkey@, spec_state_hash(new_state), sig_a) is Ok
            &&& signature_check(c.params.b.l2_pubkey@, spec_state_hash(new_state), sig_b) is Ok
            &&& p.update matches ChannelUpdateView::Store(c2) && c2.state == new_state
                && c2.control.disputed && c2.control.timestamp == now as u64
        },
{
}

/// Registering a state through a dispute never lowers the channel's version.
pub proof fn lemma_dispute_raises_version(
    program_id: [u8; 32],
    accounts: Seq<AccountSnapshot>,
    new_state: ChannelStateView,
    sig_a: Seq<u8>,
    sig_b: Seq<u8>,
    c: ChannelView,
    now: i64,
)
    ensures
        spec_dispute(program_id, accounts, new_state, sig_a, sig_b, Some(c), now) matches Ok(p)
            ==> (p.update matches ChannelUpdateView::Store(c2) && (c2.state.version
            > c.state.version || c2.state == c.state)),
{
}

/// A channel is force-closed only after a dispute, once its time lock has
/// expired; it is then closed with its state and parameters unchanged, and a
/// party whose balance is all zero counts as withdrawn.
pub proof fn lemma_force_close_after_timelock(
    program_id: [u8; 32],
    accounts: Seq<AccountSnapshot>,
    channel_id: ChannelID,
    channel: Option<ChannelView>,
    now: i64,
)
    ensures
        spec_force_close(program_id, accounts, channel_id, channel, now) matches Ok(p) ==> {
            &&& channel matches Some(c)
            &&& !c.control.closed
            &&& spec_is_funded(c.control)
            &&& spec_timelock_expired(c, now as u64)
            &&& c.control.disputed
            &&& c.control.timestamp + c.params.challenge_duration <= now as u64
            &&& p.update matches ChannelUpdateView::Store(c2) && c2.control.closed && c2.state
                == c.state && c2.params == c.params
            &&& p.update matches ChannelUpdateView::Store(c2) && c2.control.withdrawn_a == (
            c.control.withdrawn_a || all_zero(c.state.balances.bal_a)) && c2.control.withdrawn_b == (
            c.control.withdrawn_b || all_zero(c.state.balances.bal_b))
        },
{
}

/// A party withdraws at most once, and only from a closed channel: after a
/// successful withdrawal the channel account is closed (both have withdrawn)
/// or the same withdrawal is refused with `AlreadyWithdrawn`.
pub proof fn lemma_withdraw_once(
    program_id: [u8; 32],
    accounts: Seq<AccountSnapshot>,
    channel_id: ChannelID,
    party_idx: bool,
    one_withdrawer: bool,
    c: ChannelView,
    rent: u64,
)
    requires
        spec_withdraw(program_id, accounts, channel_id, party_idx, one_withdrawer, Some(c), rent) is Ok,
    ensures
        c.control.closed,
        spec_withdraw(program_id, accounts, channel_id, party_idx, one_withdrawer, Some(c), rent) matches Ok(p)
            && match p.update {
            ChannelUpdateView::Store(c2) => spec_withdraw(
                program_id,
                accounts,
                channel_id,
                party_idx,
                one_withdrawer,
                Some(c2),
                rent,
            ) == Err::<PlanView, ProgramError>(ProgramError::Perun(PerunError::AlreadyWithdrawn)),
            ChannelUpdateView::Close => spec_is_withdrawn(
                Control {
                    withdrawn_a: c.control.withdrawn_a || !party_idx,
                    withdrawn_b: c.control.withdrawn_b || party_idx,
                    ..c.control
                },
            ),
            _ => false,
        },
{
}

/// The funding of a channel is aborted only where exactly one party funded
/// it and the channel is neither closed nor disputed; the account is closed.
pub proof fn lemma_abort_only_half_funded(
    program_id: [u8; 32],
    accounts: Seq<AccountSnapshot>,
    channel_id: ChannelID,
    channel: Option<ChannelView>,
    rent: u64,
)
    ensures
        spec_abort_funding(program_id, accounts, channel_id, channel, rent) matches Ok(p) ==> {
            &&& channel matches Some(c)
            &&& c.control.funded_a != c.control.funded_b
            &&& !c.control.closed
            &&& !c.control.disputed
            &&& p.update is Close
        },
{
}

/// Moving lamports between two different accounts keeps their total, and
/// leaves every other account as it was.
pub proof fn lemma_move_lamports_conserves(
    accounts: Seq<AccountSnapshot>,
    ls: Seq<u64>,
    from: int,
    to: int,
    amount: u64,
    k: int,
)
    requires
        ls.len() == accounts.len(),
        0 <= from < accounts.len(),
        0 <= to < accounts.len(),
        0 <= k < accounts.len(),
        accounts[from].key != accounts[to].key,
    ensures
        move_lamports(accounts, ls, from, to, amount) matches Ok(l2) ==> {
            &&& l2[from] + l2[to] == ls[from] + ls[to]
            &&& l2[to] == ls[to] + amount
            &&& (accounts[k].key != accounts[from].key && accounts[k].key != accounts[to].key)
                ==> l2[k] == ls[k]
        },
{
}

/// The lamports held by the accounts, added up.
pub open spec fn total(ls: Seq<u64>) -> int
    decreases ls.len(),
{
    if ls.len() == 0 {
        0
    } else {
        total(ls.drop_last()) + ls.last()
    }
}

/// No two of the accounts are the same account.
pub open spec fn keys_distinct(accounts: Seq<AccountSnapshot>) -> bool {
    forall|i: int, j: int|
        0 <= i < accounts.len() && 0 <= j < accounts.len() && i != j ==> #[trigger] accounts[i].key
            != #[trigger] accounts[j].key
}

proof fn lemma_total_update(ls: Seq<u64>, j: int, v: u64)
    requires
        0 <= j < ls.len(),
    ensures
        total(ls.update(j, v)) == total(ls) - ls[j] + v,
    decreases ls.len(),
{
    let l2 = ls.update(j, v);
    if j == ls.len() - 1 {
        assert(l2.drop_last() =~= ls.drop_last());
    } else {
        assert(l2.drop_last() =~= ls.drop_last().update(j, v));
        lemma_total_update(ls.drop_last(), j, v);
    }
}

proof fn lemma_set_is_update(accounts: Seq<AccountSnapshot>, ls: Seq<u64>, j: int, v: u64)
    requires
        keys_distinct(accounts),
        ls.len() == accounts.len(),
        0 <= j < accounts.len(),
    ensures
        set_lamports(accounts, ls, accounts[j].key, v) == ls.update(j, v),
        total(set_lamports(accounts, ls, accounts[j].key, v)) == total(ls) - ls[j] + v,
{
    assert(set_lamports(accounts, ls, accounts[j].key, v) =~= ls.update(j, v));
    lemma_total_update(ls, j, v);
}

proof fn lemma_move_keeps_total(
    accounts: Seq<AccountSnapshot>,
    ls: Seq<u64>,
    from: int,
    to: int,
    amount: u64,
)
    requires
        keys_distinct(accounts),
        ls.len() == accounts.len(),
        0 <= from < accounts.len(),
        0 <= to < accounts.len(),
    ensures
        move_lamports(accounts, ls, from, to, amount) matches Ok(l2) ==> l2.len() == ls.len()
            && total(l2) == total(ls),
{
    if ls[from] >= amount {
        let l1 = set_lamports(accounts, ls, accounts[from].key, (ls[from] - amount) as u64);
        lemma_set_is_update(accounts, ls, from, (ls[from] - amount) as u64);
        if l1[to] + amount <= u64::MAX {
            lemma_set_is_update(accounts, l1, to, (l1[to] + amount) as u64);
        }
    }
}

proof fn lemma_credit_debit_keeps_total(
    accounts: Seq<AccountSnapshot>,
    ls: Seq<u64>,
    to: int,
    from: int,
    amount: u64,
)
    requires
        keys_distinct(accounts),
        ls.len() == accounts.len(),
        0 <= from < accounts.len(),
        0 <= to < accounts.len(),
    ensures
        credit_then_debit(accounts, ls, to, from, amount) matches Ok(l2) ==> l2.len() == ls.len()
            && total(l2) == total(ls),
{
    if ls[to] + amount <= u64::MAX {
        let l1 = set_lamports(accounts, ls, accounts[to].key, (ls[to] + amount) as u64);
        lemma_set_is_update(accounts, ls, to, (ls[to] + amount) as u64);
        if l1[from] >= amount {
            lemma_set_is_update(accounts, l1, from, (l1[from] - amount) as u64);
        }
    }
}

proof fn lemma_steps_keep_total(
    funding: bool,
    accounts: Seq<AccountSnapshot>,
    tokens: Seq<CrossAsset>,
    amount: Seq<u64>,
    party: int,
    n: nat,
    init: TransferProgress,
)
    requires
        keys_distinct(accounts),
        0 <= party < accounts.len(),
        accounts.len() >= 2,
        init.lamports.len() == accounts.len(),
    ensures
        transfer_steps(funding, accounts, tokens, amount, party, n, init) matches Ok(st) ==> st.lamports.len()
            == accounts.len() && total(st.lamports) == total(init.lamports),
    decreases n,
{
    if n > 0 {
        lemma_steps_keep_total(funding, accounts, tokens, amount, party, (n - 1) as nat, init);
        if let Ok(st) = transfer_steps(funding, accounts, tokens, amount, party, (n - 1) as nat, init) {
            if funding {
                lemma_move_keeps_total(accounts, st.lamports, party, 0, amount[n - 1]);
            } else {
                lemma_move_keeps_total(accounts, st.lamports, 0, party, amount[n - 1]);
            }
        }
    }
}

/// No instruction creates or destroys lamports: where the accounts passed to
/// it are distinct, the lamports they hold after a successful instruction add
/// up to what they held before.
pub proof fn lemma_lamports_conserved(
    program_id: [u8; 32],
    accounts: Seq<AccountSnapshot>,
    instruction: Option<PerunInstruction>,
    channel: Option<ChannelView>,
    now: i64,
    rent: u64,
)
    requires
        keys_distinct(accounts),
    ensures
        spec_process_instruction(program_id, accounts, instruction, channel, now, rent) matches Ok(p)
            ==> p.lamports.len() == accounts.len() && total(p.lamports) == total(
            lamports_of(accounts),
        ),
{
    let init_ls = lamports_of(accounts);
    if accounts.len() >= 2 {
        if let Some(c) = channel {
            let tokens = c.state.balances.tokens;
            let n = tokens.len();
            let bal_a = c.state.balances.bal_a;
            let bal_b = c.state.balances.bal_b;
            let i3 = TransferProgress { lamports: init_ls, cursor: 3, transfers: Seq::empty() };
            let i2 = TransferProgress { lamports: init_ls, cursor: 2, transfers: Seq::empty() };
            let i4 = TransferProgress { lamports: init_ls, cursor: 4, transfers: Seq::empty() };
            lemma_steps_keep_total(true, accounts, tokens, bal_a, 1, n, i3);
            lemma_steps_keep_total(true, accounts, tokens, bal_b, 1, n, i3);
            lemma_steps_keep_total(false, accounts, tokens, bal_a, 1, n, i3);
            lemma_steps_keep_total(false, accounts, tokens, bal_b, 1, n, i3);
            lemma_steps_keep_total(false, accounts, tokens, bal_a, 1, n, i2);
            lemma_steps_keep_total(false, accounts, tokens, bal_b, 1, n, i2);
            if let Ok(st) = transfer_steps(false, accounts, tokens, bal_a, 1, n, i2) {
                if st.cursor < accounts.len() {
                    lemma_move_keeps_total(accounts, st.lamports, 0, st.cursor as int, rent);
                }
            }
            if let Ok(st) = transfer_steps(false, accounts, tokens, bal_b, 1, n, i2) {
                if st.cursor < accounts.len() {
                    lemma_move_keeps_total(accounts, st.lamports, 0, st.cursor as int, rent);
                }
            }
            if accounts.len() >= 3 {
                if let Ok(st) = transfer_steps(false, accounts, tokens, bal_a, 1, n, i3) {
                    lemma_credit_debit_keeps_total(accounts, st.lamports, 2, 0, rent);
                }
                if let Ok(st) = transfer_steps(false, accounts, tokens, bal_b, 1, n, i3) {
                    lemma_credit_debit_keeps_total(accounts, st.lamports, 2, 0, rent);
                }
            }
            if accounts.len() >= 4 {
                lemma_steps_keep_total(false, accounts, tokens, bal_a, 3, n, i4);
                if let Ok(st) = transfer_steps(false, accounts, tokens, bal_a, 3, n, i4) {
                    lemma_credit_debit_keeps_total(accounts, st.lamports, 2, 0, rent);
                }
            }
        }
    }
}

proof fn lemma_transfers_name_party(
    funding: bool,
    accounts: Seq<AccountSnapshot>,
    tokens: Seq<CrossAsset>,
    amount: Seq<u64>,
    party: int,
    n: nat,
    init: TransferProgress,
)
    requires
        0 <= party <= usize::MAX,
        forall|k: int| 0 <= k < init.transfers.len() ==> #[trigger] init.transfers[k].party == party,
    ensures
        transfer_steps(funding, accounts, tokens, amount, party, n, init) matches Ok(st) ==> forall|k: int|
            0 <= k < st.transfers.len() ==> #[trigger] st.transfers[k].party == party,
    decreases n,
{
    if n > 0 {
        lemma_transfers_name_party(funding, accounts, tokens, amount, party, (n - 1) as nat, init);
        if let Ok(st) = transfer_steps(funding, accounts, tokens, amount, party, (n - 1) as nat, init) {
            if let Ok(st2) = transfer_steps(funding, accounts, tokens, amount, party, n, init) {
                assert forall|k: int| 0 <= k < st2.transfers.len() implies #[trigger] st2.transfers[k].party
                    == party by {
                    if k < st.transfers.len() {
                        assert(st2.transfers[k] == st.transfers[k]);
                    }
                }
            }
        }
    }
}

/// A withdrawal pays the withdrawing party's own account: the account that
/// receives its lamports and tokens holds the party's Solana address, also
/// where party B withdraws for A.
pub proof fn lemma_withdraw_pays_party(
    program_id: [u8; 32],
    accounts: Seq<AccountSnapshot>,
    channel_id: ChannelID,
    party_idx: bool,
    one_withdrawer: bool,
    c: ChannelView,
    rent: u64,
)
    ensures
        spec_withdraw(program_id, accounts, channel_id, party_idx, one_withdrawer, Some(c), rent) matches Ok(p)
            ==> {
            &&& withdraw_receiver(party_idx, one_withdrawer) < accounts.len()
            &&& accounts[withdraw_receiver(party_idx, one_withdrawer) as int].key == party_address(c, party_idx)
            &&& forall|k: int|
                0 <= k < p.transfers.len() ==> #[trigger] p.transfers[k].party == withdraw_receiver(
                    party_idx,
                    one_withdrawer,
                )
        },
{
    let bal = if party_idx { c.state.balances.bal_b } else { c.state.balances.bal_a };
    let init = TransferProgress {
        lamports: lamports_of(accounts),
        cursor: withdraw_cursor(party_idx, one_withdrawer),
        transfers: Seq::empty(),
    };
    lemma_transfers_name_party(
        false,
        accounts,
        c.state.balances.tokens,
        bal,
        withdraw_receiver(party_idx, one_withdrawer) as int,
        c.state.balances.tokens.len(),
        init,
    );
}

// ---------------------------------------------------------------------------
// What the token transfers of an instruction carry
// ---------------------------------------------------------------------------

/// Whether asset `i` is an SPL token on Solana of which `amount` holds a
/// positive balance: a token transfer is owed for it.
pub open spec fn spl_owed(tokens: Seq<CrossAsset>, amount: Seq<u64>, i: int) -> bool {
    &&& 0 <= i < tokens.len()
    &&& tokens[i].chain.0 == 6
    &&& tokens[i].solana_address@ != seq![0u8; 32]
    &&& i < amount.len()
    &&& amount[i] > 0
}

proof fn lemma_transfers_carry_amounts(
    funding: bool,
    accounts: Seq<AccountSnapshot>,
    tokens: Seq<CrossAsset>,
    amount: Seq<u64>,
    party: int,
    n: nat,
    init: TransferProgress,
)
    requires
        n <= tokens.len(),
        tokens.len() <= usize::MAX,
        init.transfers.len() == 0,
    ensures
        transfer_steps(funding, accounts, tokens, amount, party, n, init) matches Ok(st) ==> {
            &&& forall|k: int|
                0 <= k < st.transfers.len() ==> {
                    &&& (#[trigger] st.transfers[k]).token < n
                    &&& spl_owed(tokens, amount, st.transfers[k].token as int)
                    &&& st.transfers[k].amount == amount[st.transfers[k].token as int]
                }
            &&& forall|i: int|
                0 <= i < n && #[trigger] spl_owed(tokens, amount, i) ==> exists|k: int|
                    0 <= k < st.transfers.len() && st.transfers[k].token == i
        },
    decreases n,
{
    assert(seq![0u8; 32] =~= crate::sol::zeros(32));
    if n > 0 {
        lemma_transfers_carry_amounts(funding, accounts, tokens, amount, party, (n - 1) as nat, init);
        if let Ok(st) = transfer_steps(funding, accounts, tokens, amount, party, (n - 1) as nat, init) {
            if let Ok(st2) = transfer_steps(funding, accounts, tokens, amount, party, n, init) {
                let i = n - 1;
                assert(st2.transfers.len() >= st.transfers.len());
                assert forall|k: int| 0 <= k < st.transfers.len() implies st2.transfers[k] == st.transfers[k] by {}
                if st2.transfers.len() > st.transfers.len() {
                    assert(st2.transfers =~= st.transfers.push(st2.transfers.last()));
                    assert(st2.transfers.last().token == i);
                }
                assert forall|j: int| 0 <= j < n && #[trigger] spl_owed(tokens, amount, j) implies exists|k: int|
                    0 <= k < st2.transfers.len() && st2.transfers[k].token == j by {
                    if j < i {
                        let k = choose|k: int| 0 <= k < st.transfers.len() && st.transfers[k].token == j;
                        assert(st2.transfers[k] == st.transfers[k]);
                    } else {
                        assert(st2.transfers.len() == st.transfers.len() + 1);
                        assert(st2.transfers[st.transfers.len() as int].token == j);
                    }
                }
            }
        }
    }
}

/// Aborting the funding refunds the party that funded, with its own
/// balances: every token transfer carries that party's balance of its
/// asset, and every SPL token of which that party holds a positive balance
/// has a transfer.
pub proof fn lemma_abort_refunds_the_funder(
    program_id: [u8; 32],
    accounts: Seq<AccountSnapshot>,
    channel_id: ChannelID,
    c: ChannelView,
    rent: u64,
)
    requires
        c.state.balances.tokens.len() <= usize::MAX,
    ensures
        spec_abort_funding(program_id, accounts, channel_id, Some(c), rent) matches Ok(p) ==> {
            let bal = if c.control.funded_a { c.state.balances.bal_a } else { c.state.balances.bal_b };
            &&& forall|k: int|
                0 <= k < p.transfers.len() ==> (#[trigger] p.transfers[k]).amount == bal[p.transfers[k].token as int]
                    && spl_owed(c.state.balances.tokens, bal, p.transfers[k].token as int)
            &&& forall|i: int| #[trigger] spl_owed(c.state.balances.tokens, bal, i) ==> exists|k: int|
                0 <= k < p.transfers.len() && p.transfers[k].token == i
        },
{
    let t = c.state.balances.tokens;
    let init = TransferProgress { lamports: lamports_of(accounts), cursor: 2, transfers: Seq::empty() };
    let bal = if c.control.funded_a { c.state.balances.bal_a } else { c.state.balances.bal_b };
    lemma_transfers_carry_amounts(false, accounts, t, bal, 1, t.len(), init);
    if let Ok(p) = spec_abort_funding(program_id, accounts, channel_id, Some(c), rent) {
        let st = transfer_steps(false, accounts, t, bal, 1, t.len(), init)->Ok_0;
        assert(p.transfers == st.transfers);
        assert forall|i: int| #[trigger] spl_owed(t, bal, i) implies exists|k: int|
            0 <= k < p.transfers.len() && p.transfers[k].token == i by {
            assert(0 <= i < t.len());
        }
    }
}

/// Funding pays in the funding party's own balances: every token transfer
/// carries that party's balance of its asset, and every SPL token of which
/// the party holds a positive balance has a transfer.
pub proof fn lemma_fund_pays_own_balances(
    program_id: [u8; 32],
    accounts: Seq<AccountSnapshot>,
    channel_id: ChannelID,
    party_idx: bool,
    c: ChannelView,
)
    requires
        c.state.balances.tokens.len() <= usize::MAX,
    ensures
        spec_fund(program_id, accounts, channel_id, party_idx, Some(c)) matches Ok(p) ==> {
            let bal = if party_idx { c.state.balances.bal_b } else { c.state.balances.bal_a };
            &&& forall|k: int|
                0 <= k < p.transfers.len() ==> (#[trigger] p.transfers[k]).amount == bal[p.transfers[k].token as int]
                    && spl_owed(c.state.balances.tokens, bal, p.transfers[k].token as int)
            &&& forall|i: int| #[trigger] spl_owed(c.state.balances.tokens, bal, i) ==> exists|k: int|
                0 <= k < p.transfers.len() && p.transfers[k].token == i
        },
{
    let t = c.state.balances.tokens;
    let init = TransferProgress { lamports: lamports_of(accounts), cursor: 3, transfers: Seq::empty() };
    let bal = if party_idx { c.state.balances.bal_b } else { c.state.balances.bal_a };
    lemma_transfers_carry_amounts(true, accounts, t, bal, 1, t.len(), init);
    if let Ok(p) = spec_fund(program_id, accounts, channel_id, party_idx, Some(c)) {
        let st = transfer_steps(true, accounts, t, bal, 1, t.len(), init)->Ok_0;
        assert(p.transfers == st.transfers);
        assert forall|i: int| #[trigger] spl_owed(t, bal, i) implies exists|k: int|
            0 <= k < p.transfers.len() && p.transfers[k].token == i by {
            assert(0 <= i < t.len());
        }
    }
}

/// A withdrawal pays out the withdrawing party's own balances: every token
/// transfer carries that party's balance of its asset, and every SPL token of
/// which the party holds a positive balance has a transfer.
pub proof fn lemma_withdraw_pays_own_balances(
    program_id: [u8; 32],
    accounts: Seq<AccountSnapshot>,
    channel_id: ChannelID,
    party_idx: bool,
    one_withdrawer: bool,
    c: ChannelView,
    rent: u64,
)
    requires
        c.state.balances.tokens.len() <= usize::MAX,
    ensures
        spec_withdraw(program_id, accounts, channel_id, party_idx, one_withdrawer, Some(c), rent) matches Ok(p)
            ==> {
            let bal = if party_idx { c.state.balances.bal_b } else { c.state.balances.bal_a };
            &&& forall|k: int|
                0 <= k < p.transfers.len() ==> (#[trigger] p.transfers[k]).amount == bal[p.transfers[k].token as int]
                    && spl_owed(c.state.balances.tokens, bal, p.transfers[k].token as int)
            &&& forall|i: int| #[trigger] spl_owed(c.state.balances.tokens, bal, i) ==> exists|k: int|
                0 <= k < p.transfers.len() && p.transfers[k].token == i
        },
{
    let t = c.state.balances.tokens;
    let r = withdraw_receiver(party_idx, one_withdrawer) as int;
    let init = TransferProgress {
        lamports: lamports_of(accounts),
        cursor: withdraw_cursor(party_idx, one_withdrawer),
        transfers: Seq::empty(),
    };
    let bal = if party_idx { c.state.balances.bal_b } else { c.state.balances.bal_a };
    lemma_transfers_carry_amounts(false, accounts, t, bal, r, t.len(), init);
    if let Ok(p) = spec_withdraw(program_id, accounts, channel_id, party_idx, one_withdrawer, Some(c), rent) {
        let st = transfer_steps(false, accounts, t, bal, r, t.len(), init)->Ok_0;
        assert(p.transfers == st.transfers);
        assert forall|i: int| #[trigger] spl_owed(t, bal, i) implies exists|k: int|
            0 <= k < p.transfers.len() && p.transfers[k].token == i by {
            assert(0 <= i < t.len());
        }
    }
}

/// Whether a party whose balances are `bal` owes nothing on Solana: its
/// balance of every Solana asset of `tokens` that it has a balance of is 0.
pub open spec fn owes_nothing_on_solana(tokens: Seq<CrossAsset>, bal: Seq<u64>) -> bool {
    forall|i: int| 0 <= i < tokens.len() && tokens[i].chain.0 == 6 && i < bal.len() ==> #[trigger] bal[i] == 0
}

/// Funding marks the other party funded exactly where it owes nothing on
/// Solana (or had funded already): the other party's bit is newly set only
/// if its balance of every Solana asset is zero, and is set whenever it is.
pub proof fn lemma_fund_marks_other_only_if_nothing_owed(
    program_id: [u8; 32],
    accounts: Seq<AccountSnapshot>,
    channel_id: ChannelID,
    party_idx: bool,
    c: ChannelView,
)
    ensures
        spec_fund(program_id, accounts, channel_id, party_idx, Some(c)) matches Ok(p) ==> (
        p.update matches ChannelUpdateView::Store(c2) && if party_idx {
            c2.control.funded_b && c2.control.funded_a == (c.control.funded_a || owes_nothing_on_solana(
                c.state.balances.tokens,
                c.state.balances.bal_a,
            ))
        } else {
            c2.control.funded_a && c2.control.funded_b == (c.control.funded_b || owes_nothing_on_solana(
                c.state.balances.tokens,
                c.state.balances.bal_b,
            ))
        }),
{
    let tokens = c.state.balances.tokens;
    let other = if party_idx { c.state.balances.bal_a } else { c.state.balances.bal_b };
    if owes_nothing_on_solana(tokens, other) {
        assert forall|i: int|
            0 <= i < tokens.len() && tokens[i].chain.0 == 6 && i < other.len() implies #[trigger] other[i] == 0 by {}
        assert(spec_funded(tokens, other));
    }
    if spec_funded(tokens, other) {
        assert forall|i: int|
            0 <= i < tokens.len() && tokens[i].chain.0 == 6 && i < other.len() implies #[trigger] other[i] == 0 by {}
        assert(owes_nothing_on_solana(tokens, other));
    }
}

// ---------------------------------------------------------------------------
// The signed form of a state
// ---------------------------------------------------------------------------

proof fn lemma_word_u64_injective(x: u64, y: u64)
    requires
        word_u64(x) == word_u64(y),
    ensures
        x == y,
{
    let bx = be_bytes_u64(x);
    let by = be_bytes_u64(y);
    assert(word_u64(x).subrange(24, 32) =~= bx);
    assert(word_u64(y).subrange(24, 32) =~= by);
    assert(bx =~= by);
    assert(bx[0] == by[0] && bx[1] == by[1] && bx[2] == by[2] && bx[3] == by[3]);
    assert(bx[4] == by[4] && bx[5] == by[5] && bx[6] == by[6] && bx[7] == by[7]);
    let (x0, x1, x2, x3) = (bx[0], bx[1], bx[2], bx[3]);
    let (x4, x5, x6, x7) = (bx[4], bx[5], bx[6], bx[7]);
    assert(x0 == ((x >> 56u64) & 0xff) as u8 && x1 == ((x >> 48u64) & 0xff) as u8);
    assert(x2 == ((x >> 40u64) & 0xff) as u8 && x3 == ((x >> 32u64) & 0xff) as u8);
    assert(x4 == ((x >> 24u64) & 0xff) as u8 && x5 == ((x >> 16u64) & 0xff) as u8);
    assert(x6 == ((x >> 8u64) & 0xff) as u8 && x7 == ((x >> 0u64) & 0xff) as u8);
    assert(x0 == ((y >> 56u64) & 0xff) as u8 && x1 == ((y >> 48u64) & 0xff) as u8);
    assert(x2 == ((y >> 40u64) & 0xff) as u8 && x3 == ((y >> 32u64) & 0xff) as u8);
    assert(x4 == ((y >> 24u64) & 0xff) as u8 && x5 == ((y >> 16u64) & 0xff) as u8);
    assert(x6 == ((y >> 8u64) & 0xff) as u8 && x7 == ((y >> 0u64) & 0xff) as u8);
    assert(x == y) by (bit_vector)
        requires
            ((x >> 56u64) & 0xff) as u8 == ((y >> 56u64) & 0xff) as u8,
            ((x >> 48u64) & 0xff) as u8 == ((y >> 48u64) & 0xff) as u8,
            ((x >> 40u64) & 0xff) as u8 == ((y >> 40u64) & 0xff) as u8,
            ((x >> 32u64) & 0xff) as u8 == ((y >> 32u64) & 0xff) as u8,
            ((x >> 24u64) & 0xff) as u8 == ((y >> 24u64) & 0xff) as u8,
            ((x >> 16u64) & 0xff) as u8 == ((y >> 16u64) & 0xff) as u8,
            ((x >> 8u64) & 0xff) as u8 == ((y >> 8u64) & 0xff) as u8,
            ((x >> 0u64) & 0xff) as u8 == ((y >> 0u64) & 0xff) as u8,
    ;
}

/// The Solidity form of a state, which both parties sign, loses nothing the
/// parties agree on: two convertible states with the same Solidity form
/// have the same identifier, version, finality and the same full 64-bit
/// balances of both parties in both assets.
pub proof fn lemma_state_sol_determines_state(s1: ChannelStateView, s2: ChannelStateView)
    requires
        convertible(s1),
        convertible(s2),
        spec_state_sol(s1) == spec_state_sol(s2),
    ensures
        s1.channel_id == s2.channel_id,
        s1.version == s2.version,
        s1.finalized == s2.finalized,
        s1.balances.bal_a[0] == s2.balances.bal_a[0],
        s1.balances.bal_a[1] == s2.balances.bal_a[1],
        s1.balances.bal_b[0] == s2.balances.bal_b[0],
        s1.balances.bal_b[1] == s2.balances.bal_b[1],
        forall|j: int| 0 <= j < 2 ==> {
            let (t1, t2) = (#[trigger] s1.balances.tokens[j], s2.balances.tokens[j]);
            &&& t1.chain == t2.chain
            &&& t1.chain.0 == 6 ==> t1.solana_address == t2.solana_address
            &&& t1.chain.0 != 6 ==> t1.eth_address == t2.eth_address
        },
{
    let o1 = spec_state_sol(s1).outcome;
    let o2 = spec_state_sol(s2).outcome;
    assert(s1.channel_id =~= s2.channel_id) by {
        assert(spec_state_sol(s1).channel_id == spec_state_sol(s2).channel_id);
    }
    assert(o1.balances[0][0] == o2.balances[0][0]);
    assert(o1.balances[0][1] == o2.balances[0][1]);
    assert(o1.balances[1][0] == o2.balances[1][0]);
    assert(o1.balances[1][1] == o2.balances[1][1]);
    lemma_word_u64_injective(s1.balances.bal_a[0], s2.balances.bal_a[0]);
    lemma_word_u64_injective(s1.balances.bal_b[0], s2.balances.bal_b[0]);
    lemma_word_u64_injective(s1.balances.bal_a[1], s2.balances.bal_a[1]);
    lemma_word_u64_injective(s1.balances.bal_b[1], s2.balances.bal_b[1]);
    assert forall|j: int| 0 <= j < 2 implies {
        let (t1, t2) = (#[trigger] s1.balances.tokens[j], s2.balances.tokens[j]);
        &&& t1.chain == t2.chain
        &&& t1.chain.0 == 6 ==> t1.solana_address == t2.solana_address
        &&& t1.chain.0 != 6 ==> t1.eth_address == t2.eth_address
    } by {
        let (t1, t2) = (s1.balances.tokens[j], s2.balances.tokens[j]);
        assert(o1.assets[j] == o2.assets[j]);
        lemma_word_u64_injective(t1.chain.0, t2.chain.0);
        if t1.chain.0 == 6 {
            assert(t1.solana_address =~= t2.solana_address);
        } else {
            assert(t1.eth_address =~= t2.eth_address);
        }
    }
}

// ---------------------------------------------------------------------------
// Dispatch
// ---------------------------------------------------------------------------

/// The program hands each decoded instruction to its own handler, with the
/// instruction's own fields: its outcome is the handler's.
pub proof fn lemma_dispatch_forwards(
    program_id: [u8; 32],
    accounts: Seq<AccountSnapshot>,
    instruction: PerunInstruction,
    channel: Option<ChannelView>,
    now: i64,
    rent: u64,
)
    ensures
        spec_process_instruction(program_id, accounts, Some(instruction), channel, now, rent) == match instruction {
            PerunInstruction::Open { params, state } => spec_open(program_id, accounts, params, state@, now),
            PerunInstruction::Fund { channel_id, party_idx } => spec_fund(program_id, accounts, channel_id, party_idx, channel),
            PerunInstruction::Close { state, sig_a, sig_b } => spec_close(program_id, accounts, state@, sig_a@, sig_b@, channel),
            PerunInstruction::ForceClose { channel_id } => spec_force_close(program_id, accounts, channel_id, channel, now),
            PerunInstruction::Dispute { state, sig_a, sig_b } => spec_dispute(program_id, accounts, state@, sig_a@, sig_b@, channel, now),
            PerunInstruction::Withdraw { channel_id, party_idx, one_withdrawer } => spec_withdraw(
                program_id,
                accounts,
                channel_id,
                party_idx,
                one_withdrawer,
                channel,
                rent,
            ),
            PerunInstruction::AbortFunding { channel_id } => spec_abort_funding(program_id, accounts, channel_id, channel, rent),
        },
{
}

proof fn lemma_steps_never_ask_signature(
    funding: bool,
    accounts: Seq<AccountSnapshot>,
    tokens: Seq<CrossAsset>,
    amount: Seq<u64>,
    party: int,
    n: nat,
    init: TransferProgress,
)
    ensures
        transfer_steps(funding, accounts, tokens, amount, party, n, init) != Err::<TransferProgress, ProgramError>(
            ProgramError::MissingRequiredSignature,
        ),
    decreases n,
{
    if n > 0 {
        lemma_steps_never_ask_signature(funding, accounts, tokens, amount, party, (n - 1) as nat, init);
    }
}

/// Who may withdraw, as the program decides it: a successful withdrawal was
/// signed by the party itself, or by party B where B withdraws for both
/// (`one_withdrawer`); and B's signature on a withdrawal for both is never
/// refused as a missing signature.
pub proof fn lemma_withdraw_authentication(
    program_id: [u8; 32],
    accounts: Seq<AccountSnapshot>,
    channel_id: ChannelID,
    party_idx: bool,
    one_withdrawer: bool,
    c: ChannelView,
    now: i64,
    rent: u64,
)
    ensures
        ({
            let ix = PerunInstruction::Withdraw { channel_id, party_idx, one_withdrawer };
            let r = spec_process_instruction(program_id, accounts, Some(ix), Some(c), now, rent);
            &&& r is Ok ==> accounts[1].is_signer && accounts[1].key == (if one_withdrawer || party_idx {
                c.params.b.solana_address
            } else {
                c.params.a.solana_address
            })
            &&& (one_withdrawer && accounts.len() >= 2 && accounts[1].is_signer && accounts[1].key
                == c.params.b.solana_address) ==> r != Err::<PlanView, ProgramError>(
                ProgramError::MissingRequiredSignature,
            )
        }),
{
    let init = TransferProgress {
        lamports: lamports_of(accounts),
        cursor: withdraw_cursor(party_idx, one_withdrawer),
        transfers: Seq::empty(),
    };
    let bal = if party_idx { c.state.balances.bal_b } else { c.state.balances.bal_a };
    lemma_steps_never_ask_signature(
        false,
        accounts,
        c.state.balances.tokens,
        bal,
        withdraw_receiver(party_idx, one_withdrawer) as int,
        c.state.balances.tokens.len(),
        init,
    );
}

// ---------------------------------------------------------------------------
// When an instruction succeeds
// ---------------------------------------------------------------------------

/// Whether the instruction has at least `needed` accounts and the first is
/// the account at the address derived from "channel" and `channel_id`.
pub open spec fn channel_account_given(
    program_id: [u8; 32],
    accounts: Seq<AccountSnapshot>,
    needed: nat,
    channel_id: [u8; 32],
) -> bool {
    &&& accounts.len() >= needed
    &&& program_address(seq![seed_prefix_bytes(), channel_id@], program_id@) matches Some((k, _))
        && accounts[0].key@ == k
}

/// Opening succeeds on the initial state of the parameters, with the
/// derived channel account (still empty), the payer and the system program.
pub proof fn lemma_open_succeeds(
    program_id: [u8; 32],
    accounts: Seq<AccountSnapshot>,
    params: Params,
    state: ChannelStateView,
    now: i64,
)
    requires
        state.channel_id@ == spec_channel_id(params),
        channel_account_given(program_id, accounts, 3, state.channel_id),
        accounts[0].data_is_empty,
        state.version == 0,
        !state.finalized,
    ensures
        spec_open(program_id, accounts, params, state, now) is Ok,
{
}

/// Closing succeeds on a funded channel with a final state that has a
/// Solidity form and is signed by both participants.
pub proof fn lemma_close_succeeds(
    program_id: [u8; 32],
    accounts: Seq<AccountSnapshot>,
    state: ChannelStateView,
    sig_a: Seq<u8>,
    sig_b: Seq<u8>,
    c: ChannelView,
)
    requires
        channel_account_given(program_id, accounts, 1, state.channel_id),
        state.finalized,
        c.control.funded_a && c.control.funded_b,
        convertible(state),
        signature_check(c.params.a.l2_pubkey@, spec_state_hash(state), sig_a) is Ok,
        signature_check(c.params.b.l2_pubkey@, spec_state_hash(state), sig_b) is Ok,
    ensures
        spec_close(program_id, accounts, state, sig_a, sig_b, Some(c)) is Ok,
{
}

/// A dispute succeeds on a funded, open channel with a valid successor that
/// has a Solidity form and is signed by both participants.
pub proof fn lemma_dispute_succeeds(
    program_id: [u8; 32],
    accounts: Seq<AccountSnapshot>,
    new_state: ChannelStateView,
    sig_a: Seq<u8>,
    sig_b: Seq<u8>,
    c: ChannelView,
    now: i64,
)
    requires
        channel_account_given(program_id, accounts, 1, new_state.channel_id),
        c.control.funded_a && c.control.funded_b,
        !c.control.closed,
        spec_valid_transition(c.state, new_state),
        convertible(new_state),
        signature_check(c.params.a.l2_pubkey@, spec_state_hash(new_state), sig_a) is Ok,
        signature_check(c.params.b.l2_pubkey@, spec_state_hash(new_state), sig_b) is Ok,
    ensures
        spec_dispute(program_id, accounts, new_state, sig_a, sig_b, Some(c), now) is Ok,
{
}

/// A force close succeeds on a funded, open, disputed channel once
/// `challenge_duration` seconds have passed since the last dispute.
pub proof fn lemma_force_close_succeeds(
    program_id: [u8; 32],
    accounts: Seq<AccountSnapshot>,
    channel_id: ChannelID,
    c: ChannelView,
    now: i64,
)
    requires
        channel_account_given(program_id, accounts, 1, channel_id.spec_bytes()),
        !c.control.closed,
        c.control.funded_a && c.control.funded_b,
        c.control.disputed,
        c.control.timestamp + c.params.challenge_duration <= now as u64,
    ensures
        spec_force_close(program_id, accounts, channel_id, Some(c), now) is Ok,
{
}

/// A transition is valid where the old state is not final, the version
/// grows, the channel and its assets stay, and every asset of A's old
/// balances keeps its total over both parties.
pub proof fn lemma_transition_valid_when_totals_kept(old: ChannelStateView, new: ChannelStateView)
    requires
        !old.finalized,
        old.version < new.version,
        old.channel_id == new.channel_id,
        old.balances.tokens == new.balances.tokens,
        forall|i: int|
            0 <= i < old.balances.bal_a.len() ==> i < old.balances.bal_b.len() && i < new.balances.bal_a.len()
                && i < new.balances.bal_b.len() && #[trigger] old.balances.bal_a[i] + old.balances.bal_b[i]
                == new.balances.bal_a[i] + new.balances.bal_b[i],
    ensures
        spec_valid_transition(old, new),
{
    assert forall|i: int| 0 <= i < old.balances.bal_a.len() implies #[trigger] keeps_total(old, new, i) by {
        assert(old.balances.bal_a[i] + old.balances.bal_b[i] == new.balances.bal_a[i] + new.balances.bal_b[i]);
    }
}

// ---------------------------------------------------------------------------
// What the lamport moves of an instruction carry
// ---------------------------------------------------------------------------

/// The native SOL that `amount` holds of the first `n` assets of `tokens`.
pub open spec fn native_due(tokens: Seq<CrossAsset>, amount: Seq<u64>, n: nat) -> int
    decreases n,
{
    if n == 0 {
        0
    } else {
        let i = n - 1;
        native_due(tokens, amount, (n - 1) as nat) + if tokens[i].chain.0 == 6
            && tokens[i].solana_address@ == seq![0u8; 32] && i < amount.len() {
            amount[i] as int
        } else {
            0
        }
    }
}

proof fn lemma_move_between(
    accounts: Seq<AccountSnapshot>,
    ls: Seq<u64>,
    from: int,
    to: int,
    amount: u64,
)
    requires
        keys_distinct(accounts),
        ls.len() == accounts.len(),
        0 <= from < accounts.len(),
        0 <= to < accounts.len(),
        from != to,
    ensures
        move_lamports(accounts, ls, from, to, amount) matches Ok(l2) ==> l2 == ls.update(from, (ls[from]
            - amount) as u64).update(to, (ls[to] + amount) as u64),
{
    if ls[from] >= amount {
        let l1 = set_lamports(accounts, ls, accounts[from].key, (ls[from] - amount) as u64);
        lemma_set_is_update(accounts, ls, from, (ls[from] - amount) as u64);
        if l1[to] + amount <= u64::MAX {
            lemma_set_is_update(accounts, l1, to, (l1[to] + amount) as u64);
        }
    }
}

proof fn lemma_steps_move_native(
    funding: bool,
    accounts: Seq<AccountSnapshot>,
    tokens: Seq<CrossAsset>,
    amount: Seq<u64>,
    party: int,
    n: nat,
    init: TransferProgress,
)
    requires
        keys_distinct(accounts),
        0 < party < accounts.len(),
        init.lamports.len() == accounts.len(),
    ensures
        transfer_steps(funding, accounts, tokens, amount, party, n, init) matches Ok(st) ==> {
            &&& st.lamports.len() == accounts.len()
            &&& funding ==> st.lamports[0] == init.lamports[0] + native_due(tokens, amount, n)
                && st.lamports[party] == init.lamports[party] - native_due(tokens, amount, n)
            &&& !funding ==> st.lamports[0] == init.lamports[0] - native_due(tokens, amount, n)
                && st.lamports[party] == init.lamports[party] + native_due(tokens, amount, n)
            &&& forall|j: int| 0 <= j < accounts.len() && j != 0 && j != party ==> #[trigger] st.lamports[j]
                == init.lamports[j]
        },
    decreases n,
{
    assert(seq![0u8; 32] =~= crate::sol::zeros(32));
    if n > 0 {
        lemma_steps_move_native(funding, accounts, tokens, amount, party, (n - 1) as nat, init);
        if let Ok(st) = transfer_steps(funding, accounts, tokens, amount, party, (n - 1) as nat, init) {
            let i = n - 1;
            if i < amount.len() {
                if funding {
                    lemma_move_between(accounts, st.lamports, party, 0, amount[i]);
                } else {
                    lemma_move_between(accounts, st.lamports, 0, party, amount[i]);
                }
            }
        }
    }
}

/// Funding moves the funding party's native SOL balances, and nothing else,
/// from the payer to the channel account (the accounts being distinct).
pub proof fn lemma_fund_moves_native_sol(
    program_id: [u8; 32],
    accounts: Seq<AccountSnapshot>,
    channel_id: ChannelID,
    party_idx: bool,
    c: ChannelView,
)
    requires
        keys_distinct(accounts),
    ensures
        spec_fund(program_id, accounts, channel_id, party_idx, Some(c)) matches Ok(p) ==> {
            let bal = if party_idx { c.state.balances.bal_b } else { c.state.balances.bal_a };
            let due = native_due(c.state.balances.tokens, bal, c.state.balances.tokens.len());
            &&& p.lamports[0] == accounts[0].lamports + due
            &&& p.lamports[1] == accounts[1].lamports - due
        },
{
    let t = c.state.balances.tokens;
    let bal = if party_idx { c.state.balances.bal_b } else { c.state.balances.bal_a };
    if accounts.len() >= 3 {
        let init = TransferProgress { lamports: lamports_of(accounts), cursor: 3, transfers: Seq::empty() };
        lemma_steps_move_native(true, accounts, t, bal, 1, t.len(), init);
    }
}

/// Aborting the funding pays the funding party's native SOL balances back
/// from the channel account to the payer, and the rent to the creator (the
/// accounts being distinct).
pub proof fn lemma_abort_moves_native_sol_and_rent(
    program_id: [u8; 32],
    accounts: Seq<AccountSnapshot>,
    channel_id: ChannelID,
    c: ChannelView,
    rent: u64,
)
    requires
        keys_distinct(accounts),
    ensures
        spec_abort_funding(program_id, accounts, channel_id, Some(c), rent) matches Ok(p) ==> {
            let bal = if c.control.funded_a { c.state.balances.bal_a } else { c.state.balances.bal_b };
            let due = native_due(c.state.balances.tokens, bal, c.state.balances.tokens.len());
            &&& p.lamports[0] == accounts[0].lamports - due - rent
            &&& p.lamports[1] == accounts[1].lamports + due
            &&& exists|j: int|
                2 <= j < accounts.len() && accounts[j].key == c.control.creator && #[trigger] p.lamports[j]
                    == accounts[j].lamports + rent
        },
{
    let t = c.state.balances.tokens;
    let bal = if c.control.funded_a { c.state.balances.bal_a } else { c.state.balances.bal_b };
    if accounts.len() >= 2 {
        let init = TransferProgress { lamports: lamports_of(accounts), cursor: 2, transfers: Seq::empty() };
        lemma_steps_move_native(false, accounts, t, bal, 1, t.len(), init);
        lemma_transfers_cursor(false, accounts, t, bal, 1, t.len(), init);
        if let Ok(st) = transfer_steps(false, accounts, t, bal, 1, t.len(), init) {
            if 2 <= st.cursor < accounts.len() {
                lemma_move_between(accounts, st.lamports, 0, st.cursor as int, rent);
                if let Ok(p) = spec_abort_funding(program_id, accounts, channel_id, Some(c), rent) {
                    let j = st.cursor as int;
                    assert(p.lamports[j] == accounts[j].lamports + rent);
                }
            }
        }
    }
}

proof fn lemma_transfers_cursor(
    funding: bool,
    accounts: Seq<AccountSnapshot>,
    tokens: Seq<CrossAsset>,
    amount: Seq<u64>,
    party: int,
    n: nat,
    init: TransferProgress,
)
    ensures
        transfer_steps(funding, accounts, tokens, amount, party, n, init) matches Ok(st) ==> st.cursor
            >= init.cursor,
    decreases n,
{
    if n > 0 {
        lemma_transfers_cursor(funding, accounts, tokens, amount, party, (n - 1) as nat, init);
    }
}

/// A withdrawal pays the party's native SOL balances from the channel
/// account to the party's own account; once both parties have withdrawn,
/// the rent goes from the channel account to the creator (the accounts
/// being distinct).
pub proof fn lemma_withdraw_moves_native_sol_and_rent(
    program_id: [u8; 32],
    accounts: Seq<AccountSnapshot>,
    channel_id: ChannelID,
    party_idx: bool,
    one_withdrawer: bool,
    c: ChannelView,
    rent: u64,
)
    requires
        keys_distinct(accounts),
    ensures
        spec_withdraw(program_id, accounts, channel_id, party_idx, one_withdrawer, Some(c), rent) matches Ok(p)
            ==> {
            let bal = if party_idx { c.state.balances.bal_b } else { c.state.balances.bal_a };
            let due = native_due(c.state.balances.tokens, bal, c.state.balances.tokens.len());
            let r = withdraw_receiver(party_idx, one_withdrawer) as int;
            let rent_back = if p.update is Close { rent as int } else { 0 };
            &&& p.lamports[0] == accounts[0].lamports - due - rent_back
            &&& p.lamports[r] == accounts[r].lamports + due
            &&& p.lamports[2] == accounts[2].lamports + rent_back
        },
{
    let t = c.state.balances.tokens;
    let bal = if party_idx { c.state.balances.bal_b } else { c.state.balances.bal_a };
    let r = withdraw_receiver(party_idx, one_withdrawer) as int;
    if r < accounts.len() && accounts.len() >= 3 {
        let init = TransferProgress {
            lamports: lamports_of(accounts),
            cursor: withdraw_cursor(party_idx, one_withdrawer),
            transfers: Seq::empty(),
        };
        lemma_steps_move_native(false, accounts, t, bal, r, t.len(), init);
        if let Ok(st) = transfer_steps(false, accounts, t, bal, r, t.len(), init) {
            lemma_credit_debit_between(accounts, st.lamports, 2, 0, rent);
        }
    }
}

proof fn lemma_credit_debit_between(
    accounts: Seq<AccountSnapshot>,
    ls: Seq<u64>,
    to: int,
    from: int,
    amount: u64,
)
    requires
        keys_distinct(accounts),
        ls.len() == accounts.len(),
        0 <= from < accounts.len(),
        0 <= to < accounts.len(),
        from != to,
    ensures
        credit_then_debit(accounts, ls, to, from, amount) matches Ok(l2) ==> l2 == ls.update(to, (ls[to]
            + amount) as u64).update(from, (ls[from] - amount) as u64),
{
    if ls[to] + amount <= u64::MAX {
        let l1 = set_lamports(accounts, ls, accounts[to].key, (ls[to] + amount) as u64);
        lemma_set_is_update(accounts, ls, to, (ls[to] + amount) as u64);
        if l1[from] >= amount {
            lemma_set_is_update(accounts, l1, from, (l1[from] - amount) as u64);
        }
    }
}

// ---------------------------------------------------------------------------
// Signatures and parameters
// ---------------------------------------------------------------------------

/// How the last byte `v` of a signature is read: 27 and 28 (the Ethereum
/// convention) stand for the recovery ids 0 and 1; any byte other than
/// these four makes the signature invalid; with recovery id 0 or 1 the
/// signature holds exactly when the key recovered from the hash and `r || s`
/// is the signer's key without its 0x04 prefix.
pub proof fn lemma_signature_recovery_id(key: Seq<u8>, msg: Seq<u8>, sig: Seq<u8>)
    requires
        sig.len() == 65,
    ensures
        sig[64] == 27 ==> signature_check(key, msg, sig) == signature_check(key, msg, sig.update(64, 0)),
        sig[64] == 28 ==> signature_check(key, msg, sig) == signature_check(key, msg, sig.update(64, 1)),
        !(sig[64] == 0 || sig[64] == 1 || sig[64] == 27 || sig[64] == 28) ==> signature_check(key, msg, sig)
            == Err::<(), PerunError>(PerunError::InvalidSignature),
        (sig[64] == 0 || sig[64] == 1) ==> (signature_check(key, msg, sig) is Ok <==> secp256k1_recovered_key(
            msg,
            sig[64],
            sig.subrange(0, 64),
        ) == Some(key.subrange(1, 65))),
{
    assert(sig.update(64, 0).subrange(0, 64) =~= sig.subrange(0, 64));
    assert(sig.update(64, 1).subrange(0, 64) =~= sig.subrange(0, 64));
}

/// The Solidity parameters, whose hash is the channel's identifier, keep
/// everything of the parameters: two parameters with the same Solidity form
/// are the same.
pub proof fn lemma_params_sol_determines_params(p1: Params, p2: Params)
    requires
        spec_params_sol(p1) == spec_params_sol(p2),
    ensures
        p1 == p2,
{
    let s1 = spec_params_sol(p1);
    let s2 = spec_params_sol(p2);
    lemma_word_u64_injective(p1.challenge_duration, p2.challenge_duration);
    assert(p1.nonce =~= p2.nonce);
    assert(s1.participants[0] == s2.participants[0]);
    assert(s1.participants[1] == s2.participants[1]);
    lemma_participant_sol_injective(p1.a, p2.a);
    lemma_participant_sol_injective(p1.b, p2.b);
}

proof fn lemma_participant_sol_injective(a: Participant, b: Participant)
    requires
        spec_participant_sol(a) == spec_participant_sol(b),
    ensures
        a == b,
{
    let ca = spec_participant_sol(a).cc_address;
    let cb = spec_participant_sol(b).cc_address;
    assert(a.cc_address =~= b.cc_address);
    assert(ca.subrange(0, 32) =~= a.solana_address@);
    assert(cb.subrange(0, 32) =~= b.solana_address@);
    assert(a.solana_address =~= b.solana_address);
    assert(ca.subrange(52, 117) =~= a.l2_pubkey@);
    assert(cb.subrange(52, 117) =~= b.l2_pubkey@);
    assert(a.l2_pubkey =~= b.l2_pubkey);
}

} // verus!
