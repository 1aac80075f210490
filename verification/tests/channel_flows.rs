use k256::ecdsa::{SigningKey, VerifyingKey};
use perun_solana_program::error::{PerunError, ProgramError};
use perun_solana_program::instructions::{AccountSnapshot, PerunInstruction};
use perun_solana_program::multi::{Chain, CrossAsset};
use perun_solana_program::perun_types::{Balances, Channel, ChannelID, ChannelState, Params, Participant};
use perun_solana_program::processor::{
    find_channel_address, process_abort_funding, process_close, process_dispute, process_force_close,
    process_fund, process_open, process_withdraw, ChannelUpdate, Plan, Processor,
};
use perun_solana_program::sol::get_channel_id_cross;

const A: bool = false;
const B: bool = true;
const PROGRAM_ID: [u8; 32] = [77u8; 32];
const RENT: u64 = 5_000;

struct Test {
    alice: Participant,
    bob: Participant,
    alice_key: SigningKey,
    bob_key: SigningKey,
    channel_id: ChannelID,
    pda: [u8; 32],
    state: ChannelState,
    stored: Option<Channel>,
    contract: Vec<u64>,
    wallet_a: Vec<u64>,
    wallet_b: Vec<u64>,
    checked_tokens: usize,
    now: i64,
}

fn key(seed: u8) -> SigningKey {
    SigningKey::from_slice(&[seed; 32]).unwrap()
}

fn pubkey65(k: &SigningKey) -> [u8; 65] {
    VerifyingKey::from(k).to_encoded_point(false).as_bytes().try_into().unwrap()
}

fn snapshot(key: [u8; 32], is_signer: bool, lamports: u64, data_is_empty: bool) -> AccountSnapshot {
    AccountSnapshot { key, is_signer, lamports, data_is_empty }
}

fn setup(challenge_duration: u64, bal_a: Vec<u64>, bal_b: Vec<u64>, mixed_assets: bool) -> Test {
    let alice_key = key(31);
    let bob_key = key(32);
    let alice_eth: [u8; 20] = [1, 2, 3, 4, 5, 6, 7, 8, 9, 10, 11, 12, 13, 14, 15, 16, 17, 18, 19, 20];
    let bob_eth: [u8; 20] = [21, 22, 23, 24, 25, 26, 27, 28, 29, 30, 31, 32, 33, 34, 35, 36, 37, 38, 39, 40];
    let alice = Participant { solana_address: [0xa1u8; 32], cc_address: alice_eth, l2_pubkey: pubkey65(&alice_key) };
    let bob = Participant { solana_address: [0xb2u8; 32], cc_address: bob_eth, l2_pubkey: pubkey65(&bob_key) };
    let mint_0 = [0x10u8; 32];
    let mint_1 = [0x11u8; 32];
    let token_0 = CrossAsset { chain: Chain::new(Chain::SOLANA_BACKEND_ID), solana_address: mint_0, eth_address: [0u8; 20] };
    let token_1 = if mixed_assets {
        let eth: [u8; 20] = [
            0xd8, 0xda, 0x6b, 0xf2, 0x69, 0x64, 0xaf, 0x9d, 0x7e, 0xed, 0x9e, 0x03, 0xe5, 0x34, 0x15, 0xd3, 0x7a,
            0xa9, 0x60, 0x45,
        ];
        CrossAsset { chain: Chain::new(1), solana_address: mint_0, eth_address: eth }
    } else {
        CrossAsset { chain: Chain::new(Chain::SOLANA_BACKEND_ID), solana_address: mint_1, eth_address: [0u8; 20] }
    };
    let params = Params { a: alice, b: bob, nonce: [0x5au8; 32], challenge_duration };
    let channel_id = get_channel_id_cross(&params);
    let pda = find_channel_address(channel_id.as_bytes(), &PROGRAM_ID).unwrap().0;
    let state = ChannelState {
        channel_id: *channel_id.as_bytes(),
        balances: Balances { tokens: vec![token_0, token_1], bal_a: bal_a.clone(), bal_b: bal_b.clone() },
        version: 0,
        finalized: false,
    };
    Test {
        alice,
        bob,
        alice_key,
        bob_key,
        channel_id,
        pda,
        state,
        stored: None,
        contract: vec![0, 0],
        wallet_a: bal_a,
        wallet_b: bal_b,
        checked_tokens: if mixed_assets { 1 } else { 2 },
        now: 1_700_000_000,
    }
}

impl Test {
    fn params(&self) -> Params {
        Params { a: self.alice, b: self.bob, nonce: [0x5au8; 32], challenge_duration: self.stored.as_ref().map(|c| c.params.challenge_duration).unwrap_or(10) }
    }

    fn party(&self, party_idx: bool) -> [u8; 32] {
        if party_idx { self.bob.solana_address } else { self.alice.solana_address }
    }

    fn accounts(&self, payer: [u8; 32], third: [u8; 32], extra: usize) -> Vec<AccountSnapshot> {
        let mut v = vec![
            snapshot(self.pda, false, RENT, self.stored.is_none()),
            snapshot(payer, true, 1_000_000_000, true),
            snapshot(third, false, 1_000_000_000, true),
        ];
        for i in 0..extra {
            v.push(snapshot([200 + i as u8; 32], false, 2_039_280, false));
        }
        v
    }

    fn apply(&mut self, plan: Plan, into_contract: bool, receiver_is_b: bool) {
        for t in plan.transfers.iter() {
            let wallet = if receiver_is_b { &mut self.wallet_b } else { &mut self.wallet_a };
            if into_contract {
                wallet[t.token] -= t.amount;
                self.contract[t.token] += t.amount;
            } else {
                wallet[t.token] += t.amount;
                self.contract[t.token] -= t.amount;
            }
        }
        match plan.update {
            ChannelUpdate::Create { channel, .. } => self.stored = Some(channel),
            ChannelUpdate::Store(channel) => self.stored = Some(channel),
            ChannelUpdate::Close => self.stored = None,
        }
    }

    fn open(&mut self, challenge_duration: u64) {
        let mut params = self.params();
        params.challenge_duration = challenge_duration;
        let accounts = self.accounts(self.alice.solana_address, [0u8; 32], 0);
        let plan = process_open(&PROGRAM_ID, &accounts, params, self.state.clone(), self.now).expect("open");
        assert!(matches!(plan.update, ChannelUpdate::Create { .. }));
        self.apply(plan, true, false);
        let c = self.stored.as_ref().unwrap();
        assert_eq!(c.control.creator, self.alice.solana_address);
        assert_eq!(c.control.timestamp, self.now as u64);
    }

    fn fund(&mut self, party_idx: bool) {
        let accounts = self.accounts(self.party(party_idx), [0u8; 32], 10);
        let plan = process_fund(&PROGRAM_ID, &accounts, self.channel_id, party_idx, self.stored.clone()).expect("fund");
        self.apply(plan, true, party_idx);
    }

    fn abort(&mut self, party_idx: bool) {
        let mut accounts = self.accounts(self.party(party_idx), [0u8; 32], 0);
        accounts.truncate(2);
        for i in 0..6 * self.checked_tokens {
            accounts.push(snapshot([200 + i as u8; 32], false, 2_039_280, false));
        }
        accounts.push(snapshot(self.alice.solana_address, false, 1_000_000_000, true));
        let plan = process_abort_funding(&PROGRAM_ID, &accounts, self.channel_id, self.stored.clone(), RENT).expect("abort");
        let creator = plan.lamports.len() - 1;
        assert_eq!(plan.lamports[0], 0);
        assert_eq!(plan.lamports[creator], 1_000_000_000 + RENT);
        self.apply(plan, false, party_idx);
    }

    fn send(&mut self, to_b: bool, amt: Vec<u64>) {
        for i in 0..amt.len() {
            if to_b {
                self.state.balances.bal_a[i] -= amt[i];
                self.state.balances.bal_b[i] += amt[i];
            } else {
                self.state.balances.bal_a[i] += amt[i];
                self.state.balances.bal_b[i] -= amt[i];
            }
        }
        self.state.version += 1;
    }

    fn finalize(&mut self) {
        self.state.version += 1;
        self.state.finalized = true;
    }

    fn sign(&self, k: &SigningKey, s: &ChannelState) -> [u8; 65] {
        let h = s.hash_state_eth_prefixed().unwrap();
        let (sig, rid) = k.sign_prehash_recoverable(&h).unwrap();
        let mut out = [0u8; 65];
        out[..64].copy_from_slice(&sig.to_bytes());
        out[64] = rid.to_byte() + 27;
        out
    }

    fn sigs(&self, s: &ChannelState) -> ([u8; 65], [u8; 65]) {
        (self.sign(&self.alice_key, s), self.sign(&self.bob_key, s))
    }

    fn close(&mut self) {
        let (sa, sb) = self.sigs(&self.state);
        let accounts = self.accounts(self.alice.solana_address, [0u8; 32], 0);
        let plan = process_close(&PROGRAM_ID, &accounts, self.state.clone(), sa, sb, self.stored.clone()).expect("close");
        self.apply(plan, false, false);
    }

    fn dispute(&mut self, party_idx: bool, s: ChannelState, sa: [u8; 65], sb: [u8; 65]) {
        let accounts = self.accounts(self.party(party_idx), [0u8; 32], 0);
        let plan = process_dispute(&PROGRAM_ID, &accounts, s, sa, sb, self.stored.clone(), self.now).expect("dispute");
        self.apply(plan, false, party_idx);
    }

    fn force_close(&mut self, party_idx: bool) {
        let accounts = self.accounts(self.party(party_idx), [0u8; 32], 0);
        let plan = process_force_close(&PROGRAM_ID, &accounts, self.channel_id, self.stored.clone(), self.now).expect("force close");
        self.apply(plan, false, party_idx);
    }

    fn withdraw(&mut self, party_idx: bool) {
        let accounts = self.accounts(self.party(party_idx), self.alice.solana_address, 12);
        let plan = process_withdraw(&PROGRAM_ID, &accounts, self.channel_id, party_idx, false, self.stored.clone(), RENT).expect("withdraw");
        self.apply(plan, false, party_idx);
    }

    fn verify_state(&self, expected: &ChannelState) {
        assert_eq!(&self.stored.as_ref().expect("channel account").state, expected, "Channel state mismatch");
    }

    fn verify(&self, which: &[u64], expected: Vec<u64>) {
        for i in 0..self.checked_tokens {
            assert_eq!(which[i], expected[i], "Token balance mismatch for asset {}", i);
        }
    }
}

fn honest_payment(mixed_asset: bool) {
    let mut t = setup(10, vec![100, 150], vec![200, 250], mixed_asset);
    t.open(10);
    let s = t.state.clone();
    t.verify_state(&s);
    t.fund(A);
    t.verify(&t.contract, vec![100, 150]);
    t.verify(&t.wallet_a, vec![0, 0]);
    t.fund(B);
    t.verify(&t.contract, vec![300, 400]);
    t.verify(&t.wallet_b, vec![0, 0]);
    t.send(false, vec![0, 50]);
    t.finalize();
    t.close();
    let s = t.state.clone();
    t.verify_state(&s);
    t.verify(&t.contract, vec![300, 400]);
    t.withdraw(A);
    t.verify(&t.wallet_a, vec![100, 200]);
    t.verify(&t.contract, vec![200, 200]);
    t.withdraw(B);
    t.verify(&t.wallet_b, vec![200, 200]);
    t.verify(&t.contract, vec![0, 0]);
    assert!(t.stored.is_none());
}

#[test]
fn test_honest_payment_cross_same_assets() {
    honest_payment(false);
}

#[test]
fn test_honest_payment_cross_mixed_asset() {
    honest_payment(true);
}

fn funding_abort(mixed_asset: bool) {
    let mut t = setup(10, vec![100, 150], vec![200, 250], mixed_asset);
    t.open(10);
    let s = t.state.clone();
    t.verify_state(&s);
    t.fund(A);
    t.verify(&t.contract, vec![100, 150]);
    t.verify(&t.wallet_a, vec![0, 0]);
    t.abort(A);
    t.verify(&t.contract, vec![0, 0]);
    t.verify(&t.wallet_a, vec![100, 150]);
    assert!(t.stored.is_none());
}

#[test]
fn test_funding_abort_cross_mixed_assets() {
    funding_abort(true);
}

#[test]
fn test_funding_abort_cross_same_assets() {
    funding_abort(false);
}

fn dispute_flow(mixed_asset: bool) {
    let mut t = setup(10, vec![100, 150], vec![200, 250], mixed_asset);
    t.open(10);
    t.fund(A);
    t.verify(&t.contract, vec![100, 150]);
    t.verify(&t.wallet_a, vec![0, 0]);
    t.fund(B);
    t.verify(&t.contract, vec![300, 400]);
    t.verify(&t.wallet_b, vec![0, 0]);
    t.send(false, vec![0, 50]);
    let (sa, sb) = t.sigs(&t.state);
    let s = t.state.clone();
    t.dispute(A, s.clone(), sa, sb);
    t.verify_state(&s);
    t.now += 15_000;
    t.force_close(A);
    t.verify_state(&s);
    t.verify(&t.contract, vec![300, 400]);
    t.withdraw(A);
    t.verify(&t.wallet_a, vec![100, 200]);
    t.verify(&t.contract, vec![200, 200]);
    t.withdraw(B);
    t.verify(&t.wallet_b, vec![200, 200]);
    t.verify(&t.contract, vec![0, 0]);
}

#[test]
fn test_dispute_cross_same_assets() {
    dispute_flow(false);
}

#[test]
fn test_dispute_cross_mixed_assets() {
    dispute_flow(true);
}

#[test]
fn test_malicious_dispute() {
    let mut t = setup(10, vec![100, 150], vec![200, 250], false);
    t.open(10);
    t.fund(A);
    t.verify(&t.contract, vec![100, 150]);
    t.fund(B);
    t.verify(&t.contract, vec![300, 400]);
    t.send(false, vec![50, 0]);
    let (sa, sb) = t.sigs(&t.state);
    let old_state = t.state.clone();
    t.send(true, vec![0, 100]);
    t.dispute(B, old_state.clone(), sa, sb);
    t.verify_state(&old_state);
    let (sa, sb) = t.sigs(&t.state);
    let s = t.state.clone();
    t.dispute(A, s.clone(), sa, sb);
    t.verify_state(&s);
    t.now += 15_000;
    t.force_close(A);
    t.verify_state(&s);
    t.verify(&t.contract, vec![300, 400]);
    t.withdraw(A);
    t.verify(&t.wallet_a, vec![150, 50]);
    t.verify(&t.contract, vec![150, 350]);
    t.withdraw(B);
    t.verify(&t.wallet_b, vec![150, 350]);
    t.verify(&t.contract, vec![0, 0]);
}

#[test]
fn stale_dispute_is_refused() {
    let mut t = setup(10, vec![100, 150], vec![200, 250], false);
    t.open(10);
    t.fund(A);
    t.fund(B);
    t.send(false, vec![50, 0]);
    let old_state = t.state.clone();
    let (oa, ob) = t.sigs(&old_state);
    t.send(true, vec![0, 100]);
    let (sa, sb) = t.sigs(&t.state);
    let s = t.state.clone();
    t.dispute(A, s, sa, sb);
    let accounts = t.accounts(t.bob.solana_address, [0u8; 32], 0);
    let r = process_dispute(&PROGRAM_ID, &accounts, old_state, oa, ob, t.stored.clone(), t.now);
    assert_eq!(r.err(), Some(ProgramError::Perun(PerunError::InvalidStateTransition)));
}

#[test]
fn open_refuses_foreign_or_used_states() {
    let mut t = setup(10, vec![100, 150], vec![200, 250], false);
    let accounts = t.accounts(t.alice.solana_address, [0u8; 32], 0);
    let mut wrong = t.state.clone();
    wrong.channel_id[0] ^= 1;
    let r = process_open(&PROGRAM_ID, &accounts, t.params(), wrong, t.now);
    assert_eq!(r.err(), Some(ProgramError::Perun(PerunError::ChannelIDMismatch)));
    let mut later = t.state.clone();
    later.version = 1;
    let r = process_open(&PROGRAM_ID, &accounts, t.params(), later, t.now);
    assert_eq!(r.err(), Some(ProgramError::Perun(PerunError::InvalidVersionNumber)));
    let mut fin = t.state.clone();
    fin.finalized = true;
    let r = process_open(&PROGRAM_ID, &accounts, t.params(), fin, t.now);
    assert_eq!(r.err(), Some(ProgramError::Perun(PerunError::OpenOnFinalState)));
    let r = process_open(&PROGRAM_ID, &accounts[..2].to_vec(), t.params(), t.state.clone(), t.now);
    assert_eq!(r.err(), Some(ProgramError::NotEnoughAccountKeys));
    let mut elsewhere = accounts.clone();
    elsewhere[0].key = [1u8; 32];
    let r = process_open(&PROGRAM_ID, &elsewhere, t.params(), t.state.clone(), t.now);
    assert_eq!(r.err(), Some(ProgramError::InvalidArgument));
    t.open(10);
    let accounts = t.accounts(t.alice.solana_address, [0u8; 32], 0);
    let r = process_open(&PROGRAM_ID, &accounts, t.params(), t.state.clone(), t.now);
    assert_eq!(r.err(), Some(ProgramError::Perun(PerunError::ChannelAlreadyExists)));
}

#[test]
fn fund_twice_or_by_stranger_is_refused() {
    let mut t = setup(10, vec![100, 150], vec![200, 250], false);
    t.open(10);
    let accounts = t.accounts(t.bob.solana_address, [0u8; 32], 10);
    let r = process_fund(&PROGRAM_ID, &accounts, t.channel_id, A, t.stored.clone());
    assert_eq!(r.err(), Some(ProgramError::MissingRequiredSignature));
    let mut unsigned = t.accounts(t.alice.solana_address, [0u8; 32], 10);
    unsigned[1].is_signer = false;
    let r = process_fund(&PROGRAM_ID, &unsigned, t.channel_id, A, t.stored.clone());
    assert_eq!(r.err(), Some(ProgramError::MissingRequiredSignature));
    let few = t.accounts(t.alice.solana_address, [0u8; 32], 7);
    let r = process_fund(&PROGRAM_ID, &few, t.channel_id, A, t.stored.clone());
    assert_eq!(r.err(), Some(ProgramError::NotEnoughAccountKeys));
    let r = process_fund(&PROGRAM_ID, &few, t.channel_id, A, None);
    assert_eq!(r.err(), Some(ProgramError::BorshIoError));
    t.fund(A);
    assert!(t.stored.as_ref().unwrap().control.funded_a);
    assert!(!t.stored.as_ref().unwrap().control.funded_b);
    let accounts = t.accounts(t.alice.solana_address, [0u8; 32], 10);
    let r = process_fund(&PROGRAM_ID, &accounts, t.channel_id, A, t.stored.clone());
    assert_eq!(r.err(), Some(ProgramError::Perun(PerunError::AlreadyFunded)));
}

#[test]
fn fund_marks_other_party_with_nothing_to_pay() {
    let mut t = setup(10, vec![100, 150], vec![0, 0], false);
    t.open(10);
    t.fund(A);
    assert!(t.stored.as_ref().unwrap().is_funded());
}

#[test]
fn fund_moves_native_sol_from_payer_to_channel() {
    let mut t = setup(10, vec![7, 0], vec![0, 0], false);
    t.state.balances.tokens[0].solana_address = [0u8; 32];
    t.open(10);
    let accounts = t.accounts(t.alice.solana_address, [0u8; 32], 5);
    let plan = process_fund(&PROGRAM_ID, &accounts, t.channel_id, A, t.stored.clone()).unwrap();
    assert_eq!(plan.lamports[0], RENT + 7);
    assert_eq!(plan.lamports[1], 1_000_000_000 - 7);
    assert!(plan.transfers.is_empty());
    let mut poor = accounts.clone();
    poor[1].lamports = 3;
    let r = process_fund(&PROGRAM_ID, &poor, t.channel_id, A, t.stored.clone());
    assert_eq!(r.err(), Some(ProgramError::InsufficientFunds));
}

#[test]
fn fund_with_missing_balance_aborts() {
    let mut t = setup(10, vec![100], vec![200, 250], false);
    t.open(10);
    let accounts = t.accounts(t.alice.solana_address, [0u8; 32], 10);
    let r = process_fund(&PROGRAM_ID, &accounts, t.channel_id, A, t.stored.clone());
    assert_eq!(r.err(), Some(ProgramError::Aborted));
}

#[test]
fn close_needs_final_state_funding_and_both_signatures() {
    let mut t = setup(10, vec![100, 150], vec![200, 250], false);
    t.open(10);
    t.fund(A);
    t.send(false, vec![0, 50]);
    let (sa, sb) = t.sigs(&t.state);
    let accounts = t.accounts(t.alice.solana_address, [0u8; 32], 0);
    let r = process_close(&PROGRAM_ID, &accounts, t.state.clone(), sa, sb, t.stored.clone());
    assert_eq!(r.err(), Some(ProgramError::Perun(PerunError::CloseOnNonFinalState)));
    t.finalize();
    let (sa, sb) = t.sigs(&t.state);
    let r = process_close(&PROGRAM_ID, &accounts, t.state.clone(), sa, sb, t.stored.clone());
    assert_eq!(r.err(), Some(ProgramError::Perun(PerunError::OperationOnUnfundedChannel)));
    t.fund(B);
    let r = process_close(&PROGRAM_ID, &accounts, t.state.clone(), sa, sa, t.stored.clone());
    assert_eq!(r.err(), Some(ProgramError::Perun(PerunError::InvalidSignature)));
    let r = process_close(&PROGRAM_ID, &accounts, t.state.clone(), sb, sb, t.stored.clone());
    assert_eq!(r.err(), Some(ProgramError::Perun(PerunError::InvalidSignature)));
    t.close();
    assert!(t.stored.as_ref().unwrap().control.closed);
}

#[test]
fn force_close_waits_for_dispute_and_timelock() {
    let mut t = setup(10, vec![100, 150], vec![200, 250], false);
    t.open(10);
    t.fund(A);
    t.fund(B);
    let accounts = t.accounts(t.alice.solana_address, [0u8; 32], 0);
    let r = process_force_close(&PROGRAM_ID, &accounts, t.channel_id, t.stored.clone(), t.now);
    assert_eq!(r.err(), Some(ProgramError::Perun(PerunError::ForceCloseOnUndisputedChannel)));
    let s = t.state.clone();
    let (sa, sb) = t.sigs(&s);
    t.dispute(A, s, sa, sb);
    let r = process_force_close(&PROGRAM_ID, &accounts, t.channel_id, t.stored.clone(), t.now + 9);
    assert_eq!(r.err(), Some(ProgramError::Perun(PerunError::TimelockNotExpired)));
    t.now += 10;
    t.force_close(A);
    let r = process_force_close(&PROGRAM_ID, &accounts, t.channel_id, t.stored.clone(), t.now);
    assert_eq!(r.err(), Some(ProgramError::Perun(PerunError::ForceCloseOnClosedChannel)));
}

#[test]
fn withdraw_only_once_and_only_when_closed() {
    let mut t = setup(10, vec![100, 150], vec![200, 250], false);
    t.open(10);
    t.fund(A);
    t.fund(B);
    let accounts = t.accounts(t.alice.solana_address, t.alice.solana_address, 12);
    let r = process_withdraw(&PROGRAM_ID, &accounts, t.channel_id, A, false, t.stored.clone(), RENT);
    assert_eq!(r.err(), Some(ProgramError::Perun(PerunError::WithdrawOnOpenChannel)));
    t.finalize();
    t.close();
    t.withdraw(A);
    let r = process_withdraw(&PROGRAM_ID, &accounts, t.channel_id, A, false, t.stored.clone(), RENT);
    assert_eq!(r.err(), Some(ProgramError::Perun(PerunError::AlreadyWithdrawn)));
    let wrong_creator = t.accounts(t.bob.solana_address, t.bob.solana_address, 12);
    let r = process_withdraw(&PROGRAM_ID, &wrong_creator, t.channel_id, B, false, t.stored.clone(), RENT);
    assert_eq!(r.err(), Some(ProgramError::IllegalOwner));
}

#[test]
fn one_withdrawer_authenticates_as_b() {
    let mut t = setup(10, vec![100, 150], vec![200, 250], false);
    t.open(10);
    t.fund(A);
    t.fund(B);
    t.finalize();
    t.close();
    let as_a = t.accounts(t.alice.solana_address, t.alice.solana_address, 12);
    let r = process_withdraw(&PROGRAM_ID, &as_a, t.channel_id, A, true, t.stored.clone(), RENT);
    assert_eq!(r.err(), Some(ProgramError::MissingRequiredSignature));
    let mut as_b = t.accounts(t.bob.solana_address, t.alice.solana_address, 13);
    // B withdraws for A: A's own account must follow the creator's.
    let r = process_withdraw(&PROGRAM_ID, &as_b, t.channel_id, A, true, t.stored.clone(), RENT);
    assert_eq!(r.err(), Some(ProgramError::InvalidArgument));
    as_b[3] = snapshot(t.alice.solana_address, false, 1_000_000_000, true);
    let plan = process_withdraw(&PROGRAM_ID, &as_b, t.channel_id, A, true, t.stored.clone(), RENT).unwrap();
    let amounts: Vec<u64> = plan.transfers.iter().map(|x| x.amount).collect();
    assert_eq!(amounts, vec![100, 150]);
    assert!(plan.transfers.iter().all(|x| x.party == 3));
    assert_eq!(plan.transfers[0].first_account, 4);
    as_b.truncate(3);
    let r = process_withdraw(&PROGRAM_ID, &as_b, t.channel_id, A, true, t.stored.clone(), RENT);
    assert_eq!(r.err(), Some(ProgramError::NotEnoughAccountKeys));
    // B withdrawing its own balance is paid on its own (the payer's) account.
    let as_b = t.accounts(t.bob.solana_address, t.alice.solana_address, 12);
    let plan = process_withdraw(&PROGRAM_ID, &as_b, t.channel_id, B, true, t.stored.clone(), RENT).unwrap();
    assert!(plan.transfers.iter().all(|x| x.party == 1 && x.first_account >= 3));
}

#[test]
fn one_withdrawer_pays_native_sol_to_a() {
    let mut t = setup(10, vec![7, 0], vec![5, 0], false);
    t.state.balances.tokens[0].solana_address = [0u8; 32];
    t.open(10);
    t.fund(A);
    t.fund(B);
    t.finalize();
    t.close();
    let mut accounts = t.accounts(t.bob.solana_address, t.alice.solana_address, 0);
    accounts[0].lamports = RENT + 12;
    accounts.push(snapshot(t.alice.solana_address, false, 1_000_000_000, true));
    let plan = process_withdraw(&PROGRAM_ID, &accounts, t.channel_id, A, true, t.stored.clone(), RENT).unwrap();
    assert_eq!(plan.lamports[0], RENT + 5);
    assert_eq!(plan.lamports[1], 1_000_000_000);
    // Accounts 2 and 3 are both A's: they are one account.
    assert_eq!(plan.lamports[3], 1_000_000_000 + 7);
    assert_eq!(plan.lamports[2], 1_000_000_000 + 7);
}

#[test]
fn abort_refused_on_funded_or_unfunded_channel() {
    let mut t = setup(10, vec![100, 150], vec![200, 250], false);
    t.open(10);
    let accounts = t.accounts(t.alice.solana_address, [0u8; 32], 13);
    let r = process_abort_funding(&PROGRAM_ID, &accounts, t.channel_id, t.stored.clone(), RENT);
    assert_eq!(r.err(), Some(ProgramError::Perun(PerunError::AbortFundingWithoutFunds)));
    t.fund(A);
    t.fund(B);
    let r = process_abort_funding(&PROGRAM_ID, &accounts, t.channel_id, t.stored.clone(), RENT);
    assert_eq!(r.err(), Some(ProgramError::Perun(PerunError::AbortFundingOnFundedChannel)));
}

#[test]
fn processor_dispatches_and_rejects_undecodable_data() {
    let mut t = setup(10, vec![100, 150], vec![200, 250], false);
    let accounts = t.accounts(t.alice.solana_address, [0u8; 32], 0);
    let r = Processor::process_instruction(&PROGRAM_ID, &accounts, None, None, t.now, RENT);
    assert_eq!(r.err(), Some(ProgramError::Perun(PerunError::InvalidInstruction)));
    let ix = PerunInstruction::Open { params: t.params(), state: t.state.clone() };
    let plan = Processor::process_instruction(&PROGRAM_ID, &accounts, Some(ix), None, t.now, RENT).unwrap();
    t.apply(plan, true, false);
    let ix = PerunInstruction::ForceClose { channel_id: t.channel_id };
    let r = Processor::process_instruction(&PROGRAM_ID, &accounts, Some(ix), t.stored.clone(), t.now, RENT);
    assert_eq!(r.err(), Some(ProgramError::Perun(PerunError::OperationOnUnfundedChannel)));
}

fn total_lamports(ls: &[u64]) -> u128 {
    ls.iter().map(|&l| l as u128).sum()
}

fn total_of(accounts: &[AccountSnapshot]) -> u128 {
    accounts.iter().map(|a| a.lamports as u128).sum()
}

#[test]
fn lamports_are_conserved_through_a_native_sol_channel() {
    let mut t = setup(10, vec![7, 0], vec![5, 0], false);
    t.state.balances.tokens[0].solana_address = [0u8; 32];
    t.open(10);

    let accounts = t.accounts(t.alice.solana_address, [0u8; 32], 5);
    let plan = process_fund(&PROGRAM_ID, &accounts, t.channel_id, A, t.stored.clone()).unwrap();
    assert_eq!(total_lamports(&plan.lamports), total_of(&accounts));
    assert_eq!(plan.lamports[0], RENT + 7);
    t.apply(plan, true, A);

    let accounts = t.accounts(t.bob.solana_address, [0u8; 32], 5);
    let plan = process_fund(&PROGRAM_ID, &accounts, t.channel_id, B, t.stored.clone()).unwrap();
    assert_eq!(total_lamports(&plan.lamports), total_of(&accounts));
    assert_eq!(plan.lamports[0], RENT + 5);
    t.apply(plan, true, B);

    t.finalize();
    t.close();

    let mut accounts = t.accounts(t.alice.solana_address, [0u8; 32], 6);
    accounts[0].lamports = RENT + 12;
    let plan = process_withdraw(&PROGRAM_ID, &accounts, t.channel_id, A, false, t.stored.clone(), RENT).unwrap();
    assert_eq!(total_lamports(&plan.lamports), total_of(&accounts));
    assert_eq!(plan.lamports[0], RENT + 5);
    assert_eq!(plan.lamports[1], 1_000_000_000 + 7);
    t.apply(plan, false, A);

    let mut accounts = t.accounts(t.bob.solana_address, t.alice.solana_address, 6);
    accounts[0].lamports = RENT + 5;
    let plan = process_withdraw(&PROGRAM_ID, &accounts, t.channel_id, B, false, t.stored.clone(), RENT).unwrap();
    assert_eq!(total_lamports(&plan.lamports), total_of(&accounts));
    assert_eq!(plan.lamports[0], 0);
    assert_eq!(plan.lamports[1], 1_000_000_000 + 5);
    assert_eq!(plan.lamports[2], 1_000_000_000 + RENT);
    assert!(matches!(plan.update, ChannelUpdate::Close));
}

#[test]
fn refusals_on_closed_or_disputed_channels() {
    let mut t = setup(10, vec![100, 150], vec![200, 250], false);
    t.open(10);
    t.fund(A);
    t.fund(B);
    t.finalize();
    t.close();
    let s = t.state.clone();
    let (sa, sb) = t.sigs(&s);
    let accounts = t.accounts(t.alice.solana_address, [0u8; 32], 0);
    let r = process_dispute(&PROGRAM_ID, &accounts, s, sa, sb, t.stored.clone(), t.now);
    assert_eq!(r.err(), Some(ProgramError::Perun(PerunError::DisputeOnClosedChannel)));

    // Channels whose control bits no instruction produces: half funded, yet
    // closed or disputed.
    let mut odd = t.stored.clone().unwrap();
    odd.control.funded_b = false;
    odd.control.closed = true;
    let accounts = t.accounts(t.alice.solana_address, [0u8; 32], 13);
    let r = process_abort_funding(&PROGRAM_ID, &accounts, t.channel_id, Some(odd.clone()), RENT);
    assert_eq!(r.err(), Some(ProgramError::Perun(PerunError::AbortFundingOnClosedChannel)));
    odd.control.closed = false;
    odd.control.disputed = true;
    let r = process_abort_funding(&PROGRAM_ID, &accounts, t.channel_id, Some(odd), RENT);
    assert_eq!(r.err(), Some(ProgramError::Perun(PerunError::AbortFundingOnDisputedChannel)));
}

#[test]
fn close_on_a_state_without_solidity_form_is_a_conversion_error() {
    let mut t = setup(10, vec![100, 150], vec![200, 250], false);
    t.open(10);
    t.fund(A);
    t.fund(B);
    t.finalize();
    let mut s = t.state.clone();
    s.balances.bal_b.truncate(1);
    let accounts = t.accounts(t.alice.solana_address, [0u8; 32], 0);
    let r = process_close(&PROGRAM_ID, &accounts, s, [0u8; 65], [0u8; 65], t.stored.clone());
    assert_eq!(r.err(), Some(ProgramError::Perun(PerunError::ConversionError)));
}

#[test]
fn constants_stay_and_only_dispute_restarts_the_timelock() {
    let mut t = setup(10, vec![100, 150], vec![200, 250], false);
    t.open(10);
    let first = t.stored.clone().unwrap();
    t.now += 100;
    t.fund(A);
    t.fund(B);
    let funded = t.stored.clone().unwrap();
    assert_eq!(funded.params, first.params);
    assert_eq!(funded.control.creator, first.control.creator);
    assert_eq!(funded.control.timestamp, first.control.timestamp);
    assert!(!funded.control.disputed);
    t.send(true, vec![10, 0]);
    let s = t.state.clone();
    let (sa, sb) = t.sigs(&s);
    t.dispute(B, s, sa, sb);
    let disputed = t.stored.clone().unwrap();
    assert!(disputed.control.disputed);
    assert_eq!(disputed.control.timestamp, t.now as u64);
    assert_eq!(disputed.state.channel_id, first.state.channel_id);
    assert_eq!(disputed.state.balances.tokens, first.state.balances.tokens);
    t.now += 10;
    t.force_close(A);
    let closed = t.stored.clone().unwrap();
    assert_eq!(closed.control.timestamp, disputed.control.timestamp);
    assert_eq!(closed.params, first.params);
}

#[test]
fn a_party_with_nothing_in_the_closed_channel_counts_as_withdrawn() {
    let mut t = setup(10, vec![100, 150], vec![200, 250], false);
    t.open(10);
    t.fund(A);
    t.fund(B);
    t.send(true, vec![100, 150]);
    t.finalize();
    t.close();
    let c = t.stored.as_ref().unwrap();
    assert!(c.control.closed);
    assert!(c.control.withdrawn_a);
    assert!(!c.control.withdrawn_b);
    let accounts = t.accounts(t.alice.solana_address, [0u8; 32], 12);
    let r = process_withdraw(&PROGRAM_ID, &accounts, t.channel_id, A, false, t.stored.clone(), RENT);
    assert_eq!(r.err(), Some(ProgramError::Perun(PerunError::AlreadyWithdrawn)));
    let accounts = t.accounts(t.bob.solana_address, t.alice.solana_address, 12);
    let plan = process_withdraw(&PROGRAM_ID, &accounts, t.channel_id, B, false, t.stored.clone(), RENT).unwrap();
    assert!(matches!(plan.update, ChannelUpdate::Close));
    let amounts: Vec<u64> = plan.transfers.iter().map(|x| x.amount).collect();
    assert_eq!(amounts, vec![300, 400]);
}

#[test]
fn force_close_marks_an_empty_party_withdrawn() {
    let mut t = setup(10, vec![0, 0], vec![200, 250], false);
    t.open(10);
    t.fund(B);
    let s = t.state.clone();
    let (sa, sb) = t.sigs(&s);
    t.dispute(A, s, sa, sb);
    t.now += 10;
    t.force_close(A);
    let c = t.stored.as_ref().unwrap();
    assert!(c.control.closed && c.control.withdrawn_a && !c.control.withdrawn_b);
}

#[test]
fn dispute_with_missing_balances_is_an_invalid_transition() {
    let mut t = setup(10, vec![100, 150], vec![200, 250], false);
    t.open(10);
    t.fund(A);
    t.fund(B);
    let mut s = t.state.clone();
    s.version = 1;
    s.balances.bal_b.truncate(1);
    let accounts = t.accounts(t.alice.solana_address, [0u8; 32], 0);
    let r = process_dispute(&PROGRAM_ID, &accounts, s, [0u8; 65], [0u8; 65], t.stored.clone(), t.now);
    assert_eq!(r.err(), Some(ProgramError::Perun(PerunError::InvalidStateTransition)));
}
