use perun_solana_program::error::{PerunError, ProgramError};
use perun_solana_program::instructions::{check_participant, AccountSnapshot};
use perun_solana_program::multi::{Chain, CrossAsset};
use perun_solana_program::perun_types::{
    Balances, Channel, ChannelID, ChannelState, Control, Params, Participant,
};
use perun_solana_program::processor::{get_funded, is_timelock_expired, is_all_zero, is_valid_state_transition};

fn part(seed: u8) -> Participant {
    Participant { solana_address: [seed; 32], cc_address: [seed; 20], l2_pubkey: [seed; 65] }
}

fn token(chain: u64, addr: u8) -> CrossAsset {
    CrossAsset { chain: Chain::new(chain), solana_address: [addr; 32], eth_address: [addr; 20] }
}

fn st(version: u64, bal_a: Vec<u64>, bal_b: Vec<u64>, finalized: bool) -> ChannelState {
    ChannelState {
        channel_id: [3u8; 32],
        balances: Balances { tokens: vec![token(6, 1), token(6, 2)], bal_a, bal_b },
        version,
        finalized,
    }
}

fn control() -> Control {
    Control {
        funded_a: true,
        funded_b: true,
        closed: false,
        withdrawn_a: false,
        withdrawn_b: false,
        disputed: true,
        timestamp: 1_000,
        creator: [1u8; 32],
    }
}

fn channel(control: Control, challenge_duration: u64) -> Channel {
    Channel {
        params: Params { a: part(1), b: part(2), nonce: [0u8; 32], challenge_duration },
        state: st(1, vec![1, 2], vec![3, 4], false),
        control,
    }
}

#[test]
fn chain_keeps_its_value() {
    assert_eq!(Chain::new(6).as_u64(), 6);
    assert_eq!(Chain::new(u64::MAX).as_u64(), u64::MAX);
    assert_eq!(Chain::SOLANA_BACKEND_ID, 6);
}

#[test]
fn channel_id_gives_its_bytes() {
    let id = ChannelID::ID([42u8; 32]);
    assert_eq!(id.as_bytes(), &[42u8; 32]);
}

#[test]
fn error_codes_follow_declaration_order() {
    assert_eq!(PerunError::InvalidInstruction.code(), 0);
    assert_eq!(PerunError::AlreadyFunded.code(), 8);
    assert_eq!(PerunError::InvalidSignature.code(), 12);
    assert_eq!(PerunError::InvalidAddressType.code(), 32);
    assert_eq!(PerunError::from_code(17), Some(PerunError::InvalidStateTransition));
    assert_eq!(PerunError::from_code(33), None);
    assert_eq!(ProgramError::from(PerunError::TimelockNotExpired), ProgramError::Perun(PerunError::TimelockNotExpired));
}

#[test]
fn funded_flags() {
    let mut c = channel(control(), 10);
    assert!(c.is_funded());
    c.control.funded_b = false;
    assert!(!c.is_funded());
    assert!(!c.is_withdrawn());
    c.control.closed = true;
    c.control.withdrawn_a = true;
    c.control.withdrawn_b = true;
    assert!(c.is_withdrawn());
    c.control.closed = false;
    assert!(!c.is_withdrawn());
}

#[test]
fn participant_check() {
    let p = Params { a: part(1), b: part(2), nonce: [0u8; 32], challenge_duration: 5 };
    let acc = |k: u8| AccountSnapshot { key: [k; 32], is_signer: true, lamports: 0, data_is_empty: true };
    assert!(check_participant(&acc(1), &p));
    assert!(check_participant(&acc(2), &p));
    assert!(!check_participant(&acc(3), &p));
}

#[test]
fn transition_from_final_state_is_invalid() {
    let old = st(3, vec![1, 2], vec![3, 4], true);
    let new = st(4, vec![1, 2], vec![3, 4], true);
    assert!(!is_valid_state_transition(&old, &new));
}

#[test]
fn transition_at_version_zero_needs_equal_states() {
    let old = st(0, vec![1, 2], vec![3, 4], false);
    assert!(is_valid_state_transition(&old, &old.clone()));
    let new = st(0, vec![2, 2], vec![2, 4], false);
    assert!(!is_valid_state_transition(&old, &new));
}

#[test]
fn transition_needs_higher_version() {
    let old = st(5, vec![1, 2], vec![3, 4], false);
    assert!(!is_valid_state_transition(&old, &st(5, vec![1, 2], vec![3, 4], false)));
    assert!(!is_valid_state_transition(&old, &st(4, vec![1, 2], vec![3, 4], false)));
    assert!(is_valid_state_transition(&old, &st(6, vec![4, 0], vec![0, 6], true)));
}

#[test]
fn transition_keeps_channel_and_tokens() {
    let old = st(1, vec![1, 2], vec![3, 4], false);
    let mut other_id = st(2, vec![1, 2], vec![3, 4], false);
    other_id.channel_id = [9u8; 32];
    assert!(!is_valid_state_transition(&old, &other_id));
    let mut other_tokens = st(2, vec![1, 2], vec![3, 4], false);
    other_tokens.balances.tokens[1] = token(1, 2);
    assert!(!is_valid_state_transition(&old, &other_tokens));
}

#[test]
fn transition_keeps_totals() {
    let old = st(1, vec![100, 150], vec![200, 250], false);
    assert!(is_valid_state_transition(&old, &st(2, vec![100, 200], vec![200, 200], false)));
    assert!(!is_valid_state_transition(&old, &st(2, vec![100, 201], vec![200, 200], false)));
}

#[test]
fn transition_with_missing_balances_is_invalid() {
    let old = st(1, vec![1, 2], vec![3, 4], false);
    assert!(!is_valid_state_transition(&old, &st(2, vec![1], vec![3, 4], false)));
    assert!(!is_valid_state_transition(&old, &st(2, vec![1, 2], vec![3], false)));
    let short_b = st(1, vec![1, 2], vec![3], false);
    assert!(!is_valid_state_transition(&short_b, &st(2, vec![1, 2], vec![3, 4], false)));
    assert!(is_valid_state_transition(&old, &st(2, vec![0, 3], vec![4, 3], false)));
}

#[test]
fn transition_totals_are_compared_without_overflow() {
    let old = st(1, vec![u64::MAX, 2], vec![1, 4], false);
    assert!(is_valid_state_transition(&old, &st(2, vec![1, 2], vec![u64::MAX, 4], false)));
    assert!(!is_valid_state_transition(&old, &st(2, vec![0, 2], vec![u64::MAX, 4], false)));
}

#[test]
fn all_zero_balances() {
    assert!(is_all_zero(&vec![]));
    assert!(is_all_zero(&vec![0, 0]));
    assert!(!is_all_zero(&vec![0, 1]));
}

#[test]
fn timelock_expires_after_challenge_duration() {
    let c = channel(control(), 10);
    assert!(!is_timelock_expired(&c, 1_009));
    assert!(is_timelock_expired(&c, 1_010));
    assert!(is_timelock_expired(&c, 5_000));
    let mut undisputed = control();
    undisputed.disputed = false;
    assert!(!is_timelock_expired(&channel(undisputed, 10), 5_000));
}

#[test]
fn funded_when_nothing_is_owed_on_solana() {
    let tokens = vec![token(6, 1), token(1, 2)];
    assert!(get_funded(&tokens, &vec![0, 50]));
    assert!(!get_funded(&tokens, &vec![1, 0]));
    assert!(get_funded(&tokens, &vec![]));
    assert!(get_funded(&vec![], &vec![5]));
}

#[test]
fn every_error_is_found_again_from_its_code() {
    for c in 0u32..33 {
        let e = PerunError::from_code(c).expect("code in range");
        assert_eq!(e.code(), c);
        assert_eq!(PerunError::from_code(e.code()), Some(e));
    }
    assert!(PerunError::AlreadyFunded < PerunError::InvalidSignature);
}
