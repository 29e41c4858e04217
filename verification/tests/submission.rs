use airdrop_rescue::address::{Address, ZkAddress};
use airdrop_rescue::submission::{
    classify_rejection, find_bytes, first_nonce, next_attempt, offered_gas_price,
    prepare_attempt, wallet_round, NextAttempt, Rejection, SendOutcome, Submission, WalletRound,
};
use airdrop_rescue::word::U256;

#[test]
fn byte_search() {
    assert!(find_bytes(b"hello world", b"lo w"));
    assert!(find_bytes(b"abc", b""));
    assert!(find_bytes(b"abc", b"abc"));
    assert!(!find_bytes(b"abc", b"abcd"));
    assert!(!find_bytes(b"aab", b"abb"));
    assert!(find_bytes(b"aab", b"ab"));
}

#[test]
fn rejection_messages() {
    assert_eq!(
        classify_rejection("server returned an error response: error code -32000: nonce too low"),
        Rejection::NonceUsed
    );
    assert_eq!(classify_rejection("known transaction: 0xabc"), Rejection::NonceUsed);
    assert_eq!(classify_rejection("nonce too high"), Rejection::NonceAhead);
    assert_eq!(classify_rejection("insufficient funds"), Rejection::Other);
    assert_eq!(classify_rejection("Nonce too low"), Rejection::Other);
    assert_eq!(classify_rejection("nonce too low and nonce too high"), Rejection::NonceUsed);
}

#[test]
fn nonce_steps() {
    assert_eq!(next_attempt(5, SendOutcome::Registered), NextAttempt::Finished);
    assert_eq!(next_attempt(5, SendOutcome::NotRegistered), NextAttempt::Retry(5));
    assert_eq!(next_attempt(5, SendOutcome::Rejected(Rejection::NonceUsed)), NextAttempt::Retry(6));
    assert_eq!(next_attempt(5, SendOutcome::Rejected(Rejection::NonceAhead)), NextAttempt::Retry(4));
    assert_eq!(next_attempt(5, SendOutcome::Rejected(Rejection::Other)), NextAttempt::Retry(5));
    assert_eq!(next_attempt(0, SendOutcome::NotSigned), NextAttempt::Retry(0));
}

#[test]
fn transfer_nonce_follows_claim() {
    assert_eq!(first_nonce(Submission::Claim, 10), 10);
    assert_eq!(first_nonce(Submission::Transfer, 10), 11);
}

#[test]
fn gas_price_is_doubled() {
    assert_eq!(offered_gas_price(25_000_000), 50_000_000);
    assert_eq!(offered_gas_price(0), 0);
    assert_eq!(offered_gas_price(u128::MAX / 2), u128::MAX - 1);
}

#[test]
fn attempt_request() {
    let tx = prepare_attempt(
        3,
        Address { bytes: [1u8; 20] },
        Address { bytes: [2u8; 20] },
        100,
        500_000,
        &vec![1, 2, 3],
        324,
        ZkAddress { bytes: [9u8; 20] },
    );
    assert_eq!(tx.gas_price, U256::from_u128(200));
    assert_eq!(tx.nonce, U256::from_u64(3));
    assert_eq!(tx.gas, U256::from_u64(500_000));
    assert_eq!(tx.input, vec![1, 2, 3]);
}

#[test]
fn wallet_rounds() {
    assert_eq!(wallet_round(true, true), WalletRound::Done);
    assert_eq!(wallet_round(true, false), WalletRound::RetryBoth);
    assert_eq!(wallet_round(false, true), WalletRound::RetryBoth);
    assert_eq!(wallet_round(false, false), WalletRound::RetryBoth);
}
