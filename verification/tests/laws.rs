use airdrop_rescue::abi::{encode_claim, encode_transfer, parse_proof_element};
use airdrop_rescue::address::{address_from_text, address_text, Address};
use airdrop_rescue::submission::{
    classify_rejection, first_nonce, next_attempt, NextAttempt, Rejection, SendOutcome, Submission,
};
use airdrop_rescue::wallet::parse_u64_decimal;
use airdrop_rescue::word::{u128_word, U256};

#[test]
fn address_text_reads_back() {
    for seed in [0u8, 1, 0x5a, 0xff] {
        let mut bytes = [0u8; 20];
        for (i, b) in bytes.iter_mut().enumerate() {
            *b = seed.wrapping_mul(31).wrapping_add(i as u8 * 17);
        }
        let a = Address { bytes };
        let text = address_text(&a);
        assert_eq!(text.len(), 42);
        assert_eq!(address_from_text(&text), Some(a));
    }
}

#[test]
fn proof_element_reads_back() {
    let mut value = [0u8; 32];
    for (i, b) in value.iter_mut().enumerate() {
        *b = (i as u8).wrapping_mul(9);
    }
    let text = format!("0x{}", value.iter().map(|b| format!("{:02x}", b)).collect::<String>());
    assert_eq!(parse_proof_element(&text), Some(value));
}

#[test]
fn transfer_moves_claimed_amount() {
    let amount: u128 = 123_456_789_000_000_000_000;
    let claim = encode_claim(77, amount, vec![format!("0x{}", "11".repeat(32))]);
    let transfer = encode_transfer(Address { bytes: [4u8; 20] }, U256::from_u128(amount));
    assert_eq!(&claim[36..68], &transfer[36..68]);
    assert_eq!(&claim[36..68], &u128_word(amount));
}

#[test]
fn claim_arguments_decode() {
    let proof = vec![format!("0x{}", "aa".repeat(32)), format!("0x{}", "bb".repeat(32))];
    let data = encode_claim(3, 4, proof);
    let args = &data[4..];
    assert_eq!(args.len(), 32 * 6);
    assert_eq!(args[31], 3);
    assert_eq!(args[63], 4);
    assert_eq!(args[95], 96);
    assert_eq!(args[127], 2);
    assert_eq!(&args[128..160], &[0xaau8; 32]);
    assert_eq!(&args[160..192], &[0xbbu8; 32]);
}

#[test]
fn nonce_laws() {
    for count in [0u64, 1, 1000] {
        assert_eq!(first_nonce(Submission::Transfer, count), first_nonce(Submission::Claim, count) + 1);
    }
    let up = match next_attempt(9, SendOutcome::Rejected(Rejection::NonceUsed)) {
        NextAttempt::Retry(n) => n,
        NextAttempt::Finished => panic!("a refused transaction does not end the loop"),
    };
    assert_eq!(next_attempt(up, SendOutcome::Rejected(Rejection::NonceAhead)), NextAttempt::Retry(9));
    assert_eq!(classify_rejection("nonce too high, nonce too low"), Rejection::NonceUsed);
}

#[test]
fn plus_sign_is_neutral() {
    assert_eq!(parse_u64_decimal("+42"), parse_u64_decimal("42"));
    assert_eq!(parse_u64_decimal("+0"), Some(0));
}
