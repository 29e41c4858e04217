use airdrop_rescue::wallet::{
    find_user_data, parse_u128_decimal, parse_u64_decimal, user_claim, AirdropEntry, UserClaim,
    WalletConfig, WalletProcessParams,
};

#[test]
fn decimal_parsing() {
    assert_eq!(parse_u64_decimal("123456"), Some(123456));
    assert_eq!(parse_u64_decimal("+5"), Some(5));
    assert_eq!(parse_u64_decimal("007"), Some(7));
    assert_eq!(parse_u64_decimal("18446744073709551615"), Some(u64::MAX));
    assert_eq!(parse_u64_decimal("18446744073709551616"), None);
    assert_eq!(parse_u64_decimal(""), None);
    assert_eq!(parse_u64_decimal("+"), None);
    assert_eq!(parse_u64_decimal("-1"), None);
    assert_eq!(parse_u64_decimal("12a"), None);
    assert_eq!(parse_u64_decimal(" 1"), None);
    assert_eq!(parse_u128_decimal("1000000000000000000"), Some(1_000_000_000_000_000_000));
    assert_eq!(parse_u128_decimal("340282366920938463463374607431768211455"), Some(u128::MAX));
    assert_eq!(parse_u128_decimal("340282366920938463463374607431768211456"), None);
    assert_eq!(parse_u128_decimal("9999999999999999999999999999999999999999x"), None);
}

#[test]
fn decimal_parsing_agrees_with_std() {
    for s in ["0", "1", "+12", "-3", "", "+", "99999999999999999999", "4294967296", "1_0"] {
        assert_eq!(parse_u64_decimal(s), s.parse::<u64>().ok(), "{}", s);
        assert_eq!(parse_u128_decimal(s), s.parse::<u128>().ok(), "{}", s);
    }
}

#[test]
fn user_data_lookup() {
    let data = vec!["0xAa".to_string(), "0xBb".to_string(), "0xBb".to_string()];
    assert_eq!(find_user_data(&data, &"0xBb".to_string()), Some(1));
    assert_eq!(find_user_data(&data, &"0xAa".to_string()), Some(0));
    assert_eq!(find_user_data(&data, &"0xbb".to_string()), None);
    assert_eq!(find_user_data(&vec![], &"0xAa".to_string()), None);
}

#[test]
fn wallet_params() {
    let p = WalletProcessParams::new(
        "0x01".to_string(),
        324,
        9,
        100,
        vec!["0xab".to_string()],
        "0x0101010101010101010101010101010101010101",
        "0202020202020202020202020202020202020202",
        "0X0303030303030303030303030303030303030303",
    );
    assert_eq!(p.chain_id, 324);
    assert_eq!(p.index, 9);
    assert_eq!(p.amount, 100);
    assert_eq!(p.claim_contract_address.bytes, [1u8; 20]);
    assert_eq!(p.token_contract_address.bytes, [2u8; 20]);
    assert_eq!(p.recipient_address.bytes, [3u8; 20]);
    assert_eq!(p.merkle_proof, vec!["0xab".to_string()]);
    let config = WalletConfig { private_keys: vec!["k".to_string()] };
    assert_eq!(config.private_keys.len(), 1);
}

fn allocation(index: Option<&str>, amount: Option<&str>, proof: Option<Vec<&str>>) -> AirdropEntry {
    AirdropEntry {
        merkle_index: index.map(str::to_string),
        token_amount: amount.map(str::to_string),
        merkle_proof: proof.map(|p| p.into_iter().map(str::to_string).collect()),
    }
}

fn claim_of(res: UserClaim) -> Option<(u64, u128, Vec<String>)> {
    match res {
        UserClaim::Claim { index, amount, merkle_proof } => Some((index, amount, merkle_proof)),
        _ => None,
    }
}

#[test]
fn user_claim_reads_first_allocation() {
    let addresses = vec!["0xAa".to_string(), "0xBb".to_string()];
    let allocations = vec![
        vec![allocation(Some("1"), Some("10"), Some(vec!["0x01"]))],
        vec![
            allocation(Some("123456"), Some("1000000000000000000"), Some(vec!["0xab", "0xcd"])),
            allocation(Some("9"), Some("9"), Some(vec![])),
        ],
    ];
    let got = claim_of(user_claim(&addresses, &allocations, &"0xBb".to_string()));
    assert_eq!(
        got,
        Some((123456, 1_000_000_000_000_000_000, vec!["0xab".to_string(), "0xcd".to_string()]))
    );
}

#[test]
fn user_claim_not_listed_and_unreadable() {
    let addresses = vec!["0xAa".to_string(), "0xBb".to_string(), "0xCc".to_string(), "0xDd".to_string()];
    let allocations = vec![
        vec![],
        vec![allocation(None, Some("10"), Some(vec![]))],
        vec![allocation(Some("18446744073709551616"), Some("1"), Some(vec![]))],
        vec![allocation(Some("1"), Some("1"), None)],
    ];
    assert!(matches!(user_claim(&addresses, &allocations, &"0xEe".to_string()), UserClaim::NotListed));
    for a in ["0xAa", "0xBb", "0xCc", "0xDd"] {
        assert!(matches!(user_claim(&addresses, &allocations, &a.to_string()), UserClaim::Unreadable));
    }
}
