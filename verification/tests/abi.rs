use airdrop_rescue::abi::{
    encode_claim, encode_general_paymaster_input, encode_transfer, parse_proof_element,
};
use airdrop_rescue::address::Address;
use airdrop_rescue::word::U256;
use alloy_sol_types::SolValue;

fn proof_text(fill: u8) -> String {
    let mut s = String::from("0x");
    for _ in 0..32 {
        s.push_str(&format!("{:02x}", fill));
    }
    s
}

#[test]
fn claim_selector_is_keccak_prefix() {
    let data = encode_claim(1, 2, vec![]);
    assert_eq!(&data[..4], &[0xae, 0x0b, 0x51, 0xdf]);
}

#[test]
fn claim_without_proof_has_four_words() {
    let data = encode_claim(5, 9, vec![]);
    assert_eq!(data.len(), 4 + 4 * 32);
    assert_eq!(data[4 + 31], 5);
    assert_eq!(data[4 + 63], 9);
    assert_eq!(data[4 + 95], 96);
    assert_eq!(data[4 + 127], 0);
}

#[test]
fn claim_matches_alloy_abi_encoding() {
    let index: u64 = 123_456;
    let amount: u128 = 1_000_000_000_000_000_000;
    let proof = vec![proof_text(0xab), proof_text(0x01), proof_text(0xff)];
    let data = encode_claim(index, amount, proof.clone());

    let elements: Vec<alloy_primitives::B256> =
        proof.iter().map(|p| p.parse::<alloy_primitives::B256>().unwrap()).collect();
    let args = (
        alloy_primitives::U256::from(index),
        alloy_primitives::U256::from(amount),
        elements,
    )
        .abi_encode_params();
    let selector = alloy_primitives::keccak256("claim(uint256,uint256,bytes32[])");
    let mut expected = selector[..4].to_vec();
    expected.extend_from_slice(&args);
    assert_eq!(data, expected);
    assert_eq!(data.len(), 4 + 32 * (4 + 3));
}

#[test]
fn claim_accepts_upper_case_digits() {
    let upper = format!("0x{}", "AB".repeat(32));
    let lower = format!("0x{}", "ab".repeat(32));
    assert_eq!(encode_claim(0, 0, vec![upper]), encode_claim(0, 0, vec![lower]));
}

#[test]
fn proof_element_parsing() {
    assert_eq!(parse_proof_element(&proof_text(0x5a)), Some([0x5a; 32]));
    let mut expected = [0u8; 32];
    expected[31] = 1;
    assert_eq!(parse_proof_element(&format!("0x{}01", "00".repeat(31))), Some(expected));
    // missing prefix, upper-case prefix, wrong length, bad digit
    assert_eq!(parse_proof_element(&"ab".repeat(32)), None);
    assert_eq!(parse_proof_element(&format!("0X{}", "ab".repeat(32))), None);
    assert_eq!(parse_proof_element(&format!("0x{}", "ab".repeat(31))), None);
    assert_eq!(parse_proof_element(&format!("0x{}", "ab".repeat(33))), None);
    assert_eq!(parse_proof_element(&format!("0x{}a", "ab".repeat(31))), None);
    assert_eq!(parse_proof_element(&format!("0x{}zz", "ab".repeat(31))), None);
    assert_eq!(parse_proof_element(""), None);
}

#[test]
fn transfer_matches_alloy_abi_encoding() {
    let mut to = [0u8; 20];
    for (i, b) in to.iter_mut().enumerate() {
        *b = (i as u8) + 1;
    }
    let amount: u128 = 42_000_000;
    let data = encode_transfer(Address { bytes: to }, U256::from_u128(amount));

    let args = (alloy_primitives::Address::new(to), alloy_primitives::U256::from(amount))
        .abi_encode_params();
    let mut expected = vec![0xa9, 0x05, 0x9c, 0xbb];
    expected.extend_from_slice(&args);
    assert_eq!(data, expected);
    assert_eq!(data.len(), 68);
    assert_eq!(&data[4..16], &[0u8; 12]);
    assert_eq!(&data[16..36], &to);
}

#[test]
fn general_paymaster_input_is_empty_bytes_call() {
    let data = encode_general_paymaster_input();
    let args = (alloy_primitives::Bytes::new(),).abi_encode_params();
    let mut expected = vec![0x8c, 0x5a, 0x34, 0x45];
    expected.extend_from_slice(&args);
    assert_eq!(data, expected);
    assert_eq!(data.len(), 68);
    assert_eq!(data[4 + 31], 32);
    assert_eq!(data[4 + 63], 0);
}

#[test]
fn claim_words_are_where_the_contract_says() {
    let data = encode_claim(u64::MAX, u128::MAX, vec![proof_text(0x33)]);
    assert_eq!(data.len(), 4 + 32 * 5);
    assert_eq!(&data[4..28], &[0u8; 24]);
    assert_eq!(&data[28..36], &[0xffu8; 8]);
    assert_eq!(&data[36..52], &[0u8; 16]);
    assert_eq!(&data[52..68], &[0xffu8; 16]);
    assert_eq!(&data[132..164], &[0x33u8; 32]);
}
