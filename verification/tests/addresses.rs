use airdrop_rescue::address::{
    address_from_text, address_text, convert_address_alloy_to_zksync, load_signer, Address,
};

fn bytes_of(hex40: &str) -> [u8; 20] {
    let mut out = [0u8; 20];
    for i in 0..20 {
        out[i] = u8::from_str_radix(&hex40[2 * i..2 * i + 2], 16).unwrap();
    }
    out
}

#[test]
fn address_parsing_accepts_prefix_and_case() {
    let expected = bytes_of("d8da6bf26964af9d7eed9e03e53415d37aa96045");
    let a = address_from_text("0xd8da6bf26964af9d7eed9e03e53415d37aa96045").unwrap();
    assert_eq!(a.bytes, expected);
    let b = address_from_text("D8DA6BF26964AF9D7EED9E03E53415D37AA96045").unwrap();
    assert_eq!(b.bytes, expected);
    let c = address_from_text("0Xd8dA6BF26964aF9D7eEd9e03E53415D37aA96045").unwrap();
    assert_eq!(c.bytes, expected);
}

#[test]
fn address_parsing_refuses_bad_text() {
    assert!(address_from_text("0xd8da6bf26964af9d7eed9e03e53415d37aa9604").is_none());
    assert!(address_from_text("0xd8da6bf26964af9d7eed9e03e53415d37aa960451").is_none());
    assert!(address_from_text("0xd8da6bf26964af9d7eed9e03e53415d37aa9604g").is_none());
    assert!(address_from_text("").is_none());
}

#[test]
fn address_text_is_eip55() {
    let a = Address { bytes: bytes_of("d8da6bf26964af9d7eed9e03e53415d37aa96045") };
    assert_eq!(address_text(&a), "0xd8dA6BF26964aF9D7eEd9e03E53415D37aA96045");
}

#[test]
fn conversion_keeps_bytes() {
    let a = Address { bytes: [7u8; 20] };
    assert_eq!(convert_address_alloy_to_zksync(a).bytes, [7u8; 20]);
}

#[test]
fn signer_of_key_one() {
    let key = format!("0x{}01", "00".repeat(31));
    let signer = load_signer(&key).unwrap();
    let mut secret = [0u8; 32];
    secret[31] = 1;
    assert_eq!(signer.secret, secret);
    assert_eq!(signer.address.bytes, bytes_of("7e5f4552091a69125d5dfcb7b8c2659029395bdf"));
    assert_eq!(address_text(&signer.address), "0x7E5F4552091A69125d5DfCb7b8C2659029395Bdf");
    // the same key without prefix
    let bare = format!("{}01", "00".repeat(31));
    assert_eq!(load_signer(&bare).unwrap().secret, secret);
}

#[test]
fn signer_refuses_invalid_keys() {
    assert!(load_signer(&format!("0x{}", "00".repeat(32))).is_none());
    // the group order itself is not a key
    assert!(load_signer("0xFFFFFFFFFFFFFFFFFFFFFFFFFFFFFFFEBAAEDCE6AF48A03BBFD25E8CD0364141").is_none());
    assert!(load_signer("0xFFFFFFFFFFFFFFFFFFFFFFFFFFFFFFFEBAAEDCE6AF48A03BBFD25E8CD0364140").is_some());
    assert!(load_signer(&format!("0x{}", "11".repeat(31))).is_none());
    assert!(load_signer("not a key").is_none());
}
