use airdrop_rescue::word::{u128_word, u64_word, U256};

#[test]
fn u128_word_is_big_endian() {
    let w = u128_word(0x0102);
    let mut expected = [0u8; 32];
    expected[30] = 0x01;
    expected[31] = 0x02;
    assert_eq!(w, expected);
}

#[test]
fn u128_word_of_max_fills_low_half() {
    let w = u128_word(u128::MAX);
    assert_eq!(&w[..16], &[0u8; 16]);
    assert_eq!(&w[16..], &[0xffu8; 16]);
}

#[test]
fn u64_word_matches_to_be_bytes() {
    let v: u64 = 0x1122_3344_5566_7788;
    let w = u64_word(v);
    assert_eq!(&w[24..], &v.to_be_bytes());
    assert_eq!(&w[..24], &[0u8; 24]);
}

#[test]
fn u256_from_u128_agrees_with_alloy() {
    let v: u128 = 1_000_000_000_000_000_000;
    let ours = U256::from_u128(v);
    let theirs = alloy_primitives::U256::from(v);
    assert_eq!(ours.be, theirs.to_be_bytes::<32>());
}

#[test]
fn u256_big_endian_round_trip() {
    let mut bytes = [0u8; 32];
    for (i, b) in bytes.iter_mut().enumerate() {
        *b = i as u8;
    }
    let x = U256::from_big_endian(&bytes);
    assert_eq!(x.to_big_endian(), bytes);
    assert_eq!(U256::zero().be, [0u8; 32]);
    assert_eq!(U256::from_u64(7).be[31], 7);
}
