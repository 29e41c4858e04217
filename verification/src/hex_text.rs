//! Hexadecimal text, as the wallet files and the contract addresses write bytes.

use vstd::prelude::*;

verus! {

/// An ASCII hexadecimal digit, in either case.
pub open spec fn is_hex_digit(c: u8) -> bool {
    (48 <= c <= 57) || (65 <= c <= 70) || (97 <= c <= 102)
}

/// The value of the hexadecimal digit `c`.
pub open spec fn hex_digit_value(c: u8) -> nat {
    if 48 <= c <= 57 {
        (c - 48) as nat
    } else if 65 <= c <= 70 {
        (c - 55) as nat
    } else {
        (c - 87) as nat
    }
}

/// Every byte of `s` is a hexadecimal digit.
pub open spec fn all_hex(s: Seq<u8>) -> bool {
    forall|i: int| 0 <= i < s.len() ==> is_hex_digit(#[trigger] s[i])
}

/// The bytes that the digit pairs of `s` denote, high digit first.
pub open spec fn hex_pairs(s: Seq<u8>) -> Seq<u8> {
    Seq::new(
        s.len() / 2,
        |i: int| (hex_digit_value(s[2 * i]) * 16 + hex_digit_value(s[2 * i + 1])) as u8,
    )
}

/// Plain hexadecimal decoding: an even number of digits and nothing else.
pub open spec fn hex_decode(s: Seq<u8>) -> Option<Seq<u8>> {
    if s.len() % 2 == 0 && all_hex(s) {
        Some(hex_pairs(s))
    } else {
        None
    }
}

/// `s` without a leading `0x` or `0X`.
pub open spec fn strip_hex_prefix(s: Seq<u8>) -> Seq<u8> {
    if s.len() >= 2 && s[0] == 48 && (s[1] == 120 || s[1] == 88) {
        s.skip(2)
    } else {
        s
    }
}

/// Decoding of exactly `n` bytes written as hexadecimal, with an optional `0x` or `0X` prefix.
pub open spec fn hex_fixed(s: Seq<u8>, n: nat) -> Option<Seq<u8>> {
    let body = strip_hex_prefix(s);
    if body.len() == 2 * n && all_hex(body) {
        Some(hex_pairs(body))
    } else {
        None
    }
}

/// The view of an optional byte vector.
pub open spec fn opt_bytes(v: Option<Vec<u8>>) -> Option<Seq<u8>> {
    match v {
        Some(b) => Some(b@),
        None => None,
    }
}

/// Decodes hexadecimal text with `hex::decode`.
///
/// The contract states what that function does: it fails on an odd number of
/// digits or on any byte that is not a hexadecimal digit, and otherwise turns
/// each pair of digits into one byte, high digit first.
#[verifier::external_body]
pub(crate) fn decode_hex(text: &[u8]) -> (res: Option<Vec<u8>>)
    ensures
        opt_bytes(res) == hex_decode(text@),
{
    hex::decode(text).ok()
}

/// Appends `data` to `out`.
pub fn push_all(out: &mut Vec<u8>, data: &[u8])
    ensures
        final(out)@ == old(out)@ + data@,
{
    let mut i: usize = 0;
    while i < data.len()
        invariant
            i <= data@.len(),
            out@ == old(out)@ + data@.subrange(0, i as int),
        decreases data@.len() - i,
    {
        out.push(data[i]);
        i = i + 1;
        assert(data@.subrange(0, i as int) =~= data@.subrange(0, i - 1 as int).push(data@[i - 1]));
    }
    assert(data@.subrange(0, data@.len() as int) =~= data@);
}

/// Law: `n` bytes of hexadecimal text are accepted exactly when they are `2n` digits,
/// bare or behind a `0x` or `0X` prefix.
pub proof fn lemma_hex_fixed_shape(s: Seq<u8>, n: nat)
    requires
        n > 0,
    ensures
        hex_fixed(s, n) is Some <==> ((s.len() == 2 * n && all_hex(s)) || (s.len() == 2 * n + 2
            && s[0] == 48 && (s[1] == 120 || s[1] == 88) && all_hex(s.skip(2)))),
{
    if s.len() == 2 * n && all_hex(s) {
        assert(is_hex_digit(s[1]));
    }
}

/// The lower-case hexadecimal digit of the nibble `v`.
pub open spec fn lower_hex_digit(v: nat) -> u8 {
    if v < 10 {
        (48 + v) as u8
    } else {
        (87 + v) as u8
    }
}

/// The lower-case hexadecimal text of `bytes`, two digits per byte, high digit first.
pub open spec fn lower_hex_text(bytes: Seq<u8>) -> Seq<u8> {
    Seq::new(
        2 * bytes.len(),
        |i: int|
            if i % 2 == 0 {
                lower_hex_digit((bytes[i / 2] / 16) as nat)
            } else {
                lower_hex_digit((bytes[i / 2] % 16) as nat)
            },
    )
}

/// Law: hexadecimal decoding reads back the lower-case hexadecimal text of any bytes.
pub proof fn lemma_hex_decode_lower_text(bytes: Seq<u8>)
    ensures
        hex_decode(lower_hex_text(bytes)) == Some(bytes),
{
    let t = lower_hex_text(bytes);
    assert forall|i: int| 0 <= i < t.len() implies is_hex_digit(#[trigger] t[i]) by {
        let b = bytes[i / 2];
        assert(b / 16 < 16 && b % 16 < 16);
    }
    assert(t.len() % 2 == 0);
    assert forall|k: int| 0 <= k < bytes.len() implies #[trigger] hex_pairs(t)[k] == bytes[k] by {
        let b = bytes[k];
        assert((2 * k) / 2 == k && (2 * k + 1) / 2 == k);
        assert((2 * k) % 2 == 0 && (2 * k + 1) % 2 == 1);
        assert(hex_digit_value(t[2 * k]) == b / 16);
        assert(hex_digit_value(t[2 * k + 1]) == b % 16);
    }
    assert(hex_pairs(t) =~= bytes);
}

} // verus!
