//! Account addresses and the secret keys that control them.

use vstd::prelude::*;
use crate::abi::spec_keccak256;
use crate::hex_text::{all_hex, hex_digit_value, hex_fixed, hex_pairs, is_hex_digit, lower_hex_text};
use vstd::utf8::{encode_utf8, is_ascii_chars, is_ascii_chars_encode_utf8};
use crate::word::be_value;
use vstd::string::StringSliceAdditionalSpecFns;

verus! {

/// A 20-byte account address, as the Ethereum tooling writes it.
#[derive(Clone, Copy, Debug, PartialEq, Eq)]
pub struct Address {
    pub bytes: [u8; 20],
}

/// A 20-byte account address, as the zkSync transaction types write it.
#[derive(Clone, Copy, Debug, PartialEq, Eq)]
pub struct ZkAddress {
    pub bytes: [u8; 20],
}

/// The bytes of an optional address.
pub open spec fn opt_address(a: Option<Address>) -> Option<Seq<u8>> {
    match a {
        Some(x) => Some(x.bytes@),
        None => None,
    }
}

/// The bytes of an optional 32-byte array.
pub open spec fn opt_bytes32(k: Option<[u8; 32]>) -> Option<Seq<u8>> {
    match k {
        Some(x) => Some(x@),
        None => None,
    }
}

/// Reads an address written as 40 hexadecimal digits, with an optional `0x` or `0X` prefix,
/// with `alloy_primitives::Address::from_str`.
///
/// The contract states what that function does: it strips one `0x`/`0X` prefix, then
/// needs exactly 40 hexadecimal digits of either case, and it does not check an
/// EIP-55 checksum.
#[verifier::external_body]
fn parse_address_text(text: &str) -> (res: Option<Address>)
    ensures
        opt_address(res) == hex_fixed(text.spec_bytes(), 20),
{
    text.parse::<alloy_primitives::Address>().ok().map(|a| Address { bytes: a.0.0 })
}

/// Reads an address from its hexadecimal text; `None` when the text is not one.
pub fn address_from_text(text: &str) -> (res: Option<Address>)
    ensures
        opt_address(res) == hex_fixed(text.spec_bytes(), 20),
{
    parse_address_text(text)
}

/// The same address in the zkSync transaction types.
pub fn convert_address_alloy_to_zksync(alloy_address: Address) -> (res: ZkAddress)
    ensures
        res.bytes@ == alloy_address.bytes@,
{
    ZkAddress { bytes: alloy_address.bytes }
}

/// The nibble `i` of `hash`, high nibble of each byte first.
pub open spec fn nibble(hash: Seq<u8>, i: int) -> nat {
    if i % 2 == 0 {
        (hash[i / 2] / 16) as nat
    } else {
        (hash[i / 2] % 16) as nat
    }
}

/// The EIP-55 text of an address: `0x`, then its lower-case hexadecimal digits, where a
/// letter is upper case when the matching nibble of the Keccak-256 hash of the lower-case
/// digits is 8 or more.
pub open spec fn checksum_text_of(address: Seq<u8>) -> Seq<char> {
    let digits = lower_hex_text(address);
    let hash = spec_keccak256(digits);
    seq!['0', 'x'] + Seq::new(
        digits.len(),
        |i: int|
            if digits[i] >= 97 && nibble(hash, i) >= 8 {
                (digits[i] - 32) as u8 as char
            } else {
                digits[i] as char
            },
    )
}

/// Writes an address in its EIP-55 form with `alloy_primitives::Address::to_checksum`
/// (no chain id).
///
/// The contract states what that function does: `0x`, the 40 lower-case hexadecimal
/// digits of the address, each letter turned upper case when the matching nibble of the
/// Keccak-256 hash of those 40 digits is at least 8.
#[verifier::external_body]
fn checksum_text(address: &Address) -> (res: String)
    ensures
        res@ == checksum_text_of(address.bytes@),
{
    alloy_primitives::Address::new(address.bytes).to_checksum(None)
}

/// The text under which the airdrop data lists an address: its EIP-55 form.
pub fn address_text(address: &Address) -> (res: String)
    ensures
        res@ == checksum_text_of(address.bytes@),
{
    checksum_text(address)
}

/// The order of the secp256k1 group: a secret key is a number in `1 .. order`.
pub open spec fn secp256k1_order() -> nat {
    0xFFFFFFFFFFFFFFFFFFFFFFFFFFFFFFFEBAAEDCE6AF48A03BBFD25E8CD0364141nat
}

/// 32 bytes, most significant first, that make a valid secp256k1 secret key.
pub open spec fn is_secret_key(key: Seq<u8>) -> bool {
    key.len() == 32 && 0 < be_value(key) < secp256k1_order()
}

/// The secret key that a private-key text denotes: 64 hexadecimal digits with an optional
/// `0x` or `0X` prefix, whose number is a valid secp256k1 secret key.
pub open spec fn secret_key_of_text(text: Seq<u8>) -> Option<Seq<u8>> {
    match hex_fixed(text, 32) {
        Some(key) => if is_secret_key(key) {
            Some(key)
        } else {
            None
        },
        None => None,
    }
}

/// Reads a private key with `alloy_signer_local::PrivateKeySigner::from_str` and hands
/// back its secret bytes (`to_bytes`).
///
/// The contract states what those functions do: the text is decoded as exactly 32
/// bytes of hexadecimal (optional `0x`/`0X` prefix), and the key is refused when its
/// number is zero or not below the secp256k1 order; `to_bytes` gives the decoded bytes.
#[verifier::external_body]
fn parse_secret_key(text: &str) -> (res: Option<[u8; 32]>)
    ensures
        opt_bytes32(res) == secret_key_of_text(text.spec_bytes()),
{
    text.parse::<alloy_signer_local::PrivateKeySigner>().ok().map(|s| s.to_bytes().0)
}

/// The address of the account that a secret key controls, as
/// `alloy_signer_local::PrivateKeySigner::address` derives it.
pub uninterp spec fn spec_key_address(key: Seq<u8>) -> Seq<u8>;

/// Derives the address of a secret key with `alloy_signer_local::PrivateKeySigner`
/// (`from_bytes`, then `address`).
///
/// The contract names the address after the key; the derivation itself (public key,
/// Keccak-256, last 20 bytes) is left unsaid.
#[verifier::external_body]
fn key_address(key: &[u8; 32]) -> (res: Address)
    requires
        is_secret_key(key@),
    ensures
        res.bytes@ == spec_key_address(key@),
{
    let b = alloy_primitives::B256::new(*key);
    let signer = alloy_signer_local::PrivateKeySigner::from_bytes(&b).unwrap();
    Address { bytes: signer.address().0.0 }
}

/// A wallet that can sign: its secret key and the address it controls.
#[derive(Clone, Copy, Debug)]
pub struct Signer {
    pub secret: [u8; 32],
    pub address: Address,
}

/// Loads the signer that a private-key text denotes; `None` when the text is not a key.
pub fn load_signer(private_key: &str) -> (res: Option<Signer>)
    ensures
        match secret_key_of_text(private_key.spec_bytes()) {
            Some(key) => res matches Some(s) && s.secret@ == key && s.address.bytes@
                == spec_key_address(key),
            None => res is None,
        },
{
    match parse_secret_key(private_key) {
        Some(secret) => {
            let address = key_address(&secret);
            Some(Signer { secret, address })
        },
        None => None,
    }
}

/// Law: reading back the EIP-55 text of an address gives the address: what
/// `address_text` writes, `address_from_text` reads as the same 20 bytes.
pub proof fn lemma_address_text_reads_back(address: Seq<u8>)
    requires
        address.len() == 20,
    ensures
        hex_fixed(encode_utf8(checksum_text_of(address)), 20) == Some(address),
{
    let chars = checksum_text_of(address);
    let digits = lower_hex_text(address);
    assert(chars.len() == 42);
    assert forall|i: int| 0 <= i < 40 implies 48 <= #[trigger] digits[i] <= 57 || 97 <= digits[i] <= 102 by {
        let b = address[i / 2];
        assert(b / 16 < 16 && b % 16 < 16);
    }
    assert(is_ascii_chars(chars));
    is_ascii_chars_encode_utf8(chars);
    let bytes = encode_utf8(chars);
    assert(bytes.len() == 42);
    assert(bytes[0] == 48u8 && bytes[1] == 120u8) by {
        assert(chars[0] == '0' && chars[1] == 'x');
    }
    let body = bytes.skip(2);
    assert forall|i: int| 0 <= i < 40 implies #[trigger] body[i] == digits[i] || (digits[i] >= 97
        && body[i] == digits[i] - 32) by {
        assert(body[i] == bytes[i + 2]);
        assert(bytes[i + 2] == chars[i + 2] as u8);
    }
    assert(all_hex(body)) by {
        assert forall|i: int| 0 <= i < body.len() implies is_hex_digit(#[trigger] body[i]) by {
            assert(body[i] == digits[i] || (digits[i] >= 97 && body[i] == digits[i] - 32));
        }
    }
    assert forall|k: int| 0 <= k < 20 implies #[trigger] hex_pairs(body)[k] == address[k] by {
        let b = address[k];
        assert(body[2 * k] == digits[2 * k] || (digits[2 * k] >= 97 && body[2 * k] == digits[2 * k] - 32));
        assert(body[2 * k + 1] == digits[2 * k + 1] || (digits[2 * k + 1] >= 97 && body[2 * k + 1]
            == digits[2 * k + 1] - 32));
        assert((2 * k) / 2 == k && (2 * k + 1) / 2 == k);
        assert((2 * k) % 2 == 0 && (2 * k + 1) % 2 == 1);
        assert(hex_digit_value(body[2 * k]) == b / 16);
        assert(hex_digit_value(body[2 * k + 1]) == b % 16);
        assert((b / 16) * 16 + b % 16 == b);
    }
    assert(hex_pairs(body) =~= address);
}

} // verus!
