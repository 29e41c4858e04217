//! Calldata of the three contract calls that a wallet makes: the airdrop claim,
//! the token transfer, and the input of the general paymaster flow.

use vstd::prelude::*;
use vstd::string::StringSliceAdditionalSpecFns;
use vstd::utf8::encode_utf8;
use crate::address::{Address, opt_bytes32};
use crate::hex_text::{
    all_hex, decode_hex, hex_decode, hex_pairs, lemma_hex_decode_lower_text, lower_hex_text,
    push_all,
};
use crate::word::{
    be_bytes, be_value, lemma_be_bytes_len, lemma_be_value_concat, lemma_be_value_of_bytes,
    lemma_be_value_zeros, lemma_pow256_32_exceeds_u128, pow256, u128_word, u64_word, U256,
};

verus! {

/// Keccak-256 of `data`: what `alloy_primitives::keccak256` returns for it.
pub uninterp spec fn spec_keccak256(data: Seq<u8>) -> Seq<u8>;

/// Hashes `data` with `alloy_primitives::keccak256`.
///
/// The contract names the 32-byte digest after the input; the hash function itself
/// is left unsaid.
#[verifier::external_body]
fn keccak256(data: &[u8]) -> (res: [u8; 32])
    ensures
        res@ == spec_keccak256(data@),
{
    alloy_primitives::keccak256(data).0
}

/// A 32-byte ABI word that holds the number `v`.
pub open spec fn abi_word(v: nat) -> Seq<u8> {
    be_bytes(v, 32)
}

/// The 4-byte selector of the function with the canonical signature `signature`.
pub open spec fn selector(signature: Seq<char>) -> Seq<u8> {
    spec_keccak256(encode_utf8(signature)).take(4)
}

/// The signature of the airdrop contract's claim function.
pub open spec fn claim_signature() -> Seq<char> {
    "claim(uint256,uint256,bytes32[])"@
}

/// The signature of the token's transfer function.
pub open spec fn transfer_signature() -> Seq<char> {
    "transfer(address,uint256)"@
}

/// The signature of the general paymaster flow.
pub open spec fn general_signature() -> Seq<char> {
    "general(bytes)"@
}

/// The concatenation of the byte strings in `parts`.
pub open spec fn flatten(parts: Seq<Seq<u8>>) -> Seq<u8>
    decreases parts.len(),
{
    if parts.len() == 0 {
        Seq::empty()
    } else {
        flatten(parts.drop_last()) + parts.last()
    }
}

/// The 32 bytes that a Merkle proof element written as text denotes: `0x` and then
/// an even number of hexadecimal digits that decode to exactly 32 bytes.
pub open spec fn proof_element(text: Seq<u8>) -> Option<Seq<u8>> {
    if text.len() >= 2 && text[0] == 48 && text[1] == 120 {
        match hex_decode(text.skip(2)) {
            Some(b) => if b.len() == 32 {
                Some(b)
            } else {
                None
            },
            None => None,
        }
    } else {
        None
    }
}

/// Every element of a Merkle proof, written as text, denotes 32 bytes.
pub open spec fn proof_texts_valid(proof: Seq<String>) -> bool {
    forall|i: int| 0 <= i < proof.len() ==> (#[trigger] proof_element(encode_utf8(proof[i]@))) is Some
}

/// The 32-byte values of a Merkle proof written as text.
pub open spec fn proof_values(proof: Seq<String>) -> Seq<Seq<u8>> {
    proof.map_values(|p: String| proof_element(encode_utf8(p@)).unwrap())
}

/// The ABI encoding of the arguments `(index, amount, proof)` of the claim: the two
/// numbers, the offset of the dynamic array (three words), its length, and its elements.
pub open spec fn claim_arguments(index: nat, amount: nat, proof: Seq<Seq<u8>>) -> Seq<u8> {
    abi_word(index) + abi_word(amount) + abi_word(96) + abi_word(proof.len()) + flatten(proof)
}

/// Calldata of `claim(index, amount, proof)`.
pub open spec fn claim_calldata(index: nat, amount: nat, proof: Seq<Seq<u8>>) -> Seq<u8> {
    selector(claim_signature()) + claim_arguments(index, amount, proof)
}

/// An address as an ABI word: twelve zero bytes, then its 20 bytes.
pub open spec fn address_word(address: Seq<u8>) -> Seq<u8> {
    Seq::new(12, |i: int| 0u8) + address
}

/// The ABI encoding of the arguments `(to, amount)` of a transfer; `amount` is already a word.
pub open spec fn transfer_arguments(to: Seq<u8>, amount: Seq<u8>) -> Seq<u8> {
    address_word(to) + amount
}

/// Calldata of `transfer(to, amount)`.
pub open spec fn transfer_calldata(to: Seq<u8>, amount: Seq<u8>) -> Seq<u8> {
    selector(transfer_signature()) + transfer_arguments(to, amount)
}

/// The ABI encoding of an empty byte string as the one argument of a call: the offset
/// of the byte string (one word), and its length, zero.
pub open spec fn general_arguments() -> Seq<u8> {
    abi_word(32) + abi_word(0)
}

/// Calldata of `general(b"")`.
pub open spec fn general_calldata() -> Seq<u8> {
    selector(general_signature()) + general_arguments()
}

/// The 4-byte selector of a function signature.
fn selector_of(signature: &str) -> (res: Vec<u8>)
    ensures
        res@ == selector(signature@),
        selector(signature@).len() == 4,
{
    let digest = keccak256(signature.as_bytes());
    let mut res: Vec<u8> = Vec::new();
    res.push(digest[0]);
    res.push(digest[1]);
    res.push(digest[2]);
    res.push(digest[3]);
    assert(res@ =~= digest@.take(4));
    res
}

/// Reads one Merkle proof element; `None` when the text is not `0x` and 64 hexadecimal digits.
pub fn parse_proof_element(text: &str) -> (res: Option<[u8; 32]>)
    ensures
        opt_bytes32(res) == proof_element(text.spec_bytes()),
{
    let bytes = text.as_bytes();
    if bytes.len() < 2 || bytes[0] != 48u8 || bytes[1] != 120u8 {
        return None;
    }
    let digits = &bytes[2..bytes.len()];
    assert(digits@ =~= text.spec_bytes().skip(2));
    match decode_hex(digits) {
        Some(decoded) => {
            if decoded.len() != 32 {
                return None;
            }
            let mut out: [u8; 32] = [0u8; 32];
            let mut i: usize = 0;
            while i < 32
                invariant
                    i <= 32,
                    decoded@.len() == 32,
                    out@.len() == 32,
                    forall|j: int| 0 <= j < i ==> out@[j] == decoded@[j],
                decreases 32 - i,
            {
                out[i] = decoded[i];
                i = i + 1;
            }
            assert(out@ =~= decoded@);
            Some(out)
        },
        None => None,
    }
}

/// Encodes the call `claim(index, amount, merkle_proof)` of the airdrop contract.
pub fn encode_claim(index: u64, amount: u128, merkle_proof: Vec<String>) -> (res: Vec<u8>)
    requires
        proof_texts_valid(merkle_proof@),
    ensures
        res@ == claim_calldata(index as nat, amount as nat, proof_values(merkle_proof@)),
        selector(claim_signature()).len() == 4,
        res@.len() == 4 + 32 * (4 + merkle_proof@.len()),
        res@.subrange(0, 4) == selector(claim_signature()),
        be_value(res@.subrange(4, 36)) == index,
        be_value(res@.subrange(36, 68)) == amount,
        be_value(res@.subrange(68, 100)) == 96,
        be_value(res@.subrange(100, 132)) == merkle_proof@.len(),
        forall|i: int|
            0 <= i < merkle_proof@.len() ==> #[trigger] res@.subrange(132 + 32 * i, 164 + 32 * i)
                == proof_values(merkle_proof@)[i],
{
    let ghost values = proof_values(merkle_proof@);
    let mut out = selector_of("claim(uint256,uint256,bytes32[])");
    let w_index = u64_word(index);
    push_all(&mut out, &w_index);
    let w_amount = u128_word(amount);
    push_all(&mut out, &w_amount);
    let w_offset = u128_word(96);
    push_all(&mut out, &w_offset);
    let n = merkle_proof.len();
    let w_len = u128_word(n as u128);
    push_all(&mut out, &w_len);
    let ghost head = out@;
    assert(head =~= selector(claim_signature()) + abi_word(index as nat) + abi_word(amount as nat)
        + abi_word(96) + abi_word(n as nat));
    let mut i: usize = 0;
    while i < n
        invariant
            n == merkle_proof@.len(),
            i <= n,
            values == proof_values(merkle_proof@),
            proof_texts_valid(merkle_proof@),
            out@ == head + flatten(values.take(i as int)),
        decreases n - i,
    {
        let p = merkle_proof[i].as_str();
        assert(proof_element(encode_utf8(merkle_proof@[i as int]@)) is Some);
        let element = parse_proof_element(p);
        match element {
            Some(e) => {
                push_all(&mut out, &e);
                assert(values.take(i + 1).drop_last() =~= values.take(i as int));
                assert(values.take(i + 1).last() == e@);
            },
            None => {},
        }
        i = i + 1;
    }
    assert(values.take(n as int) =~= values);
    assert(out@ =~= claim_calldata(index as nat, amount as nat, values));
    proof {
        lemma_pow256_32_exceeds_u128();
        assert forall|j: int| 0 <= j < values.len() implies (#[trigger] values[j]).len() == 32 by {
            assert(proof_element(encode_utf8(merkle_proof@[j]@)) is Some);
        }
        lemma_claim_arguments_decode(index as nat, amount as nat, values);
        let sel = selector(claim_signature());
        let args = claim_arguments(index as nat, amount as nat, values);
        assert(out@ == sel + args);
        assert(out@.subrange(0, 4) =~= sel);
        assert(out@.subrange(4, 36) =~= args.subrange(0, 32));
        assert(out@.subrange(36, 68) =~= args.subrange(32, 64));
        assert(out@.subrange(68, 100) =~= args.subrange(64, 96));
        assert(out@.subrange(100, 132) =~= args.subrange(96, 128));
        assert forall|i: int| 0 <= i < n implies #[trigger] out@.subrange(132 + 32 * i, 164 + 32 * i)
            == values[i] by {
            assert(out@.subrange(132 + 32 * i, 164 + 32 * i) =~= args.subrange(128 + 32 * i, 160 + 32 * i));
        }
    }
    out
}

/// Encodes the call `transfer(to, amount)` of the token contract.
pub fn encode_transfer(to: Address, amount: U256) -> (res: Vec<u8>)
    ensures
        res@ == transfer_calldata(to.bytes@, amount.be@),
        selector(transfer_signature()).len() == 4,
        res@.len() == 68,
        res@.subrange(0, 4) == selector(transfer_signature()),
        res@.subrange(4, 16) == Seq::new(12, |i: int| 0u8),
        res@.subrange(16, 36) == to.bytes@,
        be_value(res@.subrange(4, 36)) == be_value(to.bytes@),
        res@.subrange(36, 68) == amount.be@,
        be_value(res@.subrange(36, 68)) == amount.value(),
{
    let mut out = selector_of("transfer(address,uint256)");
    let mut i: usize = 0;
    while i < 12
        invariant
            i <= 12,
            out@ == selector(transfer_signature()) + Seq::new(i as nat, |j: int| 0u8),
        decreases 12 - i,
    {
        out.push(0u8);
        i = i + 1;
        assert(out@ =~= selector(transfer_signature()) + Seq::new(i as nat, |j: int| 0u8));
    }
    push_all(&mut out, &to.bytes);
    push_all(&mut out, &amount.be);
    assert(out@ =~= transfer_calldata(to.bytes@, amount.be@));
    proof {
        lemma_transfer_arguments_decode(to.bytes@, amount.be@);
        let sel = selector(transfer_signature());
        let args = transfer_arguments(to.bytes@, amount.be@);
        assert(out@.subrange(0, 4) =~= sel);
        assert(out@.subrange(4, 36) =~= args.subrange(0, 32));
        assert(out@.subrange(4, 16) =~= Seq::new(12, |i: int| 0u8));
        assert(out@.subrange(16, 36) =~= args.subrange(12, 32));
        assert(out@.subrange(36, 68) =~= args.subrange(32, 64));
    }
    out
}

/// The input of the general paymaster flow, `general(b"")`.
pub fn encode_general_paymaster_input() -> (res: Vec<u8>)
    ensures
        res@ == general_calldata(),
        selector(general_signature()).len() == 4,
        res@.len() == 68,
        res@.subrange(0, 4) == selector(general_signature()),
        be_value(res@.subrange(4, 36)) == 32,
        be_value(res@.subrange(36, 68)) == 0,
{
    let mut out = selector_of("general(bytes)");
    let w_offset = u128_word(32);
    push_all(&mut out, &w_offset);
    let w_len = u128_word(0);
    push_all(&mut out, &w_len);
    assert(out@ =~= general_calldata());
    proof {
        lemma_pow256_32_exceeds_u128();
        lemma_be_bytes_len(32, 32);
        lemma_be_bytes_len(0, 32);
        lemma_be_value_of_bytes(32, 32);
        lemma_be_value_of_bytes(0, 32);
        assert(out@.subrange(0, 4) =~= selector(general_signature()));
        assert(out@.subrange(4, 36) =~= abi_word(32));
        assert(out@.subrange(36, 68) =~= abi_word(0));
    }
    out
}

/// The concatenation of 32-byte parts holds part `i` at bytes `32 * i .. 32 * i + 32`.
pub proof fn lemma_flatten_words(parts: Seq<Seq<u8>>)
    requires
        forall|i: int| 0 <= i < parts.len() ==> (#[trigger] parts[i]).len() == 32,
    ensures
        flatten(parts).len() == 32 * parts.len(),
        forall|i: int|
            0 <= i < parts.len() ==> #[trigger] flatten(parts).subrange(32 * i, 32 * i + 32)
                == parts[i],
    decreases parts.len(),
{
    if parts.len() > 0 {
        let p = parts.drop_last();
        lemma_flatten_words(p);
        let f = flatten(parts);
        let fp = flatten(p);
        assert(f == fp + parts.last());
        assert forall|i: int| 0 <= i < parts.len() implies #[trigger] f.subrange(32 * i, 32 * i + 32)
            == parts[i] by {
            if i < p.len() {
                assert(f.subrange(32 * i, 32 * i + 32) =~= fp.subrange(32 * i, 32 * i + 32));
            } else {
                assert(f.subrange(32 * i, 32 * i + 32) =~= parts.last());
            }
        }
    }
}

/// Law: the claim arguments decode back to what was encoded. The words at offsets 0, 32,
/// 64 and 96 hold the index, the amount, the offset 96 of the array and its length, and
/// the proof elements follow one per word.
pub proof fn lemma_claim_arguments_decode(index: nat, amount: nat, proof: Seq<Seq<u8>>)
    requires
        index < pow256(32),
        amount < pow256(32),
        proof.len() < pow256(32),
        forall|i: int| 0 <= i < proof.len() ==> (#[trigger] proof[i]).len() == 32,
    ensures
        claim_arguments(index, amount, proof).len() == 32 * (4 + proof.len()),
        be_value(claim_arguments(index, amount, proof).subrange(0, 32)) == index,
        be_value(claim_arguments(index, amount, proof).subrange(32, 64)) == amount,
        be_value(claim_arguments(index, amount, proof).subrange(64, 96)) == 96,
        be_value(claim_arguments(index, amount, proof).subrange(96, 128)) == proof.len(),
        forall|i: int|
            0 <= i < proof.len() ==> #[trigger] claim_arguments(index, amount, proof).subrange(
                128 + 32 * i,
                160 + 32 * i,
            ) == proof[i],
{
    let a = claim_arguments(index, amount, proof);
    let n = proof.len();
    lemma_be_bytes_len(index, 32);
    lemma_be_bytes_len(amount, 32);
    lemma_be_bytes_len(96, 32);
    lemma_be_bytes_len(n, 32);
    lemma_flatten_words(proof);
    assert(pow256(32) > 96) by {
        reveal_with_fuel(pow256, 2);
        crate::word::lemma_pow256_add(1, 31);
        crate::word::lemma_pow256_pos(31);
    }
    lemma_be_value_of_bytes(index, 32);
    lemma_be_value_of_bytes(amount, 32);
    lemma_be_value_of_bytes(96, 32);
    lemma_be_value_of_bytes(n, 32);
    assert(a.subrange(0, 32) =~= abi_word(index));
    assert(a.subrange(32, 64) =~= abi_word(amount));
    assert(a.subrange(64, 96) =~= abi_word(96));
    assert(a.subrange(96, 128) =~= abi_word(n));
    let f = flatten(proof);
    assert forall|i: int| 0 <= i < n implies #[trigger] a.subrange(128 + 32 * i, 160 + 32 * i)
        == proof[i] by {
        assert(a.subrange(128 + 32 * i, 160 + 32 * i) =~= f.subrange(32 * i, 32 * i + 32));
    }
}

/// Law: the transfer arguments decode back to what was encoded: the first word holds
/// the recipient's 20 bytes behind zero padding, so its number is the address's, and
/// the second word is the amount.
pub proof fn lemma_transfer_arguments_decode(to: Seq<u8>, amount: Seq<u8>)
    requires
        to.len() == 20,
        amount.len() == 32,
    ensures
        transfer_arguments(to, amount).len() == 64,
        transfer_arguments(to, amount).subrange(12, 32) == to,
        be_value(transfer_arguments(to, amount).subrange(0, 32)) == be_value(to),
        transfer_arguments(to, amount).subrange(32, 64) == amount,
{
    let a = transfer_arguments(to, amount);
    let z = Seq::new(12, |i: int| 0u8);
    assert(a.subrange(0, 32) =~= z + to);
    assert(a.subrange(12, 32) =~= to);
    assert(a.subrange(32, 64) =~= amount);
    lemma_be_value_concat(z, to);
    lemma_be_value_zeros(12);
}

/// Law: a wallet transfers exactly the amount it claims: the amount word of the claim
/// and that of the transfer of `U256::from_u128(amount)` both read back as `amount`.
pub proof fn lemma_transfer_moves_claimed_amount(
    index: u64,
    amount: u128,
    proof: Seq<Seq<u8>>,
    recipient: Seq<u8>,
)
    requires
        recipient.len() == 20,
        forall|i: int| 0 <= i < proof.len() ==> (#[trigger] proof[i]).len() == 32,
        proof.len() < pow256(32),
    ensures
        be_value(claim_arguments(index as nat, amount as nat, proof).subrange(32, 64)) == amount,
        be_value(transfer_arguments(recipient, be_bytes(amount as nat, 32)).subrange(32, 64))
            == amount,
{
    assert(pow256(16) == 0x1_0000_0000_0000_0000_0000_0000_0000_0000) by {
        reveal_with_fuel(pow256, 17);
    }
    crate::word::lemma_pow256_add(16, 16);
    lemma_claim_arguments_decode(index as nat, amount as nat, proof);
    lemma_be_bytes_len(amount as nat, 32);
    lemma_transfer_arguments_decode(recipient, be_bytes(amount as nat, 32));
    lemma_be_value_of_bytes(amount as nat, 32);
}

/// Law: a Merkle proof element is accepted exactly when it is `0x` followed by 64
/// hexadecimal digits, and it then denotes the bytes of those digit pairs.
pub proof fn lemma_proof_element_shape(text: Seq<u8>)
    ensures
        proof_element(text) is Some <==> (text.len() == 66 && text[0] == 48 && text[1] == 120
            && all_hex(text.skip(2))),
        proof_element(text) matches Some(b) ==> b == hex_pairs(text.skip(2)),
{
}

/// Law: every 32-byte value, written as `0x` and its 64 lower-case hexadecimal digits,
/// reads back as a Merkle proof element.
pub proof fn lemma_proof_element_reads_back(value: Seq<u8>)
    requires
        value.len() == 32,
    ensures
        proof_element(seq![48u8, 120u8] + lower_hex_text(value)) == Some(value),
{
    let text = seq![48u8, 120u8] + lower_hex_text(value);
    assert(text.skip(2) =~= lower_hex_text(value));
    lemma_hex_decode_lower_text(value);
}

} // verus!
