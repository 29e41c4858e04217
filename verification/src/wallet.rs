//! The wallets to process and the airdrop data that says what each may claim.

use vstd::prelude::*;
use vstd::string::StringSliceAdditionalSpecFns;
use vstd::utf8::encode_utf8;
use crate::address::{address_from_text, Address};
use crate::hex_text::hex_fixed;

verus! {

/// The private keys of the wallets to process.
#[derive(Debug)]
pub struct WalletConfig {
    pub private_keys: Vec<String>,
}

/// Everything that processing one wallet needs.
#[derive(Debug)]
pub struct WalletProcessParams {
    pub private_key: String,
    pub chain_id: u64,
    pub claim_contract_address: Address,
    pub token_contract_address: Address,
    pub recipient_address: Address,
    pub index: u64,
    pub amount: u128,
    pub merkle_proof: Vec<String>,
}

impl WalletProcessParams {
    /// Gathers the parameters of one wallet; the three contract and recipient addresses
    /// are given as hexadecimal text and must be addresses.
    pub fn new(
        private_key: String,
        chain_id: u64,
        index: u64,
        amount: u128,
        merkle_proof: Vec<String>,
        claim_contract_address: &str,
        token_contract_address: &str,
        recipient_address: &str,
    ) -> (res: Self)
        requires
            hex_fixed(claim_contract_address.spec_bytes(), 20) is Some,
            hex_fixed(token_contract_address.spec_bytes(), 20) is Some,
            hex_fixed(recipient_address.spec_bytes(), 20) is Some,
        ensures
            res.private_key@ == private_key@,
            res.chain_id == chain_id,
            res.index == index,
            res.amount == amount,
            res.merkle_proof@ == merkle_proof@,
            Some(res.claim_contract_address.bytes@) == hex_fixed(
                claim_contract_address.spec_bytes(),
                20,
            ),
            Some(res.token_contract_address.bytes@) == hex_fixed(
                token_contract_address.spec_bytes(),
                20,
            ),
            Some(res.recipient_address.bytes@) == hex_fixed(recipient_address.spec_bytes(), 20),
    {
        let claim = address_from_text(claim_contract_address).unwrap();
        let token = address_from_text(token_contract_address).unwrap();
        let recipient = address_from_text(recipient_address).unwrap();
        WalletProcessParams {
            private_key,
            chain_id,
            claim_contract_address: claim,
            token_contract_address: token,
            recipient_address: recipient,
            index,
            amount,
            merkle_proof,
        }
    }
}

/// Finds where `address` stands among the addresses that the airdrop data lists:
/// the first position whose text equals it.
pub fn find_user_data(addresses: &Vec<String>, address: &String) -> (res: Option<usize>)
    ensures
        match res {
            Some(i) => i < addresses@.len() && addresses@[i as int]@ == address@ && forall|j: int|
                0 <= j < i ==> (#[trigger] addresses@[j])@ != address@,
            None => forall|j: int| 0 <= j < addresses@.len() ==> (#[trigger] addresses@[j])@ != address@,
        },
{
    let mut i: usize = 0;
    while i < addresses.len()
        invariant
            i <= addresses@.len(),
            forall|j: int| 0 <= j < i ==> (#[trigger] addresses@[j])@ != address@,
        decreases addresses@.len() - i,
    {
        if addresses[i] == *address {
            return Some(i);
        }
        i = i + 1;
    }
    None
}

/// An ASCII decimal digit.
pub open spec fn is_decimal_digit(c: u8) -> bool {
    48 <= c <= 57
}

/// The number that the decimal digits `s` denote.
pub open spec fn decimal_value(s: Seq<u8>) -> nat
    decreases s.len(),
{
    if s.len() == 0 {
        0
    } else {
        decimal_value(s.drop_last()) * 10 + (s.last() - 48) as nat
    }
}

/// The digits of an unsigned number: the text without one leading `+`.
pub open spec fn unsigned_digits(s: Seq<u8>) -> Seq<u8> {
    if s.len() > 0 && s[0] == 43 {
        s.skip(1)
    } else {
        s
    }
}

/// The number that the text of an unsigned integer denotes, as Rust's `str::parse` reads
/// it: an optional `+`, then one or more decimal digits.
pub open spec fn decimal_number(s: Seq<u8>) -> Option<nat> {
    let d = unsigned_digits(s);
    if d.len() > 0 && forall|i: int| 0 <= i < d.len() ==> is_decimal_digit(#[trigger] d[i]) {
        Some(decimal_value(d))
    } else {
        None
    }
}

/// A longer run of digits denotes at least as much as its prefix.
proof fn lemma_decimal_prefix(s: Seq<u8>, k: int)
    requires
        0 <= k <= s.len(),
        forall|i: int| 0 <= i < s.len() ==> is_decimal_digit(#[trigger] s[i]),
    ensures
        decimal_value(s.take(k)) <= decimal_value(s),
    decreases s.len(),
{
    if k < s.len() {
        let p = s.drop_last();
        assert(p.take(k) =~= s.take(k));
        assert forall|i: int| 0 <= i < p.len() implies is_decimal_digit(#[trigger] p[i]) by {
            assert(p[i] == s[i]);
        }
        lemma_decimal_prefix(p, k);
    } else {
        assert(s.take(k) =~= s);
    }
}

/// Reads an unsigned decimal number no larger than `u128::MAX`, as `str::parse::<u128>` does.
pub fn parse_u128_decimal(text: &str) -> (res: Option<u128>)
    ensures
        match decimal_number(text.spec_bytes()) {
            Some(v) => if v <= u128::MAX {
                res == Some(v as u128)
            } else {
                res is None
            },
            None => res is None,
        },
{
    let b = text.as_bytes();
    let len = b.len();
    let start: usize = if len > 0 && b[0] == 43u8 {
        1
    } else {
        0
    };
    let ghost d = unsigned_digits(b@);
    assert(d =~= b@.subrange(start as int, len as int));
    if start == len {
        return None;
    }
    let mut acc: u128 = 0;
    let mut i: usize = start;
    while i < len
        invariant
            len == b@.len(),
            b@ == text.spec_bytes(),
            d == unsigned_digits(b@),
            start <= i <= len,
            d == b@.subrange(start as int, len as int),
            acc == decimal_value(d.take(i - start)),
            forall|j: int| 0 <= j < i - start ==> is_decimal_digit(#[trigger] d[j]),
        decreases len - i,
    {
        let c = b[i];
        if c < 48u8 || c > 57u8 {
            assert(!is_decimal_digit(d[i - start]));
            return None;
        }
        let digit: u128 = (c - 48u8) as u128;
        assert(d.take(i - start + 1).drop_last() =~= d.take(i - start));
        assert(d.take(i - start + 1).last() == c);
        if acc > (u128::MAX - digit) / 10 {
            proof {
                let m = u128::MAX as int;
                assert(acc * 10 + digit > m) by (nonlinear_arith)
                    requires
                        acc > (m - digit) / 10,
                        0 <= digit <= 9,
                ;
                if forall|j: int| 0 <= j < d.len() ==> is_decimal_digit(#[trigger] d[j]) {
                    lemma_decimal_prefix(d, i - start + 1);
                }
            }
            return None;
        }
        proof {
            let m = u128::MAX as int;
            assert(acc * 10 + digit <= m) by (nonlinear_arith)
                requires
                    acc <= (m - digit) / 10,
                    0 <= digit <= 9,
            ;
        }
        acc = acc * 10 + digit;
        i = i + 1;
    }
    assert(d.take(len - start) =~= d);
    Some(acc)
}

/// Reads an unsigned decimal number no larger than `u64::MAX`, as `str::parse::<u64>` does.
pub fn parse_u64_decimal(text: &str) -> (res: Option<u64>)
    ensures
        match decimal_number(text.spec_bytes()) {
            Some(v) => if v <= u64::MAX {
                res == Some(v as u64)
            } else {
                res is None
            },
            None => res is None,
        },
{
    match parse_u128_decimal(text) {
        Some(v) => if v <= u64::MAX as u128 {
            Some(v as u64)
        } else {
            None
        },
        None => None,
    }
}

/// Law: one leading `+` does not change the number that a text denotes.
pub proof fn lemma_plus_sign_neutral(digits: Seq<u8>)
    requires
        digits.len() > 0,
        digits[0] != 43,
    ensures
        decimal_number(seq![43u8] + digits) == decimal_number(digits),
{
    assert((seq![43u8] + digits).skip(1) =~= digits);
}

/// One allocation of an address in the airdrop data. A field is `None` where the file
/// lacks it or does not hold it as text (a list of texts for the proof).
#[derive(Debug)]
pub struct AirdropEntry {
    pub token_amount: Option<String>,
    pub merkle_index: Option<String>,
    pub merkle_proof: Option<Vec<String>>,
}

/// What the airdrop data says an address may claim.
#[derive(Debug)]
pub enum UserClaim {
    /// The address is not listed.
    NotListed,
    /// The address is listed, but its first allocation is missing, lacks a field, or
    /// holds an index or amount that is not a number of the right size.
    Unreadable,
    /// The index, amount and Merkle proof of the address's first allocation.
    Claim { index: u64, amount: u128, merkle_proof: Vec<String> },
}

/// `k` is the first position at which `address` is listed.
pub open spec fn first_listed(addresses: Seq<String>, address: Seq<char>, k: int) -> bool {
    &&& 0 <= k < addresses.len()
    &&& addresses[k]@ == address
    &&& forall|j: int| 0 <= j < k ==> (#[trigger] addresses[j])@ != address
}

/// The claim that a list of allocations grants: its first allocation, with an index that
/// reads as a `u64`, an amount that reads as a `u128`, and a proof.
pub open spec fn entry_claim(allocations: Seq<AirdropEntry>) -> Option<(u64, u128, Seq<String>)> {
    if allocations.len() == 0 {
        None
    } else {
        let e = allocations[0];
        match (e.merkle_index, e.token_amount, e.merkle_proof) {
            (Some(i), Some(a), Some(p)) => match (
                decimal_number(encode_utf8(i@)),
                decimal_number(encode_utf8(a@)),
            ) {
                (Some(iv), Some(av)) => if iv <= u64::MAX && av <= u128::MAX {
                    Some((iv as u64, av as u128, p@))
                } else {
                    None
                },
                _ => None,
            },
            _ => None,
        }
    }
}

/// A copy of a list of texts.
fn copy_texts(texts: &Vec<String>) -> (res: Vec<String>)
    ensures
        res@ == texts@,
{
    let mut res: Vec<String> = Vec::new();
    let mut i: usize = 0;
    while i < texts.len()
        invariant
            i <= texts@.len(),
            res@ == texts@.take(i as int),
        decreases texts@.len() - i,
    {
        res.push(texts[i].clone());
        i = i + 1;
        assert(res@ =~= texts@.take(i as int));
    }
    assert(texts@.take(texts@.len() as int) =~= texts@);
    res
}

/// Reads what `address` may claim from the airdrop data: the addresses it lists and, at
/// the same positions, their allocations. The first allocation under the first listing
/// of the address counts.
pub fn user_claim(
    addresses: &Vec<String>,
    allocations: &Vec<Vec<AirdropEntry>>,
    address: &String,
) -> (res: UserClaim)
    requires
        allocations@.len() == addresses@.len(),
    ensures
        match res {
            UserClaim::NotListed => forall|j: int|
                0 <= j < addresses@.len() ==> (#[trigger] addresses@[j])@ != address@,
            UserClaim::Unreadable => exists|k: int|
                first_listed(addresses@, address@, k) && entry_claim(
                    #[trigger] allocations@[k]@,
                ) is None,
            UserClaim::Claim { index, amount, merkle_proof } => exists|k: int|
                first_listed(addresses@, address@, k) && entry_claim(#[trigger] allocations@[k]@)
                    == Some((index, amount, merkle_proof@)),
        },
{
    match find_user_data(addresses, address) {
        None => UserClaim::NotListed,
        Some(k) => {
            assert(first_listed(addresses@, address@, k as int));
            let list = &allocations[k];
            if list.len() == 0 {
                return UserClaim::Unreadable;
            }
            let e = &list[0];
            match (&e.merkle_index, &e.token_amount, &e.merkle_proof) {
                (Some(i), Some(a), Some(p)) => {
                    let iv = parse_u64_decimal(i.as_str());
                    let av = parse_u128_decimal(a.as_str());
                    match (iv, av) {
                        (Some(index), Some(amount)) => {
                            let merkle_proof = copy_texts(p);
                            UserClaim::Claim { index, amount, merkle_proof }
                        },
                        _ => UserClaim::Unreadable,
                    }
                },
                _ => UserClaim::Unreadable,
            }
        },
    }
}

/// Law: an allocation list whose first allocation has an index that reads as a `u64`,
/// an amount that reads as any number up to `u128::MAX` (so amounts of many tokens of 18
/// decimals too), and a proof, is claimed with exactly that index, amount and proof.
pub proof fn lemma_entry_claim_accepts(
    allocations: Seq<AirdropEntry>,
    index_text: String,
    amount_text: String,
    proof: Vec<String>,
    iv: nat,
    av: nat,
)
    requires
        allocations.len() > 0,
        allocations[0].merkle_index == Some(index_text),
        allocations[0].token_amount == Some(amount_text),
        allocations[0].merkle_proof == Some(proof),
        decimal_number(encode_utf8(index_text@)) == Some(iv),
        decimal_number(encode_utf8(amount_text@)) == Some(av),
        iv <= u64::MAX,
        av <= u128::MAX,
    ensures
        entry_claim(allocations) == Some((iv as u64, av as u128, proof@)),
{
}

/// Law: a claim is only ever made of the first allocation, with the numbers that its
/// index and amount texts denote and its proof.
pub proof fn lemma_entry_claim_sound(
    allocations: Seq<AirdropEntry>,
    index: u64,
    amount: u128,
    proof: Seq<String>,
)
    requires
        entry_claim(allocations) == Some((index, amount, proof)),
    ensures
        allocations.len() > 0,
        allocations[0].merkle_index is Some,
        allocations[0].token_amount is Some,
        allocations[0].merkle_proof is Some,
        decimal_number(encode_utf8(allocations[0].merkle_index.unwrap()@)) == Some(index as nat),
        decimal_number(encode_utf8(allocations[0].token_amount.unwrap()@)) == Some(amount as nat),
        allocations[0].merkle_proof.unwrap()@ == proof,
{
}

/// Law: the lookup reads the first listing of the address: when its first allocation has
/// an index that reads as a `u64`, an amount that reads as at most `u128::MAX`, and a
/// proof, no other listing and no other allocation can change what is claimed.
pub proof fn lemma_first_listing_decides(
    addresses: Seq<String>,
    allocations: Seq<Vec<AirdropEntry>>,
    address: Seq<char>,
    k: int,
    iv: nat,
    av: nat,
)
    requires
        first_listed(addresses, address, k),
        allocations[k]@.len() > 0,
        allocations[k]@[0].merkle_index matches Some(i) && decimal_number(encode_utf8(i@)) == Some(iv),
        allocations[k]@[0].token_amount matches Some(a) && decimal_number(encode_utf8(a@)) == Some(av),
        allocations[k]@[0].merkle_proof is Some,
        iv <= u64::MAX,
        av <= u128::MAX,
    ensures
        forall|m: int| #[trigger] first_listed(addresses, address, m) ==> m == k,
        entry_claim(allocations[k]@) == Some(
            (iv as u64, av as u128, allocations[k]@[0].merkle_proof.unwrap()@),
        ),
{
    assert forall|m: int| #[trigger] first_listed(addresses, address, m) implies m == k by {
        if m < k {
            assert(addresses[m]@ != address);
        } else if m > k {
            assert(addresses[k]@ != address);
        }
    }
}

} // verus!
