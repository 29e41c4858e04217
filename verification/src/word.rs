//! Big-endian 256-bit words, the unit of the contract ABI.

use vstd::prelude::*;

verus! {

/// `256` raised to the power `n`.
pub open spec fn pow256(n: nat) -> nat
    decreases n,
{
    if n == 0 {
        1
    } else {
        256 * pow256((n - 1) as nat)
    }
}

/// The number that the bytes `s` denote, most significant byte first.
pub open spec fn be_value(s: Seq<u8>) -> nat
    decreases s.len(),
{
    if s.len() == 0 {
        0
    } else {
        be_value(s.drop_last()) * 256 + s.last() as nat
    }
}

/// The `n` low-order bytes of `v`, most significant byte first.
pub open spec fn be_bytes(v: nat, n: nat) -> Seq<u8>
    decreases n,
{
    if n == 0 {
        Seq::empty()
    } else {
        be_bytes(v / 256, (n - 1) as nat).push((v % 256) as u8)
    }
}

/// `be_bytes(v, n)` has exactly `n` bytes.
pub proof fn lemma_be_bytes_len(v: nat, n: nat)
    ensures
        be_bytes(v, n).len() == n,
    decreases n,
{
    if n > 0 {
        lemma_be_bytes_len(v / 256, (n - 1) as nat);
    }
}

/// `256^n` is positive.
pub proof fn lemma_pow256_pos(n: nat)
    ensures
        pow256(n) > 0,
    decreases n,
{
    if n > 0 {
        lemma_pow256_pos((n - 1) as nat);
    }
}

/// A value of `n` bytes is below `256^n`.
pub proof fn lemma_be_value_bound(s: Seq<u8>)
    ensures
        be_value(s) < pow256(s.len()),
    decreases s.len(),
{
    if s.len() > 0 {
        let p = s.drop_last();
        lemma_be_value_bound(p);
        let a = be_value(p);
        let b = pow256(p.len());
        let l = s.last() as nat;
        assert(a * 256 + l < b * 256) by (nonlinear_arith)
            requires
                a < b,
                l < 256,
        ;
    }
}

/// Law: reading back the `n` bytes written for a value below `256^n` gives the value.
pub proof fn lemma_be_value_of_bytes(v: nat, n: nat)
    requires
        v < pow256(n),
    ensures
        be_value(be_bytes(v, n)) == v,
    decreases n,
{
    if n > 0 {
        let m = (n - 1) as nat;
        let q = v / 256;
        let p = pow256(m);
        assert(q < p) by (nonlinear_arith)
            requires
                v < 256 * p,
                q == v / 256,
        ;
        lemma_be_value_of_bytes(q, m);
        let s = be_bytes(v, n);
        assert(s.drop_last() =~= be_bytes(q, m));
        assert(q * 256 + v % 256 == v) by (nonlinear_arith)
            requires
                q == v / 256,
        ;
    }
}

/// Law: writing out the value of a byte string in as many bytes gives the string back.
pub proof fn lemma_be_bytes_of_value(s: Seq<u8>)
    ensures
        be_bytes(be_value(s), s.len()) == s,
    decreases s.len(),
{
    if s.len() > 0 {
        let p = s.drop_last();
        lemma_be_bytes_of_value(p);
        let a = be_value(p);
        let l = s.last() as nat;
        assert((a * 256 + l) / 256 == a && (a * 256 + l) % 256 == l) by (nonlinear_arith)
            requires
                l < 256,
        ;
        assert(be_bytes(be_value(s), s.len()) =~= s);
    }
}

/// The 32-byte big-endian word that holds `v`.
pub fn u128_word(v: u128) -> (w: [u8; 32])
    ensures
        w@ == be_bytes(v as nat, 32),
        be_value(w@) == v,
{
    let mut w: [u8; 32] = [0u8; 32];
    let mut x: u128 = v;
    let mut i: usize = 0;
    while i < 32
        invariant
            i <= 32,
            w@.len() == 32,
            be_bytes(v as nat, 32) =~= be_bytes(x as nat, (32 - i) as nat) + w@.subrange(
                32 - i as int,
                32,
            ),
        decreases 32 - i,
    {
        let k: usize = 31 - i;
        let ghost old_w = w@;
        let ghost rest = be_bytes((x / 256) as nat, (31 - i) as nat);
        assert(be_bytes(x as nat, (32 - i) as nat) == rest.push((x % 256) as u8));
        w[k] = (x % 256) as u8;
        assert(w@.subrange(k as int, 32) =~= seq![(x % 256) as u8] + old_w.subrange(
            32 - i as int,
            32,
        ));
        x = x / 256;
        i = i + 1;
    }
    proof {
        assert(w@.subrange(0, 32) =~= w@);
        lemma_pow256_pos(0);
        assert(pow256(16) == 0x1_0000_0000_0000_0000_0000_0000_0000_0000) by {
            reveal_with_fuel(pow256, 17);
        }
        assert(pow256(32) == pow256(16) * pow256(16)) by {
            lemma_pow256_add(16, 16);
        }
        lemma_be_value_of_bytes(v as nat, 32);
    }
    w
}

/// `256^(a + b) == 256^a * 256^b`.
pub proof fn lemma_pow256_add(a: nat, b: nat)
    ensures
        pow256(a + b) == pow256(a) * pow256(b),
    decreases a,
{
    if a > 0 {
        lemma_pow256_add((a - 1) as nat, b);
        let x = pow256((a - 1) as nat);
        let y = pow256(b);
        assert(256 * (x * y) == (256 * x) * y) by (nonlinear_arith);
        assert(pow256(a) == 256 * x);
        assert(pow256(a + b) == 256 * pow256(((a - 1) as nat + b) as nat));
    } else {
        assert(pow256(a) == 1);
        assert(a + b == b);
    }
}

/// The 32-byte big-endian word that holds `v`.
pub fn u64_word(v: u64) -> (w: [u8; 32])
    ensures
        w@ == be_bytes(v as nat, 32),
        be_value(w@) == v,
{
    u128_word(v as u128)
}

/// An unsigned 256-bit integer, held as its 32 bytes, most significant first.
#[derive(Clone, Copy, Debug, PartialEq, Eq)]
pub struct U256 {
    pub be: [u8; 32],
}

impl U256 {
    /// The number this integer denotes.
    pub open spec fn value(&self) -> nat {
        be_value(self.be@)
    }

    /// Zero.
    pub fn zero() -> (r: U256)
        ensures
            r.be@ == be_bytes(0, 32),
            r.value() == 0,
    {
        U256 { be: u128_word(0) }
    }

    /// The integer equal to `v`.
    pub fn from_u64(v: u64) -> (r: U256)
        ensures
            r.be@ == be_bytes(v as nat, 32),
            r.value() == v,
    {
        U256 { be: u64_word(v) }
    }

    /// The integer equal to `v`.
    pub fn from_u128(v: u128) -> (r: U256)
        ensures
            r.be@ == be_bytes(v as nat, 32),
            r.value() == v,
    {
        U256 { be: u128_word(v) }
    }

    /// The integer whose big-endian bytes are `bytes`.
    pub fn from_big_endian(bytes: &[u8; 32]) -> (r: U256)
        ensures
            r.be@ == bytes@,
            r.value() == be_value(bytes@),
    {
        U256 { be: *bytes }
    }

    /// The big-endian bytes of this integer.
    pub fn to_big_endian(&self) -> (r: [u8; 32])
        ensures
            r@ == self.be@,
            be_value(r@) == self.value(),
    {
        self.be
    }
}

/// Law: the integer read from the big-endian bytes of `x` is `x`, and the bytes
/// written for a number below `2^256` read back as that number.
pub proof fn lemma_u256_roundtrip(x: U256, v: nat)
    requires
        v < pow256(32),
    ensures
        be_bytes(x.value(), 32) == x.be@,
        be_value(be_bytes(v, 32)) == v,
{
    lemma_be_bytes_of_value(x.be@);
    lemma_be_value_of_bytes(v, 32);
}

/// The value of a concatenation: the high part shifted past the low part.
pub proof fn lemma_be_value_concat(hi: Seq<u8>, lo: Seq<u8>)
    ensures
        be_value(hi + lo) == be_value(hi) * pow256(lo.len()) + be_value(lo),
    decreases lo.len(),
{
    if lo.len() == 0 {
        assert(hi + lo =~= hi);
        assert(pow256(0) == 1);
        assert(be_value(hi) * 1 == be_value(hi));
    } else {
        let l = lo.drop_last();
        lemma_be_value_concat(hi, l);
        assert((hi + lo).drop_last() =~= hi + l);
        assert((hi + lo).last() == lo.last());
        let a = be_value(hi);
        let p = pow256(l.len());
        let b = be_value(l);
        assert((a * p + b) * 256 + lo.last() as nat == a * (256 * p) + (b * 256 + lo.last() as nat))
            by (nonlinear_arith);
        assert(be_value(hi + lo) == be_value(hi + l) * 256 + lo.last() as nat);
        assert(pow256(lo.len()) == 256 * p);
        assert(be_value(lo) == b * 256 + lo.last() as nat);
    }
}

/// Zero bytes denote zero.
pub proof fn lemma_be_value_zeros(n: nat)
    ensures
        be_value(Seq::new(n, |i: int| 0u8)) == 0,
    decreases n,
{
    if n > 0 {
        lemma_be_value_zeros((n - 1) as nat);
        assert(Seq::new(n, |i: int| 0u8).drop_last() =~= Seq::new((n - 1) as nat, |i: int| 0u8));
    }
}

/// `2^256` exceeds every `u128`.
pub proof fn lemma_pow256_32_exceeds_u128()
    ensures
        pow256(32) > u128::MAX,
{
    assert(pow256(16) == 0x1_0000_0000_0000_0000_0000_0000_0000_0000) by {
        reveal_with_fuel(pow256, 17);
    }
    lemma_pow256_add(16, 16);
    assert(pow256(16) * pow256(16) > u128::MAX) by (nonlinear_arith)
        requires
            pow256(16) == 0x1_0000_0000_0000_0000_0000_0000_0000_0000,
    ;
}

} // verus!
