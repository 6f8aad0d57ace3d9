//! The encoding of a 256-bit value as field elements: its two 128-bit halves
//! and, once a challenge is known, the random linear combination of its bytes.

use crate::field::{field_add, field_mul, modulus, Fe};
use crate::word::{be_value, decode_be, pow256, two_pow_128, Word256};
use vstd::arithmetic::div_mod::{
    lemma_add_mod_noop, lemma_fundamental_div_mod_converse, lemma_mul_mod_noop_left,
    lemma_small_mod,
};
use vstd::arithmetic::power::pow;
use vstd::prelude::*;

verus! {

/// The high half of a value below `2^256`.
pub open spec fn split_hi(v: nat) -> nat {
    v / two_pow_128()
}

/// The low half of a value.
pub open spec fn split_lo(v: nat) -> nat {
    v % two_pow_128()
}

/// The value with the given halves.
pub open spec fn combine_value(hi: nat, lo: nat) -> nat {
    hi * two_pow_128() + lo
}

/// The polynomial with the bytes as coefficients, lowest degree first,
/// evaluated at `r`.
pub open spec fn rlc_sum(bytes: Seq<u8>, r: nat) -> nat
    decreases bytes.len(),
{
    if bytes.len() == 0 {
        0
    } else {
        bytes[0] as nat + r * rlc_sum(bytes.drop_first(), r)
    }
}

/// The random linear combination of the bytes under challenge `r`, as a
/// field element.
pub open spec fn rlc_value(bytes: Seq<u8>, r: nat) -> nat {
    rlc_sum(bytes, r) % modulus()
}

/// A 256-bit value as field elements. `rlc` is there only once a challenge
/// was bound.
#[derive(Clone, Copy, Debug)]
pub struct EncodedValue {
    pub hi: Fe,
    pub lo: Fe,
    pub rlc: Option<Fe>,
}

impl EncodedValue {
    /// Both halves are below `2^128`.
    pub open spec fn wf(self) -> bool {
        self.hi@ < two_pow_128() && self.lo@ < two_pow_128()
    }

    /// Whether the two halves are those of `v`.
    pub open spec fn encodes(self, v: nat) -> bool {
        self.hi@ == split_hi(v) && self.lo@ == split_lo(v)
    }

    /// The value that the halves stand for.
    pub fn value(&self) -> (r: Option<Word256>)
        ensures
            r is Some <==> self.wf(),
            r matches Some(w) ==> w@ == combine_value(self.hi@, self.lo@) && self.encodes(w@),
    {
        let r = combine(self.hi, self.lo);
        proof {
            if r is Some {
                lemma_split_combine(self.hi@, self.lo@);
            }
        }
        r
    }

    /// The encoding with the random linear combination of the word's bytes
    /// under `challenge`.
    pub fn with_challenge(v: &Word256, challenge: Fe) -> (r: EncodedValue)
        ensures
            r.wf(),
            r.encodes(v@),
            r.rlc matches Some(c) && c@ == rlc_value(v.spec_be_bytes(), challenge@),
    {
        let halves = split(v);
        let bytes = v.to_be_bytes();
        let rlc = rlc_encode(bytes.as_slice(), challenge);
        EncodedValue { hi: halves.hi, lo: halves.lo, rlc: Some(rlc) }
    }
}

/// Splits a value at the 128-bit boundary.
pub fn split(v: &Word256) -> (r: EncodedValue)
    ensures
        r.wf(),
        r.encodes(v@),
        r.hi@ == v.hi,
        r.lo@ == v.lo,
        r.rlc is None,
{
    proof {
        lemma_fundamental_div_mod_converse(
            v@ as int,
            two_pow_128() as int,
            v.hi as int,
            v.lo as int,
        );
    }
    EncodedValue { hi: Fe::from_u128(v.hi), lo: Fe::from_u128(v.lo), rlc: None }
}

/// Splits the value that a big-endian byte string spells. `None` when the
/// value exceeds 256 bits.
pub fn split_be_bytes(bytes: &[u8]) -> (r: Option<EncodedValue>)
    ensures
        r is Some <==> be_value(bytes@) < pow256(32),
        r matches Some(e) ==> e.wf() && e.encodes(be_value(bytes@)) && e.rlc is None,
{
    match decode_be(bytes) {
        Some(v) => Some(split(&v)),
        None => None,
    }
}

/// Puts two halves together. `None` unless both are below `2^128`.
pub fn combine(hi: Fe, lo: Fe) -> (r: Option<Word256>)
    ensures
        r is Some <==> hi@ < two_pow_128() && lo@ < two_pow_128(),
        r matches Some(w) ==> w@ == combine_value(hi@, lo@) && w.hi == hi@ && w.lo == lo@,
{
    match (hi.to_u128(), lo.to_u128()) {
        (Some(h), Some(l)) => Some(Word256 { hi: h, lo: l }),
        _ => None,
    }
}

/// The random linear combination of `bytes` under `challenge`: the first
/// byte has weight one, each next byte one more factor of the challenge.
pub fn rlc_encode(bytes: &[u8], challenge: Fe) -> (r: Fe)
    ensures
        r@ == rlc_value(bytes@, challenge@),
{
    let n = bytes.len();
    let mut acc = Fe::zero();
    let mut i: usize = n;
    proof {
        lemma_small_mod(0, modulus());
        assert(bytes@.subrange(n as int, n as int).len() == 0);
    }
    while i > 0
        invariant
            i <= n,
            n == bytes.len(),
            acc@ == rlc_sum(bytes@.subrange(i as int, n as int), challenge@) % modulus(),
        decreases i,
    {
        let ghost tail = bytes@.subrange(i as int, n as int);
        i = i - 1;
        let byte = bytes[i];
        let product = field_mul(acc, challenge);
        acc = field_add(product, Fe::from_u64(byte as u64));
        proof {
            let whole = bytes@.subrange(i as int, n as int);
            let t = rlc_sum(tail, challenge@);
            let c = challenge@;
            assert(whole.drop_first() =~= tail);
            assert(whole[0] == byte);
            assert(rlc_sum(whole, c) == byte as nat + c * t);
            lemma_mul_mod_noop_left(t as int, c as int, modulus() as int);
            lemma_add_mod_noop((t * c) as int, byte as int, modulus() as int);
            lemma_small_mod(byte as nat, modulus());
            assert(t * c == c * t) by (nonlinear_arith);
        }
    }
    assert(bytes@.subrange(0, n as int) =~= bytes@);
    acc
}

/// Splitting a value and combining the halves gives the value back, and
/// both halves are below `2^128`.
pub proof fn lemma_combine_split(v: nat)
    requires
        v < two_pow_128() * two_pow_128(),
    ensures
        split_hi(v) < two_pow_128(),
        split_lo(v) < two_pow_128(),
        combine_value(split_hi(v), split_lo(v)) == v,
{
    let b = two_pow_128() as int;
    assert(v as int == b * (v as int / b) + v as int % b);
    assert((v as int / b) * b == b * (v as int / b));
}

/// Combining two halves below `2^128` and splitting the value gives the
/// halves back.
pub proof fn lemma_split_combine(hi: nat, lo: nat)
    requires
        hi < two_pow_128(),
        lo < two_pow_128(),
    ensures
        combine_value(hi, lo) < two_pow_128() * two_pow_128(),
        split_hi(combine_value(hi, lo)) == hi,
        split_lo(combine_value(hi, lo)) == lo,
{
    lemma_fundamental_div_mod_converse(
        combine_value(hi, lo) as int,
        two_pow_128() as int,
        hi as int,
        lo as int,
    );
}

/// The random linear combination is the sum of the bytes, each times the
/// challenge to the power of its position.
pub proof fn lemma_rlc_sum_push(bytes: Seq<u8>, last: u8, r: nat)
    ensures
        rlc_sum(bytes.push(last), r) == rlc_sum(bytes, r) + last as nat * pow(
            r as int,
            bytes.len(),
        ),
    decreases bytes.len(),
{
    let longer = bytes.push(last);
    if bytes.len() == 0 {
        assert(longer.drop_first() =~= Seq::<u8>::empty());
        assert(rlc_sum(longer.drop_first(), r) == 0);
        assert(pow(r as int, 0) == 1) by {
            reveal(pow);
        }
        assert(r * 0 == 0) by (nonlinear_arith);
    } else {
        let rest = bytes.drop_first();
        assert(longer.drop_first() =~= rest.push(last));
        lemma_rlc_sum_push(rest, last, r);
        let p = pow(r as int, rest.len());
        assert(pow(r as int, bytes.len()) == r * p) by {
            reveal(pow);
        }
        assert(r * (rlc_sum(rest, r) + last as nat * p) == r * rlc_sum(rest, r) + last as nat * (r
            * p)) by (nonlinear_arith);
    }
}

} // verus!
