//! Fixed-width unsigned integers and their big-endian byte strings: 256-bit
//! words and 160-bit addresses.

use crate::field::Fe;
use vstd::arithmetic::div_mod::{lemma_breakdown, lemma_div_denominator, lemma_small_mod};
use vstd::prelude::*;

verus! {

/// `256` to the power `n`.
pub open spec fn pow256(n: nat) -> nat
    decreases n,
{
    if n == 0 {
        1
    } else {
        256 * pow256((n - 1) as nat)
    }
}

/// The integer that a string of bytes spells, most significant byte first.
pub open spec fn be_value(s: Seq<u8>) -> nat
    decreases s.len(),
{
    if s.len() == 0 {
        0
    } else {
        be_value(s.drop_last()) * 256 + s.last() as nat
    }
}

/// The `n` lowest base-256 digits of `x`, most significant first.
pub open spec fn be_bytes(x: nat, n: nat) -> Seq<u8>
    decreases n,
{
    if n == 0 {
        Seq::empty()
    } else {
        be_bytes(x / 256, (n - 1) as nat).push((x % 256) as u8)
    }
}

/// `2` to the power `128`.
pub open spec fn two_pow_128() -> nat {
    0x1_0000_0000_0000_0000_0000_0000_0000_0000nat
}

/// A power of 256 is positive.
pub proof fn lemma_pow256_positive(n: nat)
    ensures
        pow256(n) > 0,
    decreases n,
{
    if n > 0 {
        lemma_pow256_positive((n - 1) as nat);
    }
}

/// The powers of 256 grow with the exponent.
pub proof fn lemma_pow256_monotone(m: nat, n: nat)
    requires
        m <= n,
    ensures
        pow256(m) <= pow256(n),
    decreases n,
{
    if m < n {
        lemma_pow256_monotone(m, (n - 1) as nat);
    }
}

/// A string of `n` bytes spells a number below `256^n`.
pub proof fn lemma_be_value_bound(s: Seq<u8>)
    ensures
        be_value(s) < pow256(s.len()),
    decreases s.len(),
{
    if s.len() > 0 {
        lemma_be_value_bound(s.drop_last());
    }
}

/// The value of two strings put end to end.
pub proof fn lemma_be_value_concat(a: Seq<u8>, b: Seq<u8>)
    ensures
        be_value(a + b) == be_value(a) * pow256(b.len()) + be_value(b),
    decreases b.len(),
{
    let x = be_value(a);
    if b.len() == 0 {
        assert(a + b =~= a);
        assert(pow256(0) == 1);
        assert(x * 1 == x) by (nonlinear_arith);
    } else {
        let front = b.drop_last();
        assert((a + b).drop_last() =~= a + front);
        assert((a + b).last() == b.last());
        lemma_be_value_concat(a, front);
        let p = pow256(front.len());
        assert(pow256(b.len()) == 256 * p);
        assert((x * p + be_value(front)) * 256 == x * (256 * p) + be_value(front) * 256)
            by (nonlinear_arith);
        assert(be_value(a + b) == be_value(a + front) * 256 + b.last() as nat);
        assert(be_value(b) == be_value(front) * 256 + b.last() as nat);
    }
}

/// Strings of one length that spell the same number are the same string.
pub proof fn lemma_be_value_injective(a: Seq<u8>, b: Seq<u8>)
    requires
        a.len() == b.len(),
        be_value(a) == be_value(b),
    ensures
        a == b,
    decreases a.len(),
{
    if a.len() > 0 {
        lemma_be_value_injective(a.drop_last(), b.drop_last());
        assert(a =~= a.drop_last().push(a.last()));
        assert(b =~= b.drop_last().push(b.last()));
    } else {
        assert(a =~= b);
    }
}

/// The `n`-digit spelling of a number has `n` digits.
pub proof fn lemma_be_bytes_len(x: nat, n: nat)
    ensures
        be_bytes(x, n).len() == n,
    decreases n,
{
    if n > 0 {
        lemma_be_bytes_len(x / 256, (n - 1) as nat);
    }
}

/// The digit `j` places from the end of `be_bytes(x, n)`.
pub proof fn lemma_be_bytes_digit(x: nat, n: nat, j: nat)
    requires
        j < n,
    ensures
        be_bytes(x, n).len() == n,
        be_bytes(x, n)[n - 1 - j] == ((x / pow256(j)) % 256) as u8,
    decreases n,
{
    lemma_be_bytes_len(x, n);
    lemma_be_bytes_len(x / 256, (n - 1) as nat);
    let inner = be_bytes(x / 256, (n - 1) as nat);
    assert(be_bytes(x, n) == inner.push((x % 256) as u8));
    if j > 0 {
        let p = pow256((j - 1) as nat);
        lemma_be_bytes_digit(x / 256, (n - 1) as nat, (j - 1) as nat);
        lemma_pow256_positive((j - 1) as nat);
        lemma_div_denominator(x as int, 256, p as int);
        assert(pow256(j) == 256 * p);
        assert((x as int / 256) / (p as int) == x as int / (256 * p as int));
        assert(be_bytes(x, n)[n - 1 - j] == inner[n - 1 - j]);
    } else {
        assert(pow256(0) == 1);
    }
}

/// Spelling a number with `n` digits and reading it back keeps its `n`
/// lowest digits.
pub proof fn lemma_be_value_of_be_bytes(x: nat, n: nat)
    ensures
        be_value(be_bytes(x, n)) == x % pow256(n),
    decreases n,
{
    if n > 0 {
        let m = (n - 1) as nat;
        lemma_be_value_of_be_bytes(x / 256, m);
        lemma_be_bytes_len(x / 256, m);
        let s = be_bytes(x, n);
        assert(s.drop_last() =~= be_bytes(x / 256, m));
        lemma_pow256_positive(m);
        lemma_breakdown(x as int, 256, pow256(m) as int);
    }
}

/// A string of `n` bytes is the `n`-digit spelling of its value.
pub proof fn lemma_be_bytes_of_be_value(s: Seq<u8>)
    ensures
        be_bytes(be_value(s), s.len()) == s,
{
    let t = be_bytes(be_value(s), s.len());
    lemma_be_bytes_len(be_value(s), s.len());
    lemma_be_value_of_be_bytes(be_value(s), s.len());
    lemma_be_value_bound(s);
    lemma_small_mod(be_value(s), pow256(s.len()));
    lemma_be_value_injective(t, s);
}

/// The `n`-digit big-endian spelling of `x`.
pub fn encode_be(x: u128, n: usize) -> (r: Vec<u8>)
    ensures
        r@ == be_bytes(x as nat, n as nat),
{
    let mut buf: Vec<u8> = vec![0u8; n];
    let mut rem: u128 = x;
    let mut i: usize = 0;
    proof {
        lemma_be_bytes_len(x as nat, n as nat);
        assert(pow256(0) == 1);
    }
    while i < n
        invariant
            i <= n,
            buf.len() == n,
            be_bytes(x as nat, n as nat).len() == n,
            rem == x as nat / pow256(i as nat),
            forall|k: int| n - i <= k < n ==> buf[k] == be_bytes(x as nat, n as nat)[k],
        decreases n - i,
    {
        let byte: u8 = (rem % 256) as u8;
        proof {
            lemma_be_bytes_digit(x as nat, n as nat, i as nat);
            lemma_pow256_positive(i as nat);
            lemma_div_denominator(x as int, pow256(i as nat) as int, 256);
            assert(pow256(i as nat) * 256 == pow256((i + 1) as nat)) by (nonlinear_arith)
                requires
                    pow256((i + 1) as nat) == 256 * pow256(i as nat),
            ;
        }
        buf.set(n - 1 - i, byte);
        rem = rem / 256;
        i = i + 1;
    }
    assert(buf@ =~= be_bytes(x as nat, n as nat));
    buf
}

/// Reads a byte string as a big-endian integer. `None` when the integer does
/// not fit in 256 bits.
pub fn decode_be(bytes: &[u8]) -> (r: Option<Word256>)
    ensures
        r is Some <==> be_value(bytes@) < pow256(32),
        r matches Some(w) ==> w@ == be_value(bytes@),
{
    let mut hi: u128 = 0;
    let mut lo: u128 = 0;
    let mut i: usize = 0;
    proof {
        lemma_pow256_32();
    }
    while i < bytes.len()
        invariant
            i <= bytes.len(),
            hi as nat * two_pow_128() + lo as nat == be_value(bytes@.subrange(0, i as int)),
            pow256(32) == two_pow_128() * two_pow_128(),
        decreases bytes.len() - i,
    {
        let ghost next = bytes@.subrange(0, i + 1);
        proof {
            assert(next.drop_last() =~= bytes@.subrange(0, i as int));
            assert(next.last() == bytes[i as int]);
        }
        if hi >= 0x1_00_0000_0000_0000_0000_0000_0000_0000 {
            proof {
                let rest = bytes@.subrange(i + 1, bytes.len() as int);
                assert(next + rest =~= bytes@);
                lemma_be_value_concat(next, rest);
                lemma_pow256_positive(rest.len());
                assert(be_value(next) >= pow256(32));
                assert(be_value(next) * pow256(rest.len()) >= be_value(next)) by (nonlinear_arith)
                    requires
                        pow256(rest.len()) > 0,
                ;
            }
            return None;
        }
        let top: u128 = lo / 0x1_00_0000_0000_0000_0000_0000_0000_0000;
        let low: u128 = lo % 0x1_00_0000_0000_0000_0000_0000_0000_0000;
        hi = hi * 256 + top;
        lo = low * 256 + bytes[i] as u128;
        i = i + 1;
    }
    assert(bytes@.subrange(0, i as int) =~= bytes@);
    Some(Word256 { hi, lo })
}

proof fn lemma_pow256_32()
    ensures
        pow256(32) == two_pow_128() * two_pow_128(),
        pow256(16) == two_pow_128(),
        pow256(4) == 0x1_0000_0000nat,
        pow256(20) == 0x1_0000_0000nat * two_pow_128(),
{
    reveal_with_fuel(pow256, 17);
    assert(pow256(16) == two_pow_128());
    lemma_pow256_sum(16, 16);
    lemma_pow256_sum(4, 16);
}

/// `256^(m + n)` is `256^m * 256^n`.
pub proof fn lemma_pow256_sum(m: nat, n: nat)
    ensures
        pow256(m + n) == pow256(m) * pow256(n),
    decreases m,
{
    if m == 0 {
        assert(pow256(0) == 1);
        assert(1 * pow256(n) == pow256(n)) by (nonlinear_arith);
    } else {
        lemma_pow256_sum((m - 1) as nat, n);
        assert(pow256(m + n) == 256 * pow256((m - 1 + n) as nat));
        assert(256 * (pow256((m - 1) as nat) * pow256(n)) == (256 * pow256((m - 1) as nat))
            * pow256(n)) by (nonlinear_arith);
    }
}

/// A number below `2^256` has one pair of 128-bit halves.
pub proof fn lemma_halves_injective(hi1: u128, lo1: u128, hi2: u128, lo2: u128)
    requires
        hi1 as nat * two_pow_128() + lo1 as nat == hi2 as nat * two_pow_128() + lo2 as nat,
    ensures
        hi1 == hi2,
        lo1 == lo2,
{
}

/// A 256-bit unsigned integer, held as its two 128-bit halves.
#[derive(Clone, Copy, Debug, PartialEq, Eq, Structural)]
pub struct Word256 {
    pub hi: u128,
    pub lo: u128,
}

impl View for Word256 {
    type V = nat;

    open spec fn view(&self) -> nat {
        self.hi as nat * two_pow_128() + self.lo as nat
    }
}

impl Word256 {
    /// The 32 bytes of the word, most significant first.
    pub open spec fn spec_be_bytes(self) -> Seq<u8> {
        be_bytes(self.hi as nat, 16) + be_bytes(self.lo as nat, 16)
    }

    pub fn zero() -> (r: Word256)
        ensures
            r@ == 0,
    {
        Word256 { hi: 0, lo: 0 }
    }

    pub fn from_u64(x: u64) -> (r: Word256)
        ensures
            r@ == x,
    {
        Word256 { hi: 0, lo: x as u128 }
    }

    pub fn from_u128(x: u128) -> (r: Word256)
        ensures
            r@ == x,
    {
        Word256 { hi: 0, lo: x }
    }

    /// Reads a big-endian byte string of any length. `None` when its value
    /// exceeds 256 bits.
    pub fn from_be_bytes(bytes: &[u8]) -> (r: Option<Word256>)
        ensures
            r is Some <==> be_value(bytes@) < pow256(32),
            r matches Some(w) ==> w@ == be_value(bytes@),
    {
        decode_be(bytes)
    }

    /// The 32 bytes of the word, most significant first.
    pub fn to_be_bytes(&self) -> (r: Vec<u8>)
        ensures
            r@ == self.spec_be_bytes(),
            r.len() == 32,
            be_value(r@) == self@,
    {
        let mut out = encode_be(self.hi, 16);
        let mut low = encode_be(self.lo, 16);
        out.append(&mut low);
        proof {
            lemma_spec_be_bytes(*self);
        }
        out
    }
}

/// The bytes of a word are 32 and spell its value.
pub proof fn lemma_spec_be_bytes(w: Word256)
    ensures
        w.spec_be_bytes().len() == 32,
        be_value(w.spec_be_bytes()) == w@,
{
    let a = be_bytes(w.hi as nat, 16);
    let b = be_bytes(w.lo as nat, 16);
    lemma_be_bytes_len(w.hi as nat, 16);
    lemma_be_bytes_len(w.lo as nat, 16);
    lemma_be_value_concat(a, b);
    lemma_be_value_of_be_bytes(w.hi as nat, 16);
    lemma_be_value_of_be_bytes(w.lo as nat, 16);
    lemma_pow256_32();
    lemma_small_mod(w.hi as nat, pow256(16));
    lemma_small_mod(w.lo as nat, pow256(16));
}

/// A 160-bit account address, held as its top 32 and low 128 bits.
#[derive(Clone, Copy, Debug, PartialEq, Eq, Structural)]
pub struct Address {
    pub hi: u32,
    pub lo: u128,
}

impl View for Address {
    type V = nat;

    open spec fn view(&self) -> nat {
        self.hi as nat * two_pow_128() + self.lo as nat
    }
}

impl Address {
    /// The 20 bytes of the address, most significant first.
    pub open spec fn spec_be_bytes(self) -> Seq<u8> {
        be_bytes(self.hi as nat, 4) + be_bytes(self.lo as nat, 16)
    }

    /// The address that a word holds, if the word is below `2^160`.
    pub fn from_word(w: &Word256) -> (r: Option<Address>)
        ensures
            r is Some <==> w@ < pow256(20),
            r matches Some(a) ==> a@ == w@,
    {
        proof {
            lemma_pow256_32();
        }
        if w.hi < 0x1_0000_0000 {
            Some(Address { hi: w.hi as u32, lo: w.lo })
        } else {
            None
        }
    }

    /// The address as a 256-bit word.
    pub fn to_word(&self) -> (r: Word256)
        ensures
            r@ == self@,
    {
        Word256 { hi: self.hi as u128, lo: self.lo }
    }

    /// Reads a big-endian byte string of any length. `None` when its value
    /// exceeds 160 bits.
    pub fn from_be_bytes(bytes: &[u8]) -> (r: Option<Address>)
        ensures
            r is Some <==> be_value(bytes@) < pow256(20),
            r matches Some(a) ==> a@ == be_value(bytes@),
    {
        proof {
            lemma_pow256_monotone(20, 32);
        }
        match decode_be(bytes) {
            Some(w) => Address::from_word(&w),
            None => None,
        }
    }

    /// The 20 bytes of the address, most significant first.
    pub fn to_be_bytes(&self) -> (r: Vec<u8>)
        ensures
            r@ == self.spec_be_bytes(),
            r.len() == 20,
            be_value(r@) == self@,
    {
        let mut out = encode_be(self.hi as u128, 4);
        let mut low = encode_be(self.lo, 16);
        out.append(&mut low);
        proof {
            let a = be_bytes(self.hi as nat, 4);
            let b = be_bytes(self.lo as nat, 16);
            lemma_be_bytes_len(self.hi as nat, 4);
            lemma_be_bytes_len(self.lo as nat, 16);
            lemma_be_value_concat(a, b);
            lemma_be_value_of_be_bytes(self.hi as nat, 4);
            lemma_be_value_of_be_bytes(self.lo as nat, 16);
            lemma_pow256_32();
            lemma_small_mod(self.hi as nat, pow256(4));
            lemma_small_mod(self.lo as nat, pow256(16));
        }
        out
    }

    /// The address as a field element: every address is below the modulus.
    pub fn to_scalar(&self) -> (r: Fe)
        ensures
            r@ == self@,
    {
        Fe::from_u160(self.hi, self.lo)
    }
}

} // verus!
