//! Elements of the scalar field of BN254, held as four little-endian limbs.

use halo2curves_axiom::bn256::Fr;
use vstd::prelude::*;

verus! {

/// The order of the field.
pub open spec fn modulus() -> nat {
    0x30644e72e131a029b85045b68181585d2833e84879b9709143e1f593f0000001nat
}

/// The integer that four little-endian 64-bit limbs stand for.
pub open spec fn limbs_value(l0: u64, l1: u64, l2: u64, l3: u64) -> nat {
    (l0 as nat) + (l1 as nat) * 0x1_0000_0000_0000_0000nat + (l2 as nat)
        * 0x1_0000_0000_0000_0000_0000_0000_0000_0000nat + (l3 as nat)
        * 0x1_0000_0000_0000_0000_0000_0000_0000_0000_0000_0000_0000_0000nat
}

/// A field element in canonical form: its limbs spell the least
/// non-negative representative.
#[derive(Clone, Copy, Debug, PartialEq, Eq, Structural)]
pub struct Fe {
    pub(crate) l0: u64,
    pub(crate) l1: u64,
    pub(crate) l2: u64,
    pub(crate) l3: u64,
}

impl View for Fe {
    type V = nat;

    closed spec fn view(&self) -> nat {
        limbs_value(self.l0, self.l1, self.l2, self.l3)
    }
}

/// The four limbs of the order of the field, least significant first.
pub const MODULUS_L0: u64 = 0x43e1f593f0000001;

pub const MODULUS_L1: u64 = 0x2833e84879b97091;

pub const MODULUS_L2: u64 = 0xb85045b68181585d;

pub const MODULUS_L3: u64 = 0x30644e72e131a029;

impl Fe {
    /// The limbs spell a number below the order of the field.
    #[verifier::type_invariant]
    pub closed spec fn canonical(self) -> bool {
        limbs_value(self.l0, self.l1, self.l2, self.l3) < modulus()
    }

    /// The limbs, least significant first.
    pub closed spec fn spec_limbs(self) -> Seq<u64> {
        seq![self.l0, self.l1, self.l2, self.l3]
    }

    pub fn zero() -> (r: Fe)
        ensures
            r@ == 0,
    {
        Fe { l0: 0, l1: 0, l2: 0, l3: 0 }
    }

    pub fn from_u64(x: u64) -> (r: Fe)
        ensures
            r@ == x,
    {
        Fe { l0: x, l1: 0, l2: 0, l3: 0 }
    }

    pub fn from_u128(x: u128) -> (r: Fe)
        ensures
            r@ == x,
    {
        let lo: u64 = (x % 0x1_0000_0000_0000_0000) as u64;
        let hi: u64 = (x / 0x1_0000_0000_0000_0000) as u64;
        Fe { l0: lo, l1: hi, l2: 0, l3: 0 }
    }

    /// The element whose value is `hi * 2^128 + lo`, a number below `2^160`.
    pub fn from_u160(hi: u32, lo: u128) -> (r: Fe)
        ensures
            r@ == hi as nat * 0x1_0000_0000_0000_0000_0000_0000_0000_0000nat + lo as nat,
    {
        let l0: u64 = (lo % 0x1_0000_0000_0000_0000) as u64;
        let l1: u64 = (lo / 0x1_0000_0000_0000_0000) as u64;
        Fe { l0, l1, l2: hi as u64, l3: 0 }
    }

    /// The value as a `u128`, if it is below `2^128`.
    pub fn to_u128(&self) -> (r: Option<u128>)
        ensures
            r is Some <==> self@ < 0x1_0000_0000_0000_0000_0000_0000_0000_0000nat,
            r matches Some(x) ==> x == self@,
    {
        if self.l2 == 0 && self.l3 == 0 {
            Some(self.l1 as u128 * 0x1_0000_0000_0000_0000 + self.l0 as u128)
        } else {
            None
        }
    }

    /// The element with the given limbs, least significant first, if they
    /// spell a number below the modulus.
    pub fn from_limbs(limbs: [u64; 4]) -> (r: Option<Fe>)
        ensures
            r is Some <==> limbs_value(limbs[0], limbs[1], limbs[2], limbs[3]) < modulus(),
            r matches Some(e) ==> e@ == limbs_value(limbs[0], limbs[1], limbs[2], limbs[3])
                && e.spec_limbs() == limbs@,
    {
        let l0: u64 = limbs[0];
        let l1: u64 = limbs[1];
        let l2: u64 = limbs[2];
        let l3: u64 = limbs[3];
        let below = l3 < MODULUS_L3 || (l3 == MODULUS_L3 && (l2 < MODULUS_L2 || (l2 == MODULUS_L2
            && (l1 < MODULUS_L1 || (l1 == MODULUS_L1 && l0 < MODULUS_L0)))));
        if below {
            let e = Fe { l0, l1, l2, l3 };
            assert(e.spec_limbs() =~= limbs@);
            Some(e)
        } else {
            None
        }
    }

    /// The limbs, least significant first.
    pub fn to_limbs(&self) -> (r: [u64; 4])
        ensures
            r@ == self.spec_limbs(),
            limbs_value(r[0], r[1], r[2], r[3]) == self@,
            self@ < modulus(),
    {
        proof {
            use_type_invariant(self);
        }
        let r = [self.l0, self.l1, self.l2, self.l3];
        assert(r@ =~= self.spec_limbs());
        r
    }
}

/// Two elements are the same exactly when their values are.
pub proof fn lemma_view_injective(a: Fe, b: Fe)
    ensures
        a@ == b@ <==> a == b,
{
    if a@ == b@ {
        let base = 0x1_0000_0000_0000_0000nat;
        let a2 = a.l2 as nat + a.l3 as nat * base;
        let b2 = b.l2 as nat + b.l3 as nat * base;
        let a1 = a.l1 as nat + a2 * base;
        let b1 = b.l1 as nat + b2 * base;
        assert(a@ == a.l0 as nat + a1 * base);
        assert(b@ == b.l0 as nat + b1 * base);
        lemma_digits_injective(a.l0 as nat, a1, b.l0 as nat, b1, base);
        lemma_digits_injective(a.l1 as nat, a2, b.l1 as nat, b2, base);
        lemma_digits_injective(a.l2 as nat, a.l3 as nat, b.l2 as nat, b.l3 as nat, base);
    }
}

/// A number has one low digit and one remainder above it.
proof fn lemma_digits_injective(x0: nat, x1: nat, y0: nat, y1: nat, base: nat)
    by (nonlinear_arith)
    requires
        x0 < base,
        y0 < base,
        x0 + x1 * base == y0 + y1 * base,
    ensures
        x0 == y0,
        x1 == y1,
{
}

/// `Fr::from_raw`, `Add::add` on `Fr` and the conversion of an `Fr` into
/// `[u64; 4]`: the limbs are read as an integer, the sum is taken in the
/// field, and the canonical limbs of the result are handed back.
#[verifier::external_body]
pub(crate) fn field_add(a: Fe, b: Fe) -> (r: Fe)
    ensures
        r@ == (a@ + b@) % modulus(),
{
    let sum = Fr::from_raw([a.l0, a.l1, a.l2, a.l3]) + Fr::from_raw([b.l0, b.l1, b.l2, b.l3]);
    let l: [u64; 4] = sum.into();
    Fe { l0: l[0], l1: l[1], l2: l[2], l3: l[3] }
}

/// `Fr::from_raw`, `Mul::mul` on `Fr` and the conversion of an `Fr` into
/// `[u64; 4]`: the limbs are read as an integer, the product is taken in the
/// field, and the canonical limbs of the result are handed back.
#[verifier::external_body]
pub(crate) fn field_mul(a: Fe, b: Fe) -> (r: Fe)
    ensures
        r@ == (a@ * b@) % modulus(),
{
    let product = Fr::from_raw([a.l0, a.l1, a.l2, a.l3]) * Fr::from_raw([b.l0, b.l1, b.l2, b.l3]);
    let l: [u64; 4] = product.into();
    Fe { l0: l[0], l1: l[1], l2: l[2], l3: l[3] }
}

} // verus!
