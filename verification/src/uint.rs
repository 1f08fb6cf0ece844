//! 256-bit unsigned amounts held as plain limbs, with their arithmetic
//! delegated to `primitive_types`.

use crate::text::{all_dec_digits, all_hex_digits, dec_value, hex_value, nat_to_decimal, strip_0x};
use vstd::prelude::*;

verus! {

/// 2^64 as a mathematical integer.
pub open spec fn base64() -> nat {
    0x1_0000_0000_0000_0000nat
}

/// 2^128 as a mathematical integer.
pub open spec fn base128() -> nat {
    0x1_0000_0000_0000_0000_0000_0000_0000_0000nat
}

/// The number of distinct 256-bit values, 2^256.
pub open spec fn modulus256() -> nat {
    base128() * base128()
}

/// The value of four little-endian 64-bit limbs.
pub open spec fn limbs_value(l: Seq<u64>) -> nat {
    l[0] as nat + base64() * (l[1] as nat + base64() * (l[2] as nat + base64() * (l[3] as nat)))
}

/// The value of eight little-endian 64-bit limbs.
pub open spec fn limbs8_value(l: Seq<u64>) -> nat {
    limbs_value(l.subrange(0, 4)) + modulus256() * limbs_value(l.subrange(4, 8))
}

/// A 256-bit unsigned integer stored as four little-endian 64-bit limbs,
/// the layout of `primitive_types::U256`.
#[derive(Clone, Copy, Debug, PartialEq, Eq)]
pub struct U256 {
    pub limbs: [u64; 4],
}

impl View for U256 {
    type V = nat;

    open spec fn view(&self) -> nat {
        limbs_value(self.limbs@)
    }
}

/// A 512-bit unsigned integer stored as eight little-endian 64-bit limbs,
/// the layout of `primitive_types::U512`.
#[derive(Clone, Copy, Debug, PartialEq, Eq)]
pub struct U512 {
    pub limbs: [u64; 8],
}

impl View for U512 {
    type V = nat;

    open spec fn view(&self) -> nat {
        limbs8_value(self.limbs@)
    }
}

proof fn lemma_step_lt(xl: nat, xh: nat, yl: nat, yh: nat, b: nat)
    by (nonlinear_arith)
    requires
        xl < b,
        yl < b,
        xh < yh,
    ensures
        xl + b * xh < yl + b * yh,
{
    assert(xl + b * xh < b * (xh + 1));
    assert(b * (xh + 1) <= b * yh);
}

proof fn lemma_step_bound(xl: nat, xh: nat, b: nat, m: nat)
    by (nonlinear_arith)
    requires
        xl < b,
        xh < m,
    ensures
        xl + b * xh < b * m,
{
    assert(xl + b * xh < b * (xh + 1));
    assert(b * (xh + 1) <= b * m);
}

/// Every four-limb value is below 2^256.
pub proof fn lemma_limbs_bound(l: Seq<u64>)
    requires
        l.len() == 4,
    ensures
        limbs_value(l) < modulus256(),
{
    let b = base64();
    let v3 = l[3] as nat;
    let v2 = l[2] as nat + b * v3;
    let v1 = l[1] as nat + b * v2;
    lemma_step_bound(l[2] as nat, v3, b, b);
    lemma_step_bound(l[1] as nat, v2, b, b * b);
    lemma_step_bound(l[0] as nat, v1, b, b * (b * b));
    assert(b * (b * (b * b)) == modulus256()) by (nonlinear_arith)
        requires b == base64();
}

/// Four-limb values are ordered as their limbs are, highest limb first.
pub proof fn lemma_limbs_lt(x: Seq<u64>, y: Seq<u64>)
    requires
        x.len() == 4,
        y.len() == 4,
        x[3] < y[3]
        || (x[3] == y[3] && x[2] < y[2])
        || (x[3] == y[3] && x[2] == y[2] && x[1] < y[1])
        || (x[3] == y[3] && x[2] == y[2] && x[1] == y[1] && x[0] < y[0]),
    ensures
        limbs_value(x) < limbs_value(y),
{
    let b = base64();
    let x2 = x[2] as nat + b * (x[3] as nat);
    let y2 = y[2] as nat + b * (y[3] as nat);
    let x1 = x[1] as nat + b * x2;
    let y1 = y[1] as nat + b * y2;
    if x[3] < y[3] {
        lemma_step_lt(x[2] as nat, x[3] as nat, y[2] as nat, y[3] as nat, b);
    }
    if x2 < y2 {
        lemma_step_lt(x[1] as nat, x2, y[1] as nat, y2, b);
    }
    if x1 < y1 {
        lemma_step_lt(x[0] as nat, x1, y[0] as nat, y1, b);
    }
}

/// Two four-limb sequences have the same value exactly when their limbs agree.
pub proof fn lemma_limbs_eq(x: Seq<u64>, y: Seq<u64>)
    requires
        x.len() == 4,
        y.len() == 4,
    ensures
        limbs_value(x) == limbs_value(y) <==> x =~= y,
{
    if !(x =~= y) {
        if x[3] != y[3] || x[2] != y[2] || x[1] != y[1] || x[0] != y[0] {
            if x[3] < y[3]
                || (x[3] == y[3] && x[2] < y[2])
                || (x[3] == y[3] && x[2] == y[2] && x[1] < y[1])
                || (x[3] == y[3] && x[2] == y[2] && x[1] == y[1] && x[0] < y[0]) {
                lemma_limbs_lt(x, y);
            } else {
                lemma_limbs_lt(y, x);
            }
        } else {
            assert(x =~= y);
        }
    }
}

proof fn lemma_u128_split(x: u128)
    ensures
        x == (x as u64) as nat + base64() * (((x >> 64u128) as u64) as nat),
{
    assert(x == (x as u64) as u128 + ((x >> 64u128) as u64) as u128 * 0x1_0000_0000_0000_0000u128)
        by (bit_vector);
}

impl U256 {
    /// Zero.
    pub fn zero() -> (r: U256)
        ensures
            r@ == 0,
    {
        U256 { limbs: [0u64, 0u64, 0u64, 0u64] }
    }

    /// The largest value, 2^256 - 1.
    pub fn max_value() -> (r: U256)
        ensures
            r@ == modulus256() - 1,
    {
        let r = U256 { limbs: [u64::MAX, u64::MAX, u64::MAX, u64::MAX] };
        assert(r@ == modulus256() - 1);
        r
    }

    /// The value of a `u64`.
    pub fn from_u64(x: u64) -> (r: U256)
        ensures
            r@ == x,
    {
        U256 { limbs: [x, 0u64, 0u64, 0u64] }
    }

    /// The value of a `u128`.
    pub fn from_u128(x: u128) -> (r: U256)
        ensures
            r@ == x,
    {
        proof {
            lemma_u128_split(x);
        }
        U256 { limbs: [x as u64, (x >> 64u128) as u64, 0u64, 0u64] }
    }

    /// Whether the value is zero.
    pub fn is_zero(&self) -> (b: bool)
        ensures
            b == (self@ == 0),
    {
        proof {
            lemma_limbs_eq(self.limbs@, seq![0u64, 0u64, 0u64, 0u64]);
            assert(limbs_value(seq![0u64, 0u64, 0u64, 0u64]) == 0);
        }
        self.limbs[0] == 0 && self.limbs[1] == 0 && self.limbs[2] == 0 && self.limbs[3] == 0
    }

    /// Whether both values are equal.
    pub fn eq_value(&self, other: &U256) -> (b: bool)
        ensures
            b == (self@ == other@),
    {
        proof {
            lemma_limbs_eq(self.limbs@, other.limbs@);
        }
        self.limbs[0] == other.limbs[0] && self.limbs[1] == other.limbs[1]
            && self.limbs[2] == other.limbs[2] && self.limbs[3] == other.limbs[3]
    }

    /// Whether `self` is strictly below `other`.
    pub fn lt(&self, other: &U256) -> (b: bool)
        ensures
            b == (self@ < other@),
    {
        let x = self.limbs;
        let y = other.limbs;
        let b = x[3] < y[3] || (x[3] == y[3] && (x[2] < y[2] || (x[2] == y[2] && (x[1] < y[1]
            || (x[1] == y[1] && x[0] < y[0])))));
        proof {
            if b {
                lemma_limbs_lt(x@, y@);
            } else if x@ =~= y@ {
            } else {
                lemma_limbs_lt(y@, x@);
            }
        }
        b
    }

    /// Whether `self` is at most `other`.
    pub fn le(&self, other: &U256) -> (b: bool)
        ensures
            b == (self@ <= other@),
    {
        !other.lt(self)
    }

    /// Whether the value fits in 128 bits.
    pub fn fits_u128(&self) -> (b: bool)
        ensures
            b == (self@ < base128()),
    {
        let b = self.limbs[2] == 0 && self.limbs[3] == 0;
        proof {
            let x = self.limbs@;
            let lim = seq![0u64, 0u64, 1u64, 0u64];
            assert(limbs_value(lim) == base128());
            if b {
                if x =~= lim {
                } else {
                    lemma_limbs_lt(x, lim);
                }
            } else {
                if x =~= lim {
                } else {
                    lemma_limbs_lt(lim, x);
                }
            }
        }
        b
    }

    /// The value as a `u128`, for a value below 2^128.
    pub fn as_u128(&self) -> (r: u128)
        requires
            self@ < base128(),
        ensures
            r == self@,
    {
        let lo = self.limbs[0];
        let hi = self.limbs[1];
        proof {
            let x = self.limbs@;
            if x[2] != 0 || x[3] != 0 {
                let lim = seq![0u64, 0u64, 1u64, 0u64];
                assert(limbs_value(lim) == base128());
                if x =~= lim {
                } else {
                    lemma_limbs_lt(lim, x);
                }
            }
        }
        let r = (hi as u128) * 0x1_0000_0000_0000_0000u128 + (lo as u128);
        r
    }
}

impl U512 {
    /// The same value in 512 bits.
    pub fn widen(a: U256) -> (r: U512)
        ensures
            r@ == a@,
    {
        let r = U512 { limbs: [a.limbs[0], a.limbs[1], a.limbs[2], a.limbs[3], 0, 0, 0, 0] };
        proof {
            assert(r.limbs@.subrange(0, 4) =~= a.limbs@);
            assert(limbs_value(r.limbs@.subrange(4, 8)) == 0);
        }
        r
    }

    /// The same value in 256 bits, when it fits there.
    pub fn narrow(&self) -> (r: Option<U256>)
        ensures
            r is Some <==> self@ < modulus256(),
            r matches Some(v) ==> v@ == self@,
    {
        let l = self.limbs;
        let lo = U256 { limbs: [l[0], l[1], l[2], l[3]] };
        let hi = U256 { limbs: [l[4], l[5], l[6], l[7]] };
        proof {
            assert(lo.limbs@ =~= self.limbs@.subrange(0, 4));
            assert(hi.limbs@ =~= self.limbs@.subrange(4, 8));
            lemma_limbs_bound(lo.limbs@);
            assert(self@ == lo@ + modulus256() * hi@);
            if hi@ >= 1 {
                assert(modulus256() * hi@ >= modulus256()) by (nonlinear_arith)
                    requires hi@ >= 1;
            }
        }
        if hi.is_zero() {
            Some(lo)
        } else {
            None
        }
    }
}

/// The product of two values, by `primitive_types::U256`'s `*`, which
/// panics on overflow; the contract asks that the product fit.
#[verifier::external_body]
pub(crate) fn u256_mul(a: U256, b: U256) -> (r: U256)
    requires
        a@ * b@ < modulus256(),
    ensures
        r@ == a@ * b@,
{
    U256 { limbs: (primitive_types::U256(a.limbs) * primitive_types::U256(b.limbs)).0 }
}

/// The quotient rounded down, by `primitive_types::U256`'s `/`, which panics
/// on a zero divisor.
#[verifier::external_body]
pub(crate) fn u256_div(a: U256, b: U256) -> (r: U256)
    requires
        b@ != 0,
    ensures
        r@ == a@ / b@,
{
    U256 { limbs: (primitive_types::U256(a.limbs) / primitive_types::U256(b.limbs)).0 }
}

/// `primitive_types::U256::saturating_mul`: the product, or the largest
/// value when the product does not fit.
#[verifier::external_body]
pub(crate) fn u256_saturating_mul(a: U256, b: U256) -> (r: U256)
    ensures
        r@ == if a@ * b@ < modulus256() {
            a@ * b@
        } else {
            (modulus256() - 1) as nat
        },
{
    U256 { limbs: primitive_types::U256(a.limbs).saturating_mul(primitive_types::U256(b.limbs)).0 }
}

/// `primitive_types::U256::checked_div`: the quotient rounded down, or
/// `None` for a zero divisor.
#[verifier::external_body]
pub(crate) fn u256_checked_div(a: U256, b: U256) -> (r: Option<U256>)
    ensures
        r is None <==> b@ == 0,
        r matches Some(q) ==> q@ == a@ / b@,
{
    match primitive_types::U256(a.limbs).checked_div(primitive_types::U256(b.limbs)) {
        Some(q) => Some(U256 { limbs: q.0 }),
        None => None,
    }
}

/// `primitive_types::U256::full_mul`: the exact 512-bit product.
#[verifier::external_body]
pub(crate) fn u256_full_mul(a: U256, b: U256) -> (r: U512)
    ensures
        r@ == a@ * b@,
{
    U512 { limbs: primitive_types::U256(a.limbs).full_mul(primitive_types::U256(b.limbs)).0 }
}

/// The quotient rounded down, by `primitive_types::U512`'s `/`, which panics
/// on a zero divisor.
#[verifier::external_body]
pub(crate) fn u512_div(a: U512, b: U512) -> (r: U512)
    requires
        b@ != 0,
    ensures
        r@ == a@ / b@,
{
    U512 { limbs: (primitive_types::U512(a.limbs) / primitive_types::U512(b.limbs)).0 }
}

/// `primitive_types::U256::from_dec_str`: a string of decimal digits whose
/// value fits in 256 bits; any other character, or a larger value, fails.
/// The empty string reads as zero.
#[verifier::external_body]
pub(crate) fn u256_from_dec_str(s: &str) -> (r: Option<U256>)
    ensures
        r is Some <==> (all_dec_digits(s@) && dec_value(s@) < modulus256()),
        r matches Some(v) ==> v@ == dec_value(s@),
{
    match primitive_types::U256::from_dec_str(s) {
        Ok(v) => Some(U256 { limbs: v.0 }),
        Err(_) => None,
    }
}

/// `primitive_types::U256`'s `FromStr`, which reads hexadecimal: after an
/// optional "0x" prefix, at most 64 hexadecimal digits of either case.
#[verifier::external_body]
pub(crate) fn u256_from_hex_str(s: &str) -> (r: Option<U256>)
    ensures
        r is Some <==> (strip_0x(s@).len() <= 64 && all_hex_digits(strip_0x(s@))),
        r matches Some(v) ==> v@ == hex_value(strip_0x(s@)),
{
    match <primitive_types::U256 as std::str::FromStr>::from_str(s) {
        Ok(v) => Some(U256 { limbs: v.0 }),
        Err(_) => None,
    }
}

/// `primitive_types::U256`'s `Display`: the decimal digits of the value,
/// without leading zeros.
#[verifier::external_body]
pub(crate) fn u256_to_decimal(a: U256) -> (r: String)
    ensures
        r@ == nat_to_decimal(a@),
{
    primitive_types::U256(a.limbs).to_string()
}

} // verus!
