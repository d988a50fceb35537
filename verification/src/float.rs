//! Single-precision numbers as bit patterns.
//!
//! The library moves 32-bit floating-point numbers between scene, hash and GPU
//! buffers and compares them; it never does arithmetic on them. A number is held
//! by its IEEE 754 bit pattern, and the comparisons are stated over the exact
//! value that the pattern stands for.

use vstd::arithmetic::power2::{
    lemma_pow2_pos, lemma_pow2_strictly_increases, lemma_pow2_unfold, pow2,
};
use vstd::prelude::*;

verus! {

/// An IEEE 754 binary32 number, held by its bit pattern.
///
/// `==` compares bit patterns. Numeric equality, under which the two zeros are
/// equal and no NaN equals anything, is [`F32::num_eq`].
#[derive(Clone, Copy, Debug, Default, PartialEq, Eq, Structural)]
pub struct F32 {
    /// Sign bit, eight exponent bits and twenty-three fraction bits, high to low.
    pub bits: u32,
}

/// The value of a finite magnitude pattern (sign bit cleared), in multiples of
/// `2^-149`, the smallest positive binary32 number. The pattern of infinity is
/// given the value one step above the largest finite number.
pub open spec fn magnitude_value(magnitude: int) -> int {
    let exponent = magnitude / 0x80_0000;
    let fraction = magnitude % 0x80_0000;
    if exponent == 0 {
        fraction
    } else {
        (0x80_0000 + fraction) * pow2((exponent - 1) as nat)
    }
}

impl F32 {
    /// The bit pattern without its sign bit.
    pub open spec fn magnitude(self) -> int {
        self.bits as int % 0x8000_0000
    }

    /// The sign bit is set.
    pub open spec fn negative(self) -> bool {
        self.bits >= 0x8000_0000
    }

    /// The pattern is a NaN.
    pub open spec fn nan(self) -> bool {
        self.magnitude() > 0x7f80_0000
    }

    /// The pattern is neither infinite nor a NaN.
    pub open spec fn finite(self) -> bool {
        self.magnitude() < 0x7f80_0000
    }

    /// The exact value in multiples of `2^-149`; meaningless for a NaN.
    pub open spec fn value(self) -> int {
        if self.negative() {
            -magnitude_value(self.magnitude())
        } else {
            magnitude_value(self.magnitude())
        }
    }

    /// `self < other` as numbers.
    pub open spec fn less(self, other: F32) -> bool {
        !self.nan() && !other.nan() && self.value() < other.value()
    }

    /// `self == other` as numbers.
    pub open spec fn same_number(self, other: F32) -> bool {
        !self.nan() && !other.nan() && self.value() == other.value()
    }

    /// The larger of two numbers; a NaN gives way to the other operand.
    pub open spec fn larger(self, other: F32) -> F32 {
        if self.nan() || self.less(other) {
            other
        } else {
            self
        }
    }

    /// The number moved into `[lo, hi]`; a NaN stays a NaN.
    pub open spec fn clamped(self, lo: F32, hi: F32) -> F32 {
        if self.less(lo) {
            lo
        } else if hi.less(self) {
            hi
        } else {
            self
        }
    }
}

/// Magnitudes are ordered as their patterns are.
proof fn lemma_magnitude_value_increases(a: int, b: int)
    requires
        0 <= a < b < 0x8000_0000,
    ensures
        magnitude_value(a) < magnitude_value(b),
{
    let ea = a / 0x80_0000;
    let fa = a % 0x80_0000;
    let eb = b / 0x80_0000;
    let fb = b % 0x80_0000;
    assert(ea <= eb);
    if ea == eb {
        if ea != 0 {
            let p = pow2((ea - 1) as nat);
            lemma_pow2_pos((ea - 1) as nat);
            assert((0x80_0000 + fa) * p < (0x80_0000 + fb) * p) by (nonlinear_arith)
                requires
                    fa < fb,
                    p > 0,
            ;
        }
    } else {
        let q = pow2((eb - 1) as nat);
        lemma_pow2_pos((eb - 1) as nat);
        assert((0x80_0000 + fb) * q >= 0x80_0000 * q) by (nonlinear_arith)
            requires
                fb >= 0,
                q > 0,
        ;
        if ea != 0 {
            let p = pow2((ea - 1) as nat);
            lemma_pow2_pos((ea - 1) as nat);
            lemma_pow2_unfold(ea as nat);
            assert(pow2(ea as nat) == 2 * p);
            if ea < eb - 1 {
                lemma_pow2_strictly_increases(ea as nat, (eb - 1) as nat);
            }
            assert((0x80_0000 + fa) * p < 0x80_0000 * q) by (nonlinear_arith)
                requires
                    fa < 0x80_0000,
                    p > 0,
                    q >= 2 * p,
            ;
        }
    }
}

/// Every magnitude is non-negative, and only the zero pattern has value zero.
proof fn lemma_magnitude_value_sign(a: int)
    requires
        0 <= a < 0x8000_0000,
    ensures
        magnitude_value(a) >= 0,
        magnitude_value(a) == 0 <==> a == 0,
{
    if a > 0 {
        lemma_magnitude_value_increases(0, a);
    }
}

/// Two equal numbers have the same pattern, unless both are zero.
pub(crate) proof fn lemma_equal_numbers(a: F32, b: F32)
    ensures
        a.same_number(b) <==> !a.nan() && !b.nan() && (a == b || (a.value() == 0 && b.value()
            == 0)),
{
    let x = a.magnitude();
    let y = b.magnitude();
    lemma_magnitude_value_sign(x);
    lemma_magnitude_value_sign(y);
    if x < y {
        lemma_magnitude_value_increases(x, y);
    } else if y < x {
        lemma_magnitude_value_increases(y, x);
    } else if a.negative() == b.negative() {
        assert(a.bits == b.bits);
        assert(a == b);
    }
}

/// The patterns of the finite positive numbers lie between those of zero and infinity.
pub(crate) proof fn lemma_sign_of_bits(v: F32)
    ensures
        v.finite() && (F32 { bits: 0 }).less(v) <==> 0 < v.bits < 0x7f80_0000,
{
    lemma_magnitude_value_sign(v.magnitude());
    lemma_magnitude_value_sign(0);
}

/// Two patterns stand for zero.
pub(crate) proof fn lemma_zero_bits(v: F32)
    ensures
        !v.nan() && v.value() == 0 <==> v.bits == 0 || v.bits == 0x8000_0000,
{
    lemma_magnitude_value_sign(v.magnitude());
}

/// The order of numbers, by their patterns.
pub(crate) proof fn lemma_order_by_bits(a: F32, b: F32)
    ensures
        !a.nan() && !b.nan() ==> {
            let x = a.magnitude();
            let y = b.magnitude();
            &&& a.less(b) <==> if a.negative() {
                if b.negative() {
                    y < x
                } else {
                    x != 0 || y != 0
                }
            } else {
                !b.negative() && x < y
            }
            &&& a.same_number(b) <==> a.bits == b.bits || (x == 0 && y == 0)
        },
{
    let x = a.magnitude();
    let y = b.magnitude();
    lemma_magnitude_value_sign(x);
    lemma_magnitude_value_sign(y);
    if x < y {
        lemma_magnitude_value_increases(x, y);
    } else if y < x {
        lemma_magnitude_value_increases(y, x);
    }
}

/// The number one is not zero.
pub(crate) proof fn lemma_one_is_positive()
    ensures
        !(F32 { bits: 0x3f80_0000 }).nan(),
        (F32 { bits: 0x3f80_0000 }).value() > 0,
        !(F32 { bits: 0 }).nan(),
        (F32 { bits: 0 }).value() == 0,
{
    lemma_magnitude_value_sign(0x3f80_0000);
    lemma_magnitude_value_sign(0);
}

/// No number lies above infinity or below negative infinity.
pub(crate) proof fn lemma_below_infinity(v: F32)
    requires
        !v.nan(),
    ensures
        !(F32 { bits: 0x7f80_0000 }).less(v),
        !v.less(F32 { bits: 0xff80_0000 }),
{
    let m = v.magnitude();
    lemma_magnitude_value_sign(m);
    lemma_magnitude_value_sign(0x7f80_0000);
    if m < 0x7f80_0000 {
        lemma_magnitude_value_increases(m, 0x7f80_0000);
    }
}

impl F32 {
    /// The number with this bit pattern.
    pub fn from_bits(bits: u32) -> (r: F32)
        ensures
            r.bits == bits,
    {
        F32 { bits }
    }

    fn magnitude_bits(self) -> (m: u32)
        ensures
            m == self.magnitude(),
    {
        self.bits % 0x8000_0000
    }

    /// Whether this is a NaN.
    pub fn is_nan(self) -> (r: bool)
        ensures
            r == self.nan(),
    {
        self.magnitude_bits() > 0x7f80_0000
    }

    /// Whether this is neither infinite nor a NaN.
    pub fn is_finite(self) -> (r: bool)
        ensures
            r == self.finite(),
    {
        self.magnitude_bits() < 0x7f80_0000
    }

    /// `self < other` as numbers.
    pub fn lt(self, other: F32) -> (r: bool)
        ensures
            r == self.less(other),
    {
        let a: u32 = self.magnitude_bits();
        let b: u32 = other.magnitude_bits();
        proof {
            lemma_magnitude_value_sign(a as int);
            lemma_magnitude_value_sign(b as int);
            if a < b {
                lemma_magnitude_value_increases(a as int, b as int);
            } else if b < a {
                lemma_magnitude_value_increases(b as int, a as int);
            }
        }
        if a > 0x7f80_0000 || b > 0x7f80_0000 {
            false
        } else if self.bits >= 0x8000_0000 {
            if other.bits >= 0x8000_0000 {
                b < a
            } else {
                a != 0 || b != 0
            }
        } else if other.bits >= 0x8000_0000 {
            false
        } else {
            a < b
        }
    }

    /// `self == other` as numbers.
    pub fn num_eq(self, other: F32) -> (r: bool)
        ensures
            r == self.same_number(other),
    {
        let a: u32 = self.magnitude_bits();
        let b: u32 = other.magnitude_bits();
        proof {
            lemma_magnitude_value_sign(a as int);
            lemma_magnitude_value_sign(b as int);
            if a < b {
                lemma_magnitude_value_increases(a as int, b as int);
            } else if b < a {
                lemma_magnitude_value_increases(b as int, a as int);
            }
        }
        if a > 0x7f80_0000 || b > 0x7f80_0000 {
            false
        } else {
            self.bits == other.bits || (a == 0 && b == 0)
        }
    }

    /// The larger of the two; a NaN gives way to the other operand, and of two
    /// equal numbers `self` is kept.
    pub fn max(self, other: F32) -> (r: F32)
        ensures
            r == self.larger(other),
    {
        if self.is_nan() || self.lt(other) {
            other
        } else {
            self
        }
    }

    /// The number moved into `[lo, hi]`; a NaN stays a NaN.
    pub fn clamp(self, lo: F32, hi: F32) -> (r: F32)
        ensures
            r == self.clamped(lo, hi),
    {
        if self.lt(lo) {
            lo
        } else if hi.lt(self) {
            hi
        } else {
            self
        }
    }
}

} // verus!
