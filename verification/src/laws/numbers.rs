//! Numbers are ordered as the numbers of IEEE 754 are.

use crate::float::{lemma_order_by_bits, lemma_zero_bits, F32};
use crate::fnv::number_word;
use crate::resolution::{at_least_one, smaller};
use vstd::prelude::*;

verus! {

/// The pattern stands for a number: it is none of the NaNs.
pub open spec fn is_number(v: F32) -> bool {
    v.bits <= 0x7f80_0000 || 0x8000_0000 <= v.bits <= 0xff80_0000
}

/// A pattern with the sign bit stands for the negated number.
pub open spec fn negated(v: F32) -> F32
    recommends
        v.bits < 0x8000_0000,
{
    F32 { bits: (v.bits + 0x8000_0000) as u32 }
}

/// The patterns beyond infinity are the NaNs, those below it the finite numbers.
pub proof fn law_kinds_of_patterns(v: F32)
    ensures
        v.nan() <==> !is_number(v),
        v.finite() <==> v.bits < 0x7f80_0000 || 0x8000_0000 <= v.bits < 0xff80_0000,
{
}

/// Numbers without a sign are ordered as their patterns, numbers with one the other way
/// round, and below all others; the two zeros are the same number.
pub proof fn law_order_of_patterns(a: F32, b: F32)
    requires
        a.bits <= 0x7f80_0000,
        b.bits <= 0x7f80_0000,
    ensures
        a.less(b) <==> a.bits < b.bits,
        a.same_number(b) <==> a.bits == b.bits,
        negated(a).less(negated(b)) <==> b.bits < a.bits,
        negated(a).same_number(negated(b)) <==> a.bits == b.bits,
        negated(a).less(b) <==> a.bits != 0 || b.bits != 0,
        !a.less(negated(b)),
        negated(a).same_number(b) <==> a.bits == 0 && b.bits == 0,
        a.same_number(negated(b)) <==> a.bits == 0 && b.bits == 0,
{
    lemma_order_by_bits(a, b);
    lemma_order_by_bits(negated(a), negated(b));
    lemma_order_by_bits(negated(a), b);
    lemma_order_by_bits(a, negated(b));
}

/// Of two numbers exactly one is smaller unless they are the same; a NaN is neither smaller
/// than a number, nor larger, nor the same.
pub proof fn law_numbers_are_totally_ordered(a: F32, b: F32, c: F32)
    ensures
        is_number(a) && is_number(b) ==> a.less(b) || b.less(a) || a.same_number(b),
        !(a.less(b) && b.less(a)),
        !(a.less(b) && a.same_number(b)),
        a.less(b) && b.less(c) ==> a.less(c),
        a.same_number(b) ==> b.same_number(a),
        a.same_number(b) && b.same_number(c) ==> a.same_number(c),
        a.less(b) && b.same_number(c) ==> a.less(c),
        !is_number(a) || !is_number(b) ==> !a.less(b) && !b.less(a) && !a.same_number(b),
        is_number(a) ==> a.same_number(a),
{
}

/// The larger of two numbers is one of them, and below neither; where one is a NaN it is
/// the other.
pub proof fn law_larger_number(a: F32, b: F32)
    ensures
        a.larger(b) == a || a.larger(b) == b,
        !a.larger(b).less(a),
        !a.larger(b).less(b),
        !is_number(a) ==> a.larger(b) == b,
        is_number(a) && !is_number(b) ==> a.larger(b) == a,
{
}

/// A number that is clamped lies between the bounds, stays as it is where it lay there, and
/// otherwise is a bound.
pub proof fn law_clamped_number(v: F32, lo: F32, hi: F32)
    requires
        is_number(lo),
        is_number(hi),
        !hi.less(lo),
    ensures
        !v.clamped(lo, hi).less(lo),
        !hi.less(v.clamped(lo, hi)),
        !v.less(lo) && !hi.less(v) ==> v.clamped(lo, hi) == v,
        v.less(lo) ==> v.clamped(lo, hi) == lo,
        hi.less(v) ==> v.clamped(lo, hi) == hi,
{
}

/// Zero becomes one, and every other count stays as it is.
pub proof fn law_counts_are_at_least_one(n: u64, a: u32, b: u32)
    ensures
        at_least_one(n) >= 1,
        n > 0 ==> at_least_one(n) == n,
        n == 0 ==> at_least_one(n) == 1,
        smaller(a, b) <= a,
        smaller(a, b) <= b,
        smaller(a, b) == a || smaller(a, b) == b,
{
}

/// The word of a number is its pattern, but for the two zeros, which share one.
pub proof fn law_word_of_a_number(v: F32)
    ensures
        v.bits != 0x8000_0000 ==> number_word(v) == v.bits,
        v.bits == 0x8000_0000 ==> number_word(v) == 0,
{
    lemma_zero_bits(v);
}

} // verus!
