//! Binary64 numbers held by their bit patterns.
//!
//! The library stores and compares such numbers but never computes with
//! them, so a number is kept as the 64 bits of its encoding: one sign bit,
//! eleven exponent bits and fifty-two fraction bits.

use vstd::arithmetic::power2::{lemma2_to64, lemma2_to64_rest, lemma_pow2_adds, lemma_pow2_pos, lemma_pow2_strictly_increases, pow2};
use vstd::prelude::*;

verus! {

/// The sign bit; alone it encodes negative zero.
pub const SIGN_BIT: u64 = 0x8000_0000_0000_0000;

/// Two to the power 52: the number of fractions under one exponent.
pub const FRACTION_SPAN: u64 = 0x0010_0000_0000_0000;

/// The encoding of the number one.
pub const ONE_BITS: u64 = 0x3FF0_0000_0000_0000;

/// A binary64 number, given by the bits of its encoding.
#[derive(Debug, Copy, Clone, PartialEq, Eq, Structural)]
pub struct Binary64 {
    pub bits: u64,
}

impl Binary64 {
    /// Whether the sign bit is set.
    pub open spec fn negative(self) -> bool {
        self.bits >= SIGN_BIT
    }

    /// The encoding without its sign bit.
    pub open spec fn magnitude_bits(self) -> int {
        if self.negative() {
            self.bits - SIGN_BIT
        } else {
            self.bits as int
        }
    }

    /// The exponent field, from 0 to 2047.
    pub open spec fn exponent(self) -> int {
        self.magnitude_bits() / (FRACTION_SPAN as int)
    }

    /// The fraction field, below two to the power 52.
    pub open spec fn fraction(self) -> int {
        self.magnitude_bits() % (FRACTION_SPAN as int)
    }

    /// Neither an infinity nor a NaN.
    pub open spec fn is_finite(self) -> bool {
        self.exponent() < 2047
    }

    /// The absolute value of a finite number, counted in units of two to the
    /// power -1074, the smallest positive binary64 number.
    pub open spec fn scaled_magnitude(self) -> nat {
        if self.exponent() == 0 {
            self.fraction() as nat
        } else {
            ((FRACTION_SPAN + self.fraction()) * pow2((self.exponent() - 1) as nat)) as nat
        }
    }

    /// The number is finite and lies between zero and one, both included.
    /// Negative zero is zero.
    pub open spec fn in_unit_interval(self) -> bool {
        &&& self.is_finite()
        &&& self.scaled_magnitude() == 0 || (!self.negative() && self.scaled_magnitude() <= pow2(1074))
    }

    /// The number with the given encoding.
    pub fn from_bits(bits: u64) -> (r: Binary64)
        ensures
            r.bits == bits,
    {
        Binary64 { bits }
    }

    /// The encoding of the number.
    pub fn to_bits(&self) -> (r: u64)
        ensures
            r == self.bits,
    {
        self.bits
    }

    /// Whether the number can be a probability: finite, at least zero and at
    /// most one.
    pub fn is_probability(&self) -> (r: bool)
        ensures
            r == self.in_unit_interval(),
    {
        proof {
            lemma_unit_interval_by_bits(*self);
        }
        self.bits <= ONE_BITS || self.bits == SIGN_BIT
    }
}

/// Among the encodings without sign bit the numbers are ordered as their
/// encodings are, so the unit interval is every encoding up to that of one,
/// and negative zero.
pub proof fn lemma_unit_interval_by_bits(x: Binary64)
    ensures
        x.in_unit_interval() <==> (x.bits <= ONE_BITS || x.bits == SIGN_BIT),
{
    lemma2_to64();
    lemma2_to64_rest();
    lemma_pow2_adds(52, 1022);
    let e = x.exponent();
    let f = x.fraction();
    let span = FRACTION_SPAN as int;
    if e >= 1 {
        let p = pow2((e - 1) as nat) as int;
        lemma_pow2_pos((e - 1) as nat);
        assert((span + f) * p >= span * p) by (nonlinear_arith)
            requires
                f >= 0,
                p > 0,
        ;
        assert(span * p > 0) by (nonlinear_arith)
            requires
                span > 0,
                p > 0,
        ;
        if e < 1023 {
            lemma_pow2_adds(53, (e - 1) as nat);
            assert((span + f) * p < (2 * span) * p) by (nonlinear_arith)
                requires
                    f < span,
                    p > 0,
            ;
            if e + 52 < 1074 {
                lemma_pow2_strictly_increases((e + 52) as nat, 1074);
            }
        } else if e == 1023 {
            assert((span + f) * p == span * p + f * p) by (nonlinear_arith);
            if f > 0 {
                assert(f * p > 0) by (nonlinear_arith)
                    requires
                        f > 0,
                        p > 0,
                ;
            } else {
                assert(f * p == 0) by (nonlinear_arith)
                    requires
                        f == 0,
                ;
            }
        } else {
            lemma_pow2_strictly_increases(1022, (e - 1) as nat);
            let q = pow2(1022) as int;
            assert(span * p > span * q) by (nonlinear_arith)
                requires
                    span > 0,
                    p > q,
            ;
        }
    } else {
        lemma_pow2_strictly_increases(52, 1074);
    }
}

} // verus!
