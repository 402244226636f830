//! Distances along a ray, compared exactly.
//!
//! A distance is an IEEE-754 binary64 number that is not a NaN, carried as its
//! 64-bit pattern. The library never does floating-point arithmetic on it: it
//! only tells NaNs apart and orders the numbers, and both can be done exactly
//! on the bits. What a pattern stands for is modelled by [`value_of`], the
//! encoded number in units of 2^-1074, which is an integer for every finite
//! binary64 number.

use vstd::prelude::*;
use vstd::arithmetic::power2::{pow2, lemma_pow2_pos, lemma_pow2_strictly_increases, lemma_pow2_unfold};

verus! {

/// The pattern of the sign bit alone; also the number of magnitude patterns.
pub const SIGN_BIT: u64 = 0x8000_0000_0000_0000;

/// The implicit leading bit of a normal significand: 2^52.
pub const HIDDEN_BIT: u64 = 0x0010_0000_0000_0000;

/// The magnitude pattern of infinity: every exponent bit set, no fraction bit.
pub const INFINITY_BITS: u64 = 0x7ff0_0000_0000_0000;

/// The pattern without its sign bit.
pub open spec fn magnitude_bits(bits: u64) -> nat {
    (bits % SIGN_BIT) as nat
}

/// Whether the sign bit is set.
pub open spec fn is_negative(bits: u64) -> bool {
    bits >= SIGN_BIT
}

/// The biased exponent field, 11 bits wide.
pub open spec fn exponent_of(bits: u64) -> nat {
    magnitude_bits(bits) / (HIDDEN_BIT as nat)
}

/// The fraction field, 52 bits wide.
pub open spec fn fraction_of(bits: u64) -> nat {
    magnitude_bits(bits) % (HIDDEN_BIT as nat)
}

/// A NaN has every exponent bit set and some fraction bit set.
pub open spec fn is_nan(bits: u64) -> bool {
    exponent_of(bits) == 0x7ff && fraction_of(bits) != 0
}

/// The number that a magnitude pattern encodes, in units of 2^-1074.
///
/// A subnormal (exponent field 0) is its fraction; a normal number has the
/// hidden bit in front of its fraction and is scaled by its exponent. Infinity
/// falls under the same formula and comes out as 2^2098, above every finite
/// number, which is all that an ordering needs of it.
pub open spec fn scaled(magnitude: nat) -> nat {
    let e = magnitude / (HIDDEN_BIT as nat);
    let f = magnitude % (HIDDEN_BIT as nat);
    if e == 0 {
        f
    } else {
        (HIDDEN_BIT as nat + f) * pow2((e - 1) as nat)
    }
}

/// The number that a pattern encodes, in units of 2^-1074. Both zeros are 0.
pub open spec fn value_of(bits: u64) -> int {
    if is_negative(bits) {
        -(scaled(magnitude_bits(bits)) as int)
    } else {
        scaled(magnitude_bits(bits)) as int
    }
}

/// A larger magnitude pattern encodes a larger number.
pub proof fn lemma_scaled_strictly_increases(m1: nat, m2: nat)
    requires
        m1 < m2,
    ensures
        scaled(m1) < scaled(m2),
{
    let h = HIDDEN_BIT as nat;
    let (e1, f1) = (m1 / h, m1 % h);
    let (e2, f2) = (m2 / h, m2 % h);
    assert(m1 == e1 * h + f1 && m2 == e2 * h + f2 && f1 < h && f2 < h && e1 <= e2);
    if e1 == e2 {
        if e1 != 0 {
            let p = pow2((e1 - 1) as nat);
            lemma_pow2_pos((e1 - 1) as nat);
            assert((h + f1) * p < (h + f2) * p) by (nonlinear_arith)
                requires
                    f1 < f2,
                    p > 0,
            ;
        }
    } else {
        let p2 = pow2((e2 - 1) as nat);
        lemma_pow2_pos((e2 - 1) as nat);
        assert(h * p2 <= (h + f2) * p2) by (nonlinear_arith)
            requires
                p2 > 0,
        ;
        if e1 == 0 {
            assert(h * 1 <= h * p2) by (nonlinear_arith)
                requires
                    p2 >= 1,
            ;
        } else {
            let p1 = pow2((e1 - 1) as nat);
            lemma_pow2_pos((e1 - 1) as nat);
            lemma_pow2_unfold(e1);
            assert(pow2(e1) <= p2) by {
                if e1 < e2 - 1 {
                    lemma_pow2_strictly_increases(e1, (e2 - 1) as nat);
                }
            }
            assert((h + f1) * p1 < h * p2) by (nonlinear_arith)
                requires
                    f1 < h,
                    p1 > 0,
                    2 * p1 <= p2,
            ;
        }
    }
}

/// Magnitude patterns are ordered as the numbers they encode, and only the
/// pattern 0 encodes zero.
pub proof fn lemma_scaled_order(m1: nat, m2: nat)
    ensures
        m1 < m2 <==> scaled(m1) < scaled(m2),
        m1 == m2 <==> scaled(m1) == scaled(m2),
        m1 == 0 <==> scaled(m1) == 0,
{
    if m1 < m2 {
        lemma_scaled_strictly_increases(m1, m2);
    }
    if m2 < m1 {
        lemma_scaled_strictly_increases(m2, m1);
    }
    if 0 < m1 {
        lemma_scaled_strictly_increases(0, m1);
    }
}

/// Whether `a` encodes a smaller number than `b`, decided on the patterns.
pub open spec fn bits_less(a: u64, b: u64) -> bool {
    let (ma, mb) = (magnitude_bits(a), magnitude_bits(b));
    if is_negative(a) {
        if is_negative(b) {
            mb < ma
        } else {
            ma != 0 || mb != 0
        }
    } else {
        !is_negative(b) && ma < mb
    }
}

/// Deciding on the patterns agrees with comparing the encoded numbers.
pub proof fn lemma_bits_less_is_value_less(a: u64, b: u64)
    ensures
        bits_less(a, b) <==> value_of(a) < value_of(b),
{
    lemma_scaled_order(magnitude_bits(a), magnitude_bits(b));
    lemma_scaled_order(magnitude_bits(b), magnitude_bits(a));
    lemma_scaled_order(magnitude_bits(a), 0);
    lemma_scaled_order(magnitude_bits(b), 0);
}

/// Whether a pattern is a NaN.
pub fn bits_are_nan(bits: u64) -> (res: bool)
    ensures
        res == is_nan(bits),
{
    bits % SIGN_BIT > INFINITY_BITS
}

/// A binary64 number that is not a NaN, held as its bit pattern.
#[derive(Clone, Copy, Debug)]
pub struct Distance {
    bits: u64,
}

impl Distance {
    #[verifier::type_invariant]
    spec fn is_a_number(self) -> bool {
        !is_nan(self.bits)
    }

    /// The bit pattern of the number.
    pub closed spec fn bits(self) -> u64 {
        self.bits
    }

    /// The number itself, in units of 2^-1074.
    pub open spec fn value(self) -> int {
        value_of(self.bits())
    }

    /// Takes the bit pattern of a binary64 number; a NaN is no distance.
    pub fn new(bits: u64) -> (res: Option<Distance>)
        ensures
            res is None <==> is_nan(bits),
            res matches Some(d) ==> d.bits() == bits,
    {
        if bits_are_nan(bits) {
            None
        } else {
            Some(Distance { bits })
        }
    }

    /// Gives the bit pattern back, unchanged.
    pub fn to_bits(&self) -> (res: u64)
        ensures
            res == self.bits(),
            !is_nan(res),
    {
        proof {
            use_type_invariant(self);
        }
        self.bits
    }

    /// Whether this distance is strictly shorter than the other. Negative and
    /// positive zero are the same number, so neither is shorter.
    pub fn lt(&self, other: &Distance) -> (res: bool)
        ensures
            res == (self.value() < other.value()),
    {
        let a_mag: u64 = self.bits % SIGN_BIT;
        let b_mag: u64 = other.bits % SIGN_BIT;
        proof {
            lemma_bits_less_is_value_less(self.bits, other.bits);
        }
        if self.bits >= SIGN_BIT {
            if other.bits >= SIGN_BIT {
                b_mag < a_mag
            } else {
                a_mag != 0 || b_mag != 0
            }
        } else {
            other.bits < SIGN_BIT && a_mag < b_mag
        }
    }
}

} // verus!
