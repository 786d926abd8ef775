//! Queue priorities.
//!
//! A priority is a single precision number. It is kept as the 32 bits of its IEEE 754 encoding,
//! so that what its range means can be said, and proved, in whole numbers.
use vstd::prelude::*;

verus! {

/// Whether the sign bit of an encoding is set.
pub open spec fn is_signed(bits: u32) -> bool {
    bits >= 0x8000_0000
}

/// The biased exponent of an encoding.
pub open spec fn exponent(bits: u32) -> nat {
    ((bits / 0x80_0000) % 0x100) as nat
}

/// The fraction field of an encoding.
pub open spec fn fraction(bits: u32) -> nat {
    (bits % 0x80_0000) as nat
}

/// Whether an encoding stands for a number: neither an infinity nor a NaN.
pub open spec fn is_finite(bits: u32) -> bool {
    exponent(bits) != 255
}

/// The magnitude of the number that an encoding stands for, as a multiple of 2^-149, the smallest
/// positive number there is.
pub open spec fn magnitude(bits: u32) -> nat {
    if exponent(bits) == 0 {
        fraction(bits)
    } else {
        (0x80_0000 + fraction(bits)) * vstd::arithmetic::power2::pow2((exponent(bits) - 1) as nat)
    }
}

/// The number that an encoding stands for, as a multiple of 2^-149.
pub open spec fn scaled_value(bits: u32) -> int {
    if is_signed(bits) {
        -magnitude(bits)
    } else {
        magnitude(bits) as int
    }
}

/// The number one, as a multiple of 2^-149.
pub open spec fn scaled_one() -> int {
    vstd::arithmetic::power2::pow2(149) as int
}

/// Whether an encoding stands for a number between zero and one, both included.
pub open spec fn in_unit_range(bits: u32) -> bool {
    is_finite(bits) && 0 <= scaled_value(bits) <= scaled_one()
}

/// The encodings of the numbers between zero and one are those up to the encoding of one, and that
/// of the negative zero.
pub proof fn lemma_unit_range(bits: u32)
    ensures
        in_unit_range(bits) <==> bits <= 0x3F80_0000 || bits == 0x8000_0000,
{
    let e = exponent(bits);
    let f = fraction(bits);
    assert(bits == (if is_signed(bits) { 0x8000_0000int } else { 0 }) + e * 0x80_0000 + f);
    vstd::arithmetic::power2::lemma2_to64();
    vstd::arithmetic::power2::lemma_pow2_adds(23, 126);
    if e == 0 {
        vstd::arithmetic::power2::lemma_pow2_strictly_increases(23, 149);
    } else if e != 255 {
        let p = vstd::arithmetic::power2::pow2((e - 1) as nat);
        vstd::arithmetic::power2::lemma_pow2_pos((e - 1) as nat);
        assert(magnitude(bits) == (0x80_0000 + f) * p);
        if e < 127 {
            if e < 126 {
                vstd::arithmetic::power2::lemma_pow2_strictly_increases((e - 1) as nat, 125);
            }
            vstd::arithmetic::power2::lemma_pow2_adds(24, 125);
            let top = vstd::arithmetic::power2::pow2(125);
            assert(0 < (0x80_0000 + f) * p <= 0x100_0000 * top) by (nonlinear_arith)
                requires
                    0 < p <= top,
                    0 <= f < 0x80_0000,
            ;
        } else {
            if e > 127 {
                vstd::arithmetic::power2::lemma_pow2_strictly_increases(126, (e - 1) as nat);
            }
            let one = vstd::arithmetic::power2::pow2(126);
            vstd::arithmetic::power2::lemma_pow2_pos(126);
            if e == 127 {
                assert((0x80_0000 + f) * one == 0x80_0000 * one + f * one) by (nonlinear_arith);
                if f > 0 {
                    assert(f * one > 0) by (nonlinear_arith)
                        requires
                            f > 0,
                            one > 0,
                    ;
                } else {
                    assert(f * one == 0) by (nonlinear_arith)
                        requires
                            f == 0,
                    ;
                }
            } else {
                assert((0x80_0000 + f) * p > 0x80_0000 * one) by (nonlinear_arith)
                    requires
                        p > one,
                        0 <= f,
                        one > 0,
                ;
            }
        }
    }
}

/// The relative priority of a queue.
#[derive(Clone, Copy, Debug, PartialEq, Eq, Structural)]
pub struct QueuePriority {
    /// The IEEE 754 encoding of the priority.
    pub bits: u32,
}

impl QueuePriority {
    /// The priority that a queue has by default: one half.
    pub fn half() -> (priority: Self)
        ensures
            2 * scaled_value(priority.bits) == scaled_one(),
            is_finite(priority.bits),
            priority.bits == 0x3F00_0000,
    {
        proof {
            vstd::arithmetic::power2::lemma2_to64();
            vstd::arithmetic::power2::lemma_pow2_adds(24, 125);
            assert(exponent(0x3F00_0000) == 126 && fraction(0x3F00_0000) == 0);
            assert(magnitude(0x3F00_0000) == 0x80_0000 * vstd::arithmetic::power2::pow2(125));
        }
        QueuePriority { bits: 0x3F00_0000 }
    }

    /// Whether the priority is a number between zero and one, both included.
    pub fn is_in_range(&self) -> (in_range: bool)
        ensures
            in_range == in_unit_range(self.bits),
    {
        proof {
            lemma_unit_range(self.bits);
        }
        self.bits <= 0x3F80_0000 || self.bits == 0x8000_0000
    }
}

} // verus!
