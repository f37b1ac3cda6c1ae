//! Floating-point numbers as bit patterns.
//!
//! The interpreter carries a floating-point number as the 64 bits of its
//! IEEE 754 binary64 encoding: a sign, eleven bits of exponent, and
//! fifty-two bits of fraction. What it needs of such numbers without
//! computing with them is here: whether two are equal, and the conversion to
//! and from integers.

use vstd::prelude::*;
use crate::stdlib::math::bit_length;

verus! {

/// Two to the power `n`.
pub open spec fn pow2(n: nat) -> nat
    decreases n,
{
    if n == 0 {
        1
    } else {
        2 * pow2((n - 1) as nat)
    }
}

/// Whether the number is negative, by its sign bit.
pub open spec fn sign_of(bits: u64) -> bool {
    bits >= 0x8000_0000_0000_0000
}

/// The eleven bits of the exponent.
pub open spec fn exponent_of(bits: u64) -> nat {
    (bits as nat / 0x10_0000_0000_0000) % 0x800
}

/// The fifty-two bits of the fraction.
pub open spec fn fraction_of(bits: u64) -> nat {
    bits as nat % 0x10_0000_0000_0000
}

/// The significand of a finite number: the fraction, with a leading one
/// unless the number is subnormal.
pub open spec fn significand_of(bits: u64) -> nat {
    if exponent_of(bits) == 0 {
        fraction_of(bits)
    } else {
        fraction_of(bits) + 0x10_0000_0000_0000
    }
}

/// The power of two that the significand of a finite number is scaled by,
/// plus 1075.
pub open spec fn scale_of(bits: u64) -> nat {
    if exponent_of(bits) == 0 {
        1
    } else {
        exponent_of(bits)
    }
}

/// The whole part of the magnitude of a finite number.
pub open spec fn whole_of(bits: u64) -> nat {
    if scale_of(bits) >= 1075 {
        significand_of(bits) * pow2((scale_of(bits) - 1075) as nat)
    } else {
        significand_of(bits) / pow2((1075 - scale_of(bits)) as nat)
    }
}

/// The integer that a number is truncated to: its whole part with its sign,
/// the nearest integer of 64 bits where that does not fit, and 0 for a NaN.
pub open spec fn truncated(bits: u64) -> i64 {
    if exponent_of(bits) == 0x7FF && fraction_of(bits) != 0 {
        0
    } else if exponent_of(bits) == 0x7FF || whole_of(bits) >= 0x8000_0000_0000_0000 {
        if sign_of(bits) {
            i64::MIN
        } else {
            i64::MAX
        }
    } else if sign_of(bits) {
        (-(whole_of(bits) as int)) as i64
    } else {
        whole_of(bits) as i64
    }
}

/// The magnitude of an integer.
pub open spec fn magnitude_of(i: i64) -> nat {
    if i < 0 {
        (-(i as int)) as nat
    } else {
        i as nat
    }
}

/// The fifty-three bits that the magnitude `m`, which has more bits, is
/// rounded to: the bits above the lowest `extra`, and one more if what was
/// cut off is more than a half, or a half and the bits are odd.
pub open spec fn rounded_bits(m: nat, extra: nat) -> nat
    recommends
        extra >= 1,
{
    let q = m / pow2(extra);
    let r = m % pow2(extra);
    let half = pow2((extra - 1) as nat);
    if r > half || (r == half && q % 2 == 1) {
        q + 1
    } else {
        q
    }
}

/// The bit pattern of the floating-point number nearest to the integer `i`;
/// of two that are equally near, the one with the even significand.
pub open spec fn nearest(i: i64) -> u64 {
    if i == 0 {
        0
    } else {
        let m = magnitude_of(i);
        let len = bit_length(m);
        let sign: nat = if i < 0 {
            0x8000_0000_0000_0000
        } else {
            0
        };
        let significand = if len <= 53 {
            m * pow2((53 - len) as nat)
        } else {
            rounded_bits(m, (len - 53) as nat)
        };
        (sign + (1022 + len) * 0x10_0000_0000_0000 + (significand - 0x10_0000_0000_0000)) as u64
    }
}

/// The bit pattern without its sign bit.
pub open spec fn float_magnitude(bits: u64) -> int {
    if bits >= 0x8000_0000_0000_0000 {
        bits - 0x8000_0000_0000_0000
    } else {
        bits as int
    }
}

/// The bit pattern of a NaN: all exponent bits set, and a fraction that is
/// not zero.
pub open spec fn float_is_nan(bits: u64) -> bool {
    float_magnitude(bits) > 0x7FF0_0000_0000_0000
}

/// Equality of two floating-point numbers, by their bit patterns: a NaN
/// equals nothing, the two zeros equal each other, and any other number
/// equals only itself.
pub open spec fn floats_equal(a: u64, b: u64) -> bool {
    !float_is_nan(a) && !float_is_nan(b) && (a == b || (float_magnitude(a) == 0 && float_magnitude(
        b,
    ) == 0))
}

fn float_is_nan_bits(bits: u64) -> (r: bool)
    ensures
        r == float_is_nan(bits),
{
    let magnitude = if bits >= 0x8000_0000_0000_0000 {
        bits - 0x8000_0000_0000_0000
    } else {
        bits
    };
    magnitude > 0x7FF0_0000_0000_0000
}

/// Whether two floating-point numbers, given by their bit patterns, are
/// equal.
pub fn float_bits_equal(a: u64, b: u64) -> (r: bool)
    ensures
        r == floats_equal(a, b),
{
    let zero_a = a == 0 || a == 0x8000_0000_0000_0000;
    let zero_b = b == 0 || b == 0x8000_0000_0000_0000;
    !float_is_nan_bits(a) && !float_is_nan_bits(b) && (a == b || (zero_a && zero_b))
}

/// A power of two is at least one, and no less than a lower power.
pub proof fn lemma_pow2_grows(a: nat, b: nat)
    requires
        a <= b,
    ensures
        1 <= pow2(a) <= pow2(b),
    decreases b,
{
    if a < b {
        lemma_pow2_grows(a, (b - 1) as nat);
    } else if a > 0 {
        lemma_pow2_grows((a - 1) as nat, (a - 1) as nat);
    }
}

/// The powers of two that bound the parts of a number.
pub proof fn lemma_pow2_values()
    ensures
        pow2(10) == 0x400,
        pow2(11) == 0x800,
        pow2(52) == 0x10_0000_0000_0000,
        pow2(53) == 0x20_0000_0000_0000,
        pow2(63) == 0x8000_0000_0000_0000,
        pow2(64) == 0x1_0000_0000_0000_0000,
{
    reveal_with_fuel(pow2, 65);
}

/// Two to the power `n`, for `n` below 64.
pub fn power_of_two(n: u32) -> (r: u64)
    requires
        n <= 63,
    ensures
        r == pow2(n as nat),
        r >= 1,
{
    proof {
        lemma_pow2_grows(0, n as nat);
    }
    let mut p: u64 = 1;
    let mut i: u32 = 0;
    while i < n
        invariant
            i <= n <= 63,
            p == pow2(i as nat),
        decreases n - i,
    {
        proof {
            lemma_pow2_grows((i + 1) as nat, 63);
            lemma_pow2_values();
        }
        p = p * 2;
        i = i + 1;
    }
    p
}

/// The integer that the floating-point number with the bit pattern `bits`
/// is truncated to.
pub fn float_to_int(bits: u64) -> (r: i64)
    ensures
        r == truncated(bits),
{
    let negative = bits >= 0x8000_0000_0000_0000;
    let exponent = (bits / 0x10_0000_0000_0000) % 0x800;
    let fraction = bits % 0x10_0000_0000_0000;
    let limit = if negative {
        i64::MIN
    } else {
        i64::MAX
    };
    if exponent == 0x7FF {
        return if fraction != 0 {
            0
        } else {
            limit
        };
    }
    let significand = if exponent == 0 {
        fraction
    } else {
        fraction + 0x10_0000_0000_0000
    };
    let scale = if exponent == 0 {
        1
    } else {
        exponent
    };
    proof {
        lemma_pow2_values();
    }
    let whole: u64 = if scale >= 1075 {
        let up = scale - 1075;
        if up >= 11 {
            proof {
                lemma_pow2_grows(11, up as nat);
                assert(significand * pow2(up as nat) >= 0x8000_0000_0000_0000) by (nonlinear_arith)
                    requires
                        significand >= 0x10_0000_0000_0000,
                        pow2(up as nat) >= 0x800,
                ;
            }
            return limit;
        }
        let factor = power_of_two(up as u32);
        proof {
            lemma_pow2_grows(up as nat, 10);
            assert(significand * factor < 0x8000_0000_0000_0000) by (nonlinear_arith)
                requires
                    significand < 0x20_0000_0000_0000,
                    factor <= 0x400,
            ;
        }
        significand * factor
    } else {
        let down = 1075 - scale;
        if down >= 53 {
            proof {
                lemma_pow2_grows(53, down as nat);
                assert(significand as nat / pow2(down as nat) == 0) by (nonlinear_arith)
                    requires
                        significand < 0x20_0000_0000_0000,
                        pow2(down as nat) >= 0x20_0000_0000_0000,
                ;
            }
            0
        } else {
            significand / power_of_two(down as u32)
        }
    };
    if negative {
        -(whole as i64)
    } else {
        whole as i64
    }
}

/// A number between two powers of two that follow each other has as many
/// binary digits as the greater power says.
pub proof fn lemma_bit_length_between(m: nat, n: nat)
    requires
        n >= 1,
        pow2((n - 1) as nat) <= m < pow2(n),
    ensures
        bit_length(m) == n,
    decreases n,
{
    if n == 1 {
        assert(pow2(1) == 2 && pow2(0) == 1) by {
            reveal_with_fuel(pow2, 2);
        }
        assert(m == 1);
        assert(bit_length(1) == 1) by {
            reveal_with_fuel(bit_length, 2);
        }
    } else {
        lemma_pow2_grows(0, (n - 2) as nat);
        lemma_bit_length_between(m / 2, (n - 1) as nat);
    }
}

/// The number of binary digits of `m`.
fn bits_in(m: u64) -> (r: u32)
    ensures
        r == bit_length(m as nat),
        r <= 64,
        m > 0 ==> r >= 1 && pow2((r - 1) as nat) <= m,
        r < 64 ==> m < pow2(r as nat),
{
    let mut n: u32 = 0;
    let mut p: u64 = 1;
    proof {
        lemma_pow2_values();
    }
    while n < 64 && p <= m
        invariant
            n <= 64,
            n < 64 ==> p == pow2(n as nat),
            n > 0 ==> pow2((n - 1) as nat) <= m,
        decreases 64 - n,
    {
        n = n + 1;
        if n < 64 {
            proof {
                lemma_pow2_grows(n as nat, 63);
                lemma_pow2_values();
            }
            p = p * 2;
        }
    }
    proof {
        lemma_pow2_values();
        if n == 0 {
            assert(m == 0);
        } else {
            lemma_bit_length_between(m as nat, n as nat);
        }
    }
    n
}

/// The bit pattern of the floating-point number nearest to `number`.
pub fn int_to_float(number: i64) -> (r: u64)
    ensures
        r == nearest(number),
{
    if number == 0 {
        return 0;
    }
    let sign: u64 = if number < 0 {
        0x8000_0000_0000_0000
    } else {
        0
    };
    let m: u64 = if number == i64::MIN {
        0x8000_0000_0000_0000
    } else if number < 0 {
        (-number) as u64
    } else {
        number as u64
    };
    let len = bits_in(m);
    proof {
        lemma_pow2_values();
    }
    let significand: u64 = if len <= 53 {
        let factor = power_of_two(53 - len);
        proof {
            lemma_pow2_grows((53 - len) as nat, 52);
            lemma_pow2_split((len - 1) as nat, (53 - len) as nat);
            lemma_pow2_split(len as nat, (53 - len) as nat);
            assert(m * factor < pow2(53)) by (nonlinear_arith)
                requires
                    m < pow2(len as nat),
                    pow2(len as nat) * factor == pow2(53),
                    factor >= 1,
            ;
            assert(m * factor >= pow2(52)) by (nonlinear_arith)
                requires
                    m >= pow2((len - 1) as nat),
                    pow2((len - 1) as nat) * factor == pow2(52),
                    factor >= 1,
            ;
        }
        m * factor
    } else {
        let extra = len - 53;
        let unit = power_of_two(extra);
        let half = power_of_two(extra - 1);
        let q = m / unit;
        let rest = m % unit;
        proof {
            lemma_pow2_split(52, extra as nat);
            lemma_pow2_grows(extra as nat, 11);
            if len < 64 {
                lemma_pow2_split(53, extra as nat);
            }
            assert(q >= pow2(52)) by (nonlinear_arith)
                requires
                    m >= pow2(52) * unit,
                    q == m / unit,
                    unit >= 1,
            ;
            assert(q < pow2(53)) by (nonlinear_arith)
                requires
                    m < pow2(53) * unit,
                    q == m / unit,
                    unit >= 1,
            ;
        }
        if rest > half || (rest == half && q % 2 == 1) {
            q + 1
        } else {
            q
        }
    };
    sign + (1022 + len as u64) * 0x10_0000_0000_0000 + (significand - 0x10_0000_0000_0000)
}

/// The product of two powers of two is the power of the sum.
pub proof fn lemma_pow2_split(a: nat, b: nat)
    ensures
        pow2(a) * pow2(b) == pow2(a + b),
    decreases a,
{
    if a > 0 {
        let x = pow2((a - 1) as nat);
        let y = pow2(b);
        lemma_pow2_split((a - 1) as nat, b);
        assert(pow2(a) == 2 * x);
        assert(pow2(a + b) == 2 * pow2((a - 1 + b) as nat));
        assert((2 * x) * y == 2 * (x * y)) by (nonlinear_arith);
    } else {
        assert(pow2(0) == 1);
        assert(1 * pow2(b) == pow2(b));
    }
}

/// Whether the number is an infinity.
pub open spec fn is_infinite(bits: u64) -> bool {
    exponent_of(bits) == 0x7FF && fraction_of(bits) == 0
}

/// Whether the number is neither an infinity nor a NaN.
pub open spec fn is_finite(bits: u64) -> bool {
    exponent_of(bits) != 0x7FF
}

/// Whether the number is finite, not zero and not subnormal.
pub open spec fn is_normal(bits: u64) -> bool {
    exponent_of(bits) != 0 && exponent_of(bits) != 0x7FF
}

/// What is cut off a finite number when it is truncated, as a multiple of
/// the unit [`cut_unit`].
pub open spec fn cut_off(bits: u64) -> nat {
    if scale_of(bits) >= 1075 {
        0
    } else {
        significand_of(bits) % pow2((1075 - scale_of(bits)) as nat)
    }
}

/// The unit of [`cut_off`]: that many of it make one.
pub open spec fn cut_unit(bits: u64) -> nat {
    if scale_of(bits) >= 1075 {
        1
    } else {
        pow2((1075 - scale_of(bits)) as nat)
    }
}

/// The greatest integer that is not greater than the number, or what
/// [`truncated`] gives where there is none of 64 bits.
pub open spec fn floor_of(bits: u64) -> i64 {
    if is_finite(bits) && sign_of(bits) && cut_off(bits) != 0 {
        (truncated(bits) - 1) as i64
    } else {
        truncated(bits)
    }
}

/// The least integer that is not less than the number, or what
/// [`truncated`] gives where there is none of 64 bits.
pub open spec fn ceil_of(bits: u64) -> i64 {
    if is_finite(bits) && !sign_of(bits) && cut_off(bits) != 0 {
        (truncated(bits) + 1) as i64
    } else {
        truncated(bits)
    }
}

/// The integer nearest to the number, and of two that are equally near the
/// one farther from zero; or what [`truncated`] gives where there is none of
/// 64 bits.
pub open spec fn round_of(bits: u64) -> i64 {
    if is_finite(bits) && 2 * cut_off(bits) >= cut_unit(bits) {
        if sign_of(bits) {
            (truncated(bits) - 1) as i64
        } else {
            (truncated(bits) + 1) as i64
        }
    } else {
        truncated(bits)
    }
}

/// The exponent and the fraction of a bit pattern.
fn parts(bits: u64) -> (r: (u64, u64))
    ensures
        r.0 == exponent_of(bits),
        r.1 == fraction_of(bits),
        r.0 <= 0x7FF,
        r.1 < 0x10_0000_0000_0000,
{
    ((bits / 0x10_0000_0000_0000) % 0x800, bits % 0x10_0000_0000_0000)
}

/// Whether the number is a NaN.
pub fn is_nan_bits(bits: u64) -> (r: bool)
    ensures
        r == float_is_nan(bits),
{
    float_is_nan_bits(bits)
}

/// Whether the number is an infinity.
pub fn is_infinite_bits(bits: u64) -> (r: bool)
    ensures
        r == is_infinite(bits),
{
    let (exponent, fraction) = parts(bits);
    exponent == 0x7FF && fraction == 0
}

/// Whether the number is neither an infinity nor a NaN.
pub fn is_finite_bits(bits: u64) -> (r: bool)
    ensures
        r == is_finite(bits),
{
    let (exponent, _) = parts(bits);
    exponent != 0x7FF
}

/// Whether the number is finite, not zero and not subnormal.
pub fn is_normal_bits(bits: u64) -> (r: bool)
    ensures
        r == is_normal(bits),
{
    let (exponent, _) = parts(bits);
    exponent != 0 && exponent != 0x7FF
}

/// Whether the sign bit of the number is set.
pub fn is_negative_bits(bits: u64) -> (r: bool)
    ensures
        r == sign_of(bits),
{
    bits >= 0x8000_0000_0000_0000
}

/// What is cut off the finite number when it is truncated: whether it is
/// more than nothing, and whether it is a half at least.
fn cut(bits: u64) -> (r: (bool, bool))
    requires
        is_finite(bits),
    ensures
        r.0 == (cut_off(bits) != 0),
        r.1 == (2 * cut_off(bits) >= cut_unit(bits)),
        r.0 || r.1 ==> whole_of(bits) < 0x10_0000_0000_0000,
{
    let (exponent, fraction) = parts(bits);
    let significand = if exponent == 0 {
        fraction
    } else {
        fraction + 0x10_0000_0000_0000
    };
    let scale = if exponent == 0 {
        1
    } else {
        exponent
    };
    proof {
        lemma_pow2_values();
        lemma_pow2_grows(0, 0);
    }
    if scale >= 1075 {
        (false, false)
    } else {
        let down = 1075 - scale;
        if down >= 54 {
            proof {
                lemma_pow2_grows(54, down as nat);
                lemma_pow2_split(53, 1);
                assert(pow2(1) == 2) by {
                    reveal_with_fuel(pow2, 2);
                }
                assert(significand as nat % pow2(down as nat) == significand) by (nonlinear_arith)
                    requires
                        significand < 0x20_0000_0000_0000,
                        pow2(down as nat) >= 0x40_0000_0000_0000,
                ;
                assert(significand as nat / pow2(down as nat) == 0) by (nonlinear_arith)
                    requires
                        significand < 0x20_0000_0000_0000,
                        pow2(down as nat) >= 0x40_0000_0000_0000,
                ;
            }
            (significand != 0, false)
        } else {
            let unit = power_of_two(down as u32);
            let rest = significand % unit;
            proof {
                lemma_pow2_grows(1, down as nat);
                assert(pow2(1) == 2) by {
                    reveal_with_fuel(pow2, 2);
                }
                lemma_pow2_grows(down as nat, 53);
                assert(significand as nat / unit as nat <= significand / 2) by (nonlinear_arith)
                    requires
                        unit >= 2,
                ;
            }
            (rest != 0, rest >= unit - rest)
        }
    }
}

/// The greatest integer that is not greater than the number.
pub fn floor_bits(bits: u64) -> (r: i64)
    ensures
        r == floor_of(bits),
{
    let whole = float_to_int(bits);
    if is_finite_bits(bits) && is_negative_bits(bits) && cut(bits).0 {
        whole - 1
    } else {
        whole
    }
}

/// The least integer that is not less than the number.
pub fn ceil_bits(bits: u64) -> (r: i64)
    ensures
        r == ceil_of(bits),
{
    let whole = float_to_int(bits);
    if is_finite_bits(bits) && !is_negative_bits(bits) && cut(bits).0 {
        whole + 1
    } else {
        whole
    }
}

/// The integer nearest to the number; of two that are equally near, the one
/// farther from zero.
pub fn round_bits(bits: u64) -> (r: i64)
    ensures
        r == round_of(bits),
{
    let whole = float_to_int(bits);
    if is_finite_bits(bits) && cut(bits).1 {
        if is_negative_bits(bits) {
            whole - 1
        } else {
            whole + 1
        }
    } else {
        whole
    }
}

} // verus!
