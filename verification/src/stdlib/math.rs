//! Functions of one integer.

use vstd::prelude::*;
use crate::error::{AresErrorView, AresResult, unexpected_arity, unexpected_type};
use crate::float::{
    ceil_bits,
    ceil_of,
    float_is_nan,
    float_to_int,
    floor_bits,
    floor_of,
    is_finite_bits,
    is_infinite_bits,
    is_nan_bits,
    is_negative_bits,
    is_normal_bits,
    round_bits,
    round_of,
    sign_of,
    truncated,
};
use crate::stdlib::types::arity_error;
use crate::eval::semantics::int_method;
use crate::stdlib::arithmetic::{gives, wrap64};
use crate::value::{Value, ValueView, views};

verus! {

fn int_argument(values: &Vec<Value>) -> (r: AresResult<i64>)
    ensures
        forall|f: spec_fn(i64) -> ValueView|
            match #[trigger] int_method(views(values@), f) {
                Ok(v) => r.is_ok() && f(r->Ok_0) == v,
                Err(e) => r.is_err() && r->Err_0@ == e,
            },
{
    if values.len() != 1 {
        return Err(unexpected_arity(values.len(), "exactly 1"));
    }
    assert(views(values@)[0] == values@[0]@);
    match &values[0] {
        Value::Int(v) => Ok(*v),
        other => Err(unexpected_type(other, "Value::Int")),
    }
}

/// The absolute value, which wraps around for the least integer.
pub fn abs(values: &Vec<Value>) -> (r: AresResult<Value>)
    ensures
        gives(r, int_method(views(values@), |v: i64| ValueView::Int(wrap64(if v < 0 {
            -v
        } else {
            v as int
        })))),
{
    match int_argument(values) {
        Ok(v) => Ok(
            Value::Int(
                if v < 0 {
                    0i64.wrapping_sub(v)
                } else {
                    v
                },
            ),
        ),
        Err(e) => Err(e),
    }
}

/// The sign: -1, 0 or 1.
pub fn signum(values: &Vec<Value>) -> (r: AresResult<Value>)
    ensures
        gives(r, int_method(views(values@), |v: i64| ValueView::Int(if v < 0 {
            (-1) as i64
        } else if v == 0 {
            0i64
        } else {
            1i64
        }))),
{
    match int_argument(values) {
        Ok(v) => Ok(
            Value::Int(
                if v < 0 {
                    -1
                } else if v == 0 {
                    0
                } else {
                    1
                },
            ),
        ),
        Err(e) => Err(e),
    }
}

/// Whether the integer is greater than zero.
pub fn is_positive(values: &Vec<Value>) -> (r: AresResult<Value>)
    ensures
        gives(r, int_method(views(values@), |v: i64| ValueView::Bool(v > 0))),
{
    match int_argument(values) {
        Ok(v) => Ok(Value::Bool(v > 0)),
        Err(e) => Err(e),
    }
}

/// Whether the integer is less than zero.
pub fn is_negative(values: &Vec<Value>) -> (r: AresResult<Value>)
    ensures
        gives(r, int_method(views(values@), |v: i64| ValueView::Bool(v < 0))),
{
    match int_argument(values) {
        Ok(v) => Ok(Value::Bool(v < 0)),
        Err(e) => Err(e),
    }
}

/// The bits of an integer, as the number below 2^64 that is congruent to
/// it.
pub open spec fn bits_of(v: i64) -> nat {
    if v < 0 {
        (v + 0x1_0000_0000_0000_0000) as nat
    } else {
        v as nat
    }
}

/// How many digits of `x`, written in base 2, are 1.
pub open spec fn ones(x: nat) -> nat
    decreases x,
{
    if x == 0 {
        0
    } else {
        x % 2 + ones(x / 2)
    }
}

/// How many digits `x` has, written in base 2 without leading zeros.
pub open spec fn bit_length(x: nat) -> nat
    decreases x,
{
    if x == 0 {
        0
    } else {
        1 + bit_length(x / 2)
    }
}

/// How many zeros end `x`, written in base 2; none end 0.
pub open spec fn low_zeros(x: nat) -> nat
    decreases x,
{
    if x == 0 || x % 2 == 1 {
        0
    } else {
        1 + low_zeros(x / 2)
    }
}

/// The number whose eight bytes are those of `x` in the opposite order.
pub open spec fn swapped(x: nat) -> nat {
    (x % 0x100) * 0x100_0000_0000_0000 + (x / 0x100 % 0x100) * 0x1_0000_0000_0000 + (x / 0x1_0000
        % 0x100) * 0x100_0000_0000 + (x / 0x100_0000 % 0x100) * 0x1_0000_0000 + (x / 0x1_0000_0000
        % 0x100) * 0x100_0000 + (x / 0x100_0000_0000 % 0x100) * 0x1_0000 + (x / 0x1_0000_0000_0000
        % 0x100) * 0x100 + (x / 0x100_0000_0000_0000 % 0x100)
}

/// The integer with the bytes of `v` in the opposite order.
pub open spec fn swapped_int(v: i64) -> i64 {
    wrap64(swapped(bits_of(v)) as int)
}

fn bits(v: i64) -> (r: u64)
    ensures
        r == bits_of(v),
{
    if v >= 0 {
        v as u64
    } else {
        ((v + 1 + i64::MAX) as u64) + 0x8000_0000_0000_0000u64
    }
}

fn count_ones_of(v: i64) -> (r: i64)
    ensures
        r == ones(bits_of(v)),
        0 <= r <= 64,
{
    let mut x = bits(v);
    let mut n: i64 = 0;
    let mut left: u32 = 64;
    let ghost all = bits_of(v);
    proof {
        lemma_pow2_of_64();
    }
    while x > 0
        invariant
            ones(all) == n + ones(x as nat),
            0 <= n <= 64 - left,
            left <= 64,
            x < pow2_64(left as nat),
        decreases x,
    {
        proof {
            lemma_pow2_step(left as nat, x as nat);
        }
        n = n + (x % 2) as i64;
        x = x / 2;
        left = left - 1;
    }
    n
}

/// Two to the power `n`, for `n` up to 64.
pub open spec fn pow2_64(n: nat) -> nat
    decreases n,
{
    if n == 0 {
        1
    } else {
        2 * pow2_64((n - 1) as nat)
    }
}

proof fn lemma_pow2_step(left: nat, x: nat)
    requires
        0 < x < pow2_64(left),
    ensures
        left > 0,
        x / 2 < pow2_64((left - 1) as nat),
{
}

proof fn lemma_pow2_of_64()
    ensures
        pow2_64(64) == 0x1_0000_0000_0000_0000,
{
    reveal_with_fuel(pow2_64, 65);
}

fn bit_length_of(v: i64) -> (r: i64)
    ensures
        r == bit_length(bits_of(v)),
        0 <= r <= 64,
{
    let mut x = bits(v);
    let mut n: i64 = 0;
    let mut left: u32 = 64;
    let ghost all = bits_of(v);
    proof {
        lemma_pow2_of_64();
    }
    while x > 0
        invariant
            bit_length(all) == n + bit_length(x as nat),
            0 <= n <= 64 - left,
            left <= 64,
            x < pow2_64(left as nat),
        decreases x,
    {
        proof {
            lemma_pow2_step(left as nat, x as nat);
        }
        n = n + 1;
        x = x / 2;
        left = left - 1;
    }
    n
}

fn low_zeros_of(v: i64) -> (r: i64)
    ensures
        r == low_zeros(bits_of(v)),
        0 <= r <= 64,
{
    let mut x = bits(v);
    let mut n: i64 = 0;
    let mut left: u32 = 64;
    let ghost all = bits_of(v);
    proof {
        lemma_pow2_of_64();
    }
    while x > 0 && x % 2 == 0
        invariant
            low_zeros(all) == n + low_zeros(x as nat),
            0 <= n <= 64 - left,
            left <= 64,
            x < pow2_64(left as nat),
        decreases x,
    {
        proof {
            lemma_pow2_step(left as nat, x as nat);
        }
        n = n + 1;
        x = x / 2;
        left = left - 1;
    }
    n
}

/// The integer with the bytes of `v` in the opposite order.
#[verifier::rlimit(80)]
#[verifier::spinoff_prover]
pub fn swap_bytes_of(v: i64) -> (r: i64)
    ensures
        r == swapped_int(v),
{
    let x = bits(v);
    let y: u64 = (x % 0x100) * 0x100_0000_0000_0000 + (x / 0x100 % 0x100) * 0x1_0000_0000_0000 + (x
        / 0x1_0000 % 0x100) * 0x100_0000_0000 + (x / 0x100_0000 % 0x100) * 0x1_0000_0000 + (x
        / 0x1_0000_0000 % 0x100) * 0x100_0000 + (x / 0x100_0000_0000 % 0x100) * 0x1_0000 + (x
        / 0x1_0000_0000_0000 % 0x100) * 0x100 + (x / 0x100_0000_0000_0000 % 0x100);
    if y < 0x8000_0000_0000_0000 {
        y as i64
    } else {
        ((y - 0x8000_0000_0000_0000) as i64) + i64::MIN
    }
}

/// `i64::to_be`: the integer itself on a machine that stores the most
/// significant byte first, and the integer with its bytes in the opposite
/// order on every other machine.
#[verifier::external_body]
fn to_big_endian(v: i64) -> (r: i64)
    ensures
        r == v || r == swapped_int(v),
{
    v.to_be()
}

/// `i64::to_le`: the integer itself on a machine that stores the least
/// significant byte first, and the integer with its bytes in the opposite
/// order on every other machine.
#[verifier::external_body]
fn to_little_endian(v: i64) -> (r: i64)
    ensures
        r == v || r == swapped_int(v),
{
    v.to_le()
}

/// How many bits of the integer are 1.
pub fn count_ones(values: &Vec<Value>) -> (r: AresResult<Value>)
    ensures
        gives(r, int_method(views(values@), |v: i64| ValueView::Int(ones(bits_of(v)) as i64))),
{
    match int_argument(values) {
        Ok(v) => Ok(Value::Int(count_ones_of(v))),
        Err(e) => Err(e),
    }
}

/// How many bits of the integer are 0.
pub fn count_zeros(values: &Vec<Value>) -> (r: AresResult<Value>)
    ensures
        gives(
            r,
            int_method(views(values@), |v: i64| ValueView::Int((64 - ones(bits_of(v))) as i64)),
        ),
{
    match int_argument(values) {
        Ok(v) => Ok(Value::Int(64 - count_ones_of(v))),
        Err(e) => Err(e),
    }
}

/// How many zeros begin the 64 bits of the integer.
pub fn leading_zeros(values: &Vec<Value>) -> (r: AresResult<Value>)
    ensures
        gives(
            r,
            int_method(
                views(values@),
                |v: i64| ValueView::Int((64 - bit_length(bits_of(v))) as i64),
            ),
        ),
{
    match int_argument(values) {
        Ok(v) => Ok(Value::Int(64 - bit_length_of(v))),
        Err(e) => Err(e),
    }
}

/// How many zeros end the 64 bits of the integer.
pub fn trailing_zeros(values: &Vec<Value>) -> (r: AresResult<Value>)
    ensures
        gives(r, int_method(views(values@), |v: i64| ValueView::Int(if v == 0 {
            64i64
        } else {
            low_zeros(bits_of(v)) as i64
        }))),
{
    match int_argument(values) {
        Ok(v) => Ok(
            Value::Int(
                if v == 0 {
                    64
                } else {
                    low_zeros_of(v)
                },
            ),
        ),
        Err(e) => Err(e),
    }
}

/// The integer with its bytes in the opposite order.
pub fn swap_bytes(values: &Vec<Value>) -> (r: AresResult<Value>)
    ensures
        gives(r, int_method(views(values@), |v: i64| ValueView::Int(swapped_int(v)))),
{
    match int_argument(values) {
        Ok(v) => Ok(Value::Int(swap_bytes_of(v))),
        Err(e) => Err(e),
    }
}

/// The integer with its most significant byte first, as the machine stores
/// it: the integer itself, or the integer with its bytes in the opposite
/// order.
pub fn to_be(values: &Vec<Value>) -> (r: AresResult<Value>)
    ensures
        gives(r, int_method(views(values@), |v: i64| ValueView::Int(v))) || gives(
            r,
            int_method(views(values@), |v: i64| ValueView::Int(swapped_int(v))),
        ),
{
    match int_argument(values) {
        Ok(v) => Ok(Value::Int(to_big_endian(v))),
        Err(e) => Err(e),
    }
}

/// The integer with its least significant byte first, as the machine stores
/// it: the integer itself, or the integer with its bytes in the opposite
/// order.
pub fn to_le(values: &Vec<Value>) -> (r: AresResult<Value>)
    ensures
        gives(r, int_method(views(values@), |v: i64| ValueView::Int(v))) || gives(
            r,
            int_method(views(values@), |v: i64| ValueView::Int(swapped_int(v))),
        ),
{
    match int_argument(values) {
        Ok(v) => Ok(Value::Int(to_little_endian(v))),
        Err(e) => Err(e),
    }
}

/// A function of one floating-point number.
pub open spec fn float_method(args: Seq<ValueView>, f: spec_fn(u64) -> ValueView) -> Result<
    ValueView,
    AresErrorView,
> {
    if args.len() != 1 {
        Err(arity_error(args.len() as int, "exactly 1"@))
    } else {
        match args[0] {
            ValueView::Float(v) => Ok(f(v)),
            other => Err(
                AresErrorView::UnexpectedType { value: other, expected: "Value::Float"@ },
            ),
        }
    }
}

fn float_argument(values: &Vec<Value>) -> (r: AresResult<u64>)
    ensures
        forall|f: spec_fn(u64) -> ValueView|
            match #[trigger] float_method(views(values@), f) {
                Ok(v) => r.is_ok() && f(r->Ok_0) == v,
                Err(e) => r.is_err() && r->Err_0@ == e,
            },
{
    if values.len() != 1 {
        return Err(unexpected_arity(values.len(), "exactly 1"));
    }
    assert(views(values@)[0] == values@[0]@);
    match &values[0] {
        Value::Float(v) => Ok(*v),
        other => Err(unexpected_type(other, "Value::Float")),
    }
}

/// Whether the number is a NaN.
pub fn is_nan(values: &Vec<Value>) -> (r: AresResult<Value>)
    ensures
        gives(r, float_method(views(values@), |v: u64| ValueView::Bool(float_is_nan(v)))),
{
    match float_argument(values) {
        Ok(v) => Ok(Value::Bool(is_nan_bits(v))),
        Err(e) => Err(e),
    }
}

/// Whether the number is an infinity.
pub fn is_infinite(values: &Vec<Value>) -> (r: AresResult<Value>)
    ensures
        gives(r, float_method(views(values@), |v: u64| ValueView::Bool(crate::float::is_infinite(v)))),
{
    match float_argument(values) {
        Ok(v) => Ok(Value::Bool(is_infinite_bits(v))),
        Err(e) => Err(e),
    }
}

/// Whether the number is neither an infinity nor a NaN.
pub fn is_finite(values: &Vec<Value>) -> (r: AresResult<Value>)
    ensures
        gives(r, float_method(views(values@), |v: u64| ValueView::Bool(crate::float::is_finite(v)))),
{
    match float_argument(values) {
        Ok(v) => Ok(Value::Bool(is_finite_bits(v))),
        Err(e) => Err(e),
    }
}

/// Whether the number is finite, not zero and not subnormal.
pub fn is_normal(values: &Vec<Value>) -> (r: AresResult<Value>)
    ensures
        gives(r, float_method(views(values@), |v: u64| ValueView::Bool(crate::float::is_normal(v)))),
{
    match float_argument(values) {
        Ok(v) => Ok(Value::Bool(is_normal_bits(v))),
        Err(e) => Err(e),
    }
}

/// Whether the sign bit of the number is clear.
pub fn is_sign_positive(values: &Vec<Value>) -> (r: AresResult<Value>)
    ensures
        gives(r, float_method(views(values@), |v: u64| ValueView::Bool(!sign_of(v)))),
{
    match float_argument(values) {
        Ok(v) => Ok(Value::Bool(!is_negative_bits(v))),
        Err(e) => Err(e),
    }
}

/// Whether the sign bit of the number is set.
pub fn is_sign_negative(values: &Vec<Value>) -> (r: AresResult<Value>)
    ensures
        gives(r, float_method(views(values@), |v: u64| ValueView::Bool(sign_of(v)))),
{
    match float_argument(values) {
        Ok(v) => Ok(Value::Bool(is_negative_bits(v))),
        Err(e) => Err(e),
    }
}

/// The greatest integer that is not greater than the number.
pub fn floor(values: &Vec<Value>) -> (r: AresResult<Value>)
    ensures
        gives(r, float_method(views(values@), |v: u64| ValueView::Int(floor_of(v)))),
{
    match float_argument(values) {
        Ok(v) => Ok(Value::Int(floor_bits(v))),
        Err(e) => Err(e),
    }
}

/// The least integer that is not less than the number.
pub fn ceil(values: &Vec<Value>) -> (r: AresResult<Value>)
    ensures
        gives(r, float_method(views(values@), |v: u64| ValueView::Int(ceil_of(v)))),
{
    match float_argument(values) {
        Ok(v) => Ok(Value::Int(ceil_bits(v))),
        Err(e) => Err(e),
    }
}

/// The integer nearest to the number.
pub fn round(values: &Vec<Value>) -> (r: AresResult<Value>)
    ensures
        gives(r, float_method(views(values@), |v: u64| ValueView::Int(round_of(v)))),
{
    match float_argument(values) {
        Ok(v) => Ok(Value::Int(round_bits(v))),
        Err(e) => Err(e),
    }
}

/// The whole part of the number.
pub fn trunc(values: &Vec<Value>) -> (r: AresResult<Value>)
    ensures
        gives(r, float_method(views(values@), |v: u64| ValueView::Int(truncated(v)))),
{
    match float_argument(values) {
        Ok(v) => Ok(Value::Int(float_to_int(v))),
        Err(e) => Err(e),
    }
}

} // verus!
