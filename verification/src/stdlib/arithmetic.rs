//! Arithmetic on integers, which wraps around, and the joining of strings.

use vstd::prelude::*;
use std::rc::Rc;
use crate::error::{AresError, AresErrorView, AresResult, unexpected_arity, unexpected_type};
use crate::text::push_text;
use crate::value::{Value, ValueView, views};

verus! {

/// Whether `r` is the outcome that `expected` describes.
pub open spec fn gives(r: AresResult<Value>, expected: Result<ValueView, AresErrorView>) -> bool {
    match expected {
        Ok(v) => r.is_ok() && r->Ok_0@ == v,
        Err(e) => r.is_err() && r->Err_0@ == e,
    }
}

/// The 64-bit signed integer that is congruent to `x` modulo 2^64.
pub open spec fn wrap64(x: int) -> i64 {
    let m = x % 0x1_0000_0000_0000_0000;
    if m > i64::MAX {
        (m - 0x1_0000_0000_0000_0000) as i64
    } else {
        m as i64
    }
}

/// The quotient of `a` by `b`, rounded towards zero.
pub open spec fn truncated_quotient(a: int, b: int) -> int
    recommends
        b != 0,
{
    if a >= 0 && b > 0 {
        a / b
    } else if a < 0 && b < 0 {
        (-a) / (-b)
    } else if a < 0 {
        -((-a) / b)
    } else {
        -(a / (-b))
    }
}

/// The four operations that fold a list of integers.
#[derive(Debug, Clone, Copy, PartialEq, Eq, Structural)]
pub enum IntOp {
    Add,
    Sub,
    Mul,
    Div,
}

/// The error for an argument that is no integer.
pub open spec fn not_an_int(v: ValueView) -> AresErrorView {
    AresErrorView::UnexpectedType { value: v, expected: "Value::Int"@ }
}

/// The error for a division by zero.
pub open spec fn zero_divisor() -> AresErrorView {
    AresErrorView::UnexpectedType { value: ValueView::Int(0), expected: "a non-zero Int"@ }
}

/// The error for an operation that was given no argument and needs one.
pub open spec fn no_operand() -> AresErrorView {
    AresErrorView::UnexpectedArity { found: 0, expected: "at least 1"@ }
}

/// One step of a fold: the accumulator after the integer `v`. The first
/// integer is the accumulator itself; each further one is added to it,
/// subtracted from it, multiplied with it, or divides it.
pub open spec fn folded_one(op: IntOp, acc: Option<i64>, v: i64) -> Result<i64, AresErrorView> {
    match acc {
        None => Ok(v),
        Some(a) => match op {
            IntOp::Add => Ok(wrap64(a + v)),
            IntOp::Sub => Ok(wrap64(a - v)),
            IntOp::Mul => Ok(wrap64(a * v)),
            IntOp::Div => if v == 0 {
                Err(zero_divisor())
            } else {
                Ok(wrap64(truncated_quotient(a as int, v as int)))
            },
        },
    }
}

/// The accumulator after the first `n` arguments, which are taken from the
/// left: nothing before the first, and the first error that an argument
/// gives.
pub open spec fn folded(op: IntOp, args: Seq<ValueView>, n: int) -> Result<
    Option<i64>,
    AresErrorView,
>
    decreases n,
{
    if n <= 0 || n > args.len() {
        Ok(None)
    } else {
        match folded(op, args, n - 1) {
            Err(e) => Err(e),
            Ok(acc) => match args[n - 1] {
                ValueView::Int(v) => match folded_one(op, acc, v) {
                    Ok(a) => Ok(Some(a)),
                    Err(e) => Err(e),
                },
                other => Err(not_an_int(other)),
            },
        }
    }
}

/// The result of an operation on all its arguments. A sum of nothing is 0
/// and a product of nothing is 1; a difference and a quotient need an
/// argument. The difference of one number is its negation; that of more
/// numbers is the first less each of the others, from left to right.
pub open spec fn int_fold(op: IntOp, args: Seq<ValueView>) -> Result<ValueView, AresErrorView> {
    match folded(op, args, args.len() as int) {
        Err(e) => Err(e),
        Ok(Some(a)) => if op == IntOp::Sub && args.len() == 1 {
            Ok(ValueView::Int(wrap64(-a)))
        } else {
            Ok(ValueView::Int(a))
        },
        Ok(None) => match op {
            IntOp::Add => Ok(ValueView::Int(0)),
            IntOp::Mul => Ok(ValueView::Int(1)),
            _ => Err(no_operand()),
        },
    }
}

proof fn lemma_quotient_bound(x: int, d: int)
    requires
        x >= 0,
        d > 0,
    ensures
        0 <= x / d <= x,
{
    assert(0 <= x / d <= x) by (nonlinear_arith)
        requires
            x >= 0,
            d > 0,
    ;
}

/// The quotient of two integers, rounded towards zero, and wrapped around
/// where it does not fit.
pub fn wrapping_quotient(a: i64, b: i64) -> (r: i64)
    requires
        b != 0,
    ensures
        r == wrap64(truncated_quotient(a as int, b as int)),
{
    proof {
        let x = a as int;
        let d = b as int;
        if x >= 0 && d > 0 {
            lemma_quotient_bound(x, d);
        } else if x < 0 && d < 0 {
            lemma_quotient_bound(-x, -d);
        } else if x < 0 {
            lemma_quotient_bound(-x, d);
        } else {
            lemma_quotient_bound(x, -d);
        }
        if x == i64::MIN && d == -1 {
            assert((-x) / (-d) == -x) by (nonlinear_arith)
                requires
                    d == -1,
            ;
        }
    }
    match a.checked_div(b) {
        Some(q) => q,
        None => i64::MIN,
    }
}

fn fold_one(op: IntOp, acc: Option<i64>, v: i64) -> (r: AresResult<i64>)
    ensures
        match folded_one(op, acc, v) {
            Ok(a) => r == Ok::<i64, AresError>(a),
            Err(e) => r.is_err() && r->Err_0@ == e,
        },
{
    match acc {
        None => Ok(v),
        Some(a) => match op {
            IntOp::Add => Ok(a.wrapping_add(v)),
            IntOp::Sub => Ok(a.wrapping_sub(v)),
            IntOp::Mul => Ok(a.wrapping_mul(v)),
            IntOp::Div => {
                if v == 0 {
                    Err(unexpected_type(&Value::Int(0), "a non-zero Int"))
                } else {
                    Ok(wrapping_quotient(a, v))
                }
            },
        },
    }
}

/// An error that an argument gives is the outcome of the whole fold.
proof fn lemma_fold_error_stays(op: IntOp, args: Seq<ValueView>, k: int, n: int)
    requires
        0 <= k <= n <= args.len(),
        folded(op, args, k).is_err(),
    ensures
        folded(op, args, n) == folded(op, args, k),
    decreases n - k,
{
    if k < n {
        lemma_fold_error_stays(op, args, k, n - 1);
    }
}

fn fold_ints(op: IntOp, args: &Vec<Value>) -> (r: AresResult<Value>)
    ensures
        gives(r, int_fold(op, views(args@))),
{
    let ghost all = views(args@);
    let mut acc: Option<i64> = None;
    let mut i: usize = 0;
    while i < args.len()
        invariant
            i <= args.len(),
            all == views(args@),
            folded(op, all, i as int) == Ok::<Option<i64>, AresErrorView>(acc),
        decreases args.len() - i,
    {
        assert(all[i as int] == args@[i as int]@);
        proof {
            if folded(op, all, i + 1).is_err() {
                lemma_fold_error_stays(op, all, i + 1, all.len() as int);
            }
        }
        match &args[i] {
            Value::Int(v) => {
                match fold_one(op, acc, *v) {
                    Ok(next) => {
                        acc = Some(next);
                    },
                    Err(e) => {
                        return Err(e);
                    },
                }
            },
            other => {
                return Err(unexpected_type(other, "Value::Int"));
            },
        }
        i += 1;
    }
    match acc {
        Some(a) => {
            if op == IntOp::Sub && args.len() == 1 {
                Ok(Value::Int(0i64.wrapping_sub(a)))
            } else {
                Ok(Value::Int(a))
            }
        },
        None => match op {
            IntOp::Add => Ok(Value::Int(0)),
            IntOp::Mul => Ok(Value::Int(1)),
            _ => Err(unexpected_arity(0, "at least 1")),
        },
    }
}

/// The sum of the arguments.
pub fn add_ints(args: &Vec<Value>) -> (r: AresResult<Value>)
    ensures
        gives(r, int_fold(IntOp::Add, views(args@))),
{
    fold_ints(IntOp::Add, args)
}

/// The negation of a single argument, or the first argument less each of
/// the others, from left to right.
pub fn sub_ints(args: &Vec<Value>) -> (r: AresResult<Value>)
    ensures
        gives(r, int_fold(IntOp::Sub, views(args@))),
{
    fold_ints(IntOp::Sub, args)
}

/// The product of the arguments.
pub fn mul_ints(args: &Vec<Value>) -> (r: AresResult<Value>)
    ensures
        gives(r, int_fold(IntOp::Mul, views(args@))),
{
    fold_ints(IntOp::Mul, args)
}

/// The first argument divided by each of the others in turn.
pub fn div_ints(args: &Vec<Value>) -> (r: AresResult<Value>)
    ensures
        gives(r, int_fold(IntOp::Div, views(args@))),
{
    fold_ints(IntOp::Div, args)
}

/// The texts of the first `n` arguments, joined; the first argument that is
/// no string is an error.
pub open spec fn joined(args: Seq<ValueView>, n: int) -> Result<Seq<char>, AresErrorView>
    decreases n,
{
    if n <= 0 || n > args.len() {
        Ok(Seq::empty())
    } else {
        match joined(args, n - 1) {
            Err(e) => Err(e),
            Ok(text) => match args[n - 1] {
                ValueView::String(s) => Ok(text + s),
                other => Err(
                    AresErrorView::UnexpectedType { value: other, expected: "Value::String"@ },
                ),
            },
        }
    }
}

/// What `concat` returns: the string of all arguments joined.
pub open spec fn concat_spec(args: Seq<ValueView>) -> Result<ValueView, AresErrorView> {
    match joined(args, args.len() as int) {
        Ok(text) => Ok(ValueView::String(text)),
        Err(e) => Err(e),
    }
}

proof fn lemma_join_error_stays(args: Seq<ValueView>, k: int, n: int)
    requires
        0 <= k <= n <= args.len(),
        joined(args, k).is_err(),
    ensures
        joined(args, n) == joined(args, k),
    decreases n - k,
{
    if k < n {
        lemma_join_error_stays(args, k, n - 1);
    }
}

/// The string made of all the arguments, which are strings.
pub fn concat(args: &Vec<Value>) -> (r: AresResult<Value>)
    ensures
        gives(r, concat_spec(views(args@))),
{
    let ghost all = views(args@);
    let mut buffer = String::new();
    let mut i: usize = 0;
    while i < args.len()
        invariant
            i <= args.len(),
            all == views(args@),
            joined(all, i as int) == Ok::<Seq<char>, AresErrorView>(buffer@),
        decreases args.len() - i,
    {
        assert(all[i as int] == args@[i as int]@);
        proof {
            if joined(all, i + 1).is_err() {
                lemma_join_error_stays(all, i + 1, all.len() as int);
            }
        }
        match &args[i] {
            Value::String(s) => {
                push_text(&mut buffer, s.as_str());
            },
            other => {
                return Err(unexpected_type(other, "Value::String"));
            },
        }
        i += 1;
    }
    Ok(Value::String(Rc::new(buffer)))
}

/// The fold of two integers: the second one folded into the first.
proof fn lemma_fold_of_two(op: IntOp, a: i64, b: i64)
    ensures
        folded(op, seq![ValueView::Int(a), ValueView::Int(b)], 2) == match folded_one(
            op,
            None,
            a,
        ) {
            Ok(first) => match folded_one(op, Some(first), b) {
                Ok(second) => Ok(Some(second)),
                Err(e) => Err(e),
            },
            Err(e) => Err(e),
        },
{
    let args = seq![ValueView::Int(a), ValueView::Int(b)];
    assert(args.len() == 2);
    assert(args[0] == ValueView::Int(a));
    assert(args[1] == ValueView::Int(b));
    assert(folded(op, args, 0) == Ok::<Option<i64>, AresErrorView>(None));
    assert(folded(op, args, 1) == match folded_one(op, None, a) {
        Ok(first) => Ok::<Option<i64>, AresErrorView>(Some(first)),
        Err(e) => Err(e),
    });
}

/// For all integers `a` and `b`, `(+ a b)` is the sum wrapped around to 64
/// bits.
pub proof fn lemma_sum_wraps(a: i64, b: i64)
    ensures
        int_fold(IntOp::Add, seq![ValueView::Int(a), ValueView::Int(b)]) == Ok::<
            ValueView,
            AresErrorView,
        >(ValueView::Int(wrap64(a + b))),
{
    lemma_fold_of_two(IntOp::Add, a, b);
}

/// For all integers `a` and `b`, `(- a b)` is the difference wrapped around
/// to 64 bits.
pub proof fn lemma_difference_wraps(a: i64, b: i64)
    ensures
        int_fold(IntOp::Sub, seq![ValueView::Int(a), ValueView::Int(b)]) == Ok::<
            ValueView,
            AresErrorView,
        >(ValueView::Int(wrap64(a - b))),
{
    lemma_fold_of_two(IntOp::Sub, a, b);
}

/// `(- a)` is the negation of `a`, wrapped around to 64 bits, and `(- a b
/// c)` is `a` less `b` less `c`, each difference wrapped around.
pub proof fn lemma_difference_goes_left_to_right(a: i64, b: i64, c: i64)
    ensures
        int_fold(IntOp::Sub, seq![ValueView::Int(a)]) == Ok::<ValueView, AresErrorView>(
            ValueView::Int(wrap64(-a)),
        ),
        int_fold(IntOp::Sub, seq![ValueView::Int(a), ValueView::Int(b), ValueView::Int(c)]) == Ok::<
            ValueView,
            AresErrorView,
        >(ValueView::Int(wrap64(wrap64(a - b) - c))),
{
    let one = seq![ValueView::Int(a)];
    assert(one[0] == ValueView::Int(a));
    assert(folded(IntOp::Sub, one, 0) == Ok::<Option<i64>, AresErrorView>(None));
    let three = seq![ValueView::Int(a), ValueView::Int(b), ValueView::Int(c)];
    assert(three[0] == ValueView::Int(a));
    assert(three[1] == ValueView::Int(b));
    assert(three[2] == ValueView::Int(c));
    assert(folded(IntOp::Sub, three, 0) == Ok::<Option<i64>, AresErrorView>(None));
    assert(folded(IntOp::Sub, three, 1) == Ok::<Option<i64>, AresErrorView>(Some(a)));
    assert(folded(IntOp::Sub, three, 2) == Ok::<Option<i64>, AresErrorView>(Some(wrap64(a - b))));
}

/// For all integers `a` and `b`, `(* a b)` is the product wrapped around to
/// 64 bits.
pub proof fn lemma_product_wraps(a: i64, b: i64)
    ensures
        int_fold(IntOp::Mul, seq![ValueView::Int(a), ValueView::Int(b)]) == Ok::<
            ValueView,
            AresErrorView,
        >(ValueView::Int(wrap64(a * b))),
{
    lemma_fold_of_two(IntOp::Mul, a, b);
}

/// For all integers `a` and `b`, `(/ a b)` is the quotient, rounded towards
/// zero and wrapped around to 64 bits, and an error if `b` is zero.
pub proof fn lemma_quotient_wraps(a: i64, b: i64)
    ensures
        b != 0 ==> int_fold(IntOp::Div, seq![ValueView::Int(a), ValueView::Int(b)]) == Ok::<
            ValueView,
            AresErrorView,
        >(ValueView::Int(wrap64(truncated_quotient(a as int, b as int)))),
        b == 0 ==> int_fold(IntOp::Div, seq![ValueView::Int(a), ValueView::Int(b)]) == Err::<
            ValueView,
            AresErrorView,
        >(zero_divisor()),
{
    lemma_fold_of_two(IntOp::Div, a, b);
}

} // verus!
