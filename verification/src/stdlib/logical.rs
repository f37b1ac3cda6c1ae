//! `and`, `or` and `xor`, which evaluate no more of their arguments than
//! they need.

use vstd::prelude::*;
use std::rc::Rc;
use crate::error::{AresResult, unexpected_type};
use crate::eval::context::Context;
use crate::eval::frames::{StepState, rest_of};
use crate::eval::semantics;
use crate::eval::{lemma_rest_of, lemma_rest_of_end, transition};
use crate::value::{Value, views};

verus! {

/// Evaluates the next argument of an `and`, or returns true.
pub fn and_next(form: Rc<Vec<Value>>, next: usize, ctx: &mut Context) -> (r: AresResult<()>)
    requires
        old(ctx).wf(),
    ensures
        transition(
            *old(ctx),
            *final(ctx),
            r,
            semantics::and_next(old(ctx)@, rest_of(form@, next as int)),
        ),
{
    if next < form.len() {
        proof {
            lemma_rest_of(form@, next as int);
        }
        let first = form[next].clone();
        ctx.push(StepState::And { form: form, next: next + 1 });
        ctx.request(first);
    } else {
        proof {
            lemma_rest_of_end(form@, next as int);
        }
        ctx.complete(Value::Bool(true));
    }
    Ok(())
}

/// `(and x ..)`.
pub fn and(args: Rc<Vec<Value>>, ctx: &mut Context) -> (r: AresResult<()>)
    requires
        old(ctx).wf(),
    ensures
        transition(*old(ctx), *final(ctx), r, semantics::and_next(old(ctx)@, views(args@))),
{
    proof {
        if args@.len() > 0 {
            lemma_rest_of(args@, 0);
        } else {
            lemma_rest_of_end(args@, 0);
        }
    }
    and_next(args, 0, ctx)
}

/// An argument of an `and` was evaluated to `v`.
pub fn from_and(form: Rc<Vec<Value>>, next: usize, v: Value, ctx: &mut Context) -> (r: AresResult<
    (),
>)
    requires
        old(ctx).wf(),
    ensures
        transition(
            *old(ctx),
            *final(ctx),
            r,
            semantics::from_and(old(ctx)@, rest_of(form@, next as int), v@),
        ),
{
    match v {
        Value::Bool(b) => {
            if b {
                and_next(form, next, ctx)
            } else {
                ctx.complete(Value::Bool(false));
                Ok(())
            }
        },
        other => Err(unexpected_type(&other, "Bool")),
    }
}

/// Evaluates the next argument of an `or`, or returns false.
pub fn or_next(form: Rc<Vec<Value>>, next: usize, ctx: &mut Context) -> (r: AresResult<()>)
    requires
        old(ctx).wf(),
    ensures
        transition(
            *old(ctx),
            *final(ctx),
            r,
            semantics::or_next(old(ctx)@, rest_of(form@, next as int)),
        ),
{
    if next < form.len() {
        proof {
            lemma_rest_of(form@, next as int);
        }
        let first = form[next].clone();
        ctx.push(StepState::Or { form: form, next: next + 1 });
        ctx.request(first);
    } else {
        proof {
            lemma_rest_of_end(form@, next as int);
        }
        ctx.complete(Value::Bool(false));
    }
    Ok(())
}

/// `(or x ..)`.
pub fn or(args: Rc<Vec<Value>>, ctx: &mut Context) -> (r: AresResult<()>)
    requires
        old(ctx).wf(),
    ensures
        transition(*old(ctx), *final(ctx), r, semantics::or_next(old(ctx)@, views(args@))),
{
    proof {
        if args@.len() > 0 {
            lemma_rest_of(args@, 0);
        } else {
            lemma_rest_of_end(args@, 0);
        }
    }
    or_next(args, 0, ctx)
}

/// An argument of an `or` was evaluated to `v`.
pub fn from_or(form: Rc<Vec<Value>>, next: usize, v: Value, ctx: &mut Context) -> (r: AresResult<()>)
    requires
        old(ctx).wf(),
    ensures
        transition(
            *old(ctx),
            *final(ctx),
            r,
            semantics::from_or(old(ctx)@, rest_of(form@, next as int), v@),
        ),
{
    match v {
        Value::Bool(b) => {
            if b {
                ctx.complete(Value::Bool(true));
                Ok(())
            } else {
                or_next(form, next, ctx)
            }
        },
        other => Err(unexpected_type(&other, "Bool")),
    }
}

/// Evaluates the next argument of an `xor`, or returns false.
pub fn xor_next(
    form: Rc<Vec<Value>>,
    next: usize,
    found_true: bool,
    found_false: bool,
    ctx: &mut Context,
) -> (r: AresResult<()>)
    requires
        old(ctx).wf(),
    ensures
        transition(
            *old(ctx),
            *final(ctx),
            r,
            semantics::xor_next(old(ctx)@, rest_of(form@, next as int), found_true, found_false),
        ),
{
    if next < form.len() {
        proof {
            lemma_rest_of(form@, next as int);
        }
        let first = form[next].clone();
        ctx.push(
            StepState::Xor {
                form: form,
                next: next + 1,
                found_true: found_true,
                found_false: found_false,
            },
        );
        ctx.request(first);
    } else {
        proof {
            lemma_rest_of_end(form@, next as int);
        }
        ctx.complete(Value::Bool(false));
    }
    Ok(())
}

/// `(xor x ..)`.
pub fn xor(args: Rc<Vec<Value>>, ctx: &mut Context) -> (r: AresResult<()>)
    requires
        old(ctx).wf(),
    ensures
        transition(
            *old(ctx),
            *final(ctx),
            r,
            semantics::xor_next(old(ctx)@, views(args@), false, false),
        ),
{
    proof {
        if args@.len() > 0 {
            lemma_rest_of(args@, 0);
        } else {
            lemma_rest_of_end(args@, 0);
        }
    }
    xor_next(args, 0, false, false, ctx)
}

/// An argument of an `xor` was evaluated to `v`.
pub fn from_xor(
    form: Rc<Vec<Value>>,
    next: usize,
    found_true: bool,
    found_false: bool,
    v: Value,
    ctx: &mut Context,
) -> (r: AresResult<()>)
    requires
        old(ctx).wf(),
    ensures
        transition(
            *old(ctx),
            *final(ctx),
            r,
            semantics::from_xor(
                old(ctx)@,
                rest_of(form@, next as int),
                found_true,
                found_false,
                v@,
            ),
        ),
{
    match v {
        Value::Bool(b) => {
            if (b && found_false) || (!b && found_true) {
                ctx.complete(Value::Bool(true));
                Ok(())
            } else {
                xor_next(form, next, found_true || b, found_false || !b, ctx)
            }
        },
        other => Err(unexpected_type(&other, "Bool")),
    }
}

} // verus!
