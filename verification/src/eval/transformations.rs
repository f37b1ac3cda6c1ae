//! What a value does to the frame that waited for it, in a call.

use vstd::prelude::*;
use std::rc::Rc;
use crate::error::{AresError, AresResult};
use crate::eval::context::Context;
use crate::eval::foreign_function::State;
use crate::eval::frames::{StepState, rest_of};
use crate::eval::semantics;
use crate::eval::{
    apply_function,
    do_apply,
    items_from,
    lemma_rest_of,
    lemma_rest_of_end,
    lemma_views_push,
    text_of,
    transition,
};
use crate::value::{FfType, Value, views};

verus! {

/// Starts to evaluate the arguments `form[from..]` of a call of `function`,
/// or makes the call if there are none.
pub fn collect_args<S: State>(
    function: Value,
    form: Rc<Vec<Value>>,
    from: usize,
    ctx: &mut Context,
    state: &mut S,
) -> (r: AresResult<()>)
    requires
        old(ctx).wf(),
    ensures
        transition(
            *old(ctx),
            *final(ctx),
            r,
            semantics::collect_args(old(ctx)@, function@, rest_of(form@, from as int)),
        ),
{
    if from < form.len() {
        proof {
            lemma_rest_of(form@, from as int);
        }
        let first = form[from].clone();
        let evaluated: Vec<Value> = Vec::new();
        assert(views(evaluated@) =~= Seq::empty());
        ctx.push(
            StepState::ArgCollecting {
                function: function,
                evaluated: evaluated,
                form: form,
                next: from + 1,
            },
        );
        ctx.request(first);
        Ok(())
    } else {
        proof {
            lemma_rest_of_end(form@, from as int);
        }
        let none: Vec<Value> = Vec::new();
        assert(views(none@) =~= Seq::empty());
        do_apply(function, none, ctx, state)
    }
}

/// The head of the call `form` was evaluated to `function`.
pub fn from_pre_evaluated<S: State>(
    form: Rc<Vec<Value>>,
    function: Value,
    ctx: &mut Context,
    state: &mut S,
) -> (r: AresResult<()>)
    requires
        old(ctx).wf(),
    ensures
        transition(
            *old(ctx),
            *final(ctx),
            r,
            semantics::from_pre_evaluated(old(ctx)@, rest_of(form@, 1), function@),
        ),
{
    match function {
        Value::Lambda(p, m) => collect_args(Value::Lambda(p, m), form, 1, ctx, state),
        Value::ForeignFn(f) => {
            if f.typ == FfType::Ast {
                let args = items_from(&form, 1);
                apply_function(f, args, ctx, state)
            } else {
                collect_args(Value::ForeignFn(f), form, 1, ctx, state)
            }
        },
        other => Err(AresError::UnexecutableValue(other)),
    }
}

/// An argument of a call was evaluated to `completed`.
pub fn from_arg_collecting_lambda<S: State>(
    function: Value,
    form: Rc<Vec<Value>>,
    next: usize,
    evaluated: Vec<Value>,
    completed: Value,
    ctx: &mut Context,
    state: &mut S,
) -> (r: AresResult<()>)
    requires
        old(ctx).wf(),
    ensures
        transition(
            *old(ctx),
            *final(ctx),
            r,
            semantics::from_arg_collecting(
                old(ctx)@,
                function@,
                views(evaluated@),
                rest_of(form@, next as int),
                completed@,
            ),
        ),
{
    let mut evaluated = evaluated;
    proof {
        lemma_views_push(evaluated@, completed);
    }
    evaluated.push(completed);
    if next < form.len() {
        proof {
            lemma_rest_of(form@, next as int);
        }
        let first = form[next].clone();
        ctx.push(
            StepState::ArgCollecting {
                function: function,
                evaluated: evaluated,
                form: form,
                next: next + 1,
            },
        );
        ctx.request(first);
        Ok(())
    } else {
        proof {
            lemma_rest_of_end(form@, next as int);
        }
        do_apply(function, evaluated, ctx, state)
    }
}

/// A body of a closure was evaluated to `past_body_result`.
pub fn from_evaluating_lambda(
    bodies: Rc<Vec<Value>>,
    next: usize,
    name: Option<Rc<String>>,
    past_body_result: Value,
    ctx: &mut Context,
) -> (r: AresResult<()>)
    requires
        old(ctx).wf(),
    ensures
        transition(
            *old(ctx),
            *final(ctx),
            r,
            semantics::from_evaluating_lambda(
                old(ctx)@,
                text_of(name),
                rest_of(bodies@, next as int),
                past_body_result@,
            ),
        ),
{
    if next < bodies.len() {
        proof {
            lemma_rest_of(bodies@, next as int);
        }
        let body = bodies[next].clone();
        ctx.push(StepState::EvaluatingLambda { name: name, bodies: bodies, next: next + 1 });
        ctx.request(body);
    } else {
        proof {
            lemma_rest_of_end(bodies@, next as int);
        }
        ctx.complete(past_body_result);
    }
    Ok(())
}

} // verus!
