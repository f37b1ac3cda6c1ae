//! Lists: their construction piece by piece, and the walk over them.

use vstd::prelude::*;
use std::rc::Rc;
use crate::error::{AresError, AresResult, unexpected_arity, unexpected_type};
use crate::eval::context::Context;
use crate::eval::foreign_function::builtin_fn;
use crate::eval::frames::{StepState, rest_of};
use crate::eval::semantics;
use crate::eval::semantics::{added, adder};
use crate::eval::{lemma_rest_of, lemma_rest_of_end, lemma_views_push, transition};
use crate::value::{FfType, Native, Value, lemma_list_view, views};

verus! {

/// The function that adds to the list under construction `builder`: its
/// arguments, or, with `all`, the items of those that are lists.
pub fn adder_value(builder: usize, all: bool) -> (r: Value)
    ensures
        r@ == adder(builder, all),
{
    if all {
        Value::ForeignFn(builtin_fn("add-all", FfType::Free, Native::AddAll(builder)))
    } else {
        Value::ForeignFn(builtin_fn("add", FfType::Free, Native::Add(builder)))
    }
}

/// `(build-list f)`.
pub fn build_list(args: Rc<Vec<Value>>, ctx: &mut Context) -> (r: AresResult<()>)
    requires
        old(ctx).wf(),
    ensures
        transition(*old(ctx), *final(ctx), r, semantics::build_list(old(ctx)@, views(args@))),
{
    if args.len() != 1 {
        return Err(unexpected_arity(args.len(), "exactly 1"));
    }
    assert(views(args@)[0] == args@[0]@);
    let builder = ctx.builders.len();
    let empty: Vec<Value> = Vec::new();
    assert(views(empty@) =~= Seq::empty());
    let ghost before = ctx@;
    ctx.builders.push(Some(empty));
    assert(ctx@.builders =~= before.builders.push(Some(Seq::empty())));
    ctx.push(StepState::BuildList { builder: builder });
    ctx.push(StepState::BuildCall { builder: builder });
    ctx.request(args[0].clone());
    Ok(())
}

/// The function of a `build-list` was evaluated to `f`.
pub fn from_build_call(builder: usize, f: Value, ctx: &mut Context) -> (r: AresResult<()>)
    requires
        old(ctx).wf(),
    ensures
        transition(*old(ctx), *final(ctx), r, semantics::from_build_call(old(ctx)@, builder, f@)),
{
    let one = match &f {
        Value::Lambda(p, m) => {
            proof {
                crate::value::lemma_lambda_view(*p, *m);
            }
            p.param_names.params.len() == 1 && p.param_names.rest.is_none()
        },
        _ => false,
    };
    let mut call: Vec<Value> = Vec::new();
    call.push(adder_value(builder, false));
    if !one {
        call.push(adder_value(builder, true));
        assert(views(call@) =~= seq![adder(builder, false), adder(builder, true)]);
    } else {
        assert(views(call@) =~= seq![adder(builder, false)]);
    }
    ctx.push(StepState::Call { function: f, args: call });
    Ok(())
}

/// The function of a `build-list` returned.
pub fn from_build_list(builder: usize, ctx: &mut Context) -> (r: AresResult<()>)
    requires
        old(ctx).wf(),
    ensures
        transition(*old(ctx), *final(ctx), r, semantics::from_build_list(old(ctx)@, builder)),
{
    if builder < ctx.builders.len() {
        let ghost before = ctx@;
        let mut taken: Option<Vec<Value>> = None;
        std::mem::swap(&mut ctx.builders[builder], &mut taken);
        match taken {
            Some(items) => {
                assert(ctx@.builders =~= before.builders.update(builder as int, None));
                ctx.complete(Value::list(items));
                Ok(())
            },
            None => {
                assert(ctx@.builders =~= before.builders);
                Err(
                    AresError::InvalidState(
                        "build-list `add`er called after completion of build-list.".to_owned(),
                    ),
                )
            },
        }
    } else {
        Err(
            AresError::InvalidState(
                "build-list `add`er called after completion of build-list.".to_owned(),
            ),
        )
    }
}

/// An adder of a `build-list` was called with `args`.
pub fn add_to_builder(builder: usize, args: Rc<Vec<Value>>, all: bool, ctx: &mut Context) -> (r:
    AresResult<()>)
    requires
        old(ctx).wf(),
    ensures
        transition(
            *old(ctx),
            *final(ctx),
            r,
            semantics::push_to_builder(old(ctx)@, builder, views(args@), all),
        ),
{
    if args.len() < 1 {
        return Err(unexpected_arity(args.len(), "at least 1"));
    }
    if builder >= ctx.builders.len() {
        return Err(
            AresError::InvalidState(
                "build-list `add`er called after completion of build-list.".to_owned(),
            ),
        );
    }
    let ghost before = ctx@;
    let ghost a = views(args@);
    let mut taken: Option<Vec<Value>> = None;
    std::mem::swap(&mut ctx.builders[builder], &mut taken);
    match taken {
        Some(items) => {
            let mut items = items;
            let ghost start = views(items@);
            assert(start + added(a, all, 0) =~= start);
            let mut i: usize = 0;
            while i < args.len()
                invariant
                    i <= args.len(),
                    a == views(args@),
                    views(items@) == start + added(a, all, i as int),
                decreases args.len() - i,
            {
                assert(a[i as int] == args@[i as int]@);
                if all {
                    match &args[i] {
                        Value::List(list) => {
                            proof {
                                lemma_list_view(*list);
                            }
                            let ghost base = items@;
                            let mut j: usize = 0;
                            while j < list.len()
                                invariant
                                    j <= list.len(),
                                    items@ == base + list@.take(j as int),
                                decreases list.len() - j,
                            {
                                items.push(list[j].clone());
                                assert(list@.take(j + 1) == list@.take(j as int).push(
                                    list@[j as int],
                                ));
                                j += 1;
                            }
                            assert(list@.take(list@.len() as int) == list@);
                            assert(views(items@) =~= views(base) + views(list@));
                            assert(views(items@) =~= start + (added(a, all, i as int) + views(
                                list@,
                            )));
                        },
                        _ => {},
                    }
                } else {
                    proof {
                        lemma_views_push(items@, args@[i as int]);
                        assert(start + added(a, all, i as int).push(a[i as int]) =~= (start + added(
                            a,
                            all,
                            i as int,
                        )).push(a[i as int]));
                    }
                    items.push(args[i].clone());
                }
                i += 1;
            }
            let last = args[args.len() - 1].clone();
            assert(a.last() == last@);
            let mut filled = Some(items);
            std::mem::swap(&mut ctx.builders[builder], &mut filled);
            assert(ctx@.builders =~= before.builders.update(
                builder as int,
                Some(start + added(a, all, a.len() as int)),
            ));
            ctx.complete(last);
            Ok(())
        },
        None => {
            assert(ctx@.builders =~= before.builders);
            Err(
                AresError::InvalidState(
                    "build-list `add`er called after completion of build-list.".to_owned(),
                ),
            )
        },
    }
}

/// Calls the function of a `for-each` on the next item, or returns the
/// count.
pub fn foreach_next(function: Value, list: Rc<Vec<Value>>, next: usize, count: i64, ctx: &mut Context)
    -> (r: AresResult<()>)
    requires
        old(ctx).wf(),
    ensures
        transition(
            *old(ctx),
            *final(ctx),
            r,
            semantics::foreach_next(old(ctx)@, function@, rest_of(list@, next as int), count),
        ),
{
    if next < list.len() {
        proof {
            lemma_rest_of(list@, next as int);
        }
        let mut args: Vec<Value> = Vec::new();
        args.push(list[next].clone());
        assert(views(args@) =~= seq![list@[next as int]@]);
        ctx.push(
            StepState::ForEach { function: function.clone(), list: list, next: next + 1, count: count },
        );
        ctx.push(StepState::Call { function: function, args: args });
    } else {
        proof {
            lemma_rest_of_end(list@, next as int);
        }
        ctx.complete(Value::Int(count));
    }
    Ok(())
}

/// `(for-each list f)`.
pub fn foreach(args: Rc<Vec<Value>>, ctx: &mut Context) -> (r: AresResult<()>)
    requires
        old(ctx).wf(),
    ensures
        transition(*old(ctx), *final(ctx), r, semantics::foreach(old(ctx)@, views(args@))),
{
    if args.len() != 2 {
        return Err(unexpected_arity(args.len(), "exactly 2"));
    }
    assert(views(args@)[0] == args@[0]@);
    assert(views(args@)[1] == args@[1]@);
    match &args[0] {
        Value::List(list) => {
            proof {
                lemma_list_view(*list);
                if list@.len() > 0 {
                    lemma_rest_of(list@, 0);
                } else {
                    lemma_rest_of_end(list@, 0);
                }
            }
            foreach_next(args[1].clone(), crate::value::share(list), 0, 0, ctx)
        },
        other => Err(unexpected_type(other, "List")),
    }
}

/// The function of a `for-each` returned.
pub fn from_foreach(function: Value, list: Rc<Vec<Value>>, next: usize, count: i64, ctx: &mut Context)
    -> (r: AresResult<()>)
    requires
        old(ctx).wf(),
    ensures
        transition(
            *old(ctx),
            *final(ctx),
            r,
            semantics::from_foreach(old(ctx)@, function@, rest_of(list@, next as int), count),
        ),
{
    let count = if count < i64::MAX {
        count + 1
    } else {
        count
    };
    foreach_next(function, list, next, count, ctx)
}

} // verus!
