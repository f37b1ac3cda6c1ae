//! The evaluator: a machine that works off a stack of frames.

pub mod context;
pub mod environment;
pub mod foreign_function;
pub mod frames;
pub mod procedure;
pub mod semantics;
pub mod transformations;

use vstd::prelude::*;
use std::rc::Rc;
use crate::error::{AresError, AresErrorView, AresResult};
use crate::eval::context::{Context, extends, same_heap};
use crate::eval::foreign_function::State;
use crate::eval::frames::{FrameView, MachineView, StepState, rest_of};
use crate::eval::semantics::{Outcome, Step, any_ast, is_ast, run, stepped};
use crate::intern::{grown, lemma_grown_twice};
use crate::value::{
    FfType,
    ForeignFunction,
    Procedure,
    Value,
    ValueView,
    lemma_bodies_view,
    lemma_lambda_view,
    lemma_list_view,
    views,
};

verus! {

/// Whether a function that was meant to take the step `s` from `pre` has
/// done so: the machine and the result are what the step leads to, the
/// frames that were on the stack are still there, and the state is well
/// formed.
pub open spec fn transition(pre: Context, post: Context, r: AresResult<()>, s: Step) -> bool {
    &&& stepped(pre@, post@, r, s)
    &&& post.wf()
    &&& extends(pre@, post@)
    &&& post@.scopes.len() >= pre@.scopes.len()
    &&& grown(pre@.names, post@.names)
    &&& post.step_limit == pre.step_limit
}

/// The text of a name, if there is one.
pub open spec fn text_of(name: Option<Rc<String>>) -> Option<Seq<char>> {
    match name {
        Some(n) => Some(n@),
        None => None,
    }
}

/// The first of the items that are left of a list, and the items after it.
pub proof fn lemma_rest_of(items: Seq<Value>, next: int)
    requires
        0 <= next < items.len(),
    ensures
        rest_of(items, next).len() == items.len() - next,
        rest_of(items, next)[0] == items[next]@,
        rest_of(items, next).skip(1) == rest_of(items, next + 1),
        rest_of(items, 0) == views(items),
{
    assert(rest_of(items, next).skip(1) =~= rest_of(items, next + 1));
    assert(rest_of(items, 0) =~= views(items));
}

/// Nothing is left of a list from its end on.
pub proof fn lemma_rest_of_end(items: Seq<Value>, next: int)
    requires
        next >= items.len(),
    ensures
        rest_of(items, next).len() == 0,
        rest_of(items, 0) == views(items),
{
    assert(rest_of(items, 0) =~= views(items));
}

/// The views of a list with one more item.
pub proof fn lemma_views_push(items: Seq<Value>, v: Value)
    ensures
        views(items.push(v)) == views(items).push(v@),
{
    assert(views(items.push(v)) =~= views(items).push(v@));
}

/// Whether `v` is a special form.
pub fn is_ast_value(v: &Value) -> (r: bool)
    ensures
        r == is_ast(v@),
{
    match v {
        Value::ForeignFn(f) => f.typ == FfType::Ast,
        _ => false,
    }
}

/// Whether one of the values is a special form.
pub fn has_ast(args: &Vec<Value>) -> (r: bool)
    ensures
        r == any_ast(views(args@), args@.len() as int),
{
    let ghost all = views(args@);
    let mut i: usize = 0;
    let mut found = false;
    while i < args.len()
        invariant
            i <= args.len(),
            all == views(args@),
            found == any_ast(all, i as int),
        decreases args.len() - i,
    {
        assert(all[i as int] == args@[i as int]@);
        if is_ast_value(&args[i]) {
            found = true;
        }
        i += 1;
    }
    found
}

/// The items of a list from the index `from` on.
pub fn items_from(form: &Rc<Vec<Value>>, from: usize) -> (r: Vec<Value>)
    ensures
        views(r@) == rest_of(form@, from as int),
{
    let mut out: Vec<Value> = Vec::new();
    if from > form.len() {
        assert(views(out@) =~= rest_of(form@, from as int));
        return out;
    }
    let mut i: usize = from;
    while i < form.len()
        invariant
            from <= i <= form.len(),
            out@ == form@.subrange(from as int, i as int),
        decreases form.len() - i,
    {
        out.push(form[i].clone());
        i += 1;
    }
    assert(views(out@) =~= rest_of(form@, from as int));
    out
}

/// Evaluates the bodies of `bodies` from the index `from` on, one after the
/// other.
pub fn sequence(ctx: &mut Context, name: Option<Rc<String>>, bodies: Rc<Vec<Value>>, from: usize)
    -> (r: AresResult<()>)
    requires
        old(ctx).wf(),
    ensures
        transition(
            *old(ctx),
            *final(ctx),
            r,
            semantics::sequence(old(ctx)@, text_of(name), rest_of(bodies@, from as int)),
        ),
{
    if from >= bodies.len() {
        proof {
            lemma_rest_of_end(bodies@, from as int);
        }
        return Err(AresError::NoLambdaBody);
    }
    proof {
        lemma_rest_of(bodies@, from as int);
    }
    let first = bodies[from].clone();
    if from + 1 < bodies.len() {
        ctx.push(StepState::EvaluatingLambda { name: name, bodies: bodies, next: from + 1 });
    }
    ctx.request(first);
    Ok(())
}

/// Evaluates `value`; `proc_head` says that it is the head of a call.
pub fn eval_this(value: Value, ctx: &mut Context, proc_head: bool) -> (r: AresResult<()>)
    requires
        old(ctx).wf(),
    ensures
        transition(*old(ctx), *final(ctx), r, semantics::eval_this(old(ctx)@, value@, proc_head)),
{
    match value {
        Value::Symbol(symbol) => {
            match ctx.lookup(symbol) {
                Some(v) => {
                    if is_ast_value(&v) && !proc_head {
                        Err(AresError::AstFunctionPass)
                    } else {
                        ctx.complete(v);
                        Ok(())
                    }
                },
                None => Err(AresError::UndefinedName(ctx.interner.lookup_or_anon(symbol))),
            }
        },
        Value::List(items) => {
            proof {
                lemma_list_view(items);
            }
            if items.len() == 0 {
                return Err(AresError::ExecuteEmptyList);
            }
            proof {
                lemma_rest_of(items@, 0);
            }
            let first = items[0].clone();
            ctx.push(StepState::PreEvaluatedCallable { form: items });
            ctx.push(StepState::EvalThis(first, true));
            Ok(())
        },
        Value::Lambda(p, is_macro) => {
            if is_macro {
                Err(AresError::MacroReference)
            } else {
                ctx.complete(Value::Lambda(p, is_macro));
                Ok(())
            }
        },
        v => {
            ctx.complete(v);
            Ok(())
        },
    }
}

/// Calls the closure `procedure` with the arguments `args`.
pub fn apply_lambda(procedure: Procedure, args: Vec<Value>, ctx: &mut Context) -> (r: AresResult<()>)
    requires
        old(ctx).wf(),
    ensures
        transition(
            *old(ctx),
            *final(ctx),
            r,
            semantics::apply_lambda(old(ctx)@, procedure@, views(args@)),
        ),
{
    proof {
        lemma_bodies_view(procedure);
        lemma_rest_of_end(procedure.bodies@, procedure.bodies@.len() as int);
    }
    if has_ast(&args) {
        return Err(AresError::AstFunctionPass);
    }
    if procedure.bodies.len() == 0 {
        return Err(AresError::NoLambdaBody);
    }
    let new_env = match procedure.gen_env(args, &mut ctx.scopes) {
        Ok(env) => env,
        Err(e) => {
            return Err(e);
        },
    };
    ctx.enter(new_env);
    ctx.push(StepState::PopEnv);
    let Procedure { name, bodies, .. } = procedure;
    sequence(ctx, name, bodies, 0)
}

/// Calls the native function `function` with `args`, none of which may be a
/// special form.
pub fn apply_function<S: State>(
    function: ForeignFunction,
    args: Vec<Value>,
    ctx: &mut Context,
    state: &mut S,
) -> (r: AresResult<()>)
    requires
        old(ctx).wf(),
    ensures
        transition(
            *old(ctx),
            *final(ctx),
            r,
            semantics::apply_function(old(ctx)@, function@, views(args@)),
        ),
        function.function is Host && !semantics::made_for(function.typeid, old(ctx)@.tag)
            ==> *final(state) == *old(state),
{
    if has_ast(&args) {
        return Err(AresError::AstFunctionPass);
    }
    crate::stdlib::call_native(function, args, ctx, state)
}

/// Calls `func` with `args`.
pub fn do_apply<S: State>(func: Value, args: Vec<Value>, ctx: &mut Context, state: &mut S) -> (r:
    AresResult<()>)
    requires
        old(ctx).wf(),
    ensures
        transition(*old(ctx), *final(ctx), r, semantics::do_apply(old(ctx)@, func@, views(args@))),
{
    match func {
        Value::Lambda(procedure, is_macro) => {
            proof {
                lemma_lambda_view(procedure, is_macro);
            }
            apply_lambda(procedure, args, ctx)
        },
        Value::ForeignFn(ff) => apply_function(ff, args, ctx, state),
        other => Err(AresError::UnexecutableValue(other)),
    }
}

/// A value arrives at the frame that waited for it.
pub fn resume<S: State>(frame: StepState, value: Value, ctx: &mut Context, state: &mut S) -> (r:
    AresResult<()>)
    requires
        old(ctx).wf(),
    ensures
        transition(*old(ctx), *final(ctx), r, semantics::resume(old(ctx)@, frame@, value@)),
{
    match frame {
        StepState::PreEvaluatedCallable { form } => transformations::from_pre_evaluated(
            form,
            value,
            ctx,
            state,
        ),
        StepState::ArgCollecting {
            function,
            evaluated,
            form,
            next,
        } => transformations::from_arg_collecting_lambda(
            function,
            form,
            next,
            evaluated,
            value,
            ctx,
            state,
        ),
        StepState::EvaluatingLambda { name, bodies, next } => transformations::from_evaluating_lambda(
            bodies,
            next,
            name,
            value,
            ctx,
        ),
        StepState::PopEnv => {
            ctx.leave();
            ctx.complete(value);
            Ok(())
        },
        StepState::If { then, otherwise } => crate::stdlib::forms::from_if(
            then,
            otherwise,
            value,
            ctx,
        ),
        StepState::Define { name, as_macro } => crate::stdlib::forms::from_define(
            name,
            as_macro,
            value,
            ctx,
        ),
        StepState::Assign { name } => crate::stdlib::forms::from_assign(name, value, ctx),
        StepState::LetBinding { name, bindings, next, form } => crate::stdlib::forms::from_let(
            name,
            bindings,
            next,
            form,
            value,
            ctx,
        ),
        StepState::And { form, next } => crate::stdlib::logical::from_and(form, next, value, ctx),
        StepState::Or { form, next } => crate::stdlib::logical::from_or(form, next, value, ctx),
        StepState::Xor { form, next, found_true, found_false } => crate::stdlib::logical::from_xor(
            form,
            next,
            found_true,
            found_false,
            value,
            ctx,
        ),
        StepState::Table { entries, key, form, next } => crate::stdlib::map::from_table(
            entries,
            key,
            form,
            next,
            value,
            ctx,
        ),
        StepState::TemplateList {
            done,
            template,
            next,
            splice,
        } => crate::stdlib::forms::from_template_list(done, template, next, splice, value, ctx),
        StepState::ForEach { function, list, next, count } => crate::stdlib::list::from_foreach(
            function,
            list,
            next,
            count,
            ctx,
        ),
        StepState::BuildCall { builder } => crate::stdlib::list::from_build_call(
            builder,
            value,
            ctx,
        ),
        StepState::BuildList { builder } => crate::stdlib::list::from_build_list(builder, ctx),
        StepState::ExpandMacro => {
            ctx.push(StepState::Expand(value));
            Ok(())
        },
        StepState::HostThen { function } => {
            let mut args: Vec<Value> = Vec::new();
            args.push(value);
            proof {
                assert(views(args@) =~= seq![value@]);
            }
            crate::stdlib::call_native(function, args, ctx, state)
        },
        StepState::ExpandList { done, list, next } => {
            let mut done = done;
            proof {
                lemma_views_push(done@, value);
            }
            done.push(value);
            crate::stdlib::forms::expand_list(done, list, next, ctx)
        },
        _ => Err(AresError::InvalidState("a value has nothing to return to".to_owned())),
    }
}

/// Whether `post` holds the frames of `pre` but for the `n` on top, beneath
/// what else it holds.
pub open spec fn keeps(pre: MachineView, post: MachineView, n: int) -> bool {
    post.stack.len() + n >= pre.stack.len() && forall|i: int|
        0 <= i < pre.stack.len() - n ==> #[trigger] post.stack[i] == pre.stack[i]
}

/// Moves the machine one step forward: the top frame is taken off the stack
/// and worked on; a result is handed to the frame beneath it.
pub fn step_eval<S: State>(ctx: &mut Context, state: &mut S) -> (r: AresResult<()>)
    requires
        old(ctx).wf(),
    ensures
        stepped(old(ctx)@, final(ctx)@, r, semantics::step(old(ctx)@)),
        final(ctx).wf(),
        final(ctx).step_limit == old(ctx).step_limit,
        final(ctx)@.scopes.len() >= old(ctx)@.scopes.len(),
        grown(old(ctx)@.names, final(ctx)@.names),
        keeps(old(ctx)@, final(ctx)@, 2),
        !(old(ctx)@.stack.len() > 0 && old(ctx)@.stack.last() is Complete) ==> keeps(
            old(ctx)@,
            final(ctx)@,
            1,
        ),
{
    let top = match ctx.pop() {
        Some(top) => top,
        None => {
            return Err(AresError::InvalidState("the stack is empty".to_owned()));
        },
    };
    match top {
        StepState::Complete(value) => {
            match ctx.pop() {
                Some(frame) => resume(frame, value, ctx, state),
                None => {
                    ctx.push(StepState::Complete(value));
                    Err(AresError::InvalidState("a value has nothing to return to".to_owned()))
                },
            }
        },
        StepState::EvalThis(value, proc_head) => eval_this(value, ctx, proc_head),
        StepState::PopEnv => {
            ctx.leave();
            Ok(())
        },
        StepState::Call { function, args } => do_apply(function, args, ctx, state),
        StepState::Template(v) => crate::stdlib::forms::template(v, ctx),
        StepState::Expand(v) => crate::stdlib::forms::expand(v, ctx),
        _ => Err(AresError::InvalidState("a frame that waits is on top".to_owned())),
    }
}

/// Takes the frames above the lowest `target_size` off the stack.
pub fn cleanup_stack(target_size: usize, ctx: &mut Context)
    requires
        target_size <= old(ctx)@.stack.len(),
    ensures
        final(ctx)@ == (MachineView { stack: old(ctx)@.stack.take(target_size as int), ..old(ctx)@ }),
        final(ctx).step_limit == old(ctx).step_limit,
{
    ctx.truncate(target_size);
}

/// Whether the outcome `o` of a run is what `r` and the machine `post`, from
/// which the frames of the run are gone, show of it.
pub open spec fn ended(o: Outcome, r: AresResult<Value>, post: MachineView) -> bool {
    match o {
        Outcome::Done(m) => r.is_ok() && m.stack.last() == FrameView::Complete(r->Ok_0@)
            && same_heap(m, post),
        Outcome::Failed(m, e) => r.is_err() && r->Err_0@ == e && same_heap(m, post),
        Outcome::OutOfSteps(m) => r.is_err() && r->Err_0@ == AresErrorView::StepLimit && same_heap(
            m,
            post,
        ),
        Outcome::Unknown => true,
    }
}

/// Runs the machine until the evaluation that was entered above the lowest
/// `cleanup_len` frames is done, and takes its frames off the stack: on
/// success the result, on failure all that the evaluation left.
pub fn run_evaluation<S: State>(
    target_len: usize,
    cleanup_len: usize,
    ctx: &mut Context,
    state: &mut S,
) -> (r: AresResult<Value>)
    requires
        old(ctx).wf(),
        target_len == cleanup_len + 2,
        old(ctx)@.stack.len() == target_len,
        old(ctx)@.stack[cleanup_len as int] == FrameView::Return,
    ensures
        final(ctx).wf(),
        final(ctx).step_limit == old(ctx).step_limit,
        final(ctx)@.stack == old(ctx)@.stack.take(cleanup_len as int),
        final(ctx)@.scopes.len() >= old(ctx)@.scopes.len(),
        grown(old(ctx)@.names, final(ctx)@.names),
        ended(run(old(ctx)@, target_len as int, old(ctx).step_limit as nat), r, final(ctx)@),
{
    let ghost start = ctx@;
    let ghost target = target_len as int;
    let limit = ctx.step_limit;
    let mut steps: u64 = 0;
    let ghost mut known = true;
    loop
        invariant
            ctx.wf(),
            ctx.step_limit == limit,
            limit == old(ctx).step_limit,
            start == old(ctx)@,
            steps <= limit,
            target == target_len,
            target_len == cleanup_len + 2,
            ctx@.stack.len() > cleanup_len,
            forall|i: int| 0 <= i <= cleanup_len ==> #[trigger] ctx@.stack[i] == start.stack[i],
            start.stack.len() == target_len,
            start.stack[cleanup_len as int] == FrameView::Return,
            ctx@.scopes.len() >= start.scopes.len(),
            grown(start.names, ctx@.names),
            known ==> run(start, target, limit as nat) == run(
                ctx@,
                target,
                (limit - steps) as nat,
            ),
            !known ==> run(start, target, limit as nat) is Unknown,
        ensures
            ctx.wf(),
            ctx.step_limit == limit,
            ctx@.stack.len() == target_len,
            ctx@.stack.last() is Complete,
            forall|i: int| 0 <= i <= cleanup_len ==> #[trigger] ctx@.stack[i] == start.stack[i],
            ctx@.scopes.len() >= start.scopes.len(),
            grown(start.names, ctx@.names),
            known ==> run(start, target, limit as nat) == Outcome::Done(ctx@),
            !known ==> run(start, target, limit as nat) is Unknown,
        decreases limit - steps,
    {
        let len = ctx.stack.len();
        if len < target_len {
            cleanup_stack(cleanup_len, ctx);
            assert(ctx@.stack =~= start.stack.take(cleanup_len as int));
            return Err(AresError::InvalidState("the stack is lower than at the entry".to_owned()));
        }
        if len == target_len && ctx.has_result() {
            break ;
        }
        if steps >= limit {
            cleanup_stack(cleanup_len, ctx);
            assert(ctx@.stack =~= start.stack.take(cleanup_len as int));
            return Err(AresError::StepLimit);
        }
        let ghost before = ctx@;
        match step_eval(ctx, state) {
            Ok(_) => {
                proof {
                    if known && semantics::step(before) is Host {
                        known = false;
                    }
                    lemma_grown_twice(start.names, before.names, ctx@.names);
                }
                steps += 1;
            },
            Err(e) => {
                proof {
                    lemma_grown_twice(start.names, before.names, ctx@.names);
                }
                cleanup_stack(cleanup_len, ctx);
                assert(ctx@.stack =~= start.stack.take(cleanup_len as int));
                return Err(e);
            },
        }
    }
    let top = ctx.pop();
    let next_top = ctx.pop();
    assert(ctx@.stack =~= start.stack.take(cleanup_len as int));
    match top {
        Some(StepState::Complete(value)) => Ok(value),
        _ => Err(AresError::InvalidState("no result is on top".to_owned())),
    }
}

/// Enters an evaluation that begins with the frame `frame`, runs it, and
/// leaves the stack and the scopes entered as they were.
pub fn run_frame<S: State>(frame: StepState, ctx: &mut Context, state: &mut S) -> (r: AresResult<
    Value,
>)
    requires
        old(ctx).wf(),
    ensures
        final(ctx).wf(),
        final(ctx).step_limit == old(ctx).step_limit,
        final(ctx)@.stack == old(ctx)@.stack,
        final(ctx)@.env_stack == old(ctx)@.env_stack,
        final(ctx)@.scopes.len() >= old(ctx)@.scopes.len(),
        grown(old(ctx)@.names, final(ctx)@.names),
        ended(
            run(
                old(ctx)@.push(FrameView::Return).push(frame@),
                (old(ctx)@.stack.len() + 2) as int,
                old(ctx).step_limit as nat,
            ),
            r,
            final(ctx)@,
        ),
{
    let cleanup_len = ctx.stack.len();
    let entered = ctx.entered();
    ctx.push(StepState::Return);
    ctx.push(frame);
    let target_len = ctx.stack.len();
    let r = run_evaluation(target_len, cleanup_len, ctx, state);
    assert(ctx@.stack =~= old(ctx)@.stack);
    ctx.reenter(entered);
    r
}

/// Evaluates `value` in the scope that the machine is in.
pub fn eval<S: State>(value: &Value, ctx: &mut Context, state: &mut S) -> (r: AresResult<Value>)
    requires
        old(ctx).wf(),
    ensures
        final(ctx).wf(),
        final(ctx).step_limit == old(ctx).step_limit,
        final(ctx)@.stack == old(ctx)@.stack,
        final(ctx)@.env_stack == old(ctx)@.env_stack,
        final(ctx)@.scopes.len() >= old(ctx)@.scopes.len(),
        grown(old(ctx)@.names, final(ctx)@.names),
        ended(
            run(
                old(ctx)@.push(FrameView::Return).eval(value@),
                (old(ctx)@.stack.len() + 2) as int,
                old(ctx).step_limit as nat,
            ),
            r,
            final(ctx)@,
        ),
{
    run_frame(StepState::EvalThis(value.clone(), false), ctx, state)
}

/// Calls `func` with the arguments `args`, which are values.
pub fn apply<S: State>(func: &Value, args: Vec<Value>, ctx: &mut Context, state: &mut S) -> (r:
    AresResult<Value>)
    requires
        old(ctx).wf(),
    ensures
        final(ctx).wf(),
        final(ctx).step_limit == old(ctx).step_limit,
        final(ctx)@.stack == old(ctx)@.stack,
        final(ctx)@.env_stack == old(ctx)@.env_stack,
        final(ctx)@.scopes.len() >= old(ctx)@.scopes.len(),
        grown(old(ctx)@.names, final(ctx)@.names),
        ended(
            run(
                old(ctx)@.push(FrameView::Return).push(
                    FrameView::Call { function: func@, args: views(args@) },
                ),
                (old(ctx)@.stack.len() + 2) as int,
                old(ctx).step_limit as nat,
            ),
            r,
            final(ctx)@,
        ),
{
    run_frame(StepState::Call { function: func.clone(), args: args }, ctx, state)
}

/// Expands the macros in `value`.
pub fn macroexpand<S: State>(value: Value, ctx: &mut Context, state: &mut S) -> (r: AresResult<Value>)
    requires
        old(ctx).wf(),
    ensures
        final(ctx).wf(),
        final(ctx).step_limit == old(ctx).step_limit,
        final(ctx)@.stack == old(ctx)@.stack,
        final(ctx)@.env_stack == old(ctx)@.env_stack,
        final(ctx)@.scopes.len() >= old(ctx)@.scopes.len(),
        grown(old(ctx)@.names, final(ctx)@.names),
        ended(
            run(
                old(ctx)@.push(FrameView::Return).push(FrameView::Expand(value@)),
                (old(ctx)@.stack.len() + 2) as int,
                old(ctx).step_limit as nat,
            ),
            r,
            final(ctx)@,
        ),
{
    run_frame(StepState::Expand(value), ctx, state)
}

/// How an evaluation that is entered from `m` with the frame `frame` ends.
pub open spec fn toplevel(m: MachineView, frame: FrameView, limit: nat) -> Outcome {
    run(m.push(FrameView::Return).push(frame), (m.stack.len() + 2) as int, limit)
}

/// How the evaluation of the form `tree` from `m` ends: its macros are
/// expanded, and what comes of that is evaluated.
pub open spec fn form(m: MachineView, tree: ValueView, limit: nat) -> Outcome {
    match toplevel(m, FrameView::Expand(tree), limit) {
        Outcome::Done(expanded) => match expanded.stack.last() {
            FrameView::Complete(v) => toplevel(
                expanded.with_stacks_of(m),
                FrameView::EvalThis(v, false),
                limit,
            ),
            _ => Outcome::Unknown,
        },
        other => other,
    }
}

/// How the evaluation of the forms `trees[i..]` from `m` ends: each form is
/// evaluated in the machine that the one before it has left, and the last
/// one gives the result. No form is no program.
pub open spec fn program(m: MachineView, trees: Seq<ValueView>, i: int, limit: nat) -> Outcome
    decreases trees.len() - i,
{
    if i < 0 || i >= trees.len() {
        Outcome::Failed(m, AresErrorView::NoProgram)
    } else {
        match form(m, trees[i], limit) {
            Outcome::Done(after) => if i + 1 == trees.len() {
                Outcome::Done(after)
            } else {
                program(after.with_stacks_of(m), trees, i + 1, limit)
            },
            other => other,
        }
    }
}

/// The value that `name` is bound to, seen from the scope that the machine
/// is in.
pub open spec fn named_value(m: MachineView, name: Seq<char>) -> Option<ValueView> {
    match crate::intern::symbol_named(m.names, name) {
        Some(symbol) => crate::eval::environment::lookup(m.scopes, m.env() as int, symbol),
        None => None,
    }
}

} // verus!
