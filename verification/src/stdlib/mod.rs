//! The standard library: the native functions that a new context knows.

pub mod arithmetic;
pub mod forms;
pub mod list;
pub mod loading;
pub mod logical;
pub mod map;
pub mod math;
pub mod option;
pub mod types;

pub use loading::{
    NATIVES,
    PRELUDE_CLOSURES,
    PRELUDE_SYMBOLS,
    arithmetic_known,
    arithmetic_name,
    bound_to,
    builtin,
    closure_of,
    core_known,
    core_name,
    install,
    known,
    knows_arithmetic,
    knows_core,
    knows_list,
    knows_logical,
    knows_map,
    knows_math,
    knows_natives,
    knows_option,
    knows_prelude,
    knows_standard_library,
    knows_types,
    lemma_names_of_one_character,
    lemma_native_literals,
    lemma_only_library_names,
    lemma_the_standard_library_has_no_macro,
    lemma_prelude_literals,
    library_name,
    library_room,
    list_known,
    list_name,
    load_all,
    load_arithmetic,
    load_core,
    load_list,
    load_logical,
    load_map,
    load_math,
    load_natives,
    load_option,
    load_prelude,
    load_types,
    loaded,
    logical_known,
    logical_name,
    map_known,
    map_name,
    math_known,
    math_name,
    named_closure,
    native_name,
    natives_known,
    only_library_bound,
    option_known,
    option_name,
    prelude_name,
    prelude_numbered,
    prelude_symbols,
    prelude_symbols_known,
    PreludeSymbols,
    closure_number,
    map_body,
    fold_body,
    filter_body,
    flatten_body,
    concat_body,
    built_from_each_tree,
    prelude_room,
    types_known,
    types_name,
};

use vstd::prelude::*;
use std::rc::Rc;
use crate::error::{AresError, AresErrorView, AresResult};
use crate::eval::foreign_function::builtin_fn;
use crate::eval::lemma_views_push;
use crate::parse::errors::ParseError;
use crate::value::{FfType, ValueView};
use crate::eval::context::Context;
use crate::eval::foreign_function::{ANY_STATE, Reply, State};
use crate::eval::frames::{FrameView, MachineView, StepState};
use crate::eval::semantics;
use crate::eval::semantics::pure_native;
use crate::eval::transition;
use crate::intern::SymbolIntern;
use crate::stdlib::arithmetic::gives;
use crate::value::{ForeignFunction, ForeignFunctionView, Native, Value, views};

verus! {

/// What a native function that only computes returns for `args`.
pub fn compute<S: State>(function: Native, args: &Vec<Value>, interner: &SymbolIntern, state: &S) -> (r:
    AresResult<Value>)
    ensures
        match pure_native(function, views(args@), interner@) {
            Some(expected) => gives(r, expected),
            None => true,
        },
{
    match function {
        Native::Equals => forms::equals(args),
        Native::AddInts => arithmetic::add_ints(args),
        Native::SubInts => arithmetic::sub_ints(args),
        Native::MulInts => arithmetic::mul_ints(args),
        Native::DivInts => arithmetic::div_ints(args),
        Native::Concat => arithmetic::concat(args),
        Native::ToInt => types::to_int(args),
        Native::ToFloat => types::to_float(args, state),
        Native::ToString => types::to_string(args, interner, state),
        Native::ToBool => types::to_bool(args),
        Native::IsInt => types::is_int(args),
        Native::IsFloat => types::is_float(args),
        Native::IsBool => types::is_bool(args),
        Native::IsString => types::is_string(args),
        Native::IsList => types::is_list(args),
        Native::IsSymbol => types::is_symbol(args),
        Native::IsLambda => types::is_lambda(args),
        Native::IsForeignFn => types::is_foreign_fn(args),
        Native::IsExecutable => types::is_executable(args),
        Native::OptionSome => option::some(args),
        Native::OptionNone => option::none(args),
        Native::OptionUnwrap => option::unwrap(args),
        Native::IsNan => math::is_nan(args),
        Native::IsInfinite => math::is_infinite(args),
        Native::IsFinite => math::is_finite(args),
        Native::IsNormal => math::is_normal(args),
        Native::IsSignPositive => math::is_sign_positive(args),
        Native::IsSignNegative => math::is_sign_negative(args),
        Native::Floor => math::floor(args),
        Native::Ceil => math::ceil(args),
        Native::Round => math::round(args),
        Native::Trunc => math::trunc(args),
        Native::CountOnes => math::count_ones(args),
        Native::CountZeros => math::count_zeros(args),
        Native::LeadingZeros => math::leading_zeros(args),
        Native::TrailingZeros => math::trailing_zeros(args),
        Native::SwapBytes => math::swap_bytes(args),
        Native::ToBe => math::to_be(args),
        Native::ToLe => math::to_le(args),
        Native::Abs => math::abs(args),
        Native::Signum => math::signum(args),
        Native::IsPositive => math::is_positive(args),
        Native::IsNegative => math::is_negative(args),
        _ => Err(AresError::InvalidState("a function that does not only compute".to_owned())),
    }
}

/// The function of the embedder that is called once `f` has the value it
/// asked for: the one registered under `then`, for the same state.
pub open spec fn continued(f: ForeignFunctionView, then: u64) -> ForeignFunctionView {
    ForeignFunctionView { function: Native::Host(then), ..f }
}

/// The step that the answer `reply` of the function `f` of the embedder
/// leads to: a result goes on top; a request leaves the function that is to
/// be called with the value, and above it the tree to evaluate or the call
/// to make; an error fails. What a text is read as, the embedder has a say
/// in: [`sourced`] says what follows from there.
pub open spec fn replied(m: MachineView, f: ForeignFunctionView, reply: AresResult<Reply>)
    -> semantics::Step {
    match reply {
        Ok(Reply::Value(v)) => semantics::Step::Next(m.complete(v@)),
        Ok(Reply::Eval { tree, then }) => semantics::Step::Next(
            m.push(FrameView::HostThen { function: continued(f, then) }).eval(tree@),
        ),
        Ok(Reply::Apply { function, args, then }) => semantics::Step::Next(
            m.push(FrameView::HostThen { function: continued(f, then) }).push(
                FrameView::Call { function: function@, args: views(args@) },
            ),
        ),
        Ok(Reply::Source { text, then }) => semantics::Step::Host(m),
        Err(e) => semantics::Step::Fail(e@),
    }
}

/// The call that expands the macros of `tree` and evaluates what comes of
/// it: `(eval (macroexpand (quote tree)))`, with the three native functions
/// themselves in the place of their names.
pub open spec fn expanded_and_evaluated(tree: ValueView) -> ValueView {
    ValueView::List(
        seq![
            builtin("eval"@, FfType::User, Native::Eval),
            ValueView::List(
                seq![
                    builtin("macroexpand"@, FfType::User, Native::MacroExpand),
                    ValueView::List(seq![builtin("quote"@, FfType::Ast, Native::Quote), tree]),
                ],
            ),
        ],
    )
}

/// The step that the forms `trees`, read from a text for the function `f`
/// of the embedder, lead to: each is expanded and evaluated in turn, beneath
/// them waits the function that is to be called with the value of the last.
/// A text that is not read fails with its error, and an empty text with
/// `NoProgram`.
pub open spec fn sourced(
    m: MachineView,
    f: ForeignFunctionView,
    then: u64,
    trees: Result<Vec<Value>, ParseError>,
) -> semantics::Step {
    match trees {
        Err(e) => semantics::Step::Fail(AresErrorView::ParseError(e@)),
        Ok(trees) => if trees@.len() == 0 {
            semantics::Step::Fail(AresErrorView::NoProgram)
        } else {
            semantics::sequence(
                m.push(FrameView::HostThen { function: continued(f, then) }),
                None,
                views(trees@).map_values(|t: ValueView| expanded_and_evaluated(t)),
            )
        },
    }
}

/// Has the forms that were read from a text for the function `function` of
/// the embedder expanded and evaluated.
pub fn from_source(
    function: ForeignFunction,
    then: u64,
    trees: Result<Vec<Value>, ParseError>,
    ctx: &mut Context,
) -> (r: AresResult<()>)
    requires
        old(ctx).wf(),
    ensures
        transition(*old(ctx), *final(ctx), r, sourced(old(ctx)@, function@, then, trees)),
{
    let trees = match trees {
        Ok(trees) => trees,
        Err(e) => {
            return Err(AresError::ParseError(e));
        },
    };
    if trees.len() == 0 {
        return Err(AresError::NoProgram);
    }
    let ghost wanted = views(trees@).map_values(|t: ValueView| expanded_and_evaluated(t));
    let mut calls: Vec<Value> = Vec::new();
    let mut i: usize = 0;
    assert(views(calls@) =~= wanted.take(0));
    while i < trees.len()
        invariant
            i <= trees.len(),
            wanted == views(trees@).map_values(|t: ValueView| expanded_and_evaluated(t)),
            views(calls@) == wanted.take(i as int),
        decreases trees.len() - i,
    {
        let ghost before = calls@;
        let quoted = listed2(
            Value::ForeignFn(builtin_fn("quote", FfType::Ast, Native::Quote)),
            trees[i].clone(),
        );
        let expanded = listed2(
            Value::ForeignFn(builtin_fn("macroexpand", FfType::User, Native::MacroExpand)),
            quoted,
        );
        let call = listed2(
            Value::ForeignFn(builtin_fn("eval", FfType::User, Native::Eval)),
            expanded,
        );
        proof {
            assert(views(trees@)[i as int] == trees@[i as int]@);
            assert(call@ == expanded_and_evaluated(trees@[i as int]@));
            lemma_views_push(before, call);
        }
        calls.push(call);
        proof {
            assert(views(calls@) =~= wanted.take(i + 1));
        }
        i += 1;
    }
    assert(views(calls@) =~= wanted);
    let ForeignFunction { name, typ, typeid, .. } = function;
    ctx.push(
        StepState::HostThen {
            function: ForeignFunction {
                name: name,
                typ: typ,
                function: Native::Host(then),
                typeid: typeid,
            },
        },
    );
    let bodies = Rc::new(calls);
    proof {
        crate::eval::lemma_rest_of_end(bodies@, bodies@.len() as int);
    }
    crate::eval::sequence(ctx, None, bodies, 0)
}

/// The list of two values.
fn listed2(a: Value, b: Value) -> (r: Value)
    ensures
        r@ == ValueView::List(seq![a@, b@]),
{
    let mut items: Vec<Value> = Vec::new();
    items.push(a);
    items.push(b);
    proof {
        assert(views(items@) =~= seq![a@, b@]);
    }
    Value::list(items)
}

/// Does what the function `function` of the embedder has answered its call
/// with.
pub fn from_reply<S: State>(
    function: ForeignFunction,
    reply: AresResult<Reply>,
    ctx: &mut Context,
    state: &S,
) -> (r: AresResult<()>)
    requires
        old(ctx).wf(),
    ensures
        transition(*old(ctx), *final(ctx), r, replied(old(ctx)@, function@, reply)),
{
    match reply {
        Ok(Reply::Value(v)) => {
            ctx.complete(v);
            Ok(())
        },
        Ok(Reply::Eval { tree, then }) => {
            let ForeignFunction { name, typ, typeid, .. } = function;
            ctx.push(
                StepState::HostThen {
                    function: ForeignFunction {
                        name: name,
                        typ: typ,
                        function: Native::Host(then),
                        typeid: typeid,
                    },
                },
            );
            ctx.request(tree);
            Ok(())
        },
        Ok(Reply::Apply { function: callee, args, then }) => {
            let ForeignFunction { name, typ, typeid, .. } = function;
            ctx.push(
                StepState::HostThen {
                    function: ForeignFunction {
                        name: name,
                        typ: typ,
                        function: Native::Host(then),
                        typeid: typeid,
                    },
                },
            );
            ctx.push(StepState::Call { function: callee, args: args });
            Ok(())
        },
        Ok(Reply::Source { text, then }) => {
            let ghost start = *ctx;
            let trees = ctx.parse(text.as_str(), state);
            let ghost read = *ctx;
            let r = from_source(function, then, trees, ctx);
            proof {
                crate::intern::lemma_grown_twice(start@.names, read@.names, ctx@.names);
                if r.is_ok() {
                    assert(ctx@.stack.take(start@.stack.len() as int) =~= start@.stack);
                }
            }
            r
        },
        Err(e) => Err(e),
    }
}

/// Calls the function that the embedder registered under `id`, if it was
/// made for the embedder state that the interpreter was loaded with, or for
/// any state, and does what the function answers ([`from_reply`]).
/// Otherwise the call fails, and the embedder is not asked: its state stays
/// as it is.
fn call_host<S: State>(
    function: ForeignFunction,
    id: u64,
    args: Vec<Value>,
    ctx: &mut Context,
    state: &mut S,
) -> (r: AresResult<()>)
    requires
        old(ctx).wf(),
        function.function == Native::Host(id),
    ensures
        transition(
            *old(ctx),
            *final(ctx),
            r,
            semantics::call_native(old(ctx)@, function@, views(args@)),
        ),
        !semantics::made_for(function.typeid, old(ctx)@.tag) ==> *final(state) == *old(state),
{
    let function = match function.correct(ctx.state_tag) {
        Ok(function) => function,
        Err(_) => {
            return Err(AresError::InvalidForeignFunctionState);
        },
    };
    let reply = state.answer(id, &args, &*ctx);
    let ghost answered = reply;
    let r = from_reply(function, reply, ctx, &*state);
    proof {
        match answered {
            Ok(Reply::Eval { .. }) => {
                assert(ctx@.stack.take(old(ctx)@.stack.len() as int) =~= old(ctx)@.stack);
            },
            Ok(Reply::Apply { .. }) => {
                assert(ctx@.stack.take(old(ctx)@.stack.len() as int) =~= old(ctx)@.stack);
            },
            _ => {},
        }
    }
    r
}

/// Calls a native function that only computes.
fn call_pure<S: State>(function: Native, args: Vec<Value>, ctx: &mut Context, state: &mut S) -> (r:
    AresResult<()>)
    requires
        old(ctx).wf(),
    ensures
        transition(
            *old(ctx),
            *final(ctx),
            r,
            semantics::pure_step(old(ctx)@, pure_native(function, views(args@), old(ctx)@.names)),
        ),
{
    match compute(function, &args, &ctx.interner, state) {
        Ok(v) => {
            ctx.complete(v);
            assert(ctx@ == old(ctx)@.complete(v@));
            Ok(())
        },
        Err(e) => Err(e),
    }
}

/// Calls the native function `function` with `args`.
pub fn call_native<S: State>(
    function: ForeignFunction,
    args: Vec<Value>,
    ctx: &mut Context,
    state: &mut S,
) -> (r: AresResult<()>)
    requires
        old(ctx).wf(),
    ensures
        transition(
            *old(ctx),
            *final(ctx),
            r,
            semantics::call_native(old(ctx)@, function@, views(args@)),
        ),
        function.function is Host && !semantics::made_for(function.typeid, old(ctx)@.tag)
            ==> *final(state) == *old(state),
{
    match function.function {
        Native::Host(id) => call_host(function, id, args, ctx, state),
        Native::Quote => forms::quote(Rc::new(args), ctx),
        Native::If => forms::cond(Rc::new(args), ctx),
        Native::Define => forms::define(Rc::new(args), ctx),
        Native::DefineMacro => forms::define_macro(Rc::new(args), ctx),
        Native::Assign => forms::set(Rc::new(args), ctx),
        Native::Lambda => forms::lambda(Rc::new(args), ctx),
        Native::Let => forms::lett(Rc::new(args), ctx),
        Native::Gensym => forms::gensym(Rc::new(args), ctx),
        Native::Eval => forms::eval(Rc::new(args), ctx),
        Native::Apply => forms::apply(Rc::new(args), ctx),
        Native::Quasiquote => forms::quasiquote(Rc::new(args), ctx),
        Native::UnquoteError => forms::unquote_error(Rc::new(args), ctx),
        Native::MacroExpand => forms::macroexpand(Rc::new(args), ctx),
        Native::And => logical::and(Rc::new(args), ctx),
        Native::Or => logical::or(Rc::new(args), ctx),
        Native::Xor => logical::xor(Rc::new(args), ctx),
        Native::BuildList => list::build_list(Rc::new(args), ctx),
        Native::Add(b) => list::add_to_builder(b, Rc::new(args), false, ctx),
        Native::AddAll(b) => list::add_to_builder(b, Rc::new(args), true, ctx),
        Native::ForEach => list::foreach(Rc::new(args), ctx),
        Native::HashMap => map::hash_map(Rc::new(args), ctx),
        other => call_pure(other, args, ctx, state),
    }
}

/// Whether the arguments are as many as expected: `holds` says so, and
/// `expect_str` says in words how many were expected.
pub fn expect_arity(slice: &Vec<Value>, holds: bool, expect_str: &str) -> (r: AresResult<()>)
    ensures
        holds ==> r.is_ok(),
        !holds ==> r.is_err() && r->Err_0@ == crate::stdlib::types::arity_error(
            slice@.len() as int,
            expect_str@,
        ),
{
    if holds {
        Ok(())
    } else {
        Err(crate::error::unexpected_arity(slice.len(), expect_str))
    }
}

} // verus!
