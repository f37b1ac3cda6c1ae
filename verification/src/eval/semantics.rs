//! What one step of the machine does, as functions on machine states.
//!
//! Every frame of the stack is a piece of pending work, and a step removes
//! the top of the stack and puts what follows from it in its place. No step
//! calls the machine again: a native function that needs a value evaluated
//! leaves a frame that waits for the value, and returns.

use vstd::prelude::*;
use crate::equality::values_equal;
use crate::error::{AresError, AresErrorView};
use crate::eval::context::same_heap;
use crate::eval::environment::{ScopeView, assigned, bound_here, defining_scope, lookup};
use crate::eval::frames::{FrameView, MachineView};
use crate::eval::procedure::call_scope;
use crate::intern::{Symbol, name_or_anon, symbol_named};
use crate::stdlib::arithmetic::{IntOp, concat_spec, int_fold, wrap64};
use crate::float::{
    ceil_of,
    float_is_nan,
    floor_of,
    is_finite,
    is_infinite,
    is_normal,
    round_of,
    sign_of,
    truncated,
};
use crate::stdlib::math::{bit_length, bits_of, float_method, low_zeros, ones, swapped_int};
use crate::stdlib::types::{
    Kind,
    all_of_kind,
    arity_error,
    to_bool_spec,
    to_float_spec,
    to_int_spec,
    to_string_spec,
};
use crate::text::decimal;
use crate::value::{
    FfType,
    ForeignFunctionView,
    Native,
    ParamBindingView,
    ProcedureView,
    ValueView,
};

verus! {

/// What a step leads to.
pub enum Step {
    /// The machine goes on in this state.
    Next(MachineView),
    /// The evaluation fails.
    Fail(AresErrorView),
    /// The embedder decides, or the computer that the program runs on: the
    /// machine goes on in this state with a result of their choice on top,
    /// or with a request of the embedder for a value, or the evaluation
    /// fails.
    Host(MachineView),
}

/// Whether the machine `post` is the machine `n` after a function of the
/// embedder has asked for a value: above the frames of `n` waits the
/// function of the embedder that is to be called with the value, and above
/// it stands what the interpreter is to do for the value.
pub open spec fn asked(n: MachineView, post: MachineView) -> bool {
    post.stack.len() >= n.stack.len() + 2 && post.stack.take(n.stack.len() as int) =~= n.stack
        && post.stack[n.stack.len() as int] is HostThen
}

/// Whether the machine `post` has the scopes, the lists under construction,
/// the closure count and the tag of `pre`, and its symbols and possibly
/// more.
pub open spec fn same_but_symbols(pre: MachineView, post: MachineView) -> bool {
    post.scopes == pre.scopes && post.builders == pre.builders && post.next_id == pre.next_id
        && post.tag == pre.tag && crate::intern::grown(pre.names, post.names)
}

/// Whether the machine `post` and the result `r` are what the step `s` from
/// the machine `pre` leads to. A step that fails leaves the scopes, the
/// scope that the machine is in, the symbols and the lists under
/// construction as they were. Where the embedder decides, the machine has
/// gone on with some result on top or with a request of the embedder, or
/// the step has failed; a text that the embedder asked to be read may have
/// brought new symbols.
pub open spec fn stepped(pre: MachineView, post: MachineView, r: Result<(), AresError>, s: Step)
    -> bool {
    match s {
        Step::Next(n) => r.is_ok() && post == n,
        Step::Fail(e) => r.is_err() && r->Err_0@ == e && same_heap(pre, post) && post.env_stack
            == pre.env_stack,
        Step::Host(n) => match r {
            Ok(_) => ((post.stack.len() > 0 && post.stack.last() is Complete
                && post.stack.drop_last() =~= n.stack) || asked(n, post)) && post.env_stack
                == n.env_stack && same_but_symbols(n, post),
            Err(_) => same_but_symbols(pre, post) && post.env_stack == pre.env_stack,
        },
    }
}

/// The error for a value of the wrong type.
pub open spec fn type_error(v: ValueView, expected: Seq<char>) -> AresErrorView {
    AresErrorView::UnexpectedType { value: v, expected: expected }
}

/// The error for a state that no program leads to.
pub open spec fn broken(what: Seq<char>) -> AresErrorView {
    AresErrorView::InvalidState(what)
}

/// A native function that takes its arguments as they stand in the program.
pub open spec fn is_ast(v: ValueView) -> bool {
    match v {
        ValueView::ForeignFn(f) => f.typ == FfType::Ast,
        _ => false,
    }
}

/// Whether one of the first `n` values is a special form.
pub open spec fn any_ast(args: Seq<ValueView>, n: int) -> bool
    decreases n,
{
    if n <= 0 || n > args.len() {
        false
    } else {
        any_ast(args, n - 1) || is_ast(args[n - 1])
    }
}

/// Whether `v` is the symbol with the given name, if there is one.
pub open spec fn is_symbol(v: ValueView, s: Option<Symbol>) -> bool {
    match s {
        Some(symbol) => v == ValueView::Symbol(symbol),
        None => false,
    }
}

/// Evaluates `bodies`, of which there is one at least, one after the other.
pub open spec fn sequence(m: MachineView, name: Option<Seq<char>>, bodies: Seq<ValueView>) -> Step {
    if bodies.len() == 0 {
        Step::Fail(AresErrorView::NoLambdaBody)
    } else if bodies.len() == 1 {
        Step::Next(m.eval(bodies[0]))
    } else {
        Step::Next(
            m.push(FrameView::EvaluatingLambda { name: name, bodies: bodies.skip(1) }).eval(
                bodies[0],
            ),
        )
    }
}

/// Evaluates `value`; `head` says that it is the head of a call.
///
/// A symbol stands for its value, but a special form is a value only as the
/// head of a call. A list is a call: its head is evaluated first. A macro
/// is no value. Everything else is its own value.
pub open spec fn eval_this(m: MachineView, value: ValueView, head: bool) -> Step {
    match value {
        ValueView::Symbol(s) => match lookup(m.scopes, m.env() as int, s) {
            Some(v) => if is_ast(v) && !head {
                Step::Fail(AresErrorView::AstFunctionPass)
            } else {
                Step::Next(m.complete(v))
            },
            None => Step::Fail(AresErrorView::UndefinedName(name_or_anon(m.names, s))),
        },
        ValueView::List(items) => if items.len() == 0 {
            Step::Fail(AresErrorView::ExecuteEmptyList)
        } else {
            Step::Next(
                m.push(FrameView::PreEvaluatedCallable { unevaluated: items.skip(1) }).push(
                    FrameView::EvalThis(items[0], true),
                ),
            )
        },
        ValueView::Lambda(_, true) => Step::Fail(AresErrorView::MacroReference),
        other => Step::Next(m.complete(other)),
    }
}

/// Calls the closure `p` with the arguments `args`: the machine enters the
/// scope of the call and evaluates the bodies in it.
pub open spec fn apply_lambda(m: MachineView, p: ProcedureView, args: Seq<ValueView>) -> Step {
    if any_ast(args, args.len() as int) {
        Step::Fail(AresErrorView::AstFunctionPass)
    } else if p.bodies.len() == 0 {
        Step::Fail(AresErrorView::NoLambdaBody)
    } else {
        match call_scope(p, args, m.scopes) {
            Err(e) => Step::Fail(e),
            Ok(scope) => sequence(
                m.with_scopes(m.scopes.push(scope)).enter(m.scopes.len() as usize).push(
                    FrameView::PopEnv,
                ),
                p.name,
                p.bodies,
            ),
        }
    }
}

/// Calls the native function `f` with `args`, none of which may be a special
/// form.
pub open spec fn apply_function(m: MachineView, f: ForeignFunctionView, args: Seq<ValueView>)
    -> Step {
    if any_ast(args, args.len() as int) {
        Step::Fail(AresErrorView::AstFunctionPass)
    } else {
        call_native(m, f, args)
    }
}

/// Calls `function` with `args`.
pub open spec fn do_apply(m: MachineView, function: ValueView, args: Seq<ValueView>) -> Step {
    match function {
        ValueView::Lambda(p, _) => apply_lambda(m, p, args),
        ValueView::ForeignFn(f) => apply_function(m, f, args),
        other => Step::Fail(AresErrorView::UnexecutableValue(other)),
    }
}

/// The head of a call was evaluated to `function`; `unevaluated` are the
/// arguments as they stand. A special form is called with them at once; for
/// every other function they are evaluated first, from the left.
pub open spec fn from_pre_evaluated(
    m: MachineView,
    unevaluated: Seq<ValueView>,
    function: ValueView,
) -> Step {
    match function {
        ValueView::Lambda(_, _) => collect_args(m, function, unevaluated),
        ValueView::ForeignFn(f) => if f.typ == FfType::Ast {
            apply_function(m, f, unevaluated)
        } else {
            collect_args(m, function, unevaluated)
        },
        other => Step::Fail(AresErrorView::UnexecutableValue(other)),
    }
}

/// Starts to evaluate the arguments of a call, or makes the call if there
/// are none.
pub open spec fn collect_args(m: MachineView, function: ValueView, unevaluated: Seq<ValueView>)
    -> Step {
    if unevaluated.len() == 0 {
        do_apply(m, function, Seq::empty())
    } else {
        Step::Next(
            m.push(
                FrameView::ArgCollecting {
                    function: function,
                    evaluated: Seq::empty(),
                    unevaluated: unevaluated.skip(1),
                },
            ).eval(unevaluated[0]),
        )
    }
}

/// An argument was evaluated to `completed`: the next one is evaluated, or
/// the call is made.
pub open spec fn from_arg_collecting(
    m: MachineView,
    function: ValueView,
    evaluated: Seq<ValueView>,
    unevaluated: Seq<ValueView>,
    completed: ValueView,
) -> Step {
    if unevaluated.len() == 0 {
        do_apply(m, function, evaluated.push(completed))
    } else {
        Step::Next(
            m.push(
                FrameView::ArgCollecting {
                    function: function,
                    evaluated: evaluated.push(completed),
                    unevaluated: unevaluated.skip(1),
                },
            ).eval(unevaluated[0]),
        )
    }
}

/// A body was evaluated to `result`: the next one is evaluated, or `result`
/// is the value of them all.
pub open spec fn from_evaluating_lambda(
    m: MachineView,
    name: Option<Seq<char>>,
    bodies: Seq<ValueView>,
    result: ValueView,
) -> Step {
    if bodies.len() == 0 {
        Step::Next(m.complete(result))
    } else {
        Step::Next(
            m.push(FrameView::EvaluatingLambda { name: name, bodies: bodies.skip(1) }).eval(
                bodies[0],
            ),
        )
    }
}

/// What a native function that only computes returns, or nothing where the
/// embedder has a say, or the machine that the program runs on.
pub open spec fn pure_native(function: Native, args: Seq<ValueView>, names: Seq<Option<Seq<char>>>)
    -> Option<Result<ValueView, AresErrorView>> {
    match function {
        Native::Equals => Some(equals_spec(args)),
        Native::AddInts => Some(int_fold(IntOp::Add, args)),
        Native::SubInts => Some(int_fold(IntOp::Sub, args)),
        Native::MulInts => Some(int_fold(IntOp::Mul, args)),
        Native::DivInts => Some(int_fold(IntOp::Div, args)),
        Native::Concat => Some(concat_spec(args)),
        Native::ToInt => Some(to_int_spec(args)),
        Native::ToFloat => to_float_spec(args),
        Native::ToString => to_string_spec(args, names),
        Native::ToBool => Some(to_bool_spec(args)),
        Native::IsInt => Some(Ok(ValueView::Bool(all_of_kind(args, Kind::Int)))),
        Native::IsFloat => Some(Ok(ValueView::Bool(all_of_kind(args, Kind::Float)))),
        Native::IsBool => Some(Ok(ValueView::Bool(all_of_kind(args, Kind::Bool)))),
        Native::IsString => Some(Ok(ValueView::Bool(all_of_kind(args, Kind::String)))),
        Native::IsList => Some(Ok(ValueView::Bool(all_of_kind(args, Kind::List)))),
        Native::IsSymbol => Some(Ok(ValueView::Bool(all_of_kind(args, Kind::Symbol)))),
        Native::IsLambda => Some(Ok(ValueView::Bool(all_of_kind(args, Kind::Lambda)))),
        Native::IsForeignFn => Some(Ok(ValueView::Bool(all_of_kind(args, Kind::ForeignFn)))),
        Native::IsExecutable => Some(Ok(ValueView::Bool(all_of_kind(args, Kind::Executable)))),
        Native::OptionSome => Some(some_spec(args)),
        Native::OptionNone => Some(none_spec(args)),
        Native::OptionUnwrap => Some(unwrap_spec(args)),
        Native::IsNan => Some(float_method(args, |v: u64| ValueView::Bool(float_is_nan(v)))),
        Native::IsInfinite => Some(float_method(args, |v: u64| ValueView::Bool(is_infinite(v)))),
        Native::IsFinite => Some(float_method(args, |v: u64| ValueView::Bool(is_finite(v)))),
        Native::IsNormal => Some(float_method(args, |v: u64| ValueView::Bool(is_normal(v)))),
        Native::IsSignPositive => Some(float_method(args, |v: u64| ValueView::Bool(!sign_of(v)))),
        Native::IsSignNegative => Some(float_method(args, |v: u64| ValueView::Bool(sign_of(v)))),
        Native::Floor => Some(float_method(args, |v: u64| ValueView::Int(floor_of(v)))),
        Native::Ceil => Some(float_method(args, |v: u64| ValueView::Int(ceil_of(v)))),
        Native::Round => Some(float_method(args, |v: u64| ValueView::Int(round_of(v)))),
        Native::Trunc => Some(float_method(args, |v: u64| ValueView::Int(truncated(v)))),
        Native::CountOnes => Some(
            int_method(args, |v: i64| ValueView::Int(ones(bits_of(v)) as i64)),
        ),
        Native::CountZeros => Some(
            int_method(args, |v: i64| ValueView::Int((64 - ones(bits_of(v))) as i64)),
        ),
        Native::LeadingZeros => Some(
            int_method(args, |v: i64| ValueView::Int((64 - bit_length(bits_of(v))) as i64)),
        ),
        Native::TrailingZeros => Some(int_method(args, |v: i64| ValueView::Int(if v == 0 {
            64i64
        } else {
            low_zeros(bits_of(v)) as i64
        }))),
        Native::SwapBytes => Some(int_method(args, |v: i64| ValueView::Int(swapped_int(v)))),
        Native::Abs => Some(int_method(args, |v: i64| ValueView::Int(wrap64(if v < 0 {
            -v
        } else {
            v as int
        })))),
        Native::Signum => Some(int_method(args, |v: i64| ValueView::Int(if v < 0 {
            (-1) as i64
        } else if v == 0 {
            0i64
        } else {
            1i64
        }))),
        Native::IsPositive => Some(int_method(args, |v: i64| ValueView::Bool(v > 0))),
        Native::IsNegative => Some(int_method(args, |v: i64| ValueView::Bool(v < 0))),
        _ => None,
    }
}

/// A function of one integer.
pub open spec fn int_method(args: Seq<ValueView>, f: spec_fn(i64) -> ValueView) -> Result<
    ValueView,
    AresErrorView,
> {
    if args.len() != 1 {
        Err(arity_error(args.len() as int, "exactly 1"@))
    } else {
        match args[0] {
            ValueView::Int(v) => Ok(f(v)),
            other => Err(type_error(other, "Value::Int"@)),
        }
    }
}

/// Whether each of the first `n` values equals the first of all.
pub open spec fn all_equal(args: Seq<ValueView>, n: int) -> bool
    decreases n,
{
    if n <= 1 || n > args.len() {
        true
    } else {
        all_equal(args, n - 1) && values_equal(args[n - 1], args[0])
    }
}

/// What `=` returns: whether all its arguments, two at least, are equal.
pub open spec fn equals_spec(args: Seq<ValueView>) -> Result<ValueView, AresErrorView> {
    if args.len() < 2 {
        Err(arity_error(args.len() as int, "at least 2"@))
    } else {
        Ok(ValueView::Bool(all_equal(args, args.len() as int)))
    }
}

/// What `some` returns: the option that holds its argument.
pub open spec fn some_spec(args: Seq<ValueView>) -> Result<ValueView, AresErrorView> {
    if args.len() != 1 {
        Err(arity_error(args.len() as int, "exactly 1"@))
    } else {
        Ok(ValueView::Option(Some(Box::new(args[0]))))
    }
}

/// What `none` returns: the empty option.
pub open spec fn none_spec(args: Seq<ValueView>) -> Result<ValueView, AresErrorView> {
    if args.len() != 0 {
        Err(arity_error(args.len() as int, "exactly 0"@))
    } else {
        Ok(ValueView::Option(None))
    }
}

/// What `unwrap` returns: what the option holds.
pub open spec fn unwrap_spec(args: Seq<ValueView>) -> Result<ValueView, AresErrorView> {
    if args.len() != 1 {
        Err(arity_error(args.len() as int, "exactly 1"@))
    } else {
        match args[0] {
            ValueView::Option(Some(inner)) => Ok(*inner),
            ValueView::Option(None) => Err(AresErrorView::UnwrapNone),
            other => Err(type_error(other, "Option"@)),
        }
    }
}

/// The step that a computed result leads to.
pub open spec fn pure_step(m: MachineView, r: Option<Result<ValueView, AresErrorView>>) -> Step {
    match r {
        Some(Ok(v)) => Step::Next(m.complete(v)),
        Some(Err(e)) => Step::Fail(e),
        None => Step::Host(m),
    }
}

/// Whether a function with the tag `typeid` can be called by a machine that
/// was loaded with an embedder state of the tag `tag`: it was made for that
/// state, or for any.
pub open spec fn made_for(typeid: u64, tag: u64) -> bool {
    typeid == tag || typeid == crate::eval::foreign_function::ANY_STATE
}

/// Calls the native function `f` with `args`. A function of the embedder
/// that was made for another embedder state fails, and the embedder is not
/// asked.
pub open spec fn call_native(m: MachineView, f: ForeignFunctionView, args: Seq<ValueView>) -> Step {
    match f.function {
        Native::Host(_) => if made_for(f.typeid, m.tag) {
            Step::Host(m)
        } else {
            Step::Fail(AresErrorView::InvalidForeignFunctionState)
        },
        Native::Quote => quote(m, args),
        Native::If => cond(m, args),
        Native::Define => define(m, args, false),
        Native::DefineMacro => define(m, args, true),
        Native::Assign => set(m, args),
        Native::Lambda => lambda(m, args),
        Native::Let => lett(m, args),
        Native::Gensym => gensym(m, args),
        Native::Eval => eval(m, args),
        Native::Apply => apply(m, args),
        Native::Quasiquote => quasiquote(m, args),
        Native::UnquoteError => Step::Fail(AresErrorView::InvalidUnquotation),
        Native::MacroExpand => macroexpand(m, args),
        Native::And => and_next(m, args),
        Native::Or => or_next(m, args),
        Native::Xor => xor_next(m, args, false, false),
        Native::BuildList => build_list(m, args),
        Native::Add(b) => push_to_builder(m, b, args, false),
        Native::AddAll(b) => push_to_builder(m, b, args, true),
        Native::ForEach => foreach(m, args),
        Native::HashMap => hash_map(m, args),
        other => pure_step(m, pure_native(other, args, m.names)),
    }
}

/// `(quote x)` is `x`.
pub open spec fn quote(m: MachineView, args: Seq<ValueView>) -> Step {
    if args.len() != 1 {
        Step::Fail(arity_error(args.len() as int, "exactly 1"@))
    } else {
        Step::Next(m.complete(args[0]))
    }
}

/// `(if c a b)` evaluates `c`, and then `a` or `b`.
pub open spec fn cond(m: MachineView, args: Seq<ValueView>) -> Step {
    if args.len() != 3 {
        Step::Fail(arity_error(args.len() as int, "exactly 3"@))
    } else {
        Step::Next(m.push(FrameView::If { then: args[1], otherwise: args[2] }).eval(args[0]))
    }
}

/// The condition of an `if` was evaluated to `v`.
pub open spec fn from_if(m: MachineView, then: ValueView, otherwise: ValueView, v: ValueView)
    -> Step {
    match v {
        ValueView::Bool(true) => Step::Next(m.eval(then)),
        ValueView::Bool(false) => Step::Next(m.eval(otherwise)),
        other => Step::Fail(type_error(other, "Bool"@)),
    }
}

/// `(define name x)` and `(define-macro name x)`: the name must have no
/// binding in the current scope; then `x` is evaluated.
pub open spec fn define(m: MachineView, args: Seq<ValueView>, as_macro: bool) -> Step {
    if args.len() != 2 {
        Step::Fail(arity_error(args.len() as int, "exactly 2"@))
    } else {
        match args[0] {
            ValueView::Symbol(s) => if m.scopes[m.env() as int].bindings.contains_key(s.0) {
                Step::Fail(AresErrorView::AlreadyDefined(name_or_anon(m.names, s)))
            } else {
                Step::Next(m.push(FrameView::Define { name: s, as_macro: as_macro }).eval(args[1]))
            },
            other => Step::Fail(type_error(other, "Symbol"@)),
        }
    }
}

/// The value of a definition was evaluated to `v`: the name is bound to it
/// in the current scope, a closure as a macro if a macro is defined.
pub open spec fn from_define(m: MachineView, name: Symbol, as_macro: bool, v: ValueView) -> Step {
    if as_macro {
        match v {
            ValueView::Lambda(p, _) => Step::Next(
                m.with_scopes(
                    bound_here(m.scopes, m.env() as int, name, ValueView::Lambda(p, true)),
                ).complete(ValueView::Lambda(p, true)),
            ),
            other => Step::Fail(type_error(other, "Lambda"@)),
        }
    } else {
        Step::Next(m.with_scopes(bound_here(m.scopes, m.env() as int, name, v)).complete(v))
    }
}

/// `(set name x)`: the name must have a binding; then `x` is evaluated.
pub open spec fn set(m: MachineView, args: Seq<ValueView>) -> Step {
    if args.len() != 2 {
        Step::Fail(arity_error(args.len() as int, "exactly 2"@))
    } else {
        match args[0] {
            ValueView::Symbol(s) => if defining_scope(m.scopes, m.env() as int, s).is_none() {
                Step::Fail(AresErrorView::UndefinedName(name_or_anon(m.names, s)))
            } else {
                Step::Next(m.push(FrameView::Assign { name: s }).eval(args[1]))
            },
            other => Step::Fail(type_error(other, "Symbol"@)),
        }
    }
}

/// The value of a `set` was evaluated to `v`: the nearest binding of the
/// name gets it.
pub open spec fn from_assign(m: MachineView, name: Symbol, v: ValueView) -> Step {
    Step::Next(m.with_scopes(assigned(m.scopes, m.env() as int, name, v)).complete(v))
}

/// The parameters read so far off a parameter list.
pub struct ParamsRead {
    pub params: Seq<Symbol>,
    pub rest: Option<Symbol>,
    pub seen_dot: bool,
}

/// The parameters that the first `n` items of a parameter list name: each
/// symbol is a parameter; after a dot, one symbol names the rest.
pub open spec fn read_params(list: Seq<ValueView>, whole: ValueView, dot: Option<Symbol>, n: int)
    -> Result<ParamsRead, AresErrorView>
    decreases n,
{
    if n <= 0 || n > list.len() {
        Ok(ParamsRead { params: Seq::empty(), rest: None, seen_dot: false })
    } else {
        match read_params(list, whole, dot, n - 1) {
            Err(e) => Err(e),
            Ok(read) => match list[n - 1] {
                ValueView::Symbol(s) => if dot == Some(s) {
                    if read.seen_dot {
                        Err(AresErrorView::UnexpectedArgsList(whole))
                    } else {
                        Ok(ParamsRead { seen_dot: true, ..read })
                    }
                } else if read.seen_dot {
                    if read.rest.is_none() {
                        Ok(ParamsRead { rest: Some(s), ..read })
                    } else {
                        Err(AresErrorView::UnexpectedArgsList(whole))
                    }
                } else {
                    Ok(ParamsRead { params: read.params.push(s), ..read })
                },
                other => Err(type_error(other, "Symbol"@)),
            },
        }
    }
}

/// The parameters that the first argument of a `lambda` names: a list of
/// parameters, or one symbol for the list of all arguments.
pub open spec fn param_binding(spec: ValueView, dot: Option<Symbol>) -> Result<
    ParamBindingView,
    AresErrorView,
> {
    match spec {
        ValueView::List(list) => match read_params(list, spec, dot, list.len() as int) {
            Ok(read) => Ok(ParamBindingView { params: read.params, rest: read.rest }),
            Err(e) => Err(e),
        },
        ValueView::Symbol(s) => Ok(ParamBindingView { params: Seq::empty(), rest: Some(s) }),
        other => Err(AresErrorView::UnexpectedArgsList(other)),
    }
}

/// `(lambda params body ..)` is a closure of the current scope.
pub open spec fn lambda(m: MachineView, args: Seq<ValueView>) -> Step {
    if args.len() < 2 {
        Step::Fail(arity_error(args.len() as int, "at least 2"@))
    } else {
        match param_binding(args[0], symbol_named(m.names, "."@)) {
            Err(e) => Step::Fail(e),
            Ok(params) => if m.next_id == u64::MAX {
                Step::Fail(broken("no closure can be told from the others any more"@))
            } else {
                Step::Next(
                    MachineView { next_id: (m.next_id + 1) as u64, ..m }.complete(
                        ValueView::Lambda(
                            ProcedureView {
                                name: None,
                                bodies: args.skip(1),
                                param_names: params,
                                environment: m.env(),
                                id: m.next_id,
                            },
                            false,
                        ),
                    ),
                )
            },
        }
    }
}

/// `(let (name x ..) body ..)` enters a new scope, binds each name in it to
/// its value, which is evaluated in that scope, and evaluates the bodies.
pub open spec fn lett(m: MachineView, args: Seq<ValueView>) -> Step {
    if args.len() < 2 {
        Step::Fail(arity_error(args.len() as int, "at least 2"@))
    } else {
        match args[0] {
            ValueView::List(bindings) => if bindings.len() % 2 != 0 {
                Step::Fail(arity_error(bindings.len() as int, "an even number"@))
            } else {
                let_next(
                    m.with_scopes(
                        m.scopes.push(ScopeView { parent: Some(m.env()), bindings: Map::empty() }),
                    ).enter(m.scopes.len() as usize).push(FrameView::PopEnv),
                    bindings,
                    args.skip(1),
                )
            },
            other => Step::Fail(type_error(other, "List"@)),
        }
    }
}

/// Evaluates the value for the next name of a `let`, or its bodies.
pub open spec fn let_next(m: MachineView, bindings: Seq<ValueView>, bodies: Seq<ValueView>)
    -> Step {
    if bindings.len() < 2 {
        sequence(m, None, bodies)
    } else {
        match bindings[0] {
            ValueView::Symbol(s) => Step::Next(
                m.push(
                    FrameView::LetBinding { name: s, bindings: bindings.skip(2), bodies: bodies },
                ).eval(bindings[1]),
            ),
            other => Step::Fail(type_error(other, "Symbol"@)),
        }
    }
}

/// The value for a name of a `let` was evaluated to `v`.
pub open spec fn from_let(
    m: MachineView,
    name: Symbol,
    bindings: Seq<ValueView>,
    bodies: Seq<ValueView>,
    v: ValueView,
) -> Step {
    let_next(m.with_scopes(bound_here(m.scopes, m.env() as int, name, v)), bindings, bodies)
}

/// `(gensym)` and `(gensym prefix)` mint a symbol.
pub open spec fn gensym(m: MachineView, args: Seq<ValueView>) -> Step {
    if args.len() > 1 {
        Step::Fail(arity_error(args.len() as int, "either 0 or 1"@))
    } else if args.len() == 1 && !(args[0] is String) {
        Step::Fail(type_error(args[0], "String"@))
    } else if m.names.len() >= u32::MAX {
        Step::Fail(broken("no symbol is left"@))
    } else {
        let id = m.names.len() as u32;
        let name = if args.len() == 0 {
            None
        } else {
            Some(args[0]->String_0 + decimal(id as nat))
        };
        Step::Next(m.with_names(m.names.push(name)).complete(ValueView::Symbol(Symbol(id))))
    }
}

/// `(eval x)` evaluates the value of `x`.
pub open spec fn eval(m: MachineView, args: Seq<ValueView>) -> Step {
    if args.len() != 1 {
        Step::Fail(arity_error(args.len() as int, "exactly 1"@))
    } else {
        Step::Next(m.eval(args[0]))
    }
}

/// `(apply f list)` calls `f` with the items of the list.
pub open spec fn apply(m: MachineView, args: Seq<ValueView>) -> Step {
    if args.len() != 2 {
        Step::Fail(arity_error(args.len() as int, "exactly 2"@))
    } else {
        match args[1] {
            ValueView::List(items) => Step::Next(
                m.push(FrameView::Call { function: args[0], args: items }),
            ),
            other => Step::Fail(type_error(other, "List"@)),
        }
    }
}

/// `and` evaluates its arguments from the left until one is false.
pub open spec fn and_next(m: MachineView, rest: Seq<ValueView>) -> Step {
    if rest.len() == 0 {
        Step::Next(m.complete(ValueView::Bool(true)))
    } else {
        Step::Next(m.push(FrameView::And { rest: rest.skip(1) }).eval(rest[0]))
    }
}

/// An argument of `and` was evaluated to `v`.
pub open spec fn from_and(m: MachineView, rest: Seq<ValueView>, v: ValueView) -> Step {
    match v {
        ValueView::Bool(true) => and_next(m, rest),
        ValueView::Bool(false) => Step::Next(m.complete(ValueView::Bool(false))),
        other => Step::Fail(type_error(other, "Bool"@)),
    }
}

/// `or` evaluates its arguments from the left until one is true.
pub open spec fn or_next(m: MachineView, rest: Seq<ValueView>) -> Step {
    if rest.len() == 0 {
        Step::Next(m.complete(ValueView::Bool(false)))
    } else {
        Step::Next(m.push(FrameView::Or { rest: rest.skip(1) }).eval(rest[0]))
    }
}

/// An argument of `or` was evaluated to `v`.
pub open spec fn from_or(m: MachineView, rest: Seq<ValueView>, v: ValueView) -> Step {
    match v {
        ValueView::Bool(true) => Step::Next(m.complete(ValueView::Bool(true))),
        ValueView::Bool(false) => or_next(m, rest),
        other => Step::Fail(type_error(other, "Bool"@)),
    }
}

/// `xor` evaluates its arguments from the left until it has found a true
/// and a false one.
pub open spec fn xor_next(m: MachineView, rest: Seq<ValueView>, found_true: bool, found_false: bool)
    -> Step {
    if rest.len() == 0 {
        Step::Next(m.complete(ValueView::Bool(false)))
    } else {
        Step::Next(
            m.push(
                FrameView::Xor {
                    rest: rest.skip(1),
                    found_true: found_true,
                    found_false: found_false,
                },
            ).eval(rest[0]),
        )
    }
}

/// An argument of `xor` was evaluated to `v`.
pub open spec fn from_xor(
    m: MachineView,
    rest: Seq<ValueView>,
    found_true: bool,
    found_false: bool,
    v: ValueView,
) -> Step {
    match v {
        ValueView::Bool(b) => if (b && found_false) || (!b && found_true) {
            Step::Next(m.complete(ValueView::Bool(true)))
        } else {
            xor_next(m, rest, found_true || b, found_false || !b)
        },
        other => Step::Fail(type_error(other, "Bool"@)),
    }
}

/// The two functions that a `build-list` hands to its argument.
pub open spec fn adder(builder: usize, all: bool) -> ValueView {
    ValueView::ForeignFn(
        ForeignFunctionView {
            name: if all {
                "add-all"@
            } else {
                "add"@
            },
            typ: FfType::Free,
            function: if all {
                Native::AddAll(builder)
            } else {
                Native::Add(builder)
            },
            typeid: 0,
        },
    )
}

/// `(build-list f)` begins a list, evaluates `f`, and calls it with
/// functions that add to the list; the list is the result when `f` returns.
pub open spec fn build_list(m: MachineView, args: Seq<ValueView>) -> Step {
    if args.len() != 1 {
        Step::Fail(arity_error(args.len() as int, "exactly 1"@))
    } else {
        let b = m.builders.len() as usize;
        Step::Next(
            m.with_builders(m.builders.push(Some(Seq::empty()))).push(
                FrameView::BuildList { builder: b },
            ).push(FrameView::BuildCall { builder: b }).eval(args[0]),
        )
    }
}

/// Whether `f` is a closure of exactly one parameter.
pub open spec fn takes_one(f: ValueView) -> bool {
    match f {
        ValueView::Lambda(p, _) => p.param_names.params.len() == 1 && p.param_names.rest.is_none(),
        _ => false,
    }
}

/// The function of a `build-list` was evaluated to `f`: it is called with
/// the function that adds items, and with the one that adds the items of
/// lists too, unless it is a closure of one parameter.
pub open spec fn from_build_call(m: MachineView, builder: usize, f: ValueView) -> Step {
    Step::Next(
        m.push(
            FrameView::Call {
                function: f,
                args: if takes_one(f) {
                    seq![adder(builder, false)]
                } else {
                    seq![adder(builder, false), adder(builder, true)]
                },
            },
        ),
    )
}

/// The error for the use of an adder after its list is complete.
pub open spec fn builder_closed() -> AresErrorView {
    broken("build-list `add`er called after completion of build-list."@)
}

/// The function of a `build-list` returned: the list is complete.
pub open spec fn from_build_list(m: MachineView, builder: usize) -> Step {
    if builder < m.builders.len() && m.builders[builder as int].is_some() {
        Step::Next(
            m.with_builders(m.builders.update(builder as int, None)).complete(
                ValueView::List(m.builders[builder as int].unwrap()),
            ),
        )
    } else {
        Step::Fail(builder_closed())
    }
}

/// What the first `n` arguments of an adder add: themselves, or, for the
/// adder of lists, the items of those that are lists.
pub open spec fn added(args: Seq<ValueView>, all: bool, n: int) -> Seq<ValueView>
    decreases n,
{
    if n <= 0 || n > args.len() {
        Seq::empty()
    } else if !all {
        added(args, all, n - 1).push(args[n - 1])
    } else {
        match args[n - 1] {
            ValueView::List(items) => added(args, all, n - 1) + items,
            _ => added(args, all, n - 1),
        }
    }
}

/// An adder of a `build-list` adds to the list and returns its last
/// argument.
pub open spec fn push_to_builder(m: MachineView, builder: usize, args: Seq<ValueView>, all: bool)
    -> Step {
    if args.len() < 1 {
        Step::Fail(arity_error(args.len() as int, "at least 1"@))
    } else if builder < m.builders.len() && m.builders[builder as int].is_some() {
        Step::Next(
            m.with_builders(
                m.builders.update(
                    builder as int,
                    Some(m.builders[builder as int].unwrap() + added(args, all, args.len() as int)),
                ),
            ).complete(args.last()),
        )
    } else {
        Step::Fail(builder_closed())
    }
}

/// `(for-each list f)` calls `f` on each item and returns their number.
pub open spec fn foreach(m: MachineView, args: Seq<ValueView>) -> Step {
    if args.len() != 2 {
        Step::Fail(arity_error(args.len() as int, "exactly 2"@))
    } else {
        match args[0] {
            ValueView::List(items) => foreach_next(m, args[1], items, 0),
            other => Step::Fail(type_error(other, "List"@)),
        }
    }
}

/// Calls the function of a `for-each` on the next item, or returns the
/// count.
pub open spec fn foreach_next(m: MachineView, function: ValueView, rest: Seq<ValueView>, count: i64)
    -> Step {
    if rest.len() == 0 {
        Step::Next(m.complete(ValueView::Int(count)))
    } else {
        Step::Next(
            m.push(FrameView::ForEach { function: function, rest: rest.skip(1), count: count }).push(
                FrameView::Call { function: function, args: seq![rest[0]] },
            ),
        )
    }
}

/// The function of a `for-each` returned.
pub open spec fn from_foreach(m: MachineView, function: ValueView, rest: Seq<ValueView>, count: i64)
    -> Step {
    foreach_next(
        m,
        function,
        rest,
        if count < i64::MAX {
            (count + 1) as i64
        } else {
            count
        },
    )
}

/// The index of the first entry at or after `from` whose key equals `key`,
/// or the number of entries if there is none.
pub open spec fn key_index(entries: Seq<(ValueView, ValueView)>, key: ValueView, from: int) -> int
    decreases entries.len() - from,
{
    if 0 <= from < entries.len() && !values_equal(entries[from].0, key) {
        key_index(entries, key, from + 1)
    } else {
        from
    }
}

/// The entries after `key` is given the value `value`: the entry with an
/// equal key gets the value, or a new entry comes last.
pub open spec fn table_insert(entries: Seq<(ValueView, ValueView)>, key: ValueView, value: ValueView)
    -> Seq<(ValueView, ValueView)> {
    let i = key_index(entries, key, 0);
    if i < entries.len() {
        entries.update(i, (entries[i].0, value))
    } else {
        entries.push((key, value))
    }
}

/// Whether no symbol means a macro, seen from the scope that the machine is
/// in.
pub open spec fn no_macro_bound(m: MachineView) -> bool {
    forall|s: Symbol|
        match #[trigger] lookup(m.scopes, m.env() as int, s) {
            Some(ValueView::Lambda(_, true)) => false,
            _ => true,
        }
}

/// Whether no two entries have equal keys.
pub open spec fn distinct_keys(entries: Seq<(ValueView, ValueView)>) -> bool {
    forall|i: int, j: int|
        0 <= i < j < entries.len() ==> !values_equal(
            (#[trigger] entries[i]).0,
            (#[trigger] entries[j]).0,
        )
}

/// The map made of the first `n` pairs of keys and values that stand in
/// turn in `items`.
pub open spec fn table_of(items: Seq<ValueView>, n: int) -> Seq<(ValueView, ValueView)>
    decreases n,
{
    if n <= 0 || 2 * n > items.len() {
        Seq::empty()
    } else {
        table_insert(table_of(items, n - 1), items[2 * n - 2], items[2 * n - 1])
    }
}

/// `(hash-map k v ..)` evaluates keys and values in turn.
pub open spec fn hash_map(m: MachineView, args: Seq<ValueView>) -> Step {
    if args.len() % 2 == 1 {
        Step::Fail(arity_error(args.len() as int, "an even number"@))
    } else {
        table_next(m, Seq::empty(), args)
    }
}

/// Evaluates the next key of a `hash-map`, or returns the map.
pub open spec fn table_next(
    m: MachineView,
    entries: Seq<(ValueView, ValueView)>,
    rest: Seq<ValueView>,
) -> Step {
    if rest.len() == 0 {
        Step::Next(m.complete(ValueView::Table(entries)))
    } else {
        Step::Next(
            m.push(FrameView::Table { entries: entries, key: None, rest: rest.skip(1) }).eval(
                rest[0],
            ),
        )
    }
}

/// A key or a value of a `hash-map` was evaluated to `v`. A list or a map
/// is no key.
pub open spec fn from_table(
    m: MachineView,
    entries: Seq<(ValueView, ValueView)>,
    key: Option<ValueView>,
    rest: Seq<ValueView>,
    v: ValueView,
) -> Step {
    match key {
        None => if v is List || v is Table {
            Step::Fail(type_error(v, "a hashable type"@))
        } else if rest.len() == 0 {
            Step::Fail(broken("a key without a value"@))
        } else {
            Step::Next(
                m.push(FrameView::Table { entries: entries, key: Some(v), rest: rest.skip(1) }).eval(
                    rest[0],
                ),
            )
        },
        Some(k) => table_next(m, table_insert(entries, k, v), rest),
    }
}

/// `(quasiquote t)` instantiates the template `t`.
pub open spec fn quasiquote(m: MachineView, args: Seq<ValueView>) -> Step {
    if args.len() != 1 {
        Step::Fail(arity_error(args.len() as int, "exactly 1"@))
    } else {
        template(m, args[0])
    }
}

/// Instantiates a template: `(unquote x)` is the value of `x`, any other
/// list is the list of its items instantiated, and everything else is
/// itself. A splice needs a list around it.
pub open spec fn template(m: MachineView, v: ValueView) -> Step {
    match v {
        ValueView::List(list) => if list.len() >= 1 && is_symbol(
            list[0],
            symbol_named(m.names, "unquote-splicing"@),
        ) {
            Step::Fail(AresErrorView::InvalidUnquotation)
        } else if list.len() == 2 && is_symbol(list[0], symbol_named(m.names, "unquote"@)) {
            Step::Next(m.eval(list[1]))
        } else {
            template_list(m, Seq::empty(), list)
        },
        other => Step::Next(m.complete(other)),
    }
}

/// Instantiates the items `rest` of a list template after the items `done`:
/// `(unquote x)` gives the value of `x`, `(unquote-splicing x)` the items of
/// the value of `x`, and any other item itself, instantiated.
pub open spec fn template_list(m: MachineView, done: Seq<ValueView>, rest: Seq<ValueView>) -> Step
    decreases rest.len(),
{
    if rest.len() == 0 {
        Step::Next(m.complete(ValueView::List(done)))
    } else {
        match rest[0] {
            ValueView::List(inner) => if inner.len() == 2 && is_symbol(
                inner[0],
                symbol_named(m.names, "unquote"@),
            ) {
                Step::Next(
                    m.push(
                        FrameView::TemplateList { done: done, rest: rest.skip(1), splice: false },
                    ).eval(inner[1]),
                )
            } else if inner.len() == 2 && is_symbol(
                inner[0],
                symbol_named(m.names, "unquote-splicing"@),
            ) {
                Step::Next(
                    m.push(
                        FrameView::TemplateList { done: done, rest: rest.skip(1), splice: true },
                    ).eval(inner[1]),
                )
            } else {
                Step::Next(
                    m.push(
                        FrameView::TemplateList { done: done, rest: rest.skip(1), splice: false },
                    ).push(FrameView::Template(rest[0])),
                )
            },
            other => template_list(m, done.push(other), rest.skip(1)),
        }
    }
}

/// An item of a list template was instantiated to `v`.
pub open spec fn from_template_list(
    m: MachineView,
    done: Seq<ValueView>,
    rest: Seq<ValueView>,
    splice: bool,
    v: ValueView,
) -> Step {
    if splice {
        match v {
            ValueView::List(items) => template_list(m, done + items, rest),
            other => Step::Fail(type_error(other, "list"@)),
        }
    } else {
        template_list(m, done.push(v), rest)
    }
}

/// `(macroexpand x)` expands the macros in the value of `x`.
pub open spec fn macroexpand(m: MachineView, args: Seq<ValueView>) -> Step {
    if args.len() != 1 {
        Step::Fail(arity_error(args.len() as int, "exactly 1"@))
    } else {
        expand(m, args[0])
    }
}

/// Whether `v` is a call of a macro: a list whose head is a symbol, not
/// `quote`, that is bound to a macro.
pub open spec fn macro_of(m: MachineView, v: ValueView) -> Option<ValueView> {
    match v {
        ValueView::List(list) => if list.len() == 0 {
            None
        } else {
            match list[0] {
                ValueView::Symbol(s) => if symbol_named(m.names, "quote"@) == Some(s) {
                    None
                } else {
                    match lookup(m.scopes, m.env() as int, s) {
                        Some(ValueView::Lambda(p, true)) => Some(ValueView::Lambda(p, true)),
                        _ => None,
                    }
                },
                _ => None,
            }
        },
        _ => None,
    }
}

/// Whether the expansion of `v` looks into it: it is a list that is neither
/// empty nor a `quote` form.
pub open spec fn is_walked(m: MachineView, v: ValueView) -> bool {
    match v {
        ValueView::List(list) => list.len() > 0 && !is_symbol(
            list[0],
            symbol_named(m.names, "quote"@),
        ),
        _ => false,
    }
}

/// Expands the macros in `v`: a call of a macro is replaced by what the
/// macro returns for its arguments as they stand, expanded in turn; in any
/// other list that is no `quote` form the children are expanded. All else
/// stays as it is.
pub open spec fn expand(m: MachineView, v: ValueView) -> Step {
    match macro_of(m, v) {
        Some(mac) => Step::Next(
            m.push(FrameView::ExpandMacro).push(
                FrameView::Call { function: mac, args: v->List_0.skip(1) },
            ),
        ),
        None => if is_walked(m, v) {
            expand_list(m, Seq::empty(), v->List_0)
        } else {
            Step::Next(m.complete(v))
        },
    }
}

/// Expands the next child of a list, or returns the list of the expanded
/// children.
pub open spec fn expand_list(m: MachineView, done: Seq<ValueView>, rest: Seq<ValueView>) -> Step {
    if rest.len() == 0 {
        Step::Next(m.complete(ValueView::List(done)))
    } else {
        Step::Next(
            m.push(FrameView::ExpandList { done: done, rest: rest.skip(1) }).push(
                FrameView::Expand(rest[0]),
            ),
        )
    }
}

/// A value arrives at the frame beneath it.
pub open spec fn resume(m: MachineView, frame: FrameView, v: ValueView) -> Step {
    match frame {
        FrameView::PreEvaluatedCallable { unevaluated } => from_pre_evaluated(m, unevaluated, v),
        FrameView::ArgCollecting { function, evaluated, unevaluated } => from_arg_collecting(
            m,
            function,
            evaluated,
            unevaluated,
            v,
        ),
        FrameView::EvaluatingLambda { name, bodies } => from_evaluating_lambda(m, name, bodies, v),
        FrameView::PopEnv => Step::Next(m.leave().complete(v)),
        FrameView::If { then, otherwise } => from_if(m, then, otherwise, v),
        FrameView::Define { name, as_macro } => from_define(m, name, as_macro, v),
        FrameView::Assign { name } => from_assign(m, name, v),
        FrameView::LetBinding { name, bindings, bodies } => from_let(m, name, bindings, bodies, v),
        FrameView::And { rest } => from_and(m, rest, v),
        FrameView::Or { rest } => from_or(m, rest, v),
        FrameView::Xor { rest, found_true, found_false } => from_xor(
            m,
            rest,
            found_true,
            found_false,
            v,
        ),
        FrameView::Table { entries, key, rest } => from_table(m, entries, key, rest, v),
        FrameView::TemplateList { done, rest, splice } => from_template_list(
            m,
            done,
            rest,
            splice,
            v,
        ),
        FrameView::ForEach { function, rest, count } => from_foreach(m, function, rest, count),
        FrameView::BuildCall { builder } => from_build_call(m, builder, v),
        FrameView::BuildList { builder } => from_build_list(m, builder),
        FrameView::ExpandMacro => Step::Next(m.push(FrameView::Expand(v))),
        FrameView::HostThen { function } => call_native(m, function, seq![v]),
        FrameView::ExpandList { done, rest } => expand_list(m, done.push(v), rest),
        _ => Step::Fail(broken("a value has nothing to return to"@)),
    }
}

/// One step of the machine: the top frame is taken off the stack and worked
/// on; a result is handed to the frame beneath it.
pub open spec fn step(m: MachineView) -> Step {
    if m.stack.len() == 0 {
        Step::Fail(broken("the stack is empty"@))
    } else {
        match m.stack.last() {
            FrameView::Complete(v) => if m.stack.len() < 2 {
                Step::Fail(broken("a value has nothing to return to"@))
            } else {
                resume(m.pop().pop(), m.stack[m.stack.len() - 2], v)
            },
            FrameView::EvalThis(v, head) => eval_this(m.pop(), v, head),
            FrameView::PopEnv => Step::Next(m.pop().leave()),
            FrameView::Call { function, args } => do_apply(m.pop(), function, args),
            FrameView::Template(v) => template(m.pop(), v),
            FrameView::Expand(v) => expand(m.pop(), v),
            _ => Step::Fail(broken("a frame that waits is on top"@)),
        }
    }
}

/// Whether an evaluation that was entered under `target` frames is done: it
/// has left its result on top of the mark of its entry.
pub open spec fn done(m: MachineView, target: int) -> bool {
    m.stack.len() == target && m.stack.last() is Complete
}

/// How a run of the machine ends.
pub enum Outcome {
    /// With a result on top of the stack of this machine.
    Done(MachineView),
    /// With an error of a step from this machine.
    Failed(MachineView, AresErrorView),
    /// Out of steps, in this machine.
    OutOfSteps(MachineView),
    /// As the embedder decides.
    Unknown,
}

/// Runs the machine from `m` for up to `steps` steps, until an evaluation
/// that was entered under `target` frames is done.
pub open spec fn run(m: MachineView, target: int, steps: nat) -> Outcome
    decreases steps,
{
    if m.stack.len() < target {
        Outcome::Failed(m, broken("the stack is lower than at the entry"@))
    } else if done(m, target) {
        Outcome::Done(m)
    } else if steps == 0 {
        Outcome::OutOfSteps(m)
    } else {
        match step(m) {
            Step::Next(n) => run(n, target, (steps - 1) as nat),
            Step::Fail(e) => Outcome::Failed(m, e),
            Step::Host(_) => Outcome::Unknown,
        }
    }
}

} // verus!
