//! The special forms and the functions at the heart of the language.

use vstd::prelude::*;
use std::rc::Rc;
use crate::equality::equal_values;
use crate::error::{AresError, AresErrorView, AresResult, unexpected_arity, unexpected_type};
use crate::eval::context::Context;
use crate::eval::environment::ScopeView;
use crate::eval::frames::{MachineView, StepState, rest_of};
use crate::eval::semantics;
use crate::eval::semantics::{ParamsRead, Step, all_equal, equals_spec, is_symbol};
use crate::eval::{
    items_from,
    lemma_rest_of,
    lemma_rest_of_end,
    lemma_views_push,
    sequence,
    transition,
};
use crate::intern::{Symbol, symbol_named};
use crate::stdlib::arithmetic::gives;
use crate::value::{
    ParamBinding,
    Procedure,
    Value,
    ValueView,
    lemma_bodies_view,
    lemma_lambda_view,
    lemma_list_view,
    views,
};

verus! {

/// Whether all the arguments, two at least, are equal.
pub fn equals(args: &Vec<Value>) -> (r: AresResult<Value>)
    ensures
        gives(r, equals_spec(views(args@))),
{
    if args.len() < 2 {
        return Err(unexpected_arity(args.len(), "at least 2"));
    }
    let ghost all = views(args@);
    let mut same = true;
    let mut i: usize = 1;
    while i < args.len()
        invariant
            1 <= i <= args.len(),
            all == views(args@),
            same == all_equal(all, i as int),
        decreases args.len() - i,
    {
        assert(all[i as int] == args@[i as int]@);
        assert(all[0] == args@[0]@);
        if !equal_values(&args[i], &args[0]) {
            same = false;
        }
        i += 1;
    }
    Ok(Value::Bool(same))
}

/// `(quote x)`.
pub fn quote(args: Rc<Vec<Value>>, ctx: &mut Context) -> (r: AresResult<()>)
    requires
        old(ctx).wf(),
    ensures
        transition(*old(ctx), *final(ctx), r, semantics::quote(old(ctx)@, views(args@))),
{
    if args.len() != 1 {
        return Err(unexpected_arity(args.len(), "exactly 1"));
    }
    assert(views(args@)[0] == args@[0]@);
    ctx.complete(args[0].clone());
    Ok(())
}

/// `(if c a b)`.
pub fn cond(args: Rc<Vec<Value>>, ctx: &mut Context) -> (r: AresResult<()>)
    requires
        old(ctx).wf(),
    ensures
        transition(*old(ctx), *final(ctx), r, semantics::cond(old(ctx)@, views(args@))),
{
    if args.len() != 3 {
        return Err(unexpected_arity(args.len(), "exactly 3"));
    }
    assert(views(args@)[0] == args@[0]@);
    assert(views(args@)[1] == args@[1]@);
    assert(views(args@)[2] == args@[2]@);
    ctx.push(StepState::If { then: args[1].clone(), otherwise: args[2].clone() });
    ctx.request(args[0].clone());
    Ok(())
}

/// The condition of an `if` was evaluated to `v`.
pub fn from_if(then: Value, otherwise: Value, v: Value, ctx: &mut Context) -> (r: AresResult<()>)
    requires
        old(ctx).wf(),
    ensures
        transition(
            *old(ctx),
            *final(ctx),
            r,
            semantics::from_if(old(ctx)@, then@, otherwise@, v@),
        ),
{
    match v {
        Value::Bool(b) => {
            if b {
                ctx.request(then);
            } else {
                ctx.request(otherwise);
            }
            Ok(())
        },
        other => Err(unexpected_type(&other, "Bool")),
    }
}

/// `(define name x)` and, with `as_macro`, `(define-macro name x)`.
pub fn define_helper(args: Rc<Vec<Value>>, as_macro: bool, ctx: &mut Context) -> (r: AresResult<()>)
    requires
        old(ctx).wf(),
    ensures
        transition(*old(ctx), *final(ctx), r, semantics::define(old(ctx)@, views(args@), as_macro)),
{
    if args.len() != 2 {
        return Err(unexpected_arity(args.len(), "exactly 2"));
    }
    assert(views(args@)[0] == args@[0]@);
    assert(views(args@)[1] == args@[1]@);
    match &args[0] {
        Value::Symbol(s) => {
            let env = ctx.env();
            if ctx.scopes.is_defined_at_this_level(env, *s) {
                return Err(AresError::AlreadyDefined(ctx.interner.lookup_or_anon(*s)));
            }
            ctx.push(StepState::Define { name: *s, as_macro: as_macro });
            ctx.request(args[1].clone());
            Ok(())
        },
        other => Err(unexpected_type(other, "Symbol")),
    }
}

/// `(define name x)`.
pub fn define(args: Rc<Vec<Value>>, ctx: &mut Context) -> (r: AresResult<()>)
    requires
        old(ctx).wf(),
    ensures
        transition(*old(ctx), *final(ctx), r, semantics::define(old(ctx)@, views(args@), false)),
{
    define_helper(args, false, ctx)
}

/// `(define-macro name x)`.
pub fn define_macro(args: Rc<Vec<Value>>, ctx: &mut Context) -> (r: AresResult<()>)
    requires
        old(ctx).wf(),
    ensures
        transition(*old(ctx), *final(ctx), r, semantics::define(old(ctx)@, views(args@), true)),
{
    define_helper(args, true, ctx)
}

/// The value of a definition was evaluated to `v`.
pub fn from_define(name: Symbol, as_macro: bool, v: Value, ctx: &mut Context) -> (r: AresResult<()>)
    requires
        old(ctx).wf(),
    ensures
        transition(
            *old(ctx),
            *final(ctx),
            r,
            semantics::from_define(old(ctx)@, name, as_macro, v@),
        ),
{
    if as_macro {
        match v {
            Value::Lambda(p, m) => {
                proof {
                    lemma_lambda_view(p, m);
                    lemma_lambda_view(p, true);
                }
                let mac = Value::Lambda(p, true);
                ctx.bind_here(name, mac.clone());
                ctx.complete(mac);
                Ok(())
            },
            other => Err(unexpected_type(&other, "Lambda")),
        }
    } else {
        ctx.bind_here(name, v.clone());
        ctx.complete(v);
        Ok(())
    }
}

/// `(set name x)`.
pub fn set(args: Rc<Vec<Value>>, ctx: &mut Context) -> (r: AresResult<()>)
    requires
        old(ctx).wf(),
    ensures
        transition(*old(ctx), *final(ctx), r, semantics::set(old(ctx)@, views(args@))),
{
    if args.len() != 2 {
        return Err(unexpected_arity(args.len(), "exactly 2"));
    }
    assert(views(args@)[0] == args@[0]@);
    assert(views(args@)[1] == args@[1]@);
    match &args[0] {
        Value::Symbol(s) => {
            let env = ctx.env();
            if !ctx.scopes.is_defined(env, *s) {
                return Err(AresError::UndefinedName(ctx.interner.lookup_or_anon(*s)));
            }
            ctx.push(StepState::Assign { name: *s });
            ctx.request(args[1].clone());
            Ok(())
        },
        other => Err(unexpected_type(other, "Symbol")),
    }
}

/// The value of a `set` was evaluated to `v`.
pub fn from_assign(name: Symbol, v: Value, ctx: &mut Context) -> (r: AresResult<()>)
    requires
        old(ctx).wf(),
    ensures
        transition(*old(ctx), *final(ctx), r, semantics::from_assign(old(ctx)@, name, v@)),
{
    ctx.assign(name, v.clone());
    ctx.complete(v);
    Ok(())
}

/// Reads the parameter list `list`, which is the value `whole`.
fn read_params(list: &Vec<Value>, whole: &Value, dot: Option<Symbol>) -> (r: AresResult<
    ParamBinding,
>)
    ensures
        match semantics::read_params(views(list@), whole@, dot, list@.len() as int) {
            Ok(read) => r.is_ok() && r->Ok_0@.params == read.params && r->Ok_0@.rest == read.rest,
            Err(e) => r.is_err() && r->Err_0@ == e,
        },
{
    let ghost all = views(list@);
    let mut params: Vec<Symbol> = Vec::new();
    let mut rest: Option<Symbol> = None;
    let mut seen_dot = false;
    let mut i: usize = 0;
    while i < list.len()
        invariant
            i <= list.len(),
            all == views(list@),
            semantics::read_params(all, whole@, dot, i as int) == Ok::<ParamsRead, AresErrorView>(
                ParamsRead { params: params@, rest: rest, seen_dot: seen_dot },
            ),
        decreases list.len() - i,
    {
        assert(all[i as int] == list@[i as int]@);
        proof {
            if semantics::read_params(all, whole@, dot, i + 1).is_err() {
                lemma_params_error_stays(all, whole@, dot, i + 1, all.len() as int);
            }
        }
        match &list[i] {
            Value::Symbol(s) => {
                if dot == Some(*s) {
                    if seen_dot {
                        return Err(AresError::UnexpectedArgsList(whole.clone()));
                    }
                    seen_dot = true;
                } else if seen_dot {
                    if rest.is_none() {
                        rest = Some(*s);
                    } else {
                        return Err(AresError::UnexpectedArgsList(whole.clone()));
                    }
                } else {
                    params.push(*s);
                }
            },
            other => {
                return Err(unexpected_type(other, "Symbol"));
            },
        }
        i += 1;
    }
    Ok(ParamBinding { params: params, rest: rest })
}

proof fn lemma_params_error_stays(
    list: Seq<ValueView>,
    whole: ValueView,
    dot: Option<Symbol>,
    k: int,
    n: int,
)
    requires
        0 <= k <= n <= list.len(),
        semantics::read_params(list, whole, dot, k).is_err(),
    ensures
        semantics::read_params(list, whole, dot, n) == semantics::read_params(list, whole, dot, k),
    decreases n - k,
{
    if k < n {
        lemma_params_error_stays(list, whole, dot, k, n - 1);
    }
}

/// `(lambda params body ..)`.
pub fn lambda(args: Rc<Vec<Value>>, ctx: &mut Context) -> (r: AresResult<()>)
    requires
        old(ctx).wf(),
    ensures
        transition(*old(ctx), *final(ctx), r, semantics::lambda(old(ctx)@, views(args@))),
{
    if args.len() < 2 {
        return Err(unexpected_arity(args.len(), "at least 2"));
    }
    assert(views(args@)[0] == args@[0]@);
    let dot = ctx.interner.symbol_for_name(".");
    let param_names = match &args[0] {
        Value::List(v) => {
            proof {
                lemma_list_view(*v);
            }
            match read_params(v, &args[0], dot) {
                Ok(p) => p,
                Err(e) => {
                    return Err(e);
                },
            }
        },
        Value::Symbol(s) => ParamBinding { params: Vec::new(), rest: Some(*s) },
        x => {
            return Err(AresError::UnexpectedArgsList(x.clone()));
        },
    };
    if ctx.next_id == u64::MAX {
        return Err(
            AresError::InvalidState("no closure can be told from the others any more".to_owned()),
        );
    }
    let bodies = Rc::new(items_from(&args, 1));
    let id = ctx.next_id;
    let procedure = Procedure {
        name: None,
        bodies: bodies,
        param_names: Rc::new(param_names),
        environment: ctx.env(),
        id: id,
    };
    proof {
        lemma_lambda_view(procedure, false);
        lemma_bodies_view(procedure);
        lemma_rest_of(args@, 0);
        assert(rest_of(args@, 1) == views(args@).skip(1));
        assert(procedure@.param_names.params =~= param_names@.params);
    }
    ctx.next_id = id + 1;
    ctx.complete(Value::Lambda(procedure, false));
    Ok(())
}

/// Evaluates the value for the next name of a `let`, or its bodies.
pub fn let_next(bindings: Rc<Vec<Value>>, next: usize, form: Rc<Vec<Value>>, ctx: &mut Context) -> (r:
    AresResult<()>)
    requires
        old(ctx).wf(),
    ensures
        transition(
            *old(ctx),
            *final(ctx),
            r,
            semantics::let_next(old(ctx)@, rest_of(bindings@, next as int), rest_of(form@, 1)),
        ),
{
    if next < bindings.len() && next + 1 < bindings.len() {
        proof {
            lemma_rest_of(bindings@, next as int);
            lemma_rest_of(bindings@, next + 1);
            assert(rest_of(bindings@, next as int)[1] == bindings@[next + 1]@);
            assert(rest_of(bindings@, next as int).skip(2) =~= rest_of(bindings@, next + 2));
        }
        match &bindings[next] {
            Value::Symbol(s) => {
                let value = bindings[next + 1].clone();
                ctx.push(
                    StepState::LetBinding { name: *s, bindings: bindings, next: next + 2, form: form },
                );
                ctx.request(value);
                Ok(())
            },
            other => Err(unexpected_type(other, "Symbol")),
        }
    } else {
        proof {
            if next < bindings.len() {
                lemma_rest_of(bindings@, next as int);
            } else {
                lemma_rest_of_end(bindings@, next as int);
            }
        }
        sequence(ctx, None, form, 1)
    }
}

/// Whether the next step of a `let` fails, and with what.
fn let_check(bindings: &Rc<Vec<Value>>, next: usize, form: &Rc<Vec<Value>>) -> (r: AresResult<()>)
    ensures
        forall|m: MachineView|
            match #[trigger] semantics::let_next(
                m,
                rest_of(bindings@, next as int),
                rest_of(form@, 1),
            ) {
                Step::Fail(e) => r.is_err() && r->Err_0@ == e,
                _ => r.is_ok(),
            },
{
    if next < bindings.len() && next + 1 < bindings.len() {
        proof {
            lemma_rest_of(bindings@, next as int);
        }
        match &bindings[next] {
            Value::Symbol(_) => Ok(()),
            other => Err(unexpected_type(other, "Symbol")),
        }
    } else {
        proof {
            if next < bindings.len() {
                lemma_rest_of(bindings@, next as int);
            } else {
                lemma_rest_of_end(bindings@, next as int);
            }
            if 1 < form.len() {
                lemma_rest_of(form@, 1);
            } else {
                lemma_rest_of_end(form@, 1);
            }
        }
        if form.len() < 2 {
            Err(AresError::NoLambdaBody)
        } else {
            Ok(())
        }
    }
}

/// `(let (name x ..) body ..)`.
pub fn lett(args: Rc<Vec<Value>>, ctx: &mut Context) -> (r: AresResult<()>)
    requires
        old(ctx).wf(),
    ensures
        transition(*old(ctx), *final(ctx), r, semantics::lett(old(ctx)@, views(args@))),
{
    if args.len() < 2 {
        return Err(unexpected_arity(args.len(), "at least 2"));
    }
    assert(views(args@)[0] == args@[0]@);
    proof {
        lemma_rest_of(args@, 0);
        assert(rest_of(args@, 1) == views(args@).skip(1));
    }
    let bindings = match &args[0] {
        Value::List(inner) => {
            proof {
                lemma_list_view(*inner);
                if inner@.len() > 0 {
                    lemma_rest_of(inner@, 0);
                } else {
                    lemma_rest_of_end(inner@, 0);
                }
            }
            crate::value::share(inner)
        },
        other => {
            return Err(unexpected_type(other, "List"));
        },
    };
    if bindings.len() % 2 != 0 {
        return Err(unexpected_arity(bindings.len(), "an even number"));
    }
    match let_check(&bindings, 0, &args) {
        Err(e) => {
            return Err(e);
        },
        Ok(_) => {},
    }
    let env = ctx.env();
    let none: Vec<(Symbol, Value)> = Vec::new();
    let ghost before = ctx@;
    let inner = ctx.scopes.new_with_data(env, none);
    proof {
        assert(crate::eval::environment::pair_views(none@) =~= Seq::empty());
        assert(ctx@.scopes == before.scopes.push(
            ScopeView { parent: Some(env), bindings: Map::empty() },
        ));
        assert forall|i: int| 0 <= i < ctx@.env_stack.len() implies #[trigger] ctx@.env_stack[i]
            < ctx@.scopes.len() by {
            assert(ctx@.env_stack[i] == before.env_stack[i]);
        }
    }
    ctx.enter(inner);
    ctx.push(StepState::PopEnv);
    let_next(bindings, 0, args, ctx)
}

/// The value for the name `name` of a `let` was evaluated to `v`.
pub fn from_let(
    name: Symbol,
    bindings: Rc<Vec<Value>>,
    next: usize,
    form: Rc<Vec<Value>>,
    v: Value,
    ctx: &mut Context,
) -> (r: AresResult<()>)
    requires
        old(ctx).wf(),
    ensures
        transition(
            *old(ctx),
            *final(ctx),
            r,
            semantics::from_let(
                old(ctx)@,
                name,
                rest_of(bindings@, next as int),
                rest_of(form@, 1),
                v@,
            ),
        ),
{
    match let_check(&bindings, next, &form) {
        Err(e) => {
            return Err(e);
        },
        Ok(_) => {},
    }
    ctx.bind_here(name, v);
    let_next(bindings, next, form, ctx)
}

/// `(gensym)` and `(gensym prefix)`. The new symbol takes no name over:
/// every name that stood for a symbol still stands for that symbol.
pub fn gensym(args: Rc<Vec<Value>>, ctx: &mut Context) -> (r: AresResult<()>)
    requires
        old(ctx).wf(),
    ensures
        transition(*old(ctx), *final(ctx), r, semantics::gensym(old(ctx)@, views(args@))),
        forall|n: Seq<char>|
            symbol_named(old(ctx)@.names, n).is_some() ==> #[trigger] symbol_named(
                final(ctx)@.names,
                n,
            ) == symbol_named(old(ctx)@.names, n),
{
    if args.len() > 1 {
        return Err(unexpected_arity(args.len(), "either 0 or 1"));
    }
    if args.len() == 1 {
        assert(views(args@)[0] == args@[0]@);
        match &args[0] {
            Value::String(_) => {},
            other => {
                return Err(unexpected_type(other, "String"));
            },
        }
    }
    if ctx.interner.len() == u32::MAX {
        return Err(AresError::InvalidState("no symbol is left".to_owned()));
    }
    let symbol = if args.len() == 0 {
        ctx.interner.gen_sym()
    } else {
        match &args[0] {
            Value::String(s) => ctx.interner.gen_sym_prefix(s.as_str()),
            _ => ctx.interner.gen_sym(),
        }
    };
    ctx.complete(Value::Symbol(symbol));
    proof {
        let entry = ctx@.names[old(ctx)@.names.len() as int];
        assert(ctx@.names =~= old(ctx)@.names.push(entry));
        assert forall|n: Seq<char>|
            symbol_named(old(ctx)@.names, n).is_some() implies #[trigger] symbol_named(
            ctx@.names,
            n,
        ) == symbol_named(old(ctx)@.names, n) by {
            crate::intern::lemma_named_after_push(old(ctx)@.names, entry, n);
        }
    }
    Ok(())
}

/// `(eval x)`.
pub fn eval(args: Rc<Vec<Value>>, ctx: &mut Context) -> (r: AresResult<()>)
    requires
        old(ctx).wf(),
    ensures
        transition(*old(ctx), *final(ctx), r, semantics::eval(old(ctx)@, views(args@))),
{
    if args.len() != 1 {
        return Err(unexpected_arity(args.len(), "exactly 1"));
    }
    assert(views(args@)[0] == args@[0]@);
    ctx.request(args[0].clone());
    Ok(())
}

/// `(apply f list)`.
pub fn apply(args: Rc<Vec<Value>>, ctx: &mut Context) -> (r: AresResult<()>)
    requires
        old(ctx).wf(),
    ensures
        transition(*old(ctx), *final(ctx), r, semantics::apply(old(ctx)@, views(args@))),
{
    if args.len() != 2 {
        return Err(unexpected_arity(args.len(), "exactly 2"));
    }
    assert(views(args@)[0] == args@[0]@);
    assert(views(args@)[1] == args@[1]@);
    match &args[1] {
        Value::List(list) => {
            proof {
                lemma_list_view(*list);
                if list@.len() > 0 {
                    lemma_rest_of(list@, 0);
                } else {
                    lemma_rest_of_end(list@, 0);
                }
            }
            let items = items_from(list, 0);
            ctx.push(StepState::Call { function: args[0].clone(), args: items });
            Ok(())
        },
        other => Err(unexpected_type(other, "List")),
    }
}

/// Whether `v` is the symbol `s`, if there is one.
pub fn is_symbol_value(v: &Value, s: Option<Symbol>) -> (r: bool)
    ensures
        r == is_symbol(v@, s),
{
    match (v, s) {
        (Value::Symbol(x), Some(y)) => *x == y,
        _ => false,
    }
}

/// Instantiates the items of the list template `template` from the index
/// `next` on, after the items `done`.
pub fn template_list(done: Vec<Value>, template: Rc<Vec<Value>>, next: usize, ctx: &mut Context)
    -> (r: AresResult<()>)
    requires
        old(ctx).wf(),
    ensures
        transition(
            *old(ctx),
            *final(ctx),
            r,
            semantics::template_list(old(ctx)@, views(done@), rest_of(template@, next as int)),
        ),
{
    let unquote = ctx.interner.symbol_for_name("unquote");
    let splicing = ctx.interner.symbol_for_name("unquote-splicing");
    let ghost m = ctx@;
    let ghost goal = semantics::template_list(m, views(done@), rest_of(template@, next as int));
    let mut acc = done;
    let mut i: usize = next;
    while i < template.len()
        invariant
            next <= i,
            *ctx == *old(ctx),
            m == ctx@,
            ctx.wf(),
            unquote == crate::intern::symbol_named(m.names, "unquote"@),
            splicing == crate::intern::symbol_named(m.names, "unquote-splicing"@),
            goal == semantics::template_list(
                old(ctx)@,
                views(done@),
                rest_of(template@, next as int),
            ),
            goal == semantics::template_list(m, views(acc@), rest_of(template@, i as int)),
        ensures
            i >= template.len(),
            *ctx == *old(ctx),
            m == ctx@,
            ctx.wf(),
            goal == semantics::template_list(m, views(acc@), rest_of(template@, i as int)),
        decreases template.len() - i,
    {
        proof {
            lemma_rest_of(template@, i as int);
        }
        match &template[i] {
            Value::List(inner) => {
                proof {
                    lemma_list_view(*inner);
                }
                if inner.len() == 2 {
                    assert(views(inner@)[0] == inner@[0]@);
                    assert(views(inner@)[1] == inner@[1]@);
                }
                if inner.len() == 2 && is_symbol_value(&inner[0], unquote) {
                    let expr = inner[1].clone();
                    ctx.push(
                        StepState::TemplateList {
                            done: acc,
                            template: template,
                            next: i + 1,
                            splice: false,
                        },
                    );
                    ctx.request(expr);
                } else if inner.len() == 2 && is_symbol_value(&inner[0], splicing) {
                    let expr = inner[1].clone();
                    ctx.push(
                        StepState::TemplateList {
                            done: acc,
                            template: template,
                            next: i + 1,
                            splice: true,
                        },
                    );
                    ctx.request(expr);
                } else {
                    let elem = template[i].clone();
                    ctx.push(
                        StepState::TemplateList {
                            done: acc,
                            template: template,
                            next: i + 1,
                            splice: false,
                        },
                    );
                    ctx.push(StepState::Template(elem));
                }
                return Ok(());
            },
            other => {
                proof {
                    lemma_views_push(acc@, *other);
                }
                acc.push(other.clone());
            },
        }
        i += 1;
    }
    proof {
        lemma_rest_of_end(template@, i as int);
    }
    ctx.complete(Value::list(acc));
    Ok(())
}

/// Instantiates the template `v`.
pub fn template(v: Value, ctx: &mut Context) -> (r: AresResult<()>)
    requires
        old(ctx).wf(),
    ensures
        transition(*old(ctx), *final(ctx), r, semantics::template(old(ctx)@, v@)),
{
    match v {
        Value::List(list) => {
            proof {
                lemma_list_view(list);
                if list@.len() > 0 {
                    lemma_rest_of(list@, 0);
                    assert(views(list@)[0] == list@[0]@);
                } else {
                    lemma_rest_of_end(list@, 0);
                }
            }
            let unquote = ctx.interner.symbol_for_name("unquote");
            let splicing = ctx.interner.symbol_for_name("unquote-splicing");
            if list.len() >= 1 && is_symbol_value(&list[0], splicing) {
                Err(AresError::InvalidUnquotation)
            } else if list.len() == 2 && is_symbol_value(&list[0], unquote) {
                assert(views(list@)[1] == list@[1]@);
                ctx.request(list[1].clone());
                Ok(())
            } else {
                let done: Vec<Value> = Vec::new();
                assert(views(done@) =~= Seq::empty());
                template_list(done, list, 0, ctx)
            }
        },
        other => {
            ctx.complete(other);
            Ok(())
        },
    }
}

/// `(quasiquote t)`.
pub fn quasiquote(args: Rc<Vec<Value>>, ctx: &mut Context) -> (r: AresResult<()>)
    requires
        old(ctx).wf(),
    ensures
        transition(*old(ctx), *final(ctx), r, semantics::quasiquote(old(ctx)@, views(args@))),
{
    if args.len() != 1 {
        return Err(unexpected_arity(args.len(), "exactly 1"));
    }
    assert(views(args@)[0] == args@[0]@);
    template(args[0].clone(), ctx)
}

/// An item of a list template was instantiated to `v`.
pub fn from_template_list(
    done: Vec<Value>,
    template: Rc<Vec<Value>>,
    next: usize,
    splice: bool,
    v: Value,
    ctx: &mut Context,
) -> (r: AresResult<()>)
    requires
        old(ctx).wf(),
    ensures
        transition(
            *old(ctx),
            *final(ctx),
            r,
            semantics::from_template_list(
                old(ctx)@,
                views(done@),
                rest_of(template@, next as int),
                splice,
                v@,
            ),
        ),
{
    let mut done = done;
    if splice {
        match &v {
            Value::List(items) => {
                proof {
                    lemma_list_view(*items);
                }
                let ghost before = done@;
                let mut i: usize = 0;
                while i < items.len()
                    invariant
                        i <= items.len(),
                        done@ == before + items@.take(i as int),
                    decreases items.len() - i,
                {
                    done.push(items[i].clone());
                    assert(items@.take(i + 1) == items@.take(i as int).push(items@[i as int]));
                    i += 1;
                }
                assert(items@.take(items@.len() as int) == items@);
                assert(views(done@) =~= views(before) + views(items@));
                template_list(done, template, next, ctx)
            },
            other => Err(unexpected_type(other, "list")),
        }
    } else {
        proof {
            lemma_views_push(done@, v);
        }
        done.push(v);
        template_list(done, template, next, ctx)
    }
}

/// `(unquote x)` and `(unquote-splicing x)` outside a template.
pub fn unquote_error(args: Rc<Vec<Value>>, ctx: &mut Context) -> (r: AresResult<()>)
    requires
        old(ctx).wf(),
    ensures
        transition(
            *old(ctx),
            *final(ctx),
            r,
            Step::Fail(AresErrorView::InvalidUnquotation),
        ),
{
    Err(AresError::InvalidUnquotation)
}

/// Expands the next child of a list, or returns the list of the expanded
/// children.
pub fn expand_list(done: Vec<Value>, list: Rc<Vec<Value>>, next: usize, ctx: &mut Context) -> (r:
    AresResult<()>)
    requires
        old(ctx).wf(),
    ensures
        transition(
            *old(ctx),
            *final(ctx),
            r,
            semantics::expand_list(old(ctx)@, views(done@), rest_of(list@, next as int)),
        ),
{
    if next < list.len() {
        proof {
            lemma_rest_of(list@, next as int);
        }
        let child = list[next].clone();
        ctx.push(StepState::ExpandList { done: done, list: list, next: next + 1 });
        ctx.push(StepState::Expand(child));
    } else {
        proof {
            lemma_rest_of_end(list@, next as int);
        }
        ctx.complete(Value::list(done));
    }
    Ok(())
}

/// Expands the children of the list `v`, which is neither empty nor a
/// `quote` form.
pub fn walk(v: Value, ctx: &mut Context) -> (r: AresResult<()>)
    requires
        old(ctx).wf(),
        v@ is List,
    ensures
        transition(
            *old(ctx),
            *final(ctx),
            r,
            semantics::expand_list(old(ctx)@, Seq::empty(), v@->List_0),
        ),
{
    match v {
        Value::List(items) => {
            proof {
                lemma_list_view(items);
                if items@.len() > 0 {
                    lemma_rest_of(items@, 0);
                } else {
                    lemma_rest_of_end(items@, 0);
                }
            }
            let done: Vec<Value> = Vec::new();
            assert(views(done@) =~= Seq::empty());
            expand_list(done, items, 0, ctx)
        },
        other => {
            ctx.complete(other);
            Ok(())
        },
    }
}

/// Expands the macros in `v`.
pub fn expand(v: Value, ctx: &mut Context) -> (r: AresResult<()>)
    requires
        old(ctx).wf(),
    ensures
        transition(*old(ctx), *final(ctx), r, semantics::expand(old(ctx)@, v@)),
{
    let quote = ctx.interner.symbol_for_name("quote");
    let mac = match &v {
        Value::List(list) => {
            proof {
                lemma_list_view(*list);
            }
            if list.len() == 0 {
                None
            } else {
                assert(views(list@)[0] == list@[0]@);
                proof {
                    lemma_rest_of(list@, 0);
                    assert(rest_of(list@, 1) == views(list@).skip(1));
                }
                match &list[0] {
                    Value::Symbol(s) => {
                        if quote == Some(*s) {
                            None
                        } else {
                            match ctx.lookup(*s) {
                                Some(Value::Lambda(p, is_macro)) => {
                                    proof {
                                        lemma_lambda_view(p, is_macro);
                                        lemma_lambda_view(p, true);
                                    }
                                    if is_macro {
                                        Some((Value::Lambda(p, true), items_from(list, 1)))
                                    } else {
                                        None
                                    }
                                },
                                _ => None,
                            }
                        }
                    },
                    _ => None,
                }
            }
        },
        _ => None,
    };
    match mac {
        Some((function, args)) => {
            ctx.push(StepState::ExpandMacro);
            ctx.push(StepState::Call { function: function, args: args });
            Ok(())
        },
        None => {
            let walked = match &v {
                Value::List(list) => list.len() > 0 && !is_symbol_value(&list[0], quote),
                _ => false,
            };
            if walked {
                walk(v, ctx)
            } else {
                ctx.complete(v);
                Ok(())
            }
        },
    }
}

/// `(macroexpand x)`.
pub fn macroexpand(args: Rc<Vec<Value>>, ctx: &mut Context) -> (r: AresResult<()>)
    requires
        old(ctx).wf(),
    ensures
        transition(*old(ctx), *final(ctx), r, semantics::macroexpand(old(ctx)@, views(args@))),
{
    if args.len() != 1 {
        return Err(unexpected_arity(args.len(), "exactly 1"));
    }
    assert(views(args@)[0] == args@[0]@);
    expand(args[0].clone(), ctx)
}

} // verus!
