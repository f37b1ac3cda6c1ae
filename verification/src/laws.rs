//! What holds of every program: laws of the machine, proved from the
//! description of its steps.

use vstd::prelude::*;
use crate::error::AresErrorView;
use crate::eval::environment::{bound_here, defining_scope, lookup};
use crate::eval::frames::{FrameView, MachineView};
use crate::eval::semantics::{
    Outcome,
    Step,
    any_ast,
    define,
    done,
    eval_this,
    expand,
    expand_list,
    is_walked,
    macro_of,
    from_assign,
    from_define,
    run,
    step,
};
use crate::eval::toplevel;
use crate::intern::{Symbol, name_or_anon, symbol_named};
use crate::stdlib::{bound_to, knows_natives};
use crate::value::{FfType, ForeignFunctionView, Native, ValueView, is_source};

verus! {

/// A machine without its top frame is the machine before the frame was put
/// on it.
pub proof fn lemma_push_pop(m: MachineView, frame: FrameView)
    ensures
        m.push(frame).pop() == m,
        m.push(frame).stack.last() == frame,
        m.push(frame).stack.len() == m.stack.len() + 1,
{
    assert(m.push(frame).pop().stack =~= m.stack);
}

/// A value that is neither a symbol nor a list nor a closure is its own
/// value: its evaluation ends after one step, with the value itself, and
/// changes nothing.
pub proof fn lemma_a_plain_value_is_its_own_value(m: MachineView, v: ValueView, limit: nat)
    requires
        !(v is Symbol),
        !(v is List),
        !(v is Lambda),
        limit >= 1,
    ensures
        toplevel(m, FrameView::EvalThis(v, false), limit) == Outcome::Done(
            m.push(FrameView::Return).complete(v),
        ),
{
    let base = m.push(FrameView::Return);
    let m0 = base.push(FrameView::EvalThis(v, false));
    let target = (m.stack.len() + 2) as int;
    lemma_push_pop(m, FrameView::Return);
    lemma_push_pop(base, FrameView::EvalThis(v, false));
    lemma_push_pop(base, FrameView::Complete(v));
    assert(step(m0) == Step::Next(base.complete(v)));
    reveal_with_fuel(run, 2);
}

/// Quoting gives the value back: where `quote` names the special form of
/// that name, the evaluation of `(quote v)` ends, after three steps, with
/// `v` itself, whatever value of source text `v` is, and changes nothing.
pub proof fn lemma_quote_gives_the_value_back(
    m: MachineView,
    quote: Symbol,
    f: ForeignFunctionView,
    v: ValueView,
    limit: nat,
)
    requires
        lookup(m.scopes, m.env() as int, quote) == Some(ValueView::ForeignFn(f)),
        f.function == Native::Quote,
        f.typ == FfType::Ast,
        is_source(v),
        limit >= 3,
    ensures
        toplevel(
            m,
            FrameView::EvalThis(ValueView::List(seq![ValueView::Symbol(quote), v]), false),
            limit,
        ) == Outcome::Done(m.push(FrameView::Return).complete(v)),
{
    let form = ValueView::List(seq![ValueView::Symbol(quote), v]);
    let target = (m.stack.len() + 2) as int;
    let base = m.push(FrameView::Return);
    let m0 = base.push(FrameView::EvalThis(form, false));
    let args = seq![ValueView::Symbol(quote), v].skip(1);
    assert(args =~= seq![v]);
    let waiting = base.push(FrameView::PreEvaluatedCallable { unevaluated: args });
    let m1 = waiting.push(FrameView::EvalThis(ValueView::Symbol(quote), true));
    let m2 = waiting.complete(ValueView::ForeignFn(f));
    let m3 = base.complete(v);
    lemma_push_pop(m, FrameView::Return);
    lemma_push_pop(base, FrameView::EvalThis(form, false));
    lemma_push_pop(base, FrameView::PreEvaluatedCallable { unevaluated: args });
    lemma_push_pop(waiting, FrameView::EvalThis(ValueView::Symbol(quote), true));
    lemma_push_pop(waiting, FrameView::Complete(ValueView::ForeignFn(f)));
    lemma_push_pop(base, FrameView::Complete(v));
    assert(step(m0) == Step::Next(m1));
    assert(step(m1) == Step::Next(m2));
    assert(m2.pop().pop() == base);
    assert(m2.stack[m2.stack.len() - 2] == FrameView::PreEvaluatedCallable { unevaluated: args });
    assert(!any_ast(seq![v], 1)) by {
        reveal_with_fuel(any_ast, 2);
    }
    assert(step(m2) == Step::Next(m3));
    reveal_with_fuel(run, 4);
    assert(run(m3, target, (limit - 3) as nat) == Outcome::Done(m3));
    assert(run(m2, target, (limit - 2) as nat) == Outcome::Done(m3));
    assert(run(m1, target, (limit - 1) as nat) == Outcome::Done(m3));
}

/// A special form is no value: a symbol that names one can only be the head
/// of a call. Everywhere else its evaluation fails.
pub proof fn lemma_special_form_is_no_value(m: MachineView, name: Symbol, f: ForeignFunctionView)
    requires
        lookup(m.scopes, m.env() as int, name) == Some(ValueView::ForeignFn(f)),
        f.typ == FfType::Ast,
    ensures
        eval_this(m, ValueView::Symbol(name), false) == Step::Fail(AresErrorView::AstFunctionPass),
        eval_this(m, ValueView::Symbol(name), true) == Step::Next(
            m.complete(ValueView::ForeignFn(f)),
        ),
{
}

/// A name that was defined cannot be defined again in the same scope: after
/// a definition has bound `name`, a `define` of that name fails before it
/// evaluates anything.
pub proof fn lemma_redefinition_fails(m: MachineView, name: Symbol, v: ValueView, again: ValueView)
    requires
        m.wf(),
    ensures
        match from_define(m, name, false, v) {
            Step::Next(after) => define(
                after.pop(),
                seq![ValueView::Symbol(name), again],
                false,
            ) == Step::Fail(AresErrorView::AlreadyDefined(name_or_anon(m.names, name))),
            _ => false,
        },
{
    let bound = m.with_scopes(bound_here(m.scopes, m.env() as int, name, v));
    lemma_push_pop(bound, FrameView::Complete(v));
    assert(m.env() < m.scopes.len()) by {
        if m.env_stack.len() > 0 {
            assert(m.env_stack[m.env_stack.len() - 1] < m.scopes.len());
        }
    }
}

/// `set` needs a binding: for a name that has none, seen from the scope
/// that the machine is in, it fails before it evaluates anything.
pub proof fn lemma_set_needs_a_binding(m: MachineView, name: Symbol, x: ValueView)
    requires
        defining_scope(m.scopes, m.env() as int, name).is_none(),
    ensures
        crate::eval::semantics::set(m, seq![ValueView::Symbol(name), x]) == Step::Fail(
            AresErrorView::UndefinedName(name_or_anon(m.names, name)),
        ),
{
}

/// `set` changes the binding in place: once the new value `v` of a name
/// that has a binding is evaluated, the name has that value, seen from the
/// same scope; its binding is still in the scope it was in; and `v` is the
/// result.
pub proof fn lemma_set_changes_the_binding(m: MachineView, name: Symbol, v: ValueView)
    requires
        m.wf(),
        defining_scope(m.scopes, m.env() as int, name).is_some(),
    ensures
        match from_assign(m, name, v) {
            Step::Next(after) => lookup(after.scopes, after.env() as int, name) == Some(v)
                && defining_scope(after.scopes, after.env() as int, name) == defining_scope(
                m.scopes,
                m.env() as int,
                name,
            ) && after.stack.last() == FrameView::Complete(v) && after.scopes.len()
                == m.scopes.len(),
            _ => false,
        },
{
    crate::eval::environment::lemma_lookup_after_assign(m.scopes, m.env() as int, name, v);
    crate::eval::environment::lemma_defining_scope_in_range(m.scopes, m.env() as int, name);
}

/// Whether no macro is called in the tree `t`, as the expansion walks it
/// from the machine `m`: `t` is no call of a macro, and if the expansion
/// looks into it, none is called in its children.
pub open spec fn macro_free(m: MachineView, t: ValueView) -> bool
    decreases t, 0nat,
{
    match t {
        ValueView::List(items) => macro_of(m, t).is_none() && (is_walked(m, t)
            ==> all_macro_free(m, items, items.len())),
        _ => true,
    }
}

/// Whether no macro is called in the first `n` of the trees `items`.
pub open spec fn all_macro_free(m: MachineView, items: Seq<ValueView>, n: nat) -> bool
    decreases items, n,
{
    if n == 0 || n > items.len() {
        true
    } else {
        all_macro_free(m, items, (n - 1) as nat) && macro_free(m, items[n - 1])
    }
}

/// The number of steps that the expansion of a tree without macros takes.
pub open spec fn expansion_steps(m: MachineView, t: ValueView) -> nat
    decreases t, 0nat,
{
    match t {
        ValueView::List(items) => if is_walked(m, t) {
            1 + children_steps(m, items, 0)
        } else {
            1
        },
        _ => 1,
    }
}

/// The number of steps that the expansion of the children `items[k..]`
/// takes.
pub open spec fn children_steps(m: MachineView, items: Seq<ValueView>, k: int) -> nat
    decreases items, items.len() - k,
{
    if k < 0 || k >= items.len() {
        0
    } else {
        expansion_steps(m, items[k]) + 1 + children_steps(m, items, k + 1)
    }
}

/// Whether two machines are in the same scope, with the same scopes and
/// symbols.
pub open spec fn same_surroundings(a: MachineView, b: MachineView) -> bool {
    a.scopes == b.scopes && a.names == b.names && a.env_stack == b.env_stack
}

proof fn lemma_same_surroundings(a: MachineView, b: MachineView, t: ValueView)
    requires
        same_surroundings(a, b),
    ensures
        macro_free(a, t) == macro_free(b, t),
        expansion_steps(a, t) == expansion_steps(b, t),
        macro_of(a, t) == macro_of(b, t),
        is_walked(a, t) == is_walked(b, t),
    decreases t, 0nat,
{
    match t {
        ValueView::List(items) => {
            lemma_same_surroundings_all(a, b, items, items.len());
            lemma_same_surroundings_steps(a, b, items, 0);
        },
        _ => {},
    }
}

proof fn lemma_same_surroundings_all(a: MachineView, b: MachineView, items: Seq<ValueView>, n: nat)
    requires
        same_surroundings(a, b),
    ensures
        all_macro_free(a, items, n) == all_macro_free(b, items, n),
    decreases items, n,
{
    if !(n == 0 || n > items.len()) {
        lemma_same_surroundings_all(a, b, items, (n - 1) as nat);
        lemma_same_surroundings(a, b, items[n - 1]);
    }
}

proof fn lemma_same_surroundings_steps(a: MachineView, b: MachineView, items: Seq<ValueView>, k: int)
    requires
        same_surroundings(a, b),
    ensures
        children_steps(a, items, k) == children_steps(b, items, k),
    decreases items, items.len() - k,
{
    if !(k < 0 || k >= items.len()) {
        lemma_same_surroundings(a, b, items[k]);
        lemma_same_surroundings_steps(a, b, items, k + 1);
    }
}

proof fn lemma_each_macro_free(m: MachineView, items: Seq<ValueView>, n: nat, i: int)
    requires
        all_macro_free(m, items, n),
        0 <= i < n <= items.len(),
    ensures
        macro_free(m, items[i]),
    decreases n,
{
    if i < n - 1 {
        lemma_each_macro_free(m, items, (n - 1) as nat, i);
    }
}

/// One step of a run that is not over.
proof fn lemma_run_step(m: MachineView, target: int, steps: nat, next: MachineView)
    requires
        m.stack.len() >= target,
        !done(m, target),
        steps > 0,
        step(m) == Step::Next(next),
    ensures
        run(m, target, steps) == run(next, target, (steps - 1) as nat),
{
}

/// The expansion of a tree without macros, wherever it stands on the stack,
/// leaves the tree itself as its result.
proof fn lemma_expand_in_place(c: MachineView, t: ValueView, target: int, steps: nat)
    requires
        macro_free(c, t),
        target <= c.stack.len() + 1,
        steps >= expansion_steps(c, t),
    ensures
        run(c.push(FrameView::Expand(t)), target, steps) == run(
            c.complete(t),
            target,
            (steps - expansion_steps(c, t)) as nat,
        ),
    decreases t, 0nat,
{
    let m0 = c.push(FrameView::Expand(t));
    lemma_push_pop(c, FrameView::Expand(t));
    assert(step(m0) == expand(c, t));
    if is_walked(c, t) {
        let items = t->List_0;
        assert(items.take(0) =~= Seq::empty());
        assert(items.skip(0) =~= items);
        lemma_expand_children_in_place(c, items, 0, target, (steps - 1) as nat);
        let next = expand_list(c, Seq::empty(), items)->Next_0;
        assert(step(m0) == Step::Next(next));
        lemma_run_step(m0, target, steps, next);
    } else {
        lemma_run_step(m0, target, steps, c.complete(t));
    }
}

proof fn lemma_expand_children_in_place(
    c: MachineView,
    items: Seq<ValueView>,
    k: int,
    target: int,
    steps: nat,
)
    requires
        0 <= k <= items.len(),
        all_macro_free(c, items, items.len()),
        target <= c.stack.len() + 1,
        steps >= children_steps(c, items, k),
    ensures
        expand_list(c, items.take(k), items.skip(k)) is Next,
        run(expand_list(c, items.take(k), items.skip(k))->Next_0, target, steps) == run(
            c.complete(ValueView::List(items)),
            target,
            (steps - children_steps(c, items, k)) as nat,
        ),
    decreases items, items.len() - k,
{
    if k == items.len() {
        assert(items.take(k) =~= items);
        assert(items.skip(k).len() == 0);
    } else {
        let child = items[k];
        let frame = FrameView::ExpandList { done: items.take(k), rest: items.skip(k).skip(1) };
        let c1 = c.push(frame);
        assert(items.skip(k)[0] == child);
        let m0 = c1.push(FrameView::Expand(child));
        assert(expand_list(c, items.take(k), items.skip(k)) == Step::Next(m0));
        lemma_each_macro_free(c, items, items.len(), k);
        lemma_same_surroundings(c, c1, child);
        lemma_expand_in_place(c1, child, target, steps);
        let m1 = c1.complete(child);
        let left = (steps - expansion_steps(c, child)) as nat;
        lemma_push_pop(c1, FrameView::Complete(child));
        lemma_push_pop(c, frame);
        assert(m1.pop().pop() == c);
        assert(m1.stack[m1.stack.len() - 2] == frame);
        assert(items.take(k).push(child) =~= items.take(k + 1));
        assert(items.skip(k).skip(1) =~= items.skip(k + 1));
        lemma_expand_children_in_place(c, items, k + 1, target, (left - 1) as nat);
        let next = expand_list(c, items.take(k + 1), items.skip(k + 1))->Next_0;
        assert(step(m1) == Step::Next(next));
        lemma_run_step(m1, target, left, next);
    }
}

/// To expand what is expanded changes nothing: the expansion of a tree in
/// which no macro is called ends with the tree itself, and leaves the
/// scopes and the symbols as they were.
pub proof fn lemma_expanding_the_expanded_changes_nothing(m: MachineView, t: ValueView, limit: nat)
    requires
        macro_free(m, t),
        limit >= expansion_steps(m, t),
    ensures
        toplevel(m, FrameView::Expand(t), limit) == Outcome::Done(
            m.push(FrameView::Return).complete(t),
        ),
{
    let base = m.push(FrameView::Return);
    let target = (m.stack.len() + 2) as int;
    lemma_same_surroundings(m, base, t);
    lemma_expand_in_place(base, t, target, limit);
    lemma_push_pop(base, FrameView::Complete(t));
}

/// In an interpreter that knows the standard library, quoting gives the
/// value back: the evaluation of `(quote v)` ends with `v` itself, whatever
/// value of source text `v` is.
pub proof fn lemma_quote_in_the_standard_library(m: MachineView, v: ValueView, limit: nat)
    requires
        knows_natives(m),
        is_source(v),
        limit >= 3,
    ensures
        symbol_named(m.names, "quote"@).is_some(),
        toplevel(
            m,
            FrameView::EvalThis(
                ValueView::List(
                    seq![ValueView::Symbol(symbol_named(m.names, "quote"@).unwrap()), v],
                ),
                false,
            ),
            limit,
        ) == Outcome::Done(m.push(FrameView::Return).complete(v)),
{
    let f = ForeignFunctionView {
        name: "quote"@,
        typ: FfType::Ast,
        function: Native::Quote,
        typeid: 0,
    };
    assert(bound_to(m, "quote"@, FfType::Ast, Native::Quote));
    lemma_quote_gives_the_value_back(m, symbol_named(m.names, "quote"@).unwrap(), f, v, limit);
}

/// A name of the standard library that means a special form is no value:
/// its evaluation fails, unless it is the head of a call.
pub proof fn lemma_special_forms_of_the_standard_library(
    m: MachineView,
    name: Seq<char>,
    function: Native,
)
    requires
        bound_to(m, name, FfType::Ast, function),
    ensures
        symbol_named(m.names, name).is_some(),
        eval_this(m, ValueView::Symbol(symbol_named(m.names, name).unwrap()), false) == Step::Fail(
            AresErrorView::AstFunctionPass,
        ),
{
}

/// A generated symbol takes no name over: after `(gensym)` or `(gensym
/// prefix)` every name that stood for a symbol still stands for that
/// symbol, also the name that the new symbol was given.
pub proof fn lemma_a_generated_symbol_takes_no_name(
    m: MachineView,
    args: Seq<ValueView>,
    name: Seq<char>,
)
    requires
        m.wf(),
        crate::intern::symbol_named(m.names, name).is_some(),
    ensures
        match crate::eval::semantics::gensym(m, args) {
            Step::Next(after) => crate::intern::symbol_named(after.names, name)
                == crate::intern::symbol_named(m.names, name),
            _ => true,
        },
{
    match crate::eval::semantics::gensym(m, args) {
        Step::Next(after) => {
            crate::intern::lemma_named_after_push(
                m.names,
                after.names[m.names.len() as int],
                name,
            );
            assert(after.names =~= m.names.push(after.names[m.names.len() as int]));
        },
        _ => {},
    }
}

/// In an interpreter in which the standard library is all that is bound,
/// a name that is no name of the standard library has no value, also once
/// it has been interned: it is no macro, and its evaluation fails.
pub proof fn lemma_a_new_name_has_no_value(before: MachineView, after: MachineView, name: Seq<char>)
    requires
        before.wf(),
        after.wf(),
        crate::stdlib::only_library_bound(before),
        !crate::stdlib::library_name(name),
        after == before.with_names(after.names),
        crate::intern::grown(before.names, after.names),
    ensures
        crate::eval::named_value(after, name).is_none(),
        match symbol_named(after.names, name) {
            Some(symbol) => {
                &&& forall|head: bool| #[trigger]
                    eval_this(after, ValueView::Symbol(symbol), head) == Step::Fail(
                        AresErrorView::UndefinedName(name),
                    )
                &&& forall|items: Seq<ValueView>|
                    items.len() > 0 && items[0] == ValueView::Symbol(symbol) ==> (#[trigger] macro_of(
                        after,
                        ValueView::List(items),
                    )).is_none()
            },
            None => true,
        },
{
    crate::intern::lemma_named_carries(after.names, name, after.names.len() as int);
    match symbol_named(after.names, name) {
        Some(symbol) => {
            if symbol.0 < before.names.len() {
                assert(after.names[symbol.0 as int] == before.names[symbol.0 as int]);
            }
            assert(lookup(before.scopes, before.env() as int, symbol).is_none());
        },
        None => {},
    }
}

/// A closure that `lambda` makes is a closure of the scope that the machine
/// is in, which is a scope of the arena: a call of it finds its scope.
pub proof fn lemma_a_closure_is_of_its_scope(m: MachineView, args: Seq<ValueView>)
    requires
        m.wf(),
    ensures
        match crate::eval::semantics::lambda(m, args) {
            Step::Next(after) => after.stack.len() > 0 && match after.stack.last() {
                FrameView::Complete(ValueView::Lambda(p, is_macro)) => !is_macro && p.environment
                    == m.env() && p.environment < after.scopes.len(),
                _ => false,
            },
            _ => true,
        },
{
    if m.env_stack.len() > 0 {
        assert(m.env_stack[m.env_stack.len() - 1] < m.scopes.len());
    }
}

/// A call of a closure with a name for the rest, with at least as many
/// arguments as it has other parameters, binds that name to the list of the
/// arguments that are left, in a new scope inside the scope of the closure.
pub proof fn lemma_the_rest_takes_what_is_left(
    p: crate::value::ProcedureView,
    args: Seq<ValueView>,
    scopes: Seq<crate::eval::environment::ScopeView>,
)
    requires
        p.environment < scopes.len(),
        p.param_names.rest.is_some(),
        args.len() >= p.param_names.params.len(),
    ensures
        match crate::eval::procedure::call_scope(p, args, scopes) {
            Ok(scope) => scope.parent == Some(p.environment) && scope.bindings.contains_key(
                p.param_names.rest.unwrap().0,
            ) && scope.bindings[p.param_names.rest.unwrap().0] == ValueView::List(
                args.skip(p.param_names.params.len() as int),
            ),
            Err(_) => false,
        },
{
    let n = p.param_names.params.len() as int;
    let rest = p.param_names.rest.unwrap();
    let pairs = crate::eval::procedure::zipped(p.param_names.params, args, n).push(
        (rest, ValueView::List(args.skip(n))),
    );
    assert(pairs.drop_last() =~= crate::eval::procedure::zipped(p.param_names.params, args, n));
    assert(pairs.last() == (rest, ValueView::List(args.skip(n))));
    assert(crate::eval::environment::bind_all(pairs) == crate::eval::environment::bind_all(
        pairs.drop_last(),
    ).insert(rest.0, ValueView::List(args.skip(n))));
}

/// Where no symbol means a macro, no macro is called in any tree: the
/// expansion of macros gives every tree back as it is.
pub proof fn lemma_no_macro_is_called(m: MachineView, t: ValueView)
    requires
        crate::eval::semantics::no_macro_bound(m),
    ensures
        macro_free(m, t),
    decreases t, 0nat,
{
    match t {
        ValueView::List(items) => {
            lemma_none_is_called_in_all(m, items, items.len());
        },
        _ => {},
    }
}

proof fn lemma_none_is_called_in_all(m: MachineView, items: Seq<ValueView>, n: nat)
    requires
        crate::eval::semantics::no_macro_bound(m),
    ensures
        all_macro_free(m, items, n),
    decreases items, n,
{
    if n == 0 || n > items.len() {
    } else {
        lemma_none_is_called_in_all(m, items, (n - 1) as nat);
        lemma_no_macro_is_called(m, items[n - 1]);
    }
}

} // verus!
