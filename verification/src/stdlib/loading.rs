//! What a new interpreter knows: the names of the standard library and what
//! they mean.
//!
//! Each part of the library is made known by a function of its own, which
//! says which names mean which native functions afterwards, and that no
//! other name has changed its meaning. To tell the names apart the proofs
//! need each of them character by character.

use vstd::prelude::*;
use std::rc::Rc;
use crate::eval::context::Context;
use crate::eval::environment::{lemma_lookup_of_another, lookup};
use crate::eval::foreign_function::{ANY_STATE, builtin_fn};
use crate::eval::frames::MachineView;
use crate::eval::named_value;
use crate::intern::{
    Symbol,
    grown,
    lemma_intern_idempotent,
    lemma_named_carries,
    lemma_grown_twice,
    lemma_named_after_push,
    lemma_named_stays_named,
    lemma_one_name_per_symbol,
    symbol_named,
};
use crate::value::{
    Env,
    FfType,
    ForeignFunctionView,
    Native,
    ParamBinding,
    ParamBindingView,
    Procedure,
    Value,
    ValueView,
    lemma_bodies_view,
    lemma_lambda_view,
    views,
};

verus! {

/// The native function `function` of the standard library as a value.
pub open spec fn builtin(name: Seq<char>, typ: FfType, function: Native) -> ValueView {
    ValueView::ForeignFn(
        ForeignFunctionView { name: name, typ: typ, function: function, typeid: ANY_STATE },
    )
}

/// Whether `name` means the native function `function` of the standard
/// library, seen from the scope that the machine is in.
pub open spec fn bound_to(m: MachineView, name: Seq<char>, typ: FfType, function: Native) -> bool {
    named_value(m, name) == Some(builtin(name, typ, function))
}

/// Whether `name` stands for a symbol.
pub open spec fn known(m: MachineView, name: Seq<char>) -> bool {
    symbol_named(m.names, name).is_some()
}

/// Whether the machine `post` is the machine `pre` but for what names mean
/// and for symbols that were added, of which there are `count` at most.
pub open spec fn loaded(pre: Context, post: Context, count: int) -> bool {
    &&& post.wf()
    &&& post@.stack == pre@.stack
    &&& post@.env_stack == pre@.env_stack
    &&& post@.builders == pre@.builders
    &&& post@.next_id == pre@.next_id
    &&& post@.tag == pre@.tag
    &&& post@.scopes.len() == pre@.scopes.len()
    &&& post.step_limit == pre.step_limit
    &&& grown(pre@.names, post@.names)
    &&& post@.names.len() <= pre@.names.len() + count
}

/// Whether `n` is the name of a function of the standard library that is
/// written in the language itself.
pub open spec fn prelude_name(n: Seq<char>) -> bool {
    n == "list"@ || n == "map"@ || n == "fold-left"@ || n == "filter"@ || n == "flatten"@ || n
        == "concat"@
}

/// Whether `n` is a name of the standard library.
pub open spec fn library_name(n: Seq<char>) -> bool {
    native_name(n) || prelude_name(n)
}

/// Whether the standard library is all that is bound: every symbol that
/// has a value, seen from the scope that the machine is in, is the symbol
/// that a name of the standard library stands for.
pub open spec fn only_library_bound(m: MachineView) -> bool {
    forall|s: Symbol| #[trigger]
        lookup(m.scopes, m.env() as int, s).is_some() ==> s.0 < m.names.len() && m.names[s.0 as int].is_some()
            && library_name(m.names[s.0 as int].unwrap()) && symbol_named(
            m.names,
            m.names[s.0 as int].unwrap(),
        ) == Some(s)
}

/// In a machine in which the standard library is all that is bound, a name
/// that has a value is a name of the standard library.
pub proof fn lemma_only_library_names(m: MachineView, name: Seq<char>)
    requires
        m.wf(),
        only_library_bound(m),
        named_value(m, name).is_some(),
    ensures
        library_name(name),
{
    lemma_named_carries(m.names, name, m.names.len() as int);
}

/// Binds `name` to `value` in the scope that the machine is in, if the
/// symbols leave room for the name. No other name changes its meaning.
fn bind(ctx: &mut Context, name: &str, value: Value)
    requires
        old(ctx).wf(),
    ensures
        loaded(*old(ctx), *final(ctx), 1),
        known(old(ctx)@, name@) || old(ctx)@.names.len() < u32::MAX ==> named_value(
            final(ctx)@,
            name@,
        ) == Some(value@),
        forall|other: Seq<char>|
            other != name@ ==> #[trigger] named_value(final(ctx)@, other) == named_value(
                old(ctx)@,
                other,
            ),
        library_name(name@) && only_library_bound(old(ctx)@) ==> only_library_bound(final(ctx)@),
        known(old(ctx)@, name@) ==> final(ctx)@.names == old(ctx)@.names,
{
    if ctx.interner.contains(name) || ctx.interner.len() < u32::MAX {
        ctx.set(name, value);
        proof {
            let before = old(ctx)@;
            let after = ctx@;
            let symbol = symbol_named(after.names, name@).unwrap();
            assert(before.env() < before.scopes.len()) by {
                if before.env_stack.len() > 0 {
                    assert(before.env_stack[before.env_stack.len() - 1] < before.scopes.len());
                }
            }
            assert(grown(before.names, after.names));
            lemma_named_carries(after.names, name@, after.names.len() as int);
            assert forall|other: Seq<char>| other != name@ implies #[trigger] named_value(
                after,
                other,
            ) == named_value(before, other) by {
                if !known(before, name@) {
                    lemma_named_after_push(before.names, Some(name@), other);
                    lemma_named_after_push(before.names, Some(name@), name@);
                }
                match symbol_named(after.names, other) {
                    Some(meant) => {
                        if meant == symbol {
                            lemma_one_name_per_symbol(after.names, other, name@);
                        }
                        lemma_lookup_of_another(
                            before.scopes,
                            before.env() as int,
                            symbol,
                            value@,
                            before.env() as int,
                            meant,
                        );
                    },
                    None => {},
                }
            }
            if library_name(name@) && only_library_bound(before) {
                assert forall|s: Symbol| #[trigger]
                    lookup(after.scopes, after.env() as int, s).is_some() implies s.0
                    < after.names.len() && after.names[s.0 as int].is_some() && library_name(
                    after.names[s.0 as int].unwrap(),
                ) && symbol_named(after.names, after.names[s.0 as int].unwrap()) == Some(s) by {
                    if s != symbol {
                        lemma_lookup_of_another(
                            before.scopes,
                            before.env() as int,
                            symbol,
                            value@,
                            before.env() as int,
                            s,
                        );
                        assert(lookup(before.scopes, before.env() as int, s).is_some());
                        assert(after.names[s.0 as int] == before.names[s.0 as int]);
                        lemma_intern_idempotent(
                            before.names,
                            after.names,
                            before.names[s.0 as int].unwrap(),
                        );
                    }
                }
            }
        }
    }
}

/// Binds `name` to the native function `function` of the standard library,
/// if the symbols leave room for the name. No other name changes its
/// meaning.
pub fn install(ctx: &mut Context, name: &str, typ: FfType, function: Native)
    requires
        old(ctx).wf(),
    ensures
        loaded(*old(ctx), *final(ctx), 1),
        known(old(ctx)@, name@) || old(ctx)@.names.len() < u32::MAX ==> bound_to(
            final(ctx)@,
            name@,
            typ,
            function,
        ),
        forall|other: Seq<char>|
            other != name@ ==> #[trigger] named_value(final(ctx)@, other) == named_value(
                old(ctx)@,
                other,
            ),
        library_name(name@) && only_library_bound(old(ctx)@) ==> only_library_bound(final(ctx)@),
{
    bind(ctx, name, Value::ForeignFn(builtin_fn(name, typ, function)));
}

/// The names of the native functions, character by character.
pub proof fn lemma_native_literals()
    ensures
        "*"@.len() == 1,
        "*"@[0] == '*',
        "+"@.len() == 1,
        "+"@[0] == '+',
        "-"@.len() == 1,
        "-"@[0] == '-',
        "->big-endian"@.len() == 12,
        "->big-endian"@[0] == '-',
        "->big-endian"@[1] == '>',
        "->big-endian"@[2] == 'b',
        "->big-endian"@[3] == 'i',
        "->big-endian"@[4] == 'g',
        "->big-endian"@[5] == '-',
        "->big-endian"@[6] == 'e',
        "->big-endian"@[7] == 'n',
        "->big-endian"@[8] == 'd',
        "->big-endian"@[9] == 'i',
        "->big-endian"@[10] == 'a',
        "->big-endian"@[11] == 'n',
        "->bool"@.len() == 6,
        "->bool"@[0] == '-',
        "->bool"@[1] == '>',
        "->bool"@[2] == 'b',
        "->bool"@[3] == 'o',
        "->bool"@[4] == 'o',
        "->bool"@[5] == 'l',
        "->float"@.len() == 7,
        "->float"@[0] == '-',
        "->float"@[1] == '>',
        "->float"@[2] == 'f',
        "->float"@[3] == 'l',
        "->float"@[4] == 'o',
        "->float"@[5] == 'a',
        "->float"@[6] == 't',
        "->int"@.len() == 5,
        "->int"@[0] == '-',
        "->int"@[1] == '>',
        "->int"@[2] == 'i',
        "->int"@[3] == 'n',
        "->int"@[4] == 't',
        "->little-endian"@.len() == 15,
        "->little-endian"@[0] == '-',
        "->little-endian"@[1] == '>',
        "->little-endian"@[2] == 'l',
        "->little-endian"@[3] == 'i',
        "->little-endian"@[4] == 't',
        "->little-endian"@[5] == 't',
        "->little-endian"@[6] == 'l',
        "->little-endian"@[7] == 'e',
        "->little-endian"@[8] == '-',
        "->little-endian"@[9] == 'e',
        "->little-endian"@[10] == 'n',
        "->little-endian"@[11] == 'd',
        "->little-endian"@[12] == 'i',
        "->little-endian"@[13] == 'a',
        "->little-endian"@[14] == 'n',
        "->string"@.len() == 8,
        "->string"@[0] == '-',
        "->string"@[1] == '>',
        "->string"@[2] == 's',
        "->string"@[3] == 't',
        "->string"@[4] == 'r',
        "->string"@[5] == 'i',
        "->string"@[6] == 'n',
        "->string"@[7] == 'g',
        "/"@.len() == 1,
        "/"@[0] == '/',
        "="@.len() == 1,
        "="@[0] == '=',
        "abs"@.len() == 3,
        "abs"@[0] == 'a',
        "abs"@[1] == 'b',
        "abs"@[2] == 's',
        "and"@.len() == 3,
        "and"@[0] == 'a',
        "and"@[1] == 'n',
        "and"@[2] == 'd',
        "apply"@.len() == 5,
        "apply"@[0] == 'a',
        "apply"@[1] == 'p',
        "apply"@[2] == 'p',
        "apply"@[3] == 'l',
        "apply"@[4] == 'y',
        "bool?"@.len() == 5,
        "bool?"@[0] == 'b',
        "bool?"@[1] == 'o',
        "bool?"@[2] == 'o',
        "bool?"@[3] == 'l',
        "bool?"@[4] == '?',
        "build-list"@.len() == 10,
        "build-list"@[0] == 'b',
        "build-list"@[1] == 'u',
        "build-list"@[2] == 'i',
        "build-list"@[3] == 'l',
        "build-list"@[4] == 'd',
        "build-list"@[5] == '-',
        "build-list"@[6] == 'l',
        "build-list"@[7] == 'i',
        "build-list"@[8] == 's',
        "build-list"@[9] == 't',
        "ceil"@.len() == 4,
        "ceil"@[0] == 'c',
        "ceil"@[1] == 'e',
        "ceil"@[2] == 'i',
        "ceil"@[3] == 'l',
        "count_ones"@.len() == 10,
        "count_ones"@[0] == 'c',
        "count_ones"@[1] == 'o',
        "count_ones"@[2] == 'u',
        "count_ones"@[3] == 'n',
        "count_ones"@[4] == 't',
        "count_ones"@[5] == '_',
        "count_ones"@[6] == 'o',
        "count_ones"@[7] == 'n',
        "count_ones"@[8] == 'e',
        "count_ones"@[9] == 's',
        "count_zeros"@.len() == 11,
        "count_zeros"@[0] == 'c',
        "count_zeros"@[1] == 'o',
        "count_zeros"@[2] == 'u',
        "count_zeros"@[3] == 'n',
        "count_zeros"@[4] == 't',
        "count_zeros"@[5] == '_',
        "count_zeros"@[6] == 'z',
        "count_zeros"@[7] == 'e',
        "count_zeros"@[8] == 'r',
        "count_zeros"@[9] == 'o',
        "count_zeros"@[10] == 's',
        "define"@.len() == 6,
        "define"@[0] == 'd',
        "define"@[1] == 'e',
        "define"@[2] == 'f',
        "define"@[3] == 'i',
        "define"@[4] == 'n',
        "define"@[5] == 'e',
        "define-macro"@.len() == 12,
        "define-macro"@[0] == 'd',
        "define-macro"@[1] == 'e',
        "define-macro"@[2] == 'f',
        "define-macro"@[3] == 'i',
        "define-macro"@[4] == 'n',
        "define-macro"@[5] == 'e',
        "define-macro"@[6] == '-',
        "define-macro"@[7] == 'm',
        "define-macro"@[8] == 'a',
        "define-macro"@[9] == 'c',
        "define-macro"@[10] == 'r',
        "define-macro"@[11] == 'o',
        "eval"@.len() == 4,
        "eval"@[0] == 'e',
        "eval"@[1] == 'v',
        "eval"@[2] == 'a',
        "eval"@[3] == 'l',
        "executable"@.len() == 10,
        "executable"@[0] == 'e',
        "executable"@[1] == 'x',
        "executable"@[2] == 'e',
        "executable"@[3] == 'c',
        "executable"@[4] == 'u',
        "executable"@[5] == 't',
        "executable"@[6] == 'a',
        "executable"@[7] == 'b',
        "executable"@[8] == 'l',
        "executable"@[9] == 'e',
        "finite?"@.len() == 7,
        "finite?"@[0] == 'f',
        "finite?"@[1] == 'i',
        "finite?"@[2] == 'n',
        "finite?"@[3] == 'i',
        "finite?"@[4] == 't',
        "finite?"@[5] == 'e',
        "finite?"@[6] == '?',
        "float?"@.len() == 6,
        "float?"@[0] == 'f',
        "float?"@[1] == 'l',
        "float?"@[2] == 'o',
        "float?"@[3] == 'a',
        "float?"@[4] == 't',
        "float?"@[5] == '?',
        "floor"@.len() == 5,
        "floor"@[0] == 'f',
        "floor"@[1] == 'l',
        "floor"@[2] == 'o',
        "floor"@[3] == 'o',
        "floor"@[4] == 'r',
        "for-each"@.len() == 8,
        "for-each"@[0] == 'f',
        "for-each"@[1] == 'o',
        "for-each"@[2] == 'r',
        "for-each"@[3] == '-',
        "for-each"@[4] == 'e',
        "for-each"@[5] == 'a',
        "for-each"@[6] == 'c',
        "for-each"@[7] == 'h',
        "foreign-fn?"@.len() == 11,
        "foreign-fn?"@[0] == 'f',
        "foreign-fn?"@[1] == 'o',
        "foreign-fn?"@[2] == 'r',
        "foreign-fn?"@[3] == 'e',
        "foreign-fn?"@[4] == 'i',
        "foreign-fn?"@[5] == 'g',
        "foreign-fn?"@[6] == 'n',
        "foreign-fn?"@[7] == '-',
        "foreign-fn?"@[8] == 'f',
        "foreign-fn?"@[9] == 'n',
        "foreign-fn?"@[10] == '?',
        "gensym"@.len() == 6,
        "gensym"@[0] == 'g',
        "gensym"@[1] == 'e',
        "gensym"@[2] == 'n',
        "gensym"@[3] == 's',
        "gensym"@[4] == 'y',
        "gensym"@[5] == 'm',
        "hash-map"@.len() == 8,
        "hash-map"@[0] == 'h',
        "hash-map"@[1] == 'a',
        "hash-map"@[2] == 's',
        "hash-map"@[3] == 'h',
        "hash-map"@[4] == '-',
        "hash-map"@[5] == 'm',
        "hash-map"@[6] == 'a',
        "hash-map"@[7] == 'p',
        "if"@.len() == 2,
        "if"@[0] == 'i',
        "if"@[1] == 'f',
        "infinite?"@.len() == 9,
        "infinite?"@[0] == 'i',
        "infinite?"@[1] == 'n',
        "infinite?"@[2] == 'f',
        "infinite?"@[3] == 'i',
        "infinite?"@[4] == 'n',
        "infinite?"@[5] == 'i',
        "infinite?"@[6] == 't',
        "infinite?"@[7] == 'e',
        "infinite?"@[8] == '?',
        "int?"@.len() == 4,
        "int?"@[0] == 'i',
        "int?"@[1] == 'n',
        "int?"@[2] == 't',
        "int?"@[3] == '?',
        "lambda"@.len() == 6,
        "lambda"@[0] == 'l',
        "lambda"@[1] == 'a',
        "lambda"@[2] == 'm',
        "lambda"@[3] == 'b',
        "lambda"@[4] == 'd',
        "lambda"@[5] == 'a',
        "lambda?"@.len() == 7,
        "lambda?"@[0] == 'l',
        "lambda?"@[1] == 'a',
        "lambda?"@[2] == 'm',
        "lambda?"@[3] == 'b',
        "lambda?"@[4] == 'd',
        "lambda?"@[5] == 'a',
        "lambda?"@[6] == '?',
        "leading_zeros"@.len() == 13,
        "leading_zeros"@[0] == 'l',
        "leading_zeros"@[1] == 'e',
        "leading_zeros"@[2] == 'a',
        "leading_zeros"@[3] == 'd',
        "leading_zeros"@[4] == 'i',
        "leading_zeros"@[5] == 'n',
        "leading_zeros"@[6] == 'g',
        "leading_zeros"@[7] == '_',
        "leading_zeros"@[8] == 'z',
        "leading_zeros"@[9] == 'e',
        "leading_zeros"@[10] == 'r',
        "leading_zeros"@[11] == 'o',
        "leading_zeros"@[12] == 's',
        "let"@.len() == 3,
        "let"@[0] == 'l',
        "let"@[1] == 'e',
        "let"@[2] == 't',
        "list?"@.len() == 5,
        "list?"@[0] == 'l',
        "list?"@[1] == 'i',
        "list?"@[2] == 's',
        "list?"@[3] == 't',
        "list?"@[4] == '?',
        "macroexpand"@.len() == 11,
        "macroexpand"@[0] == 'm',
        "macroexpand"@[1] == 'a',
        "macroexpand"@[2] == 'c',
        "macroexpand"@[3] == 'r',
        "macroexpand"@[4] == 'o',
        "macroexpand"@[5] == 'e',
        "macroexpand"@[6] == 'x',
        "macroexpand"@[7] == 'p',
        "macroexpand"@[8] == 'a',
        "macroexpand"@[9] == 'n',
        "macroexpand"@[10] == 'd',
        "nan?"@.len() == 4,
        "nan?"@[0] == 'n',
        "nan?"@[1] == 'a',
        "nan?"@[2] == 'n',
        "nan?"@[3] == '?',
        "negative?"@.len() == 9,
        "negative?"@[0] == 'n',
        "negative?"@[1] == 'e',
        "negative?"@[2] == 'g',
        "negative?"@[3] == 'a',
        "negative?"@[4] == 't',
        "negative?"@[5] == 'i',
        "negative?"@[6] == 'v',
        "negative?"@[7] == 'e',
        "negative?"@[8] == '?',
        "none"@.len() == 4,
        "none"@[0] == 'n',
        "none"@[1] == 'o',
        "none"@[2] == 'n',
        "none"@[3] == 'e',
        "normal?"@.len() == 7,
        "normal?"@[0] == 'n',
        "normal?"@[1] == 'o',
        "normal?"@[2] == 'r',
        "normal?"@[3] == 'm',
        "normal?"@[4] == 'a',
        "normal?"@[5] == 'l',
        "normal?"@[6] == '?',
        "or"@.len() == 2,
        "or"@[0] == 'o',
        "or"@[1] == 'r',
        "positive?"@.len() == 9,
        "positive?"@[0] == 'p',
        "positive?"@[1] == 'o',
        "positive?"@[2] == 's',
        "positive?"@[3] == 'i',
        "positive?"@[4] == 't',
        "positive?"@[5] == 'i',
        "positive?"@[6] == 'v',
        "positive?"@[7] == 'e',
        "positive?"@[8] == '?',
        "quasiquote"@.len() == 10,
        "quasiquote"@[0] == 'q',
        "quasiquote"@[1] == 'u',
        "quasiquote"@[2] == 'a',
        "quasiquote"@[3] == 's',
        "quasiquote"@[4] == 'i',
        "quasiquote"@[5] == 'q',
        "quasiquote"@[6] == 'u',
        "quasiquote"@[7] == 'o',
        "quasiquote"@[8] == 't',
        "quasiquote"@[9] == 'e',
        "quote"@.len() == 5,
        "quote"@[0] == 'q',
        "quote"@[1] == 'u',
        "quote"@[2] == 'o',
        "quote"@[3] == 't',
        "quote"@[4] == 'e',
        "round"@.len() == 5,
        "round"@[0] == 'r',
        "round"@[1] == 'o',
        "round"@[2] == 'u',
        "round"@[3] == 'n',
        "round"@[4] == 'd',
        "set"@.len() == 3,
        "set"@[0] == 's',
        "set"@[1] == 'e',
        "set"@[2] == 't',
        "sign_negative?"@.len() == 14,
        "sign_negative?"@[0] == 's',
        "sign_negative?"@[1] == 'i',
        "sign_negative?"@[2] == 'g',
        "sign_negative?"@[3] == 'n',
        "sign_negative?"@[4] == '_',
        "sign_negative?"@[5] == 'n',
        "sign_negative?"@[6] == 'e',
        "sign_negative?"@[7] == 'g',
        "sign_negative?"@[8] == 'a',
        "sign_negative?"@[9] == 't',
        "sign_negative?"@[10] == 'i',
        "sign_negative?"@[11] == 'v',
        "sign_negative?"@[12] == 'e',
        "sign_negative?"@[13] == '?',
        "sign_positive?"@.len() == 14,
        "sign_positive?"@[0] == 's',
        "sign_positive?"@[1] == 'i',
        "sign_positive?"@[2] == 'g',
        "sign_positive?"@[3] == 'n',
        "sign_positive?"@[4] == '_',
        "sign_positive?"@[5] == 'p',
        "sign_positive?"@[6] == 'o',
        "sign_positive?"@[7] == 's',
        "sign_positive?"@[8] == 'i',
        "sign_positive?"@[9] == 't',
        "sign_positive?"@[10] == 'i',
        "sign_positive?"@[11] == 'v',
        "sign_positive?"@[12] == 'e',
        "sign_positive?"@[13] == '?',
        "signum"@.len() == 6,
        "signum"@[0] == 's',
        "signum"@[1] == 'i',
        "signum"@[2] == 'g',
        "signum"@[3] == 'n',
        "signum"@[4] == 'u',
        "signum"@[5] == 'm',
        "some"@.len() == 4,
        "some"@[0] == 's',
        "some"@[1] == 'o',
        "some"@[2] == 'm',
        "some"@[3] == 'e',
        "string?"@.len() == 7,
        "string?"@[0] == 's',
        "string?"@[1] == 't',
        "string?"@[2] == 'r',
        "string?"@[3] == 'i',
        "string?"@[4] == 'n',
        "string?"@[5] == 'g',
        "string?"@[6] == '?',
        "swap_bytes"@.len() == 10,
        "swap_bytes"@[0] == 's',
        "swap_bytes"@[1] == 'w',
        "swap_bytes"@[2] == 'a',
        "swap_bytes"@[3] == 'p',
        "swap_bytes"@[4] == '_',
        "swap_bytes"@[5] == 'b',
        "swap_bytes"@[6] == 'y',
        "swap_bytes"@[7] == 't',
        "swap_bytes"@[8] == 'e',
        "swap_bytes"@[9] == 's',
        "symbol?"@.len() == 7,
        "symbol?"@[0] == 's',
        "symbol?"@[1] == 'y',
        "symbol?"@[2] == 'm',
        "symbol?"@[3] == 'b',
        "symbol?"@[4] == 'o',
        "symbol?"@[5] == 'l',
        "symbol?"@[6] == '?',
        "trailing_zeros"@.len() == 14,
        "trailing_zeros"@[0] == 't',
        "trailing_zeros"@[1] == 'r',
        "trailing_zeros"@[2] == 'a',
        "trailing_zeros"@[3] == 'i',
        "trailing_zeros"@[4] == 'l',
        "trailing_zeros"@[5] == 'i',
        "trailing_zeros"@[6] == 'n',
        "trailing_zeros"@[7] == 'g',
        "trailing_zeros"@[8] == '_',
        "trailing_zeros"@[9] == 'z',
        "trailing_zeros"@[10] == 'e',
        "trailing_zeros"@[11] == 'r',
        "trailing_zeros"@[12] == 'o',
        "trailing_zeros"@[13] == 's',
        "trunc"@.len() == 5,
        "trunc"@[0] == 't',
        "trunc"@[1] == 'r',
        "trunc"@[2] == 'u',
        "trunc"@[3] == 'n',
        "trunc"@[4] == 'c',
        "unquote"@.len() == 7,
        "unquote"@[0] == 'u',
        "unquote"@[1] == 'n',
        "unquote"@[2] == 'q',
        "unquote"@[3] == 'u',
        "unquote"@[4] == 'o',
        "unquote"@[5] == 't',
        "unquote"@[6] == 'e',
        "unquote-splicing"@.len() == 16,
        "unquote-splicing"@[0] == 'u',
        "unquote-splicing"@[1] == 'n',
        "unquote-splicing"@[2] == 'q',
        "unquote-splicing"@[3] == 'u',
        "unquote-splicing"@[4] == 'o',
        "unquote-splicing"@[5] == 't',
        "unquote-splicing"@[6] == 'e',
        "unquote-splicing"@[7] == '-',
        "unquote-splicing"@[8] == 's',
        "unquote-splicing"@[9] == 'p',
        "unquote-splicing"@[10] == 'l',
        "unquote-splicing"@[11] == 'i',
        "unquote-splicing"@[12] == 'c',
        "unquote-splicing"@[13] == 'i',
        "unquote-splicing"@[14] == 'n',
        "unquote-splicing"@[15] == 'g',
        "unwrap"@.len() == 6,
        "unwrap"@[0] == 'u',
        "unwrap"@[1] == 'n',
        "unwrap"@[2] == 'w',
        "unwrap"@[3] == 'r',
        "unwrap"@[4] == 'a',
        "unwrap"@[5] == 'p',
        "xor"@.len() == 3,
        "xor"@[0] == 'x',
        "xor"@[1] == 'o',
        "xor"@[2] == 'r',
{
    reveal_strlit("*");
    reveal_strlit("+");
    reveal_strlit("-");
    reveal_strlit("->big-endian");
    reveal_strlit("->bool");
    reveal_strlit("->float");
    reveal_strlit("->int");
    reveal_strlit("->little-endian");
    reveal_strlit("->string");
    reveal_strlit("/");
    reveal_strlit("=");
    reveal_strlit("abs");
    reveal_strlit("and");
    reveal_strlit("apply");
    reveal_strlit("bool?");
    reveal_strlit("build-list");
    reveal_strlit("ceil");
    reveal_strlit("count_ones");
    reveal_strlit("count_zeros");
    reveal_strlit("define");
    reveal_strlit("define-macro");
    reveal_strlit("eval");
    reveal_strlit("executable");
    reveal_strlit("finite?");
    reveal_strlit("float?");
    reveal_strlit("floor");
    reveal_strlit("for-each");
    reveal_strlit("foreign-fn?");
    reveal_strlit("gensym");
    reveal_strlit("hash-map");
    reveal_strlit("if");
    reveal_strlit("infinite?");
    reveal_strlit("int?");
    reveal_strlit("lambda");
    reveal_strlit("lambda?");
    reveal_strlit("leading_zeros");
    reveal_strlit("let");
    reveal_strlit("list?");
    reveal_strlit("macroexpand");
    reveal_strlit("nan?");
    reveal_strlit("negative?");
    reveal_strlit("none");
    reveal_strlit("normal?");
    reveal_strlit("or");
    reveal_strlit("positive?");
    reveal_strlit("quasiquote");
    reveal_strlit("quote");
    reveal_strlit("round");
    reveal_strlit("set");
    reveal_strlit("sign_negative?");
    reveal_strlit("sign_positive?");
    reveal_strlit("signum");
    reveal_strlit("some");
    reveal_strlit("string?");
    reveal_strlit("swap_bytes");
    reveal_strlit("symbol?");
    reveal_strlit("trailing_zeros");
    reveal_strlit("trunc");
    reveal_strlit("unquote");
    reveal_strlit("unquote-splicing");
    reveal_strlit("unwrap");
    reveal_strlit("xor");
}

/// Whether `n` is one of the names that [`load_core`] binds.
pub open spec fn core_name(n: Seq<char>) -> bool {
    n == "eval"@
        || n == "apply"@
        || n == "quote"@
        || n == "quasiquote"@
        || n == "macroexpand"@
        || n == "unquote"@
        || n == "unquote-splicing"@
        || n == "if"@
        || n == "let"@
        || n == "set"@
        || n == "define"@
        || n == "define-macro"@
        || n == "lambda"@
        || n == "gensym"@
}

/// Whether each of the names that [`load_core`] binds stands for a symbol.
pub open spec fn core_known(m: MachineView) -> bool {
    known(m, "eval"@)
        && known(m, "apply"@)
        && known(m, "quote"@)
        && known(m, "quasiquote"@)
        && known(m, "macroexpand"@)
        && known(m, "unquote"@)
        && known(m, "unquote-splicing"@)
        && known(m, "if"@)
        && known(m, "let"@)
        && known(m, "set"@)
        && known(m, "define"@)
        && known(m, "define-macro"@)
        && known(m, "lambda"@)
        && known(m, "gensym"@)
}

/// Whether each of the names that [`load_core`] binds means its native
/// function.
pub open spec fn knows_core(m: MachineView) -> bool {
    bound_to(m, "eval"@, FfType::User, Native::Eval)
        && bound_to(m, "apply"@, FfType::User, Native::Apply)
        && bound_to(m, "quote"@, FfType::Ast, Native::Quote)
        && bound_to(m, "quasiquote"@, FfType::Ast, Native::Quasiquote)
        && bound_to(m, "macroexpand"@, FfType::User, Native::MacroExpand)
        && bound_to(m, "unquote"@, FfType::Ast, Native::UnquoteError)
        && bound_to(m, "unquote-splicing"@, FfType::Ast, Native::UnquoteError)
        && bound_to(m, "if"@, FfType::Ast, Native::If)
        && bound_to(m, "let"@, FfType::Ast, Native::Let)
        && bound_to(m, "set"@, FfType::Ast, Native::Assign)
        && bound_to(m, "define"@, FfType::Ast, Native::Define)
        && bound_to(m, "define-macro"@, FfType::Ast, Native::DefineMacro)
        && bound_to(m, "lambda"@, FfType::Ast, Native::Lambda)
        && bound_to(m, "gensym"@, FfType::User, Native::Gensym)
}

/// No name that [`load_core`] binds is bound by another part of the standard
/// library.
proof fn lemma_core_names_apart()
    ensures
        !logical_name("eval"@),
        !list_name("eval"@),
        !math_name("eval"@),
        !arithmetic_name("eval"@),
        !map_name("eval"@),
        !types_name("eval"@),
        !option_name("eval"@),
        !logical_name("apply"@),
        !list_name("apply"@),
        !math_name("apply"@),
        !arithmetic_name("apply"@),
        !map_name("apply"@),
        !types_name("apply"@),
        !option_name("apply"@),
        !logical_name("quote"@),
        !list_name("quote"@),
        !math_name("quote"@),
        !arithmetic_name("quote"@),
        !map_name("quote"@),
        !types_name("quote"@),
        !option_name("quote"@),
        !logical_name("quasiquote"@),
        !list_name("quasiquote"@),
        !math_name("quasiquote"@),
        !arithmetic_name("quasiquote"@),
        !map_name("quasiquote"@),
        !types_name("quasiquote"@),
        !option_name("quasiquote"@),
        !logical_name("macroexpand"@),
        !list_name("macroexpand"@),
        !math_name("macroexpand"@),
        !arithmetic_name("macroexpand"@),
        !map_name("macroexpand"@),
        !types_name("macroexpand"@),
        !option_name("macroexpand"@),
        !logical_name("unquote"@),
        !list_name("unquote"@),
        !math_name("unquote"@),
        !arithmetic_name("unquote"@),
        !map_name("unquote"@),
        !types_name("unquote"@),
        !option_name("unquote"@),
        !logical_name("unquote-splicing"@),
        !list_name("unquote-splicing"@),
        !math_name("unquote-splicing"@),
        !arithmetic_name("unquote-splicing"@),
        !map_name("unquote-splicing"@),
        !types_name("unquote-splicing"@),
        !option_name("unquote-splicing"@),
        !logical_name("if"@),
        !list_name("if"@),
        !math_name("if"@),
        !arithmetic_name("if"@),
        !map_name("if"@),
        !types_name("if"@),
        !option_name("if"@),
        !logical_name("let"@),
        !list_name("let"@),
        !math_name("let"@),
        !arithmetic_name("let"@),
        !map_name("let"@),
        !types_name("let"@),
        !option_name("let"@),
        !logical_name("set"@),
        !list_name("set"@),
        !math_name("set"@),
        !arithmetic_name("set"@),
        !map_name("set"@),
        !types_name("set"@),
        !option_name("set"@),
        !logical_name("define"@),
        !list_name("define"@),
        !math_name("define"@),
        !arithmetic_name("define"@),
        !map_name("define"@),
        !types_name("define"@),
        !option_name("define"@),
        !logical_name("define-macro"@),
        !list_name("define-macro"@),
        !math_name("define-macro"@),
        !arithmetic_name("define-macro"@),
        !map_name("define-macro"@),
        !types_name("define-macro"@),
        !option_name("define-macro"@),
        !logical_name("lambda"@),
        !list_name("lambda"@),
        !math_name("lambda"@),
        !arithmetic_name("lambda"@),
        !map_name("lambda"@),
        !types_name("lambda"@),
        !option_name("lambda"@),
        !logical_name("gensym"@),
        !list_name("gensym"@),
        !math_name("gensym"@),
        !arithmetic_name("gensym"@),
        !map_name("gensym"@),
        !types_name("gensym"@),
        !option_name("gensym"@),
{
    lemma_native_literals();
}

/// Makes the special forms and the functions at the heart of the language known to `ctx`: each name means its native function afterwards,
/// if the symbols leave room for the names, and no other name changes its
/// meaning.
pub fn load_core(ctx: &mut Context)
    requires
        old(ctx).wf(),
    ensures
        loaded(*old(ctx), *final(ctx), 14),
        only_library_bound(old(ctx)@) ==> only_library_bound(final(ctx)@),
        core_known(old(ctx)@) || old(ctx)@.names.len() + 14 <= u32::MAX ==> knows_core(final(ctx)@),
        forall|other: Seq<char>|
            !core_name(other) ==> #[trigger] named_value(final(ctx)@, other) == named_value(
                old(ctx)@,
                other,
            ),
{
    proof {
        lemma_native_literals();
        lemma_loaded_twice(*ctx, *ctx, *ctx, 0, 0);
    }
    let ghost start = *ctx;
    let ghost before = *ctx;
    install(ctx, "eval", FfType::User, Native::Eval);
    proof {
        lemma_loaded_twice(start, before, *ctx, 0, 1);
    }
    let ghost before = *ctx;
    install(ctx, "apply", FfType::User, Native::Apply);
    proof {
        lemma_loaded_twice(start, before, *ctx, 1, 1);
    }
    assert(core_known(start@) || start@.names.len() + 14 <= u32::MAX ==> bound_to(ctx@, "eval"@, FfType::User, Native::Eval)
        && bound_to(ctx@, "apply"@, FfType::User, Native::Apply));
    let ghost before = *ctx;
    install(ctx, "quote", FfType::Ast, Native::Quote);
    proof {
        lemma_loaded_twice(start, before, *ctx, 2, 1);
    }
    assert(core_known(start@) || start@.names.len() + 14 <= u32::MAX ==> bound_to(ctx@, "eval"@, FfType::User, Native::Eval)
        && bound_to(ctx@, "apply"@, FfType::User, Native::Apply)
        && bound_to(ctx@, "quote"@, FfType::Ast, Native::Quote));
    let ghost before = *ctx;
    install(ctx, "quasiquote", FfType::Ast, Native::Quasiquote);
    proof {
        lemma_loaded_twice(start, before, *ctx, 3, 1);
    }
    assert(core_known(start@) || start@.names.len() + 14 <= u32::MAX ==> bound_to(ctx@, "eval"@, FfType::User, Native::Eval)
        && bound_to(ctx@, "apply"@, FfType::User, Native::Apply)
        && bound_to(ctx@, "quote"@, FfType::Ast, Native::Quote)
        && bound_to(ctx@, "quasiquote"@, FfType::Ast, Native::Quasiquote));
    let ghost before = *ctx;
    install(ctx, "macroexpand", FfType::User, Native::MacroExpand);
    proof {
        lemma_loaded_twice(start, before, *ctx, 4, 1);
    }
    assert(core_known(start@) || start@.names.len() + 14 <= u32::MAX ==> bound_to(ctx@, "eval"@, FfType::User, Native::Eval)
        && bound_to(ctx@, "apply"@, FfType::User, Native::Apply)
        && bound_to(ctx@, "quote"@, FfType::Ast, Native::Quote)
        && bound_to(ctx@, "quasiquote"@, FfType::Ast, Native::Quasiquote)
        && bound_to(ctx@, "macroexpand"@, FfType::User, Native::MacroExpand));
    let ghost before = *ctx;
    install(ctx, "unquote", FfType::Ast, Native::UnquoteError);
    proof {
        lemma_loaded_twice(start, before, *ctx, 5, 1);
    }
    assert(core_known(start@) || start@.names.len() + 14 <= u32::MAX ==> bound_to(ctx@, "eval"@, FfType::User, Native::Eval)
        && bound_to(ctx@, "apply"@, FfType::User, Native::Apply)
        && bound_to(ctx@, "quote"@, FfType::Ast, Native::Quote)
        && bound_to(ctx@, "quasiquote"@, FfType::Ast, Native::Quasiquote)
        && bound_to(ctx@, "macroexpand"@, FfType::User, Native::MacroExpand)
        && bound_to(ctx@, "unquote"@, FfType::Ast, Native::UnquoteError));
    let ghost before = *ctx;
    install(ctx, "unquote-splicing", FfType::Ast, Native::UnquoteError);
    proof {
        lemma_loaded_twice(start, before, *ctx, 6, 1);
    }
    assert(core_known(start@) || start@.names.len() + 14 <= u32::MAX ==> bound_to(ctx@, "eval"@, FfType::User, Native::Eval)
        && bound_to(ctx@, "apply"@, FfType::User, Native::Apply)
        && bound_to(ctx@, "quote"@, FfType::Ast, Native::Quote)
        && bound_to(ctx@, "quasiquote"@, FfType::Ast, Native::Quasiquote)
        && bound_to(ctx@, "macroexpand"@, FfType::User, Native::MacroExpand)
        && bound_to(ctx@, "unquote"@, FfType::Ast, Native::UnquoteError)
        && bound_to(ctx@, "unquote-splicing"@, FfType::Ast, Native::UnquoteError));
    let ghost before = *ctx;
    install(ctx, "if", FfType::Ast, Native::If);
    proof {
        lemma_loaded_twice(start, before, *ctx, 7, 1);
    }
    assert(core_known(start@) || start@.names.len() + 14 <= u32::MAX ==> bound_to(ctx@, "eval"@, FfType::User, Native::Eval)
        && bound_to(ctx@, "apply"@, FfType::User, Native::Apply)
        && bound_to(ctx@, "quote"@, FfType::Ast, Native::Quote)
        && bound_to(ctx@, "quasiquote"@, FfType::Ast, Native::Quasiquote)
        && bound_to(ctx@, "macroexpand"@, FfType::User, Native::MacroExpand)
        && bound_to(ctx@, "unquote"@, FfType::Ast, Native::UnquoteError)
        && bound_to(ctx@, "unquote-splicing"@, FfType::Ast, Native::UnquoteError)
        && bound_to(ctx@, "if"@, FfType::Ast, Native::If));
    let ghost before = *ctx;
    install(ctx, "let", FfType::Ast, Native::Let);
    proof {
        lemma_loaded_twice(start, before, *ctx, 8, 1);
    }
    assert(core_known(start@) || start@.names.len() + 14 <= u32::MAX ==> bound_to(ctx@, "eval"@, FfType::User, Native::Eval)
        && bound_to(ctx@, "apply"@, FfType::User, Native::Apply)
        && bound_to(ctx@, "quote"@, FfType::Ast, Native::Quote)
        && bound_to(ctx@, "quasiquote"@, FfType::Ast, Native::Quasiquote)
        && bound_to(ctx@, "macroexpand"@, FfType::User, Native::MacroExpand)
        && bound_to(ctx@, "unquote"@, FfType::Ast, Native::UnquoteError)
        && bound_to(ctx@, "unquote-splicing"@, FfType::Ast, Native::UnquoteError)
        && bound_to(ctx@, "if"@, FfType::Ast, Native::If)
        && bound_to(ctx@, "let"@, FfType::Ast, Native::Let));
    let ghost before = *ctx;
    install(ctx, "set", FfType::Ast, Native::Assign);
    proof {
        lemma_loaded_twice(start, before, *ctx, 9, 1);
    }
    assert(core_known(start@) || start@.names.len() + 14 <= u32::MAX ==> bound_to(ctx@, "eval"@, FfType::User, Native::Eval)
        && bound_to(ctx@, "apply"@, FfType::User, Native::Apply)
        && bound_to(ctx@, "quote"@, FfType::Ast, Native::Quote)
        && bound_to(ctx@, "quasiquote"@, FfType::Ast, Native::Quasiquote)
        && bound_to(ctx@, "macroexpand"@, FfType::User, Native::MacroExpand)
        && bound_to(ctx@, "unquote"@, FfType::Ast, Native::UnquoteError)
        && bound_to(ctx@, "unquote-splicing"@, FfType::Ast, Native::UnquoteError)
        && bound_to(ctx@, "if"@, FfType::Ast, Native::If)
        && bound_to(ctx@, "let"@, FfType::Ast, Native::Let)
        && bound_to(ctx@, "set"@, FfType::Ast, Native::Assign));
    let ghost before = *ctx;
    install(ctx, "define", FfType::Ast, Native::Define);
    proof {
        lemma_loaded_twice(start, before, *ctx, 10, 1);
    }
    assert(core_known(start@) || start@.names.len() + 14 <= u32::MAX ==> bound_to(ctx@, "eval"@, FfType::User, Native::Eval)
        && bound_to(ctx@, "apply"@, FfType::User, Native::Apply)
        && bound_to(ctx@, "quote"@, FfType::Ast, Native::Quote)
        && bound_to(ctx@, "quasiquote"@, FfType::Ast, Native::Quasiquote)
        && bound_to(ctx@, "macroexpand"@, FfType::User, Native::MacroExpand)
        && bound_to(ctx@, "unquote"@, FfType::Ast, Native::UnquoteError)
        && bound_to(ctx@, "unquote-splicing"@, FfType::Ast, Native::UnquoteError)
        && bound_to(ctx@, "if"@, FfType::Ast, Native::If)
        && bound_to(ctx@, "let"@, FfType::Ast, Native::Let)
        && bound_to(ctx@, "set"@, FfType::Ast, Native::Assign)
        && bound_to(ctx@, "define"@, FfType::Ast, Native::Define));
    let ghost before = *ctx;
    install(ctx, "define-macro", FfType::Ast, Native::DefineMacro);
    proof {
        lemma_loaded_twice(start, before, *ctx, 11, 1);
    }
    assert(core_known(start@) || start@.names.len() + 14 <= u32::MAX ==> bound_to(ctx@, "eval"@, FfType::User, Native::Eval)
        && bound_to(ctx@, "apply"@, FfType::User, Native::Apply)
        && bound_to(ctx@, "quote"@, FfType::Ast, Native::Quote)
        && bound_to(ctx@, "quasiquote"@, FfType::Ast, Native::Quasiquote)
        && bound_to(ctx@, "macroexpand"@, FfType::User, Native::MacroExpand)
        && bound_to(ctx@, "unquote"@, FfType::Ast, Native::UnquoteError)
        && bound_to(ctx@, "unquote-splicing"@, FfType::Ast, Native::UnquoteError)
        && bound_to(ctx@, "if"@, FfType::Ast, Native::If)
        && bound_to(ctx@, "let"@, FfType::Ast, Native::Let)
        && bound_to(ctx@, "set"@, FfType::Ast, Native::Assign)
        && bound_to(ctx@, "define"@, FfType::Ast, Native::Define)
        && bound_to(ctx@, "define-macro"@, FfType::Ast, Native::DefineMacro));
    let ghost before = *ctx;
    install(ctx, "lambda", FfType::Ast, Native::Lambda);
    proof {
        lemma_loaded_twice(start, before, *ctx, 12, 1);
    }
    assert(core_known(start@) || start@.names.len() + 14 <= u32::MAX ==> bound_to(ctx@, "eval"@, FfType::User, Native::Eval)
        && bound_to(ctx@, "apply"@, FfType::User, Native::Apply)
        && bound_to(ctx@, "quote"@, FfType::Ast, Native::Quote)
        && bound_to(ctx@, "quasiquote"@, FfType::Ast, Native::Quasiquote)
        && bound_to(ctx@, "macroexpand"@, FfType::User, Native::MacroExpand)
        && bound_to(ctx@, "unquote"@, FfType::Ast, Native::UnquoteError)
        && bound_to(ctx@, "unquote-splicing"@, FfType::Ast, Native::UnquoteError)
        && bound_to(ctx@, "if"@, FfType::Ast, Native::If)
        && bound_to(ctx@, "let"@, FfType::Ast, Native::Let)
        && bound_to(ctx@, "set"@, FfType::Ast, Native::Assign)
        && bound_to(ctx@, "define"@, FfType::Ast, Native::Define)
        && bound_to(ctx@, "define-macro"@, FfType::Ast, Native::DefineMacro)
        && bound_to(ctx@, "lambda"@, FfType::Ast, Native::Lambda));
    let ghost before = *ctx;
    install(ctx, "gensym", FfType::User, Native::Gensym);
    proof {
        lemma_loaded_twice(start, before, *ctx, 13, 1);
    }
    assert(core_known(start@) || start@.names.len() + 14 <= u32::MAX ==> bound_to(ctx@, "eval"@, FfType::User, Native::Eval)
        && bound_to(ctx@, "apply"@, FfType::User, Native::Apply)
        && bound_to(ctx@, "quote"@, FfType::Ast, Native::Quote)
        && bound_to(ctx@, "quasiquote"@, FfType::Ast, Native::Quasiquote)
        && bound_to(ctx@, "macroexpand"@, FfType::User, Native::MacroExpand)
        && bound_to(ctx@, "unquote"@, FfType::Ast, Native::UnquoteError)
        && bound_to(ctx@, "unquote-splicing"@, FfType::Ast, Native::UnquoteError)
        && bound_to(ctx@, "if"@, FfType::Ast, Native::If)
        && bound_to(ctx@, "let"@, FfType::Ast, Native::Let)
        && bound_to(ctx@, "set"@, FfType::Ast, Native::Assign)
        && bound_to(ctx@, "define"@, FfType::Ast, Native::Define)
        && bound_to(ctx@, "define-macro"@, FfType::Ast, Native::DefineMacro)
        && bound_to(ctx@, "lambda"@, FfType::Ast, Native::Lambda)
        && bound_to(ctx@, "gensym"@, FfType::User, Native::Gensym));
}

/// Whether `n` is one of the names that [`load_logical`] binds.
pub open spec fn logical_name(n: Seq<char>) -> bool {
    n == "and"@
        || n == "or"@
        || n == "xor"@
}

/// Whether each of the names that [`load_logical`] binds stands for a symbol.
pub open spec fn logical_known(m: MachineView) -> bool {
    known(m, "and"@)
        && known(m, "or"@)
        && known(m, "xor"@)
}

/// Whether each of the names that [`load_logical`] binds means its native
/// function.
pub open spec fn knows_logical(m: MachineView) -> bool {
    bound_to(m, "and"@, FfType::Ast, Native::And)
        && bound_to(m, "or"@, FfType::Ast, Native::Or)
        && bound_to(m, "xor"@, FfType::Ast, Native::Xor)
}

/// No name that [`load_logical`] binds is bound by another part of the standard
/// library.
proof fn lemma_logical_names_apart()
    ensures
        !core_name("and"@),
        !list_name("and"@),
        !math_name("and"@),
        !arithmetic_name("and"@),
        !map_name("and"@),
        !types_name("and"@),
        !option_name("and"@),
        !core_name("or"@),
        !list_name("or"@),
        !math_name("or"@),
        !arithmetic_name("or"@),
        !map_name("or"@),
        !types_name("or"@),
        !option_name("or"@),
        !core_name("xor"@),
        !list_name("xor"@),
        !math_name("xor"@),
        !arithmetic_name("xor"@),
        !map_name("xor"@),
        !types_name("xor"@),
        !option_name("xor"@),
{
    lemma_native_literals();
}

/// Makes `and`, `or` and `xor` known to `ctx`: each name means its native function afterwards,
/// if the symbols leave room for the names, and no other name changes its
/// meaning.
pub fn load_logical(ctx: &mut Context)
    requires
        old(ctx).wf(),
    ensures
        loaded(*old(ctx), *final(ctx), 3),
        only_library_bound(old(ctx)@) ==> only_library_bound(final(ctx)@),
        logical_known(old(ctx)@) || old(ctx)@.names.len() + 3 <= u32::MAX ==> knows_logical(final(ctx)@),
        forall|other: Seq<char>|
            !logical_name(other) ==> #[trigger] named_value(final(ctx)@, other) == named_value(
                old(ctx)@,
                other,
            ),
{
    proof {
        lemma_native_literals();
        lemma_loaded_twice(*ctx, *ctx, *ctx, 0, 0);
    }
    let ghost start = *ctx;
    let ghost before = *ctx;
    install(ctx, "and", FfType::Ast, Native::And);
    proof {
        lemma_loaded_twice(start, before, *ctx, 0, 1);
    }
    let ghost before = *ctx;
    install(ctx, "or", FfType::Ast, Native::Or);
    proof {
        lemma_loaded_twice(start, before, *ctx, 1, 1);
    }
    assert(logical_known(start@) || start@.names.len() + 3 <= u32::MAX ==> bound_to(ctx@, "and"@, FfType::Ast, Native::And)
        && bound_to(ctx@, "or"@, FfType::Ast, Native::Or));
    let ghost before = *ctx;
    install(ctx, "xor", FfType::Ast, Native::Xor);
    proof {
        lemma_loaded_twice(start, before, *ctx, 2, 1);
    }
    assert(logical_known(start@) || start@.names.len() + 3 <= u32::MAX ==> bound_to(ctx@, "and"@, FfType::Ast, Native::And)
        && bound_to(ctx@, "or"@, FfType::Ast, Native::Or)
        && bound_to(ctx@, "xor"@, FfType::Ast, Native::Xor));
}

/// Whether `n` is one of the names that [`load_list`] binds.
pub open spec fn list_name(n: Seq<char>) -> bool {
    n == "build-list"@
        || n == "for-each"@
}

/// Whether each of the names that [`load_list`] binds stands for a symbol.
pub open spec fn list_known(m: MachineView) -> bool {
    known(m, "build-list"@)
        && known(m, "for-each"@)
}

/// Whether each of the names that [`load_list`] binds means its native
/// function.
pub open spec fn knows_list(m: MachineView) -> bool {
    bound_to(m, "build-list"@, FfType::Ast, Native::BuildList)
        && bound_to(m, "for-each"@, FfType::User, Native::ForEach)
}

/// No name that [`load_list`] binds is bound by another part of the standard
/// library.
proof fn lemma_list_names_apart()
    ensures
        !core_name("build-list"@),
        !logical_name("build-list"@),
        !math_name("build-list"@),
        !arithmetic_name("build-list"@),
        !map_name("build-list"@),
        !types_name("build-list"@),
        !option_name("build-list"@),
        !core_name("for-each"@),
        !logical_name("for-each"@),
        !math_name("for-each"@),
        !arithmetic_name("for-each"@),
        !map_name("for-each"@),
        !types_name("for-each"@),
        !option_name("for-each"@),
{
    lemma_native_literals();
}

/// Makes the native functions on lists known to `ctx`: each name means its native function afterwards,
/// if the symbols leave room for the names, and no other name changes its
/// meaning.
pub fn load_list(ctx: &mut Context)
    requires
        old(ctx).wf(),
    ensures
        loaded(*old(ctx), *final(ctx), 2),
        only_library_bound(old(ctx)@) ==> only_library_bound(final(ctx)@),
        list_known(old(ctx)@) || old(ctx)@.names.len() + 2 <= u32::MAX ==> knows_list(final(ctx)@),
        forall|other: Seq<char>|
            !list_name(other) ==> #[trigger] named_value(final(ctx)@, other) == named_value(
                old(ctx)@,
                other,
            ),
{
    proof {
        lemma_native_literals();
        lemma_loaded_twice(*ctx, *ctx, *ctx, 0, 0);
    }
    let ghost start = *ctx;
    let ghost before = *ctx;
    install(ctx, "build-list", FfType::Ast, Native::BuildList);
    proof {
        lemma_loaded_twice(start, before, *ctx, 0, 1);
    }
    let ghost before = *ctx;
    install(ctx, "for-each", FfType::User, Native::ForEach);
    proof {
        lemma_loaded_twice(start, before, *ctx, 1, 1);
    }
    assert(list_known(start@) || start@.names.len() + 2 <= u32::MAX ==> bound_to(ctx@, "build-list"@, FfType::Ast, Native::BuildList)
        && bound_to(ctx@, "for-each"@, FfType::User, Native::ForEach));
}

/// Whether `n` is one of the names that [`load_math`] binds.
pub open spec fn math_name(n: Seq<char>) -> bool {
    n == "nan?"@
        || n == "infinite?"@
        || n == "finite?"@
        || n == "normal?"@
        || n == "floor"@
        || n == "ceil"@
        || n == "round"@
        || n == "trunc"@
        || n == "sign_positive?"@
        || n == "sign_negative?"@
        || n == "count_ones"@
        || n == "count_zeros"@
        || n == "leading_zeros"@
        || n == "trailing_zeros"@
        || n == "swap_bytes"@
        || n == "->big-endian"@
        || n == "->little-endian"@
        || n == "abs"@
        || n == "signum"@
        || n == "positive?"@
        || n == "negative?"@
}

/// Whether each of the names that [`load_math`] binds stands for a symbol.
pub open spec fn math_known(m: MachineView) -> bool {
    known(m, "nan?"@)
        && known(m, "infinite?"@)
        && known(m, "finite?"@)
        && known(m, "normal?"@)
        && known(m, "floor"@)
        && known(m, "ceil"@)
        && known(m, "round"@)
        && known(m, "trunc"@)
        && known(m, "sign_positive?"@)
        && known(m, "sign_negative?"@)
        && known(m, "count_ones"@)
        && known(m, "count_zeros"@)
        && known(m, "leading_zeros"@)
        && known(m, "trailing_zeros"@)
        && known(m, "swap_bytes"@)
        && known(m, "->big-endian"@)
        && known(m, "->little-endian"@)
        && known(m, "abs"@)
        && known(m, "signum"@)
        && known(m, "positive?"@)
        && known(m, "negative?"@)
}

/// Whether each of the names that [`load_math`] binds means its native
/// function.
pub open spec fn knows_math(m: MachineView) -> bool {
    bound_to(m, "nan?"@, FfType::Free, Native::IsNan)
        && bound_to(m, "infinite?"@, FfType::Free, Native::IsInfinite)
        && bound_to(m, "finite?"@, FfType::Free, Native::IsFinite)
        && bound_to(m, "normal?"@, FfType::Free, Native::IsNormal)
        && bound_to(m, "floor"@, FfType::Free, Native::Floor)
        && bound_to(m, "ceil"@, FfType::Free, Native::Ceil)
        && bound_to(m, "round"@, FfType::Free, Native::Round)
        && bound_to(m, "trunc"@, FfType::Free, Native::Trunc)
        && bound_to(m, "sign_positive?"@, FfType::Free, Native::IsSignPositive)
        && bound_to(m, "sign_negative?"@, FfType::Free, Native::IsSignNegative)
        && bound_to(m, "count_ones"@, FfType::Free, Native::CountOnes)
        && bound_to(m, "count_zeros"@, FfType::Free, Native::CountZeros)
        && bound_to(m, "leading_zeros"@, FfType::Free, Native::LeadingZeros)
        && bound_to(m, "trailing_zeros"@, FfType::Free, Native::TrailingZeros)
        && bound_to(m, "swap_bytes"@, FfType::Free, Native::SwapBytes)
        && bound_to(m, "->big-endian"@, FfType::Free, Native::ToBe)
        && bound_to(m, "->little-endian"@, FfType::Free, Native::ToLe)
        && bound_to(m, "abs"@, FfType::Free, Native::Abs)
        && bound_to(m, "signum"@, FfType::Free, Native::Signum)
        && bound_to(m, "positive?"@, FfType::Free, Native::IsPositive)
        && bound_to(m, "negative?"@, FfType::Free, Native::IsNegative)
}

/// No name that [`load_math`] binds is bound by another part of the standard
/// library.
proof fn lemma_math_names_apart()
    ensures
        !core_name("nan?"@),
        !logical_name("nan?"@),
        !list_name("nan?"@),
        !arithmetic_name("nan?"@),
        !map_name("nan?"@),
        !types_name("nan?"@),
        !option_name("nan?"@),
        !core_name("infinite?"@),
        !logical_name("infinite?"@),
        !list_name("infinite?"@),
        !arithmetic_name("infinite?"@),
        !map_name("infinite?"@),
        !types_name("infinite?"@),
        !option_name("infinite?"@),
        !core_name("finite?"@),
        !logical_name("finite?"@),
        !list_name("finite?"@),
        !arithmetic_name("finite?"@),
        !map_name("finite?"@),
        !types_name("finite?"@),
        !option_name("finite?"@),
        !core_name("normal?"@),
        !logical_name("normal?"@),
        !list_name("normal?"@),
        !arithmetic_name("normal?"@),
        !map_name("normal?"@),
        !types_name("normal?"@),
        !option_name("normal?"@),
        !core_name("floor"@),
        !logical_name("floor"@),
        !list_name("floor"@),
        !arithmetic_name("floor"@),
        !map_name("floor"@),
        !types_name("floor"@),
        !option_name("floor"@),
        !core_name("ceil"@),
        !logical_name("ceil"@),
        !list_name("ceil"@),
        !arithmetic_name("ceil"@),
        !map_name("ceil"@),
        !types_name("ceil"@),
        !option_name("ceil"@),
        !core_name("round"@),
        !logical_name("round"@),
        !list_name("round"@),
        !arithmetic_name("round"@),
        !map_name("round"@),
        !types_name("round"@),
        !option_name("round"@),
        !core_name("trunc"@),
        !logical_name("trunc"@),
        !list_name("trunc"@),
        !arithmetic_name("trunc"@),
        !map_name("trunc"@),
        !types_name("trunc"@),
        !option_name("trunc"@),
        !core_name("sign_positive?"@),
        !logical_name("sign_positive?"@),
        !list_name("sign_positive?"@),
        !arithmetic_name("sign_positive?"@),
        !map_name("sign_positive?"@),
        !types_name("sign_positive?"@),
        !option_name("sign_positive?"@),
        !core_name("sign_negative?"@),
        !logical_name("sign_negative?"@),
        !list_name("sign_negative?"@),
        !arithmetic_name("sign_negative?"@),
        !map_name("sign_negative?"@),
        !types_name("sign_negative?"@),
        !option_name("sign_negative?"@),
        !core_name("count_ones"@),
        !logical_name("count_ones"@),
        !list_name("count_ones"@),
        !arithmetic_name("count_ones"@),
        !map_name("count_ones"@),
        !types_name("count_ones"@),
        !option_name("count_ones"@),
        !core_name("count_zeros"@),
        !logical_name("count_zeros"@),
        !list_name("count_zeros"@),
        !arithmetic_name("count_zeros"@),
        !map_name("count_zeros"@),
        !types_name("count_zeros"@),
        !option_name("count_zeros"@),
        !core_name("leading_zeros"@),
        !logical_name("leading_zeros"@),
        !list_name("leading_zeros"@),
        !arithmetic_name("leading_zeros"@),
        !map_name("leading_zeros"@),
        !types_name("leading_zeros"@),
        !option_name("leading_zeros"@),
        !core_name("trailing_zeros"@),
        !logical_name("trailing_zeros"@),
        !list_name("trailing_zeros"@),
        !arithmetic_name("trailing_zeros"@),
        !map_name("trailing_zeros"@),
        !types_name("trailing_zeros"@),
        !option_name("trailing_zeros"@),
        !core_name("swap_bytes"@),
        !logical_name("swap_bytes"@),
        !list_name("swap_bytes"@),
        !arithmetic_name("swap_bytes"@),
        !map_name("swap_bytes"@),
        !types_name("swap_bytes"@),
        !option_name("swap_bytes"@),
        !core_name("->big-endian"@),
        !logical_name("->big-endian"@),
        !list_name("->big-endian"@),
        !arithmetic_name("->big-endian"@),
        !map_name("->big-endian"@),
        !types_name("->big-endian"@),
        !option_name("->big-endian"@),
        !core_name("->little-endian"@),
        !logical_name("->little-endian"@),
        !list_name("->little-endian"@),
        !arithmetic_name("->little-endian"@),
        !map_name("->little-endian"@),
        !types_name("->little-endian"@),
        !option_name("->little-endian"@),
        !core_name("abs"@),
        !logical_name("abs"@),
        !list_name("abs"@),
        !arithmetic_name("abs"@),
        !map_name("abs"@),
        !types_name("abs"@),
        !option_name("abs"@),
        !core_name("signum"@),
        !logical_name("signum"@),
        !list_name("signum"@),
        !arithmetic_name("signum"@),
        !map_name("signum"@),
        !types_name("signum"@),
        !option_name("signum"@),
        !core_name("positive?"@),
        !logical_name("positive?"@),
        !list_name("positive?"@),
        !arithmetic_name("positive?"@),
        !map_name("positive?"@),
        !types_name("positive?"@),
        !option_name("positive?"@),
        !core_name("negative?"@),
        !logical_name("negative?"@),
        !list_name("negative?"@),
        !arithmetic_name("negative?"@),
        !map_name("negative?"@),
        !types_name("negative?"@),
        !option_name("negative?"@),
{
    lemma_native_literals();
}

/// Makes the functions of one number known to `ctx`: each name means its native function afterwards,
/// if the symbols leave room for the names, and no other name changes its
/// meaning.
pub fn load_math(ctx: &mut Context)
    requires
        old(ctx).wf(),
    ensures
        loaded(*old(ctx), *final(ctx), 21),
        only_library_bound(old(ctx)@) ==> only_library_bound(final(ctx)@),
        math_known(old(ctx)@) || old(ctx)@.names.len() + 21 <= u32::MAX ==> knows_math(final(ctx)@),
        forall|other: Seq<char>|
            !math_name(other) ==> #[trigger] named_value(final(ctx)@, other) == named_value(
                old(ctx)@,
                other,
            ),
{
    proof {
        lemma_native_literals();
        lemma_loaded_twice(*ctx, *ctx, *ctx, 0, 0);
    }
    let ghost start = *ctx;
    let ghost before = *ctx;
    install(ctx, "nan?", FfType::Free, Native::IsNan);
    proof {
        lemma_loaded_twice(start, before, *ctx, 0, 1);
    }
    let ghost before = *ctx;
    install(ctx, "infinite?", FfType::Free, Native::IsInfinite);
    proof {
        lemma_loaded_twice(start, before, *ctx, 1, 1);
    }
    assert(math_known(start@) || start@.names.len() + 21 <= u32::MAX ==> bound_to(ctx@, "nan?"@, FfType::Free, Native::IsNan)
        && bound_to(ctx@, "infinite?"@, FfType::Free, Native::IsInfinite));
    let ghost before = *ctx;
    install(ctx, "finite?", FfType::Free, Native::IsFinite);
    proof {
        lemma_loaded_twice(start, before, *ctx, 2, 1);
    }
    assert(math_known(start@) || start@.names.len() + 21 <= u32::MAX ==> bound_to(ctx@, "nan?"@, FfType::Free, Native::IsNan)
        && bound_to(ctx@, "infinite?"@, FfType::Free, Native::IsInfinite)
        && bound_to(ctx@, "finite?"@, FfType::Free, Native::IsFinite));
    let ghost before = *ctx;
    install(ctx, "normal?", FfType::Free, Native::IsNormal);
    proof {
        lemma_loaded_twice(start, before, *ctx, 3, 1);
    }
    assert(math_known(start@) || start@.names.len() + 21 <= u32::MAX ==> bound_to(ctx@, "nan?"@, FfType::Free, Native::IsNan)
        && bound_to(ctx@, "infinite?"@, FfType::Free, Native::IsInfinite)
        && bound_to(ctx@, "finite?"@, FfType::Free, Native::IsFinite)
        && bound_to(ctx@, "normal?"@, FfType::Free, Native::IsNormal));
    let ghost before = *ctx;
    install(ctx, "floor", FfType::Free, Native::Floor);
    proof {
        lemma_loaded_twice(start, before, *ctx, 4, 1);
    }
    assert(math_known(start@) || start@.names.len() + 21 <= u32::MAX ==> bound_to(ctx@, "nan?"@, FfType::Free, Native::IsNan)
        && bound_to(ctx@, "infinite?"@, FfType::Free, Native::IsInfinite)
        && bound_to(ctx@, "finite?"@, FfType::Free, Native::IsFinite)
        && bound_to(ctx@, "normal?"@, FfType::Free, Native::IsNormal)
        && bound_to(ctx@, "floor"@, FfType::Free, Native::Floor));
    let ghost before = *ctx;
    install(ctx, "ceil", FfType::Free, Native::Ceil);
    proof {
        lemma_loaded_twice(start, before, *ctx, 5, 1);
    }
    assert(math_known(start@) || start@.names.len() + 21 <= u32::MAX ==> bound_to(ctx@, "nan?"@, FfType::Free, Native::IsNan)
        && bound_to(ctx@, "infinite?"@, FfType::Free, Native::IsInfinite)
        && bound_to(ctx@, "finite?"@, FfType::Free, Native::IsFinite)
        && bound_to(ctx@, "normal?"@, FfType::Free, Native::IsNormal)
        && bound_to(ctx@, "floor"@, FfType::Free, Native::Floor)
        && bound_to(ctx@, "ceil"@, FfType::Free, Native::Ceil));
    let ghost before = *ctx;
    install(ctx, "round", FfType::Free, Native::Round);
    proof {
        lemma_loaded_twice(start, before, *ctx, 6, 1);
    }
    assert(math_known(start@) || start@.names.len() + 21 <= u32::MAX ==> bound_to(ctx@, "nan?"@, FfType::Free, Native::IsNan)
        && bound_to(ctx@, "infinite?"@, FfType::Free, Native::IsInfinite)
        && bound_to(ctx@, "finite?"@, FfType::Free, Native::IsFinite)
        && bound_to(ctx@, "normal?"@, FfType::Free, Native::IsNormal)
        && bound_to(ctx@, "floor"@, FfType::Free, Native::Floor)
        && bound_to(ctx@, "ceil"@, FfType::Free, Native::Ceil)
        && bound_to(ctx@, "round"@, FfType::Free, Native::Round));
    let ghost before = *ctx;
    install(ctx, "trunc", FfType::Free, Native::Trunc);
    proof {
        lemma_loaded_twice(start, before, *ctx, 7, 1);
    }
    assert(math_known(start@) || start@.names.len() + 21 <= u32::MAX ==> bound_to(ctx@, "nan?"@, FfType::Free, Native::IsNan)
        && bound_to(ctx@, "infinite?"@, FfType::Free, Native::IsInfinite)
        && bound_to(ctx@, "finite?"@, FfType::Free, Native::IsFinite)
        && bound_to(ctx@, "normal?"@, FfType::Free, Native::IsNormal)
        && bound_to(ctx@, "floor"@, FfType::Free, Native::Floor)
        && bound_to(ctx@, "ceil"@, FfType::Free, Native::Ceil)
        && bound_to(ctx@, "round"@, FfType::Free, Native::Round)
        && bound_to(ctx@, "trunc"@, FfType::Free, Native::Trunc));
    let ghost before = *ctx;
    install(ctx, "sign_positive?", FfType::Free, Native::IsSignPositive);
    proof {
        lemma_loaded_twice(start, before, *ctx, 8, 1);
    }
    assert(math_known(start@) || start@.names.len() + 21 <= u32::MAX ==> bound_to(ctx@, "nan?"@, FfType::Free, Native::IsNan)
        && bound_to(ctx@, "infinite?"@, FfType::Free, Native::IsInfinite)
        && bound_to(ctx@, "finite?"@, FfType::Free, Native::IsFinite)
        && bound_to(ctx@, "normal?"@, FfType::Free, Native::IsNormal)
        && bound_to(ctx@, "floor"@, FfType::Free, Native::Floor)
        && bound_to(ctx@, "ceil"@, FfType::Free, Native::Ceil)
        && bound_to(ctx@, "round"@, FfType::Free, Native::Round)
        && bound_to(ctx@, "trunc"@, FfType::Free, Native::Trunc)
        && bound_to(ctx@, "sign_positive?"@, FfType::Free, Native::IsSignPositive));
    let ghost before = *ctx;
    install(ctx, "sign_negative?", FfType::Free, Native::IsSignNegative);
    proof {
        lemma_loaded_twice(start, before, *ctx, 9, 1);
    }
    assert(math_known(start@) || start@.names.len() + 21 <= u32::MAX ==> bound_to(ctx@, "nan?"@, FfType::Free, Native::IsNan)
        && bound_to(ctx@, "infinite?"@, FfType::Free, Native::IsInfinite)
        && bound_to(ctx@, "finite?"@, FfType::Free, Native::IsFinite)
        && bound_to(ctx@, "normal?"@, FfType::Free, Native::IsNormal)
        && bound_to(ctx@, "floor"@, FfType::Free, Native::Floor)
        && bound_to(ctx@, "ceil"@, FfType::Free, Native::Ceil)
        && bound_to(ctx@, "round"@, FfType::Free, Native::Round)
        && bound_to(ctx@, "trunc"@, FfType::Free, Native::Trunc)
        && bound_to(ctx@, "sign_positive?"@, FfType::Free, Native::IsSignPositive)
        && bound_to(ctx@, "sign_negative?"@, FfType::Free, Native::IsSignNegative));
    let ghost before = *ctx;
    install(ctx, "count_ones", FfType::Free, Native::CountOnes);
    proof {
        lemma_loaded_twice(start, before, *ctx, 10, 1);
    }
    assert(math_known(start@) || start@.names.len() + 21 <= u32::MAX ==> bound_to(ctx@, "nan?"@, FfType::Free, Native::IsNan)
        && bound_to(ctx@, "infinite?"@, FfType::Free, Native::IsInfinite)
        && bound_to(ctx@, "finite?"@, FfType::Free, Native::IsFinite)
        && bound_to(ctx@, "normal?"@, FfType::Free, Native::IsNormal)
        && bound_to(ctx@, "floor"@, FfType::Free, Native::Floor)
        && bound_to(ctx@, "ceil"@, FfType::Free, Native::Ceil)
        && bound_to(ctx@, "round"@, FfType::Free, Native::Round)
        && bound_to(ctx@, "trunc"@, FfType::Free, Native::Trunc)
        && bound_to(ctx@, "sign_positive?"@, FfType::Free, Native::IsSignPositive)
        && bound_to(ctx@, "sign_negative?"@, FfType::Free, Native::IsSignNegative)
        && bound_to(ctx@, "count_ones"@, FfType::Free, Native::CountOnes));
    let ghost before = *ctx;
    install(ctx, "count_zeros", FfType::Free, Native::CountZeros);
    proof {
        lemma_loaded_twice(start, before, *ctx, 11, 1);
    }
    assert(math_known(start@) || start@.names.len() + 21 <= u32::MAX ==> bound_to(ctx@, "nan?"@, FfType::Free, Native::IsNan)
        && bound_to(ctx@, "infinite?"@, FfType::Free, Native::IsInfinite)
        && bound_to(ctx@, "finite?"@, FfType::Free, Native::IsFinite)
        && bound_to(ctx@, "normal?"@, FfType::Free, Native::IsNormal)
        && bound_to(ctx@, "floor"@, FfType::Free, Native::Floor)
        && bound_to(ctx@, "ceil"@, FfType::Free, Native::Ceil)
        && bound_to(ctx@, "round"@, FfType::Free, Native::Round)
        && bound_to(ctx@, "trunc"@, FfType::Free, Native::Trunc)
        && bound_to(ctx@, "sign_positive?"@, FfType::Free, Native::IsSignPositive)
        && bound_to(ctx@, "sign_negative?"@, FfType::Free, Native::IsSignNegative)
        && bound_to(ctx@, "count_ones"@, FfType::Free, Native::CountOnes)
        && bound_to(ctx@, "count_zeros"@, FfType::Free, Native::CountZeros));
    let ghost before = *ctx;
    install(ctx, "leading_zeros", FfType::Free, Native::LeadingZeros);
    proof {
        lemma_loaded_twice(start, before, *ctx, 12, 1);
    }
    assert(math_known(start@) || start@.names.len() + 21 <= u32::MAX ==> bound_to(ctx@, "nan?"@, FfType::Free, Native::IsNan)
        && bound_to(ctx@, "infinite?"@, FfType::Free, Native::IsInfinite)
        && bound_to(ctx@, "finite?"@, FfType::Free, Native::IsFinite)
        && bound_to(ctx@, "normal?"@, FfType::Free, Native::IsNormal)
        && bound_to(ctx@, "floor"@, FfType::Free, Native::Floor)
        && bound_to(ctx@, "ceil"@, FfType::Free, Native::Ceil)
        && bound_to(ctx@, "round"@, FfType::Free, Native::Round)
        && bound_to(ctx@, "trunc"@, FfType::Free, Native::Trunc)
        && bound_to(ctx@, "sign_positive?"@, FfType::Free, Native::IsSignPositive)
        && bound_to(ctx@, "sign_negative?"@, FfType::Free, Native::IsSignNegative)
        && bound_to(ctx@, "count_ones"@, FfType::Free, Native::CountOnes)
        && bound_to(ctx@, "count_zeros"@, FfType::Free, Native::CountZeros)
        && bound_to(ctx@, "leading_zeros"@, FfType::Free, Native::LeadingZeros));
    let ghost before = *ctx;
    install(ctx, "trailing_zeros", FfType::Free, Native::TrailingZeros);
    proof {
        lemma_loaded_twice(start, before, *ctx, 13, 1);
    }
    assert(math_known(start@) || start@.names.len() + 21 <= u32::MAX ==> bound_to(ctx@, "nan?"@, FfType::Free, Native::IsNan)
        && bound_to(ctx@, "infinite?"@, FfType::Free, Native::IsInfinite)
        && bound_to(ctx@, "finite?"@, FfType::Free, Native::IsFinite)
        && bound_to(ctx@, "normal?"@, FfType::Free, Native::IsNormal)
        && bound_to(ctx@, "floor"@, FfType::Free, Native::Floor)
        && bound_to(ctx@, "ceil"@, FfType::Free, Native::Ceil)
        && bound_to(ctx@, "round"@, FfType::Free, Native::Round)
        && bound_to(ctx@, "trunc"@, FfType::Free, Native::Trunc)
        && bound_to(ctx@, "sign_positive?"@, FfType::Free, Native::IsSignPositive)
        && bound_to(ctx@, "sign_negative?"@, FfType::Free, Native::IsSignNegative)
        && bound_to(ctx@, "count_ones"@, FfType::Free, Native::CountOnes)
        && bound_to(ctx@, "count_zeros"@, FfType::Free, Native::CountZeros)
        && bound_to(ctx@, "leading_zeros"@, FfType::Free, Native::LeadingZeros)
        && bound_to(ctx@, "trailing_zeros"@, FfType::Free, Native::TrailingZeros));
    let ghost before = *ctx;
    install(ctx, "swap_bytes", FfType::Free, Native::SwapBytes);
    proof {
        lemma_loaded_twice(start, before, *ctx, 14, 1);
    }
    assert(math_known(start@) || start@.names.len() + 21 <= u32::MAX ==> bound_to(ctx@, "nan?"@, FfType::Free, Native::IsNan)
        && bound_to(ctx@, "infinite?"@, FfType::Free, Native::IsInfinite)
        && bound_to(ctx@, "finite?"@, FfType::Free, Native::IsFinite)
        && bound_to(ctx@, "normal?"@, FfType::Free, Native::IsNormal)
        && bound_to(ctx@, "floor"@, FfType::Free, Native::Floor)
        && bound_to(ctx@, "ceil"@, FfType::Free, Native::Ceil)
        && bound_to(ctx@, "round"@, FfType::Free, Native::Round)
        && bound_to(ctx@, "trunc"@, FfType::Free, Native::Trunc)
        && bound_to(ctx@, "sign_positive?"@, FfType::Free, Native::IsSignPositive)
        && bound_to(ctx@, "sign_negative?"@, FfType::Free, Native::IsSignNegative)
        && bound_to(ctx@, "count_ones"@, FfType::Free, Native::CountOnes)
        && bound_to(ctx@, "count_zeros"@, FfType::Free, Native::CountZeros)
        && bound_to(ctx@, "leading_zeros"@, FfType::Free, Native::LeadingZeros)
        && bound_to(ctx@, "trailing_zeros"@, FfType::Free, Native::TrailingZeros)
        && bound_to(ctx@, "swap_bytes"@, FfType::Free, Native::SwapBytes));
    let ghost before = *ctx;
    install(ctx, "->big-endian", FfType::Free, Native::ToBe);
    proof {
        lemma_loaded_twice(start, before, *ctx, 15, 1);
    }
    assert(math_known(start@) || start@.names.len() + 21 <= u32::MAX ==> bound_to(ctx@, "nan?"@, FfType::Free, Native::IsNan)
        && bound_to(ctx@, "infinite?"@, FfType::Free, Native::IsInfinite)
        && bound_to(ctx@, "finite?"@, FfType::Free, Native::IsFinite)
        && bound_to(ctx@, "normal?"@, FfType::Free, Native::IsNormal)
        && bound_to(ctx@, "floor"@, FfType::Free, Native::Floor)
        && bound_to(ctx@, "ceil"@, FfType::Free, Native::Ceil)
        && bound_to(ctx@, "round"@, FfType::Free, Native::Round)
        && bound_to(ctx@, "trunc"@, FfType::Free, Native::Trunc)
        && bound_to(ctx@, "sign_positive?"@, FfType::Free, Native::IsSignPositive)
        && bound_to(ctx@, "sign_negative?"@, FfType::Free, Native::IsSignNegative)
        && bound_to(ctx@, "count_ones"@, FfType::Free, Native::CountOnes)
        && bound_to(ctx@, "count_zeros"@, FfType::Free, Native::CountZeros)
        && bound_to(ctx@, "leading_zeros"@, FfType::Free, Native::LeadingZeros)
        && bound_to(ctx@, "trailing_zeros"@, FfType::Free, Native::TrailingZeros)
        && bound_to(ctx@, "swap_bytes"@, FfType::Free, Native::SwapBytes)
        && bound_to(ctx@, "->big-endian"@, FfType::Free, Native::ToBe));
    let ghost before = *ctx;
    install(ctx, "->little-endian", FfType::Free, Native::ToLe);
    proof {
        lemma_loaded_twice(start, before, *ctx, 16, 1);
    }
    assert(math_known(start@) || start@.names.len() + 21 <= u32::MAX ==> bound_to(ctx@, "nan?"@, FfType::Free, Native::IsNan)
        && bound_to(ctx@, "infinite?"@, FfType::Free, Native::IsInfinite)
        && bound_to(ctx@, "finite?"@, FfType::Free, Native::IsFinite)
        && bound_to(ctx@, "normal?"@, FfType::Free, Native::IsNormal)
        && bound_to(ctx@, "floor"@, FfType::Free, Native::Floor)
        && bound_to(ctx@, "ceil"@, FfType::Free, Native::Ceil)
        && bound_to(ctx@, "round"@, FfType::Free, Native::Round)
        && bound_to(ctx@, "trunc"@, FfType::Free, Native::Trunc)
        && bound_to(ctx@, "sign_positive?"@, FfType::Free, Native::IsSignPositive)
        && bound_to(ctx@, "sign_negative?"@, FfType::Free, Native::IsSignNegative)
        && bound_to(ctx@, "count_ones"@, FfType::Free, Native::CountOnes)
        && bound_to(ctx@, "count_zeros"@, FfType::Free, Native::CountZeros)
        && bound_to(ctx@, "leading_zeros"@, FfType::Free, Native::LeadingZeros)
        && bound_to(ctx@, "trailing_zeros"@, FfType::Free, Native::TrailingZeros)
        && bound_to(ctx@, "swap_bytes"@, FfType::Free, Native::SwapBytes)
        && bound_to(ctx@, "->big-endian"@, FfType::Free, Native::ToBe)
        && bound_to(ctx@, "->little-endian"@, FfType::Free, Native::ToLe));
    let ghost before = *ctx;
    install(ctx, "abs", FfType::Free, Native::Abs);
    proof {
        lemma_loaded_twice(start, before, *ctx, 17, 1);
    }
    assert(math_known(start@) || start@.names.len() + 21 <= u32::MAX ==> bound_to(ctx@, "nan?"@, FfType::Free, Native::IsNan)
        && bound_to(ctx@, "infinite?"@, FfType::Free, Native::IsInfinite)
        && bound_to(ctx@, "finite?"@, FfType::Free, Native::IsFinite)
        && bound_to(ctx@, "normal?"@, FfType::Free, Native::IsNormal)
        && bound_to(ctx@, "floor"@, FfType::Free, Native::Floor)
        && bound_to(ctx@, "ceil"@, FfType::Free, Native::Ceil)
        && bound_to(ctx@, "round"@, FfType::Free, Native::Round)
        && bound_to(ctx@, "trunc"@, FfType::Free, Native::Trunc)
        && bound_to(ctx@, "sign_positive?"@, FfType::Free, Native::IsSignPositive)
        && bound_to(ctx@, "sign_negative?"@, FfType::Free, Native::IsSignNegative)
        && bound_to(ctx@, "count_ones"@, FfType::Free, Native::CountOnes)
        && bound_to(ctx@, "count_zeros"@, FfType::Free, Native::CountZeros)
        && bound_to(ctx@, "leading_zeros"@, FfType::Free, Native::LeadingZeros)
        && bound_to(ctx@, "trailing_zeros"@, FfType::Free, Native::TrailingZeros)
        && bound_to(ctx@, "swap_bytes"@, FfType::Free, Native::SwapBytes)
        && bound_to(ctx@, "->big-endian"@, FfType::Free, Native::ToBe)
        && bound_to(ctx@, "->little-endian"@, FfType::Free, Native::ToLe)
        && bound_to(ctx@, "abs"@, FfType::Free, Native::Abs));
    let ghost before = *ctx;
    install(ctx, "signum", FfType::Free, Native::Signum);
    proof {
        lemma_loaded_twice(start, before, *ctx, 18, 1);
    }
    assert(math_known(start@) || start@.names.len() + 21 <= u32::MAX ==> bound_to(ctx@, "nan?"@, FfType::Free, Native::IsNan)
        && bound_to(ctx@, "infinite?"@, FfType::Free, Native::IsInfinite)
        && bound_to(ctx@, "finite?"@, FfType::Free, Native::IsFinite)
        && bound_to(ctx@, "normal?"@, FfType::Free, Native::IsNormal)
        && bound_to(ctx@, "floor"@, FfType::Free, Native::Floor)
        && bound_to(ctx@, "ceil"@, FfType::Free, Native::Ceil)
        && bound_to(ctx@, "round"@, FfType::Free, Native::Round)
        && bound_to(ctx@, "trunc"@, FfType::Free, Native::Trunc)
        && bound_to(ctx@, "sign_positive?"@, FfType::Free, Native::IsSignPositive)
        && bound_to(ctx@, "sign_negative?"@, FfType::Free, Native::IsSignNegative)
        && bound_to(ctx@, "count_ones"@, FfType::Free, Native::CountOnes)
        && bound_to(ctx@, "count_zeros"@, FfType::Free, Native::CountZeros)
        && bound_to(ctx@, "leading_zeros"@, FfType::Free, Native::LeadingZeros)
        && bound_to(ctx@, "trailing_zeros"@, FfType::Free, Native::TrailingZeros)
        && bound_to(ctx@, "swap_bytes"@, FfType::Free, Native::SwapBytes)
        && bound_to(ctx@, "->big-endian"@, FfType::Free, Native::ToBe)
        && bound_to(ctx@, "->little-endian"@, FfType::Free, Native::ToLe)
        && bound_to(ctx@, "abs"@, FfType::Free, Native::Abs)
        && bound_to(ctx@, "signum"@, FfType::Free, Native::Signum));
    let ghost before = *ctx;
    install(ctx, "positive?", FfType::Free, Native::IsPositive);
    proof {
        lemma_loaded_twice(start, before, *ctx, 19, 1);
    }
    assert(math_known(start@) || start@.names.len() + 21 <= u32::MAX ==> bound_to(ctx@, "nan?"@, FfType::Free, Native::IsNan)
        && bound_to(ctx@, "infinite?"@, FfType::Free, Native::IsInfinite)
        && bound_to(ctx@, "finite?"@, FfType::Free, Native::IsFinite)
        && bound_to(ctx@, "normal?"@, FfType::Free, Native::IsNormal)
        && bound_to(ctx@, "floor"@, FfType::Free, Native::Floor)
        && bound_to(ctx@, "ceil"@, FfType::Free, Native::Ceil)
        && bound_to(ctx@, "round"@, FfType::Free, Native::Round)
        && bound_to(ctx@, "trunc"@, FfType::Free, Native::Trunc)
        && bound_to(ctx@, "sign_positive?"@, FfType::Free, Native::IsSignPositive)
        && bound_to(ctx@, "sign_negative?"@, FfType::Free, Native::IsSignNegative)
        && bound_to(ctx@, "count_ones"@, FfType::Free, Native::CountOnes)
        && bound_to(ctx@, "count_zeros"@, FfType::Free, Native::CountZeros)
        && bound_to(ctx@, "leading_zeros"@, FfType::Free, Native::LeadingZeros)
        && bound_to(ctx@, "trailing_zeros"@, FfType::Free, Native::TrailingZeros)
        && bound_to(ctx@, "swap_bytes"@, FfType::Free, Native::SwapBytes)
        && bound_to(ctx@, "->big-endian"@, FfType::Free, Native::ToBe)
        && bound_to(ctx@, "->little-endian"@, FfType::Free, Native::ToLe)
        && bound_to(ctx@, "abs"@, FfType::Free, Native::Abs)
        && bound_to(ctx@, "signum"@, FfType::Free, Native::Signum)
        && bound_to(ctx@, "positive?"@, FfType::Free, Native::IsPositive));
    let ghost before = *ctx;
    install(ctx, "negative?", FfType::Free, Native::IsNegative);
    proof {
        lemma_loaded_twice(start, before, *ctx, 20, 1);
    }
    assert(math_known(start@) || start@.names.len() + 21 <= u32::MAX ==> bound_to(ctx@, "nan?"@, FfType::Free, Native::IsNan)
        && bound_to(ctx@, "infinite?"@, FfType::Free, Native::IsInfinite)
        && bound_to(ctx@, "finite?"@, FfType::Free, Native::IsFinite)
        && bound_to(ctx@, "normal?"@, FfType::Free, Native::IsNormal)
        && bound_to(ctx@, "floor"@, FfType::Free, Native::Floor)
        && bound_to(ctx@, "ceil"@, FfType::Free, Native::Ceil)
        && bound_to(ctx@, "round"@, FfType::Free, Native::Round)
        && bound_to(ctx@, "trunc"@, FfType::Free, Native::Trunc)
        && bound_to(ctx@, "sign_positive?"@, FfType::Free, Native::IsSignPositive)
        && bound_to(ctx@, "sign_negative?"@, FfType::Free, Native::IsSignNegative)
        && bound_to(ctx@, "count_ones"@, FfType::Free, Native::CountOnes)
        && bound_to(ctx@, "count_zeros"@, FfType::Free, Native::CountZeros)
        && bound_to(ctx@, "leading_zeros"@, FfType::Free, Native::LeadingZeros)
        && bound_to(ctx@, "trailing_zeros"@, FfType::Free, Native::TrailingZeros)
        && bound_to(ctx@, "swap_bytes"@, FfType::Free, Native::SwapBytes)
        && bound_to(ctx@, "->big-endian"@, FfType::Free, Native::ToBe)
        && bound_to(ctx@, "->little-endian"@, FfType::Free, Native::ToLe)
        && bound_to(ctx@, "abs"@, FfType::Free, Native::Abs)
        && bound_to(ctx@, "signum"@, FfType::Free, Native::Signum)
        && bound_to(ctx@, "positive?"@, FfType::Free, Native::IsPositive)
        && bound_to(ctx@, "negative?"@, FfType::Free, Native::IsNegative));
}

/// Whether `n` is one of the names that [`load_arithmetic`] binds.
pub open spec fn arithmetic_name(n: Seq<char>) -> bool {
    n == "="@
        || n == "+"@
        || n == "-"@
        || n == "*"@
        || n == "/"@
}

/// Whether each of the names that [`load_arithmetic`] binds stands for a symbol.
pub open spec fn arithmetic_known(m: MachineView) -> bool {
    known(m, "="@)
        && known(m, "+"@)
        && known(m, "-"@)
        && known(m, "*"@)
        && known(m, "/"@)
}

/// Whether each of the names that [`load_arithmetic`] binds means its native
/// function.
pub open spec fn knows_arithmetic(m: MachineView) -> bool {
    bound_to(m, "="@, FfType::Free, Native::Equals)
        && bound_to(m, "+"@, FfType::Free, Native::AddInts)
        && bound_to(m, "-"@, FfType::Free, Native::SubInts)
        && bound_to(m, "*"@, FfType::Free, Native::MulInts)
        && bound_to(m, "/"@, FfType::Free, Native::DivInts)
}

/// No name that [`load_arithmetic`] binds is bound by another part of the standard
/// library.
proof fn lemma_arithmetic_names_apart()
    ensures
        !core_name("="@),
        !logical_name("="@),
        !list_name("="@),
        !math_name("="@),
        !map_name("="@),
        !types_name("="@),
        !option_name("="@),
        !core_name("+"@),
        !logical_name("+"@),
        !list_name("+"@),
        !math_name("+"@),
        !map_name("+"@),
        !types_name("+"@),
        !option_name("+"@),
        !core_name("-"@),
        !logical_name("-"@),
        !list_name("-"@),
        !math_name("-"@),
        !map_name("-"@),
        !types_name("-"@),
        !option_name("-"@),
        !core_name("*"@),
        !logical_name("*"@),
        !list_name("*"@),
        !math_name("*"@),
        !map_name("*"@),
        !types_name("*"@),
        !option_name("*"@),
        !core_name("/"@),
        !logical_name("/"@),
        !list_name("/"@),
        !math_name("/"@),
        !map_name("/"@),
        !types_name("/"@),
        !option_name("/"@),
{
    lemma_native_literals();
}

/// Makes the arithmetic on integers and `=` known to `ctx`: each name means its native function afterwards,
/// if the symbols leave room for the names, and no other name changes its
/// meaning.
pub fn load_arithmetic(ctx: &mut Context)
    requires
        old(ctx).wf(),
    ensures
        loaded(*old(ctx), *final(ctx), 5),
        only_library_bound(old(ctx)@) ==> only_library_bound(final(ctx)@),
        arithmetic_known(old(ctx)@) || old(ctx)@.names.len() + 5 <= u32::MAX ==> knows_arithmetic(final(ctx)@),
        forall|other: Seq<char>|
            !arithmetic_name(other) ==> #[trigger] named_value(final(ctx)@, other) == named_value(
                old(ctx)@,
                other,
            ),
{
    proof {
        lemma_native_literals();
        lemma_loaded_twice(*ctx, *ctx, *ctx, 0, 0);
    }
    let ghost start = *ctx;
    let ghost before = *ctx;
    install(ctx, "=", FfType::Free, Native::Equals);
    proof {
        lemma_loaded_twice(start, before, *ctx, 0, 1);
    }
    let ghost before = *ctx;
    install(ctx, "+", FfType::Free, Native::AddInts);
    proof {
        lemma_loaded_twice(start, before, *ctx, 1, 1);
    }
    assert(arithmetic_known(start@) || start@.names.len() + 5 <= u32::MAX ==> bound_to(ctx@, "="@, FfType::Free, Native::Equals)
        && bound_to(ctx@, "+"@, FfType::Free, Native::AddInts));
    let ghost before = *ctx;
    install(ctx, "-", FfType::Free, Native::SubInts);
    proof {
        lemma_loaded_twice(start, before, *ctx, 2, 1);
    }
    assert(arithmetic_known(start@) || start@.names.len() + 5 <= u32::MAX ==> bound_to(ctx@, "="@, FfType::Free, Native::Equals)
        && bound_to(ctx@, "+"@, FfType::Free, Native::AddInts)
        && bound_to(ctx@, "-"@, FfType::Free, Native::SubInts));
    let ghost before = *ctx;
    install(ctx, "*", FfType::Free, Native::MulInts);
    proof {
        lemma_loaded_twice(start, before, *ctx, 3, 1);
    }
    assert(arithmetic_known(start@) || start@.names.len() + 5 <= u32::MAX ==> bound_to(ctx@, "="@, FfType::Free, Native::Equals)
        && bound_to(ctx@, "+"@, FfType::Free, Native::AddInts)
        && bound_to(ctx@, "-"@, FfType::Free, Native::SubInts)
        && bound_to(ctx@, "*"@, FfType::Free, Native::MulInts));
    let ghost before = *ctx;
    install(ctx, "/", FfType::Free, Native::DivInts);
    proof {
        lemma_loaded_twice(start, before, *ctx, 4, 1);
    }
    assert(arithmetic_known(start@) || start@.names.len() + 5 <= u32::MAX ==> bound_to(ctx@, "="@, FfType::Free, Native::Equals)
        && bound_to(ctx@, "+"@, FfType::Free, Native::AddInts)
        && bound_to(ctx@, "-"@, FfType::Free, Native::SubInts)
        && bound_to(ctx@, "*"@, FfType::Free, Native::MulInts)
        && bound_to(ctx@, "/"@, FfType::Free, Native::DivInts));
}

/// Whether `n` is one of the names that [`load_map`] binds.
pub open spec fn map_name(n: Seq<char>) -> bool {
    n == "hash-map"@
}

/// Whether each of the names that [`load_map`] binds stands for a symbol.
pub open spec fn map_known(m: MachineView) -> bool {
    known(m, "hash-map"@)
}

/// Whether each of the names that [`load_map`] binds means its native
/// function.
pub open spec fn knows_map(m: MachineView) -> bool {
    bound_to(m, "hash-map"@, FfType::Ast, Native::HashMap)
}

/// No name that [`load_map`] binds is bound by another part of the standard
/// library.
proof fn lemma_map_names_apart()
    ensures
        !core_name("hash-map"@),
        !logical_name("hash-map"@),
        !list_name("hash-map"@),
        !math_name("hash-map"@),
        !arithmetic_name("hash-map"@),
        !types_name("hash-map"@),
        !option_name("hash-map"@),
{
    lemma_native_literals();
}

/// Makes `hash-map` known to `ctx`: each name means its native function afterwards,
/// if the symbols leave room for the names, and no other name changes its
/// meaning.
pub fn load_map(ctx: &mut Context)
    requires
        old(ctx).wf(),
    ensures
        loaded(*old(ctx), *final(ctx), 1),
        only_library_bound(old(ctx)@) ==> only_library_bound(final(ctx)@),
        map_known(old(ctx)@) || old(ctx)@.names.len() + 1 <= u32::MAX ==> knows_map(final(ctx)@),
        forall|other: Seq<char>|
            !map_name(other) ==> #[trigger] named_value(final(ctx)@, other) == named_value(
                old(ctx)@,
                other,
            ),
{
    proof {
        lemma_native_literals();
        lemma_loaded_twice(*ctx, *ctx, *ctx, 0, 0);
    }
    let ghost start = *ctx;
    let ghost before = *ctx;
    install(ctx, "hash-map", FfType::Ast, Native::HashMap);
    proof {
        lemma_loaded_twice(start, before, *ctx, 0, 1);
    }
}

/// Whether `n` is one of the names that [`load_types`] binds.
pub open spec fn types_name(n: Seq<char>) -> bool {
    n == "->int"@
        || n == "->float"@
        || n == "->string"@
        || n == "->bool"@
        || n == "int?"@
        || n == "float?"@
        || n == "bool?"@
        || n == "string?"@
        || n == "list?"@
        || n == "symbol?"@
        || n == "lambda?"@
        || n == "foreign-fn?"@
        || n == "executable"@
}

/// Whether each of the names that [`load_types`] binds stands for a symbol.
pub open spec fn types_known(m: MachineView) -> bool {
    known(m, "->int"@)
        && known(m, "->float"@)
        && known(m, "->string"@)
        && known(m, "->bool"@)
        && known(m, "int?"@)
        && known(m, "float?"@)
        && known(m, "bool?"@)
        && known(m, "string?"@)
        && known(m, "list?"@)
        && known(m, "symbol?"@)
        && known(m, "lambda?"@)
        && known(m, "foreign-fn?"@)
        && known(m, "executable"@)
}

/// Whether each of the names that [`load_types`] binds means its native
/// function.
pub open spec fn knows_types(m: MachineView) -> bool {
    bound_to(m, "->int"@, FfType::Free, Native::ToInt)
        && bound_to(m, "->float"@, FfType::Free, Native::ToFloat)
        && bound_to(m, "->string"@, FfType::User, Native::ToString)
        && bound_to(m, "->bool"@, FfType::Free, Native::ToBool)
        && bound_to(m, "int?"@, FfType::Free, Native::IsInt)
        && bound_to(m, "float?"@, FfType::Free, Native::IsFloat)
        && bound_to(m, "bool?"@, FfType::Free, Native::IsBool)
        && bound_to(m, "string?"@, FfType::Free, Native::IsString)
        && bound_to(m, "list?"@, FfType::Free, Native::IsList)
        && bound_to(m, "symbol?"@, FfType::Free, Native::IsSymbol)
        && bound_to(m, "lambda?"@, FfType::Free, Native::IsLambda)
        && bound_to(m, "foreign-fn?"@, FfType::Free, Native::IsForeignFn)
        && bound_to(m, "executable"@, FfType::Free, Native::IsExecutable)
}

/// No name that [`load_types`] binds is bound by another part of the standard
/// library.
proof fn lemma_types_names_apart()
    ensures
        !core_name("->int"@),
        !logical_name("->int"@),
        !list_name("->int"@),
        !math_name("->int"@),
        !arithmetic_name("->int"@),
        !map_name("->int"@),
        !option_name("->int"@),
        !core_name("->float"@),
        !logical_name("->float"@),
        !list_name("->float"@),
        !math_name("->float"@),
        !arithmetic_name("->float"@),
        !map_name("->float"@),
        !option_name("->float"@),
        !core_name("->string"@),
        !logical_name("->string"@),
        !list_name("->string"@),
        !math_name("->string"@),
        !arithmetic_name("->string"@),
        !map_name("->string"@),
        !option_name("->string"@),
        !core_name("->bool"@),
        !logical_name("->bool"@),
        !list_name("->bool"@),
        !math_name("->bool"@),
        !arithmetic_name("->bool"@),
        !map_name("->bool"@),
        !option_name("->bool"@),
        !core_name("int?"@),
        !logical_name("int?"@),
        !list_name("int?"@),
        !math_name("int?"@),
        !arithmetic_name("int?"@),
        !map_name("int?"@),
        !option_name("int?"@),
        !core_name("float?"@),
        !logical_name("float?"@),
        !list_name("float?"@),
        !math_name("float?"@),
        !arithmetic_name("float?"@),
        !map_name("float?"@),
        !option_name("float?"@),
        !core_name("bool?"@),
        !logical_name("bool?"@),
        !list_name("bool?"@),
        !math_name("bool?"@),
        !arithmetic_name("bool?"@),
        !map_name("bool?"@),
        !option_name("bool?"@),
        !core_name("string?"@),
        !logical_name("string?"@),
        !list_name("string?"@),
        !math_name("string?"@),
        !arithmetic_name("string?"@),
        !map_name("string?"@),
        !option_name("string?"@),
        !core_name("list?"@),
        !logical_name("list?"@),
        !list_name("list?"@),
        !math_name("list?"@),
        !arithmetic_name("list?"@),
        !map_name("list?"@),
        !option_name("list?"@),
        !core_name("symbol?"@),
        !logical_name("symbol?"@),
        !list_name("symbol?"@),
        !math_name("symbol?"@),
        !arithmetic_name("symbol?"@),
        !map_name("symbol?"@),
        !option_name("symbol?"@),
        !core_name("lambda?"@),
        !logical_name("lambda?"@),
        !list_name("lambda?"@),
        !math_name("lambda?"@),
        !arithmetic_name("lambda?"@),
        !map_name("lambda?"@),
        !option_name("lambda?"@),
        !core_name("foreign-fn?"@),
        !logical_name("foreign-fn?"@),
        !list_name("foreign-fn?"@),
        !math_name("foreign-fn?"@),
        !arithmetic_name("foreign-fn?"@),
        !map_name("foreign-fn?"@),
        !option_name("foreign-fn?"@),
        !core_name("executable"@),
        !logical_name("executable"@),
        !list_name("executable"@),
        !math_name("executable"@),
        !arithmetic_name("executable"@),
        !map_name("executable"@),
        !option_name("executable"@),
{
    lemma_native_literals();
}

/// Makes the tests of types and the conversions known to `ctx`: each name means its native function afterwards,
/// if the symbols leave room for the names, and no other name changes its
/// meaning.
pub fn load_types(ctx: &mut Context)
    requires
        old(ctx).wf(),
    ensures
        loaded(*old(ctx), *final(ctx), 13),
        only_library_bound(old(ctx)@) ==> only_library_bound(final(ctx)@),
        types_known(old(ctx)@) || old(ctx)@.names.len() + 13 <= u32::MAX ==> knows_types(final(ctx)@),
        forall|other: Seq<char>|
            !types_name(other) ==> #[trigger] named_value(final(ctx)@, other) == named_value(
                old(ctx)@,
                other,
            ),
{
    proof {
        lemma_native_literals();
        lemma_loaded_twice(*ctx, *ctx, *ctx, 0, 0);
    }
    let ghost start = *ctx;
    let ghost before = *ctx;
    install(ctx, "->int", FfType::Free, Native::ToInt);
    proof {
        lemma_loaded_twice(start, before, *ctx, 0, 1);
    }
    let ghost before = *ctx;
    install(ctx, "->float", FfType::Free, Native::ToFloat);
    proof {
        lemma_loaded_twice(start, before, *ctx, 1, 1);
    }
    assert(types_known(start@) || start@.names.len() + 13 <= u32::MAX ==> bound_to(ctx@, "->int"@, FfType::Free, Native::ToInt)
        && bound_to(ctx@, "->float"@, FfType::Free, Native::ToFloat));
    let ghost before = *ctx;
    install(ctx, "->string", FfType::User, Native::ToString);
    proof {
        lemma_loaded_twice(start, before, *ctx, 2, 1);
    }
    assert(types_known(start@) || start@.names.len() + 13 <= u32::MAX ==> bound_to(ctx@, "->int"@, FfType::Free, Native::ToInt)
        && bound_to(ctx@, "->float"@, FfType::Free, Native::ToFloat)
        && bound_to(ctx@, "->string"@, FfType::User, Native::ToString));
    let ghost before = *ctx;
    install(ctx, "->bool", FfType::Free, Native::ToBool);
    proof {
        lemma_loaded_twice(start, before, *ctx, 3, 1);
    }
    assert(types_known(start@) || start@.names.len() + 13 <= u32::MAX ==> bound_to(ctx@, "->int"@, FfType::Free, Native::ToInt)
        && bound_to(ctx@, "->float"@, FfType::Free, Native::ToFloat)
        && bound_to(ctx@, "->string"@, FfType::User, Native::ToString)
        && bound_to(ctx@, "->bool"@, FfType::Free, Native::ToBool));
    let ghost before = *ctx;
    install(ctx, "int?", FfType::Free, Native::IsInt);
    proof {
        lemma_loaded_twice(start, before, *ctx, 4, 1);
    }
    assert(types_known(start@) || start@.names.len() + 13 <= u32::MAX ==> bound_to(ctx@, "->int"@, FfType::Free, Native::ToInt)
        && bound_to(ctx@, "->float"@, FfType::Free, Native::ToFloat)
        && bound_to(ctx@, "->string"@, FfType::User, Native::ToString)
        && bound_to(ctx@, "->bool"@, FfType::Free, Native::ToBool)
        && bound_to(ctx@, "int?"@, FfType::Free, Native::IsInt));
    let ghost before = *ctx;
    install(ctx, "float?", FfType::Free, Native::IsFloat);
    proof {
        lemma_loaded_twice(start, before, *ctx, 5, 1);
    }
    assert(types_known(start@) || start@.names.len() + 13 <= u32::MAX ==> bound_to(ctx@, "->int"@, FfType::Free, Native::ToInt)
        && bound_to(ctx@, "->float"@, FfType::Free, Native::ToFloat)
        && bound_to(ctx@, "->string"@, FfType::User, Native::ToString)
        && bound_to(ctx@, "->bool"@, FfType::Free, Native::ToBool)
        && bound_to(ctx@, "int?"@, FfType::Free, Native::IsInt)
        && bound_to(ctx@, "float?"@, FfType::Free, Native::IsFloat));
    let ghost before = *ctx;
    install(ctx, "bool?", FfType::Free, Native::IsBool);
    proof {
        lemma_loaded_twice(start, before, *ctx, 6, 1);
    }
    assert(types_known(start@) || start@.names.len() + 13 <= u32::MAX ==> bound_to(ctx@, "->int"@, FfType::Free, Native::ToInt)
        && bound_to(ctx@, "->float"@, FfType::Free, Native::ToFloat)
        && bound_to(ctx@, "->string"@, FfType::User, Native::ToString)
        && bound_to(ctx@, "->bool"@, FfType::Free, Native::ToBool)
        && bound_to(ctx@, "int?"@, FfType::Free, Native::IsInt)
        && bound_to(ctx@, "float?"@, FfType::Free, Native::IsFloat)
        && bound_to(ctx@, "bool?"@, FfType::Free, Native::IsBool));
    let ghost before = *ctx;
    install(ctx, "string?", FfType::Free, Native::IsString);
    proof {
        lemma_loaded_twice(start, before, *ctx, 7, 1);
    }
    assert(types_known(start@) || start@.names.len() + 13 <= u32::MAX ==> bound_to(ctx@, "->int"@, FfType::Free, Native::ToInt)
        && bound_to(ctx@, "->float"@, FfType::Free, Native::ToFloat)
        && bound_to(ctx@, "->string"@, FfType::User, Native::ToString)
        && bound_to(ctx@, "->bool"@, FfType::Free, Native::ToBool)
        && bound_to(ctx@, "int?"@, FfType::Free, Native::IsInt)
        && bound_to(ctx@, "float?"@, FfType::Free, Native::IsFloat)
        && bound_to(ctx@, "bool?"@, FfType::Free, Native::IsBool)
        && bound_to(ctx@, "string?"@, FfType::Free, Native::IsString));
    let ghost before = *ctx;
    install(ctx, "list?", FfType::Free, Native::IsList);
    proof {
        lemma_loaded_twice(start, before, *ctx, 8, 1);
    }
    assert(types_known(start@) || start@.names.len() + 13 <= u32::MAX ==> bound_to(ctx@, "->int"@, FfType::Free, Native::ToInt)
        && bound_to(ctx@, "->float"@, FfType::Free, Native::ToFloat)
        && bound_to(ctx@, "->string"@, FfType::User, Native::ToString)
        && bound_to(ctx@, "->bool"@, FfType::Free, Native::ToBool)
        && bound_to(ctx@, "int?"@, FfType::Free, Native::IsInt)
        && bound_to(ctx@, "float?"@, FfType::Free, Native::IsFloat)
        && bound_to(ctx@, "bool?"@, FfType::Free, Native::IsBool)
        && bound_to(ctx@, "string?"@, FfType::Free, Native::IsString)
        && bound_to(ctx@, "list?"@, FfType::Free, Native::IsList));
    let ghost before = *ctx;
    install(ctx, "symbol?", FfType::Free, Native::IsSymbol);
    proof {
        lemma_loaded_twice(start, before, *ctx, 9, 1);
    }
    assert(types_known(start@) || start@.names.len() + 13 <= u32::MAX ==> bound_to(ctx@, "->int"@, FfType::Free, Native::ToInt)
        && bound_to(ctx@, "->float"@, FfType::Free, Native::ToFloat)
        && bound_to(ctx@, "->string"@, FfType::User, Native::ToString)
        && bound_to(ctx@, "->bool"@, FfType::Free, Native::ToBool)
        && bound_to(ctx@, "int?"@, FfType::Free, Native::IsInt)
        && bound_to(ctx@, "float?"@, FfType::Free, Native::IsFloat)
        && bound_to(ctx@, "bool?"@, FfType::Free, Native::IsBool)
        && bound_to(ctx@, "string?"@, FfType::Free, Native::IsString)
        && bound_to(ctx@, "list?"@, FfType::Free, Native::IsList)
        && bound_to(ctx@, "symbol?"@, FfType::Free, Native::IsSymbol));
    let ghost before = *ctx;
    install(ctx, "lambda?", FfType::Free, Native::IsLambda);
    proof {
        lemma_loaded_twice(start, before, *ctx, 10, 1);
    }
    assert(types_known(start@) || start@.names.len() + 13 <= u32::MAX ==> bound_to(ctx@, "->int"@, FfType::Free, Native::ToInt)
        && bound_to(ctx@, "->float"@, FfType::Free, Native::ToFloat)
        && bound_to(ctx@, "->string"@, FfType::User, Native::ToString)
        && bound_to(ctx@, "->bool"@, FfType::Free, Native::ToBool)
        && bound_to(ctx@, "int?"@, FfType::Free, Native::IsInt)
        && bound_to(ctx@, "float?"@, FfType::Free, Native::IsFloat)
        && bound_to(ctx@, "bool?"@, FfType::Free, Native::IsBool)
        && bound_to(ctx@, "string?"@, FfType::Free, Native::IsString)
        && bound_to(ctx@, "list?"@, FfType::Free, Native::IsList)
        && bound_to(ctx@, "symbol?"@, FfType::Free, Native::IsSymbol)
        && bound_to(ctx@, "lambda?"@, FfType::Free, Native::IsLambda));
    let ghost before = *ctx;
    install(ctx, "foreign-fn?", FfType::Free, Native::IsForeignFn);
    proof {
        lemma_loaded_twice(start, before, *ctx, 11, 1);
    }
    assert(types_known(start@) || start@.names.len() + 13 <= u32::MAX ==> bound_to(ctx@, "->int"@, FfType::Free, Native::ToInt)
        && bound_to(ctx@, "->float"@, FfType::Free, Native::ToFloat)
        && bound_to(ctx@, "->string"@, FfType::User, Native::ToString)
        && bound_to(ctx@, "->bool"@, FfType::Free, Native::ToBool)
        && bound_to(ctx@, "int?"@, FfType::Free, Native::IsInt)
        && bound_to(ctx@, "float?"@, FfType::Free, Native::IsFloat)
        && bound_to(ctx@, "bool?"@, FfType::Free, Native::IsBool)
        && bound_to(ctx@, "string?"@, FfType::Free, Native::IsString)
        && bound_to(ctx@, "list?"@, FfType::Free, Native::IsList)
        && bound_to(ctx@, "symbol?"@, FfType::Free, Native::IsSymbol)
        && bound_to(ctx@, "lambda?"@, FfType::Free, Native::IsLambda)
        && bound_to(ctx@, "foreign-fn?"@, FfType::Free, Native::IsForeignFn));
    let ghost before = *ctx;
    install(ctx, "executable", FfType::Free, Native::IsExecutable);
    proof {
        lemma_loaded_twice(start, before, *ctx, 12, 1);
    }
    assert(types_known(start@) || start@.names.len() + 13 <= u32::MAX ==> bound_to(ctx@, "->int"@, FfType::Free, Native::ToInt)
        && bound_to(ctx@, "->float"@, FfType::Free, Native::ToFloat)
        && bound_to(ctx@, "->string"@, FfType::User, Native::ToString)
        && bound_to(ctx@, "->bool"@, FfType::Free, Native::ToBool)
        && bound_to(ctx@, "int?"@, FfType::Free, Native::IsInt)
        && bound_to(ctx@, "float?"@, FfType::Free, Native::IsFloat)
        && bound_to(ctx@, "bool?"@, FfType::Free, Native::IsBool)
        && bound_to(ctx@, "string?"@, FfType::Free, Native::IsString)
        && bound_to(ctx@, "list?"@, FfType::Free, Native::IsList)
        && bound_to(ctx@, "symbol?"@, FfType::Free, Native::IsSymbol)
        && bound_to(ctx@, "lambda?"@, FfType::Free, Native::IsLambda)
        && bound_to(ctx@, "foreign-fn?"@, FfType::Free, Native::IsForeignFn)
        && bound_to(ctx@, "executable"@, FfType::Free, Native::IsExecutable));
}

/// Whether `n` is one of the names that [`load_option`] binds.
pub open spec fn option_name(n: Seq<char>) -> bool {
    n == "some"@
        || n == "none"@
        || n == "unwrap"@
}

/// Whether each of the names that [`load_option`] binds stands for a symbol.
pub open spec fn option_known(m: MachineView) -> bool {
    known(m, "some"@)
        && known(m, "none"@)
        && known(m, "unwrap"@)
}

/// Whether each of the names that [`load_option`] binds means its native
/// function.
pub open spec fn knows_option(m: MachineView) -> bool {
    bound_to(m, "some"@, FfType::Free, Native::OptionSome)
        && bound_to(m, "none"@, FfType::Free, Native::OptionNone)
        && bound_to(m, "unwrap"@, FfType::Free, Native::OptionUnwrap)
}

/// No name that [`load_option`] binds is bound by another part of the standard
/// library.
proof fn lemma_option_names_apart()
    ensures
        !core_name("some"@),
        !logical_name("some"@),
        !list_name("some"@),
        !math_name("some"@),
        !arithmetic_name("some"@),
        !map_name("some"@),
        !types_name("some"@),
        !core_name("none"@),
        !logical_name("none"@),
        !list_name("none"@),
        !math_name("none"@),
        !arithmetic_name("none"@),
        !map_name("none"@),
        !types_name("none"@),
        !core_name("unwrap"@),
        !logical_name("unwrap"@),
        !list_name("unwrap"@),
        !math_name("unwrap"@),
        !arithmetic_name("unwrap"@),
        !map_name("unwrap"@),
        !types_name("unwrap"@),
{
    lemma_native_literals();
}

/// Makes the functions on options known to `ctx`: each name means its native function afterwards,
/// if the symbols leave room for the names, and no other name changes its
/// meaning.
pub fn load_option(ctx: &mut Context)
    requires
        old(ctx).wf(),
    ensures
        loaded(*old(ctx), *final(ctx), 3),
        only_library_bound(old(ctx)@) ==> only_library_bound(final(ctx)@),
        option_known(old(ctx)@) || old(ctx)@.names.len() + 3 <= u32::MAX ==> knows_option(final(ctx)@),
        forall|other: Seq<char>|
            !option_name(other) ==> #[trigger] named_value(final(ctx)@, other) == named_value(
                old(ctx)@,
                other,
            ),
{
    proof {
        lemma_native_literals();
        lemma_loaded_twice(*ctx, *ctx, *ctx, 0, 0);
    }
    let ghost start = *ctx;
    let ghost before = *ctx;
    install(ctx, "some", FfType::Free, Native::OptionSome);
    proof {
        lemma_loaded_twice(start, before, *ctx, 0, 1);
    }
    let ghost before = *ctx;
    install(ctx, "none", FfType::Free, Native::OptionNone);
    proof {
        lemma_loaded_twice(start, before, *ctx, 1, 1);
    }
    assert(option_known(start@) || start@.names.len() + 3 <= u32::MAX ==> bound_to(ctx@, "some"@, FfType::Free, Native::OptionSome)
        && bound_to(ctx@, "none"@, FfType::Free, Native::OptionNone));
    let ghost before = *ctx;
    install(ctx, "unwrap", FfType::Free, Native::OptionUnwrap);
    proof {
        lemma_loaded_twice(start, before, *ctx, 2, 1);
    }
    assert(option_known(start@) || start@.names.len() + 3 <= u32::MAX ==> bound_to(ctx@, "some"@, FfType::Free, Native::OptionSome)
        && bound_to(ctx@, "none"@, FfType::Free, Native::OptionNone)
        && bound_to(ctx@, "unwrap"@, FfType::Free, Native::OptionUnwrap));
}

/// Whether every name of the standard library that is a native function
/// means that function.
pub open spec fn knows_natives(m: MachineView) -> bool {
    knows_core(m)
        && knows_logical(m)
        && knows_list(m)
        && knows_math(m)
        && knows_arithmetic(m)
        && knows_map(m)
        && knows_types(m)
        && knows_option(m)
}

/// Whether every name of a native function of the standard library stands
/// for a symbol.
pub open spec fn natives_known(m: MachineView) -> bool {
    core_known(m)
        && logical_known(m)
        && list_known(m)
        && math_known(m)
        && arithmetic_known(m)
        && map_known(m)
        && types_known(m)
        && option_known(m)
}

/// Whether `n` is the name of a native function of the standard library.
pub open spec fn native_name(n: Seq<char>) -> bool {
    core_name(n)
        || logical_name(n)
        || list_name(n)
        || math_name(n)
        || arithmetic_name(n)
        || map_name(n)
        || types_name(n)
        || option_name(n)
}

/// The number of native functions of the standard library.
pub const NATIVES: usize = 62;

/// Makes the native functions of the standard library known to `ctx`.
pub fn load_natives(ctx: &mut Context)
    requires
        old(ctx).wf(),
    ensures
        loaded(*old(ctx), *final(ctx), NATIVES as int),
        only_library_bound(old(ctx)@) ==> only_library_bound(final(ctx)@),
        natives_known(old(ctx)@) || old(ctx)@.names.len() + NATIVES <= u32::MAX
            ==> knows_natives(final(ctx)@),
        forall|other: Seq<char>|
            !native_name(other) ==> #[trigger] named_value(final(ctx)@, other) == named_value(
                old(ctx)@,
                other,
            ),
{
    proof {
        lemma_core_names_apart();
        lemma_logical_names_apart();
        lemma_list_names_apart();
        lemma_math_names_apart();
        lemma_arithmetic_names_apart();
        lemma_map_names_apart();
        lemma_types_names_apart();
        lemma_option_names_apart();
        lemma_loaded_twice(*ctx, *ctx, *ctx, 0, 0);
    }
    let ghost start = *ctx;
    let ghost before = *ctx;
    load_core(ctx);
    proof {
        lemma_loaded_twice(start, before, *ctx, 0, 14);
    }
    assert(natives_known(start@) || start@.names.len() + NATIVES <= u32::MAX ==> knows_core(ctx@));
    let ghost before = *ctx;
    load_logical(ctx);
    proof {
        lemma_loaded_twice(start, before, *ctx, 14, 3);
    }
    assert(natives_known(start@) || start@.names.len() + NATIVES <= u32::MAX ==> knows_core(ctx@)
        && knows_logical(ctx@));
    let ghost before = *ctx;
    load_list(ctx);
    proof {
        lemma_loaded_twice(start, before, *ctx, 17, 2);
    }
    assert(natives_known(start@) || start@.names.len() + NATIVES <= u32::MAX ==> knows_core(ctx@)
        && knows_logical(ctx@)
        && knows_list(ctx@));
    let ghost before = *ctx;
    load_math(ctx);
    proof {
        lemma_loaded_twice(start, before, *ctx, 19, 21);
    }
    assert(natives_known(start@) || start@.names.len() + NATIVES <= u32::MAX ==> knows_core(ctx@)
        && knows_logical(ctx@)
        && knows_list(ctx@)
        && knows_math(ctx@));
    let ghost before = *ctx;
    load_arithmetic(ctx);
    proof {
        lemma_loaded_twice(start, before, *ctx, 40, 5);
    }
    assert(natives_known(start@) || start@.names.len() + NATIVES <= u32::MAX ==> knows_core(ctx@)
        && knows_logical(ctx@)
        && knows_list(ctx@)
        && knows_math(ctx@)
        && knows_arithmetic(ctx@));
    let ghost before = *ctx;
    load_map(ctx);
    proof {
        lemma_loaded_twice(start, before, *ctx, 45, 1);
    }
    assert(natives_known(start@) || start@.names.len() + NATIVES <= u32::MAX ==> knows_core(ctx@)
        && knows_logical(ctx@)
        && knows_list(ctx@)
        && knows_math(ctx@)
        && knows_arithmetic(ctx@)
        && knows_map(ctx@));
    let ghost before = *ctx;
    load_types(ctx);
    proof {
        lemma_loaded_twice(start, before, *ctx, 46, 13);
    }
    assert(natives_known(start@) || start@.names.len() + NATIVES <= u32::MAX ==> knows_core(ctx@)
        && knows_logical(ctx@)
        && knows_list(ctx@)
        && knows_math(ctx@)
        && knows_arithmetic(ctx@)
        && knows_map(ctx@)
        && knows_types(ctx@));
    let ghost before = *ctx;
    load_option(ctx);
    proof {
        lemma_loaded_twice(start, before, *ctx, 59, 3);
    }
    assert(natives_known(start@) || start@.names.len() + NATIVES <= u32::MAX ==> knows_core(ctx@)
        && knows_logical(ctx@)
        && knows_list(ctx@)
        && knows_math(ctx@)
        && knows_arithmetic(ctx@)
        && knows_map(ctx@)
        && knows_types(ctx@)
        && knows_option(ctx@));
}

/// What has been loaded twice has been loaded, and the names that stood
/// for symbols still do.
proof fn lemma_loaded_twice(a: Context, b: Context, c: Context, i: int, j: int)
    requires
        a.wf(),
        loaded(a, b, i),
        loaded(b, c, j),
    ensures
        loaded(a, c, i + j),
        forall|n: Seq<char>| known(a@, n) ==> #[trigger] known(c@, n),
{
    lemma_grown_twice(a@.names, b@.names, c@.names);
    assert forall|n: Seq<char>| known(a@, n) implies #[trigger] known(c@, n) by {
        lemma_named_stays_named(a@.names, c@.names, n);
    }
}

/// How many symbols the functions that are written in the language itself
/// need at most: their own names, those of their parameters, and those of
/// the native functions that they call.
pub const PRELUDE_SYMBOLS: usize = 19;

/// How many closures the functions that are written in the language itself
/// are.
pub const PRELUDE_CLOSURES: u64 = 6;

/// The symbols that the functions that are written in the language itself
/// are written with.
pub struct PreludeSymbols {
    pub list: Symbol,
    pub func: Symbol,
    pub push: Symbol,
    pub element: Symbol,
    pub default: Symbol,
    pub list_of_lists: Symbol,
    pub push_all: Symbol,
    pub sub_list: Symbol,
    pub lists: Symbol,
    pub flatten: Symbol,
    pub build_list: Symbol,
    pub lambda: Symbol,
    pub for_each: Symbol,
    pub assign: Symbol,
    pub cond: Symbol,
}

/// The symbols that the names in the definitions stand for, in a table
/// with the names `names`.
pub open spec fn prelude_symbols(names: Seq<Option<Seq<char>>>) -> PreludeSymbols {
    PreludeSymbols {
        list: symbol_named(names, "list"@).unwrap(),
        func: symbol_named(names, "fn"@).unwrap(),
        push: symbol_named(names, "push"@).unwrap(),
        element: symbol_named(names, "element"@).unwrap(),
        default: symbol_named(names, "default"@).unwrap(),
        list_of_lists: symbol_named(names, "list-of-lists"@).unwrap(),
        push_all: symbol_named(names, "push-all"@).unwrap(),
        sub_list: symbol_named(names, "sub-list"@).unwrap(),
        lists: symbol_named(names, "lists"@).unwrap(),
        flatten: symbol_named(names, "flatten"@).unwrap(),
        build_list: symbol_named(names, "build-list"@).unwrap(),
        lambda: symbol_named(names, "lambda"@).unwrap(),
        for_each: symbol_named(names, "for-each"@).unwrap(),
        assign: symbol_named(names, "set"@).unwrap(),
        cond: symbol_named(names, "if"@).unwrap(),
    }
}

/// Whether each name in the definitions stands for a symbol.
pub open spec fn prelude_symbols_known(names: Seq<Option<Seq<char>>>) -> bool {
    symbol_named(names, "list"@).is_some() && symbol_named(names, "fn"@).is_some() && symbol_named(
        names,
        "push"@,
    ).is_some() && symbol_named(names, "element"@).is_some() && symbol_named(
        names,
        "default"@,
    ).is_some() && symbol_named(names, "list-of-lists"@).is_some() && symbol_named(
        names,
        "push-all"@,
    ).is_some() && symbol_named(names, "sub-list"@).is_some() && symbol_named(
        names,
        "lists"@,
    ).is_some() && symbol_named(names, "flatten"@).is_some() && symbol_named(
        names,
        "build-list"@,
    ).is_some() && symbol_named(names, "lambda"@).is_some() && symbol_named(
        names,
        "for-each"@,
    ).is_some() && symbol_named(names, "set"@).is_some() && symbol_named(names, "if"@).is_some()
}

/// The tree `(build-list (lambda params (for-each list (lambda (item)
/// body))))`: the list that `body` builds from each item of `list`.
pub open spec fn built_from_each_tree(
    build_list: Symbol,
    lambda: Symbol,
    for_each: Symbol,
    params: ValueView,
    list: Symbol,
    item: Symbol,
    body: ValueView,
) -> ValueView {
    ValueView::List(
        seq![
            ValueView::Symbol(build_list),
            ValueView::List(
                seq![
                    ValueView::Symbol(lambda),
                    params,
                    ValueView::List(
                        seq![
                            ValueView::Symbol(for_each),
                            ValueView::Symbol(list),
                            ValueView::List(
                                seq![
                                    ValueView::Symbol(lambda),
                                    ValueView::List(seq![ValueView::Symbol(item)]),
                                    body,
                                ],
                            ),
                        ],
                    ),
                ],
            ),
        ],
    )
}

/// The body of `map`: `(build-list (lambda (push) (for-each list (lambda
/// (element) (push (fn element))))))`.
pub open spec fn map_body(s: PreludeSymbols) -> ValueView {
    built_from_each_tree(
        s.build_list,
        s.lambda,
        s.for_each,
        ValueView::List(seq![ValueView::Symbol(s.push)]),
        s.list,
        s.element,
        ValueView::List(
            seq![
                ValueView::Symbol(s.push),
                ValueView::List(seq![ValueView::Symbol(s.func), ValueView::Symbol(s.element)]),
            ],
        ),
    )
}

/// The first body of `fold-left`: `(for-each list (lambda (element) (set
/// default (fn default element))))`.
pub open spec fn fold_body(s: PreludeSymbols) -> ValueView {
    ValueView::List(
        seq![
            ValueView::Symbol(s.for_each),
            ValueView::Symbol(s.list),
            ValueView::List(
                seq![
                    ValueView::Symbol(s.lambda),
                    ValueView::List(seq![ValueView::Symbol(s.element)]),
                    ValueView::List(
                        seq![
                            ValueView::Symbol(s.assign),
                            ValueView::Symbol(s.default),
                            ValueView::List(
                                seq![
                                    ValueView::Symbol(s.func),
                                    ValueView::Symbol(s.default),
                                    ValueView::Symbol(s.element),
                                ],
                            ),
                        ],
                    ),
                ],
            ),
        ],
    )
}

/// The body of `filter`: `(build-list (lambda (push) (for-each list (lambda
/// (element) (if (fn element) (push element) false)))))`.
pub open spec fn filter_body(s: PreludeSymbols) -> ValueView {
    built_from_each_tree(
        s.build_list,
        s.lambda,
        s.for_each,
        ValueView::List(seq![ValueView::Symbol(s.push)]),
        s.list,
        s.element,
        ValueView::List(
            seq![
                ValueView::Symbol(s.cond),
                ValueView::List(seq![ValueView::Symbol(s.func), ValueView::Symbol(s.element)]),
                ValueView::List(seq![ValueView::Symbol(s.push), ValueView::Symbol(s.element)]),
                ValueView::Bool(false),
            ],
        ),
    )
}

/// The body of `flatten`: `(build-list (lambda (push push-all) (for-each
/// list-of-lists (lambda (sub-list) (push-all sub-list)))))`.
pub open spec fn flatten_body(s: PreludeSymbols) -> ValueView {
    built_from_each_tree(
        s.build_list,
        s.lambda,
        s.for_each,
        ValueView::List(seq![ValueView::Symbol(s.push), ValueView::Symbol(s.push_all)]),
        s.list_of_lists,
        s.sub_list,
        ValueView::List(seq![ValueView::Symbol(s.push_all), ValueView::Symbol(s.sub_list)]),
    )
}

/// The body of `concat`: `(flatten lists)`.
pub open spec fn concat_body(s: PreludeSymbols) -> ValueView {
    ValueView::List(seq![ValueView::Symbol(s.flatten), ValueView::Symbol(s.lists)])
}

/// Whether `v` is a closure, and no macro, that was made in the scope `env`
/// with the given parameters and bodies.
pub open spec fn closure_of(
    v: ValueView,
    env: Env,
    params: Seq<Symbol>,
    rest: Option<Symbol>,
    bodies: Seq<ValueView>,
) -> bool {
    match v {
        ValueView::Lambda(p, is_macro) => !is_macro && p.name.is_none() && p.environment == env
            && p.bodies == bodies && p.param_names == (ParamBindingView {
            params: params,
            rest: rest,
        }),
        _ => false,
    }
}

/// Whether `name` means a closure of the scope that the machine is in, with
/// the given parameters and bodies.
pub open spec fn named_closure(
    m: MachineView,
    name: Seq<char>,
    params: Seq<Symbol>,
    rest: Option<Symbol>,
    bodies: Seq<ValueView>,
) -> bool {
    match named_value(m, name) {
        Some(v) => closure_of(v, m.env(), params, rest, bodies),
        None => false,
    }
}

/// Whether each of the names of the functions that are written in the
/// language itself means the closure that its definition, given with
/// [`load_prelude`], evaluates to in the scope that the machine is in. The
/// trees are large: a proof that needs them reveals this definition.
#[verifier::opaque]
pub open spec fn knows_prelude(m: MachineView) -> bool {
    let s = prelude_symbols(m.names);
    prelude_symbols_known(m.names) && named_closure(
        m,
        "list"@,
        Seq::empty(),
        Some(s.list),
        seq![ValueView::Symbol(s.list)],
    ) && named_closure(m, "map"@, seq![s.list, s.func], None, seq![map_body(s)]) && named_closure(
        m,
        "fold-left"@,
        seq![s.list, s.default, s.func],
        None,
        seq![fold_body(s), ValueView::Symbol(s.default)],
    ) && named_closure(m, "filter"@, seq![s.list, s.func], None, seq![filter_body(s)])
        && named_closure(m, "flatten"@, seq![s.list_of_lists], None, seq![flatten_body(s)])
        && named_closure(m, "concat"@, Seq::empty(), Some(s.lists), seq![concat_body(s)])
}

/// Whether the six closures have the numbers from `first` on, in the order
/// `list`, `map`, `fold-left`, `filter`, `flatten`, `concat`. A proof that
/// needs the numbers reveals this definition.
#[verifier::opaque]
pub open spec fn prelude_numbered(m: MachineView, first: int) -> bool {
    closure_number(m, "list"@) == first && closure_number(m, "map"@) == first + 1
        && closure_number(m, "fold-left"@) == first + 2 && closure_number(m, "filter"@) == first
        + 3 && closure_number(m, "flatten"@) == first + 4 && closure_number(m, "concat"@) == first
        + 5
}

/// The number of the closure that `name` means, or -1 if it means none.
pub open spec fn closure_number(m: MachineView, name: Seq<char>) -> int {
    match named_value(m, name) {
        Some(ValueView::Lambda(p, _)) => p.id as int,
        _ => -1,
    }
}

/// Whether every name of the standard library means its function: the
/// native functions, and the functions that are written in the language
/// itself.
pub open spec fn knows_standard_library(m: MachineView) -> bool {
    knows_natives(m) && knows_prelude(m)
}

/// Whether the symbols and the closure numbers leave room for the functions
/// that are written in the language itself.
pub open spec fn prelude_room(m: MachineView) -> bool {
    m.names.len() + PRELUDE_SYMBOLS <= u32::MAX && m.next_id + PRELUDE_CLOSURES <= u64::MAX
}

/// Whether the symbols and the closure numbers leave room for the standard
/// library.
pub open spec fn library_room(m: MachineView) -> bool {
    m.names.len() + NATIVES + PRELUDE_SYMBOLS <= u32::MAX && m.next_id + PRELUDE_CLOSURES
        <= u64::MAX
}

/// The names of the functions that are written in the language itself,
/// character by character.
pub proof fn lemma_prelude_literals()
    ensures
        "list"@.len() == 4,
        "list"@[0] == 'l',
        "list"@[1] == 'i',
        "list"@[2] == 's',
        "list"@[3] == 't',
        "map"@.len() == 3,
        "map"@[0] == 'm',
        "map"@[1] == 'a',
        "map"@[2] == 'p',
        "fold-left"@.len() == 9,
        "fold-left"@[0] == 'f',
        "fold-left"@[1] == 'o',
        "fold-left"@[2] == 'l',
        "fold-left"@[3] == 'd',
        "fold-left"@[4] == '-',
        "fold-left"@[5] == 'l',
        "fold-left"@[6] == 'e',
        "fold-left"@[7] == 'f',
        "fold-left"@[8] == 't',
        "filter"@.len() == 6,
        "filter"@[0] == 'f',
        "filter"@[1] == 'i',
        "filter"@[2] == 'l',
        "filter"@[3] == 't',
        "filter"@[4] == 'e',
        "filter"@[5] == 'r',
        "flatten"@.len() == 7,
        "flatten"@[0] == 'f',
        "flatten"@[1] == 'l',
        "flatten"@[2] == 'a',
        "flatten"@[3] == 't',
        "flatten"@[4] == 't',
        "flatten"@[5] == 'e',
        "flatten"@[6] == 'n',
        "concat"@.len() == 6,
        "concat"@[0] == 'c',
        "concat"@[1] == 'o',
        "concat"@[2] == 'n',
        "concat"@[3] == 'c',
        "concat"@[4] == 'a',
        "concat"@[5] == 't',
{
    reveal_strlit("list");
    reveal_strlit("map");
    reveal_strlit("fold-left");
    reveal_strlit("filter");
    reveal_strlit("flatten");
    reveal_strlit("concat");
}

/// No function that is written in the language itself has the name of a
/// native function.
proof fn lemma_prelude_names_apart()
    ensures
        !native_name("list"@),
        !native_name("map"@),
        !native_name("fold-left"@),
        !native_name("filter"@),
        !native_name("flatten"@),
        !native_name("concat"@),
{
    lemma_native_literals();
    lemma_prelude_literals();
}

/// The symbols for `names`, in their order, interned where they were not.
fn symbols(ctx: &mut Context, names: &Vec<&'static str>) -> (r: Vec<Symbol>)
    requires
        old(ctx).wf(),
        old(ctx)@.names.len() + names@.len() <= u32::MAX,
    ensures
        final(ctx).wf(),
        final(ctx)@ == old(ctx)@.with_names(final(ctx)@.names),
        final(ctx).step_limit == old(ctx).step_limit,
        grown(old(ctx)@.names, final(ctx)@.names),
        final(ctx)@.names.len() <= old(ctx)@.names.len() + names@.len(),
        r@.len() == names@.len(),
        forall|k: int|
            0 <= k < names@.len() ==> symbol_named(final(ctx)@.names, names@[k]@) == Some(
                #[trigger] r@[k],
            ),
{
    let ghost start = ctx@;
    let mut out: Vec<Symbol> = Vec::new();
    let mut i: usize = 0;
    while i < names.len()
        invariant
            i <= names@.len(),
            ctx.wf(),
            ctx@ == start.with_names(ctx@.names),
            ctx.step_limit == old(ctx).step_limit,
            grown(start.names, ctx@.names),
            ctx@.names.len() <= start.names.len() + i,
            start.names.len() + names@.len() <= u32::MAX,
            out@.len() == i,
            forall|k: int|
                0 <= k < i ==> symbol_named(ctx@.names, names@[k]@) == Some(#[trigger] out@[k]),
        decreases names@.len() - i,
    {
        let ghost before = ctx@.names;
        let symbol = ctx.intern(names[i]);
        proof {
            lemma_grown_twice(start.names, before, ctx@.names);
            assert forall|k: int| 0 <= k < i implies symbol_named(ctx@.names, names@[k]@) == Some(
                #[trigger] out@[k],
            ) by {
                assert(symbol_named(before, names@[k]@) == Some(out@[k]));
                lemma_intern_idempotent(before, ctx@.names, names@[k]@);
            }
        }
        out.push(symbol);
        i += 1;
    }
    out
}

/// A closure of the scope that the machine is in, with the given parameters
/// and bodies.
fn closure(ctx: &mut Context, params: Vec<Symbol>, rest: Option<Symbol>, bodies: Vec<Value>) -> (r:
    Value)
    requires
        old(ctx).wf(),
        old(ctx)@.next_id < u64::MAX,
        bodies@.len() > 0,
    ensures
        final(ctx).wf(),
        final(ctx)@ == (MachineView { next_id: (old(ctx)@.next_id + 1) as u64, ..old(ctx)@ }),
        final(ctx).step_limit == old(ctx).step_limit,
        closure_of(r@, old(ctx)@.env(), params@, rest, views(bodies@)),
        r@ is Lambda && r@->Lambda_0.id == old(ctx)@.next_id,
{
    let id = ctx.next_id;
    let env = ctx.env();
    let procedure = Procedure {
        name: None,
        bodies: Rc::new(bodies),
        param_names: Rc::new(ParamBinding { params: params, rest: rest }),
        environment: env,
        id: id,
    };
    proof {
        lemma_lambda_view(procedure, false);
        lemma_bodies_view(procedure);
    }
    ctx.next_id = id + 1;
    proof {
        assert forall|i: int| 0 <= i < ctx@.env_stack.len() implies #[trigger] ctx@.env_stack[i]
            < ctx@.scopes.len() by {
            assert(ctx@.env_stack[i] == old(ctx)@.env_stack[i]);
        }
    }
    Value::Lambda(procedure, false)
}

/// The list of the given values.
fn listed(items: Vec<Value>) -> (r: Value)
    ensures
        r@ == ValueView::List(views(items@)),
{
    Value::list(items)
}

/// One value.
fn one(a: Value) -> (r: Vec<Value>)
    ensures
        views(r@) == seq![a@],
        r@.len() == 1,
{
    let mut items: Vec<Value> = Vec::new();
    items.push(a);
    proof {
        assert(views(items@) =~= seq![a@]);
    }
    items
}

/// Two values.
fn two(a: Value, b: Value) -> (r: Vec<Value>)
    ensures
        views(r@) == seq![a@, b@],
        r@.len() == 2,
{
    let mut items: Vec<Value> = Vec::new();
    items.push(a);
    items.push(b);
    proof {
        assert(views(items@) =~= seq![a@, b@]);
    }
    items
}

/// Three values.
fn three(a: Value, b: Value, c: Value) -> (r: Vec<Value>)
    ensures
        views(r@) == seq![a@, b@, c@],
        r@.len() == 3,
{
    let mut items: Vec<Value> = Vec::new();
    items.push(a);
    items.push(b);
    items.push(c);
    proof {
        assert(views(items@) =~= seq![a@, b@, c@]);
    }
    items
}

/// Four values.
fn four(a: Value, b: Value, c: Value, d: Value) -> (r: Vec<Value>)
    ensures
        views(r@) == seq![a@, b@, c@, d@],
        r@.len() == 4,
{
    let mut items: Vec<Value> = Vec::new();
    items.push(a);
    items.push(b);
    items.push(c);
    items.push(d);
    proof {
        assert(views(items@) =~= seq![a@, b@, c@, d@]);
    }
    items
}

/// Some symbols as parameters.
fn params_of(a: Symbol, more: Option<(Symbol, Option<Symbol>)>) -> (r: Vec<Symbol>)
    ensures
        r@ == match more {
            None => seq![a],
            Some((b, None)) => seq![a, b],
            Some((b, Some(c))) => seq![a, b, c],
        },
{
    let mut items: Vec<Symbol> = Vec::new();
    items.push(a);
    match more {
        None => {
            assert(items@ =~= seq![a]);
        },
        Some((b, None)) => {
            items.push(b);
            assert(items@ =~= seq![a, b]);
        },
        Some((b, Some(c))) => {
            items.push(b);
            items.push(c);
            assert(items@ =~= seq![a, b, c]);
        },
    }
    items
}

/// `(build-list (lambda params (for-each list (lambda (item) body))))`.
fn built_from_each(
    build_list: Symbol,
    lambda: Symbol,
    for_each: Symbol,
    params: Value,
    list: Symbol,
    item: Symbol,
    body: Value,
) -> (r: Value)
    ensures
        r@ == built_from_each_tree(build_list, lambda, for_each, params@, list, item, body@),
{
    let inner = listed(three(Value::Symbol(lambda), listed(one(Value::Symbol(item))), body));
    let walk = listed(three(Value::Symbol(for_each), Value::Symbol(list), inner));
    listed(two(Value::Symbol(build_list), listed(three(Value::Symbol(lambda), params, walk))))
}

/// The symbols that the definitions are written with stay what they are
/// when the table grows.
proof fn lemma_prelude_symbols_stay(before: Seq<Option<Seq<char>>>, after: Seq<Option<Seq<char>>>)
    requires
        grown(before, after),
        prelude_symbols_known(before),
    ensures
        prelude_symbols_known(after),
        prelude_symbols(after) == prelude_symbols(before),
{
    lemma_intern_idempotent(before, after, "list"@);
    lemma_intern_idempotent(before, after, "fn"@);
    lemma_intern_idempotent(before, after, "push"@);
    lemma_intern_idempotent(before, after, "element"@);
    lemma_intern_idempotent(before, after, "default"@);
    lemma_intern_idempotent(before, after, "list-of-lists"@);
    lemma_intern_idempotent(before, after, "push-all"@);
    lemma_intern_idempotent(before, after, "sub-list"@);
    lemma_intern_idempotent(before, after, "lists"@);
    lemma_intern_idempotent(before, after, "flatten"@);
    lemma_intern_idempotent(before, after, "build-list"@);
    lemma_intern_idempotent(before, after, "lambda"@);
    lemma_intern_idempotent(before, after, "for-each"@);
    lemma_intern_idempotent(before, after, "set"@);
    lemma_intern_idempotent(before, after, "if"@);
}

/// Defines the functions of the standard library that are written in the
/// language itself, if the symbols and the closure numbers leave room for
/// them, and does nothing otherwise:
///
/// - `list` is `(lambda list list)`;
/// - `map` is `(lambda (list fn) (build-list (lambda (push) (for-each list
///   (lambda (element) (push (fn element)))))))`;
/// - `fold-left` is `(lambda (list default fn) (for-each list (lambda
///   (element) (set default (fn default element)))) default)`;
/// - `filter` is `(lambda (list fn) (build-list (lambda (push) (for-each
///   list (lambda (element) (if (fn element) (push element) false))))))`;
/// - `flatten` is `(lambda (list-of-lists) (build-list (lambda (push
///   push-all) (for-each list-of-lists (lambda (sub-list) (push-all
///   sub-list))))))`;
/// - `concat` is `(lambda lists (flatten lists))`.
///
/// Each name means afterwards the closure that its definition evaluates to
/// in the scope that the machine is in. No name that stood for a symbol
/// changes its meaning but these six.
pub fn load_prelude(ctx: &mut Context)
    requires
        old(ctx).wf(),
    ensures
        final(ctx).wf(),
        final(ctx)@.stack == old(ctx)@.stack,
        final(ctx)@.env_stack == old(ctx)@.env_stack,
        final(ctx)@.builders == old(ctx)@.builders,
        final(ctx)@.tag == old(ctx)@.tag,
        final(ctx)@.scopes.len() == old(ctx)@.scopes.len(),
        final(ctx).step_limit == old(ctx).step_limit,
        grown(old(ctx)@.names, final(ctx)@.names),
        final(ctx)@.names.len() <= old(ctx)@.names.len() + PRELUDE_SYMBOLS,
        prelude_room(old(ctx)@) ==> knows_prelude(final(ctx)@) && prelude_numbered(
            final(ctx)@,
            old(ctx)@.next_id as int,
        ) && final(ctx)@.next_id == old(ctx)@.next_id + PRELUDE_CLOSURES,
        !prelude_room(old(ctx)@) ==> final(ctx)@ == old(ctx)@,
        forall|other: Seq<char>|
            known(old(ctx)@, other) && !prelude_name(other) ==> #[trigger] named_value(
                final(ctx)@,
                other,
            ) == named_value(old(ctx)@, other),
        only_library_bound(old(ctx)@) ==> only_library_bound(final(ctx)@),
{
    if ctx.interner.len() > u32::MAX - 19 || ctx.next_id > u64::MAX - PRELUDE_CLOSURES {
        return ;
    }
    let ghost start = *ctx;
    let mut names: Vec<&'static str> = Vec::new();
    names.push("list");
    names.push("fn");
    names.push("push");
    names.push("element");
    names.push("default");
    names.push("list-of-lists");
    names.push("push-all");
    names.push("sub-list");
    names.push("lists");
    names.push("flatten");
    names.push("build-list");
    names.push("lambda");
    names.push("for-each");
    names.push("set");
    names.push("if");
    let found = symbols(ctx, &names);
    let list = found[0];
    let func = found[1];
    let push = found[2];
    let element = found[3];
    let default = found[4];
    let list_of_lists = found[5];
    let push_all = found[6];
    let sub_list = found[7];
    let lists = found[8];
    let flatten = found[9];
    let build_list = found[10];
    let lambda = found[11];
    let for_each = found[12];
    let assign = found[13];
    let cond = found[14];
    let ghost interned = *ctx;
    let ghost s = prelude_symbols(interned@.names);
    proof {
        assert(names@[0]@ == "list"@);
        assert(names@[1]@ == "fn"@);
        assert(names@[2]@ == "push"@);
        assert(names@[3]@ == "element"@);
        assert(names@[4]@ == "default"@);
        assert(names@[5]@ == "list-of-lists"@);
        assert(names@[6]@ == "push-all"@);
        assert(names@[7]@ == "sub-list"@);
        assert(names@[8]@ == "lists"@);
        assert(names@[9]@ == "flatten"@);
        assert(names@[10]@ == "build-list"@);
        assert(names@[11]@ == "lambda"@);
        assert(names@[12]@ == "for-each"@);
        assert(names@[13]@ == "set"@);
        assert(names@[14]@ == "if"@);
        assert(prelude_symbols_known(interned@.names));
        assert(s.list == list && s.func == func && s.push == push && s.element == element);
        assert(s.default == default && s.list_of_lists == list_of_lists && s.push_all == push_all);
        assert(s.sub_list == sub_list && s.lists == lists && s.flatten == flatten);
        assert(s.build_list == build_list && s.lambda == lambda && s.for_each == for_each);
        assert(s.assign == assign && s.cond == cond);
    }

    let list_value = closure(ctx, Vec::new(), Some(list), one(Value::Symbol(list)));

    let body = built_from_each(
        build_list,
        lambda,
        for_each,
        listed(one(Value::Symbol(push))),
        list,
        element,
        listed(two(Value::Symbol(push), listed(two(Value::Symbol(func), Value::Symbol(element))))),
    );
    let map_value = closure(ctx, params_of(list, Some((func, None))), None, one(body));

    let body = listed(
        three(
            Value::Symbol(for_each),
            Value::Symbol(list),
            listed(
                three(
                    Value::Symbol(lambda),
                    listed(one(Value::Symbol(element))),
                    listed(
                        three(
                            Value::Symbol(assign),
                            Value::Symbol(default),
                            listed(
                                three(
                                    Value::Symbol(func),
                                    Value::Symbol(default),
                                    Value::Symbol(element),
                                ),
                            ),
                        ),
                    ),
                ),
            ),
        ),
    );
    let fold_value = closure(
        ctx,
        params_of(list, Some((default, Some(func)))),
        None,
        two(body, Value::Symbol(default)),
    );

    let body = built_from_each(
        build_list,
        lambda,
        for_each,
        listed(one(Value::Symbol(push))),
        list,
        element,
        listed(
            four(
                Value::Symbol(cond),
                listed(two(Value::Symbol(func), Value::Symbol(element))),
                listed(two(Value::Symbol(push), Value::Symbol(element))),
                Value::Bool(false),
            ),
        ),
    );
    let filter_value = closure(ctx, params_of(list, Some((func, None))), None, one(body));

    let body = built_from_each(
        build_list,
        lambda,
        for_each,
        listed(two(Value::Symbol(push), Value::Symbol(push_all))),
        list_of_lists,
        sub_list,
        listed(two(Value::Symbol(push_all), Value::Symbol(sub_list))),
    );
    let flatten_value = closure(ctx, params_of(list_of_lists, None), None, one(body));

    let concat_value = closure(
        ctx,
        Vec::new(),
        Some(lists),
        one(listed(two(Value::Symbol(flatten), Value::Symbol(lists)))),
    );

    let ghost made = *ctx;
    let ghost env = made@.env();
    proof {
        lemma_prelude_literals();
        assert(made@ == (MachineView {
            next_id: (interned@.next_id + PRELUDE_CLOSURES) as u64,
            ..interned@
        }));
        assert(closure_of(list_value@, env, Seq::empty(), Some(s.list), seq![ValueView::Symbol(s.list)]));
        assert(closure_of(map_value@, env, seq![s.list, s.func], None, seq![map_body(s)]));
        assert(closure_of(
            fold_value@,
            env,
            seq![s.list, s.default, s.func],
            None,
            seq![fold_body(s), ValueView::Symbol(s.default)],
        ));
        assert(closure_of(filter_value@, env, seq![s.list, s.func], None, seq![filter_body(s)]));
        assert(closure_of(flatten_value@, env, seq![s.list_of_lists], None, seq![flatten_body(s)]));
        assert(closure_of(concat_value@, env, Seq::empty(), Some(s.lists), seq![concat_body(s)]));
    }
    bind(ctx, "list", list_value);
    let ghost b1 = *ctx;
    bind(ctx, "map", map_value);
    let ghost b2 = *ctx;
    bind(ctx, "fold-left", fold_value);
    let ghost b3 = *ctx;
    bind(ctx, "filter", filter_value);
    let ghost b4 = *ctx;
    proof {
        lemma_grown_twice(made@.names, b1@.names, b2@.names);
        lemma_grown_twice(made@.names, b2@.names, b3@.names);
        lemma_grown_twice(made@.names, b3@.names, b4@.names);
        lemma_named_stays_named(made@.names, b4@.names, "flatten"@);
    }
    bind(ctx, "flatten", flatten_value);
    let ghost b5 = *ctx;
    bind(ctx, "concat", concat_value);
    proof {
        lemma_grown_twice(start@.names, interned@.names, b1@.names);
        lemma_grown_twice(start@.names, b1@.names, b2@.names);
        lemma_grown_twice(start@.names, b2@.names, b3@.names);
        lemma_grown_twice(start@.names, b3@.names, b4@.names);
        lemma_grown_twice(start@.names, b4@.names, b5@.names);
        lemma_grown_twice(start@.names, b5@.names, ctx@.names);
        lemma_grown_twice(made@.names, b4@.names, b5@.names);
        lemma_grown_twice(made@.names, b5@.names, ctx@.names);
        lemma_prelude_symbols_stay(interned@.names, ctx@.names);
        assert(named_value(b2@, "list"@) == named_value(b1@, "list"@));
        assert(named_value(b3@, "list"@) == named_value(b2@, "list"@));
        assert(named_value(b4@, "list"@) == named_value(b3@, "list"@));
        assert(named_value(b5@, "list"@) == named_value(b4@, "list"@));
        assert(named_value(ctx@, "list"@) == named_value(b5@, "list"@));
        assert(named_value(b3@, "map"@) == named_value(b2@, "map"@));
        assert(named_value(b4@, "map"@) == named_value(b3@, "map"@));
        assert(named_value(b5@, "map"@) == named_value(b4@, "map"@));
        assert(named_value(ctx@, "map"@) == named_value(b5@, "map"@));
        assert(named_value(b4@, "fold-left"@) == named_value(b3@, "fold-left"@));
        assert(named_value(b5@, "fold-left"@) == named_value(b4@, "fold-left"@));
        assert(named_value(ctx@, "fold-left"@) == named_value(b5@, "fold-left"@));
        assert(named_value(b5@, "filter"@) == named_value(b4@, "filter"@));
        assert(named_value(ctx@, "filter"@) == named_value(b5@, "filter"@));
        assert(named_value(ctx@, "flatten"@) == named_value(b5@, "flatten"@));
        assert(named_value(ctx@, "list"@) == Some(list_value@));
        assert(named_value(ctx@, "map"@) == Some(map_value@));
        assert(named_value(ctx@, "fold-left"@) == Some(fold_value@));
        assert(named_value(ctx@, "filter"@) == Some(filter_value@));
        assert(named_value(ctx@, "flatten"@) == Some(flatten_value@));
        assert(named_value(ctx@, "concat"@) == Some(concat_value@));
        assert(ctx@.env() == env);
        assert(knows_prelude(ctx@)) by {
            reveal(knows_prelude);
        }
        assert(prelude_numbered(ctx@, start@.next_id as int)) by {
            reveal(prelude_numbered);
        }
        assert forall|other: Seq<char>|
            known(start@, other) && !prelude_name(other) implies #[trigger] named_value(
            ctx@,
            other,
        ) == named_value(start@, other) by {
            lemma_intern_idempotent(start@.names, interned@.names, other);
            assert(named_value(made@, other) == named_value(start@, other));
            assert(named_value(b1@, other) == named_value(made@, other));
            assert(named_value(b2@, other) == named_value(b1@, other));
            assert(named_value(b3@, other) == named_value(b2@, other));
            assert(named_value(b4@, other) == named_value(b3@, other));
            assert(named_value(b5@, other) == named_value(b4@, other));
        }
        if only_library_bound(start@) {
            assert forall|s: Symbol| #[trigger]
                lookup(made@.scopes, made@.env() as int, s).is_some() implies s.0
                < made@.names.len() && made@.names[s.0 as int].is_some() && library_name(
                made@.names[s.0 as int].unwrap(),
            ) && symbol_named(made@.names, made@.names[s.0 as int].unwrap()) == Some(s) by {
                assert(lookup(start@.scopes, start@.env() as int, s).is_some());
                assert(made@.names[s.0 as int] == start@.names[s.0 as int]);
                lemma_intern_idempotent(
                    start@.names,
                    made@.names,
                    start@.names[s.0 as int].unwrap(),
                );
            }
            assert(only_library_bound(made@));
            assert(only_library_bound(b1@));
            assert(only_library_bound(b2@));
            assert(only_library_bound(b3@));
            assert(only_library_bound(b4@));
            assert(only_library_bound(b5@));
        }
    }
}

/// Makes the whole standard library known to `ctx`: the native functions,
/// and then the functions that are written in the language itself. What
/// else was bound stays bound; where nothing else was, the standard library
/// is all that is bound afterwards.
pub fn load_all(ctx: &mut Context)
    requires
        old(ctx).wf(),
    ensures
        final(ctx).wf(),
        final(ctx)@.stack == old(ctx)@.stack,
        final(ctx)@.env_stack == old(ctx)@.env_stack,
        final(ctx)@.builders == old(ctx)@.builders,
        final(ctx)@.tag == old(ctx)@.tag,
        final(ctx)@.scopes.len() == old(ctx)@.scopes.len(),
        final(ctx).step_limit == old(ctx).step_limit,
        grown(old(ctx)@.names, final(ctx)@.names),
        final(ctx)@.names.len() <= old(ctx)@.names.len() + NATIVES + PRELUDE_SYMBOLS,
        library_room(old(ctx)@) ==> knows_standard_library(final(ctx)@) && prelude_numbered(
            final(ctx)@,
            old(ctx)@.next_id as int,
        ) && final(ctx)@.next_id == old(ctx)@.next_id + PRELUDE_CLOSURES,
        only_library_bound(old(ctx)@) ==> only_library_bound(final(ctx)@),
{
    let ghost start = *ctx;
    load_natives(ctx);
    let ghost first = *ctx;
    load_prelude(ctx);
    proof {
        lemma_grown_twice(start@.names, first@.names, ctx@.names);
        if library_room(start@) {
            assert forall|n: Seq<char>| #[trigger] prelude_name(n) implies !native_name(n) by {
                lemma_prelude_names_apart();
            }
            assert(knows_natives(first@));
            assert(prelude_room(first@));
            assert(knows_core(ctx@));
            assert(knows_logical(ctx@));
            assert(knows_list(ctx@));
            assert(knows_math(ctx@));
            assert(knows_arithmetic(ctx@));
            assert(knows_map(ctx@));
            assert(knows_types(ctx@));
            assert(knows_option(ctx@));
        }
    }
}

/// In a machine that knows the standard library, and in which the standard
/// library is all that is bound, no symbol means a macro: the expansion of
/// macros changes no program.
pub proof fn lemma_the_standard_library_has_no_macro(m: MachineView)
    requires
        m.wf(),
        knows_standard_library(m),
        only_library_bound(m),
    ensures
        crate::eval::semantics::no_macro_bound(m),
{
    assert forall|s: Symbol|
        match #[trigger] lookup(m.scopes, m.env() as int, s) {
            Some(ValueView::Lambda(_, true)) => false,
            _ => true,
        } by {
        if lookup(m.scopes, m.env() as int, s).is_some() {
            let n = m.names[s.0 as int].unwrap();
            assert(named_value(m, n) == lookup(m.scopes, m.env() as int, s));
            if prelude_name(n) {
                reveal(knows_prelude);
            } else {
                lemma_native_is_no_macro(m, n);
            }
        }
    }
}

/// In a machine that knows the native functions, none of their names means
/// a macro.
proof fn lemma_native_is_no_macro(m: MachineView, n: Seq<char>)
    requires
        knows_natives(m),
        native_name(n),
    ensures
        named_value(m, n) matches Some(ValueView::ForeignFn(_)),
{
    if core_name(n) {
    } else if logical_name(n) {
    } else if list_name(n) {
    } else if math_name(n) {
    } else if arithmetic_name(n) {
    } else if map_name(n) {
    } else if types_name(n) {
    } else {
    }
}

/// The standard library has five names of one character, the operators
/// `+`, `-`, `*`, `/` and `=`: every other name of one character is free.
pub proof fn lemma_names_of_one_character(n: Seq<char>)
    requires
        n.len() == 1,
        n[0] != '+',
        n[0] != '-',
        n[0] != '*',
        n[0] != '/',
        n[0] != '=',
    ensures
        !library_name(n),
{
    lemma_native_literals();
    lemma_prelude_literals();
    if core_name(n) {
    } else if logical_name(n) {
    } else if list_name(n) {
    } else if math_name(n) {
    } else if arithmetic_name(n) {
    } else if map_name(n) {
    } else if types_name(n) {
    } else if option_name(n) {
    } else {
    }
}

} // verus!
