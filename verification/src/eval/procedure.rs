//! Closures, and how a call binds their parameters.

use vstd::prelude::*;
use std::rc::Rc;
use crate::error::{AresError, AresErrorView, AresResult, reported_count};
use crate::eval::environment::{Environment, ScopeView, bind_all, pair_views};
use crate::intern::Symbol;
use crate::text::{decimal, push_decimal, push_text};
use crate::value::{
    Env,
    ParamBinding,
    ParamBindingView,
    Procedure,
    ProcedureView,
    Value,
    ValueView,
    lemma_list_view,
    views,
};

verus! {

/// The first `n` names, each with the argument at its place.
pub open spec fn zipped(params: Seq<Symbol>, args: Seq<ValueView>, n: int) -> Seq<
    (Symbol, ValueView),
> {
    Seq::new(n as nat, |i: int| (params[i], args[i]))
}

/// How many arguments a procedure with the parameters `p` expects, in words.
pub open spec fn expected_arity(p: ParamBindingView) -> Seq<char> {
    if p.rest.is_some() {
        "at least "@ + decimal(p.params.len())
    } else {
        "exactly "@ + decimal(p.params.len())
    }
}

/// What a call with the arguments `args` binds: each of the fixed names to
/// the argument at its place, and the rest name, if there is one, to the list
/// of the arguments that remain. Without a rest name the call takes exactly
/// as many arguments as there are fixed names, with one at least as many.
pub open spec fn call_bindings(p: ParamBindingView, args: Seq<ValueView>) -> Result<
    Seq<(Symbol, ValueView)>,
    AresErrorView,
> {
    let n = p.params.len() as int;
    if args.len() < n || (p.rest.is_none() && args.len() != n) {
        Err(
            AresErrorView::UnexpectedArity {
                found: reported_count(args.len() as int),
                expected: expected_arity(p),
            },
        )
    } else {
        match p.rest {
            Some(rest) => Ok(
                zipped(p.params, args, n).push((rest, ValueView::List(args.skip(n)))),
            ),
            None => Ok(zipped(p.params, args, n)),
        }
    }
}

/// The error that reports the use of a closure whose scope the arena does not
/// hold.
pub open spec fn unknown_scope() -> AresErrorView {
    AresErrorView::InvalidState("closure of an unknown scope"@)
}

/// What a call of `p` with `args` does to the scopes `scopes`: it adds a
/// scope inside the one that the closure was made in, with the bindings of
/// the call.
pub open spec fn call_scope(p: ProcedureView, args: Seq<ValueView>, scopes: Seq<ScopeView>)
    -> Result<ScopeView, AresErrorView> {
    if p.environment >= scopes.len() {
        Err(unknown_scope())
    } else {
        match call_bindings(p.param_names, args) {
            Ok(pairs) => Ok(
                ScopeView { parent: Some(p.environment), bindings: bind_all(pairs) },
            ),
            Err(e) => Err(e),
        }
    }
}

impl Procedure {
    /// A closure with the given bodies, of which there is at least one.
    pub fn new(
        name: Option<Rc<String>>,
        bodies: Rc<Vec<Value>>,
        param_names: ParamBinding,
        env: Env,
        id: u64,
    ) -> (r: AresResult<Procedure>)
        ensures
            match r {
                Ok(p) => bodies@.len() > 0 && p.name == name && p.bodies == bodies && p.param_names@
                    == param_names@ && p.environment == env && p.id == id,
                Err(e) => bodies@.len() == 0 && e@ == AresErrorView::NoLambdaBody,
            },
    {
        if bodies.len() == 0 {
            return Err(AresError::NoLambdaBody);
        }
        Ok(
            Procedure {
                name: name,
                bodies: bodies,
                param_names: Rc::new(param_names),
                environment: env,
                id: id,
            },
        )
    }

    fn arity_error(&self, found: usize) -> (r: AresError)
        ensures
            r@ == (AresErrorView::UnexpectedArity {
                found: reported_count(found as int),
                expected: expected_arity(self@.param_names),
            }),
    {
        let mut expected = String::new();
        if self.param_names.rest.is_some() {
            push_text(&mut expected, "at least ");
        } else {
            push_text(&mut expected, "exactly ");
        }
        push_decimal(&mut expected, self.param_names.params.len() as u64);
        AresError::UnexpectedArity { found: (found % 65536) as u16, expected: expected }
    }

    /// Makes the scope of a call with the arguments `values`, inside the
    /// scope that the closure was made in, and gives its handle.
    pub fn gen_env(&self, values: Vec<Value>, scopes: &mut Environment) -> (r: AresResult<Env>)
        requires
            old(scopes).wf(),
        ensures
            final(scopes).wf(),
            match call_scope(self@, views(values@), old(scopes)@) {
                Ok(scope) => r == Ok::<Env, AresError>(old(scopes)@.len() as usize)
                    && final(scopes)@ == old(scopes)@.push(scope),
                Err(e) => r.is_err() && r->Err_0@ == e && final(scopes)@ == old(scopes)@,
            },
    {
        if self.environment >= scopes.scopes.len() {
            return Err(AresError::InvalidState("closure of an unknown scope".to_owned()));
        }
        let expected = self.param_names.params.len();
        let has_rest = self.param_names.rest.is_some();
        if values.len() < expected || (!has_rest && values.len() != expected) {
            return Err(self.arity_error(values.len()));
        }
        let ghost args = views(values@);
        let ghost params = self@.param_names.params;
        let mut pairs: Vec<(Symbol, Value)> = Vec::new();
        let mut i: usize = 0;
        while i < expected
            invariant
                i <= expected <= values.len(),
                expected == self.param_names.params.len(),
                params == self.param_names.params@,
                args == views(values@),
                pair_views(pairs@) == zipped(params, args, i as int),
            decreases expected - i,
        {
            let ghost before = pairs@;
            pairs.push((self.param_names.params[i], values[i].clone()));
            proof {
                assert(pair_views(pairs@) =~= pair_views(before).push(
                    (params[i as int], args[i as int]),
                ));
                assert(pair_views(pairs@) =~= zipped(params, args, i + 1));
            }
            i += 1;
        }
        match self.param_names.rest {
            Some(rest) => {
                let mut tail: Vec<Value> = Vec::new();
                let mut j: usize = expected;
                while j < values.len()
                    invariant
                        expected <= j <= values.len(),
                        tail@ == values@.subrange(expected as int, j as int),
                    decreases values.len() - j,
                {
                    tail.push(values[j].clone());
                    j += 1;
                }
                let items = Rc::new(tail);
                proof {
                    lemma_list_view(items);
                    assert(views(items@) =~= args.skip(expected as int));
                }
                let ghost before = pair_views(pairs@);
                pairs.push((rest, Value::List(items)));
                proof {
                    assert(pair_views(pairs@) =~= before.push(
                        (rest, ValueView::List(args.skip(expected as int))),
                    ));
                }
            },
            None => {},
        }
        Ok(scopes.new_with_data(self.environment, pairs))
    }
}

} // verus!
