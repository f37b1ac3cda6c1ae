//! The state of an interpreter, and what an embedder does with it.

use vstd::prelude::*;
use crate::error::{AresError, AresErrorView, AresResult};
use crate::eval::environment::{Environment, ScopeView, assigned, bound_here, lookup};
use crate::eval::foreign_function::State;
use crate::eval::frames::{FrameView, MachineView, StepState};
use crate::eval::semantics::{Outcome, run};
use crate::eval::{ended, named_value, program, toplevel};
use crate::intern::{Symbol, SymbolIntern, grown, lemma_grown_twice, symbol_named};
use crate::parse::errors::ParseError;
use crate::parse::grammar::{Program, program_of};
use crate::parse::parse;
use crate::value::{Env, ForeignFunction, Value, ValueView, views};

verus! {

/// An interpreter: the scopes with their bindings, the symbols, and the
/// stack of the evaluator.
#[derive(Debug)]
pub struct Context {
    /// The scopes, of which the first is the global one.
    pub scopes: Environment,
    /// The scopes that were entered and not yet left; the last one is the
    /// scope that the machine is in, and none means the global one.
    pub env_stack: Vec<Env>,
    /// The symbols.
    pub interner: SymbolIntern,
    /// The frames of the work that is pending.
    pub stack: Vec<StepState>,
    /// The lists that `build-list` is constructing; a list that is complete
    /// leaves nothing behind.
    pub builders: Vec<Option<Vec<Value>>>,
    /// The number that the next closure is told from the others by.
    pub next_id: u64,
    /// How many steps one evaluation may take.
    pub step_limit: u64,
    /// The tag of the embedder state that the interpreter was last loaded
    /// with. A function of the embedder is called only if it was made for
    /// a state with this tag, or for any state.
    pub state_tag: u64,
}

/// The views of the lists under construction.
pub open spec fn builder_views(builders: Seq<Option<Vec<Value>>>) -> Seq<Option<Seq<ValueView>>> {
    builders.map_values(
        |b: Option<Vec<Value>>|
            match b {
                Some(items) => Some(views(items@)),
                None => None,
            },
    )
}

/// The views of the frames of a stack.
pub open spec fn frame_views(stack: Seq<StepState>) -> Seq<FrameView> {
    stack.map_values(|f: StepState| f@)
}

impl View for Context {
    type V = MachineView;

    open spec fn view(&self) -> MachineView {
        MachineView {
            stack: frame_views(self.stack@),
            env_stack: self.env_stack@,
            scopes: self.scopes@,
            names: self.interner@,
            builders: builder_views(self.builders@),
            next_id: self.next_id,
            tag: self.state_tag,
        }
    }
}

/// Whether the frames of `pre` are still there in `post`, beneath what else
/// `post` holds.
pub open spec fn extends(pre: MachineView, post: MachineView) -> bool {
    pre.stack.len() <= post.stack.len() && forall|i: int|
        0 <= i < pre.stack.len() ==> #[trigger] post.stack[i] == pre.stack[i]
}

/// Whether two machines have the same scopes, symbols, lists under
/// construction, closure count and tag.
pub open spec fn same_heap(pre: MachineView, post: MachineView) -> bool {
    post.scopes == pre.scopes && post.names == pre.names && post.builders == pre.builders
        && post.next_id == pre.next_id && post.tag == pre.tag
}

impl Context {
    /// The state is well formed.
    pub open spec fn wf(&self) -> bool {
        self@.wf()
    }

    /// Puts a frame on the stack.
    pub fn push(&mut self, frame: StepState)
        ensures
            final(self)@ == old(self)@.push(frame@),
            final(self).step_limit == old(self).step_limit,
    {
        self.stack.push(frame);
        assert(self@.stack =~= old(self)@.stack.push(frame@));
    }

    /// Takes the top frame off the stack.
    pub fn pop(&mut self) -> (r: Option<StepState>)
        ensures
            final(self).step_limit == old(self).step_limit,
            match r {
                Some(frame) => old(self)@.stack.len() > 0 && frame@ == old(self)@.stack.last()
                    && final(self)@ == old(self)@.pop(),
                None => old(self)@.stack.len() == 0 && final(self)@ == old(self)@,
            },
    {
        let r = self.stack.pop();
        proof {
            if r.is_some() {
                assert(self@.stack =~= old(self)@.stack.drop_last());
            } else {
                assert(self@.stack =~= old(self)@.stack);
            }
        }
        r
    }

    /// Takes all frames but the lowest `len` off the stack.
    pub fn truncate(&mut self, len: usize)
        requires
            len <= old(self)@.stack.len(),
        ensures
            final(self)@ == (MachineView { stack: old(self)@.stack.take(len as int), ..old(self)@ }),
            final(self).step_limit == old(self).step_limit,
    {
        self.stack.truncate(len);
        assert(self@.stack =~= old(self)@.stack.take(len as int));
    }

    /// Whether a result is on top of the stack.
    pub fn has_result(&self) -> (r: bool)
        ensures
            r == (self@.stack.len() > 0 && self@.stack.last() is Complete),
    {
        let len = self.stack.len();
        if len == 0 {
            false
        } else {
            assert(self@.stack.last() == self.stack@[len - 1]@);
            matches!(self.stack[len - 1], StepState::Complete(_))
        }
    }

    /// The scopes entered, copied.
    pub fn entered(&self) -> (r: Vec<Env>)
        ensures
            r@ == self@.env_stack,
    {
        let mut out: Vec<Env> = Vec::new();
        let mut i: usize = 0;
        while i < self.env_stack.len()
            invariant
                i <= self.env_stack.len(),
                out@ == self.env_stack@.take(i as int),
            decreases self.env_stack.len() - i,
        {
            out.push(self.env_stack[i]);
            assert(self.env_stack@.take(i + 1) == self.env_stack@.take(i as int).push(
                self.env_stack@[i as int],
            ));
            i += 1;
        }
        assert(self.env_stack@.take(self.env_stack@.len() as int) == self.env_stack@);
        out
    }

    /// Puts the machine back into the scopes `entered`.
    pub fn reenter(&mut self, entered: Vec<Env>)
        requires
            old(self).wf(),
            forall|i: int| 0 <= i < entered@.len() ==> #[trigger] entered@[i] < old(self)@.scopes.len(),
        ensures
            final(self).wf(),
            final(self)@ == (MachineView { env_stack: entered@, ..old(self)@ }),
            final(self).step_limit == old(self).step_limit,
    {
        self.env_stack = entered;
    }

    /// Puts a result on the stack.
    pub fn complete(&mut self, v: Value)
        ensures
            final(self)@ == old(self)@.complete(v@),
            final(self).step_limit == old(self).step_limit,
    {
        self.push(StepState::Complete(v));
    }

    /// Puts the request to evaluate `v` on the stack.
    pub fn request(&mut self, v: Value)
        ensures
            final(self)@ == old(self)@.eval(v@),
            final(self).step_limit == old(self).step_limit,
    {
        self.push(StepState::EvalThis(v, false));
    }

    /// The scope that the machine is in.
    pub fn env(&self) -> (r: Env)
        ensures
            r == self@.env(),
    {
        if self.env_stack.len() > 0 {
            self.env_stack[self.env_stack.len() - 1]
        } else {
            0
        }
    }

    /// Enters the scope `env`.
    pub fn enter(&mut self, env: Env)
        requires
            old(self).wf(),
            env < old(self)@.scopes.len(),
        ensures
            final(self).wf(),
            final(self)@ == old(self)@.enter(env),
            final(self).step_limit == old(self).step_limit,
    {
        self.env_stack.push(env);
        proof {
            assert forall|i: int| 0 <= i < self@.env_stack.len() implies #[trigger] self@.env_stack[i]
                < self@.scopes.len() by {
                if i < old(self)@.env_stack.len() {
                    assert(self@.env_stack[i] == old(self)@.env_stack[i]);
                }
            }
        }
    }

    /// Leaves the scope entered last.
    pub fn leave(&mut self)
        requires
            old(self).wf(),
        ensures
            final(self).wf(),
            final(self)@ == old(self)@.leave(),
            final(self).step_limit == old(self).step_limit,
    {
        if self.env_stack.len() > 0 {
            self.env_stack.pop();
            proof {
                assert forall|i: int| 0 <= i < self@.env_stack.len() implies #[trigger] self@.env_stack[i]
                    < self@.scopes.len() by {
                    assert(self@.env_stack[i] == old(self)@.env_stack[i]);
                }
            }
        }
    }

    /// The value of `name` in the scope that the machine is in.
    pub fn lookup(&self, name: Symbol) -> (r: Option<Value>)
        ensures
            match r {
                Some(v) => lookup(self@.scopes, self@.env() as int, name) == Some(v@),
                None => lookup(self@.scopes, self@.env() as int, name).is_none(),
            },
    {
        let env = self.env();
        self.scopes.get(env, name)
    }

    /// Binds `name` to `value` in the scope that the machine is in.
    pub fn bind_here(&mut self, name: Symbol, value: Value)
        requires
            old(self).wf(),
        ensures
            final(self).wf(),
            final(self)@ == old(self)@.with_scopes(
                bound_here(old(self)@.scopes, old(self)@.env() as int, name, value@),
            ),
            final(self)@.scopes.len() == old(self)@.scopes.len(),
            final(self).step_limit == old(self).step_limit,
    {
        let env = self.env();
        self.scopes.insert_here(env, name, value);
        proof {
            assert forall|i: int| 0 <= i < self@.env_stack.len() implies #[trigger] self@.env_stack[i]
                < self@.scopes.len() by {
                assert(self@.env_stack[i] == old(self)@.env_stack[i]);
            }
        }
    }

    /// Gives the nearest binding of `name` the value `value`.
    pub fn assign(&mut self, name: Symbol, value: Value)
        requires
            old(self).wf(),
        ensures
            final(self).wf(),
            final(self)@ == old(self)@.with_scopes(
                assigned(old(self)@.scopes, old(self)@.env() as int, name, value@),
            ),
            final(self)@.scopes.len() == old(self)@.scopes.len(),
            final(self).step_limit == old(self).step_limit,
    {
        let env = self.env();
        self.scopes.with_value_mut(env, name, value);
        proof {
            assert forall|i: int| 0 <= i < self@.env_stack.len() implies #[trigger] self@.env_stack[i]
                < self@.scopes.len() by {
                assert(self@.env_stack[i] == old(self)@.env_stack[i]);
            }
        }
    }
}

impl Context {
    /// An interpreter that knows the standard library, and nothing else:
    /// every name of the library means its function, no other symbol has a
    /// value, and the symbols and the closure numbers leave room for
    /// nearly all there can be. The machine is at rest in the global scope,
    /// which is the only one.
    ///
    /// Which names are names of the library is said by
    /// [`crate::stdlib::library_name`]; to tell another name from them, the
    /// proofs [`crate::stdlib::lemma_native_literals`] and
    /// [`crate::stdlib::lemma_prelude_literals`] give each of them character
    /// by character, and [`crate::stdlib::lemma_names_of_one_character`]
    /// says which names of one character are free.
    pub fn new() -> (r: Context)
        ensures
            r.wf(),
            r@.stack.len() == 0,
            r@.env_stack.len() == 0,
            r@.builders.len() == 0,
            r@.scopes.len() == 1,
            r@.tag == crate::eval::foreign_function::ANY_STATE,
            r@.next_id == crate::stdlib::PRELUDE_CLOSURES,
            r@.names.len() <= crate::stdlib::NATIVES + crate::stdlib::PRELUDE_SYMBOLS,
            r.step_limit == u64::MAX,
            crate::stdlib::knows_standard_library(r@),
            crate::stdlib::prelude_numbered(r@, 0),
            crate::stdlib::only_library_bound(r@),
            crate::eval::semantics::no_macro_bound(r@),
            forall|n: Seq<char>|
                (#[trigger] named_value(r@, n)).is_some() ==> crate::stdlib::library_name(n),
    {
        let mut ctx = Context::new_empty();
        proof {
            assert forall|s: Symbol| #[trigger]
                lookup(ctx@.scopes, ctx@.env() as int, s).is_some() implies false by {
                assert(!ctx@.scopes[0].bindings.contains_key(s.0));
            }
        }
        crate::stdlib::load_all(&mut ctx);
        proof {
            crate::stdlib::lemma_the_standard_library_has_no_macro(ctx@);
            assert forall|n: Seq<char>|
                (#[trigger] named_value(ctx@, n)).is_some() implies crate::stdlib::library_name(
                n,
            ) by {
                crate::stdlib::lemma_only_library_names(ctx@, n);
            }
        }
        ctx
    }

    /// An interpreter that knows nothing: no binding, no symbol.
    pub fn new_empty() -> (r: Context)
        ensures
            r.wf(),
            r@ == (MachineView {
                stack: Seq::empty(),
                env_stack: Seq::empty(),
                scopes: seq![ScopeView { parent: None, bindings: Map::empty() }],
                names: Seq::empty(),
                builders: Seq::empty(),
                next_id: 0,
                tag: crate::eval::foreign_function::ANY_STATE,
            }),
            r.step_limit == u64::MAX,
    {
        let r = Context {
            scopes: Environment::new(),
            env_stack: Vec::new(),
            interner: SymbolIntern::new(),
            stack: Vec::new(),
            builders: Vec::new(),
            next_id: 0,
            step_limit: u64::MAX,
            state_tag: crate::eval::foreign_function::ANY_STATE,
        };
        proof {
            assert(r@.stack =~= Seq::empty());
            assert(r@.builders =~= Seq::empty());
        }
        r
    }

    /// The interpreter, with another limit on the steps of one evaluation.
    pub fn with_step_limit(self, limit: u64) -> (r: Context)
        ensures
            r@ == self@,
            r.step_limit == limit,
    {
        let mut ctx = self;
        ctx.step_limit = limit;
        ctx
    }

    /// How `value` is written.
    pub fn format_value<S: State>(&self, value: &Value, state: &S) -> (r: String)
        ensures
            !crate::stdlib::types::has_float(value@) ==> r@ == crate::stdlib::types::shown(
                value@,
                self@.names,
            ),
    {
        crate::stdlib::types::to_string_helper(value, &self.interner, state)
    }

    /// The interpreter, ready to evaluate with the embedder state `state`,
    /// whose tag it takes. Nothing else changes.
    pub fn load<'a, S: State>(&'a mut self, state: &'a mut S) -> (r: LoadedContext<'a, S>)
        ensures
            r.ctx@ == (MachineView { tag: r.ctx@.tag, ..old(self)@ }),
            r.ctx.step_limit == old(self).step_limit,
            *r.state == *old(state),
            *final(state) == *final(r.state),
            *final(self) == *final(r.ctx),
    {
        self.state_tag = state.tag();
        LoadedContext { ctx: self, state: state }
    }

    /// The value of the name `name`, seen from the scope that the machine is
    /// in.
    pub fn get(&self, name: &str) -> (r: Option<Value>)
        requires
            self.wf(),
        ensures
            match r {
                Some(v) => named_value(self@, name@) == Some(v@),
                None => named_value(self@, name@).is_none(),
            },
    {
        match self.interner.symbol_for_name(name) {
            Some(symbol) => self.lookup(symbol),
            None => None,
        }
    }

    /// The symbol for `name`.
    pub fn intern(&mut self, name: &str) -> (r: Symbol)
        requires
            old(self).wf(),
            symbol_named(old(self)@.names, name@).is_none() ==> old(self)@.names.len() < u32::MAX,
        ensures
            final(self).wf(),
            symbol_named(final(self)@.names, name@) == Some(r),
            symbol_named(old(self)@.names, name@).is_some() ==> final(self)@ == old(self)@,
            symbol_named(old(self)@.names, name@).is_none() ==> final(self)@ == old(self)@.with_names(
                old(self)@.names.push(Some(name@)),
            ),
            final(self).step_limit == old(self).step_limit,
            grown(old(self)@.names, final(self)@.names),
            forall|n: Seq<char>|
                symbol_named(old(self)@.names, n).is_some() ==> #[trigger] symbol_named(final(self)@.names, n)
                    == symbol_named(old(self)@.names, n),
    {
        let r = self.interner.intern(name);
        proof {
            assert forall|i: int| 0 <= i < self@.env_stack.len() implies #[trigger] self@.env_stack[i]
                < self@.scopes.len() by {
                assert(self@.env_stack[i] == old(self)@.env_stack[i]);
            }
        }
        r
    }

    /// The values that the text `program` writes, with its symbols interned
    /// here.
    pub fn parse<S: State>(&mut self, program: &str, state: &S) -> (r: Result<Vec<Value>, ParseError>)
        requires
            old(self).wf(),
        ensures
            final(self).wf(),
            final(self)@ == old(self)@.with_names(final(self)@.names),
            grown(old(self)@.names, final(self)@.names),
            final(self).step_limit == old(self).step_limit,
            r.is_ok() ==> crate::value::all_source(views(r->Ok_0@), r->Ok_0@.len()),
            crate::parse::is_program(
                r,
                final(self)@.names,
                program_of(program@, old(self)@.names),
            ),
    {
        let r = parse(program, &mut self.interner, state);
        proof {
            assert forall|i: int| 0 <= i < self@.env_stack.len() implies #[trigger] self@.env_stack[i]
                < self@.scopes.len() by {
                assert(self@.env_stack[i] == old(self)@.env_stack[i]);
            }
        }
        r
    }

    /// Binds `name` to `value` in the scope that the machine is in; gives
    /// the value it was bound to there before.
    pub fn set(&mut self, name: &str, value: Value) -> (r: Option<Value>)
        requires
            old(self).wf(),
            symbol_named(old(self)@.names, name@).is_none() ==> old(self)@.names.len() < u32::MAX,
        ensures
            final(self).wf(),
            final(self)@.stack == old(self)@.stack,
            final(self)@.env_stack == old(self)@.env_stack,
            final(self).step_limit == old(self).step_limit,
            symbol_named(final(self)@.names, name@).is_some(),
            final(self)@.names == (if symbol_named(old(self)@.names, name@).is_some() {
                old(self)@.names
            } else {
                old(self)@.names.push(Some(name@))
            }),
            final(self)@.scopes == bound_here(
                old(self)@.scopes,
                old(self)@.env() as int,
                symbol_named(final(self)@.names, name@).unwrap(),
                value@,
            ),
            named_value(final(self)@, name@) == Some(value@),
            final(self)@ == old(self)@.with_names(final(self)@.names).with_scopes(
                final(self)@.scopes,
            ),
            final(self)@.scopes.len() == old(self)@.scopes.len(),
    {
        let symbol = self.interner.intern(name);
        let env = self.env();
        assert(env < self@.scopes.len()) by {
            if old(self)@.env_stack.len() > 0 {
                assert(old(self)@.env_stack[old(self)@.env_stack.len() - 1] < old(
                    self,
                )@.scopes.len());
            }
        }
        let r = self.scopes.insert_here(env, symbol, value);
        proof {
            assert forall|i: int| 0 <= i < self@.env_stack.len() implies #[trigger] self@.env_stack[i]
                < self@.scopes.len() by {
                assert(self@.env_stack[i] == old(self)@.env_stack[i]);
            }
        }
        r
    }

    /// Binds `name` to the native function `f`.
    pub fn set_fn(&mut self, name: &str, f: ForeignFunction) -> (r: Option<Value>)
        requires
            old(self).wf(),
            symbol_named(old(self)@.names, name@).is_none() ==> old(self)@.names.len() < u32::MAX,
        ensures
            final(self).wf(),
            final(self)@.stack == old(self)@.stack,
            final(self)@.env_stack == old(self)@.env_stack,
            final(self).step_limit == old(self).step_limit,
            symbol_named(final(self)@.names, name@).is_some(),
            final(self)@.names == (if symbol_named(old(self)@.names, name@).is_some() {
                old(self)@.names
            } else {
                old(self)@.names.push(Some(name@))
            }),
            final(self)@.scopes == bound_here(
                old(self)@.scopes,
                old(self)@.env() as int,
                symbol_named(final(self)@.names, name@).unwrap(),
                ValueView::ForeignFn(f@),
            ),
            named_value(final(self)@, name@) == Some(ValueView::ForeignFn(f@)),
            final(self)@ == old(self)@.with_names(final(self)@.names).with_scopes(
                final(self)@.scopes,
            ),
            final(self)@.scopes.len() == old(self)@.scopes.len(),
    {
        self.set(name, Value::ForeignFn(f.erase()))
    }

    /// Tests whether the state is well formed. Its parts can be reached
    /// from outside, so an embedder that has changed them by hand can ask.
    pub fn is_wf(&self) -> (r: bool)
        ensures
            r == self.wf(),
    {
        if !self.scopes.is_wf() {
            return false;
        }
        let count = self.scopes.scopes.len();
        assert(count == self@.scopes.len());
        let mut i: usize = 0;
        while i < self.env_stack.len()
            invariant
                i <= self.env_stack.len(),
                count == self@.scopes.len(),
                forall|k: int| 0 <= k < i ==> #[trigger] self@.env_stack[k] < count,
            decreases self.env_stack.len() - i,
        {
            if self.env_stack[i] >= count {
                assert(!(self@.env_stack[i as int] < self@.scopes.len()));
                return false;
            }
            i += 1;
        }
        self.interner.count() <= 4294967295
    }

    /// Every binding that is seen from the scope `env`: each symbol of the
    /// interpreter that has a value there, with that value, in the order of
    /// the ids.
    pub fn all_defined(&self, env: Env) -> (r: Vec<(Symbol, Value)>)
        requires
            self.wf(),
        ensures
            crate::eval::environment::pair_views(r@) == crate::eval::environment::defined_below(
                self@.scopes,
                env as int,
                self@.names.len() as int,
            ),
    {
        self.scopes.all_defined(env, self.interner.len())
    }

    /// Makes an empty scope inside the scope that the machine is in, and
    /// gives its handle. The machine stays in the scope that it is in.
    pub fn new_scope(&mut self) -> (r: Env)
        requires
            old(self).wf(),
        ensures
            final(self).wf(),
            r == old(self)@.scopes.len(),
            final(self)@ == old(self)@.with_scopes(
                old(self)@.scopes.push(
                    ScopeView { parent: Some(old(self)@.env()), bindings: Map::empty() },
                ),
            ),
            final(self).step_limit == old(self).step_limit,
    {
        let env = self.env();
        assert(env < self@.scopes.len()) by {
            if self@.env_stack.len() > 0 {
                assert(self@.env_stack[self@.env_stack.len() - 1] < self@.scopes.len());
            }
        }
        let none: Vec<(Symbol, Value)> = Vec::new();
        assert(crate::eval::environment::pair_views(none@) =~= Seq::empty());
        let r = self.scopes.new_with_data(env, none);
        proof {
            assert forall|i: int| 0 <= i < self@.env_stack.len() implies #[trigger] self@.env_stack[i]
                < self@.scopes.len() by {
                assert(self@.env_stack[i] == old(self)@.env_stack[i]);
            }
        }
        r
    }

    /// The symbols of the interpreter.
    pub fn interner(&self) -> (r: &SymbolIntern)
        ensures
            r@ == self@.names,
    {
        &self.interner
    }

    /// The symbols of the interpreter, to intern more.
    pub fn interner_mut(&mut self) -> (r: &mut SymbolIntern)
        ensures
            *r == old(self).interner,
            final(self)@ == old(self)@.with_names(final(r)@),
            final(self).step_limit == old(self).step_limit,
    {
        &mut self.interner
    }

    /// The scope that the machine is in, to enter another one by hand.
    pub fn env_mut(&mut self) -> (r: &mut Vec<Env>)
        ensures
            *r == old(self).env_stack,
            final(self)@ == (MachineView { env_stack: final(r)@, ..old(self)@ }),
            final(self).step_limit == old(self).step_limit,
    {
        &mut self.env_stack
    }
}

/// Whether the result `r` and the machine `post` are what the evaluation of
/// the text `text` from the machine `pre` comes to: the text is read, which
/// interns its symbols, and its forms are evaluated one after the other. A
/// text that cannot be read changes nothing but the symbols.
pub open spec fn source_ended(
    pre: MachineView,
    text: Seq<char>,
    limit: nat,
    r: AresResult<Value>,
    post: MachineView,
) -> bool {
    match program_of(text, pre.names) {
        Program::Values(trees, names) => ended(
            program(pre.with_names(names), trees, 0, limit),
            r,
            post,
        ),
        Program::Error(e) => r.is_err() && r->Err_0@ == AresErrorView::ParseError(e)
            && post.scopes == pre.scopes && post.builders == pre.builders && post.next_id
            == pre.next_id,
        Program::Host => true,
    }
}

/// Evaluates the forms `trees` one after the other, each with its macros
/// expanded first; gives the value of the last.
pub fn eval_trees<S: State>(trees: Vec<Value>, ctx: &mut Context, state: &mut S) -> (r: AresResult<
    Value,
>)
    requires
        old(ctx).wf(),
    ensures
        final(ctx).wf(),
        final(ctx)@.stack == old(ctx)@.stack,
        final(ctx)@.env_stack == old(ctx)@.env_stack,
        final(ctx).step_limit == old(ctx).step_limit,
        grown(old(ctx)@.names, final(ctx)@.names),
        ended(
            program(old(ctx)@, views(trees@), 0, old(ctx).step_limit as nat),
            r,
            final(ctx)@,
        ),
{
    let ghost start = ctx@;
    let ghost all = views(trees@);
    let ghost limit = ctx.step_limit as nat;
    let ghost goal = program(start, all, 0, limit);
    let mut last: Option<Value> = None;
    let ghost mut known = true;
    let ghost mut done = start;
    let mut i: usize = 0;
    while i < trees.len()
        invariant
            i <= trees.len(),
            ctx.wf(),
            all == views(trees@),
            limit == ctx.step_limit,
            ctx.step_limit == old(ctx).step_limit,
            start == old(ctx)@,
            goal == program(start, all, 0, limit),
            ctx@.stack == start.stack,
            ctx@.env_stack == start.env_stack,
            grown(start.names, ctx@.names),
            i == 0 ==> ctx@ == start && last.is_none(),
            i > 0 ==> last.is_some(),
            known && i < trees.len() ==> goal == program(ctx@, all, i as int, limit),
            known && i > 0 && i == trees.len() ==> goal == Outcome::Done(done)
                && done.stack.last() == FrameView::Complete(last.unwrap()@) && same_heap(
                done,
                ctx@,
            ),
            !known ==> goal is Unknown,
        decreases trees.len() - i,
    {
        assert(all[i as int] == trees@[i as int]@);
        let ghost before = ctx@;
        let tree = match crate::eval::macroexpand(trees[i].clone(), ctx, state) {
            Ok(tree) => tree,
            Err(e) => {
                return Err(e);
            },
        };
        let ghost middle = ctx@;
        let ghost first = toplevel(before, FrameView::Expand(all[i as int]), limit);
        proof {
            if known && !(first is Unknown) {
                assert(middle == first->Done_0.with_stacks_of(before));
            }
        }
        let value = match crate::eval::eval(&tree, ctx, state) {
            Ok(value) => value,
            Err(e) => {
                return Err(e);
            },
        };
        proof {
            let second = toplevel(middle, FrameView::EvalThis(tree@, false), limit);
            if known {
                if first is Unknown || second is Unknown {
                    known = false;
                } else {
                    done = second->Done_0;
                    assert(ctx@ == done.with_stacks_of(before));
                }
            }
        }
        last = Some(value);
        i += 1;
    }
    match last {
        Some(v) => Ok(v),
        None => Err(AresError::NoProgram),
    }
}

/// Evaluates the forms that the text `program` writes, one after the other;
/// gives the value of the last.
pub fn eval_source<S: State>(program: &str, ctx: &mut Context, state: &mut S) -> (r: AresResult<Value>)
    requires
        old(ctx).wf(),
    ensures
        final(ctx).wf(),
        final(ctx)@.stack == old(ctx)@.stack,
        final(ctx)@.env_stack == old(ctx)@.env_stack,
        final(ctx).step_limit == old(ctx).step_limit,
        grown(old(ctx)@.names, final(ctx)@.names),
        source_ended(old(ctx)@, program@, old(ctx).step_limit as nat, r, final(ctx)@),
{
    let trees = match ctx.parse(program, &*state) {
        Ok(trees) => trees,
        Err(e) => {
            return Err(AresError::from(e));
        },
    };
    let ghost middle = ctx@;
    let r = eval_trees(trees, ctx, state);
    proof {
        lemma_grown_twice(old(ctx)@.names, middle.names, ctx@.names);
    }
    r
}

/// An interpreter together with the state of the embedder, for the time of
/// some evaluations.
pub struct LoadedContext<'a, S: State> {
    pub ctx: &'a mut Context,
    pub state: &'a mut S,
}

impl<'a, S: State> LoadedContext<'a, S> {
    /// The state of the embedder, to read or to change. What the caller
    /// leaves in it is the state that later evaluations see; the interpreter
    /// stays as it is.
    pub fn state(&mut self) -> (r: &mut S)
        ensures
            *r == *old(self).state,
            *final(self).state == *final(r),
            *final(self).ctx == *old(self).ctx,
    {
        &mut *self.state
    }

    /// The same interpreter with another state of the embedder, for as long
    /// as the result lives.
    pub fn with_other_state<'b>(&'b mut self, state: &'b mut S) -> (r: LoadedContext<'b, S>)
        ensures
            *r.ctx == *old(self).ctx,
            *final(self).ctx == *final(r.ctx),
            *r.state == *old(state),
            *final(state) == *final(r.state),
            *final(self).state == *old(self).state,
    {
        LoadedContext { ctx: &mut *self.ctx, state: state }
    }

    /// Evaluates `value` in the scope `env`, and comes back to the scope
    /// that the machine was in.
    pub fn with_other_env(&mut self, env: Env, value: &Value) -> (r: AresResult<Value>)
        requires
            old(self).ctx.wf(),
            env < old(self).ctx@.scopes.len(),
        ensures
            final(self).ctx.wf(),
            final(self).ctx@.stack == old(self).ctx@.stack,
            final(self).ctx@.env_stack == old(self).ctx@.env_stack,
            final(self).ctx.step_limit == old(self).ctx.step_limit,
            ended(
                run(
                    old(self).ctx@.enter(env).push(FrameView::Return).eval(value@),
                    (old(self).ctx@.stack.len() + 2) as int,
                    old(self).ctx.step_limit as nat,
                ),
                r,
                final(self).ctx@,
            ),
    {
        let entered = self.ctx.entered();
        self.ctx.enter(env);
        let r = crate::eval::eval(value, &mut *self.ctx, &mut *self.state);
        self.ctx.reenter(entered);
        r
    }

    /// Evaluates `value` in the scope that the machine is in.
    pub fn eval(&mut self, value: &Value) -> (r: AresResult<Value>)
        requires
            old(self).ctx.wf(),
        ensures
            final(self).ctx.wf(),
            final(self).ctx@.stack == old(self).ctx@.stack,
            final(self).ctx@.env_stack == old(self).ctx@.env_stack,
            final(self).ctx.step_limit == old(self).ctx.step_limit,
            ended(
                run(
                    old(self).ctx@.push(FrameView::Return).eval(value@),
                    (old(self).ctx@.stack.len() + 2) as int,
                    old(self).ctx.step_limit as nat,
                ),
                r,
                final(self).ctx@,
            ),
    {
        crate::eval::eval(value, &mut *self.ctx, &mut *self.state)
    }

    /// Expands the macros in `value`.
    pub fn macroexpand(&mut self, value: Value) -> (r: AresResult<Value>)
        requires
            old(self).ctx.wf(),
        ensures
            final(self).ctx.wf(),
            final(self).ctx@.stack == old(self).ctx@.stack,
            final(self).ctx@.env_stack == old(self).ctx@.env_stack,
            final(self).ctx.step_limit == old(self).ctx.step_limit,
            ended(
                run(
                    old(self).ctx@.push(FrameView::Return).push(FrameView::Expand(value@)),
                    (old(self).ctx@.stack.len() + 2) as int,
                    old(self).ctx.step_limit as nat,
                ),
                r,
                final(self).ctx@,
            ),
    {
        crate::eval::macroexpand(value, &mut *self.ctx, &mut *self.state)
    }

    /// Calls `func` with the arguments `args`, which are values.
    pub fn call(&mut self, func: &Value, args: &Vec<Value>) -> (r: AresResult<Value>)
        requires
            old(self).ctx.wf(),
        ensures
            final(self).ctx.wf(),
            final(self).ctx@.stack == old(self).ctx@.stack,
            final(self).ctx@.env_stack == old(self).ctx@.env_stack,
            final(self).ctx.step_limit == old(self).ctx.step_limit,
            ended(
                run(
                    old(self).ctx@.push(FrameView::Return).push(
                        FrameView::Call { function: func@, args: views(args@) },
                    ),
                    (old(self).ctx@.stack.len() + 2) as int,
                    old(self).ctx.step_limit as nat,
                ),
                r,
                final(self).ctx@,
            ),
    {
        let mut copy: Vec<Value> = Vec::new();
        let mut i: usize = 0;
        while i < args.len()
            invariant
                i <= args.len(),
                copy@ == args@.take(i as int),
            decreases args.len() - i,
        {
            copy.push(args[i].clone());
            assert(args@.take(i + 1) == args@.take(i as int).push(args@[i as int]));
            i += 1;
        }
        assert(args@.take(args@.len() as int) == args@);
        crate::eval::apply(func, copy, &mut *self.ctx, &mut *self.state)
    }

    /// Calls the function that `named_fn` is bound to with the arguments
    /// `args`.
    pub fn call_named(&mut self, named_fn: &str, args: &Vec<Value>) -> (r: AresResult<Value>)
        requires
            old(self).ctx.wf(),
        ensures
            final(self).ctx.wf(),
            final(self).ctx@.stack == old(self).ctx@.stack,
            final(self).ctx@.env_stack == old(self).ctx@.env_stack,
            final(self).ctx.step_limit == old(self).ctx.step_limit,
            match named_value(old(self).ctx@, named_fn@) {
                Some(func) => ended(
                    run(
                        old(self).ctx@.push(FrameView::Return).push(
                            FrameView::Call { function: func, args: views(args@) },
                        ),
                        (old(self).ctx@.stack.len() + 2) as int,
                        old(self).ctx.step_limit as nat,
                    ),
                    r,
                    final(self).ctx@,
                ),
                None => r.is_err() && r->Err_0@ == AresErrorView::UndefinedName(named_fn@)
                    && final(self).ctx@ == old(self).ctx@,
            },
    {
        match self.ctx.get(named_fn) {
            Some(v) => self.call(&v, args),
            None => Err(AresError::UndefinedName(named_fn.to_owned())),
        }
    }

    /// Evaluates the forms `trees` one after the other, each with its macros
    /// expanded first; gives the value of the last.
    pub fn eval_all(&mut self, trees: Vec<Value>) -> (r: AresResult<Value>)
        requires
            old(self).ctx.wf(),
        ensures
            final(self).ctx.wf(),
            final(self).ctx@.stack == old(self).ctx@.stack,
            final(self).ctx@.env_stack == old(self).ctx@.env_stack,
            final(self).ctx.step_limit == old(self).ctx.step_limit,
            ended(
                program(old(self).ctx@, views(trees@), 0, old(self).ctx.step_limit as nat),
                r,
                final(self).ctx@,
            ),
    {
        eval_trees(trees, &mut *self.ctx, &mut *self.state)
    }

    /// Evaluates the forms that the text `program` writes, one after the
    /// other; gives the value of the last.
    pub fn eval_str(&mut self, program: &str) -> (r: AresResult<Value>)
        requires
            old(self).ctx.wf(),
        ensures
            final(self).ctx.wf(),
            final(self).ctx@.stack == old(self).ctx@.stack,
            final(self).ctx@.env_stack == old(self).ctx@.env_stack,
            final(self).ctx.step_limit == old(self).ctx.step_limit,
            source_ended(
                old(self).ctx@,
                program@,
                old(self).ctx.step_limit as nat,
                r,
                final(self).ctx@,
            ),
    {
        eval_source(program, &mut *self.ctx, &mut *self.state)
    }

    /// Ends the time of the evaluations.
    pub fn unload(self) {
    }
}

} // verus!
