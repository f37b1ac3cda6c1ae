//! The frames of the evaluator's stack, and the state of the machine.

use vstd::prelude::*;
use std::rc::Rc;
use crate::eval::environment::ScopeView;
use crate::intern::Symbol;
use crate::value::{Env, Value, ValueView, entry_views, views};

verus! {

/// One frame of the stack: a piece of work that is pending.
///
/// A frame that waits for further forms of a list holds the list and the
/// index of the next form, so that no list is copied while it is worked off.
#[derive(Debug)]
#[allow(inconsistent_fields)]
pub enum StepState {
    /// Evaluate this value; the flag says that it is the head of a call.
    EvalThis(Value, bool),
    /// Leave the scope of a call.
    PopEnv,
    /// Marks where an evaluation was entered.
    Return,
    /// A result, for the frame beneath.
    Complete(Value),
    /// The head of the call `form` is being evaluated.
    PreEvaluatedCallable { form: Rc<Vec<Value>> },
    /// The arguments of a call of `function` are being evaluated.
    ArgCollecting { function: Value, evaluated: Vec<Value>, form: Rc<Vec<Value>>, next: usize },
    /// The bodies of a closure are being evaluated, one after the other.
    EvaluatingLambda { name: Option<Rc<String>>, bodies: Rc<Vec<Value>>, next: usize },
    /// Call this function with these arguments.
    Call { function: Value, args: Vec<Value> },
    /// Instantiate this template of a `quasiquote`.
    Template(Value),
    /// Expand the macros in this tree.
    Expand(Value),
    /// The condition of an `if` is being evaluated.
    If { then: Value, otherwise: Value },
    /// The value of a `define` or `define-macro` is being evaluated.
    Define { name: Symbol, as_macro: bool },
    /// The value of a `set` is being evaluated.
    Assign { name: Symbol },
    /// The value for `name` in a `let` is being evaluated; `form` holds the
    /// arguments of the `let`, `bindings` its list of names and values.
    LetBinding { name: Symbol, bindings: Rc<Vec<Value>>, next: usize, form: Rc<Vec<Value>> },
    /// An argument of `and` is being evaluated.
    And { form: Rc<Vec<Value>>, next: usize },
    /// An argument of `or` is being evaluated.
    Or { form: Rc<Vec<Value>>, next: usize },
    /// An argument of `xor` is being evaluated.
    Xor { form: Rc<Vec<Value>>, next: usize, found_true: bool, found_false: bool },
    /// A key of a `hash-map`, or the value for `key`, is being evaluated.
    Table { entries: Vec<(Value, Value)>, key: Option<Value>, form: Rc<Vec<Value>>, next: usize },
    /// An item of a list template is being instantiated.
    TemplateList { done: Vec<Value>, template: Rc<Vec<Value>>, next: usize, splice: bool },
    /// `function` is being called on an item of the list of a `for-each`.
    ForEach { function: Value, list: Rc<Vec<Value>>, next: usize, count: i64 },
    /// The function of a `build-list` is being evaluated.
    BuildCall { builder: usize },
    /// The function of a `build-list` is running.
    BuildList { builder: usize },
    /// A macro is being called.
    ExpandMacro,
    /// A function of the embedder has asked for a value, and `function` is
    /// to be called with it.
    HostThen { function: crate::value::ForeignFunction },
    /// A child of a list is being expanded.
    ExpandList { done: Vec<Value>, list: Rc<Vec<Value>>, next: usize },
}

/// A frame with its lists as the sequences of what is left of them.
#[allow(inconsistent_fields)]
pub enum FrameView {
    EvalThis(ValueView, bool),
    PopEnv,
    Return,
    Complete(ValueView),
    PreEvaluatedCallable { unevaluated: Seq<ValueView> },
    ArgCollecting { function: ValueView, evaluated: Seq<ValueView>, unevaluated: Seq<ValueView> },
    EvaluatingLambda { name: Option<Seq<char>>, bodies: Seq<ValueView> },
    Call { function: ValueView, args: Seq<ValueView> },
    Template(ValueView),
    Expand(ValueView),
    If { then: ValueView, otherwise: ValueView },
    Define { name: Symbol, as_macro: bool },
    Assign { name: Symbol },
    LetBinding { name: Symbol, bindings: Seq<ValueView>, bodies: Seq<ValueView> },
    And { rest: Seq<ValueView> },
    Or { rest: Seq<ValueView> },
    Xor { rest: Seq<ValueView>, found_true: bool, found_false: bool },
    Table { entries: Seq<(ValueView, ValueView)>, key: Option<ValueView>, rest: Seq<ValueView> },
    TemplateList { done: Seq<ValueView>, rest: Seq<ValueView>, splice: bool },
    ForEach { function: ValueView, rest: Seq<ValueView>, count: i64 },
    BuildCall { builder: usize },
    BuildList { builder: usize },
    ExpandMacro,
    HostThen { function: crate::value::ForeignFunctionView },
    ExpandList { done: Seq<ValueView>, rest: Seq<ValueView> },
}

/// The views of the items of a list from the index `next` on.
pub open spec fn rest_of(items: Seq<Value>, next: int) -> Seq<ValueView> {
    if 0 <= next <= items.len() {
        views(items).skip(next)
    } else {
        Seq::empty()
    }
}

impl View for StepState {
    type V = FrameView;

    open spec fn view(&self) -> FrameView {
        match *self {
            StepState::EvalThis(v, head) => FrameView::EvalThis(v@, head),
            StepState::PopEnv => FrameView::PopEnv,
            StepState::Return => FrameView::Return,
            StepState::Complete(v) => FrameView::Complete(v@),
            StepState::PreEvaluatedCallable { form } => FrameView::PreEvaluatedCallable {
                unevaluated: rest_of(form@, 1),
            },
            StepState::ArgCollecting { function, evaluated, form, next } => FrameView::ArgCollecting {
                function: function@,
                evaluated: views(evaluated@),
                unevaluated: rest_of(form@, next as int),
            },
            StepState::EvaluatingLambda { name, bodies, next } => FrameView::EvaluatingLambda {
                name: match name {
                    Some(n) => Some(n@),
                    None => None,
                },
                bodies: rest_of(bodies@, next as int),
            },
            StepState::Call { function, args } => FrameView::Call {
                function: function@,
                args: views(args@),
            },
            StepState::Template(v) => FrameView::Template(v@),
            StepState::Expand(v) => FrameView::Expand(v@),
            StepState::If { then, otherwise } => FrameView::If { then: then@, otherwise: otherwise@ },
            StepState::Define { name, as_macro } => FrameView::Define {
                name: name,
                as_macro: as_macro,
            },
            StepState::Assign { name } => FrameView::Assign { name: name },
            StepState::LetBinding { name, bindings, next, form } => FrameView::LetBinding {
                name: name,
                bindings: rest_of(bindings@, next as int),
                bodies: rest_of(form@, 1),
            },
            StepState::And { form, next } => FrameView::And { rest: rest_of(form@, next as int) },
            StepState::Or { form, next } => FrameView::Or { rest: rest_of(form@, next as int) },
            StepState::Xor { form, next, found_true, found_false } => FrameView::Xor {
                rest: rest_of(form@, next as int),
                found_true: found_true,
                found_false: found_false,
            },
            StepState::Table { entries, key, form, next } => FrameView::Table {
                entries: entry_views(entries@),
                key: match key {
                    Some(k) => Some(k@),
                    None => None,
                },
                rest: rest_of(form@, next as int),
            },
            StepState::TemplateList { done, template, next, splice } => FrameView::TemplateList {
                done: views(done@),
                rest: rest_of(template@, next as int),
                splice: splice,
            },
            StepState::ForEach { function, list, next, count } => FrameView::ForEach {
                function: function@,
                rest: rest_of(list@, next as int),
                count: count,
            },
            StepState::BuildCall { builder } => FrameView::BuildCall { builder: builder },
            StepState::BuildList { builder } => FrameView::BuildList { builder: builder },
            StepState::ExpandMacro => FrameView::ExpandMacro,
            StepState::HostThen { function } => FrameView::HostThen { function: function@ },
            StepState::ExpandList { done, list, next } => FrameView::ExpandList {
                done: views(done@),
                rest: rest_of(list@, next as int),
            },
        }
    }
}

/// The state of the machine: the stack of frames, the stack of the scopes
/// entered, the scopes themselves, the names of the symbols, the lists under
/// construction, the number of the next closure, and the tag of the
/// embedder state that the machine was last loaded with.
pub struct MachineView {
    pub stack: Seq<FrameView>,
    pub env_stack: Seq<Env>,
    pub scopes: Seq<ScopeView>,
    pub names: Seq<Option<Seq<char>>>,
    pub builders: Seq<Option<Seq<ValueView>>>,
    pub next_id: u64,
    pub tag: u64,
}

impl MachineView {
    /// The machine with one more frame.
    pub open spec fn push(self, frame: FrameView) -> MachineView {
        MachineView { stack: self.stack.push(frame), ..self }
    }

    /// The machine without its top frame.
    pub open spec fn pop(self) -> MachineView {
        MachineView { stack: self.stack.drop_last(), ..self }
    }

    /// The machine with a result on top.
    pub open spec fn complete(self, v: ValueView) -> MachineView {
        self.push(FrameView::Complete(v))
    }

    /// The machine with the request to evaluate `v` on top.
    pub open spec fn eval(self, v: ValueView) -> MachineView {
        self.push(FrameView::EvalThis(v, false))
    }

    /// The scope that the machine is in: the one entered last, or the global
    /// one.
    pub open spec fn env(self) -> Env {
        if self.env_stack.len() > 0 {
            self.env_stack.last()
        } else {
            0
        }
    }

    /// The machine inside the scope `env`.
    pub open spec fn enter(self, env: Env) -> MachineView {
        MachineView { env_stack: self.env_stack.push(env), ..self }
    }

    /// The machine outside the scope entered last.
    pub open spec fn leave(self) -> MachineView {
        if self.env_stack.len() > 0 {
            MachineView { env_stack: self.env_stack.drop_last(), ..self }
        } else {
            self
        }
    }

    /// The machine with other scopes.
    pub open spec fn with_scopes(self, scopes: Seq<ScopeView>) -> MachineView {
        MachineView { scopes: scopes, ..self }
    }

    /// The machine with other names.
    pub open spec fn with_names(self, names: Seq<Option<Seq<char>>>) -> MachineView {
        MachineView { names: names, ..self }
    }

    /// The machine with other lists under construction.
    pub open spec fn with_builders(self, builders: Seq<Option<Seq<ValueView>>>) -> MachineView {
        MachineView { builders: builders, ..self }
    }

    /// The machine with the stacks of another one, and all else its own.
    pub open spec fn with_stacks_of(self, other: MachineView) -> MachineView {
        MachineView { stack: other.stack, env_stack: other.env_stack, ..self }
    }

    /// There is a global scope, no scope lies inside a later one, the scopes
    /// entered exist, and the symbols have ids.
    pub open spec fn wf(self) -> bool {
        &&& self.scopes.len() >= 1
        &&& crate::eval::environment::parents_precede(self.scopes)
        &&& forall|i: int| 0 <= i < self.env_stack.len() ==> #[trigger] self.env_stack[i]
            < self.scopes.len()
        &&& self.names.len() <= u32::MAX
    }
}

} // verus!
