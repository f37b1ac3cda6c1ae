//! The values of the language.

use vstd::prelude::*;
use std::rc::Rc;
use crate::intern::Symbol;

verus! {

/// `Rc::clone`: another handle to the same allocation, hence to the same
/// value.
#[verifier::external_body]
pub(crate) fn share<T>(rc: &Rc<T>) -> (r: Rc<T>)
    ensures
        r == *rc,
{
    rc.clone()
}

/// A handle to a scope of the environment graph.
pub type Env = usize;

/// How a native function receives its arguments.
#[derive(Debug, Clone, Copy, PartialEq, Eq, Structural)]
pub enum FfType {
    /// The arguments are evaluated; the function sees values only.
    Free,
    /// The arguments are evaluated; the function may also use the context of
    /// the call.
    User,
    /// The arguments are handed over as they stand in the program.
    Ast,
}

/// The native functions: those of the standard library, and those that the
/// embedder registers under a number of its own.
#[derive(Debug, Clone, Copy, PartialEq, Eq, Structural)]
pub enum Native {
    Eval,
    Apply,
    Quote,
    Quasiquote,
    MacroExpand,
    UnquoteError,
    If,
    Let,
    Assign,
    Define,
    DefineMacro,
    Lambda,
    Gensym,
    And,
    Or,
    Xor,
    BuildList,
    ForEach,
    /// Appends its arguments to the list under construction with this number.
    Add(usize),
    /// Appends the elements of its arguments to the list under construction
    /// with this number.
    AddAll(usize),
    HashMap,
    Equals,
    AddInts,
    SubInts,
    MulInts,
    DivInts,
    Concat,
    ToInt,
    ToFloat,
    ToString,
    ToBool,
    IsInt,
    IsFloat,
    IsBool,
    IsString,
    IsList,
    IsSymbol,
    IsLambda,
    IsForeignFn,
    IsExecutable,
    OptionSome,
    OptionNone,
    OptionUnwrap,
    IsNan,
    IsInfinite,
    IsFinite,
    IsNormal,
    IsSignPositive,
    IsSignNegative,
    Floor,
    Ceil,
    Round,
    Trunc,
    CountOnes,
    CountZeros,
    LeadingZeros,
    TrailingZeros,
    SwapBytes,
    ToBe,
    ToLe,
    Abs,
    Signum,
    IsPositive,
    IsNegative,
    /// A function of the embedder, by the number it was registered under.
    Host(u64),
}

/// A native function as a value.
#[derive(Debug)]
pub struct ForeignFunction {
    pub name: Rc<String>,
    pub typ: FfType,
    pub function: Native,
    /// The tag of the embedder state that the function expects.
    pub typeid: u64,
}

pub struct ForeignFunctionView {
    pub name: Seq<char>,
    pub typ: FfType,
    pub function: Native,
    pub typeid: u64,
}

impl View for ForeignFunction {
    type V = ForeignFunctionView;

    open spec fn view(&self) -> ForeignFunctionView {
        ForeignFunctionView {
            name: self.name@,
            typ: self.typ,
            function: self.function,
            typeid: self.typeid,
        }
    }
}

impl Clone for ForeignFunction {
    fn clone(&self) -> (r: Self)
        ensures
            r == *self,
    {
        ForeignFunction {
            name: share(&self.name),
            typ: self.typ,
            function: self.function,
            typeid: self.typeid,
        }
    }
}

/// The names that a procedure binds its arguments to: one for each of the
/// first arguments, and possibly one for the list of all further ones.
#[derive(Debug)]
pub struct ParamBinding {
    pub params: Vec<Symbol>,
    pub rest: Option<Symbol>,
}

pub struct ParamBindingView {
    pub params: Seq<Symbol>,
    pub rest: Option<Symbol>,
}

impl View for ParamBinding {
    type V = ParamBindingView;

    open spec fn view(&self) -> ParamBindingView {
        ParamBindingView { params: self.params@, rest: self.rest }
    }
}

/// A closure: bodies, parameter names, and the scope it was made in.
#[derive(Debug)]
pub struct Procedure {
    pub name: Option<Rc<String>>,
    pub bodies: Rc<Vec<Value>>,
    pub param_names: Rc<ParamBinding>,
    pub environment: Env,
    /// What tells this closure from every other one.
    pub id: u64,
}

/// A value of the language.
#[derive(Debug)]
pub enum Value {
    List(Rc<Vec<Value>>),
    String(Rc<String>),
    /// A floating-point number, by its IEEE 754 binary64 bit pattern.
    Float(u64),
    Int(i64),
    Bool(bool),
    /// A map, as its entries in the order in which their keys came. The
    /// functions that make maps give none with two equal keys.
    Table(Rc<Vec<(Value, Value)>>),
    Symbol(Symbol),
    ForeignFn(ForeignFunction),
    /// A closure, and whether it is a macro.
    Lambda(Procedure, bool),
    /// Data of the embedder, by a handle that only the embedder understands.
    UserData(u64),
    Option(Option<Rc<Value>>),
}

pub struct ProcedureView {
    pub name: Option<Seq<char>>,
    pub bodies: Seq<ValueView>,
    pub param_names: ParamBindingView,
    pub environment: Env,
    pub id: u64,
}

pub enum ValueView {
    List(Seq<ValueView>),
    String(Seq<char>),
    Float(u64),
    Int(i64),
    Bool(bool),
    Table(Seq<(ValueView, ValueView)>),
    Symbol(Symbol),
    ForeignFn(ForeignFunctionView),
    Lambda(ProcedureView, bool),
    UserData(u64),
    Option(Option<Box<ValueView>>),
}

/// The view of a value: its content, with every list, string and map as a
/// sequence.
pub open spec fn view_of(v: Value) -> ValueView
    decreases v,
{
    match v {
        Value::List(items) => ValueView::List(
            Seq::new(
                items@.len(),
                |i: int|
                    if 0 <= i < items@.len() {
                        view_of(items@[i])
                    } else {
                        ValueView::Bool(false)
                    },
            ),
        ),
        Value::String(s) => ValueView::String(s@),
        Value::Float(f) => ValueView::Float(f),
        Value::Int(i) => ValueView::Int(i),
        Value::Bool(b) => ValueView::Bool(b),
        Value::Table(entries) => ValueView::Table(
            Seq::new(
                entries@.len(),
                |i: int|
                    if 0 <= i < entries@.len() {
                        (view_of(entries@[i].0), view_of(entries@[i].1))
                    } else {
                        (ValueView::Bool(false), ValueView::Bool(false))
                    },
            ),
        ),
        Value::Symbol(s) => ValueView::Symbol(s),
        Value::ForeignFn(f) => ValueView::ForeignFn(f@),
        Value::Lambda(p, is_macro) => ValueView::Lambda(
            ProcedureView {
                name: match p.name {
                    Some(n) => Some(n@),
                    None => None,
                },
                bodies: Seq::new(
                    p.bodies@.len(),
                    |i: int|
                        if 0 <= i < p.bodies@.len() {
                            view_of(p.bodies@[i])
                        } else {
                            ValueView::Bool(false)
                        },
                ),
                param_names: p.param_names@,
                environment: p.environment,
                id: p.id,
            },
            is_macro,
        ),
        Value::UserData(u) => ValueView::UserData(u),
        Value::Option(o) => ValueView::Option(
            match o {
                Some(inner) => Some(Box::new(view_of(*inner))),
                None => None,
            },
        ),
    }
}

/// The view of a closure.
pub open spec fn procedure_view(p: Procedure) -> ProcedureView {
    ProcedureView {
        name: match p.name {
            Some(n) => Some(n@),
            None => None,
        },
        bodies: Seq::new(
            p.bodies@.len(),
            |i: int|
                if 0 <= i < p.bodies@.len() {
                    view_of(p.bodies@[i])
                } else {
                    ValueView::Bool(false)
                },
        ),
        param_names: p.param_names@,
        environment: p.environment,
        id: p.id,
    }
}

impl View for Procedure {
    type V = ProcedureView;

    open spec fn view(&self) -> ProcedureView {
        procedure_view(*self)
    }
}

impl View for Value {
    type V = ValueView;

    open spec fn view(&self) -> ValueView {
        view_of(*self)
    }
}

/// The views of a sequence of values.
pub open spec fn views(items: Seq<Value>) -> Seq<ValueView> {
    items.map_values(|v: Value| v@)
}

/// The view of a list is the list of the views of its items.
pub proof fn lemma_list_view(items: Rc<Vec<Value>>)
    ensures
        Value::List(items)@ == ValueView::List(views(items@)),
{
    assert(Value::List(items)@->List_0 =~= views(items@));
}

/// The bodies of a closure, in its view, are the views of its bodies.
pub proof fn lemma_bodies_view(p: Procedure)
    ensures
        p@.bodies == views(p.bodies@),
{
    assert(p@.bodies =~= views(p.bodies@));
}

/// The view of a closure as a value holds the view of the closure.
pub proof fn lemma_lambda_view(p: Procedure, is_macro: bool)
    ensures
        Value::Lambda(p, is_macro)@ == ValueView::Lambda(p@, is_macro),
{
    assert(Value::Lambda(p, is_macro)@->Lambda_0.bodies =~= p@.bodies);
}

/// The views of the entries of a map.
pub open spec fn entry_views(entries: Seq<(Value, Value)>) -> Seq<(ValueView, ValueView)> {
    entries.map_values(|e: (Value, Value)| (e.0@, e.1@))
}

/// The view of a map as a value holds the views of its entries.
pub proof fn lemma_table_view(entries: Rc<Vec<(Value, Value)>>)
    ensures
        Value::Table(entries)@ == ValueView::Table(entry_views(entries@)),
{
    assert(Value::Table(entries)@->Table_0 =~= entry_views(entries@));
}

impl Clone for Procedure {
    fn clone(&self) -> (r: Self)
        ensures
            r == *self,
    {
        Procedure {
            name: match &self.name {
                Some(n) => Some(share(n)),
                None => None,
            },
            bodies: share(&self.bodies),
            param_names: share(&self.param_names),
            environment: self.environment,
            id: self.id,
        }
    }
}

impl Clone for Value {
    fn clone(&self) -> (r: Self)
        ensures
            r == *self,
    {
        match self {
            Value::List(items) => Value::List(share(items)),
            Value::String(s) => Value::String(share(s)),
            Value::Float(f) => Value::Float(*f),
            Value::Int(i) => Value::Int(*i),
            Value::Bool(b) => Value::Bool(*b),
            Value::Table(entries) => Value::Table(share(entries)),
            Value::Symbol(s) => Value::Symbol(*s),
            Value::ForeignFn(f) => Value::ForeignFn(f.clone()),
            Value::Lambda(p, is_macro) => Value::Lambda(p.clone(), *is_macro),
            Value::UserData(u) => Value::UserData(*u),
            Value::Option(o) => Value::Option(
                match o {
                    Some(inner) => Some(share(inner)),
                    None => None,
                },
            ),
        }
    }
}

impl Value {
    /// A string value.
    pub fn string(s: &str) -> (r: Value)
        ensures
            r@ == ValueView::String(s@),
    {
        Value::String(Rc::new(s.to_owned()))
    }

    /// A list value.
    pub fn list(v: Vec<Value>) -> (r: Value)
        ensures
            r@ == ValueView::List(views(v@)),
    {
        let items = Rc::new(v);
        proof {
            lemma_list_view(items);
        }
        Value::List(items)
    }

    /// A value that stands for data of the embedder.
    pub fn user_data(handle: u64) -> (r: Value)
        ensures
            r@ == ValueView::UserData(handle),
    {
        Value::UserData(handle)
    }
}

/// Whether a value can stand in source text: a number, a truth value, a
/// string, a symbol, or a list or a map of such values.
pub open spec fn is_source(v: ValueView) -> bool
    decreases v, 0nat,
{
    match v {
        ValueView::Int(_) => true,
        ValueView::Float(_) => true,
        ValueView::Bool(_) => true,
        ValueView::String(_) => true,
        ValueView::Symbol(_) => true,
        ValueView::List(items) => all_source(items, items.len()),
        ValueView::Table(entries) => all_source_entries(entries, entries.len()),
        _ => false,
    }
}

/// Whether each of the first `n` values can stand in source text.
pub open spec fn all_source(items: Seq<ValueView>, n: nat) -> bool
    decreases items, n,
{
    if n == 0 || n > items.len() {
        true
    } else {
        all_source(items, (n - 1) as nat) && is_source(items[n - 1])
    }
}

/// Whether the keys and values of the first `n` entries can stand in source
/// text.
pub open spec fn all_source_entries(entries: Seq<(ValueView, ValueView)>, n: nat) -> bool
    decreases entries, n,
{
    if n == 0 || n > entries.len() {
        true
    } else {
        all_source_entries(entries, (n - 1) as nat) && is_source(entries[n - 1].0) && is_source(
            entries[n - 1].1,
        )
    }
}

/// Each of the first `n` values, one by one.
pub proof fn lemma_all_source(items: Seq<ValueView>, n: nat, i: int)
    requires
        all_source(items, n),
        0 <= i < n <= items.len(),
    ensures
        is_source(items[i]),
    decreases n,
{
    if i < n - 1 {
        lemma_all_source(items, (n - 1) as nat, i);
    }
}

/// What holds of each of the first `n` values holds of them all.
pub proof fn lemma_all_source_from(items: Seq<ValueView>, n: nat)
    requires
        n <= items.len(),
        forall|i: int| 0 <= i < n ==> is_source(#[trigger] items[i]),
    ensures
        all_source(items, n),
    decreases n,
{
    if n > 0 {
        lemma_all_source_from(items, (n - 1) as nat);
    }
}

} // verus!
