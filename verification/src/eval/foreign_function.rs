//! Native functions as values.

use vstd::prelude::*;
use std::rc::Rc;
use crate::value::{FfType, ForeignFunction, ForeignFunctionView, Native};

verus! {

/// What a function of the embedder answers a call with.
#[derive(Debug)]
pub enum Reply {
    /// The result of the call.
    Value(crate::value::Value),
    /// The interpreter is to evaluate `tree` in the scope that the call was
    /// made in, and then to call the function that the embedder registered
    /// under `then` with the value of `tree` as its one argument; what that
    /// call gives is the result of this one.
    Eval { tree: crate::value::Value, then: u64 },
    /// The interpreter is to call `function` with `args`, and then to call
    /// the function that the embedder registered under `then` with the
    /// result as its one argument; what that call gives is the result of
    /// this one.
    Apply { function: crate::value::Value, args: Vec<crate::value::Value>, then: u64 },
    /// The interpreter is to read the text `text`, to expand the macros of
    /// each of its forms and to evaluate it, one form after the other in
    /// the scope that the call was made in, and then to call the function
    /// that the embedder registered under `then` with the value of the last
    /// form as its one argument; what that call gives is the result of this
    /// one.
    Source { text: String, then: u64 },
}

/// What the embedder supplies: the native functions it registers, and the
/// reading and writing of floating-point numbers, which the interpreter
/// carries as bit patterns.
pub trait State {
    /// A number that tells this type of embedder state from the others.
    fn tag(&self) -> u64;

    /// Calls the function registered under `id` with `args`. The function
    /// sees the interpreter as it is at the call: it can read what names
    /// mean and how symbols and values are written, and changes nothing.
    fn call_native(
        &mut self,
        id: u64,
        args: &Vec<crate::value::Value>,
        ctx: &crate::eval::context::Context,
    ) -> Result<
        crate::value::Value,
        crate::error::AresError,
    >;

    /// Calls the function registered under `id` with `args`, as
    /// [`State::call_native`] does, but the function may ask the
    /// interpreter for a value before it gives its result: so a function
    /// that takes its arguments as they stand in the program has them
    /// evaluated, and a function that was handed a function calls it.
    /// Unless the embedder says otherwise, the answer is the result of
    /// [`State::call_native`].
    fn answer(
        &mut self,
        id: u64,
        args: &Vec<crate::value::Value>,
        ctx: &crate::eval::context::Context,
    ) -> Result<Reply, crate::error::AresError> {
        match self.call_native(id, args, ctx) {
            Ok(v) => Ok(Reply::Value(v)),
            Err(e) => Err(e),
        }
    }

    /// The bit pattern of the number that the decimal numeral `text` stands
    /// for, if it stands for one.
    fn read_float(&self, text: &str) -> Option<u64>;

    /// The decimal numeral of the number with the bit pattern `bits`.
    fn show_float(&self, bits: u64) -> String;
}

/// The embedder state that holds nothing: it has registered no function and
/// knows no floating-point number.
impl State for () {
    /// The tag of the state that holds nothing is that of the standard
    /// library, whose functions expect no particular state.
    fn tag(&self) -> (r: u64)
        ensures
            r == ANY_STATE,
    {
        ANY_STATE
    }

    /// No function is registered, so every call fails, whatever `id` is.
    fn call_native(
        &mut self,
        id: u64,
        args: &Vec<crate::value::Value>,
        ctx: &crate::eval::context::Context,
    ) -> (r: Result<
        crate::value::Value,
        crate::error::AresError,
    >)
        ensures
            r matches Err(e) && e@ == crate::error::AresErrorView::InvalidForeignFunctionState,
    {
        Err(crate::error::AresError::InvalidForeignFunctionState)
    }

    /// No numeral stands for a number here.
    fn read_float(&self, text: &str) -> (r: Option<u64>)
        ensures
            r.is_none(),
    {
        None
    }

    /// Every number is shown as the empty text.
    fn show_float(&self, bits: u64) -> (r: String)
        ensures
            r@ == Seq::<char>::empty(),
    {
        String::new()
    }
}

/// The tag that the functions of the standard library carry. They expect no
/// particular embedder state.
pub const ANY_STATE: u64 = 0;

/// A native function of the standard library.
pub fn builtin_fn(name: &str, typ: FfType, function: Native) -> (r: ForeignFunction)
    ensures
        r@ == (ForeignFunctionView { name: name@, typ: typ, function: function, typeid: ANY_STATE }),
{
    ForeignFunction {
        name: Rc::new(name.to_owned()),
        typ: typ,
        function: function,
        typeid: ANY_STATE,
    }
}

/// A function of the embedder, registered under `id` for the state with the
/// tag `typeid`, whose arguments are evaluated and which sees values only.
pub fn free_fn(name: &str, id: u64, typeid: u64) -> (r: ForeignFunction)
    ensures
        r@ == (ForeignFunctionView {
            name: name@,
            typ: FfType::Free,
            function: Native::Host(id),
            typeid: typeid,
        }),
{
    ForeignFunction {
        name: Rc::new(name.to_owned()),
        typ: FfType::Free,
        function: Native::Host(id),
        typeid: typeid,
    }
}

/// A function of the embedder, registered under `id` for the state with the
/// tag `typeid`, whose arguments are evaluated and which uses the state.
pub fn user_fn(name: &str, id: u64, typeid: u64) -> (r: ForeignFunction)
    ensures
        r@ == (ForeignFunctionView {
            name: name@,
            typ: FfType::User,
            function: Native::Host(id),
            typeid: typeid,
        }),
{
    ForeignFunction {
        name: Rc::new(name.to_owned()),
        typ: FfType::User,
        function: Native::Host(id),
        typeid: typeid,
    }
}

/// A function of the embedder, registered under `id` for the state with the
/// tag `typeid`, which receives its arguments as they stand in the program.
pub fn ast_fn(name: &str, id: u64, typeid: u64) -> (r: ForeignFunction)
    ensures
        r@ == (ForeignFunctionView {
            name: name@,
            typ: FfType::Ast,
            function: Native::Host(id),
            typeid: typeid,
        }),
{
    ForeignFunction {
        name: Rc::new(name.to_owned()),
        typ: FfType::Ast,
        function: Native::Host(id),
        typeid: typeid,
    }
}

impl ForeignFunction {
    /// The function, to be kept where the type of the embedder state is not
    /// known. It keeps the tag of the state it was made for.
    pub fn erase(self) -> (r: ForeignFunction)
        ensures
            r == self,
    {
        self
    }

    /// The function, if it was made for the state with the tag `typeid` or
    /// for any state; else the function itself, as an error.
    pub fn correct(self, typeid: u64) -> (r: Result<ForeignFunction, ForeignFunction>)
        ensures
            r == if crate::eval::semantics::made_for(self.typeid, typeid) {
                Ok::<ForeignFunction, ForeignFunction>(self)
            } else {
                Err::<ForeignFunction, ForeignFunction>(self)
            },
    {
        if self.typeid == typeid || self.typeid == ANY_STATE {
            Ok(self)
        } else {
            Err(self)
        }
    }
}

} // verus!
