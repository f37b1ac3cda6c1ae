//! What can go wrong while a program is evaluated.

use vstd::prelude::*;
use crate::parse::errors::{ParseError, ParseErrorView};
use crate::value::{Value, ValueView};

verus! {

/// A failure of an evaluation.
#[derive(Debug)]
pub enum AresError {
    /// The source text is no program.
    ParseError(ParseError),
    /// The source text holds no form.
    NoProgram,
    /// A value of the wrong type, and the type that was expected.
    UnexpectedType { value: Value, expected: String },
    /// A wrong number of arguments, and how many were expected.
    UnexpectedArity { found: u16, expected: String },
    /// The head of a call is no function.
    UnexecutableValue(Value),
    /// The empty list was evaluated.
    ExecuteEmptyList,
    /// The parameter list of a `lambda` is malformed.
    UnexpectedArgsList(Value),
    /// A value that cannot be converted into the named type.
    IllegalConversion { value: Value, into: String },
    /// A name without a binding.
    UndefinedName(String),
    /// The interpreter or one of its helpers was used out of order.
    InvalidState(String),
    /// An `unquote` or `unquote-splicing` outside a template, or a splice
    /// with no list around it.
    InvalidUnquotation,
    /// A `lambda` without a body.
    NoLambdaBody,
    /// A macro was evaluated as a value.
    MacroReference,
    /// A native function was made for another type of embedder state.
    InvalidForeignFunctionState,
    /// A special form was passed as a value.
    AstFunctionPass,
    /// The name has a binding in the current scope already.
    AlreadyDefined(String),
    /// `unwrap` of an empty option.
    UnwrapNone,
    /// The evaluation took more steps than the context allows.
    StepLimit,
    /// An error of the embedder.
    UserError(Value),
}

/// An [`AresError`] with its texts as sequences of characters and its values
/// as views.
pub enum AresErrorView {
    ParseError(ParseErrorView),
    NoProgram,
    UnexpectedType { value: ValueView, expected: Seq<char> },
    UnexpectedArity { found: u16, expected: Seq<char> },
    UnexecutableValue(ValueView),
    ExecuteEmptyList,
    UnexpectedArgsList(ValueView),
    IllegalConversion { value: ValueView, into: Seq<char> },
    UndefinedName(Seq<char>),
    InvalidState(Seq<char>),
    InvalidUnquotation,
    NoLambdaBody,
    MacroReference,
    InvalidForeignFunctionState,
    AstFunctionPass,
    AlreadyDefined(Seq<char>),
    UnwrapNone,
    StepLimit,
    UserError(ValueView),
}

impl View for AresError {
    type V = AresErrorView;

    open spec fn view(&self) -> AresErrorView {
        match *self {
            AresError::ParseError(e) => AresErrorView::ParseError(e@),
            AresError::NoProgram => AresErrorView::NoProgram,
            AresError::UnexpectedType { value, expected } => AresErrorView::UnexpectedType {
                value: value@,
                expected: expected@,
            },
            AresError::UnexpectedArity { found, expected } => AresErrorView::UnexpectedArity {
                found: found,
                expected: expected@,
            },
            AresError::UnexecutableValue(v) => AresErrorView::UnexecutableValue(v@),
            AresError::ExecuteEmptyList => AresErrorView::ExecuteEmptyList,
            AresError::UnexpectedArgsList(v) => AresErrorView::UnexpectedArgsList(v@),
            AresError::IllegalConversion { value, into } => AresErrorView::IllegalConversion {
                value: value@,
                into: into@,
            },
            AresError::UndefinedName(n) => AresErrorView::UndefinedName(n@),
            AresError::InvalidState(n) => AresErrorView::InvalidState(n@),
            AresError::InvalidUnquotation => AresErrorView::InvalidUnquotation,
            AresError::NoLambdaBody => AresErrorView::NoLambdaBody,
            AresError::MacroReference => AresErrorView::MacroReference,
            AresError::InvalidForeignFunctionState => AresErrorView::InvalidForeignFunctionState,
            AresError::AstFunctionPass => AresErrorView::AstFunctionPass,
            AresError::AlreadyDefined(n) => AresErrorView::AlreadyDefined(n@),
            AresError::UnwrapNone => AresErrorView::UnwrapNone,
            AresError::StepLimit => AresErrorView::StepLimit,
            AresError::UserError(v) => AresErrorView::UserError(v@),
        }
    }
}

pub type AresResult<T> = Result<T, AresError>;

impl AresError {
    /// An error of the embedder, which carries `payload`.
    pub fn user_error(payload: Value) -> (r: AresError)
        ensures
            r@ == AresErrorView::UserError(payload@),
    {
        AresError::UserError(payload)
    }
}

/// The error for a value of the wrong type.
pub fn unexpected_type(value: &Value, expected: &str) -> (r: AresError)
    ensures
        r@ == (AresErrorView::UnexpectedType { value: value@, expected: expected@ }),
{
    AresError::UnexpectedType { value: value.clone(), expected: expected.to_owned() }
}

/// The number of arguments as an error reports it: the count modulo 65536.
pub open spec fn reported_count(len: int) -> u16 {
    (len % 65536) as u16
}

/// The error for a wrong number of arguments.
pub fn unexpected_arity(len: usize, expected: &str) -> (r: AresError)
    ensures
        r@ == (AresErrorView::UnexpectedArity {
            found: reported_count(len as int),
            expected: expected@,
        }),
{
    AresError::UnexpectedArity { found: (len % 65536) as u16, expected: expected.to_owned() }
}

} // verus!
