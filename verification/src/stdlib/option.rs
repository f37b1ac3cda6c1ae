//! Options.

use vstd::prelude::*;
use std::rc::Rc;
use crate::error::{AresError, AresResult, unexpected_arity, unexpected_type};
use crate::eval::semantics::{none_spec, some_spec, unwrap_spec};
use crate::stdlib::arithmetic::gives;
use crate::value::{Value, views};

verus! {

/// The option that holds the argument.
pub fn some(args: &Vec<Value>) -> (r: AresResult<Value>)
    ensures
        gives(r, some_spec(views(args@))),
{
    if args.len() != 1 {
        return Err(unexpected_arity(args.len(), "exactly 1"));
    }
    assert(views(args@)[0] == args@[0]@);
    Ok(Value::Option(Some(Rc::new(args[0].clone()))))
}

/// The empty option.
pub fn none(args: &Vec<Value>) -> (r: AresResult<Value>)
    ensures
        gives(r, none_spec(views(args@))),
{
    if args.len() != 0 {
        return Err(unexpected_arity(args.len(), "exactly 0"));
    }
    Ok(Value::Option(None))
}

/// What the option holds.
pub fn unwrap(args: &Vec<Value>) -> (r: AresResult<Value>)
    ensures
        gives(r, unwrap_spec(views(args@))),
{
    if args.len() != 1 {
        return Err(unexpected_arity(args.len(), "exactly 1"));
    }
    assert(views(args@)[0] == args@[0]@);
    match &args[0] {
        Value::Option(Some(inner)) => Ok((**inner).clone()),
        Value::Option(None) => Err(AresError::UnwrapNone),
        other => Err(unexpected_type(other, "Option")),
    }
}

} // verus!
