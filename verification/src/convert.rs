//! Values from plain data.

use vstd::prelude::*;
use vstd::std_specs::convert::FromSpecImpl;
use crate::error::AresError;
use crate::intern::Symbol;
use crate::parse::errors::ParseError;
use crate::value::Value;

verus! {

impl From<i64> for Value {
    fn from(i: i64) -> (r: Value) {
        Value::Int(i)
    }
}

impl FromSpecImpl<i64> for Value {
    open spec fn obeys_from_spec() -> bool {
        true
    }

    open spec fn from_spec(i: i64) -> Value {
        Value::Int(i)
    }
}

impl From<i32> for Value {
    fn from(i: i32) -> (r: Value) {
        Value::Int(i as i64)
    }
}

impl FromSpecImpl<i32> for Value {
    open spec fn obeys_from_spec() -> bool {
        true
    }

    open spec fn from_spec(i: i32) -> Value {
        Value::Int(i as i64)
    }
}

impl From<u32> for Value {
    fn from(i: u32) -> (r: Value) {
        Value::Int(i as i64)
    }
}

impl FromSpecImpl<u32> for Value {
    open spec fn obeys_from_spec() -> bool {
        true
    }

    open spec fn from_spec(i: u32) -> Value {
        Value::Int(i as i64)
    }
}

impl From<bool> for Value {
    fn from(b: bool) -> (r: Value) {
        Value::Bool(b)
    }
}

impl FromSpecImpl<bool> for Value {
    open spec fn obeys_from_spec() -> bool {
        true
    }

    open spec fn from_spec(b: bool) -> Value {
        Value::Bool(b)
    }
}

impl From<Symbol> for Value {
    fn from(s: Symbol) -> (r: Value) {
        Value::Symbol(s)
    }
}

impl FromSpecImpl<Symbol> for Value {
    open spec fn obeys_from_spec() -> bool {
        true
    }

    open spec fn from_spec(s: Symbol) -> Value {
        Value::Symbol(s)
    }
}

impl From<ParseError> for AresError {
    fn from(pe: ParseError) -> (r: AresError) {
        AresError::ParseError(pe)
    }
}

impl FromSpecImpl<ParseError> for AresError {
    open spec fn obeys_from_spec() -> bool {
        true
    }

    open spec fn from_spec(pe: ParseError) -> AresError {
        AresError::ParseError(pe)
    }
}

} // verus!
