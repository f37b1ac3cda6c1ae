//! Tests of the type of a value, and conversions between the types.

use vstd::prelude::*;
use std::rc::Rc;
use crate::error::{AresError, AresErrorView, AresResult, reported_count, unexpected_arity};
use crate::eval::foreign_function::State;
use crate::float::{float_to_int, int_to_float, nearest, truncated};
use crate::intern::{SymbolIntern, name_or_anon};
use crate::stdlib::arithmetic::gives;
use crate::text::{
    chars_of,
    decimal,
    int_of_numeral,
    parse_i64,
    push_decimal,
    push_signed_decimal,
    push_text,
    same_text,
    signed_decimal,
};
use crate::value::{Value, ValueView, views};

verus! {

/// The kinds of value that a type test asks for.
#[derive(Debug, Clone, Copy, PartialEq, Eq, Structural)]
pub enum Kind {
    Int,
    Float,
    Bool,
    String,
    List,
    Symbol,
    Lambda,
    ForeignFn,
    Executable,
}

/// Whether a value is of a kind.
pub open spec fn is_kind(v: ValueView, kind: Kind) -> bool {
    match kind {
        Kind::Int => v is Int,
        Kind::Float => v is Float,
        Kind::Bool => v is Bool,
        Kind::String => v is String,
        Kind::List => v is List,
        Kind::Symbol => v is Symbol,
        Kind::Lambda => v is Lambda,
        Kind::ForeignFn => v is ForeignFn,
        Kind::Executable => v is Lambda || v is ForeignFn,
    }
}

/// Whether every value is of the kind.
pub open spec fn all_of_kind(args: Seq<ValueView>, kind: Kind) -> bool {
    forall|i: int| 0 <= i < args.len() ==> is_kind(#[trigger] args[i], kind)
}

fn value_is(v: &Value, kind: Kind) -> (r: bool)
    ensures
        r == is_kind(v@, kind),
{
    match kind {
        Kind::Int => matches!(v, Value::Int(_)),
        Kind::Float => matches!(v, Value::Float(_)),
        Kind::Bool => matches!(v, Value::Bool(_)),
        Kind::String => matches!(v, Value::String(_)),
        Kind::List => matches!(v, Value::List(_)),
        Kind::Symbol => matches!(v, Value::Symbol(_)),
        Kind::Lambda => matches!(v, Value::Lambda(_, _)),
        Kind::ForeignFn => matches!(v, Value::ForeignFn(_)),
        Kind::Executable => matches!(v, Value::Lambda(_, _)) || matches!(v, Value::ForeignFn(_)),
    }
}

/// Whether all the values are of the kind.
pub fn all_are(values: &Vec<Value>, kind: Kind) -> (r: AresResult<Value>)
    ensures
        gives(r, Ok(ValueView::Bool(all_of_kind(views(values@), kind)))),
{
    let ghost all = views(values@);
    let mut i: usize = 0;
    while i < values.len()
        invariant
            i <= values.len(),
            all == views(values@),
            forall|k: int| 0 <= k < i ==> is_kind(#[trigger] all[k], kind),
        decreases values.len() - i,
    {
        assert(all[i as int] == values@[i as int]@);
        if !value_is(&values[i], kind) {
            return Ok(Value::Bool(false));
        }
        i += 1;
    }
    Ok(Value::Bool(true))
}

/// Whether all the values are integers.
pub fn is_int(values: &Vec<Value>) -> (r: AresResult<Value>)
    ensures
        gives(r, Ok(ValueView::Bool(all_of_kind(views(values@), Kind::Int)))),
{
    all_are(values, Kind::Int)
}

/// Whether all the values are floating-point numbers.
pub fn is_float(values: &Vec<Value>) -> (r: AresResult<Value>)
    ensures
        gives(r, Ok(ValueView::Bool(all_of_kind(views(values@), Kind::Float)))),
{
    all_are(values, Kind::Float)
}

/// Whether all the values are truth values.
pub fn is_bool(values: &Vec<Value>) -> (r: AresResult<Value>)
    ensures
        gives(r, Ok(ValueView::Bool(all_of_kind(views(values@), Kind::Bool)))),
{
    all_are(values, Kind::Bool)
}

/// Whether all the values are strings.
pub fn is_string(values: &Vec<Value>) -> (r: AresResult<Value>)
    ensures
        gives(r, Ok(ValueView::Bool(all_of_kind(views(values@), Kind::String)))),
{
    all_are(values, Kind::String)
}

/// Whether all the values are lists.
pub fn is_list(values: &Vec<Value>) -> (r: AresResult<Value>)
    ensures
        gives(r, Ok(ValueView::Bool(all_of_kind(views(values@), Kind::List)))),
{
    all_are(values, Kind::List)
}

/// Whether all the values are symbols.
pub fn is_symbol(values: &Vec<Value>) -> (r: AresResult<Value>)
    ensures
        gives(r, Ok(ValueView::Bool(all_of_kind(views(values@), Kind::Symbol)))),
{
    all_are(values, Kind::Symbol)
}

/// Whether all the values are closures.
pub fn is_lambda(values: &Vec<Value>) -> (r: AresResult<Value>)
    ensures
        gives(r, Ok(ValueView::Bool(all_of_kind(views(values@), Kind::Lambda)))),
{
    all_are(values, Kind::Lambda)
}

/// Whether all the values are native functions.
pub fn is_foreign_fn(values: &Vec<Value>) -> (r: AresResult<Value>)
    ensures
        gives(r, Ok(ValueView::Bool(all_of_kind(views(values@), Kind::ForeignFn)))),
{
    all_are(values, Kind::ForeignFn)
}

/// Whether all the values can be called.
pub fn is_executable(values: &Vec<Value>) -> (r: AresResult<Value>)
    ensures
        gives(r, Ok(ValueView::Bool(all_of_kind(views(values@), Kind::Executable)))),
{
    all_are(values, Kind::Executable)
}

/// The error for a wrong number of arguments.
pub open spec fn arity_error(len: int, expected: Seq<char>) -> AresErrorView {
    AresErrorView::UnexpectedArity { found: reported_count(len), expected: expected }
}

/// The error for a value that cannot be converted.
pub open spec fn illegal_conversion(v: ValueView, into: Seq<char>) -> AresErrorView {
    AresErrorView::IllegalConversion { value: v, into: into }
}

fn conversion_error(v: &Value, into: &str) -> (r: AresError)
    ensures
        r@ == illegal_conversion(v@, into@),
{
    AresError::IllegalConversion { value: v.clone(), into: into.to_owned() }
}

/// What `->int` returns: an integer is itself, a floating-point number is
/// truncated, a truth value is 1 or 0, a string is the integer it writes.
pub open spec fn to_int_spec(args: Seq<ValueView>) -> Result<ValueView, AresErrorView> {
    if args.len() != 1 {
        Err(arity_error(args.len() as int, "exactly 1"@))
    } else {
        match args[0] {
            ValueView::Int(i) => Ok(ValueView::Int(i)),
            ValueView::Float(f) => Ok(ValueView::Int(truncated(f))),
            ValueView::Bool(b) => Ok(
                ValueView::Int(
                    if b {
                        1
                    } else {
                        0
                    },
                ),
            ),
            ValueView::String(s) => match int_of_numeral(s) {
                Some(i) => Ok(ValueView::Int(i)),
                None => Err(illegal_conversion(args[0], "Int"@)),
            },
            other => Err(illegal_conversion(other, "Int"@)),
        }
    }
}

/// Converts a value to an integer.
pub fn to_int(values: &Vec<Value>) -> (r: AresResult<Value>)
    ensures
        gives(r, to_int_spec(views(values@))),
{
    if values.len() != 1 {
        return Err(unexpected_arity(values.len(), "exactly 1"));
    }
    assert(views(values@)[0] == values@[0]@);
    match &values[0] {
        Value::Int(i) => Ok(Value::Int(*i)),
        Value::Float(f) => Ok(Value::Int(float_to_int(*f))),
        Value::Bool(b) => Ok(
            Value::Int(
                if *b {
                    1
                } else {
                    0
                },
            ),
        ),
        Value::String(s) => {
            let chars = chars_of(s.as_str());
            match parse_i64(&chars) {
                Some(i) => Ok(Value::Int(i)),
                None => Err(conversion_error(&values[0], "Int")),
            }
        },
        other => Err(conversion_error(other, "Int")),
    }
}

/// What `->float` returns, where the embedder has no say: a floating-point
/// number is itself, and an integer is the number nearest to it. A string
/// is read by the embedder.
pub open spec fn to_float_spec(args: Seq<ValueView>) -> Option<Result<ValueView, AresErrorView>> {
    if args.len() != 1 {
        Some(Err(arity_error(args.len() as int, "exactly 1"@)))
    } else {
        match args[0] {
            ValueView::Int(i) => Some(Ok(ValueView::Float(nearest(i)))),
            ValueView::Float(f) => Some(Ok(ValueView::Float(f))),
            ValueView::String(_) => None,
            other => Some(Err(illegal_conversion(other, "Float"@))),
        }
    }
}

/// What `->float` returns for a string that the embedder has read.
pub open spec fn float_of_string(v: ValueView, read: Option<u64>) -> Result<
    ValueView,
    AresErrorView,
> {
    match read {
        Some(bits) => Ok(ValueView::Float(bits)),
        None => Err(illegal_conversion(v, "Float"@)),
    }
}

/// The value of a string as a floating-point number, once the embedder has
/// read it.
pub fn float_from_read(v: &Value, read: Option<u64>) -> (r: AresResult<Value>)
    ensures
        gives(r, float_of_string(v@, read)),
{
    match read {
        Some(bits) => Ok(Value::Float(bits)),
        None => Err(conversion_error(v, "Float")),
    }
}

/// Converts a value to a floating-point number.
pub fn to_float<S: State>(values: &Vec<Value>, state: &S) -> (r: AresResult<Value>)
    ensures
        match to_float_spec(views(values@)) {
            Some(expected) => gives(r, expected),
            None => match r {
                Ok(v) => v@ is Float,
                Err(e) => e@ == illegal_conversion(views(values@)[0], "Float"@),
            },
        },
{
    if values.len() != 1 {
        return Err(unexpected_arity(values.len(), "exactly 1"));
    }
    assert(views(values@)[0] == values@[0]@);
    match &values[0] {
        Value::Int(i) => Ok(Value::Float(int_to_float(*i))),
        Value::Float(f) => Ok(Value::Float(*f)),
        Value::String(s) => float_from_read(&values[0], state.read_float(s.as_str())),
        other => Err(conversion_error(other, "Float")),
    }
}

/// What `->bool` returns: zero of either number type is false and every
/// other number true; the strings `true` and `false` are what they say.
pub open spec fn to_bool_spec(args: Seq<ValueView>) -> Result<ValueView, AresErrorView> {
    if args.len() != 1 {
        Err(arity_error(args.len() as int, "exactly 1"@))
    } else {
        match args[0] {
            ValueView::Int(i) => Ok(ValueView::Bool(i != 0)),
            ValueView::Float(f) => Ok(ValueView::Bool(crate::float::float_magnitude(f) != 0)),
            ValueView::Bool(b) => Ok(ValueView::Bool(b)),
            ValueView::String(s) => if s == "true"@ {
                Ok(ValueView::Bool(true))
            } else if s == "false"@ {
                Ok(ValueView::Bool(false))
            } else {
                Err(illegal_conversion(args[0], "Bool"@))
            },
            other => Err(illegal_conversion(other, "Bool"@)),
        }
    }
}

/// Converts a value to a truth value.
pub fn to_bool(values: &Vec<Value>) -> (r: AresResult<Value>)
    ensures
        gives(r, to_bool_spec(views(values@))),
{
    if values.len() != 1 {
        return Err(unexpected_arity(values.len(), "exactly 1"));
    }
    assert(views(values@)[0] == values@[0]@);
    match &values[0] {
        Value::Int(i) => Ok(Value::Bool(*i != 0)),
        Value::Float(f) => Ok(Value::Bool(!(*f == 0 || *f == 0x8000_0000_0000_0000))),
        Value::Bool(b) => Ok(Value::Bool(*b)),
        Value::String(s) => {
            if same_text(s.as_str(), "true") {
                Ok(Value::Bool(true))
            } else if same_text(s.as_str(), "false") {
                Ok(Value::Bool(false))
            } else {
                Err(conversion_error(&values[0], "Bool"))
            }
        },
        other => Err(conversion_error(other, "Bool")),
    }
}

/// Whether a floating-point number occurs in a value.
pub open spec fn has_float(v: ValueView) -> bool
    decreases v, 0nat,
{
    match v {
        ValueView::Float(_) => true,
        ValueView::List(items) => any_float(items, items.len()),
        ValueView::Table(entries) => any_entry_float(entries, entries.len()),
        ValueView::Option(Some(inner)) => has_float(*inner),
        _ => false,
    }
}

/// Whether a floating-point number occurs in one of the first `n` items.
pub open spec fn any_float(items: Seq<ValueView>, n: nat) -> bool
    decreases items, n,
{
    if n == 0 || n > items.len() {
        false
    } else {
        any_float(items, (n - 1) as nat) || has_float(items[n - 1])
    }
}

/// Whether a floating-point number occurs in one of the first `n` entries.
pub open spec fn any_entry_float(entries: Seq<(ValueView, ValueView)>, n: nat) -> bool
    decreases entries, n,
{
    if n == 0 || n > entries.len() {
        false
    } else {
        any_entry_float(entries, (n - 1) as nat) || has_float(entries[n - 1].0) || has_float(
            entries[n - 1].1,
        )
    }
}

/// How a value is written. (Floating-point numbers are written by the
/// embedder.)
pub open spec fn shown(v: ValueView, names: Seq<Option<Seq<char>>>) -> Seq<char>
    decreases v, 0nat,
{
    match v {
        ValueView::Int(i) => signed_decimal(i as int),
        ValueView::Float(_) => Seq::empty(),
        ValueView::String(s) => s,
        ValueView::Bool(b) => if b {
            "true"@
        } else {
            "false"@
        },
        ValueView::ForeignFn(f) => "<#"@ + f.name + ">"@,
        ValueView::Lambda(p, _) => "<@"@ + (match p.name {
            Some(n) => n,
            None => "anonymous"@,
        }) + ">"@,
        ValueView::UserData(u) => "UserData@"@ + decimal(u as nat),
        ValueView::Symbol(s) => "'"@ + name_or_anon(names, s),
        ValueView::List(items) => "["@ + shown_items(items, names, items.len()) + "]"@,
        ValueView::Table(entries) => "{"@ + shown_entries(entries, names, entries.len()) + "}"@,
        ValueView::Option(o) => match o {
            Some(inner) => "Some("@ + shown(*inner, names) + ")"@,
            None => "None"@,
        },
    }
}

/// The first `n` items of a list, written with `, ` between them.
pub open spec fn shown_items(items: Seq<ValueView>, names: Seq<Option<Seq<char>>>, n: nat) -> Seq<
    char,
>
    decreases items, n,
{
    if n == 0 || n > items.len() {
        Seq::empty()
    } else if n == 1 {
        shown(items[0], names)
    } else {
        shown_items(items, names, (n - 1) as nat) + ", "@ + shown(items[n - 1], names)
    }
}

/// The first `n` entries of a map, each written as its key, `, ` and its
/// value.
pub open spec fn shown_entries(
    entries: Seq<(ValueView, ValueView)>,
    names: Seq<Option<Seq<char>>>,
    n: nat,
) -> Seq<char>
    decreases entries, n,
{
    if n == 0 || n > entries.len() {
        Seq::empty()
    } else {
        shown_entries(entries, names, (n - 1) as nat) + shown(entries[n - 1].0, names) + ", "@
            + shown(entries[n - 1].1, names)
    }
}

/// Appends `value` as it is written.
pub fn show_into<S: State>(value: &Value, interner: &SymbolIntern, state: &S, out: &mut String)
    ensures
        !has_float(value@) ==> final(out)@ == old(out)@ + shown(value@, interner@),
    decreases value,
{
    let ghost base = out@;
    let ghost names = interner@;
    match value {
        Value::Int(i) => {
            push_signed_decimal(out, *i);
        },
        Value::Float(f) => {
            let text = state.show_float(*f);
            push_text(out, text.as_str());
        },
        Value::String(s) => {
            push_text(out, s.as_str());
        },
        Value::Bool(b) => {
            if *b {
                push_text(out, "true");
            } else {
                push_text(out, "false");
            }
        },
        Value::ForeignFn(f) => {
            push_text(out, "<#");
            push_text(out, f.name.as_str());
            push_text(out, ">");
            assert(out@ == base + ("<#"@ + f.name@ + ">"@));
        },
        Value::Lambda(p, _) => {
            push_text(out, "<@");
            match &p.name {
                Some(n) => {
                    push_text(out, n.as_str());
                },
                None => {
                    push_text(out, "anonymous");
                },
            }
            push_text(out, ">");
            assert(out@ == base + shown(value@, names));
        },
        Value::UserData(u) => {
            push_text(out, "UserData@");
            push_decimal(out, *u);
            assert(out@ == base + ("UserData@"@ + decimal(*u as nat)));
        },
        Value::Symbol(s) => {
            push_text(out, "'");
            let name = interner.lookup_or_anon(*s);
            push_text(out, name.as_str());
            assert(out@ == base + ("'"@ + name_or_anon(names, *s)));
        },
        Value::List(items) => {
            push_text(out, "[");
            let ghost all = value@->List_0;
            let mut i: usize = 0;
            while i < items.len()
                invariant
                    i <= items.len(),
                    *value == Value::List(*items),
                    value@ == ValueView::List(all),
                    all.len() == items.len(),
                    names == interner@,
                    forall|k: int| 0 <= k < items.len() ==> #[trigger] all[k] == items@[k]@,
                    !any_float(all, i as nat) ==> out@ == base + "["@ + shown_items(
                        all,
                        names,
                        i as nat,
                    ),
                decreases items.len() - i,
            {
                if i > 0 {
                    push_text(out, ", ");
                }
                let ghost before = out@;
                show_into(&items[i], interner, state, out);
                proof {
                    if !any_float(all, (i + 1) as nat) {
                        assert(out@ == before + shown(all[i as int], names));
                        if i > 0 {
                            assert(out@ == base + "["@ + (shown_items(all, names, i as nat) + ", "@
                                + shown(all[i as int], names)));
                        }
                    }
                }
                i += 1;
            }
            push_text(out, "]");
            assert(!has_float(value@) ==> out@ == base + ("["@ + shown_items(
                all,
                names,
                all.len(),
            ) + "]"@));
        },
        Value::Table(entries) => {
            push_text(out, "{");
            let ghost all = value@->Table_0;
            let mut i: usize = 0;
            while i < entries.len()
                invariant
                    i <= entries.len(),
                    *value == Value::Table(*entries),
                    value@ == ValueView::Table(all),
                    all.len() == entries.len(),
                    names == interner@,
                    forall|k: int|
                        0 <= k < entries.len() ==> #[trigger] all[k] == (
                            entries@[k].0@,
                            entries@[k].1@,
                        ),
                    !any_entry_float(all, i as nat) ==> out@ == base + "{"@ + shown_entries(
                        all,
                        names,
                        i as nat,
                    ),
                decreases entries.len() - i,
            {
                let ghost before = out@;
                show_into(&entries[i].0, interner, state, out);
                push_text(out, ", ");
                show_into(&entries[i].1, interner, state, out);
                proof {
                    if !any_entry_float(all, (i + 1) as nat) {
                        assert(out@ == before + shown(all[i as int].0, names) + ", "@ + shown(
                            all[i as int].1,
                            names,
                        ));
                        assert(out@ == base + "{"@ + (shown_entries(all, names, i as nat) + shown(
                            all[i as int].0,
                            names,
                        ) + ", "@ + shown(all[i as int].1, names)));
                    }
                }
                i += 1;
            }
            push_text(out, "}");
            assert(!has_float(value@) ==> out@ == base + ("{"@ + shown_entries(
                all,
                names,
                all.len(),
            ) + "}"@));
        },
        Value::Option(o) => {
            match o {
                Some(inner) => {
                    push_text(out, "Some(");
                    let ghost before = out@;
                    show_into(inner, interner, state, out);
                    push_text(out, ")");
                    assert(!has_float(value@) ==> out@ == base + ("Some("@ + shown(
                        inner@,
                        names,
                    ) + ")"@));
                },
                None => {
                    push_text(out, "None");
                },
            }
        },
    }
}

/// How `value` is written.
pub fn to_string_helper<S: State>(value: &Value, interner: &SymbolIntern, state: &S) -> (r: String)
    ensures
        !has_float(value@) ==> r@ == shown(value@, interner@),
{
    let mut out = String::new();
    show_into(value, interner, state, &mut out);
    assert(Seq::<char>::empty() + shown(value@, interner@) == shown(value@, interner@));
    out
}

/// What `->string` returns for a value without floating-point numbers.
pub open spec fn to_string_spec(args: Seq<ValueView>, names: Seq<Option<Seq<char>>>) -> Option<
    Result<ValueView, AresErrorView>,
> {
    if args.len() != 1 {
        Some(Err(arity_error(args.len() as int, "exactly 1"@)))
    } else if has_float(args[0]) {
        None
    } else {
        Some(Ok(ValueView::String(shown(args[0], names))))
    }
}

/// The string that writes a value.
pub fn to_string<S: State>(values: &Vec<Value>, interner: &SymbolIntern, state: &S) -> (r:
    AresResult<Value>)
    ensures
        match to_string_spec(views(values@), interner@) {
            Some(expected) => gives(r, expected),
            None => r.is_ok() && r->Ok_0 is String,
        },
{
    if values.len() != 1 {
        return Err(unexpected_arity(values.len(), "exactly 1"));
    }
    assert(views(values@)[0] == values@[0]@);
    let s = to_string_helper(&values[0], interner, state);
    Ok(Value::String(Rc::new(s)))
}

} // verus!
