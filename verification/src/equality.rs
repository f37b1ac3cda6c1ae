//! When two values are equal.

use vstd::prelude::*;
use vstd::std_specs::cmp::PartialEqSpecImpl;
use crate::float::{float_bits_equal, floats_equal};
use crate::value::{Value, ValueView};

verus! {

/// Equality of values: by content for numbers, strings, booleans, symbols,
/// lists, maps and options; by identity for closures, native functions and
/// data of the embedder.
pub open spec fn values_equal(a: ValueView, b: ValueView) -> bool
    decreases a,
{
    match (a, b) {
        (ValueView::List(x), ValueView::List(y)) => x.len() == y.len() && forall|i: int|
            0 <= i < x.len() ==> values_equal(#[trigger] x[i], y[i]),
        (ValueView::String(x), ValueView::String(y)) => x == y,
        (ValueView::Float(x), ValueView::Float(y)) => floats_equal(x, y),
        (ValueView::Int(x), ValueView::Int(y)) => x == y,
        (ValueView::Bool(x), ValueView::Bool(y)) => x == y,
        (ValueView::Symbol(x), ValueView::Symbol(y)) => x == y,
        (ValueView::ForeignFn(x), ValueView::ForeignFn(y)) => x.name == y.name && x.function
            == y.function,
        (ValueView::Lambda(p, m), ValueView::Lambda(q, n)) => p.id == q.id && p.environment
            == q.environment && m == n,
        (ValueView::Table(x), ValueView::Table(y)) => x.len() == y.len() && forall|i: int|
            0 <= i < x.len() ==> entry_found(#[trigger] x[i], y, y.len() as int),
        (ValueView::UserData(x), ValueView::UserData(y)) => x == y,
        (ValueView::Option(x), ValueView::Option(y)) => match (x, y) {
            (Some(v), Some(w)) => values_equal(*v, *w),
            (None, None) => true,
            _ => false,
        },
        _ => false,
    }
}

/// Whether one of the first `upto` entries of `entries` has a key and a value
/// equal to those of `entry`.
pub open spec fn entry_found(
    entry: (ValueView, ValueView),
    entries: Seq<(ValueView, ValueView)>,
    upto: int,
) -> bool
    decreases entry, upto,
{
    if upto <= 0 || upto > entries.len() {
        false
    } else {
        (values_equal(entry.0, entries[upto - 1].0) && values_equal(entry.1, entries[upto - 1].1))
            || entry_found(entry, entries, upto - 1)
    }
}

/// Whether two values are equal.
pub fn equal_values(a: &Value, b: &Value) -> (r: bool)
    ensures
        r == values_equal(a@, b@),
    decreases a,
{
    match (a, b) {
        (Value::List(x), Value::List(y)) => {
            if x.len() != y.len() {
                return false;
            }
            let ghost xs = a@->List_0;
            let ghost ys = b@->List_0;
            let mut i: usize = 0;
            while i < x.len()
                invariant
                    i <= x.len() == y.len(),
                    *a == Value::List(*x),
                    a@ == ValueView::List(xs),
                    b@ == ValueView::List(ys),
                    xs.len() == x.len(),
                    ys.len() == y.len(),
                    forall|k: int| 0 <= k < x.len() ==> #[trigger] xs[k] == x@[k]@,
                    forall|k: int| 0 <= k < y.len() ==> #[trigger] ys[k] == y@[k]@,
                    forall|k: int| 0 <= k < i ==> values_equal(#[trigger] xs[k], ys[k]),
                decreases x.len() - i,
            {
                assert(xs[i as int] == x@[i as int]@);
                if !equal_values(&x[i], &y[i]) {
                    return false;
                }
                i += 1;
            }
            true
        },
        (Value::String(x), Value::String(y)) => **x == **y,
        (Value::Float(x), Value::Float(y)) => float_bits_equal(*x, *y),
        (Value::Int(x), Value::Int(y)) => *x == *y,
        (Value::Bool(x), Value::Bool(y)) => *x == *y,
        (Value::Symbol(x), Value::Symbol(y)) => *x == *y,
        (Value::ForeignFn(x), Value::ForeignFn(y)) => *x.name == *y.name && x.function
            == y.function,
        (Value::Lambda(p, m), Value::Lambda(q, n)) => p.id == q.id && p.environment
            == q.environment && *m == *n,
        (Value::Table(x), Value::Table(y)) => {
            if x.len() != y.len() {
                return false;
            }
            let ghost xs = a@->Table_0;
            let ghost ys = b@->Table_0;
            let mut i: usize = 0;
            while i < x.len()
                invariant
                    i <= x.len() == y.len(),
                    *a == Value::Table(*x),
                    a@ == ValueView::Table(xs),
                    b@ == ValueView::Table(ys),
                    xs.len() == x.len(),
                    ys.len() == y.len(),
                    forall|k: int|
                        0 <= k < x.len() ==> #[trigger] xs[k] == (x@[k].0@, x@[k].1@),
                    forall|k: int|
                        0 <= k < y.len() ==> #[trigger] ys[k] == (y@[k].0@, y@[k].1@),
                    forall|k: int|
                        0 <= k < i ==> entry_found(#[trigger] xs[k], ys, ys.len() as int),
                decreases x.len() - i,
            {
                let mut found = false;
                let mut j: usize = y.len();
                while j > 0 && !found
                    invariant
                        i < x.len() == y.len(),
                        j <= y.len(),
                        *a == Value::Table(*x),
                        a@ == ValueView::Table(xs),
                        xs.len() == x.len(),
                        ys.len() == y.len(),
                        xs[i as int] == (x@[i as int].0@, x@[i as int].1@),
                        forall|k: int|
                            0 <= k < y.len() ==> #[trigger] ys[k] == (y@[k].0@, y@[k].1@),
                        found ==> entry_found(xs[i as int], ys, ys.len() as int),
                        !found ==> entry_found(xs[i as int], ys, ys.len() as int) == entry_found(
                            xs[i as int],
                            ys,
                            j as int,
                        ),
                    decreases j,
                {
                    j -= 1;
                    assert(ys[j as int] == (y@[j as int].0@, y@[j as int].1@));
                    if equal_values(&x[i].0, &y[j].0) && equal_values(&x[i].1, &y[j].1) {
                        found = true;
                    }
                }
                if !found {
                    return false;
                }
                i += 1;
            }
            true
        },
        (Value::UserData(x), Value::UserData(y)) => *x == *y,
        (Value::Option(x), Value::Option(y)) => match (x, y) {
            (Some(v), Some(w)) => equal_values(v, w),
            (None, None) => true,
            _ => false,
        },
        _ => false,
    }
}

impl PartialEq for Value {
    fn eq(&self, other: &Value) -> (r: bool) {
        equal_values(self, other)
    }
}

impl PartialEqSpecImpl for Value {
    open spec fn obeys_eq_spec() -> bool {
        true
    }

    open spec fn eq_spec(&self, other: &Value) -> bool {
        values_equal(self@, other@)
    }
}

} // verus!
