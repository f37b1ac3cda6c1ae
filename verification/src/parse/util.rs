//! What the literals for lists and maps may hold.

use vstd::prelude::*;
use crate::eval::semantics::is_symbol;
use crate::intern::{Symbol, SymbolIntern, symbol_named};
use crate::stdlib::forms::is_symbol_value;
use crate::value::{Value, ValueView, entry_views, lemma_list_view, lemma_table_view, views};

verus! {

/// Whether `v` is `(quote x)` for some `x`.
pub open spec fn is_quoted(v: ValueView, quote: Option<Symbol>) -> bool {
    match v {
        ValueView::List(items) => items.len() == 2 && is_symbol(items[0], quote),
        _ => false,
    }
}

/// Whether `v` stands for itself in a literal: it is no symbol, a list only
/// if it is quoted, and a map only of such values.
pub open spec fn is_immediate(v: ValueView, quote: Option<Symbol>) -> bool
    decreases v, 0nat,
{
    match v {
        ValueView::Table(entries) => all_immediate_entries(entries, quote, entries.len()),
        ValueView::List(_) => is_quoted(v, quote),
        ValueView::Symbol(_) => false,
        _ => true,
    }
}

/// Whether the keys and values of the first `n` entries stand for
/// themselves.
pub open spec fn all_immediate_entries(
    entries: Seq<(ValueView, ValueView)>,
    quote: Option<Symbol>,
    n: nat,
) -> bool
    decreases entries, n,
{
    if n == 0 || n > entries.len() {
        true
    } else {
        all_immediate_entries(entries, quote, (n - 1) as nat) && is_immediate(
            entries[n - 1].0,
            quote,
        ) && is_immediate(entries[n - 1].1, quote)
    }
}

/// Whether `v` stands for itself in a literal.
pub fn immediate_value(v: &Value, interner: &SymbolIntern) -> (r: bool)
    requires
        interner.wf(),
    ensures
        r == is_immediate(v@, symbol_named(interner@, "quote"@)),
    decreases v,
{
    let quote = interner.symbol_for_name("quote");
    match v {
        Value::Table(m) => {
            proof {
                lemma_table_view(*m);
            }
            let ghost all = entry_views(m@);
            let mut ok = true;
            let mut i: usize = 0;
            while i < m.len()
                invariant
                    i <= m.len(),
                    interner.wf(),
                    *v == Value::Table(*m),
                    all == entry_views(m@),
                    quote == symbol_named(interner@, "quote"@),
                    ok == all_immediate_entries(all, quote, i as nat),
                decreases m.len() - i,
            {
                assert(all[i as int] == (m@[i as int].0@, m@[i as int].1@));
                let entry = &m[i];
                assert(decreases_to!(*v => v->Table_0));
                assert(decreases_to!(v->Table_0 => v->Table_0@));
                assert(decreases_to!(v->Table_0@ => v->Table_0@[i as int]));
                let key_ok = immediate_value(&entry.0, interner);
                let value_ok = immediate_value(&entry.1, interner);
                if !(key_ok && value_ok) {
                    ok = false;
                }
                i += 1;
            }
            ok
        },
        Value::List(vec) => {
            proof {
                lemma_list_view(*vec);
            }
            if vec.len() == 2 {
                assert(views(vec@)[0] == vec@[0]@);
                is_symbol_value(&vec[0], quote)
            } else {
                false
            }
        },
        Value::Symbol(_) => false,
        _ => true,
    }
}

/// What a value of a literal stands for: what is quoted, or the value
/// itself.
pub open spec fn unquoted(v: ValueView) -> ValueView {
    match v {
        ValueView::List(items) => if items.len() >= 2 {
            items[1]
        } else {
            v
        },
        _ => v,
    }
}

/// What a value of a literal stands for.
pub fn unquote(v: Value) -> (r: Value)
    ensures
        r@ == unquoted(v@),
{
    match v {
        Value::List(vec) => {
            proof {
                lemma_list_view(vec);
            }
            if vec.len() >= 2 {
                assert(views(vec@)[1] == vec@[1]@);
                vec[1].clone()
            } else {
                Value::List(vec)
            }
        },
        v => v,
    }
}

/// Whether `v` can be a key of a map literal: no symbol, no map, and a list
/// only if it quotes what is neither a list nor a map.
pub open spec fn is_hash_key(v: ValueView, quote: Option<Symbol>) -> bool {
    match v {
        ValueView::Table(_) => false,
        ValueView::Symbol(_) => false,
        ValueView::List(items) => is_quoted(v, quote) && !(items[1] is Table) && !(items[1] is List),
        _ => true,
    }
}

/// Whether `v` can be a key of a map literal.
pub fn can_be_hash_key(v: &Value, interner: &SymbolIntern) -> (r: bool)
    requires
        interner.wf(),
    ensures
        r == is_hash_key(v@, symbol_named(interner@, "quote"@)),
{
    let quote = interner.symbol_for_name("quote");
    match v {
        Value::Table(_) => false,
        Value::Symbol(_) => false,
        Value::List(vec) => {
            proof {
                lemma_list_view(*vec);
            }
            if vec.len() == 2 {
                assert(views(vec@)[0] == vec@[0]@);
                assert(views(vec@)[1] == vec@[1]@);
                is_symbol_value(&vec[0], quote) && match &vec[1] {
                    Value::Table(_) => false,
                    Value::List(_) => false,
                    _ => true,
                }
            } else {
                false
            }
        },
        _ => true,
    }
}

} // verus!
