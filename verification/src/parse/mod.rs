//! From source text to values.

pub mod errors;
pub mod grammar;
pub mod tokens;
pub mod util;

use vstd::prelude::*;
use std::rc::Rc;
use crate::eval::foreign_function::State;
use crate::eval::semantics::table_of;
use crate::intern::{Symbol, SymbolIntern, grown, lemma_grown_twice, symbol_named};
use crate::parse::errors::{ParseError, ParseErrorView};
use crate::parse::grammar::{Delimited, Parsed, Program, all_unquoted, interned};
use crate::parse::tokens::{CharIndicesPos, Open, Position, Token, TokenIter, TokenType};
use crate::stdlib::map::table_from_items;
use crate::text::{chars_of, parse_i64, same_text};
use crate::value::{
    Value,
    ValueView,
    all_source,
    all_source_entries,
    is_source,
    lemma_all_source,
    lemma_all_source_from,
    lemma_table_view,
    views,
};

verus! {

/// Whether a value that was read, with the index reached and the symbols
/// then, is what `p` describes.
pub open spec fn is_parsed(
    r: Result<Option<Value>, ParseError>,
    index: int,
    names: Seq<Option<Seq<char>>>,
    before: Seq<Option<Seq<char>>>,
    p: Parsed,
) -> bool {
    match p {
        Parsed::Value(v, next, after) => (match r {
            Ok(Some(value)) => value@ == v,
            _ => false,
        }) && index == next && names == after,
        Parsed::Nothing(next) => (match r {
            Ok(None) => true,
            _ => false,
        }) && index == next && names == before,
        Parsed::Error(e) => match r {
            Err(error) => error@ == e,
            _ => false,
        },
        Parsed::Host => true,
    }
}

/// Whether a value that a token began, with the index reached and the
/// symbols then, is what `p` describes.
pub open spec fn is_value(
    r: Result<Value, ParseError>,
    index: int,
    names: Seq<Option<Seq<char>>>,
    p: Parsed,
) -> bool {
    match p {
        Parsed::Value(v, next, after) => (match r {
            Ok(value) => value@ == v,
            _ => false,
        }) && index == next && names == after,
        Parsed::Nothing(_) => false,
        Parsed::Error(e) => match r {
            Err(error) => error@ == e,
            _ => false,
        },
        Parsed::Host => true,
    }
}

/// Whether the values of the inside of a form, with the index reached and
/// the symbols then, are what `d` describes.
pub open spec fn is_delimited(
    r: Result<Vec<Value>, ParseError>,
    index: int,
    names: Seq<Option<Seq<char>>>,
    d: Delimited,
) -> bool {
    match d {
        Delimited::Values(vs, next, after) => (match r {
            Ok(values) => views(values@) == vs,
            _ => false,
        }) && index == next && names == after,
        Delimited::Error(e) => match r {
            Err(error) => error@ == e,
            _ => false,
        },
        Delimited::Host => true,
    }
}

/// Whether the values of a text, with the symbols after it was read, are
/// what `p` describes.
pub open spec fn is_program(
    r: Result<Vec<Value>, ParseError>,
    names: Seq<Option<Seq<char>>>,
    p: Program,
) -> bool {
    match p {
        Program::Values(vs, after) => (match r {
            Ok(values) => views(values@) == vs,
            _ => false,
        }) && names == after,
        Program::Error(e) => match r {
            Err(error) => error@ == e,
            _ => false,
        },
        Program::Host => true,
    }
}

/// What a numeral that writes no integer is read as, once the embedder has
/// said which floating-point number it stands for, if any.
pub open spec fn numeral_read(text: Seq<char>, read: Option<u64>) -> Result<
    ValueView,
    ParseErrorView,
> {
    match read {
        Some(bits) => Ok(ValueView::Float(bits)),
        None => Err(ParseErrorView::ConversionError(text, "invalid float literal"@)),
    }
}

/// The value of the numeral `text`, which writes no integer, once the
/// embedder has read it: the floating-point number, or the error that the
/// numeral stands for none.
pub fn float_from_read(text: String, read: Option<u64>) -> (r: Result<Value, ParseError>)
    ensures
        match numeral_read(text@, read) {
            Ok(v) => r.is_ok() && r->Ok_0@ == v,
            Err(e) => r.is_err() && r->Err_0@ == e,
        },
{
    match read {
        Some(bits) => Ok(Value::Float(bits)),
        None => Err(ParseError::ConversionError(text, "invalid float literal".to_owned())),
    }
}

/// The symbol for `name`, if there is one already or room for a new one.
fn intern_checked(interner: &mut SymbolIntern, name: &str) -> (r: Result<Symbol, ParseError>)
    requires
        old(interner).wf(),
    ensures
        final(interner).wf(),
        grown(old(interner)@, final(interner)@),
        match interned(old(interner)@, name@) {
            Ok((symbol, after)) => r == Ok::<Symbol, ParseError>(symbol) && final(interner)@
                == after,
            Err(e) => r.is_err() && r->Err_0@ == e && final(interner)@ == old(interner)@,
        },
{
    if interner.contains(name) || interner.len() < u32::MAX {
        Ok(interner.intern(name))
    } else {
        Err(ParseError::ConversionError(name.to_owned(), "no symbol is left".to_owned()))
    }
}

/// The list of `items`.
fn source_list(items: Vec<Value>) -> (r: Value)
    requires
        all_source(views(items@), items@.len()),
    ensures
        is_source(r@),
        r@ == ValueView::List(views(items@)),
{
    Value::list(items)
}

/// The list of `head` and then `items`.
fn headed(head: Symbol, items: Vec<Value>) -> (r: Value)
    requires
        all_source(views(items@), items@.len()),
    ensures
        is_source(r@),
        r@ == grammar::headed(head, views(items@)),
{
    let mut all: Vec<Value> = Vec::new();
    all.push(Value::Symbol(head));
    let mut i: usize = 0;
    assert(views(all@) =~= seq![ValueView::Symbol(head)] + views(items@).take(0));
    while i < items.len()
        invariant
            i <= items.len(),
            all@.len() == i + 1,
            all_source(views(items@), items@.len()),
            views(all@) == seq![ValueView::Symbol(head)] + views(items@).take(i as int),
            forall|k: int| 0 <= k < all@.len() ==> is_source(#[trigger] views(all@)[k]),
        decreases items.len() - i,
    {
        proof {
            lemma_all_source(views(items@), items@.len(), i as int);
        }
        let ghost before = all@;
        all.push(items[i].clone());
        proof {
            assert forall|k: int| 0 <= k < all@.len() implies is_source(
                #[trigger] views(all@)[k],
            ) by {
                if k < before.len() {
                    assert(views(all@)[k] == views(before)[k]);
                }
            }
            crate::eval::lemma_views_push(before, items@[i as int]);
            assert(views(items@).take(i + 1) =~= views(items@).take(i as int).push(
                items@[i as int]@,
            ));
            assert(views(all@) =~= seq![ValueView::Symbol(head)] + views(items@).take(i + 1));
        }
        i += 1;
    }
    proof {
        lemma_all_source_from(views(all@), all@.len());
        assert(views(items@).take(items@.len() as int) =~= views(items@));
    }
    source_list(all)
}

/// The list of `items`, headed by the symbol for `name`.
fn named_form(name: &str, items: Vec<Value>, interner: &mut SymbolIntern, Ghost(next): Ghost<int>) -> (r:
    Result<Value, ParseError>)
    requires
        old(interner).wf(),
        all_source(views(items@), items@.len()),
    ensures
        final(interner).wf(),
        grown(old(interner)@, final(interner)@),
        r.is_ok() ==> is_source(r->Ok_0@),
        is_value(
            r,
            next,
            final(interner)@,
            grammar::named_form(name@, views(items@), next, old(interner)@),
        ),
{
    match intern_checked(interner, name) {
        Ok(symbol) => Ok(headed(symbol, items)),
        Err(e) => Err(e),
    }
}

/// What each value of a literal stands for.
fn unquote_all(values: Vec<Value>) -> (r: Vec<Value>)
    requires
        all_source(views(values@), values@.len()),
    ensures
        all_source(views(r@), r@.len()),
        views(r@) == all_unquoted(views(values@)),
{
    let mut out: Vec<Value> = Vec::new();
    let mut i: usize = 0;
    while i < values.len()
        invariant
            i <= values.len(),
            out@.len() == i,
            all_source(views(values@), values@.len()),
            forall|k: int| 0 <= k < out@.len() ==> is_source(#[trigger] views(out@)[k]),
            forall|k: int|
                0 <= k < out@.len() ==> #[trigger] views(out@)[k] == util::unquoted(
                    views(values@)[k],
                ),
        decreases values.len() - i,
    {
        proof {
            lemma_all_source(views(values@), values@.len(), i as int);
        }
        let v = util::unquote(values[i].clone());
        proof {
            let quoted = values@[i as int]@;
            match quoted {
                ValueView::List(items) => {
                    if items.len() >= 2 {
                        lemma_all_source(items, items.len(), 1);
                    }
                },
                _ => {},
            }
        }
        let ghost before = out@;
        out.push(v);
        proof {
            assert forall|k: int| 0 <= k < out@.len() implies is_source(#[trigger] views(out@)[k])
                && views(out@)[k] == util::unquoted(views(values@)[k]) by {
                if k < before.len() {
                    assert(views(out@)[k] == views(before)[k]);
                }
            }
        }
        i += 1;
    }
    proof {
        lemma_all_source_from(views(out@), out@.len());
        assert(views(out@) =~= all_unquoted(views(values@)));
    }
    out
}

/// Whether all the values stand for themselves.
fn all_immediate(values: &Vec<Value>, interner: &SymbolIntern) -> (r: bool)
    requires
        interner.wf(),
    ensures
        r == grammar::all_immediate(
            views(values@),
            symbol_named(interner@, "quote"@),
            values@.len() as int,
        ),
{
    let ghost all = views(values@);
    let ghost quote = symbol_named(interner@, "quote"@);
    let mut ok = true;
    let mut i: usize = 0;
    while i < values.len()
        invariant
            i <= values.len(),
            interner.wf(),
            all == views(values@),
            quote == symbol_named(interner@, "quote"@),
            ok == grammar::all_immediate(all, quote, i as int),
        decreases values.len() - i,
    {
        assert(all[i as int] == values@[i as int]@);
        if !util::immediate_value(&values[i], interner) {
            ok = false;
        }
        i += 1;
    }
    ok
}

/// Whether each value at an even place can be a key of a map literal.
fn all_keys(values: &Vec<Value>, interner: &SymbolIntern) -> (r: bool)
    requires
        interner.wf(),
    ensures
        r == grammar::all_keys(
            views(values@),
            symbol_named(interner@, "quote"@),
            values@.len() as int,
        ),
{
    let ghost all = views(values@);
    let ghost quote = symbol_named(interner@, "quote"@);
    let mut ok = true;
    let mut i: usize = 0;
    while i < values.len()
        invariant
            i <= values.len(),
            interner.wf(),
            all == views(values@),
            quote == symbol_named(interner@, "quote"@),
            ok == grammar::all_keys(all, quote, i as int),
        decreases values.len() - i,
    {
        assert(all[i as int] == values@[i as int]@);
        if i % 2 == 0 && !util::can_be_hash_key(&values[i], interner) {
            ok = false;
        }
        i += 1;
    }
    ok
}

proof fn lemma_source_entries_each(entries: Seq<(ValueView, ValueView)>, n: nat, i: int)
    requires
        all_source_entries(entries, n),
        0 <= i < n <= entries.len(),
    ensures
        is_source(entries[i].0),
        is_source(entries[i].1),
    decreases n,
{
    if i < n - 1 {
        lemma_source_entries_each(entries, (n - 1) as nat, i);
    }
}

proof fn lemma_source_entries_from(entries: Seq<(ValueView, ValueView)>, n: nat)
    requires
        n <= entries.len(),
        forall|i: int|
            0 <= i < n ==> is_source((#[trigger] entries[i]).0) && is_source(entries[i].1),
    ensures
        all_source_entries(entries, n),
    decreases n,
{
    if n > 0 {
        lemma_source_entries_from(entries, (n - 1) as nat);
    }
}

proof fn lemma_key_index_bounds(entries: Seq<(ValueView, ValueView)>, key: ValueView, from: int)
    requires
        0 <= from <= entries.len(),
    ensures
        from <= crate::eval::semantics::key_index(entries, key, from) <= entries.len(),
    decreases entries.len() - from,
{
    if from < entries.len() && !crate::equality::values_equal(entries[from].0, key) {
        lemma_key_index_bounds(entries, key, from + 1);
    }
}

proof fn lemma_entries_after_insert(
    entries: Seq<(ValueView, ValueView)>,
    key: ValueView,
    value: ValueView,
)
    requires
        all_source_entries(entries, entries.len()),
        is_source(key),
        is_source(value),
    ensures
        all_source_entries(
            crate::eval::semantics::table_insert(entries, key, value),
            crate::eval::semantics::table_insert(entries, key, value).len(),
        ),
{
    let after = crate::eval::semantics::table_insert(entries, key, value);
    let at = crate::eval::semantics::key_index(entries, key, 0);
    lemma_key_index_bounds(entries, key, 0);
    assert forall|i: int| 0 <= i < after.len() implies is_source((#[trigger] after[i]).0)
        && is_source(after[i].1) by {
        if i < entries.len() {
            lemma_source_entries_each(entries, entries.len(), i);
        }
        if at < entries.len() {
            if i == at {
                assert(after[i] == (entries[i].0, value));
            } else {
                assert(after[i] == entries[i]);
            }
        } else {
            if i < entries.len() {
                assert(after[i] == entries[i]);
            } else {
                assert(after[i] == (key, value));
            }
        }
    }
    lemma_source_entries_from(after, after.len());
}

/// A map of values of source text is a value of source text.
proof fn lemma_table_of_source(items: Seq<ValueView>, n: int)
    requires
        all_source(items, items.len()),
        0 <= n,
    ensures
        all_source_entries(table_of(items, n), table_of(items, n).len()),
    decreases n,
{
    if n > 0 && 2 * n <= items.len() {
        lemma_table_of_source(items, n - 1);
        lemma_all_source(items, items.len(), 2 * n - 2);
        lemma_all_source(items, items.len(), 2 * n - 1);
        lemma_entries_after_insert(table_of(items, n - 1), items[2 * n - 2], items[2 * n - 1]);
    }
}

/// The map of the keys and values that stand in turn in `values`.
fn source_table(values: Vec<Value>) -> (r: Value)
    requires
        all_source(views(values@), values@.len()),
    ensures
        is_source(r@),
        r@ == ValueView::Table(table_of(views(values@), values@.len() as int / 2)),
{
    let table = Rc::new(table_from_items(&values));
    proof {
        lemma_table_view(table);
        lemma_table_of_source(views(values@), values@.len() as int / 2);
    }
    Value::Table(table)
}

/// The value of a form that `open` opened at `start` and that holds
/// `values`.
fn form_value(
    open: Open,
    values: Vec<Value>,
    start: Position,
    interner: &mut SymbolIntern,
    Ghost(next): Ghost<int>,
) -> (r: Result<Value, ParseError>)
    requires
        old(interner).wf(),
        all_source(views(values@), values@.len()),
    ensures
        final(interner).wf(),
        grown(old(interner)@, final(interner)@),
        r.is_ok() ==> is_source(r->Ok_0@),
        is_value(
            r,
            next,
            final(interner)@,
            grammar::form_value(open, views(values@), start, next, old(interner)@),
        ),
{
    match open {
        Open::LParen => Ok(source_list(values)),
        Open::LBracket => {
            if all_immediate(&values, interner) {
                let mut items: Vec<Value> = Vec::new();
                items.push(source_list(unquote_all(values)));
                proof {
                    lemma_all_source_from(views(items@), 1);
                    assert(views(items@) =~= seq![
                        ValueView::List(all_unquoted(views(values@))),
                    ]);
                }
                named_form("quote", items, interner, Ghost(next))
            } else {
                named_form("list", values, interner, Ghost(next))
            }
        },
        Open::LBrace => {
            if values.len() % 2 == 1 {
                return Err(ParseError::InvalidMapLiteral(start));
            }
            if all_immediate(&values, interner) {
                if all_keys(&values, interner) {
                    Ok(source_table(unquote_all(values)))
                } else {
                    Err(ParseError::InvalidMapLiteral(start))
                }
            } else {
                named_form("hash-map", values, interner, Ghost(next))
            }
        },
    }
}

/// The value that the token `tok`, which was read off `tok_stream`, begins.
pub fn one_expr<S: State>(
    tok: Token,
    tok_stream: &mut TokenIter,
    interner: &mut SymbolIntern,
    state: &S,
) -> (r: Result<Value, ParseError>)
    requires
        old(tok_stream).wf(),
        old(tok_stream).index() <= old(tok_stream).input().len(),
        old(interner).wf(),
    ensures
        final(tok_stream).wf(),
        final(tok_stream).input() == old(tok_stream).input(),
        old(tok_stream).index() <= final(tok_stream).index() <= old(tok_stream).input().len(),
        final(interner).wf(),
        grown(old(interner)@, final(interner)@),
        r.is_ok() ==> is_source(r->Ok_0@),
        is_value(
            r,
            final(tok_stream).index(),
            final(interner)@,
            grammar::expr(old(tok_stream).input(), tok@, old(tok_stream).index(), old(interner)@),
        ),
    decreases old(tok_stream).input().len() - old(tok_stream).index(), 1nat,
{
    let Token { tt, start, end } = tok;
    match tt {
        TokenType::Number(s) => {
            let chars = chars_of(s.as_str());
            match parse_i64(&chars) {
                Some(i) => Ok(Value::Int(i)),
                None => {
                    let read = state.read_float(s.as_str());
                    float_from_read(s, read)
                },
            }
        },
        TokenType::Symbol(s) => {
            if same_text(s.as_str(), "true") {
                Ok(Value::Bool(true))
            } else if same_text(s.as_str(), "false") {
                Ok(Value::Bool(false))
            } else {
                match intern_checked(interner, s.as_str()) {
                    Ok(symbol) => Ok(Value::Symbol(symbol)),
                    Err(e) => Err(e),
                }
            }
        },
        TokenType::String(s) => Ok(Value::String(Rc::new(s))),
        TokenType::FormLike(fl) => {
            let quoted = match parse_one_expr(tok_stream, interner, state) {
                Ok(q) => q,
                Err(e) => {
                    return Err(e);
                },
            };
            let ghost middle = interner@;
            let mut items: Vec<Value> = Vec::new();
            match quoted {
                Some(v) => {
                    items.push(v);
                    proof {
                        lemma_all_source_from(views(items@), 1);
                        assert(views(items@) =~= seq![v@]);
                    }
                },
                None => {
                    assert(views(items@) =~= Seq::empty());
                },
            }
            let r = named_form(fl.form_name(), items, interner, Ghost(tok_stream.index()));
            proof {
                lemma_grown_twice(old(interner)@, middle, interner@);
            }
            r
        },
        TokenType::Close(close) => Err(ParseError::ExtraRightDelimiter(close, start)),
        TokenType::Open(open) => {
            let values = match parse_delimited(tok_stream, open, interner, state) {
                Ok(v) => v,
                Err(e) => {
                    return Err(e);
                },
            };
            let ghost middle = interner@;
            let r = form_value(open, values, start, interner, Ghost(tok_stream.index()));
            proof {
                lemma_grown_twice(old(interner)@, middle, interner@);
            }
            r
        },
    }
}

/// The next value of the text, if there is one.
pub fn parse_one_expr<S: State>(tok_stream: &mut TokenIter, interner: &mut SymbolIntern, state: &S)
    -> (r: Result<Option<Value>, ParseError>)
    requires
        old(tok_stream).wf(),
        old(tok_stream).index() <= old(tok_stream).input().len(),
        old(interner).wf(),
    ensures
        final(tok_stream).wf(),
        final(tok_stream).input() == old(tok_stream).input(),
        old(tok_stream).index() <= final(tok_stream).index() <= old(tok_stream).input().len(),
        final(interner).wf(),
        grown(old(interner)@, final(interner)@),
        match r {
            Ok(Some(v)) => is_source(v@) && old(tok_stream).index() < final(tok_stream).index(),
            _ => true,
        },
        is_parsed(
            r,
            final(tok_stream).index(),
            final(interner)@,
            old(interner)@,
            grammar::next_expr(old(tok_stream).input(), old(tok_stream).index(), old(interner)@),
        ),
    decreases old(tok_stream).input().len() - old(tok_stream).index(), 0nat,
{
    match tok_stream.next() {
        Some(tok) => match tok {
            Ok(tok) => match one_expr(tok, tok_stream, interner, state) {
                Ok(v) => Ok(Some(v)),
                Err(e) => Err(e),
            },
            Err(e) => Err(e),
        },
        None => Ok(None),
    }
}

/// The values up to the delimiter that closes what `opener` opened.
pub fn parse_delimited<S: State>(
    tok_stream: &mut TokenIter,
    opener: Open,
    interner: &mut SymbolIntern,
    state: &S,
) -> (r: Result<Vec<Value>, ParseError>)
    requires
        old(tok_stream).wf(),
        old(tok_stream).index() <= old(tok_stream).input().len(),
        old(interner).wf(),
    ensures
        final(tok_stream).wf(),
        final(tok_stream).input() == old(tok_stream).input(),
        old(tok_stream).index() <= final(tok_stream).index() <= old(tok_stream).input().len(),
        final(interner).wf(),
        grown(old(interner)@, final(interner)@),
        r.is_ok() ==> all_source(views(r->Ok_0@), r->Ok_0@.len()),
        is_delimited(
            r,
            final(tok_stream).index(),
            final(interner)@,
            grammar::delimited(
                old(tok_stream).input(),
                old(tok_stream).index(),
                opener,
                old(interner)@,
                Seq::empty(),
            ),
        ),
    decreases old(tok_stream).input().len() - old(tok_stream).index(), 0nat,
{
    let ghost s = tok_stream.input();
    let ghost goal = grammar::delimited(s, tok_stream.index(), opener, interner@, Seq::empty());
    let mut v: Vec<Value> = Vec::new();
    assert(views(v@) =~= Seq::empty());
    loop
        invariant
            tok_stream.wf(),
            tok_stream.input() == old(tok_stream).input(),
            s == tok_stream.input(),
            old(tok_stream).index() <= tok_stream.index() <= tok_stream.input().len(),
            interner.wf(),
            grown(old(interner)@, interner@),
            forall|k: int| 0 <= k < v@.len() ==> is_source(#[trigger] views(v@)[k]),
            goal == grammar::delimited(
                s,
                old(tok_stream).index(),
                opener,
                old(interner)@,
                Seq::empty(),
            ),
            goal is Host || goal == grammar::delimited(
                s,
                tok_stream.index(),
                opener,
                interner@,
                views(v@),
            ),
        decreases tok_stream.input().len() - tok_stream.index(),
    {
        let ghost at = tok_stream.index();
        let ghost names = interner@;
        match tok_stream.next() {
            Some(tok_or_err) => {
                let tok = match tok_or_err {
                    Ok(tok) => tok,
                    Err(e) => {
                        return Err(e);
                    },
                };
                let closes = match &tok.tt {
                    TokenType::Close(close) => Some(*close),
                    _ => None,
                };
                match closes {
                    Some(close) => {
                        if close == opener.closed_by() {
                            proof {
                                lemma_all_source_from(views(v@), v@.len());
                            }
                            return Ok(v);
                        } else {
                            return Err(
                                ParseError::ExtraRightDelimiter(opener.closed_by(), tok.start),
                            );
                        }
                    },
                    None => {
                        let ghost token = tok@;
                        let ghost after_token = tok_stream.index();
                        let value = match one_expr(tok, tok_stream, interner, state) {
                            Ok(value) => value,
                            Err(e) => {
                                return Err(e);
                            },
                        };
                        let ghost before = v@;
                        proof {
                            crate::eval::lemma_views_push(v@, value);
                            lemma_grown_twice(old(interner)@, names, interner@);
                        }
                        v.push(value);
                        proof {
                            assert forall|k: int| 0 <= k < v@.len() implies is_source(
                                #[trigger] views(v@)[k],
                            ) by {
                                if k < before.len() {
                                    assert(views(v@)[k] == views(before)[k]);
                                }
                            }
                        }
                    },
                }
            },
            None => {
                return Err(ParseError::MissingRightDelimiter(opener.closed_by()));
            },
        }
    }
}

/// The values that the text `input` writes, one for each form. The symbols
/// of the text are interned in `interner`; the embedder reads the numerals
/// that write no integer.
pub fn parse<S: State>(input: &str, interner: &mut SymbolIntern, state: &S) -> (r: Result<
    Vec<Value>,
    ParseError,
>)
    requires
        old(interner).wf(),
    ensures
        final(interner).wf(),
        grown(old(interner)@, final(interner)@),
        r.is_ok() ==> all_source(views(r->Ok_0@), r->Ok_0@.len()),
        is_program(r, final(interner)@, grammar::program_of(input@, old(interner)@)),
{
    let chars = chars_of(input);
    if chars.len() >= usize::MAX - 1 {
        return Err(
            ParseError::ConversionError("the text".to_owned(), "it is too long".to_owned()),
        );
    }
    let mut tok_iter = TokenIter { iter: CharIndicesPos::new(Position(1, 0), chars) };
    let ghost s = input@;
    let ghost goal = grammar::forms(s, 0, interner@, Seq::empty());
    let mut v: Vec<Value> = Vec::new();
    assert(views(v@) =~= Seq::empty());
    loop
        invariant
            tok_iter.wf(),
            tok_iter.input() == s,
            s == input@,
            s.len() < usize::MAX - 1,
            tok_iter.index() <= tok_iter.input().len(),
            interner.wf(),
            grown(old(interner)@, interner@),
            forall|k: int| 0 <= k < v@.len() ==> is_source(#[trigger] views(v@)[k]),
            goal == grammar::forms(s, 0, old(interner)@, Seq::empty()),
            goal is Host || goal == grammar::forms(s, tok_iter.index(), interner@, views(v@)),
        decreases tok_iter.input().len() - tok_iter.index(),
    {
        let ghost names = interner@;
        match parse_one_expr(&mut tok_iter, interner, state) {
            Ok(Some(value)) => {
                let ghost before = v@;
                proof {
                    crate::eval::lemma_views_push(v@, value);
                    lemma_grown_twice(old(interner)@, names, interner@);
                }
                v.push(value);
                proof {
                    assert forall|k: int| 0 <= k < v@.len() implies is_source(
                        #[trigger] views(v@)[k],
                    ) by {
                        if k < before.len() {
                            assert(views(v@)[k] == views(before)[k]);
                        }
                    }
                }
            },
            Ok(None) => {
                proof {
                    lemma_all_source_from(views(v@), v@.len());
                }
                return Ok(v);
            },
            Err(e) => {
                return Err(e);
            },
        }
    }
}

} // verus!
