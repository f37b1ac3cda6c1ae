//! What a text writes: the grammar, as functions from characters to values.

use vstd::prelude::*;
use crate::eval::semantics::table_of;
use crate::intern::{Symbol, symbol_named};
use crate::parse::errors::ParseErrorView;
use crate::parse::tokens::{
    Lexed,
    Open,
    Position,
    TokenTypeView,
    TokenView,
    closer_of,
    form_name_of,
    lex,
};
use crate::parse::util::{is_hash_key, is_immediate, unquoted};
use crate::text::int_of_numeral;
use crate::value::ValueView;

verus! {

/// The symbol for `text` and the table of symbols that has it: the symbol
/// that carries the name already, or a new one if an id is left.
pub open spec fn interned(names: Seq<Option<Seq<char>>>, text: Seq<char>) -> Result<
    (Symbol, Seq<Option<Seq<char>>>),
    ParseErrorView,
> {
    match symbol_named(names, text) {
        Some(symbol) => Ok((symbol, names)),
        None => if names.len() < u32::MAX {
            Ok((Symbol(names.len() as u32), names.push(Some(text))))
        } else {
            Err(ParseErrorView::ConversionError(text, "no symbol is left"@))
        },
    }
}

/// What is read from a text.
pub enum Parsed {
    /// A value, the index after it, and the symbols with those of the value.
    Value(ValueView, int, Seq<Option<Seq<char>>>),
    /// No value: the text holds no further token.
    Nothing(int),
    Error(ParseErrorView),
    /// As the embedder decides: the text holds a numeral that writes no
    /// integer.
    Host,
}

/// What is read from the inside of a form.
pub enum Delimited {
    /// The values up to the closing delimiter, the index after it, and the
    /// symbols with those of the values.
    Values(Seq<ValueView>, int, Seq<Option<Seq<char>>>),
    Error(ParseErrorView),
    Host,
}

/// Whether each of the first `n` values stands for itself in a literal.
pub open spec fn all_immediate(values: Seq<ValueView>, quote: Option<Symbol>, n: int) -> bool
    decreases n,
{
    if n <= 0 || n > values.len() {
        true
    } else {
        all_immediate(values, quote, n - 1) && is_immediate(values[n - 1], quote)
    }
}

/// Whether, of the first `n` values, each one at an even place can be a key
/// of a map literal.
pub open spec fn all_keys(values: Seq<ValueView>, quote: Option<Symbol>, n: int) -> bool
    decreases n,
{
    if n <= 0 || n > values.len() {
        true
    } else {
        all_keys(values, quote, n - 1) && ((n - 1) % 2 == 0 ==> is_hash_key(values[n - 1], quote))
    }
}

/// The list of `head` and then `items`.
pub open spec fn headed(head: Symbol, items: Seq<ValueView>) -> ValueView {
    ValueView::List(seq![ValueView::Symbol(head)] + items)
}

/// The list of `items`, headed by the symbol for `name`.
pub open spec fn named_form(
    name: Seq<char>,
    items: Seq<ValueView>,
    next: int,
    names: Seq<Option<Seq<char>>>,
) -> Parsed {
    match interned(names, name) {
        Ok((symbol, after)) => Parsed::Value(headed(symbol, items), next, after),
        Err(e) => Parsed::Error(e),
    }
}

/// What each value of a literal stands for.
pub open spec fn all_unquoted(values: Seq<ValueView>) -> Seq<ValueView> {
    values.map_values(|v: ValueView| unquoted(v))
}

/// The value of a form that holds `values`: a call in parentheses; in
/// brackets a list, which is quoted if each value stands for itself; in
/// braces a map, which is its own value if each key and value stands for
/// itself, and a call of `hash-map` otherwise.
pub open spec fn form_value(
    open: Open,
    values: Seq<ValueView>,
    start: Position,
    next: int,
    names: Seq<Option<Seq<char>>>,
) -> Parsed {
    let quote = symbol_named(names, "quote"@);
    match open {
        Open::LParen => Parsed::Value(ValueView::List(values), next, names),
        Open::LBracket => if all_immediate(values, quote, values.len() as int) {
            named_form("quote"@, seq![ValueView::List(all_unquoted(values))], next, names)
        } else {
            named_form("list"@, values, next, names)
        },
        Open::LBrace => if values.len() % 2 == 1 {
            Parsed::Error(ParseErrorView::InvalidMapLiteral(start))
        } else if all_immediate(values, quote, values.len() as int) {
            if all_keys(values, quote, values.len() as int) {
                Parsed::Value(
                    ValueView::Table(table_of(all_unquoted(values), values.len() as int / 2)),
                    next,
                    names,
                )
            } else {
                Parsed::Error(ParseErrorView::InvalidMapLiteral(start))
            }
        } else {
            named_form("hash-map"@, values, next, names)
        },
    }
}

/// The value that the token `tok` begins; `i` is the index after the token.
/// A numeral is an integer if it writes one; `true` and `false` are truth
/// values and every other symbol is interned; a prefix makes a list of the
/// name of its form and the value after it.
pub open spec fn expr(s: Seq<char>, tok: TokenView, i: int, names: Seq<Option<Seq<char>>>) -> Parsed
    decreases s.len() - i, 1nat,
{
    match tok.tt {
        TokenTypeView::Number(text) => match int_of_numeral(text) {
            Some(n) => Parsed::Value(ValueView::Int(n), i, names),
            None => Parsed::Host,
        },
        TokenTypeView::Symbol(text) => if text == "true"@ {
            Parsed::Value(ValueView::Bool(true), i, names)
        } else if text == "false"@ {
            Parsed::Value(ValueView::Bool(false), i, names)
        } else {
            match interned(names, text) {
                Ok((symbol, after)) => Parsed::Value(ValueView::Symbol(symbol), i, after),
                Err(e) => Parsed::Error(e),
            }
        },
        TokenTypeView::String(text) => Parsed::Value(ValueView::String(text), i, names),
        TokenTypeView::FormLike(form) => match next_expr(s, i, names) {
            Parsed::Value(v, next, after) => named_form(form_name_of(form), seq![v], next, after),
            Parsed::Nothing(next) => named_form(form_name_of(form), Seq::empty(), next, names),
            other => other,
        },
        TokenTypeView::Close(close) => Parsed::Error(
            ParseErrorView::ExtraRightDelimiter(close, tok.start),
        ),
        TokenTypeView::Open(open) => match delimited(s, i, open, names, Seq::empty()) {
            Delimited::Values(values, next, after) => form_value(
                open,
                values,
                tok.start,
                next,
                after,
            ),
            Delimited::Error(e) => Parsed::Error(e),
            Delimited::Host => Parsed::Host,
        },
    }
}

/// The next value of the text from the index `i` on.
pub open spec fn next_expr(s: Seq<char>, i: int, names: Seq<Option<Seq<char>>>) -> Parsed
    decreases s.len() - i, 0nat,
{
    match lex(s, i) {
        Lexed::Done(next) => Parsed::Nothing(next),
        Lexed::Error(e, _) => Parsed::Error(e),
        Lexed::Token(tok, next) => if 0 <= i < next <= s.len() {
            expr(s, tok, next, names)
        } else {
            Parsed::Host
        },
    }
}

/// The values from the index `i` on, after the values `acc`, up to the
/// delimiter that closes what `opener` opened.
pub open spec fn delimited(
    s: Seq<char>,
    i: int,
    opener: Open,
    names: Seq<Option<Seq<char>>>,
    acc: Seq<ValueView>,
) -> Delimited
    decreases s.len() - i, 0nat,
{
    match lex(s, i) {
        Lexed::Done(_) => Delimited::Error(
            ParseErrorView::MissingRightDelimiter(closer_of(opener)),
        ),
        Lexed::Error(e, _) => Delimited::Error(e),
        Lexed::Token(tok, next) => if 0 <= i < next <= s.len() {
            match tok.tt {
                TokenTypeView::Close(close) => if close == closer_of(opener) {
                    Delimited::Values(acc, next, names)
                } else {
                    Delimited::Error(
                        ParseErrorView::ExtraRightDelimiter(closer_of(opener), tok.start),
                    )
                },
                _ => match expr(s, tok, next, names) {
                    Parsed::Value(v, after, grown) => if next <= after <= s.len() {
                        delimited(s, after, opener, grown, acc.push(v))
                    } else {
                        Delimited::Host
                    },
                    Parsed::Nothing(_) => Delimited::Host,
                    Parsed::Error(e) => Delimited::Error(e),
                    Parsed::Host => Delimited::Host,
                },
            }
        } else {
            Delimited::Host
        },
    }
}

/// What a whole text writes.
pub enum Program {
    /// The values of its forms, and the symbols with those of the values.
    Values(Seq<ValueView>, Seq<Option<Seq<char>>>),
    Error(ParseErrorView),
    Host,
}

/// The values of the forms from the index `i` on, after the values `acc`.
pub open spec fn forms(s: Seq<char>, i: int, names: Seq<Option<Seq<char>>>, acc: Seq<ValueView>)
    -> Program
    decreases s.len() - i,
{
    match next_expr(s, i, names) {
        Parsed::Value(v, next, after) => if 0 <= i < next <= s.len() {
            forms(s, next, after, acc.push(v))
        } else {
            Program::Host
        },
        Parsed::Nothing(_) => Program::Values(acc, names),
        Parsed::Error(e) => Program::Error(e),
        Parsed::Host => Program::Host,
    }
}

/// The error for a text that is too long to be read.
pub open spec fn too_long() -> ParseErrorView {
    ParseErrorView::ConversionError("the text"@, "it is too long"@)
}

/// What the text `s` writes. A text of more characters than a position can
/// count is not read.
pub open spec fn program_of(s: Seq<char>, names: Seq<Option<Seq<char>>>) -> Program {
    if s.len() >= usize::MAX - 1 {
        Program::Error(too_long())
    } else {
        forms(s, 0, names, Seq::empty())
    }
}

} // verus!
