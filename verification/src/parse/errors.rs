//! What can go wrong while source text is turned into values.

use vstd::prelude::*;
use crate::parse::tokens::{Close, Position, close_char};
use crate::text::{decimal, push_decimal, push_text};

verus! {

/// A failure to tokenize or parse source text.
#[derive(Debug)]
pub enum ParseError {
    /// A character that cannot follow the token before it, its position, and
    /// what was being read.
    UnexpectedChar(char, Position, String),
    /// A string literal without a closing quote, by the position of its
    /// opening quote.
    UnterminatedString(Position),
    /// A numeral that stands for no number: its text, and why.
    ConversionError(String, String),
    /// An escape sequence that stands for no character: the position of its
    /// backslash, and its text.
    BadEscape(Position, String),
    /// The input ended inside a form that this delimiter would close.
    MissingRightDelimiter(Close),
    /// A closing delimiter that closes nothing, or the wrong form.
    ExtraRightDelimiter(Close, Position),
    /// A map literal with a key that has no value, or with a key that cannot
    /// be one.
    InvalidMapLiteral(Position),
}

/// A [`ParseError`] with its texts as sequences of characters.
pub enum ParseErrorView {
    UnexpectedChar(char, Position, Seq<char>),
    UnterminatedString(Position),
    ConversionError(Seq<char>, Seq<char>),
    BadEscape(Position, Seq<char>),
    MissingRightDelimiter(Close),
    ExtraRightDelimiter(Close, Position),
    InvalidMapLiteral(Position),
}

impl View for ParseError {
    type V = ParseErrorView;

    open spec fn view(&self) -> ParseErrorView {
        match *self {
            ParseError::UnexpectedChar(c, p, s) => ParseErrorView::UnexpectedChar(c, p, s@),
            ParseError::UnterminatedString(p) => ParseErrorView::UnterminatedString(p),
            ParseError::ConversionError(s, e) => ParseErrorView::ConversionError(s@, e@),
            ParseError::BadEscape(p, s) => ParseErrorView::BadEscape(p, s@),
            ParseError::MissingRightDelimiter(c) => ParseErrorView::MissingRightDelimiter(c),
            ParseError::ExtraRightDelimiter(c, p) => ParseErrorView::ExtraRightDelimiter(c, p),
            ParseError::InvalidMapLiteral(p) => ParseErrorView::InvalidMapLiteral(p),
        }
    }
}

/// How a position is written in a message.
pub open spec fn position_text(p: Position) -> Seq<char> {
    "line "@ + decimal(p.0 as nat) + ", column "@ + decimal(p.1 as nat)
}

/// The words that say which kind of token, begun at `start`, was being read.
pub open spec fn while_parsing(kind: Seq<char>, start: Position) -> Seq<char> {
    "while parsing a "@ + kind + " starting at "@ + position_text(start)
}

/// The message of an error.
pub open spec fn message(e: ParseErrorView) -> Seq<char> {
    match e {
        ParseErrorView::UnexpectedChar(c, p, doing) => "Unexpected character "@ + seq![c] + " at "@
            + position_text(p) + ", "@ + doing,
        ParseErrorView::UnterminatedString(p) => "Unterminated string beginning at "@
            + position_text(p),
        ParseErrorView::ConversionError(s, e) => "Could not convert "@ + s + ": "@ + e,
        ParseErrorView::BadEscape(p, s) => "Invalid escape sequence starting at "@ + position_text(
            p,
        ) + ": "@ + s,
        ParseErrorView::MissingRightDelimiter(c) => "Missing right delimiter "@ + seq![
            close_char(c),
        ],
        ParseErrorView::ExtraRightDelimiter(c, p) => "Extra right delimiter "@ + seq![
            close_char(c),
        ] + " at "@ + position_text(p),
        ParseErrorView::InvalidMapLiteral(p) => "Map literal at "@ + position_text(p)
            + " is malformed"@,
    }
}

/// A short name for the kind of an error.
pub open spec fn description_of(e: ParseErrorView) -> Seq<char> {
    match e {
        ParseErrorView::UnexpectedChar(_, _, _) => "Unexpected character"@,
        ParseErrorView::UnterminatedString(_) => "Unterminated string"@,
        ParseErrorView::ConversionError(_, e) => e,
        ParseErrorView::BadEscape(_, _) => "Bad escape sequence"@,
        ParseErrorView::MissingRightDelimiter(_) => "Missing right delimiter"@,
        ParseErrorView::ExtraRightDelimiter(_, _) => "Extra right delimiter"@,
        ParseErrorView::InvalidMapLiteral(_) => "Map literals require an even number of elements"@,
    }
}

/// The failure `p` as a result.
pub fn parse_error<T>(p: ParseError) -> (r: Result<T, ParseError>)
    ensures
        r == Err::<T, ParseError>(p),
{
    Err(p)
}

/// Appends `line L, column C` for the position `p`.
pub fn push_position(out: &mut String, p: Position)
    ensures
        final(out)@ == old(out)@ + position_text(p),
{
    push_text(out, "line ");
    push_decimal(out, p.0 as u64);
    push_text(out, ", column ");
    push_decimal(out, p.1 as u64);
    assert(out@ == old(out)@ + position_text(p));
}

/// The words that say which kind of token, begun at `start`, was being read.
pub fn while_parsing_text(kind: &str, start: Position) -> (r: String)
    ensures
        r@ == while_parsing(kind@, start),
{
    let mut out = String::new();
    push_text(&mut out, "while parsing a ");
    push_text(&mut out, kind);
    push_text(&mut out, " starting at ");
    push_position(&mut out, start);
    assert(out@ == while_parsing(kind@, start));
    out
}

impl ParseError {
    /// The message of this error, as it is shown to a user.
    pub fn to_string(&self) -> (r: String)
        ensures
            r@ == message(self@),
    {
        let mut out = String::new();
        match self {
            ParseError::UnexpectedChar(c, p, doing) => {
                push_text(&mut out, "Unexpected character ");
                out.push(*c);
                push_text(&mut out, " at ");
                push_position(&mut out, *p);
                push_text(&mut out, ", ");
                push_text(&mut out, doing.as_str());
                assert(out@ == message(self@));
            },
            ParseError::UnterminatedString(p) => {
                push_text(&mut out, "Unterminated string beginning at ");
                push_position(&mut out, *p);
                assert(out@ == message(self@));
            },
            ParseError::ConversionError(s, e) => {
                push_text(&mut out, "Could not convert ");
                push_text(&mut out, s.as_str());
                push_text(&mut out, ": ");
                push_text(&mut out, e.as_str());
                assert(out@ == message(self@));
            },
            ParseError::BadEscape(p, s) => {
                push_text(&mut out, "Invalid escape sequence starting at ");
                push_position(&mut out, *p);
                push_text(&mut out, ": ");
                push_text(&mut out, s.as_str());
                assert(out@ == message(self@));
            },
            ParseError::MissingRightDelimiter(c) => {
                push_text(&mut out, "Missing right delimiter ");
                out.push(c.to_char());
                assert(out@ == message(self@));
            },
            ParseError::ExtraRightDelimiter(c, p) => {
                push_text(&mut out, "Extra right delimiter ");
                out.push(c.to_char());
                push_text(&mut out, " at ");
                push_position(&mut out, *p);
                assert(out@ == message(self@));
            },
            ParseError::InvalidMapLiteral(p) => {
                push_text(&mut out, "Map literal at ");
                push_position(&mut out, *p);
                push_text(&mut out, " is malformed");
                assert(out@ == message(self@));
            },
        }
        out
    }

    /// A short name for the kind of this error.
    pub fn description(&self) -> (r: String)
        ensures
            r@ == description_of(self@),
    {
        match self {
            ParseError::UnexpectedChar(_, _, _) => "Unexpected character".to_owned(),
            ParseError::UnterminatedString(_) => "Unterminated string".to_owned(),
            ParseError::ConversionError(_, e) => e.clone(),
            ParseError::BadEscape(_, _) => "Bad escape sequence".to_owned(),
            ParseError::MissingRightDelimiter(_) => "Missing right delimiter".to_owned(),
            ParseError::ExtraRightDelimiter(_, _) => "Extra right delimiter".to_owned(),
            ParseError::InvalidMapLiteral(_) => "Map literals require an even number of elements"
                .to_owned(),
        }
    }
}

} // verus!
