//! The tokenizer: from characters to tokens.

use vstd::prelude::*;
use crate::parse::errors::{ParseError, ParseErrorView, while_parsing, while_parsing_text};
use crate::text::{
    chars_of,
    is_alphanumeric,
    is_digit,
    is_digit_c,
    is_hex_digit,
    is_hex_digit_c,
    is_numeric,
    is_whitespace,
    string_of_range,
    unicode_alphanumeric,
    unicode_numeric,
    unicode_whitespace,
};

verus! {

/// A place in the source text: a line, counted from 1, and a column within
/// it. The first character of a line stands at column 1.
#[derive(Debug, Copy, Clone, PartialEq, Eq, Structural)]
pub struct Position(pub usize, pub usize);

/// The position reached from `p` by reading `c`.
pub open spec fn advanced(p: Position, c: char) -> Position {
    if c == '\n' {
        Position((p.0 + 1) as usize, 0)
    } else {
        Position(p.0, (p.1 + 1) as usize)
    }
}

/// The position one column to the right of `p`.
pub open spec fn next_position(p: Position) -> Position {
    Position(p.0, (p.1 + 1) as usize)
}

/// The position reached from `p` by reading the first `n` characters of `s`.
pub open spec fn position_from(p: Position, s: Seq<char>, n: int) -> Position
    decreases n,
{
    if n <= 0 || n > s.len() {
        p
    } else {
        advanced(position_from(p, s, n - 1), s[n - 1])
    }
}

/// The position of the last of the first `n` characters of a text `s` that
/// begins at line 1.
pub open spec fn pos_at(s: Seq<char>, n: int) -> Position {
    position_from(Position(1, 0), s, n)
}

impl Position {
    /// Moves over the character `c`: to the start of the next line if it is a
    /// line feed, else one column to the right.
    pub fn advance(&mut self, c: char)
        requires
            old(self).0 < usize::MAX,
            old(self).1 < usize::MAX,
        ensures
            *final(self) == advanced(*old(self), c),
    {
        if c == '\n' {
            self.0 += 1;
            self.1 = 0;
        } else {
            self.1 += 1;
        }
    }

    /// The position one column to the right.
    pub fn next(&self) -> (r: Position)
        requires
            self.1 < usize::MAX,
        ensures
            r == next_position(*self),
    {
        Position(self.0, self.1 + 1)
    }
}

/// An opening delimiter.
#[derive(Debug, Clone, PartialEq, Eq, Copy, Structural)]
pub enum Open {
    LParen,
    LBrace,
    LBracket,
}

/// A closing delimiter.
#[derive(Debug, Clone, PartialEq, Eq, Copy, Structural)]
pub enum Close {
    RParen,
    RBrace,
    RBracket,
}

/// A prefix that abbreviates a form of one argument.
#[derive(Debug, Clone, PartialEq, Eq, Copy, Structural)]
pub enum FormLike {
    Quote,
    QuasiQuote,
    Unquote,
    UnquoteSplicing,
}

/// The name of the form that a prefix abbreviates.
pub open spec fn form_name_of(f: FormLike) -> Seq<char> {
    match f {
        FormLike::Quote => "quote"@,
        FormLike::QuasiQuote => "quasiquote"@,
        FormLike::Unquote => "unquote"@,
        FormLike::UnquoteSplicing => "unquote-splicing"@,
    }
}

/// The delimiter that closes what `o` opens.
pub open spec fn closer_of(o: Open) -> Close {
    match o {
        Open::LParen => Close::RParen,
        Open::LBrace => Close::RBrace,
        Open::LBracket => Close::RBracket,
    }
}

/// The character that writes a closing delimiter.
pub open spec fn close_char(c: Close) -> char {
    match c {
        Close::RParen => ')',
        Close::RBrace => '}',
        Close::RBracket => ']',
    }
}

impl FormLike {
    /// The name of the form that this prefix abbreviates.
    pub fn form_name(&self) -> (r: &'static str)
        ensures
            r@ == form_name_of(*self),
    {
        match self {
            FormLike::Quote => "quote",
            FormLike::QuasiQuote => "quasiquote",
            FormLike::Unquote => "unquote",
            FormLike::UnquoteSplicing => "unquote-splicing",
        }
    }
}

impl Open {
    /// The delimiter that closes what this one opens.
    pub fn closed_by(&self) -> (r: Close)
        ensures
            r == closer_of(*self),
    {
        match self {
            Open::LParen => Close::RParen,
            Open::LBrace => Close::RBrace,
            Open::LBracket => Close::RBracket,
        }
    }
}

impl Close {
    /// The character that writes this delimiter.
    pub fn to_char(&self) -> (r: char)
        ensures
            r == close_char(*self),
    {
        match self {
            Close::RParen => ')',
            Close::RBrace => '}',
            Close::RBracket => ']',
        }
    }
}

/// What a token is.
#[derive(Debug)]
pub enum TokenType {
    Open(Open),
    Close(Close),
    FormLike(FormLike),
    /// A string literal, with its escape sequences replaced.
    String(String),
    /// The text of a numeral.
    Number(String),
    /// The text of a symbol.
    Symbol(String),
}

/// A [`TokenType`] with its text as a sequence of characters.
pub enum TokenTypeView {
    Open(Open),
    Close(Close),
    FormLike(FormLike),
    String(Seq<char>),
    Number(Seq<char>),
    Symbol(Seq<char>),
}

impl View for TokenType {
    type V = TokenTypeView;

    open spec fn view(&self) -> TokenTypeView {
        match *self {
            TokenType::Open(o) => TokenTypeView::Open(o),
            TokenType::Close(c) => TokenTypeView::Close(c),
            TokenType::FormLike(f) => TokenTypeView::FormLike(f),
            TokenType::String(s) => TokenTypeView::String(s@),
            TokenType::Number(s) => TokenTypeView::Number(s@),
            TokenType::Symbol(s) => TokenTypeView::Symbol(s@),
        }
    }
}

/// A token, with the positions of its first character and of the character
/// that ends it.
#[derive(Debug)]
pub struct Token {
    pub tt: TokenType,
    pub start: Position,
    pub end: Position,
}

/// A [`Token`] with its text as a sequence of characters.
pub struct TokenView {
    pub tt: TokenTypeView,
    pub start: Position,
    pub end: Position,
}

impl View for Token {
    type V = TokenView;

    open spec fn view(&self) -> TokenView {
        TokenView { tt: self.tt@, start: self.start, end: self.end }
    }
}

/// The delimiter that `c` writes, if it writes one.
pub open spec fn delimiter_of(c: char) -> Option<TokenTypeView> {
    if c == '(' {
        Some(TokenTypeView::Open(Open::LParen))
    } else if c == ')' {
        Some(TokenTypeView::Close(Close::RParen))
    } else if c == '[' {
        Some(TokenTypeView::Open(Open::LBracket))
    } else if c == ']' {
        Some(TokenTypeView::Close(Close::RBracket))
    } else if c == '{' {
        Some(TokenTypeView::Open(Open::LBrace))
    } else if c == '}' {
        Some(TokenTypeView::Close(Close::RBrace))
    } else {
        None
    }
}

impl Token {
    /// A token of the kind `t` between the positions `start` and `end`.
    pub fn new(t: TokenType, start: Position, end: Position) -> (r: Token)
        ensures
            r.tt == t,
            r.start == start,
            r.end == end,
    {
        Token { tt: t, start: start, end: end }
    }

    /// The token of the delimiter `c` at `start`, which ends one column
    /// further; nothing if `c` is no delimiter.
    pub fn new_delim(c: char, start: Position) -> (r: Option<Token>)
        requires
            start.1 < usize::MAX,
        ensures
            match delimiter_of(c) {
                Some(tt) => r.is_some() && r.unwrap()@ == (TokenView {
                    tt: tt,
                    start: start,
                    end: next_position(start),
                }),
                None => r.is_none(),
            },
    {
        let tt = if c == '(' {
            TokenType::Open(Open::LParen)
        } else if c == ')' {
            TokenType::Close(Close::RParen)
        } else if c == '[' {
            TokenType::Open(Open::LBracket)
        } else if c == ']' {
            TokenType::Close(Close::RBracket)
        } else if c == '{' {
            TokenType::Open(Open::LBrace)
        } else if c == '}' {
            TokenType::Close(Close::RBrace)
        } else {
            return None;
        };
        Some(Token { tt: tt, start: start, end: start.next() })
    }
}

/// Whitespace and the six brackets end a token.
pub open spec fn is_delimiter(c: char) -> bool {
    unicode_whitespace(c) || c == '(' || c == ')' || c == '{' || c == '}' || c == '[' || c == ']'
}

/// The characters of a numeral.
pub open spec fn is_number_char(c: char) -> bool {
    is_digit(c) || c == '.' || c == 'e' || c == 'E'
}

/// The characters of a symbol.
pub open spec fn is_symbol_char(c: char) -> bool {
    (unicode_alphanumeric(c) || ('*' <= c && c <= '~') || c == '!' || ('#' <= c && c <= '\''))
        && !is_delimiter(c)
}

/// The characters that can begin a symbol.
pub open spec fn is_symbol_start(c: char) -> bool {
    is_symbol_char(c) && !unicode_numeric(c) && c != '\''
}

/// Whether `c` ends a token.
pub fn is_delimiter_c(c: char) -> (b: bool)
    ensures
        b == is_delimiter(c),
{
    is_whitespace(c) || c == '(' || c == ')' || c == '{' || c == '}' || c == '[' || c == ']'
}

/// Whether `c` belongs to a numeral.
pub fn is_number_c(c: char) -> (b: bool)
    ensures
        b == is_number_char(c),
{
    is_digit_c(c) || c == '.' || c == 'e' || c == 'E'
}

/// Whether `c` belongs to a symbol.
pub fn is_symbol_c(c: char) -> (b: bool)
    ensures
        b == is_symbol_char(c),
{
    (is_alphanumeric(c) || (c >= '*' && c <= '~') || c == '!' || (c >= '#' && c <= '\''))
        && !is_delimiter_c(c)
}

/// Whether `c` can begin a symbol.
pub fn is_symbol_start_c(c: char) -> (b: bool)
    ensures
        b == is_symbol_start(c),
{
    is_symbol_c(c) && !is_numeric(c) && c != '\''
}

/// A cursor over characters that knows the position of each.
pub struct CharIndicesPos {
    pub pos: Position,
    pub chars: Vec<char>,
    pub index: usize,
    pub origin: Ghost<Position>,
}

impl CharIndicesPos {
    /// The cursor stands inside its text, at the position that the characters
    /// before it lead to, and no position further on overflows.
    pub open spec fn wf(&self) -> bool {
        &&& self.index <= self.chars@.len()
        &&& self.pos == position_from(self.origin@, self.chars@, self.index as int)
        &&& self.pos.0 + (self.chars@.len() - self.index) < usize::MAX
        &&& self.pos.1 + (self.chars@.len() - self.index) < usize::MAX
    }

    /// The index, the character and the position of what the cursor stands
    /// before.
    pub open spec fn item(&self) -> Option<(usize, char, Position)> {
        if self.index < self.chars@.len() {
            Some(
                (
                    self.index,
                    self.chars@[self.index as int],
                    position_from(self.origin@, self.chars@, self.index + 1),
                ),
            )
        } else {
            None
        }
    }

    /// A cursor before the first of `chars`, which follows the position `p`.
    pub fn new(p: Position, chars: Vec<char>) -> (r: CharIndicesPos)
        requires
            p.0 + chars@.len() < usize::MAX,
            p.1 + chars@.len() < usize::MAX,
        ensures
            r.wf(),
            r.index == 0,
            r.chars == chars,
            r.origin@ == p,
    {
        CharIndicesPos { pos: p, chars: chars, index: 0, origin: Ghost(p) }
    }

    /// What the cursor stands before; the cursor stays.
    pub fn peek(&self) -> (r: Option<(usize, char, Position)>)
        requires
            self.wf(),
        ensures
            r == self.item(),
    {
        if self.index < self.chars.len() {
            let c = self.chars[self.index];
            let mut p = self.pos;
            p.advance(c);
            Some((self.index, c, p))
        } else {
            None
        }
    }

    /// What the cursor stands before; the cursor moves past it.
    pub fn next(&mut self) -> (r: Option<(usize, char, Position)>)
        requires
            old(self).wf(),
        ensures
            final(self).wf(),
            final(self).chars == old(self).chars,
            final(self).origin == old(self).origin,
            r == old(self).item(),
            final(self).index == if r.is_some() {
                old(self).index + 1
            } else {
                old(self).index as int
            },
    {
        if self.index < self.chars.len() {
            let c = self.chars[self.index];
            let i = self.index;
            self.pos.advance(c);
            self.index = self.index + 1;
            Some((i, c, self.pos))
        } else {
            None
        }
    }
}

/// The first index at or after `i` whose character is not whitespace, or the
/// length of `s` if there is none.
pub open spec fn ws_end(s: Seq<char>, i: int) -> int
    decreases s.len() - i,
{
    if 0 <= i < s.len() && unicode_whitespace(s[i]) {
        ws_end(s, i + 1)
    } else {
        i
    }
}

/// The first index at or after `i` whose character belongs to no numeral, or
/// the length of `s` if there is none.
pub open spec fn number_end(s: Seq<char>, i: int) -> int
    decreases s.len() - i,
{
    if 0 <= i < s.len() && is_number_char(s[i]) {
        number_end(s, i + 1)
    } else {
        i
    }
}

/// The first index at or after `i` whose character belongs to no symbol, or
/// the length of `s` if there is none.
pub open spec fn symbol_end(s: Seq<char>, i: int) -> int
    decreases s.len() - i,
{
    if 0 <= i < s.len() && is_symbol_char(s[i]) {
        symbol_end(s, i + 1)
    } else {
        i
    }
}

/// The first index at or after `i` whose character is `stop`, or the length
/// of `s` if there is none.
pub open spec fn index_of(s: Seq<char>, i: int, stop: char) -> int
    decreases s.len() - i,
{
    if 0 <= i < s.len() && s[i] != stop {
        index_of(s, i + 1, stop)
    } else {
        i
    }
}

/// What the tokenizer finds at some index, and the index it moves to.
pub enum Lexed {
    /// Nothing more to read.
    Done(int),
    Token(TokenView, int),
    Error(ParseErrorView, int),
}

/// What an escape sequence stands for, and the index after it.
pub enum Unescaped {
    Char(char, int),
    Error(ParseErrorView, int),
}

/// The value of a run of digits read in base 16, each digit taken as its
/// distance from `0`.
pub open spec fn hex_fold(d: Seq<char>) -> int
    decreases d.len(),
{
    if d.len() == 0 {
        0
    } else {
        hex_fold(d.drop_last()) * 16 + (d.last() as int - '0' as int)
    }
}

/// Each character is a hexadecimal digit.
pub open spec fn all_hex(d: Seq<char>) -> bool {
    forall|i: int| 0 <= i < d.len() ==> is_hex_digit(#[trigger] d[i])
}

/// The code points that are characters.
pub open spec fn is_scalar(i: int) -> bool {
    (0 <= i <= 0xD7FF) || (0xE000 <= i <= 0x10FFFF)
}

/// `char::from_u32` gives the character with the code point `i`, where there
/// is one.
pub assume_specification[ char::from_u32 ](i: u32) -> (r: Option<char>)
    ensures
        r == if is_scalar(i as int) {
            Some(i as char)
        } else {
            None::<char>
        },
;

/// The escape `\xHL` whose backslash stands at index `i`: `H` is an octal
/// digit, `L` a hexadecimal one.
pub open spec fn x_escape(s: Seq<char>, i: int, escape_start: Position, string_start: Position)
    -> Unescaped {
    if i + 3 >= s.len() {
        Unescaped::Error(ParseErrorView::UnterminatedString(string_start), s.len() as int)
    } else if !('0' <= s[i + 2] && s[i + 2] <= '7') {
        Unescaped::Error(ParseErrorView::BadEscape(escape_start, s.subrange(i, i + 3)), i + 4)
    } else if is_hex_digit(s[i + 3]) {
        Unescaped::Char(
            ((s[i + 2] as int - '0' as int) * 16 + (s[i + 3] as int - '0' as int)) as char,
            i + 4,
        )
    } else {
        Unescaped::Error(ParseErrorView::BadEscape(escape_start, s.subrange(i, i + 4)), i + 4)
    }
}

/// The escape `\u{H..}` whose backslash stands at index `i`: up to seven
/// hexadecimal digits in braces, which name a code point.
pub open spec fn u_escape(s: Seq<char>, i: int, escape_start: Position, string_start: Position)
    -> Unescaped {
    let from = i + 2;
    let brace = index_of(s, from, '}');
    let next = if brace < s.len() {
        brace + 1
    } else {
        s.len() as int
    };
    let all = s.subrange(i, next);
    if brace == from {
        Unescaped::Error(ParseErrorView::UnterminatedString(string_start), next)
    } else if brace - from > 8 {
        Unescaped::Error(ParseErrorView::BadEscape(escape_start, s.subrange(i, from + 8)), next)
    } else if s[from] != '{' || !all_hex(s.subrange(from + 1, brace)) {
        Unescaped::Error(ParseErrorView::BadEscape(escape_start, all), next)
    } else if is_scalar(hex_fold(s.subrange(from + 1, brace))) {
        Unescaped::Char(hex_fold(s.subrange(from + 1, brace)) as char, next)
    } else {
        Unescaped::Error(ParseErrorView::BadEscape(escape_start, all), next)
    }
}

/// The escape sequence whose backslash stands at index `i`.
pub open spec fn unescape(s: Seq<char>, i: int, escape_start: Position, string_start: Position)
    -> Unescaped {
    if i + 1 >= s.len() {
        Unescaped::Error(ParseErrorView::UnterminatedString(string_start), s.len() as int)
    } else {
        let c = s[i + 1];
        if c == 'x' {
            x_escape(s, i, escape_start, string_start)
        } else if c == 'u' {
            u_escape(s, i, escape_start, string_start)
        } else if c == 't' {
            Unescaped::Char('\t', i + 2)
        } else if c == 'r' {
            Unescaped::Char('\r', i + 2)
        } else if c == '\'' {
            Unescaped::Char('\'', i + 2)
        } else if c == '"' {
            Unescaped::Char('"', i + 2)
        } else if c == 'n' {
            Unescaped::Char('\n', i + 2)
        } else {
            Unescaped::Error(ParseErrorView::BadEscape(escape_start, s.subrange(i, i + 2)), i + 2)
        }
    }
}

/// The rest of a string literal from index `i` on, after the text `acc`: the
/// whole text and the index of the closing quote, or the first error.
pub open spec fn string_body(s: Seq<char>, i: int, acc: Seq<char>, start: Position) -> Unquoted
    decreases s.len() - i,
{
    if i < 0 || i >= s.len() {
        Unquoted::Error(ParseErrorView::UnterminatedString(start), s.len() as int)
    } else if s[i] == '\\' {
        match unescape(s, i, pos_at(s, i + 1), start) {
            Unescaped::Char(c, next) => if i < next {
                string_body(s, next, acc.push(c), start)
            } else {
                Unquoted::Error(ParseErrorView::UnterminatedString(start), s.len() as int)
            },
            Unescaped::Error(e, next) => Unquoted::Error(e, next),
        }
    } else if s[i] == '"' {
        Unquoted::Text(acc, i)
    } else {
        string_body(s, i + 1, acc.push(s[i]), start)
    }
}

/// The text of a string literal and the index of its closing quote.
pub enum Unquoted {
    Text(Seq<char>, int),
    Error(ParseErrorView, int),
}

/// The string literal whose opening quote stands at `start - 1`.
pub open spec fn lex_string(s: Seq<char>, start: int, startpos: Position) -> Lexed {
    match string_body(s, start, Seq::empty(), startpos) {
        Unquoted::Error(e, next) => Lexed::Error(e, next),
        Unquoted::Text(text, close) => if close + 1 < s.len() && !is_delimiter(s[close + 1]) {
            Lexed::Error(
                ParseErrorView::UnexpectedChar(
                    s[close + 1],
                    pos_at(s, close + 2),
                    while_parsing("string"@, startpos),
                ),
                close + 1,
            )
        } else {
            Lexed::Token(
                TokenView {
                    tt: TokenTypeView::String(text),
                    start: startpos,
                    end: pos_at(s, close + 1),
                },
                close + 1,
            )
        },
    }
}

/// The numeral that begins at `start` and whose characters up to `from` are
/// read already.
pub open spec fn lex_number(s: Seq<char>, start: int, from: int, startpos: Position) -> Lexed {
    let stop = number_end(s, from);
    if stop >= s.len() {
        Lexed::Token(
            TokenView {
                tt: TokenTypeView::Number(s.subrange(start, s.len() as int)),
                start: startpos,
                end: next_position(startpos),
            },
            s.len() as int,
        )
    } else if !is_delimiter(s[stop]) {
        Lexed::Error(
            ParseErrorView::UnexpectedChar(
                s[stop],
                pos_at(s, stop + 1),
                while_parsing("number"@, startpos),
            ),
            stop,
        )
    } else {
        Lexed::Token(
            TokenView {
                tt: TokenTypeView::Number(s.subrange(start, stop)),
                start: startpos,
                end: pos_at(s, stop + 1),
            },
            stop,
        )
    }
}

/// The symbol that begins at `start`; a sign before a digit begins a numeral
/// instead.
pub open spec fn lex_symbol(s: Seq<char>, start: int, startpos: Position) -> Lexed {
    if start + 1 >= s.len() {
        Lexed::Token(
            TokenView {
                tt: TokenTypeView::Symbol(s.subrange(start, s.len() as int)),
                start: startpos,
                end: next_position(startpos),
            },
            s.len() as int,
        )
    } else if is_digit(s[start + 1]) && (s[start] == '+' || s[start] == '-') {
        lex_number(s, start, start + 2, startpos)
    } else if is_delimiter(s[start + 1]) {
        Lexed::Token(
            TokenView {
                tt: TokenTypeView::Symbol(s.subrange(start, start + 1)),
                start: startpos,
                end: pos_at(s, start + 2),
            },
            start + 1,
        )
    } else {
        let stop = symbol_end(s, start + 2);
        if stop >= s.len() {
            Lexed::Token(
                TokenView {
                    tt: TokenTypeView::Symbol(s.subrange(start, s.len() as int)),
                    start: startpos,
                    end: pos_at(s, s.len() as int),
                },
                s.len() as int,
            )
        } else if !is_delimiter(s[stop]) {
            Lexed::Error(
                ParseErrorView::UnexpectedChar(
                    s[stop],
                    pos_at(s, stop + 1),
                    while_parsing("symbol"@, startpos),
                ),
                stop,
            )
        } else {
            Lexed::Token(
                TokenView {
                    tt: TokenTypeView::Symbol(s.subrange(start, stop)),
                    start: startpos,
                    end: pos_at(s, stop + 1),
                },
                stop,
            )
        }
    }
}

/// A token of one prefix character at index `j`.
pub open spec fn lex_form(s: Seq<char>, j: int, f: FormLike) -> Lexed {
    Lexed::Token(
        TokenView {
            tt: TokenTypeView::FormLike(f),
            start: pos_at(s, j + 1),
            end: next_position(pos_at(s, j + 1)),
        },
        j + 1,
    )
}

/// What the tokenizer finds from index `i` on: it skips whitespace and reads
/// one token. A character that begins no token ends the reading.
pub open spec fn lex(s: Seq<char>, i: int) -> Lexed {
    let j = ws_end(s, i);
    if j >= s.len() {
        Lexed::Done(j)
    } else {
        let c = s[j];
        let pos = pos_at(s, j + 1);
        if c == '\'' {
            lex_form(s, j, FormLike::Quote)
        } else if c == '`' {
            lex_form(s, j, FormLike::QuasiQuote)
        } else if c == '~' {
            if j + 1 < s.len() && s[j + 1] == '@' {
                Lexed::Token(
                    TokenView {
                        tt: TokenTypeView::FormLike(FormLike::UnquoteSplicing),
                        start: pos,
                        end: next_position(pos_at(s, j + 2)),
                    },
                    j + 2,
                )
            } else {
                lex_form(s, j, FormLike::Unquote)
            }
        } else if is_symbol_start(c) {
            lex_symbol(s, j, pos)
        } else if is_digit(c) {
            lex_number(s, j, j + 1, pos)
        } else if delimiter_of(c).is_some() {
            Lexed::Token(
                TokenView { tt: delimiter_of(c).unwrap(), start: pos, end: next_position(pos) },
                j + 1,
            )
        } else if c == '"' {
            lex_string(s, j + 1, pos)
        } else {
            Lexed::Done(j + 1)
        }
    }
}

/// Whether a result of the tokenizer, with the index it stopped at, is what
/// `l` describes.
pub open spec fn is_lexed(r: Option<Result<Token, ParseError>>, index: int, l: Lexed) -> bool {
    match l {
        Lexed::Done(next) => r.is_none() && index == next,
        Lexed::Token(t, next) => (match r {
            Some(Ok(token)) => token@ == t,
            _ => false,
        }) && index == next,
        Lexed::Error(e, next) => (match r {
            Some(Err(error)) => error@ == e,
            _ => false,
        }) && index == next,
    }
}

/// Whether a character read from an escape sequence, with the index reached,
/// is what `u` describes.
pub open spec fn is_unescaped(r: Result<char, ParseError>, index: int, u: Unescaped) -> bool {
    match u {
        Unescaped::Char(c, next) => r == Ok::<char, ParseError>(c) && index == next,
        Unescaped::Error(e, next) => (match r {
            Err(error) => error@ == e,
            _ => false,
        }) && index == next,
    }
}

/// The bound on the value of `k` digits read by [`hex_fold`].
pub open spec fn hex_bound(k: nat) -> int
    decreases k,
{
    if k == 0 {
        0
    } else {
        16 * hex_bound((k - 1) as nat) + 60
    }
}

proof fn lemma_hex_bound_monotone(k: nat, n: nat)
    requires
        k <= n,
    ensures
        0 <= hex_bound(k) <= hex_bound(n),
    decreases n,
{
    if k < n {
        lemma_hex_bound_monotone(k, (n - 1) as nat);
    } else if k > 0 {
        lemma_hex_bound_monotone((k - 1) as nat, (k - 1) as nat);
    }
}

proof fn lemma_hex_fold_bound(d: Seq<char>)
    requires
        all_hex(d),
    ensures
        0 <= hex_fold(d) <= hex_bound(d.len()),
    decreases d.len(),
{
    if d.len() > 0 {
        assert(all_hex(d.drop_last())) by {
            assert forall|i: int| 0 <= i < d.drop_last().len() implies is_hex_digit(
                #[trigger] d.drop_last()[i],
            ) by {
                assert(d.drop_last()[i] == d[i]);
            }
        }
        lemma_hex_fold_bound(d.drop_last());
        assert(is_hex_digit(d[d.len() - 1]));
    }
}

/// The tokenizer: it reads tokens off a text, one at a time.
pub struct TokenIter {
    pub iter: CharIndicesPos,
}

impl TokenIter {
    /// The text that is read.
    pub open spec fn input(&self) -> Seq<char> {
        self.iter.chars@
    }

    /// The index of the next character to read.
    pub open spec fn index(&self) -> int {
        self.iter.index as int
    }

    /// The cursor is well formed and counts positions from line 1.
    pub open spec fn wf(&self) -> bool {
        self.iter.wf() && self.iter.origin@ == Position(1, 0)
    }

    /// A tokenizer at the beginning of `s`.
    pub fn new(s: &str) -> (r: TokenIter)
        requires
            s@.len() < usize::MAX - 1,
        ensures
            r.wf(),
            r.input() == s@,
            r.index() == 0,
    {
        let chars = chars_of(s);
        TokenIter { iter: CharIndicesPos::new(Position(1, 0), chars) }
    }

    /// Reads up to the first `stop`, which it reads too: what was read before
    /// it, and its index if there was one.
    pub fn take_until(&mut self, stop: char) -> (r: (Vec<(usize, char, Position)>, Option<usize>))
        requires
            old(self).wf(),
        ensures
            final(self).wf(),
            final(self).input() == old(self).input(),
            ({
                let s = old(self).input();
                let from = old(self).index();
                let end = index_of(s, from, stop);
                &&& from <= end <= s.len()
                &&& r.0@.len() == end - from
                &&& forall|k: int|
                    0 <= k < end - from ==> #[trigger] r.0@[k] == (
                        (from + k) as usize,
                        s[from + k],
                        pos_at(s, from + k + 1),
                    )
                &&& r.1 == if end < s.len() {
                    Some(end as usize)
                } else {
                    None::<usize>
                }
                &&& final(self).index() == if end < s.len() {
                    end + 1
                } else {
                    s.len() as int
                }
            }),
    {
        let mut v: Vec<(usize, char, Position)> = Vec::new();
        let ghost s = self.input();
        let ghost from = self.index();
        loop
            invariant
                self.wf(),
                self.input() == s,
                s == old(self).input(),
                from == old(self).index(),
                from <= self.index() <= s.len(),
                index_of(s, from, stop) == index_of(s, self.index(), stop),
                v@.len() == self.index() - from,
                forall|k: int|
                    0 <= k < self.index() - from ==> #[trigger] v@[k] == (
                        (from + k) as usize,
                        s[from + k],
                        pos_at(s, from + k + 1),
                    ),
            ensures
                self.wf(),
                self.input() == s,
                ({
                    let end = index_of(s, from, stop);
                    &&& v@.len() == end - from
                    &&& forall|k: int|
                        0 <= k < end - from ==> #[trigger] v@[k] == (
                            (from + k) as usize,
                            s[from + k],
                            pos_at(s, from + k + 1),
                        )
                    &&& end >= s.len()
                    &&& self.index() == s.len()
                }),
            decreases s.len() - self.index(),
        {
            match self.iter.next() {
                None => {
                    break ;
                },
                Some((j, c, pos)) => {
                    if c != stop {
                        v.push((j, c, pos));
                    } else {
                        return (v, Some(j));
                    }
                },
            }
        }
        (v, None)
    }

    /// Moves past whitespace.
    pub fn skip_ws(&mut self)
        requires
            old(self).wf(),
        ensures
            final(self).wf(),
            final(self).input() == old(self).input(),
            final(self).index() == ws_end(old(self).input(), old(self).index()),
            old(self).index() <= final(self).index() <= old(self).input().len(),
    {
        let ghost s = self.input();
        let ghost from = self.index();
        loop
            invariant
                self.wf(),
                self.input() == s,
                s == old(self).input(),
                from == old(self).index(),
                from <= self.index() <= s.len(),
                ws_end(s, from) == ws_end(s, self.index()),
            ensures
                self.wf(),
                self.input() == s,
                from <= self.index() <= s.len(),
                self.index() == ws_end(s, from),
            decreases s.len() - self.index(),
        {
            match self.iter.peek() {
                Some((_, c, _)) => {
                    if is_whitespace(c) {
                        self.iter.next();
                    } else {
                        break ;
                    }
                },
                None => {
                    break ;
                },
            }
        }
    }

    /// The text between two indices.
    fn text(&self, from: usize, to: usize) -> (r: String)
        requires
            from <= to <= self.input().len(),
        ensures
            r@ == self.input().subrange(from as int, to as int),
    {
        string_of_range(&self.iter.chars, from, to)
    }

    /// Reads the rest of `\u{..}`, whose backslash stands at `start`.
    pub fn read_u_escape(&mut self, start: usize, escape_start: Position, string_start: Position)
        -> (r: Result<char, ParseError>)
        requires
            old(self).wf(),
            old(self).index() == start + 2,
            old(self).index() <= old(self).input().len(),
        ensures
            final(self).wf(),
            final(self).input() == old(self).input(),
            is_unescaped(
                r,
                final(self).index(),
                u_escape(old(self).input(), start as int, escape_start, string_start),
            ),
            old(self).index() <= final(self).index() <= old(self).input().len(),
    {
        let ghost s = self.input();
        let ghost from = start + 2;
        let (chars, brace) = self.take_until('}');
        let next = self.iter.index;
        let l = chars.len();
        if l == 0 {
            Err(ParseError::UnterminatedString(string_start))
        } else if l > 8 {
            Err(ParseError::BadEscape(escape_start, self.text(start, chars[8].0)))
        } else if chars[0].1 != '{' {
            Err(ParseError::BadEscape(escape_start, self.text(start, next)))
        } else {
            let mut ival: u32 = 0;
            let mut k: usize = 1;
            let mut hex = true;
            while k < l
                invariant
                    1 <= k <= l <= 8,
                    l == chars@.len(),
                    from == start + 2,
                    from + l <= s.len(),
                    forall|m: int|
                        0 <= m < l ==> (#[trigger] chars@[m]).1 == s[from + m],
                    hex ==> all_hex(s.subrange(from + 1, from + k)),
                    !hex ==> !all_hex(s.subrange(from + 1, from + l)),
                    hex ==> ival == hex_fold(s.subrange(from + 1, from + k)),
                    !hex ==> ival == 0,
                decreases l - k,
            {
                let c = chars[k].1;
                let ghost before = s.subrange(from + 1, from + k);
                let ghost after = s.subrange(from + 1, from + k + 1);
                proof {
                    assert(after.drop_last() == before);
                    assert(after.last() == c);
                }
                if hex && is_hex_digit_c(c) {
                    proof {
                        assert forall|m: int| 0 <= m < after.len() implies is_hex_digit(
                            #[trigger] after[m],
                        ) by {
                            if m < before.len() {
                                assert(after[m] == before[m]);
                            }
                        }
                        lemma_hex_fold_bound(before);
                        lemma_hex_bound_monotone(before.len(), 6);
                        reveal_with_fuel(hex_bound, 8);
                    }
                    ival = ival * 16 + (c as u32 - '0' as u32);
                } else {
                    proof {
                        if hex {
                            let whole = s.subrange(from + 1, from + l);
                            assert(whole[k - 1] == c);
                        }
                    }
                    hex = false;
                    ival = 0;
                }
                k += 1;
            }
            if !hex {
                Err(ParseError::BadEscape(escape_start, self.text(start, next)))
            } else {
                match char::from_u32(ival) {
                    Some(c) => Ok(c),
                    None => Err(ParseError::BadEscape(escape_start, self.text(start, next))),
                }
            }
        }
    }

    /// Reads the rest of `\xHL`, whose backslash stands at `start`.
    pub fn read_x_escape(&mut self, start: usize, escape_start: Position, string_start: Position)
        -> (r: Result<char, ParseError>)
        requires
            old(self).wf(),
            old(self).index() == start + 2,
            old(self).index() <= old(self).input().len(),
        ensures
            final(self).wf(),
            final(self).input() == old(self).input(),
            is_unescaped(
                r,
                final(self).index(),
                x_escape(old(self).input(), start as int, escape_start, string_start),
            ),
            old(self).index() <= final(self).index() <= old(self).input().len(),
    {
        let first = self.iter.next();
        let second = self.iter.next();
        match (first, second) {
            (Some((_, c1, _)), Some((end_index, c2, _))) => {
                if !('0' <= c1 && c1 <= '7') {
                    Err(ParseError::BadEscape(escape_start, self.text(start, end_index)))
                } else if is_hex_digit_c(c2) {
                    let zero = '0' as u32;
                    let ival = (c1 as u32 - zero) * 16 + (c2 as u32 - zero);
                    match char::from_u32(ival) {
                        Some(c) => Ok(c),
                        None => Err(
                            ParseError::BadEscape(escape_start, self.text(start, end_index)),
                        ),
                    }
                } else {
                    Err(ParseError::BadEscape(escape_start, self.text(start, end_index + 1)))
                }
            },
            _ => Err(ParseError::UnterminatedString(string_start)),
        }
    }

    /// Reads the escape sequence whose backslash, at `start`, is read
    /// already.
    pub fn read_escape(&mut self, start: usize, escape_start: Position, string_start: Position)
        -> (r: Result<char, ParseError>)
        requires
            old(self).wf(),
            old(self).index() == start + 1,
            old(self).index() <= old(self).input().len(),
        ensures
            final(self).wf(),
            final(self).input() == old(self).input(),
            is_unescaped(
                r,
                final(self).index(),
                unescape(old(self).input(), start as int, escape_start, string_start),
            ),
            old(self).index() <= final(self).index() <= old(self).input().len(),
            r.is_ok() ==> old(self).index() < final(self).index(),
    {
        match self.iter.next() {
            Some((end, c, _)) => {
                if c == 'x' {
                    self.read_x_escape(start, escape_start, string_start)
                } else if c == 'u' {
                    self.read_u_escape(start, escape_start, string_start)
                } else if c == 't' {
                    Ok('\t')
                } else if c == 'r' {
                    Ok('\r')
                } else if c == '\'' {
                    Ok('\'')
                } else if c == '"' {
                    Ok('"')
                } else if c == 'n' {
                    Ok('\n')
                } else {
                    Err(ParseError::BadEscape(escape_start, self.text(start, end + 1)))
                }
            },
            None => Err(ParseError::UnterminatedString(string_start)),
        }
    }

    /// Reads a string literal whose opening quote, at `start - 1`, is read
    /// already.
    pub fn read_string(&mut self, start: usize, startpos: Position) -> (r: Result<
        Token,
        ParseError,
    >)
        requires
            old(self).wf(),
            old(self).index() == start,
        ensures
            final(self).wf(),
            final(self).input() == old(self).input(),
            is_lexed(
                Some(r),
                final(self).index(),
                lex_string(old(self).input(), start as int, startpos),
            ),
            old(self).index() <= final(self).index(),
    {
        let ghost s = self.input();
        let mut string = String::new();
        let endpos: Position;
        loop
            invariant_except_break
                string_body(s, start as int, Seq::empty(), startpos) == string_body(
                    s,
                    self.index(),
                    string@,
                    startpos,
                ),
            invariant
                self.wf(),
                self.input() == s,
                s == old(self).input(),
                start == old(self).index(),
                start <= self.index() <= s.len(),
            ensures
                self.wf(),
                self.input() == s,
                1 <= self.index() <= s.len(),
                string_body(s, start as int, Seq::empty(), startpos) == Unquoted::Text(
                    string@,
                    self.index() - 1,
                ),
                endpos == pos_at(s, self.index()),
            decreases s.len() - self.index(),
        {
            let next = self.iter.next();
            match next {
                None => {
                    return Err(ParseError::UnterminatedString(startpos));
                },
                Some((j, c, pos)) => {
                    if c == '\\' {
                        match self.read_escape(j, pos, startpos) {
                            Ok(e) => {
                                string.push(e);
                            },
                            Err(e) => {
                                return Err(e);
                            },
                        }
                    } else if c == '"' {
                        endpos = pos;
                        break ;
                    } else {
                        string.push(c);
                    }
                },
            }
        }
        match self.iter.peek() {
            Some((_, c, pos)) => {
                if !is_delimiter_c(c) {
                    return Err(
                        ParseError::UnexpectedChar(c, pos, while_parsing_text("string", startpos)),
                    );
                }
            },
            None => {},
        }
        Ok(Token::new(TokenType::String(string), startpos, endpos))
    }

    /// Moves past the characters of a numeral.
    fn skip_number(&mut self)
        requires
            old(self).wf(),
        ensures
            final(self).wf(),
            final(self).input() == old(self).input(),
            final(self).index() == number_end(old(self).input(), old(self).index()),
            old(self).index() <= final(self).index() <= old(self).input().len(),
    {
        let ghost s = self.input();
        let ghost from = self.index();
        loop
            invariant
                self.wf(),
                self.input() == s,
                from <= self.index() <= s.len(),
                number_end(s, from) == number_end(s, self.index()),
            ensures
                self.index() == number_end(s, from),
            decreases s.len() - self.index(),
        {
            match self.iter.peek() {
                Some((_, c, _)) => {
                    if is_number_c(c) {
                        self.iter.next();
                    } else {
                        break ;
                    }
                },
                None => {
                    break ;
                },
            }
        }
    }

    /// Moves past the characters of a symbol.
    fn skip_symbol(&mut self)
        requires
            old(self).wf(),
        ensures
            final(self).wf(),
            final(self).input() == old(self).input(),
            final(self).index() == symbol_end(old(self).input(), old(self).index()),
            old(self).index() <= final(self).index() <= old(self).input().len(),
    {
        let ghost s = self.input();
        let ghost from = self.index();
        loop
            invariant
                self.wf(),
                self.input() == s,
                from <= self.index() <= s.len(),
                symbol_end(s, from) == symbol_end(s, self.index()),
            ensures
                self.index() == symbol_end(s, from),
            decreases s.len() - self.index(),
        {
            match self.iter.peek() {
                Some((_, c, _)) => {
                    if is_symbol_c(c) {
                        self.iter.next();
                    } else {
                        break ;
                    }
                },
                None => {
                    break ;
                },
            }
        }
    }

    /// Reads the rest of a numeral that begins at `start`.
    pub fn read_number(&mut self, start: usize, startpos: Position) -> (r: Result<
        Token,
        ParseError,
    >)
        requires
            old(self).wf(),
            start < old(self).index(),
            startpos.1 < usize::MAX,
        ensures
            final(self).wf(),
            final(self).input() == old(self).input(),
            is_lexed(
                Some(r),
                final(self).index(),
                lex_number(old(self).input(), start as int, old(self).index(), startpos),
            ),
            old(self).index() <= final(self).index() <= old(self).input().len(),
    {
        self.skip_number();
        match self.iter.peek() {
            Some((stop, c, pos)) => {
                if !is_delimiter_c(c) {
                    Err(ParseError::UnexpectedChar(c, pos, while_parsing_text("number", startpos)))
                } else {
                    Ok(Token::new(TokenType::Number(self.text(start, stop)), startpos, pos))
                }
            },
            None => {
                let stop = self.iter.chars.len();
                Ok(Token::new(TokenType::Number(self.text(start, stop)), startpos, startpos.next()))
            },
        }
    }

    /// Reads the rest of a symbol that begins with `symstart` at `start`.
    pub fn read_symbol(&mut self, symstart: char, start: usize, startpos: Position) -> (r: Result<
        Token,
        ParseError,
    >)
        requires
            old(self).wf(),
            old(self).index() == start + 1,
            old(self).index() <= old(self).input().len(),
            symstart == old(self).input()[start as int],
            startpos.1 < usize::MAX,
        ensures
            final(self).wf(),
            final(self).input() == old(self).input(),
            is_lexed(
                Some(r),
                final(self).index(),
                lex_symbol(old(self).input(), start as int, startpos),
            ),
            old(self).index() <= final(self).index() <= old(self).input().len(),
    {
        match self.iter.peek() {
            Some((j, c, pos)) => {
                if is_digit_c(c) && (symstart == '+' || symstart == '-') {
                    self.iter.next();
                    return self.read_number(start, startpos);
                } else if is_delimiter_c(c) {
                    return Ok(Token::new(TokenType::Symbol(self.text(start, j)), startpos, pos));
                }
            },
            None => {
                let stop = self.iter.chars.len();
                return Ok(
                    Token::new(TokenType::Symbol(self.text(start, stop)), startpos, startpos.next()),
                );
            },
        }
        self.iter.next();
        self.skip_symbol();
        match self.iter.peek() {
            Some((stop, c, pos)) => {
                if !is_delimiter_c(c) {
                    Err(ParseError::UnexpectedChar(c, pos, while_parsing_text("symbol", startpos)))
                } else {
                    Ok(Token::new(TokenType::Symbol(self.text(start, stop)), startpos, pos))
                }
            },
            None => {
                let stop = self.iter.chars.len();
                let endpos = self.iter.pos;
                Ok(Token::new(TokenType::Symbol(self.text(start, stop)), startpos, endpos))
            },
        }
    }

    /// Reads the next token: nothing at the end of the text or before a
    /// character that begins no token.
    pub fn next(&mut self) -> (r: Option<Result<Token, ParseError>>)
        requires
            old(self).wf(),
        ensures
            final(self).wf(),
            final(self).input() == old(self).input(),
            is_lexed(r, final(self).index(), lex(old(self).input(), old(self).index())),
            old(self).index() <= final(self).index() <= old(self).input().len(),
            r.is_some() ==> old(self).index() < final(self).index(),
    {
        self.skip_ws();
        match self.iter.next() {
            Some((start, curchar, pos)) => {
                if curchar == '\'' {
                    Some(Ok(Token::new(TokenType::FormLike(FormLike::Quote), pos, pos.next())))
                } else if curchar == '`' {
                    Some(
                        Ok(Token::new(TokenType::FormLike(FormLike::QuasiQuote), pos, pos.next())),
                    )
                } else if curchar == '~' {
                    match self.iter.peek() {
                        Some((_, c, nextpos)) => {
                            if c == '@' {
                                self.iter.next();
                                Some(
                                    Ok(
                                        Token::new(
                                            TokenType::FormLike(FormLike::UnquoteSplicing),
                                            pos,
                                            nextpos.next(),
                                        ),
                                    ),
                                )
                            } else {
                                Some(
                                    Ok(
                                        Token::new(
                                            TokenType::FormLike(FormLike::Unquote),
                                            pos,
                                            pos.next(),
                                        ),
                                    ),
                                )
                            }
                        },
                        None => Some(
                            Ok(Token::new(TokenType::FormLike(FormLike::Unquote), pos, pos.next())),
                        ),
                    }
                } else if is_symbol_start_c(curchar) {
                    Some(self.read_symbol(curchar, start, pos))
                } else if is_digit_c(curchar) {
                    Some(self.read_number(start, pos))
                } else if curchar == '"' {
                    Some(self.read_string(start + 1, pos))
                } else {
                    match Token::new_delim(curchar, pos) {
                        Some(token) => Some(Ok(token)),
                        None => None,
                    }
                }
            },
            None => None,
        }
    }
}

} // verus!
