use ares::eval::environment::Environment;
use ares::intern::{Symbol, SymbolIntern};
use ares::parse::errors::ParseError;
use ares::parse::tokens::{
    CharIndicesPos, Close, FormLike, Open, Position, Token, TokenIter, TokenType,
};
use ares::parse::util::{can_be_hash_key, immediate_value, unquote};
use ares::stdlib::arithmetic::{add_ints, div_ints, mul_ints, sub_ints, wrapping_quotient};
use ares::stdlib::{expect_arity, forms, math, option, types};
use ares::text::{
    chars_of, parse_i64, push_decimal, push_signed_decimal, push_text, same_text, string_of,
    string_of_range,
};
use ares::util::{IdentityHash, RcSlice};
use ares::{
    ast_fn, free_fn, user_fn, AresError, AresResult, Context, FfType, ParamBinding, Procedure,
    State, Value,
};
use std::rc::Rc;

#[test]
fn interning_is_idempotent() {
    let mut interner = SymbolIntern::new();
    let a = interner.intern("a");
    let b = interner.intern("b");
    assert!(a != b);
    assert_eq!(interner.intern("a"), a);
    assert_eq!(interner.intern("b"), b);
    assert_eq!(interner.symbol_for_name("a"), Some(a));
    assert_eq!(interner.symbol_for_name("c"), None);
    assert!(interner.contains("b"));
    assert!(!interner.contains("c"));
    assert_eq!(interner.lookup(a), Some("a"));
    assert_eq!(interner.len(), 2);
    assert_eq!(a.id(), 0);
    assert_eq!(b, Symbol(1));
}

#[test]
fn generated_symbols_are_fresh() {
    let mut interner = SymbolIntern::new();
    let a = interner.intern("a");
    let g = interner.gen_sym();
    let h = interner.gen_sym();
    assert!(g != a && h != a && g != h);
    assert_eq!(interner.lookup(g), None);
    assert_eq!(interner.lookup_or_anon(g), "s1");
    assert_eq!(interner.lookup_or_anon(a), "a");
    assert_eq!(interner.lookup_or_anon(Symbol(77)), "s77");
    let p = interner.gen_sym_prefix("tmp");
    assert_eq!(interner.lookup(p), Some("tmp3"));
    assert_eq!(interner.symbol_for_name("tmp3"), Some(p));
    // A generated symbol does not take over a name that was interned.
    let old = interner.intern("x5");
    let new = interner.gen_sym_prefix("x");
    assert!(old != new);
    assert_eq!(interner.lookup(new), Some("x5"));
    assert_eq!(interner.symbol_for_name("x5"), Some(old));
    assert_eq!(interner.intern("x5"), old);
    assert_eq!(interner.lookup(old), Some("x5"));
}

#[test]
fn a_generated_symbol_takes_no_name_over() {
    let mut interner = SymbolIntern::new();
    let a = interner.intern("x1");
    let g = interner.gen_sym_prefix("x");
    assert!(g != a);
    assert_eq!(interner.symbol_for_name("x1"), Some(a));
    assert_eq!(interner.intern("x1"), a);
    assert_eq!(interner.len(), 2);
}

#[test]
fn positions() {
    let mut p = Position(1, 0);
    p.advance('a');
    assert_eq!(p, Position(1, 1));
    p.advance('\n');
    assert_eq!(p, Position(2, 0));
    assert_eq!(p.next(), Position(2, 1));
    assert_eq!(Position(3, 4).next(), Position(3, 5));
}

#[test]
fn delimiters_and_forms() {
    assert_eq!(Open::LParen.closed_by(), Close::RParen);
    assert_eq!(Open::LBrace.closed_by(), Close::RBrace);
    assert_eq!(Open::LBracket.closed_by(), Close::RBracket);
    assert_eq!(Close::RParen.to_char(), ')');
    assert_eq!(Close::RBrace.to_char(), '}');
    assert_eq!(Close::RBracket.to_char(), ']');
    assert_eq!(FormLike::Quote.form_name(), "quote");
    assert_eq!(FormLike::QuasiQuote.form_name(), "quasiquote");
    assert_eq!(FormLike::Unquote.form_name(), "unquote");
    assert_eq!(FormLike::UnquoteSplicing.form_name(), "unquote-splicing");
    let t = Token::new_delim('[', Position(2, 3)).unwrap();
    assert!(matches!(t.tt, TokenType::Open(Open::LBracket)));
    assert_eq!(t.start, Position(2, 3));
    assert_eq!(t.end, Position(2, 4));
    assert!(matches!(Token::new_delim('}', Position(1, 1)).unwrap().tt, TokenType::Close(Close::RBrace)));
    assert!(Token::new_delim('x', Position(1, 1)).is_none());
    let t = Token::new(TokenType::Number("1".to_string()), Position(1, 1), Position(1, 2));
    assert!(matches!(t.tt, TokenType::Number(ref s) if s == "1"));
}

#[test]
fn the_cursor_counts_positions() {
    let mut c = CharIndicesPos::new(Position(1, 0), vec!['a', '\n', 'b']);
    assert_eq!(c.peek(), Some((0, 'a', Position(1, 1))));
    assert_eq!(c.next(), Some((0, 'a', Position(1, 1))));
    assert_eq!(c.next(), Some((1, '\n', Position(2, 0))));
    assert_eq!(c.peek(), Some((2, 'b', Position(2, 1))));
    assert_eq!(c.next(), Some((2, 'b', Position(2, 1))));
    assert_eq!(c.next(), None);
    assert_eq!(c.peek(), None);
}

fn tokens(text: &str) -> Vec<Result<Token, ParseError>> {
    let mut iter = TokenIter::new(text);
    let mut out = Vec::new();
    while let Some(t) = iter.next() {
        let failed = t.is_err();
        out.push(t);
        if failed {
            break;
        }
    }
    out
}

fn kinds(text: &str) -> Vec<String> {
    tokens(text)
        .into_iter()
        .map(|t| match t {
            Ok(t) => format!("{:?}", t.tt),
            Err(e) => format!("error: {}", e.to_string()),
        })
        .collect()
}

#[test]
fn the_tokens_of_a_text() {
    assert_eq!(
        kinds("(foo 12 \"a\\tb\" 'x `y ~z ~@w [1] {2})"),
        vec![
            "Open(LParen)",
            "Symbol(\"foo\")",
            "Number(\"12\")",
            "String(\"a\\tb\")",
            "FormLike(Quote)",
            "Symbol(\"x\")",
            "FormLike(QuasiQuote)",
            "Symbol(\"y\")",
            "FormLike(Unquote)",
            "Symbol(\"z\")",
            "FormLike(UnquoteSplicing)",
            "Symbol(\"w\")",
            "Open(LBracket)",
            "Number(\"1\")",
            "Close(RBracket)",
            "Open(LBrace)",
            "Number(\"2\")",
            "Close(RBrace)",
            "Close(RParen)",
        ]
    );
    assert_eq!(kinds("+ - +5 -5 -x 1.5e3"), vec![
        "Symbol(\"+\")",
        "Symbol(\"-\")",
        "Number(\"+5\")",
        "Number(\"-5\")",
        "Symbol(\"-x\")",
        "Number(\"1.5e3\")",
    ]);
    assert_eq!(kinds(""), Vec::<String>::new());
    assert_eq!(kinds("  \n\t "), Vec::<String>::new());
    // A character that begins no token ends the reading.
    assert_eq!(kinds("a \u{0} b"), vec!["Symbol(\"a\")"]);
}

#[test]
fn the_positions_of_tokens() {
    let all = tokens("ab (c\n  12)");
    let spans: Vec<(Position, Position)> =
        all.iter().map(|t| t.as_ref().map(|t| (t.start, t.end)).unwrap()).collect();
    assert_eq!(
        spans,
        vec![
            (Position(1, 1), Position(1, 3)),
            (Position(1, 4), Position(1, 5)),
            (Position(1, 5), Position(2, 0)),
            (Position(2, 3), Position(2, 5)),
            (Position(2, 5), Position(2, 6)),
        ]
    );
    let all = tokens("~@x");
    let t = all[0].as_ref().unwrap();
    assert_eq!((t.start, t.end), (Position(1, 1), Position(1, 3)));
}

#[test]
fn the_classes_of_characters_are_those_of_unicode() {
    // An ideographic space separates, as every white space does.
    assert_eq!(kinds("a\u{3000}b"), vec!["Symbol(\"a\")", "Symbol(\"b\")"]);
    // A letter outside ASCII belongs to a symbol, and can begin one.
    assert_eq!(kinds("\u{e9}t\u{e9}"), vec!["Symbol(\"\u{e9}t\u{e9}\")"]);
    // A numeric character outside ASCII belongs to a symbol, but begins none.
    assert_eq!(kinds("x\u{b2}"), vec!["Symbol(\"x\u{b2}\")"]);
    assert_eq!(kinds("\u{b2}x"), Vec::<String>::new());
    // A character that is neither does not belong to a symbol.
    assert_eq!(
        kinds("ab\u{2192}"),
        vec!["error: Unexpected character \u{2192} at line 1, column 3, while parsing a symbol starting at line 1, column 1"]
    );
    assert!(ares::parse::tokens::is_delimiter_c(' '));
    assert!(ares::parse::tokens::is_delimiter_c('}'));
    assert!(!ares::parse::tokens::is_delimiter_c('a'));
    assert!(ares::parse::tokens::is_number_c('e'));
    assert!(!ares::parse::tokens::is_number_c('f'));
    assert!(ares::parse::tokens::is_symbol_c('!'));
    assert!(!ares::parse::tokens::is_symbol_c('"'));
    assert!(!ares::parse::tokens::is_symbol_c('('));
    assert!(ares::parse::tokens::is_symbol_start_c('*'));
    assert!(!ares::parse::tokens::is_symbol_start_c('7'));
    assert!(!ares::parse::tokens::is_symbol_start_c('\''));
}

#[test]
fn escape_sequences() {
    assert_eq!(kinds("\"\\x41\\x2a\""), vec!["String(\"AQ\")"]);
    assert_eq!(kinds("\"\\u{41}\\'\\r\\n\""), vec!["String(\"A'\\r\\n\")"]);
    // Braces without a digit name the code point 0.
    assert_eq!(kinds("\"\\u{}\""), vec!["String(\"\\0\")"]);
    assert_eq!(
        kinds("\"\\u{123456789}\""),
        vec!["error: Invalid escape sequence starting at line 1, column 2: \\u{1234567"]
    );
    // A digit counts as its distance from `0`, a letter too.
    assert_eq!(kinds("\"\\u{d800}\""), vec!["String(\"\\u{34800}\")"]);
    assert_eq!(
        kinds("\"\\u12}\""),
        vec!["error: Invalid escape sequence starting at line 1, column 2: \\u12}"]
    );
    assert_eq!(kinds("\"\\u}"), vec!["error: Unterminated string beginning at line 1, column 1"]);
}

#[test]
fn messages_of_errors() {
    let e = ParseError::UnexpectedChar('x', Position(1, 12), "while parsing".to_string());
    assert_eq!(e.to_string(), "Unexpected character x at line 1, column 12, while parsing");
    assert_eq!(e.description(), "Unexpected character");
    let e = ParseError::UnterminatedString(Position(20, 300));
    assert_eq!(e.to_string(), "Unterminated string beginning at line 20, column 300");
    assert_eq!(e.description(), "Unterminated string");
    let e = ParseError::ConversionError("1e".to_string(), "no number".to_string());
    assert_eq!(e.to_string(), "Could not convert 1e: no number");
    assert_eq!(e.description(), "no number");
    let e = ParseError::BadEscape(Position(1, 0), "\\q".to_string());
    assert_eq!(e.to_string(), "Invalid escape sequence starting at line 1, column 0: \\q");
    assert_eq!(e.description(), "Bad escape sequence");
    let e = ParseError::MissingRightDelimiter(Close::RBracket);
    assert_eq!(e.to_string(), "Missing right delimiter ]");
    assert_eq!(e.description(), "Missing right delimiter");
    let e = ParseError::ExtraRightDelimiter(Close::RBrace, Position(3, 1));
    assert_eq!(e.to_string(), "Extra right delimiter } at line 3, column 1");
    assert_eq!(e.description(), "Extra right delimiter");
    let e = ParseError::InvalidMapLiteral(Position(1, 1));
    assert_eq!(e.to_string(), "Map literal at line 1, column 1 is malformed");
    assert_eq!(e.description(), "Map literals require an even number of elements");
    assert_eq!(
        ares::parse::errors::while_parsing_text("number", Position(1, 4)),
        "while parsing a number starting at line 1, column 4"
    );
}

#[test]
fn numerals() {
    let p = |s: &str| parse_i64(&s.chars().collect());
    assert_eq!(p("0"), Some(0));
    assert_eq!(p("007"), Some(7));
    assert_eq!(p("+5"), Some(5));
    assert_eq!(p("-5"), Some(-5));
    assert_eq!(p("9223372036854775807"), Some(i64::MAX));
    assert_eq!(p("9223372036854775808"), None);
    assert_eq!(p("-9223372036854775808"), Some(i64::MIN));
    assert_eq!(p("-9223372036854775809"), None);
    assert_eq!(p("99999999999999999999999"), None);
    assert_eq!(p(""), None);
    assert_eq!(p("-"), None);
    assert_eq!(p("+"), None);
    assert_eq!(p("1.5"), None);
    assert_eq!(p("--1"), None);
    assert_eq!(p("1 "), None);
    let mut s = String::from("n=");
    push_decimal(&mut s, 0);
    push_text(&mut s, ",");
    push_decimal(&mut s, 1234567890123456789);
    push_text(&mut s, ",");
    push_decimal(&mut s, u64::MAX);
    push_text(&mut s, ",");
    push_signed_decimal(&mut s, -40);
    push_signed_decimal(&mut s, i64::MIN);
    assert_eq!(s, "n=0,1234567890123456789,18446744073709551615,-40-9223372036854775808");
}

#[test]
fn texts() {
    let chars = chars_of("h\u{e9}llo");
    assert_eq!(chars, vec!['h', '\u{e9}', 'l', 'l', 'o']);
    assert_eq!(string_of(&chars), "h\u{e9}llo");
    assert_eq!(string_of_range(&chars, 1, 3), "\u{e9}l");
    assert_eq!(string_of_range(&chars, 2, 2), "");
    assert!(same_text("ab", "ab"));
    assert!(!same_text("ab", "abc"));
    assert!(ares::text::is_digit_c('7') && !ares::text::is_digit_c('a'));
    assert!(ares::text::is_hex_digit_c('F') && ares::text::is_hex_digit_c('a'));
    assert!(!ares::text::is_hex_digit_c('g'));
}

fn num(i: i64) -> Value {
    Value::Int(i)
}

#[test]
fn scopes() {
    let mut interner = SymbolIntern::new();
    let (x, y, z) = (interner.intern("x"), interner.intern("y"), interner.intern("z"));
    let mut env = Environment::new();
    assert_eq!(env.insert_here(0, x, num(1)), None);
    assert_eq!(env.insert_here(0, y, num(2)), None);
    let inner = env.new_with_data(0, vec![(x, num(10)), (x, num(11))]);
    assert_eq!(inner, 1);
    let innermost = env.new_with_data(inner, vec![]);
    assert_eq!(env.get(innermost, x), Some(num(11)));
    assert_eq!(env.get(innermost, y), Some(num(2)));
    assert_eq!(env.get(innermost, z), None);
    assert_eq!(env.get(0, x), Some(num(1)));
    assert_eq!(env.get(99, x), None);
    assert_eq!(env.find(innermost, x), Some(inner));
    assert_eq!(env.find(innermost, y), Some(0));
    assert!(env.is_defined(innermost, y));
    assert!(!env.is_defined(innermost, z));
    assert!(!env.is_defined_at_this_level(innermost, x));
    assert!(env.is_defined_at_this_level(inner, x));
    assert_eq!(env.with_value(innermost, y), Some(&num(2)));
    // An assignment changes the nearest binding, where it is.
    assert_eq!(env.with_value_mut(innermost, x, num(12)), Some(num(11)));
    assert_eq!(env.get(inner, x), Some(num(12)));
    assert_eq!(env.get(0, x), Some(num(1)));
    assert_eq!(env.with_value_mut(innermost, z, num(0)), None);
    assert_eq!(env.get(innermost, z), None);
    assert_eq!(env.insert_here(inner, x, num(13)), Some(num(12)));
}

fn closure(params: Vec<Symbol>, rest: Option<Symbol>) -> Procedure {
    Procedure::new(
        None,
        Rc::new(vec![num(0)]),
        ParamBinding { params: params, rest: rest },
        0,
        0,
    )
    .unwrap()
}

#[test]
fn the_scope_of_a_call() {
    let mut interner = SymbolIntern::new();
    let (a, b, r) = (interner.intern("a"), interner.intern("b"), interner.intern("r"));
    let mut env = Environment::new();
    let p = closure(vec![a, b], None);
    let scope = p.gen_env(vec![num(1), num(2)], &mut env).unwrap();
    assert_eq!(env.get(scope, a), Some(num(1)));
    assert_eq!(env.get(scope, b), Some(num(2)));
    assert_eq!(env.scopes[scope].parent, Some(0));
    match p.gen_env(vec![num(1)], &mut env) {
        Err(AresError::UnexpectedArity { found, expected }) => {
            assert_eq!((found, expected.as_str()), (1, "exactly 2"));
        }
        other => panic!("{:?}", other),
    }
    assert!(p.gen_env(vec![num(1), num(2), num(3)], &mut env).is_err());
    let p = closure(vec![a], Some(r));
    let scope = p.gen_env(vec![num(1), num(2), num(3)], &mut env).unwrap();
    assert_eq!(env.get(scope, a), Some(num(1)));
    assert_eq!(env.get(scope, r), Some(Value::list(vec![num(2), num(3)])));
    let scope = p.gen_env(vec![num(1)], &mut env).unwrap();
    assert_eq!(env.get(scope, r), Some(Value::list(vec![])));
    match p.gen_env(vec![], &mut env) {
        Err(AresError::UnexpectedArity { found, expected }) => {
            assert_eq!((found, expected.as_str()), (0, "at least 1"));
        }
        other => panic!("{:?}", other),
    }
    // A closure of a scope that the arena does not hold cannot be called.
    let mut elsewhere = closure(vec![], None);
    elsewhere.environment = 50;
    assert!(matches!(elsewhere.gen_env(vec![], &mut env), Err(AresError::InvalidState(_))));
    // A closure has a body.
    let none = Procedure::new(None, Rc::new(vec![]), ParamBinding { params: vec![], rest: None }, 0, 0);
    assert!(matches!(none, Err(AresError::NoLambdaBody)));
}

#[test]
fn native_functions_as_values() {
    let f = free_fn("f", 4, 9);
    assert_eq!((f.name.as_str(), f.typ, f.typeid), ("f", FfType::Free, 9));
    assert_eq!(user_fn("u", 1, 9).typ, FfType::User);
    assert_eq!(ast_fn("a", 1, 9).typ, FfType::Ast);
    let erased = f.clone().erase();
    assert_eq!(Value::ForeignFn(erased.clone()), Value::ForeignFn(f));
    assert!(erased.clone().correct(9).is_ok());
    assert!(erased.correct(8).is_err());
}

/// An embedder state that counts the calls it gets.
struct Calls(u64);

impl State for Calls {
    fn tag(&self) -> u64 {
        5
    }

    fn call_native(&mut self, _id: u64, _args: &Vec<Value>, _ctx: &ares::Context) -> AresResult<Value> {
        self.0 += 1;
        Ok(Value::Int(1))
    }

    fn read_float(&self, _text: &str) -> Option<u64> {
        None
    }

    fn show_float(&self, _bits: u64) -> String {
        String::new()
    }
}

#[test]
fn a_function_for_another_state_is_not_called() {
    struct Other;
    impl State for Other {
        fn tag(&self) -> u64 {
            2
        }
        fn call_native(&mut self, _id: u64, _args: &Vec<Value>, _ctx: &ares::Context) -> AresResult<Value> {
            Ok(Value::Int(1))
        }
        fn read_float(&self, _text: &str) -> Option<u64> {
            None
        }
        fn show_float(&self, _bits: u64) -> String {
            String::new()
        }
    }
    let mut ctx = Context::new();
    ctx.set_fn("mine", free_fn("mine", 0, 2));
    ctx.set_fn("theirs", free_fn("theirs", 0, 5));
    let mut other = Other;
    let mut loaded = ctx.load(&mut other);
    assert_eq!(loaded.eval_str("(mine)").unwrap(), Value::Int(1));
    assert!(matches!(
        loaded.eval_str("(theirs)"),
        Err(AresError::InvalidForeignFunctionState)
    ));
    // The state that holds nothing has no function at all.
    let mut nothing = ();
    let mut loaded = ctx.load(&mut nothing);
    assert!(loaded.eval_str("(mine)").is_err());
    assert!(matches!(loaded.eval_str("1.5"), Err(AresError::ParseError(_))));
    assert_eq!(loaded.eval_str("(+ 1 2)").unwrap(), Value::Int(3));
}

#[test]
fn the_functions_that_only_compute() {
    assert_eq!(add_ints(&vec![]).unwrap(), num(0));
    assert_eq!(add_ints(&vec![num(i64::MAX), num(i64::MAX)]).unwrap(), num(-2));
    assert_eq!(sub_ints(&vec![num(5)]).unwrap(), num(-5));
    assert_eq!(sub_ints(&vec![num(5), num(7)]).unwrap(), num(-2));
    assert_eq!(mul_ints(&vec![num(i64::MIN), num(-1)]).unwrap(), num(i64::MIN));
    assert_eq!(div_ints(&vec![num(9), num(2), num(2)]).unwrap(), num(2));
    assert!(div_ints(&vec![num(9), num(0)]).is_err());
    assert_eq!(wrapping_quotient(i64::MIN, -1), i64::MIN);
    assert_eq!(wrapping_quotient(-9, 2), -4);
    assert_eq!(
        ares::stdlib::arithmetic::concat(&vec![
            Value::string("ab"),
            Value::string(""),
            Value::string("c")
        ])
        .unwrap(),
        Value::string("abc")
    );
    assert!(matches!(
        ares::stdlib::arithmetic::concat(&vec![Value::string("ab"), num(1)]),
        Err(AresError::UnexpectedType { .. })
    ));
    assert_eq!(forms::equals(&vec![num(1), num(1)]).unwrap(), Value::Bool(true));
    assert_eq!(types::to_bool(&vec![Value::string("true")]).unwrap(), Value::Bool(true));
    assert_eq!(types::to_bool(&vec![Value::Float(1u64 << 63)]).unwrap(), Value::Bool(false));
    assert_eq!(types::to_int(&vec![Value::string("-12")]).unwrap(), num(-12));
    assert_eq!(types::is_executable(&vec![]).unwrap(), Value::Bool(true));
    assert_eq!(types::is_string(&vec![Value::string("a")]).unwrap(), Value::Bool(true));
    assert_eq!(option::unwrap(&vec![option::some(&vec![num(3)]).unwrap()]).unwrap(), num(3));
    assert_eq!(option::none(&vec![]).unwrap(), Value::Option(None));
    assert!(option::none(&vec![num(1)]).is_err());
    assert_eq!(math::abs(&vec![num(-3)]).unwrap(), num(3));
    assert_eq!(math::signum(&vec![num(-3)]).unwrap(), num(-1));
    assert_eq!(math::is_positive(&vec![num(-3)]).unwrap(), Value::Bool(false));
    assert_eq!(math::is_negative(&vec![num(-3)]).unwrap(), Value::Bool(true));
    assert!(expect_arity(&vec![num(1)], true, "exactly 1").is_ok());
    match expect_arity(&vec![num(1)], false, "exactly 2") {
        Err(AresError::UnexpectedArity { found, expected }) => {
            assert_eq!((found, expected.as_str()), (1, "exactly 2"));
        }
        other => panic!("{:?}", other),
    }
}

#[test]
fn what_a_literal_may_hold() {
    let mut interner = SymbolIntern::new();
    let quote = Value::Symbol(interner.intern("quote"));
    let a = Value::Symbol(interner.intern("a"));
    let quoted = Value::list(vec![quote.clone(), a.clone()]);
    let quoted_list = Value::list(vec![quote.clone(), Value::list(vec![])]);
    assert!(immediate_value(&num(1), &interner));
    assert!(!immediate_value(&a, &interner));
    assert!(immediate_value(&quoted, &interner));
    assert!(!immediate_value(&Value::list(vec![a.clone(), a.clone()]), &interner));
    assert!(!immediate_value(&Value::list(vec![quote.clone()]), &interner));
    assert!(immediate_value(&Value::Table(Rc::new(vec![(num(1), quoted.clone())])), &interner));
    assert!(!immediate_value(&Value::Table(Rc::new(vec![(num(1), a.clone())])), &interner));
    assert_eq!(unquote(quoted.clone()), a);
    assert_eq!(unquote(num(4)), num(4));
    assert!(can_be_hash_key(&num(1), &interner));
    assert!(can_be_hash_key(&quoted, &interner));
    assert!(!can_be_hash_key(&quoted_list, &interner));
    assert!(!can_be_hash_key(&a, &interner));
    assert!(!can_be_hash_key(&Value::Table(Rc::new(vec![])), &interner));
}

#[test]
fn the_hash_of_a_key_is_the_key() {
    let mut h = IdentityHash::new();
    assert_eq!(h.finish(), 0);
    h.write_u32(77);
    assert_eq!(h.finish(), 77);
    let mut h = IdentityHash::new();
    h.write(&vec![1, 2]);
    assert_eq!(h.finish(), 258);
    h.write(&vec![0xff, 0xff, 0xff]);
    assert_eq!(h.finish(), 0x02ff_ffff);
}

#[test]
fn values_are_shared_not_copied() {
    let list = Value::list(vec![num(1), Value::string("x")]);
    let copy = list.clone();
    assert_eq!(copy, list);
    match (&list, &copy) {
        (Value::List(a), Value::List(b)) => assert!(Rc::ptr_eq(a, b)),
        _ => panic!(),
    }
}

#[test]
fn parts_of_lists() {
    let whole = RcSlice::new(vec![num(1), num(2), num(3)]);
    assert_eq!(whole.len(), 3);
    assert!(!whole.is_empty());
    assert_eq!(whole.get_slice(), vec![num(1), num(2), num(3)]);
    assert_eq!(whole.tail().get_slice(), vec![num(2), num(3)]);
    assert_eq!(whole.init().get_slice(), vec![num(1), num(2)]);
    assert_eq!(whole.slice(1, 2).get_slice(), vec![num(2)]);
    assert!(whole.slice(2, 2).is_empty());
    assert!(RcSlice::empty().is_empty());
    assert_eq!(RcSlice::empty().len(), 0);
    assert_eq!(whole.add(num(4)).get_slice(), vec![num(1), num(2), num(3), num(4)]);
    assert_eq!(
        whole.tail().add_all(vec![num(4), num(5)]).get_slice(),
        vec![num(1), num(2), num(3), num(4), num(5)]
    );
    assert!(Rc::ptr_eq(&whole.data, &whole.tail().data));
}

#[test]
fn values_from_plain_data() {
    assert_eq!(Value::from(5i64), num(5));
    assert_eq!(Value::from(-5i32), num(-5));
    assert_eq!(Value::from(7u32), num(7));
    assert_eq!(Value::from(true), Value::Bool(true));
    assert_eq!(Value::from(Symbol(3)), Value::Symbol(Symbol(3)));
    let v: Value = 9i64.into();
    assert_eq!(v, num(9));
    let e: AresError = ParseError::UnterminatedString(Position(1, 1)).into();
    assert!(matches!(e, AresError::ParseError(ParseError::UnterminatedString(Position(1, 1)))));
    let r: Result<i64, ParseError> =
        ares::parse::errors::parse_error(ParseError::InvalidMapLiteral(Position(1, 2)));
    assert!(matches!(r, Err(ParseError::InvalidMapLiteral(Position(1, 2)))));
}

#[test]
fn a_new_interpreter_knows_the_standard_library() {
    let ctx = Context::new();
    for (name, typ) in [
        ("quote", FfType::Ast),
        ("if", FfType::Ast),
        ("define", FfType::Ast),
        ("lambda", FfType::Ast),
        ("hash-map", FfType::Ast),
        ("+", FfType::Free),
        ("->string", FfType::User),
        ("for-each", FfType::User),
        ("unwrap", FfType::Free),
    ] {
        match ctx.get(name) {
            Some(Value::ForeignFn(f)) => {
                assert_eq!(f.name.as_str(), name);
                assert_eq!(f.typ, typ);
                assert_eq!(f.typeid, 0);
            }
            other => panic!("{} is {:?}", name, other),
        }
    }
    for name in ["list", "map", "fold-left", "filter", "flatten", "concat"] {
        assert!(matches!(ctx.get(name), Some(Value::Lambda(_, false))), "{}", name);
    }
    assert!(ctx.get("nowhere").is_none());
    assert_eq!(ctx.stack.len(), 0);
    assert_eq!(ctx.env(), 0);
    // An interpreter that knows nothing knows not even `quote`.
    let empty = Context::new_empty();
    assert!(empty.get("quote").is_none());
    assert_eq!(empty.interner().len(), 0);
}

#[test]
fn parts_of_the_standard_library() {
    let mut ctx = Context::new_empty();
    ares::stdlib::load_arithmetic(&mut ctx);
    let mut nothing = ();
    {
        let mut loaded = ctx.load(&mut nothing);
        assert_eq!(loaded.eval_str("(+ 1 2)").unwrap(), num(3));
        assert!(matches!(loaded.eval_str("(if true 1 2)"), Err(AresError::UndefinedName(_))));
        loaded.unload();
    }
    ares::stdlib::load_core(&mut ctx);
    ares::stdlib::load_logical(&mut ctx);
    ares::stdlib::load_list(&mut ctx);
    ares::stdlib::load_map(&mut ctx);
    ares::stdlib::load_math(&mut ctx);
    ares::stdlib::load_types(&mut ctx);
    ares::stdlib::load_option(&mut ctx);
    let mut loaded = ctx.load(&mut nothing);
    assert_eq!(loaded.eval_str("(if (and true (int? 1)) (abs -1) 2)").unwrap(), num(1));
    assert!(matches!(loaded.eval_str("(list 1)"), Err(AresError::UndefinedName(_))));
    ares::stdlib::load_prelude(loaded.ctx);
    assert_eq!(loaded.eval_str("(list 1)").unwrap(), Value::list(vec![num(1)]));
}

#[test]
fn forms_that_are_read_are_evaluated_in_turn() {
    let mut ctx = Context::new();
    let mut nothing = ();
    let mut loaded = ctx.load(&mut nothing);
    let trees = loaded.ctx.parse("(define x 2) (* x 21)", &()).unwrap();
    assert_eq!(loaded.eval_all(trees).unwrap(), num(42));
    assert!(matches!(loaded.eval_all(vec![]), Err(AresError::NoProgram)));
    let x = loaded.ctx.interner_mut().intern("x");
    assert_eq!(loaded.eval(&Value::Symbol(x)).unwrap(), num(2));
    // Inside another scope the name can be defined anew.
    let inner = loaded.ctx.scopes.new_with_data(0, vec![]);
    loaded.ctx.env_mut().push(inner);
    assert_eq!(loaded.eval_str("(define x 3) x").unwrap(), num(3));
    loaded.ctx.env_mut().pop();
    assert_eq!(loaded.eval_str("x").unwrap(), num(2));
}

#[test]
fn a_new_interpreter_knows_nothing_else() {
    let ctx = Context::new();
    assert!(ctx.is_wf());
    assert_eq!(ctx.stack.len(), 0);
    assert_eq!(ctx.env_stack.len(), 0);
    assert_eq!(ctx.builders.len(), 0);
    assert_eq!(ctx.scopes.scopes.len(), 1);
    assert_eq!(ctx.state_tag, 0);
    assert_eq!(ctx.next_id, 6);
    assert_eq!(ctx.step_limit, u64::MAX);
    // The native functions, the functions written in the language, and the
    // names of their parameters.
    assert_eq!(ctx.interner().len(), 62 + 14);
    let library = [
        "list", "map", "fold-left", "filter", "flatten", "concat", "quote", "+", "for-each",
    ];
    let bound = ctx.all_defined(0);
    assert_eq!(bound.len(), 62 + 6);
    for (symbol, value) in bound.iter() {
        let name = ctx.interner().lookup(*symbol).unwrap();
        assert_eq!(ctx.get(name).as_ref(), Some(value));
        assert!(matches!(value, Value::ForeignFn(_) | Value::Lambda(_, false)));
    }
    for name in library {
        assert!(ctx.get(name).is_some());
    }
    for name in ["x", "a", "b", "rest", "sum", "nope", "fn", "push", "element", "lists"] {
        assert!(ctx.get(name).is_none(), "{}", name);
    }
}

#[test]
fn the_functions_written_in_the_language() {
    let ctx = Context::new();
    let shape = |name: &str| match ctx.get(name) {
        Some(Value::Lambda(p, false)) => {
            (p.param_names.params.len(), p.param_names.rest.is_some(), p.bodies.len(), p.environment)
        }
        other => panic!("{} is {:?}", name, other),
    };
    assert_eq!(shape("list"), (0, true, 1, 0));
    assert_eq!(shape("map"), (2, false, 1, 0));
    assert_eq!(shape("fold-left"), (3, false, 2, 0));
    assert_eq!(shape("filter"), (2, false, 1, 0));
    assert_eq!(shape("flatten"), (1, false, 1, 0));
    assert_eq!(shape("concat"), (0, true, 1, 0));
    // Each is what its definition in the language evaluates to.
    let mut other = Context::new_empty();
    ares::stdlib::load_natives(&mut other);
    let mut nothing = ();
    let mut loaded = other.load(&mut nothing);
    for (name, text) in [
        ("list", "(lambda list list)"),
        ("map", "(lambda (list fn) (build-list (lambda (push) (for-each list (lambda (element) (push (fn element)))))))"),
        ("fold-left", "(lambda (list default fn) (for-each list (lambda (element) (set default (fn default element)))) default)"),
        ("filter", "(lambda (list fn) (build-list (lambda (push) (for-each list (lambda (element) (if (fn element) (push element) false))))))"),
        ("flatten", "(lambda (list-of-lists) (build-list (lambda (push push-all) (for-each list-of-lists (lambda (sub-list) (push-all sub-list))))))"),
        ("concat", "(lambda lists (flatten lists))"),
    ] {
        let written = match loaded.eval_str(text).unwrap() {
            Value::Lambda(p, false) => p,
            other => panic!("{} is {:?}", name, other),
        };
        let built = match ctx.get(name) {
            Some(Value::Lambda(p, false)) => p,
            other => panic!("{} is {:?}", name, other),
        };
        let names = |p: &Procedure, c: &Context| -> Vec<String> {
            p.param_names.params.iter().map(|s| c.interner().lookup_or_anon(*s)).collect()
        };
        assert_eq!(names(&built, &ctx), names(&written, loaded.ctx), "{}", name);
        assert_eq!(built.param_names.rest.is_some(), written.param_names.rest.is_some());
        assert_eq!(built.bodies.len(), written.bodies.len());
        for (a, b) in built.bodies.iter().zip(written.bodies.iter()) {
            assert_eq!(ctx.format_value(a, &()), loaded.ctx.format_value(b, &()), "{}", name);
        }
    }
}

#[test]
fn the_embedder_is_not_asked_for_a_function_of_another_state() {
    let mut ctx = Context::new();
    ctx.set_fn("mine", free_fn("mine", 0, 5));
    ctx.set_fn("anyones", free_fn("anyones", 1, 0));
    ctx.set_fn("theirs", free_fn("theirs", 2, 6));
    ctx.set_fn("their-form", ast_fn("their-form", 3, 6));
    let mut calls = Calls(0);
    {
        let mut loaded = ctx.load(&mut calls);
        assert_eq!(loaded.ctx.state_tag, 5);
        assert_eq!(loaded.eval_str("(mine)").unwrap(), Value::Int(1));
        assert_eq!(loaded.eval_str("(anyones)").unwrap(), Value::Int(1));
        assert!(matches!(
            loaded.eval_str("(theirs)"),
            Err(AresError::InvalidForeignFunctionState)
        ));
        assert!(matches!(
            loaded.eval_str("(their-form x)"),
            Err(AresError::InvalidForeignFunctionState)
        ));
        assert!(loaded.ctx.is_wf());
        assert_eq!(loaded.ctx.env_stack.len(), 0);
    }
    assert_eq!(calls.0, 2);
    assert!(matches!(free_fn("f", 0, 6).correct(5), Err(_)));
    assert!(matches!(free_fn("f", 0, 6).correct(6), Ok(_)));
    assert!(matches!(free_fn("f", 0, 0).correct(6), Ok(_)));
}

#[test]
fn white_space_is_what_the_tokenizer_skips() {
    let spaces = [
        '\u{9}', '\u{a}', '\u{b}', '\u{c}', '\u{d}', ' ', '\u{85}', '\u{a0}', '\u{1680}',
        '\u{2000}', '\u{2001}', '\u{2002}', '\u{2003}', '\u{2004}', '\u{2005}', '\u{2006}',
        '\u{2007}', '\u{2008}', '\u{2009}', '\u{200a}', '\u{2028}', '\u{2029}', '\u{202f}',
        '\u{205f}', '\u{3000}',
    ];
    let mut code: u32 = 0;
    while code <= 0x10ffff {
        if let Some(c) = char::from_u32(code) {
            assert_eq!(ares::parse::tokens::is_delimiter_c(c) && !"(){}[]'`~\"".contains(c),
                spaces.contains(&c), "{:x}", code);
        }
        code += 1;
    }
    let mut ctx = Context::new();
    let mut nothing = ();
    let mut loaded = ctx.load(&mut nothing);
    for c in spaces {
        let program = format!("(+{}1{}2)", c, c);
        assert_eq!(loaded.eval_str(&program).unwrap(), Value::Int(3), "{:x}", c as u32);
    }
}

#[test]
fn the_bindings_that_are_seen() {
    let mut ctx = Context::new_empty();
    let a = ctx.intern("a");
    let b = ctx.intern("b");
    let c = ctx.intern("c");
    ctx.set("a", Value::Int(1));
    ctx.set("b", Value::Int(2));
    let inner = ctx.new_scope();
    assert_eq!(inner, 1);
    assert!(ctx.is_wf());
    ctx.scopes.insert_here(inner, b, Value::Int(20));
    ctx.scopes.insert_here(inner, c, Value::Int(30));
    assert_eq!(ctx.all_defined(0), vec![(a, Value::Int(1)), (b, Value::Int(2))]);
    assert_eq!(
        ctx.all_defined(inner),
        vec![(a, Value::Int(1)), (b, Value::Int(20)), (c, Value::Int(30))]
    );
    assert_eq!(ctx.scopes.all_defined(inner, 2), vec![(a, Value::Int(1)), (b, Value::Int(20))]);
    assert_eq!(ctx.all_defined(7), vec![]);
    // A scope that comes before its parent makes the state ill formed.
    ctx.scopes.scopes[0].parent = Some(1);
    assert!(!ctx.is_wf());
    ctx.scopes.scopes[0].parent = None;
    assert!(ctx.is_wf());
    ctx.env_stack.push(9);
    assert!(!ctx.is_wf());
}

#[test]
fn a_map_has_each_key_once() {
    let mut ctx = Context::new();
    let mut nothing = ();
    let mut loaded = ctx.load(&mut nothing);
    match loaded.eval_str("(hash-map 1 2 3 4 1 5)").unwrap() {
        Value::Table(entries) => {
            assert_eq!(*entries, vec![(Value::Int(1), Value::Int(5)), (Value::Int(3), Value::Int(4))]);
        }
        other => panic!("{:?}", other),
    }
    let mut entries = vec![];
    ares::stdlib::map::table_insert(&mut entries, Value::Int(1), Value::Int(2));
    ares::stdlib::map::table_insert(&mut entries, Value::string("a"), Value::Int(3));
    ares::stdlib::map::table_insert(&mut entries, Value::Int(1), Value::Int(4));
    assert_eq!(entries, vec![(Value::Int(1), Value::Int(4)), (Value::string("a"), Value::Int(3))]);
}

#[test]
fn a_failing_step_leaves_the_scope_as_it_was() {
    let mut ctx = Context::new();
    let mut nothing = ();
    let mut loaded = ctx.load(&mut nothing);
    for program in [
        "(let (x 1) (set y 2))",
        "((lambda (a) (set nowhere a)) 1)",
        "(let (x 1) ((lambda () (define-macro m 5))))",
        "((lambda (a b) a) 1)",
    ] {
        assert!(loaded.eval_str(program).is_err(), "{}", program);
        assert_eq!(loaded.ctx.env_stack.len(), 0, "{}", program);
        assert_eq!(loaded.ctx.stack.len(), 0, "{}", program);
        assert!(loaded.ctx.is_wf());
    }
    assert!(loaded.ctx.get("m").is_none());
}

#[test]
fn what_an_answer_of_the_embedder_leads_to() {
    let mut ctx = Context::new();
    let f = ast_fn("form", 1, 3);
    assert!(ares::stdlib::from_reply(f.clone(), Ok(ares::Reply::Value(Value::Int(4))), &mut ctx, &()).is_ok());
    assert_eq!(ctx.stack.len(), 1);
    assert!(matches!(ctx.stack[0], ares::eval::frames::StepState::Complete(Value::Int(4))));
    ctx.stack.clear();
    let tree = Value::list(vec![Value::Int(1)]);
    assert!(ares::stdlib::from_reply(
        f.clone(),
        Ok(ares::Reply::Eval { tree: tree.clone(), then: 9 }),
        &mut ctx,
        &()
    )
    .is_ok());
    assert_eq!(ctx.stack.len(), 2);
    match &ctx.stack[0] {
        ares::eval::frames::StepState::HostThen { function } => {
            assert_eq!(function.function, ares::value::Native::Host(9));
            assert_eq!((function.name.as_str(), function.typ, function.typeid), ("form", FfType::Ast, 3));
        }
        other => panic!("{:?}", other),
    }
    match &ctx.stack[1] {
        ares::eval::frames::StepState::EvalThis(v, false) => assert_eq!(*v, tree),
        other => panic!("{:?}", other),
    }
    ctx.stack.clear();
    assert!(ares::stdlib::from_reply(
        f.clone(),
        Ok(ares::Reply::Apply { function: Value::Int(1), args: vec![Value::Int(2)], then: 7 }),
        &mut ctx,
        &()
    )
    .is_ok());
    assert_eq!(ctx.stack.len(), 2);
    assert!(matches!(&ctx.stack[1], ares::eval::frames::StepState::Call { function: Value::Int(1), args } if args.len() == 1));
    ctx.stack.clear();
    assert!(matches!(
        ares::stdlib::from_reply(f.clone(), Err(AresError::NoProgram), &mut ctx, &()),
        Err(AresError::NoProgram)
    ));
    assert_eq!(ctx.stack.len(), 0);
    // The forms of a text are expanded and evaluated in turn.
    let forms = vec![Value::Int(1), Value::Int(2)];
    assert!(ares::stdlib::from_source(f.clone(), 5, Ok(forms), &mut ctx).is_ok());
    assert_eq!(ctx.stack.len(), 3);
    assert!(matches!(&ctx.stack[0], ares::eval::frames::StepState::HostThen { function } if function.function == ares::value::Native::Host(5)));
    assert!(matches!(&ctx.stack[1], ares::eval::frames::StepState::EvaluatingLambda { next: 1, .. }));
    match &ctx.stack[2] {
        ares::eval::frames::StepState::EvalThis(Value::List(call), false) => {
            assert_eq!(call.len(), 2);
            assert!(matches!(&call[0], Value::ForeignFn(eval) if eval.function == ares::value::Native::Eval));
        }
        other => panic!("{:?}", other),
    }
    ctx.stack.clear();
    assert!(matches!(
        ares::stdlib::from_source(f.clone(), 5, Ok(vec![]), &mut ctx),
        Err(AresError::NoProgram)
    ));
    assert!(matches!(
        ares::stdlib::from_source(f, 5, Err(ParseError::UnterminatedString(Position(1, 1))), &mut ctx),
        Err(AresError::ParseError(ParseError::UnterminatedString(Position(1, 1))))
    ));
    assert_eq!(ctx.stack.len(), 0);
    // A numeral that writes no integer is what the embedder reads it as.
    assert_eq!(
        ares::parse::float_from_read("1.5".to_string(), Some(0x3ff8_0000_0000_0000)).unwrap(),
        Value::Float(0x3ff8_0000_0000_0000)
    );
    assert!(matches!(
        ares::parse::float_from_read("1.5.5".to_string(), None),
        Err(ParseError::ConversionError(text, why)) if text == "1.5.5" && why == "invalid float literal"
    ));
}
