use ares::intern::SymbolIntern;
use ares::parse;
use ares::{AresError, AresResult, State, Value};
use std::rc::Rc;

struct Host;

impl State for Host {
    fn tag(&self) -> u64 {
        1
    }

    fn call_native(&mut self, _id: u64, _args: &Vec<Value>, _ctx: &ares::Context) -> AresResult<Value> {
        Err(AresError::InvalidForeignFunctionState)
    }

    fn read_float(&self, text: &str) -> Option<u64> {
        text.parse::<f64>().ok().map(|f| f.to_bits())
    }

    fn show_float(&self, bits: u64) -> String {
        format!("{}", f64::from_bits(bits))
    }
}

fn parse_fail(prog: &str, estr: &str) {
    let mut interner = SymbolIntern::new();
    let parsed = parse(prog, &mut interner, &Host);
    assert!(parsed.is_err());
    let err = parsed.unwrap_err();
    assert_eq!(err.to_string(), estr);
}

fn parse_ok(prog: &str) {
    let mut interner = SymbolIntern::new();
    let parsed = parse(prog, &mut interner, &Host);
    assert!(parsed.is_ok());
}

fn parse_to(prog: &str, v: Value) {
    let mut interner = SymbolIntern::new();
    parse_to_with(prog, v, &mut interner);
}

fn parse_to_with(prog: &str, v: Value, interner: &mut SymbolIntern) {
    let parsed = parse(prog, interner, &Host);
    assert!(parsed.is_ok());
    let values = parsed.unwrap();
    assert_eq!(values[0], v);
}

fn float(f: f64) -> Value {
    Value::Float(f.to_bits())
}

#[test]
fn parentheses() {
    parse_fail("(x y(", "Missing right delimiter )");
    parse_fail("(x y) ()) z", "Extra right delimiter ) at line 1, column 9");
    parse_fail("(x (y (z) \"())))))\"", "Missing right delimiter )");
    parse_ok("(x (y (z \"())))\")))");
}

#[test]
fn strings() {
    parse_fail(
        "x
(\"
sdf",
        "Unterminated string beginning at line 2, column 2",
    );
    parse_fail("x \"\\", "Unterminated string beginning at line 1, column 3");
    parse_fail("x \"\\x2", "Unterminated string beginning at line 1, column 3");
    parse_fail("x \"\\u", "Unterminated string beginning at line 1, column 3");
    parse_to("\"\\\"\"", Value::string("\""));
    parse_to("\"\\x22\"", Value::string("\""));
    parse_to("\"\\u{2764}\"", Value::string("❤"));
    parse_to("\"fo\\no\"", Value::string("fo\no"));
    parse_fail("\"fo\\wo\"", "Invalid escape sequence starting at line 1, column 4: \\w");
    parse_fail("\"\\x99\"", "Invalid escape sequence starting at line 1, column 2: \\x9");
    parse_fail("\"z\\x1x\"", "Invalid escape sequence starting at line 1, column 3: \\x1x");
    parse_fail(
        "\"\\u{999999}\"",
        "Invalid escape sequence starting at line 1, column 2: \\u{999999}",
    );
    parse_fail(
        "(->int \"10\"x 5)",
        "Unexpected character x at line 1, column 12, while parsing a string starting at line 1, column 8",
    );
}

#[allow(overflowing_literals)]
#[test]
fn numbers() {
    parse_fail("(+ 3 32.e.)", "Could not convert 32.e.: invalid float literal");
    parse_to("-500e400", float(-500e400));
    parse_to("-500e4", float(-500e4));
    parse_to("1", Value::Int(1));

    parse_to("+1.0", float(1.0));
    parse_fail(
        "(+ 3z)",
        "Unexpected character z at line 1, column 5, while parsing a number starting at line 1, column 4",
    );
}

#[test]
fn symbols() {
    parse_ok("(foo-bz! ?? *wo+mp* +foo)");
}

#[test]
fn quote() {
    parse_ok("(foo '(1 2))");
    parse_ok("(foo '(1 (2 3) \"df)\"))");
    // these are admittedly weird error messages.
    parse_fail("(foo ')", "Extra right delimiter ) at line 1, column 7");
    parse_fail("(foo '", "Missing right delimiter )");
}

#[test]
fn mapliteral() {
    parse_fail("{1 2 3}", "Map literal at line 1, column 1 is malformed");
    parse_fail("{1 2 {} 4}", "Map literal at line 1, column 1 is malformed");
    parse_fail("{1 2 [1 2] 4}", "Map literal at line 1, column 1 is malformed");
    parse_to("{}", Value::Table(Rc::new(vec![])));
    parse_ok("{\"1\" 2 'a 4 1.0 {1 2}}");
}

#[test]
fn listliteral() {
    parse_ok("[1 2]");
    parse_ok("[1 {1 2}]");
}

#[test]
fn has_expected_quotes() {
    let mut interner = SymbolIntern::new();
    let expected = Value::list(vec![
        Value::Symbol(interner.intern("quote")),
        Value::list(vec![Value::Int(1), Value::Symbol(interner.intern("a"))]),
    ]);
    parse_to_with("[1 'a]", expected, &mut interner);
    let expected = Value::Table(Rc::new(vec![(
        Value::Symbol(interner.intern("a")),
        Value::Symbol(interner.intern("b")),
    )]));
    parse_to_with("{'a 'b}", expected, &mut interner);
}
