use ares::{AresError, AresResult, Context, State, Value};

struct Host;

impl State for Host {
    fn tag(&self) -> u64 {
        1
    }

    fn call_native(&mut self, _id: u64, _args: &Vec<Value>, _ctx: &ares::Context) -> AresResult<Value> {
        Err(AresError::InvalidForeignFunctionState)
    }

    fn read_float(&self, text: &str) -> Option<u64> {
        text.parse::<f64>().ok().map(|f| f.to_bits())
    }

    fn show_float(&self, bits: u64) -> String {
        format!("{}", f64::from_bits(bits))
    }
}

fn e(program: &str) -> AresResult<Value> {
    let mut ctx = Context::new();
    let mut host = Host;
    let mut ctx = ctx.load(&mut host);
    ctx.eval_str(program)
}

#[allow(dead_code)]
fn num(i: i64) -> Value {
    Value::Int(i)
}

#[allow(dead_code)]
fn ints(items: &[i64]) -> Value {
    Value::list(items.iter().map(|i| Value::Int(*i)).collect())
}

#[allow(dead_code)]
fn float(f: f64) -> Value {
    Value::Float(f.to_bits())
}

#[test]
fn test_and() {
    assert_eq!(e("(and)").unwrap(), Value::Bool(true));
    assert_eq!(e("(and true)").unwrap(), Value::Bool(true));
    assert_eq!(e("(and false)").unwrap(), Value::Bool(false));
    assert_eq!(e("(and true false)").unwrap(), Value::Bool(false));
    assert_eq!(e("(and true true)").unwrap(), Value::Bool(true));
    assert_eq!(e("(and true true false)").unwrap(), Value::Bool(false));
}

#[test]
fn test_or() {
    assert_eq!(e("(or)").unwrap(), Value::Bool(false));
    assert_eq!(e("(or true)").unwrap(), Value::Bool(true));
    assert_eq!(e("(or false true)").unwrap(), Value::Bool(true));
    assert_eq!(e("(or true false)").unwrap(), Value::Bool(true));
    assert_eq!(e("(or false false)").unwrap(), Value::Bool(false));
    assert_eq!(e("(or false)").unwrap(), Value::Bool(false));
}

#[test]
fn test_xor() {
    assert_eq!(e("(xor)").unwrap(), Value::Bool(false));
    assert_eq!(e("(xor true)").unwrap(), Value::Bool(false));
    assert_eq!(e("(xor false)").unwrap(), Value::Bool(false));
    assert_eq!(e("(xor true false)").unwrap(), Value::Bool(true));
    assert_eq!(e("(xor true true false)").unwrap(), Value::Bool(true));
    assert_eq!(e("(xor true false false)").unwrap(), Value::Bool(true));
}

#[test]
fn test_shortcircuit() {
    assert_eq!(e("(define x true)\n         (define setter (lambda () (set! x false)))\n         (and false (setter))\n         x").unwrap(), Value::Bool(true));
    assert_eq!(e("(define x true)\n         (define setter (lambda () (set! x false)))\n         (or true (setter))\n         x").unwrap(), Value::Bool(true));
    assert_eq!(e("(define x true)\n         (define setter (lambda () (set! x false)))\n         (xor true false (setter))\n         x").unwrap(), Value::Bool(true));
}

