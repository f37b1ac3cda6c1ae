use std::rc::Rc;
use ares::{AresError, AresResult, Context, State, Value};

struct Host;

impl State for Host {
    fn tag(&self) -> u64 {
        1
    }

    fn call_native(&mut self, _id: u64, _args: &Vec<Value>, _ctx: &ares::Context) -> AresResult<Value> {
        Err(AresError::InvalidForeignFunctionState)
    }

    fn read_float(&self, text: &str) -> Option<u64> {
        text.parse::<f64>().ok().map(|f| f.to_bits())
    }

    fn show_float(&self, bits: u64) -> String {
        format!("{}", f64::from_bits(bits))
    }
}

fn e(program: &str) -> AresResult<Value> {
    let mut ctx = Context::new();
    let mut host = Host;
    let mut ctx = ctx.load(&mut host);
    ctx.eval_str(program)
}

#[allow(dead_code)]
fn num(i: i64) -> Value {
    Value::Int(i)
}

#[allow(dead_code)]
fn ints(items: &[i64]) -> Value {
    Value::list(items.iter().map(|i| Value::Int(*i)).collect())
}

#[allow(dead_code)]
fn float(f: f64) -> Value {
    Value::Float(f.to_bits())
}

fn table(entries: &[(i64, i64)]) -> Value {
    Value::Table(Rc::new(entries.iter().map(|(k, v)| (Value::Int(*k), Value::Int(*v))).collect()))
}

#[test]
fn test_hashmap() {
    assert_eq!(e("(hash-map 1 2 3 4)").unwrap(), table(&[(1, 2), (3, 4)]));
    assert_eq!(e("(define x 2) {1 x 3 4}").unwrap(), table(&[(1, 2), (3, 4)]));
    assert_eq!(e("{1 2 3 4}").unwrap(), table(&[(1, 2), (3, 4)]));
    assert!(matches!(e("(hash-map {} 2)"), Err(AresError::UnexpectedType { .. })));
    assert!(matches!(e("(hash-map [] 2)"), Err(AresError::UnexpectedType { .. })));
    assert!(matches!(e("(define x {}) {x 4}"), Err(AresError::UnexpectedType { .. })));
}

