use ares::{AresError, AresResult, Context, State, Value};

struct Host;

impl State for Host {
    fn tag(&self) -> u64 {
        1
    }

    fn call_native(&mut self, _id: u64, _args: &Vec<Value>, _ctx: &ares::Context) -> AresResult<Value> {
        Err(AresError::InvalidForeignFunctionState)
    }

    fn read_float(&self, text: &str) -> Option<u64> {
        text.parse::<f64>().ok().map(|f| f.to_bits())
    }

    fn show_float(&self, bits: u64) -> String {
        format!("{}", f64::from_bits(bits))
    }
}

fn e(program: &str) -> AresResult<Value> {
    let mut ctx = Context::new();
    let mut host = Host;
    let mut ctx = ctx.load(&mut host);
    ctx.eval_str(program)
}

#[allow(dead_code)]
fn num(i: i64) -> Value {
    Value::Int(i)
}

#[allow(dead_code)]
fn ints(items: &[i64]) -> Value {
    Value::list(items.iter().map(|i| Value::Int(*i)).collect())
}

#[allow(dead_code)]
fn float(f: f64) -> Value {
    Value::Float(f.to_bits())
}

#[test]
fn basic() {
    assert_eq!(e("((lambda () 1))").unwrap(), num(1));
    assert_eq!(e("((lambda (a) (+ a 2)) 3)").unwrap(), num(5));
    assert_eq!(e("((lambda (a b) (+ a b)) 3 4)").unwrap(), num(7));
}

#[test]
fn nested() {
    assert_eq!(e("(((lambda (a b)\n            (lambda (c d)\n                (+ a b c d))) 1 2) 3 4)").unwrap(), num(10));
}

#[test]
fn multi_body() {
    assert_eq!(e("(((lambda (a b)\n            5\n            (lambda (c d)\n                (+ a b c d))) 1 2) 3 4)").unwrap(), num(10));
}

#[test]
fn recursive() {
    assert_eq!(e("(define sum\n              (lambda (s)\n                  (if (= s 1)\n                      1\n                      (+ s (sum (- s 1))))))\n          (sum 4)").unwrap(), num(10));
}

#[test]
fn list_params() {
    assert_eq!(e("((lambda l l) 1 2 3)").unwrap(), ints(&[1, 2, 3]));
}

#[test]
fn rest_params() {
    assert_eq!(e("((lambda (x . rest) rest) 1 2 3)").unwrap(), ints(&[2, 3]));
}

