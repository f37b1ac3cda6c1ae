use ares::{AresError, AresResult, Context, State, Value};

struct Host;

impl State for Host {
    fn tag(&self) -> u64 {
        1
    }

    fn call_native(&mut self, _id: u64, _args: &Vec<Value>, _ctx: &ares::Context) -> AresResult<Value> {
        Err(AresError::InvalidForeignFunctionState)
    }

    fn read_float(&self, text: &str) -> Option<u64> {
        text.parse::<f64>().ok().map(|f| f.to_bits())
    }

    fn show_float(&self, bits: u64) -> String {
        format!("{}", f64::from_bits(bits))
    }
}

fn e(program: &str) -> AresResult<Value> {
    let mut ctx = Context::new();
    let mut host = Host;
    let mut ctx = ctx.load(&mut host);
    ctx.eval_str(program)
}

#[allow(dead_code)]
fn num(i: i64) -> Value {
    Value::Int(i)
}

#[allow(dead_code)]
fn ints(items: &[i64]) -> Value {
    Value::list(items.iter().map(|i| Value::Int(*i)).collect())
}

#[allow(dead_code)]
fn float(f: f64) -> Value {
    Value::Float(f.to_bits())
}

#[test]
fn arithematic_basic_addition() {
    assert_eq!(e("(+)").unwrap(), Value::Int(0));
    assert_eq!(e("(+ 1)").unwrap(), Value::Int(1));
    assert_eq!(e("(+ 1 2)").unwrap(), Value::Int(3));
    assert_eq!(e("(+ 1 (+ 2 3))").unwrap(), Value::Int(6));
}

#[test]
fn arithematic_basic_subtraction() {
    assert_eq!(e("(- 1)").unwrap(), Value::Int(-1));
    assert_eq!(e("(- 1 2)").unwrap(), Value::Int(-1));
    assert_eq!(e("(- 1 (- 2 3))").unwrap(), Value::Int(2));
}

#[test]
fn arithematic_basic_multiplication() {
    assert_eq!(e("(*)").unwrap(), Value::Int(1));
    assert_eq!(e("(* 2)").unwrap(), Value::Int(2));
    assert_eq!(e("(* 2 2)").unwrap(), Value::Int(4));
    assert_eq!(e("(* 2 (* 2 3))").unwrap(), Value::Int(12));
}

#[test]
fn arithematic_basic_division() {
    assert_eq!(e("(/ 2)").unwrap(), Value::Int(2));
    assert_eq!(e("(/ 4 2)").unwrap(), Value::Int(2));
    assert_eq!(e("(/ 8 (/ 4 2))").unwrap(), Value::Int(4));
}

