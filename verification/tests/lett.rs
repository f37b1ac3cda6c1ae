use ares::{AresError, AresResult, Context, State, Value};

struct Host;

impl State for Host {
    fn tag(&self) -> u64 {
        1
    }

    fn call_native(&mut self, _id: u64, _args: &Vec<Value>, _ctx: &ares::Context) -> AresResult<Value> {
        Err(AresError::InvalidForeignFunctionState)
    }

    fn read_float(&self, text: &str) -> Option<u64> {
        text.parse::<f64>().ok().map(|f| f.to_bits())
    }

    fn show_float(&self, bits: u64) -> String {
        format!("{}", f64::from_bits(bits))
    }
}

fn e(program: &str) -> AresResult<Value> {
    let mut ctx = Context::new();
    let mut host = Host;
    let mut ctx = ctx.load(&mut host);
    ctx.eval_str(program)
}

#[allow(dead_code)]
fn num(i: i64) -> Value {
    Value::Int(i)
}

#[allow(dead_code)]
fn ints(items: &[i64]) -> Value {
    Value::list(items.iter().map(|i| Value::Int(*i)).collect())
}

#[allow(dead_code)]
fn float(f: f64) -> Value {
    Value::Float(f.to_bits())
}

#[test]
fn basic_let() {
    assert_eq!(e("(let (a 5) a)").unwrap(), num(5));
    assert_eq!(e("(let () 5)").unwrap(), num(5));
    assert_eq!(e("(define x 10) (let (x 4) x)").unwrap(), num(4));
    assert_eq!(e("(define x 10) (let (x 4) (set x 15) x)").unwrap(), num(15));
    assert_eq!(e("(let (x 4 x 5) x)").unwrap(), num(5));
    assert_eq!(e("(let (x 4 x 5) x)").unwrap(), num(5));
    assert_eq!(e("(let (x 4 y 5) (+ x y))").unwrap(), num(9));
    assert_eq!(e("(let (x 4 y (+ x 1)) y)").unwrap(), num(5));
}

