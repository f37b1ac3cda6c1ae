use ares::{AresError, AresResult, Context, State, Value};

struct Host;

impl State for Host {
    fn tag(&self) -> u64 {
        1
    }

    fn call_native(&mut self, _id: u64, _args: &Vec<Value>, _ctx: &ares::Context) -> AresResult<Value> {
        Err(AresError::InvalidForeignFunctionState)
    }

    fn read_float(&self, text: &str) -> Option<u64> {
        text.parse::<f64>().ok().map(|f| f.to_bits())
    }

    fn show_float(&self, bits: u64) -> String {
        format!("{}", f64::from_bits(bits))
    }
}

fn e(program: &str) -> AresResult<Value> {
    let mut ctx = Context::new();
    let mut host = Host;
    let mut ctx = ctx.load(&mut host);
    ctx.eval_str(program)
}

#[allow(dead_code)]
fn num(i: i64) -> Value {
    Value::Int(i)
}

#[allow(dead_code)]
fn ints(items: &[i64]) -> Value {
    Value::list(items.iter().map(|i| Value::Int(*i)).collect())
}

#[allow(dead_code)]
fn float(f: f64) -> Value {
    Value::Float(f.to_bits())
}

#[test]
fn deep_recursion_needs_no_native_stack() {
    let program = "(define sum (lambda (s) (if (= s 1) 1 (+ s (sum (- s 1))))))
                   (sum 100000)";
    assert_eq!(e(program).unwrap(), num(5000050000));
}

#[test]
fn deep_nesting_of_lets_needs_no_native_stack() {
    let program = "(define down (lambda (n) (let (m (- n 1)) (if (= m 0) 0 (down m)))))
                   (down 50000)";
    assert_eq!(e(program).unwrap(), num(0));
}

#[test]
fn step_limit_ends_a_run() {
    let mut ctx = Context::new().with_step_limit(1000);
    let mut host = Host;
    let mut ctx = ctx.load(&mut host);
    let r = ctx.eval_str("(define spin (lambda () (spin))) (spin)");
    assert!(matches!(r, Err(AresError::StepLimit)));
    // The stack is as it was: the interpreter can be used again.
    assert_eq!(ctx.eval_str("(+ 1 2)").unwrap(), num(3));
}
