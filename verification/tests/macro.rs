use ares::{AresError, AresResult, Context, State, Value};

struct Host;

impl State for Host {
    fn tag(&self) -> u64 {
        1
    }

    fn call_native(&mut self, _id: u64, _args: &Vec<Value>, _ctx: &ares::Context) -> AresResult<Value> {
        Err(AresError::InvalidForeignFunctionState)
    }

    fn read_float(&self, text: &str) -> Option<u64> {
        text.parse::<f64>().ok().map(|f| f.to_bits())
    }

    fn show_float(&self, bits: u64) -> String {
        format!("{}", f64::from_bits(bits))
    }
}

fn e(program: &str) -> AresResult<Value> {
    let mut ctx = Context::new();
    let mut host = Host;
    let mut ctx = ctx.load(&mut host);
    ctx.eval_str(program)
}

#[allow(dead_code)]
fn num(i: i64) -> Value {
    Value::Int(i)
}

#[allow(dead_code)]
fn ints(items: &[i64]) -> Value {
    Value::list(items.iter().map(|i| Value::Int(*i)).collect())
}

#[allow(dead_code)]
fn float(f: f64) -> Value {
    Value::Float(f.to_bits())
}

fn s(name: &str, ctx: &mut Context) -> Value {
    Value::Symbol(ctx.intern(name))
}

fn v(items: Vec<Value>) -> Value {
    Value::list(items)
}

#[test]
fn simple_macros() {
    let mut ctx = Context::new();
    let mut host = Host;
    let mut ctx = ctx.load(&mut host);

    assert_eq!(
        e("(define-macro begin (lambda forms `((lambda () ~@forms))))
              (begin 4 5)")
        .unwrap(),
        Value::Int(5)
    );

    assert_eq!(
        e("(define-macro begin (lambda forms `((lambda () ~@forms))))
              (define-macro unless (lambda (cod then) `(if ~cod '() (begin ~@then))))
              (unless false (begin 4 5))")
        .unwrap(),
        Value::Int(5)
    );

    assert_eq!(
        ctx.eval_str(
            "(define-macro begin (lambda forms `((lambda () ~@forms))))
         (define-macro unless (lambda (cod then) `(if ~cod '() (begin ~@then))))
         (macroexpand '(unless false (4 5)))"
        )
        .unwrap(),
        v(vec![
            s("if", ctx.ctx),
            Value::Bool(false),
            v(vec![s("quote", ctx.ctx), v(vec![])]),
            v(vec![v(vec![s("lambda", ctx.ctx), v(vec![]), num(4), num(5)])])
        ])
    );
}

