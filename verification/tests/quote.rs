use ares::{AresError, AresResult, Context, State, Value};

struct Host;

impl State for Host {
    fn tag(&self) -> u64 {
        1
    }

    fn call_native(&mut self, _id: u64, _args: &Vec<Value>, _ctx: &ares::Context) -> AresResult<Value> {
        Err(AresError::InvalidForeignFunctionState)
    }

    fn read_float(&self, text: &str) -> Option<u64> {
        text.parse::<f64>().ok().map(|f| f.to_bits())
    }

    fn show_float(&self, bits: u64) -> String {
        format!("{}", f64::from_bits(bits))
    }
}

fn e(program: &str) -> AresResult<Value> {
    let mut ctx = Context::new();
    let mut host = Host;
    let mut ctx = ctx.load(&mut host);
    ctx.eval_str(program)
}

#[allow(dead_code)]
fn num(i: i64) -> Value {
    Value::Int(i)
}

#[allow(dead_code)]
fn ints(items: &[i64]) -> Value {
    Value::list(items.iter().map(|i| Value::Int(*i)).collect())
}

#[allow(dead_code)]
fn float(f: f64) -> Value {
    Value::Float(f.to_bits())
}

fn s(name: &str, ctx: &mut Context) -> Value {
    Value::Symbol(ctx.intern(name))
}

fn v(items: Vec<Value>) -> Value {
    Value::list(items)
}

#[test]
fn symbol_quote() {
    let mut ctx = Context::new();
    let mut host = Host;
    let mut ctx = ctx.load(&mut host);

    assert_eq!(ctx.eval_str("(quote 5)").unwrap(), num(5));
    assert_eq!(ctx.eval_str("(quote a)").unwrap(), s("a", ctx.ctx));
    assert_eq!(ctx.eval_str("'a").unwrap(), s("a", ctx.ctx));
}

#[test]
fn list_quote() {
    assert_eq!(e("(quote (1 2 3))").unwrap(), Value::list(vec![num(1), num(2), num(3)]));
}

#[test]
fn quasiquote() {
    let mut ctx = Context::new();
    let mut host = Host;
    let mut ctx = ctx.load(&mut host);

    assert_eq!(ctx.eval_str("(let (x 2) `(1 ~x))").unwrap(), Value::list(vec![num(1), num(2)]));
    assert_eq!(
        ctx.eval_str("(let (x '(2 3) y 'a) `(1 ~@x x ~y))").unwrap(),
        v(vec![num(1), num(2), num(3), s("x", ctx.ctx), s("a", ctx.ctx)])
    );
    assert_eq!(ctx.eval_str("(let (x 1) `~x)").unwrap(), Value::Int(1));
    assert_eq!(
        ctx.eval_str(
            "(define unless (lambda (cond body)
                `(if ~cond () ((lambda () ~@body)))))
               (unless true '((+ 1 2)))"
        )
        .unwrap(),
        v(vec![
            s("if", ctx.ctx),
            Value::Bool(true),
            v(vec![]),
            v(vec![v(vec![
                s("lambda", ctx.ctx),
                v(vec![]),
                v(vec![s("+", ctx.ctx), num(1), num(2)])
            ])])
        ])
    );
}

