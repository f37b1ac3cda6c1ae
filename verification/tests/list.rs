use ares::{AresError, AresResult, Context, State, Value};

struct Host;

impl State for Host {
    fn tag(&self) -> u64 {
        1
    }

    fn call_native(&mut self, _id: u64, _args: &Vec<Value>, _ctx: &ares::Context) -> AresResult<Value> {
        Err(AresError::InvalidForeignFunctionState)
    }

    fn read_float(&self, text: &str) -> Option<u64> {
        text.parse::<f64>().ok().map(|f| f.to_bits())
    }

    fn show_float(&self, bits: u64) -> String {
        format!("{}", f64::from_bits(bits))
    }
}

fn e(program: &str) -> AresResult<Value> {
    let mut ctx = Context::new();
    let mut host = Host;
    let mut ctx = ctx.load(&mut host);
    ctx.eval_str(program)
}

#[allow(dead_code)]
fn num(i: i64) -> Value {
    Value::Int(i)
}

#[allow(dead_code)]
fn ints(items: &[i64]) -> Value {
    Value::list(items.iter().map(|i| Value::Int(*i)).collect())
}

#[allow(dead_code)]
fn float(f: f64) -> Value {
    Value::Float(f.to_bits())
}

#[test]
fn test_build_list() {
    assert_eq!(e("(build-list (lambda (push) 1))").unwrap(), ints(&[]));
    assert_eq!(e("(build-list (lambda (push) (push 1 2 3)))").unwrap(), ints(&[1, 2, 3]));
    assert_eq!(e("(build-list (lambda (push) (push 1)))").unwrap(), ints(&[1]));
    assert_eq!(e("(build-list (lambda (push) (push 1) (push 2) (push 3)))").unwrap(), ints(&[1, 2, 3]));
    assert_eq!(e("(build-list (lambda (push push-all) (push-all '(1 2 3))))").unwrap(), ints(&[1, 2, 3]));
}

#[test]
fn test_list() {
    assert_eq!(e("(list 1 2 3)").unwrap(), ints(&[1, 2, 3]));
    assert_eq!(e("(list)").unwrap(), ints(&[]));
    assert_eq!(e("(list 1)").unwrap(), ints(&[1]));
}

#[test]
fn test_map() {
    assert_eq!(e("(map (list 1 2 3) (lambda (x) (* x 2)))").unwrap(), ints(&[2, 4, 6]));
    assert_eq!(e("(map '(1 2 3) (lambda (x) (* x 2)))").unwrap(), ints(&[2, 4, 6]));
}

#[test]
fn test_fold_left() {
    assert_eq!(e("(fold-left (list 1 2 3) 0 (lambda (a b) (+ a b)))").unwrap(), num(6));
    assert_eq!(e("(fold-left '(1 2 3) 1 *)").unwrap(), num(6));
}

#[test]
fn test_concat() {
    assert_eq!(e("(concat '(1 2) '(3 4))").unwrap(), ints(&[1, 2, 3, 4]));
}

#[test]
fn test_flatten() {
    assert_eq!(e("(flatten (list '(1 2) '(3 4)))").unwrap(), ints(&[1, 2, 3, 4]));
}

