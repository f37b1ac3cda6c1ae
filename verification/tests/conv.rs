use ares::{AresError, AresResult, Context, State, Value};

struct Host;

impl State for Host {
    fn tag(&self) -> u64 {
        1
    }

    fn call_native(&mut self, _id: u64, _args: &Vec<Value>, _ctx: &ares::Context) -> AresResult<Value> {
        Err(AresError::InvalidForeignFunctionState)
    }

    fn read_float(&self, text: &str) -> Option<u64> {
        text.parse::<f64>().ok().map(|f| f.to_bits())
    }

    fn show_float(&self, bits: u64) -> String {
        format!("{}", f64::from_bits(bits))
    }
}

fn e(program: &str) -> AresResult<Value> {
    let mut ctx = Context::new();
    let mut host = Host;
    let mut ctx = ctx.load(&mut host);
    ctx.eval_str(program)
}

#[allow(dead_code)]
fn num(i: i64) -> Value {
    Value::Int(i)
}

#[allow(dead_code)]
fn ints(items: &[i64]) -> Value {
    Value::list(items.iter().map(|i| Value::Int(*i)).collect())
}

#[allow(dead_code)]
fn float(f: f64) -> Value {
    Value::Float(f.to_bits())
}

#[test]
fn convert_to_int() {
    assert_eq!(e("(->int 5)").unwrap(), num(5));
    assert_eq!(e("(->int 1.2)").unwrap(), num(1));
    assert_eq!(e("(->int \"10\")").unwrap(), num(10));
    assert_eq!(e("(->int true)").unwrap(), num(1));
    assert_eq!(e("(->int false)").unwrap(), num(0));
    assert!(matches!(e("(->int (lambda (a) a))"), Err(AresError::IllegalConversion { .. })));
    // A special form is no value: it cannot even be handed to `->int`.
    assert!(matches!(e("(->int define)"), Err(AresError::AstFunctionPass)));
    assert!(matches!(e("(->int 5 5)"), Err(AresError::UnexpectedArity { .. })));
}

#[test]
fn convert_to_float() {
    assert_eq!(e("(->float 5)").unwrap(), float(5.0));
    assert_eq!(e("(->float 1.2)").unwrap(), float(1.2));
    assert_eq!(e("(->float \"10\")").unwrap(), float(10.0));
    assert_eq!(e("(->float \"10.5\")").unwrap(), float(10.5));
    assert!(matches!(e("(->float (lambda (a) a))"), Err(AresError::IllegalConversion { .. })));
    // A special form is no value: it cannot even be handed to `->float`.
    assert!(matches!(e("(->float define)"), Err(AresError::AstFunctionPass)));
    assert!(matches!(e("(->float 5 5)"), Err(AresError::UnexpectedArity { .. })));
}

#[test]
fn convert_to_bool() {
    assert_eq!(e("(->bool true)").unwrap(), Value::Bool(true));
    assert_eq!(e("(->bool false)").unwrap(), Value::Bool(false));
    assert_eq!(e("(->bool 1)").unwrap(), Value::Bool(true));
    assert_eq!(e("(->bool 0)").unwrap(), Value::Bool(false));
    assert_eq!(e("(->bool 1.0)").unwrap(), Value::Bool(true));
    assert_eq!(e("(->bool 5.0)").unwrap(), Value::Bool(true));
    assert_eq!(e("(->bool 0.0)").unwrap(), Value::Bool(false));
}

#[test]
fn convert_to_string() {
    assert_eq!(e("(->string true)").unwrap(), Value::string("true"));
    assert_eq!(e("(->string false)").unwrap(), Value::string("false"));
    assert_eq!(e("(->string 1)").unwrap(), Value::string("1"));
    assert_eq!(e("(->string 0)").unwrap(), Value::string("0"));
    assert_eq!(e("(->string 1.5)").unwrap(), Value::string("1.5"));
    assert_eq!(e("(->string \"hello\")").unwrap(), Value::string("hello"));
    assert_eq!(e("(->string (list 1 2 3))").unwrap(), Value::string("[1, 2, 3]"));
}

#[test]
fn is_int() {
    assert_eq!(e("(int? 1)").unwrap(), Value::Bool(true));
    assert_eq!(e("(int? 1 2 3)").unwrap(), Value::Bool(true));
    assert_eq!(e("(int? 1 2 false)").unwrap(), Value::Bool(false));
    assert_eq!(e("(int? 1.0)").unwrap(), Value::Bool(false));
    assert_eq!(e("(int? true)").unwrap(), Value::Bool(false));
    assert_eq!(e("(int? false)").unwrap(), Value::Bool(false));
    assert_eq!(e("(int? \"hi\")").unwrap(), Value::Bool(false));
}

#[test]
fn is_float() {
    assert_eq!(e("(float? 1.0)").unwrap(), Value::Bool(true));
    assert_eq!(e("(float? 1)").unwrap(), Value::Bool(false));
    assert_eq!(e("(float? true)").unwrap(), Value::Bool(false));
    assert_eq!(e("(float? false)").unwrap(), Value::Bool(false));
    assert_eq!(e("(float? \"hi\")").unwrap(), Value::Bool(false));
}

#[test]
fn is_bool() {
    assert_eq!(e("(bool? true)").unwrap(), Value::Bool(true));
    assert_eq!(e("(bool? false)").unwrap(), Value::Bool(true));
    assert_eq!(e("(bool? 1)").unwrap(), Value::Bool(false));
    assert_eq!(e("(bool? 1.0)").unwrap(), Value::Bool(false));
    assert_eq!(e("(bool? \"hi\")").unwrap(), Value::Bool(false));
}

