use ares::{user_fn, AresError, AresResult, Context, State, Value};

/// An embedder whose one function returns a handle to data of its own, or
/// fails with an error of its own.
struct Host {
    fails: bool,
}

impl State for Host {
    fn tag(&self) -> u64 {
        7
    }

    fn call_native(&mut self, id: u64, _args: &Vec<Value>, _ctx: &ares::Context) -> AresResult<Value> {
        if id != 1 {
            return Err(AresError::InvalidForeignFunctionState);
        }
        if self.fails {
            Err(AresError::user_error(Value::user_data(41)))
        } else {
            Ok(Value::user_data(41))
        }
    }

    fn read_float(&self, text: &str) -> Option<u64> {
        text.parse::<f64>().ok().map(|f| f.to_bits())
    }

    fn show_float(&self, bits: u64) -> String {
        format!("{}", f64::from_bits(bits))
    }
}

#[test]
fn user_data() {
    let mut ctx = Context::new();
    ctx.set_fn("ret-tuple", user_fn("ret-tuple", 1, 7));

    let mut host = Host { fails: false };
    let mut ctx = ctx.load(&mut host);

    let tup = ctx.eval_str("(ret-tuple)").unwrap();
    match tup {
        Value::UserData(data) => {
            assert_eq!(data, 41);
        }
        _ => assert!(false, "was not user data"),
    }
}

#[test]
fn user_err() {
    let mut ctx = Context::new();
    ctx.set_fn("ret-tuple", user_fn("ret-tuple", 1, 7));

    let mut host = Host { fails: true };
    let mut ctx = ctx.load(&mut host);

    let tup = ctx.eval_str("(ret-tuple)").unwrap_err();
    match tup {
        AresError::UserError(data) => {
            assert_eq!(data, Value::user_data(41));
        }
        _ => assert!(false, "was not user data"),
    }
}
