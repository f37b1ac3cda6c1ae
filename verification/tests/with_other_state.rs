use ares::{user_fn, AresError, AresResult, Context, State, Value};

/// An embedder state that counts the calls of its one function.
struct Counter(i64);

impl State for Counter {
    fn tag(&self) -> u64 {
        3
    }

    fn call_native(&mut self, id: u64, _args: &Vec<Value>, _ctx: &ares::Context) -> AresResult<Value> {
        if id != 0 {
            return Err(AresError::InvalidForeignFunctionState);
        }
        self.0 = self.0 + 1;
        Ok(Value::Int(self.0))
    }

    fn read_float(&self, _text: &str) -> Option<u64> {
        None
    }

    fn show_float(&self, _bits: u64) -> String {
        String::new()
    }
}

#[test]
fn basic_swap() {
    let mut context = Context::new();
    context.set_fn("run", user_fn("run", 0, 3));

    let mut outer = Counter(0);
    let mut inner = Counter(0);
    {
        let mut loaded = context.load(&mut outer);
        assert_eq!(loaded.eval_str("(run)").unwrap(), Value::Int(1));

        {
            let mut new_loaded = loaded.with_other_state(&mut inner);
            assert_eq!(new_loaded.eval_str("(run)").unwrap(), Value::Int(1));
        }
    }
    assert_eq!(outer.0, 1);
    assert_eq!(inner.0, 1);
}

/// An embedder state whose functions read the interpreter.
struct Reader;

impl State for Reader {
    fn tag(&self) -> u64 {
        4
    }

    fn call_native(&mut self, id: u64, args: &Vec<Value>, ctx: &Context) -> AresResult<Value> {
        match id {
            0 => Ok(ctx.get("x").unwrap_or(Value::Bool(false))),
            1 => Ok(Value::string(&ctx.format_value(&args[0], &*self))),
            2 => Ok(Value::Int(ctx.env_stack.len() as i64)),
            _ => Err(AresError::InvalidForeignFunctionState),
        }
    }

    fn read_float(&self, _text: &str) -> Option<u64> {
        None
    }

    fn show_float(&self, _bits: u64) -> String {
        String::new()
    }
}

#[test]
fn an_embedder_function_reads_the_interpreter() {
    let mut context = Context::new();
    context.set_fn("x-now", user_fn("x-now", 0, 4));
    context.set_fn("written", ares::ast_fn("written", 1, 4));
    context.set_fn("depth", user_fn("depth", 2, 4));
    let mut reader = Reader;
    let mut loaded = context.load(&mut reader);
    assert_eq!(loaded.eval_str("(x-now)").unwrap(), Value::Bool(false));
    assert_eq!(loaded.eval_str("(define x 5) (x-now)").unwrap(), Value::Int(5));
    assert_eq!(loaded.eval_str("(let (x 7) (x-now))").unwrap(), Value::Int(7));
    assert_eq!(
        loaded.eval_str("(written (if a (b 1) \"c\"))").unwrap(),
        Value::string("['if, 'a, ['b, 1], c]")
    );
    assert_eq!(loaded.eval_str("(depth)").unwrap(), Value::Int(0));
    assert_eq!(loaded.eval_str("(let (y 1) (depth))").unwrap(), Value::Int(1));
}

/// An embedder state whose functions ask the interpreter for values: a
/// special form `my-if`, and a function `twice` that calls a function on
/// what it gave.
struct Forms {
    waiting: Vec<Vec<Value>>,
    calls: u64,
}

impl State for Forms {
    fn tag(&self) -> u64 {
        8
    }

    fn call_native(&mut self, _id: u64, _args: &Vec<Value>, _ctx: &Context) -> AresResult<Value> {
        Err(AresError::InvalidForeignFunctionState)
    }

    fn answer(&mut self, id: u64, args: &Vec<Value>, _ctx: &Context) -> AresResult<ares::Reply> {
        self.calls += 1;
        match id {
            10 => {
                if args.len() != 3 {
                    return Err(AresError::UnexpectedArity {
                        found: args.len() as u16,
                        expected: "exactly 3".to_string(),
                    });
                }
                self.waiting.push(vec![args[1].clone(), args[2].clone()]);
                Ok(ares::Reply::Eval { tree: args[0].clone(), then: 11 })
            }
            11 => {
                let branches = self.waiting.pop().unwrap();
                let tree = match &args[0] {
                    Value::Bool(true) => branches[0].clone(),
                    _ => branches[1].clone(),
                };
                Ok(ares::Reply::Eval { tree, then: 12 })
            }
            12 => Ok(ares::Reply::Value(args[0].clone())),
            20 => {
                self.waiting.push(vec![args[0].clone()]);
                Ok(ares::Reply::Apply {
                    function: args[0].clone(),
                    args: vec![args[1].clone()],
                    then: 21,
                })
            }
            21 => {
                let function = self.waiting.pop().unwrap().remove(0);
                Ok(ares::Reply::Apply { function, args: vec![args[0].clone()], then: 12 })
            }
            30 => match &args[0] {
                Value::String(text) => {
                    Ok(ares::Reply::Source { text: text.to_string(), then: 12 })
                }
                other => Err(AresError::UnexpectedType {
                    value: other.clone(),
                    expected: "String".to_string(),
                }),
            },
            _ => Err(AresError::InvalidForeignFunctionState),
        }
    }

    fn read_float(&self, _text: &str) -> Option<u64> {
        None
    }

    fn show_float(&self, _bits: u64) -> String {
        String::new()
    }
}

#[test]
fn an_embedder_function_has_its_arguments_evaluated() {
    let mut context = Context::new();
    context.set_fn("my-if", ares::ast_fn("my-if", 10, 8));
    context.set_fn("twice", user_fn("twice", 20, 8));
    let mut forms = Forms { waiting: vec![], calls: 0 };
    {
        let mut loaded = context.load(&mut forms);
        assert_eq!(loaded.eval_str("(my-if (= 1 1) (+ 1 2) (nope))").unwrap(), Value::Int(3));
        assert_eq!(loaded.eval_str("(my-if (= 1 2) (nope) (+ 1 3))").unwrap(), Value::Int(4));
        assert_eq!(loaded.eval_str("(my-if false 1 (my-if true 2 3))").unwrap(), Value::Int(2));
        assert_eq!(loaded.eval_str("(let (x 5) (my-if (= x 5) (+ x 1) 0))").unwrap(), Value::Int(6));
        assert_eq!(loaded.eval_str("(twice (lambda (x) (* x 3)) 2)").unwrap(), Value::Int(18));
        assert_eq!(loaded.eval_str("(twice (lambda (x) (+ x 1)) (twice (lambda (x) (* 2 x)) 1))").unwrap(), Value::Int(6));
        // A program that recurses through the function of the embedder does
        // not recurse in the embedder.
        assert_eq!(
            loaded
                .eval_str("(define count (lambda (n) (my-if (= n 0) 0 (+ 1 (count (- n 1)))))) (count 20000)")
                .unwrap(),
            Value::Int(20000)
        );
        // An error in what the function asked for is the error of the call.
        assert!(matches!(loaded.eval_str("(my-if nope 1 2)"), Err(AresError::UndefinedName(_))));
        assert!(matches!(loaded.eval_str("(twice 5 1)"), Err(AresError::UnexecutableValue(_))));
        assert!(matches!(loaded.eval_str("(my-if 1 2)"), Err(AresError::UnexpectedArity { .. })));
        assert_eq!(loaded.ctx.stack.len(), 0);
        assert_eq!(loaded.ctx.env_stack.len(), 0);
        assert!(loaded.ctx.is_wf());
    }
    assert!(forms.calls > 0);
    // A function that was made for another state is not asked at all.
    let mut other = Counter(0);
    let mut loaded = context.load(&mut other);
    assert!(matches!(
        loaded.eval_str("(my-if true 1 2)"),
        Err(AresError::InvalidForeignFunctionState)
    ));
}

#[test]
fn an_embedder_function_has_a_text_evaluated() {
    let mut context = Context::new();
    context.set_fn("run-text", user_fn("run-text", 30, 8));
    let mut forms = Forms { waiting: vec![], calls: 0 };
    let mut loaded = context.load(&mut forms);
    assert_eq!(loaded.eval_str("(run-text \"(+ 1 2)\")").unwrap(), Value::Int(3));
    assert_eq!(loaded.eval_str("(run-text \"(define y 2) (* y 21)\")").unwrap(), Value::Int(42));
    assert_eq!(loaded.eval_str("y").unwrap(), Value::Int(2));
    // The text is evaluated in the scope of the call.
    assert_eq!(loaded.eval_str("(let (z 3) (run-text \"(+ z 1)\"))").unwrap(), Value::Int(4));
    assert!(matches!(loaded.eval_str("z"), Err(AresError::UndefinedName(_))));
    // A macro that a form defines is expanded in the forms after it.
    assert_eq!(
        loaded
            .eval_str("(run-text \"(define-macro second (lambda (a b) b)) (second (nope) (+ 2 3))\")")
            .unwrap(),
        Value::Int(5)
    );
    // Names that the program has never seen are symbols afterwards.
    assert!(loaded.ctx.interner().symbol_for_name("brand-new").is_none());
    assert_eq!(loaded.eval_str("(run-text \"(quote brand-new)\")").unwrap(),
        Value::Symbol(loaded.ctx.interner().symbol_for_name("brand-new").unwrap()));
    assert!(matches!(loaded.eval_str("(run-text \"(+ 1\")"), Err(AresError::ParseError(_))));
    assert!(matches!(loaded.eval_str("(run-text \"\")"), Err(AresError::NoProgram)));
    assert!(matches!(loaded.eval_str("(run-text \"(nope)\")"), Err(AresError::UndefinedName(_))));
    assert!(matches!(loaded.eval_str("(run-text 5)"), Err(AresError::UnexpectedType { .. })));
    assert_eq!(loaded.eval_str("(+ 1 (run-text \"(run-text \\\"7\\\")\"))").unwrap(), Value::Int(8));
    assert_eq!(loaded.ctx.stack.len(), 0);
    assert_eq!(loaded.ctx.env_stack.len(), 0);
    assert!(loaded.ctx.is_wf());
}
