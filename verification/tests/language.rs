use ares::{AresError, AresResult, Context, State, Value};
use std::rc::Rc;

struct Host;

impl State for Host {
    fn tag(&self) -> u64 {
        1
    }

    fn call_native(&mut self, _id: u64, _args: &Vec<Value>, _ctx: &ares::Context) -> AresResult<Value> {
        Err(AresError::InvalidForeignFunctionState)
    }

    fn read_float(&self, text: &str) -> Option<u64> {
        text.parse::<f64>().ok().map(|f| f.to_bits())
    }

    fn show_float(&self, bits: u64) -> String {
        format!("{}", f64::from_bits(bits))
    }
}

fn e(program: &str) -> AresResult<Value> {
    let mut ctx = Context::new();
    let mut host = Host;
    let mut ctx = ctx.load(&mut host);
    ctx.eval_str(program)
}

#[allow(dead_code)]
fn num(i: i64) -> Value {
    Value::Int(i)
}

#[allow(dead_code)]
fn ints(items: &[i64]) -> Value {
    Value::list(items.iter().map(|i| Value::Int(*i)).collect())
}

#[allow(dead_code)]
fn float(f: f64) -> Value {
    Value::Float(f.to_bits())
}

fn name_of(r: AresResult<Value>) -> String {
    match r {
        Err(AresError::UndefinedName(n)) => n,
        Err(AresError::AlreadyDefined(n)) => n,
        other => panic!("no name in {:?}", other),
    }
}

#[test]
fn integer_arithmetic_wraps_around() {
    assert_eq!(e("(+ 9223372036854775807 1)").unwrap(), num(i64::MIN));
    assert_eq!(e("(- -9223372036854775808 1)").unwrap(), num(i64::MAX));
    assert_eq!(e("(* 9223372036854775807 2)").unwrap(), num(-2));
    assert_eq!(e("(/ -9223372036854775808 -1)").unwrap(), num(i64::MIN));
    assert_eq!(e("(- -9223372036854775808)").unwrap(), num(i64::MIN));
    assert_eq!(e("(/ 7 2)").unwrap(), num(3));
    assert_eq!(e("(/ -7 2)").unwrap(), num(-3));
    assert_eq!(e("(/ 7 -2)").unwrap(), num(-3));
    assert_eq!(e("(- 10 2 3)").unwrap(), num(5));
    assert_eq!(e("(- 10 2 3 4)").unwrap(), num(1));
    assert_eq!(e("(/ 100 5 2)").unwrap(), num(10));
}

#[test]
fn division_by_zero_is_an_error() {
    match e("(/ 1 0)") {
        Err(AresError::UnexpectedType { value, expected }) => {
            assert_eq!(value, num(0));
            assert_eq!(expected, "a non-zero Int");
        }
        other => panic!("{:?}", other),
    }
}

#[test]
fn arithmetic_needs_integers_and_operands() {
    match e("(+ 1 true)") {
        Err(AresError::UnexpectedType { value, expected }) => {
            assert_eq!(value, Value::Bool(true));
            assert_eq!(expected, "Value::Int");
        }
        other => panic!("{:?}", other),
    }
    match e("(-)") {
        Err(AresError::UnexpectedArity { found, expected }) => {
            assert_eq!(found, 0);
            assert_eq!(expected, "at least 1");
        }
        other => panic!("{:?}", other),
    }
    assert!(matches!(e("(/)"), Err(AresError::UnexpectedArity { .. })));
}

#[test]
fn redefinition_in_the_same_scope_fails() {
    assert_eq!(name_of(e("(define x 1) (define x 2)")), "x");
    // Another scope may hide the name.
    assert_eq!(e("(define x 1) ((lambda () (define x 2) x))").unwrap(), num(2));
    assert_eq!(e("(define x 1) ((lambda () (define x 2) x)) x").unwrap(), num(1));
}

#[test]
fn set_needs_a_binding_and_changes_it_in_place() {
    assert_eq!(name_of(e("(set nowhere 1)")), "nowhere");
    assert_eq!(e("(define x 1) ((lambda () (set x 7))) x").unwrap(), num(7));
    assert_eq!(e("(define x 1) ((lambda (x) (set x 7)) 2) x").unwrap(), num(1));
    assert_eq!(e("(define x 1) (set x (+ x 1))").unwrap(), num(2));
}

#[test]
fn a_call_takes_as_many_arguments_as_the_closure_names() {
    match e("((lambda (a b) (+ a b)) 3)") {
        Err(AresError::UnexpectedArity { found, expected }) => {
            assert_eq!(found, 1);
            assert_eq!(expected, "exactly 2");
        }
        other => panic!("{:?}", other),
    }
    match e("((lambda (a b) (+ a b)) 3 4 5)") {
        Err(AresError::UnexpectedArity { found, expected }) => {
            assert_eq!(found, 3);
            assert_eq!(expected, "exactly 2");
        }
        other => panic!("{:?}", other),
    }
    match e("((lambda (a b . c) c) 3)") {
        Err(AresError::UnexpectedArity { found, expected }) => {
            assert_eq!(found, 1);
            assert_eq!(expected, "at least 2");
        }
        other => panic!("{:?}", other),
    }
    assert_eq!(e("((lambda (a b . c) c) 3 4)").unwrap(), ints(&[]));
    assert_eq!(e("((lambda (a b . c) c) 3 4 5 6)").unwrap(), ints(&[5, 6]));
    assert_eq!(e("((lambda (. rest) rest) 1 2 3)").unwrap(), ints(&[1, 2, 3]));
    assert!(matches!(e("(lambda (x . a . b) x)"), Err(AresError::UnexpectedArgsList(_))));
    assert!(matches!(e("(lambda (x . a b) x)"), Err(AresError::UnexpectedArgsList(_))));
    assert!(matches!(e("(lambda 5 5)"), Err(AresError::UnexpectedArgsList(_))));
    assert!(matches!(e("(lambda (5) 5)"), Err(AresError::UnexpectedType { .. })));
    assert!(matches!(e("(lambda (x))"), Err(AresError::UnexpectedArity { .. })));
}

#[test]
fn a_special_form_is_no_value() {
    assert!(matches!(e("(+ 1 define)"), Err(AresError::AstFunctionPass)));
    assert!(matches!(e("(list if)"), Err(AresError::AstFunctionPass)));
    assert!(matches!(e("quote"), Err(AresError::AstFunctionPass)));
    assert!(matches!(e("((lambda (f) 1) lambda)"), Err(AresError::AstFunctionPass)));
    // A native function that is no special form is a value.
    assert_eq!(e("((lambda (f) (f 1 2)) +)").unwrap(), num(3));
}

#[test]
fn templates() {
    assert_eq!(e("(let (x 2) `(1 ~x))").unwrap(), ints(&[1, 2]));
    assert_eq!(e("(let (x '(2 3)) `(1 ~@x))").unwrap(), ints(&[1, 2, 3]));
    assert_eq!(e("(let (x '(2 3)) `(1 ~@x 4 ~@x))").unwrap(), ints(&[1, 2, 3, 4, 2, 3]));
    assert_eq!(
        e("(let (x 2) `(1 (5 ~x) 3))").unwrap(),
        Value::list(vec![num(1), ints(&[5, 2]), num(3)])
    );
    assert_eq!(e("`5").unwrap(), num(5));
    assert_eq!(e("`()").unwrap(), ints(&[]));
    match e("(let (x 2) `(1 ~@x))") {
        Err(AresError::UnexpectedType { value, expected }) => {
            assert_eq!(value, num(2));
            assert_eq!(expected, "list");
        }
        other => panic!("{:?}", other),
    }
    assert!(matches!(e("(let (x '(2)) `~@x)"), Err(AresError::InvalidUnquotation)));
    assert!(matches!(e("(unquote 1)"), Err(AresError::InvalidUnquotation)));
    assert!(matches!(e("(unquote-splicing 1)"), Err(AresError::InvalidUnquotation)));
}

#[test]
fn to_expand_what_is_expanded_changes_nothing() {
    let mut ctx = Context::new();
    let mut host = Host;
    let mut ctx = ctx.load(&mut host);
    ctx.eval_str(
        "(define-macro begin (lambda forms `((lambda () ~@forms))))
         (define-macro unless (lambda (c b) `(if ~c '() (begin ~@b))))",
    )
    .unwrap();
    let once = ctx.eval_str("(macroexpand '(unless false (4 (unless true (5)))))").unwrap();
    let twice = ctx.macroexpand(once.clone()).unwrap();
    assert_eq!(once, twice);
    let plain = ctx.eval_str("'(+ 1 (list 2 '(begin 3)))").unwrap();
    assert_eq!(ctx.macroexpand(plain.clone()).unwrap(), plain);
    assert_eq!(
        ctx.eval_str("(define-macro unless (lambda (c b) `(if ~c '() ~@b)))")
            .map(|_| ())
            .map_err(|e| format!("{:?}", e)),
        Err("AlreadyDefined(\"unless\")".to_string())
    );
}

#[test]
fn a_macro_that_splices_its_rest() {
    assert_eq!(
        e("(define-macro unless (lambda (c b) `(if ~c '() ~@b))) (unless false 5)").map_err(|_| ()),
        Err(())
    );
    assert_eq!(
        e("(define-macro unless (lambda (c . b) `(if ~c '() ~@b))) (unless false 5)").unwrap(),
        num(5)
    );
}

#[test]
fn quoting_gives_the_value_back() {
    let mut ctx = Context::new();
    let mut host = Host;
    let mut ctx = ctx.load(&mut host);
    for text in ["5", "-7", "2.5", "true", "\"a b\"", "sym", "(1 (2 sym) \"x\")", "()", "{1 2}"] {
        let literal = ctx.ctx.parse(text, &Host).unwrap().remove(0);
        let quote = Value::Symbol(ctx.ctx.intern("quote"));
        let form = Value::list(vec![quote, literal.clone()]);
        assert_eq!(ctx.eval(&form).unwrap(), literal);
    }
}

#[test]
fn scenarios() {
    assert_eq!(e("(+ 1 2 3)").unwrap(), num(6));
    assert_eq!(e("(if (= 1 1) 5 6)").unwrap(), num(5));
    assert_eq!(e("(let (x 4) (set x 15) x)").unwrap(), num(15));
    assert_eq!(
        e("(define sum (lambda (s) (if (= s 1) 1 (+ s (sum (- s 1)))))) (sum 4)").unwrap(),
        num(10)
    );
    assert_eq!(e("(define x 5) (+ x 1)").unwrap(), num(6));
}

#[test]
fn every_error_has_its_cause() {
    assert!(matches!(e(""), Err(AresError::NoProgram)));
    assert!(matches!(e("   \n "), Err(AresError::NoProgram)));
    assert!(matches!(e("(1 2"), Err(AresError::ParseError(_))));
    assert!(matches!(e("()"), Err(AresError::ExecuteEmptyList)));
    match e("(1 2)") {
        Err(AresError::UnexecutableValue(v)) => assert_eq!(v, num(1)),
        other => panic!("{:?}", other),
    }
    assert_eq!(name_of(e("nowhere")), "nowhere");
    assert!(matches!(e("(if 1 2 3)"), Err(AresError::UnexpectedType { .. })));
    assert!(matches!(e("(if true 2)"), Err(AresError::UnexpectedArity { .. })));
    assert!(matches!(e("(let 5 5)"), Err(AresError::UnexpectedType { .. })));
    assert!(matches!(e("(let (x) 5)"), Err(AresError::UnexpectedArity { .. })));
    assert!(matches!(e("(let (5 5) 5)"), Err(AresError::UnexpectedType { .. })));
    assert!(matches!(e("(define 5 5)"), Err(AresError::UnexpectedType { .. })));
    assert!(matches!(e("(define-macro m 5)"), Err(AresError::UnexpectedType { .. })));
    assert!(matches!(e("(apply + 5)"), Err(AresError::UnexpectedType { .. })));
    assert!(matches!(e("(for-each 5 +)"), Err(AresError::UnexpectedType { .. })));
    assert!(matches!(e("(gensym 5)"), Err(AresError::UnexpectedType { .. })));
    assert!(matches!(e("(->bool \"yes\")"), Err(AresError::IllegalConversion { .. })));
    assert!(matches!(e("(->int \"1x\")"), Err(AresError::IllegalConversion { .. })));
    assert!(matches!(e("(->float \"1x\")"), Err(AresError::IllegalConversion { .. })));
    assert!(matches!(e("(unwrap (none))"), Err(AresError::UnwrapNone)));
    assert!(matches!(e("(unwrap 5)"), Err(AresError::UnexpectedType { .. })));
    assert!(matches!(e("(hash-map 1)"), Err(AresError::UnexpectedArity { .. })));
    assert!(matches!(
        e("(define keep 0) (build-list (lambda (push) (set keep push))) (keep 1)"),
        Err(AresError::InvalidState(_))
    ));
}

#[test]
fn a_macro_is_no_value() {
    let mut ctx = Context::new();
    let mut host = Host;
    let mut ctx = ctx.load(&mut host);
    ctx.eval_str("(define-macro m (lambda (x) x))").unwrap();
    let m = ctx.ctx.get("m").unwrap();
    assert!(matches!(m, Value::Lambda(_, true)));
    assert!(matches!(ctx.eval(&m), Err(AresError::MacroReference)));
}

#[test]
fn calls_by_name() {
    let mut ctx = Context::new();
    let mut host = Host;
    let mut ctx = ctx.load(&mut host);
    ctx.eval_str("(define twice (lambda (x) (* 2 x)))").unwrap();
    assert_eq!(ctx.call_named("twice", &vec![num(21)]).unwrap(), num(42));
    assert_eq!(ctx.call_named("+", &vec![num(1), num(2)]).unwrap(), num(3));
    match ctx.call_named("thrice", &vec![num(1)]) {
        Err(AresError::UndefinedName(n)) => assert_eq!(n, "thrice"),
        other => panic!("{:?}", other),
    }
    let twice = ctx.ctx.get("twice").unwrap();
    assert_eq!(ctx.call(&twice, &vec![num(4)]).unwrap(), num(8));
    assert!(matches!(ctx.call(&num(1), &vec![]), Err(AresError::UnexecutableValue(_))));
}

#[test]
fn a_failed_evaluation_leaves_no_frame() {
    let mut ctx = Context::new();
    let mut host = Host;
    let mut ctx = ctx.load(&mut host);
    assert!(ctx.eval_str("((lambda (x) (+ x nowhere)) 1)").is_err());
    assert_eq!(ctx.ctx.stack.len(), 0);
    assert_eq!(ctx.ctx.env_stack.len(), 0);
    assert_eq!(ctx.eval_str("(define x 3) x").unwrap(), num(3));
}

#[test]
fn equality_of_values() {
    assert_eq!(e("(= 1.5 1.5)").unwrap(), Value::Bool(true));
    assert_eq!(e("(= 0.0 -0.0)").unwrap(), Value::Bool(true));
    assert_eq!(e("(= 1 1.0)").unwrap(), Value::Bool(false));
    assert_eq!(e("(= \"a\" \"a\")").unwrap(), Value::Bool(true));
    assert_eq!(e("(= 'a 'a)").unwrap(), Value::Bool(true));
    assert_eq!(e("(= 'a 'b)").unwrap(), Value::Bool(false));
    assert_eq!(e("(= '(1 (2)) '(1 (2)))").unwrap(), Value::Bool(true));
    assert_eq!(e("(= '(1 (2)) '(1 (3)))").unwrap(), Value::Bool(false));
    assert_eq!(e("(= {1 2 3 4} {3 4 1 2})").unwrap(), Value::Bool(true));
    assert_eq!(e("(= {1 2 3 4} {3 4 1 5})").unwrap(), Value::Bool(false));
    assert_eq!(e("(= + +)").unwrap(), Value::Bool(true));
    assert_eq!(e("(= + -)").unwrap(), Value::Bool(false));
    assert_eq!(e("(define f (lambda (x) x)) (= f f)").unwrap(), Value::Bool(true));
    assert_eq!(e("(= (lambda (x) x) (lambda (x) x))").unwrap(), Value::Bool(false));
    assert_eq!(e("(= (some 1) (some 1))").unwrap(), Value::Bool(true));
    assert_eq!(e("(= (none) (some 1))").unwrap(), Value::Bool(false));
    assert!(matches!(e("(= 1)"), Err(AresError::UnexpectedArity { .. })));
    let nan = float(f64::NAN);
    assert!(nan != nan.clone());
    assert_eq!(Value::user_data(3), Value::user_data(3));
    assert!(Value::user_data(3) != Value::user_data(4));
}

#[test]
fn how_values_are_written() {
    let text = |p: &str| match e(p).unwrap() {
        Value::String(s) => (*s).clone(),
        other => panic!("{:?}", other),
    };
    assert_eq!(text("(->string -12)"), "-12");
    assert_eq!(text("(->string -9223372036854775808)"), "-9223372036854775808");
    assert_eq!(text("(->string 'abc)"), "'abc");
    assert_eq!(text("(->string (gensym))").chars().next(), Some('\''));
    assert_eq!(text("(->string +)"), "<#+>");
    assert_eq!(text("(->string (lambda (x) x))"), "<@anonymous>");
    assert_eq!(text("(->string '())"), "[]");
    assert_eq!(text("(->string '(1 (2 3) \"x\"))"), "[1, [2, 3], x]");
    assert_eq!(text("(->string {1 2})"), "{1, 2}");
    assert_eq!(text("(->string (some 1))"), "Some(1)");
    assert_eq!(text("(->string (none))"), "None");
    assert_eq!(text("(->string (list 1.5 2))"), "[1.5, 2]");
    let ctx = Context::new();
    assert_eq!(ctx.format_value(&Value::user_data(9), &Host), "UserData@9");
    assert_eq!(ctx.format_value(&Value::Table(Rc::new(vec![])), &Host), "{}");
}

#[test]
fn the_functions_of_one_integer() {
    assert_eq!(e("(abs -5)").unwrap(), num(5));
    assert_eq!(e("(abs 5)").unwrap(), num(5));
    assert_eq!(e("(abs -9223372036854775808)").unwrap(), num(i64::MIN));
    assert_eq!(e("(signum -5)").unwrap(), num(-1));
    assert_eq!(e("(signum 0)").unwrap(), num(0));
    assert_eq!(e("(signum 9)").unwrap(), num(1));
    assert_eq!(e("(positive? 1)").unwrap(), Value::Bool(true));
    assert_eq!(e("(positive? 0)").unwrap(), Value::Bool(false));
    assert_eq!(e("(negative? -1)").unwrap(), Value::Bool(true));
    assert_eq!(e("(count_ones 0)").unwrap(), num(0));
    assert_eq!(e("(count_ones 7)").unwrap(), num(3));
    assert_eq!(e("(count_ones -1)").unwrap(), num(64));
    assert_eq!(e("(count_ones -9223372036854775808)").unwrap(), num(1));
    assert_eq!(e("(count_zeros 7)").unwrap(), num(61));
    assert_eq!(e("(count_zeros -1)").unwrap(), num(0));
    assert_eq!(e("(leading_zeros 0)").unwrap(), num(64));
    assert_eq!(e("(leading_zeros 1)").unwrap(), num(63));
    assert_eq!(e("(leading_zeros 9223372036854775807)").unwrap(), num(1));
    assert_eq!(e("(leading_zeros -1)").unwrap(), num(0));
    assert_eq!(e("(trailing_zeros 0)").unwrap(), num(64));
    assert_eq!(e("(trailing_zeros 1)").unwrap(), num(0));
    assert_eq!(e("(trailing_zeros 96)").unwrap(), num(5));
    assert_eq!(e("(trailing_zeros -9223372036854775808)").unwrap(), num(63));
    assert_eq!(e("(swap_bytes 1)").unwrap(), num(0x0100_0000_0000_0000));
    assert_eq!(e("(swap_bytes 72623859790382856)").unwrap(), num(0x0807_0605_0403_0201));
    assert_eq!(e("(swap_bytes -2)").unwrap(), num((-2i64).swap_bytes()));
    assert_eq!(e("(swap_bytes (swap_bytes -12345))").unwrap(), num(-12345));
    assert_eq!(e("(->big-endian 258)").unwrap(), num(258i64.to_be()));
    assert_eq!(e("(->little-endian 258)").unwrap(), num(258i64.to_le()));
    assert!(matches!(e("(abs true)"), Err(AresError::UnexpectedType { .. })));
    assert!(matches!(e("(abs 1 2)"), Err(AresError::UnexpectedArity { .. })));
}

#[test]
fn lists_and_maps() {
    assert_eq!(e("(for-each '(1 2 3) (lambda (x) x))").unwrap(), num(3));
    assert_eq!(e("(for-each '() (lambda (x) x))").unwrap(), num(0));
    assert_eq!(e("(filter '(1 2 3 4) (lambda (x) (= 0 (- x (* 2 (/ x 2))))))").unwrap(), ints(&[2, 4]));
    assert_eq!(e("(build-list (lambda (push push-all) (push-all '(1 2) 5 '(3)) (push 4)))").unwrap(), ints(&[1, 2, 3, 4]));
    assert_eq!(
        e("(hash-map 1 2 1 3)").unwrap(),
        Value::Table(Rc::new(vec![(num(1), num(3))]))
    );
    assert_eq!(e("[1 2 3]").unwrap(), ints(&[1, 2, 3]));
    assert_eq!(e("(define x 2) [1 x]").unwrap(), ints(&[1, 2]));
    assert_eq!(e("(list? '(1) '())").unwrap(), Value::Bool(true));
    assert_eq!(e("(symbol? 'a)").unwrap(), Value::Bool(true));
    assert_eq!(e("(lambda? (lambda (x) x))").unwrap(), Value::Bool(true));
    assert_eq!(e("(foreign-fn? +)").unwrap(), Value::Bool(true));
    assert_eq!(e("(executable + (lambda (x) x))").unwrap(), Value::Bool(true));
    assert_eq!(e("(executable 1)").unwrap(), Value::Bool(false));
    assert_eq!(e("(string? \"a\" 1)").unwrap(), Value::Bool(false));
}

#[test]
fn fresh_symbols() {
    let mut ctx = Context::new();
    let mut host = Host;
    let mut ctx = ctx.load(&mut host);
    let a = ctx.eval_str("(gensym)").unwrap();
    let b = ctx.eval_str("(gensym)").unwrap();
    assert!(a != b);
    match ctx.eval_str("(gensym \"tmp\")").unwrap() {
        Value::Symbol(s) => {
            let name = ctx.ctx.interner().lookup(s).unwrap().to_string();
            assert_eq!(name, format!("tmp{}", s.id()));
        }
        other => panic!("{:?}", other),
    }
    assert!(matches!(ctx.eval_str("(gensym 1 2)"), Err(AresError::UnexpectedArity { .. })));
}

#[test]
fn evaluation_in_another_scope() {
    let mut ctx = Context::new();
    let mut host = Host;
    let mut ctx = ctx.load(&mut host);
    ctx.eval_str("(define x 1)").unwrap();
    let x = Value::Symbol(ctx.ctx.intern("x"));
    let symbol = ctx.ctx.intern("x");
    let inner = ctx.ctx.scopes.new_with_data(0, vec![(symbol, num(2))]);
    assert_eq!(ctx.with_other_env(inner, &x).unwrap(), num(2));
    assert_eq!(ctx.eval(&x).unwrap(), num(1));
}

#[test]
fn programs() {
    assert_eq!(
        e("(define fib (lambda (n) (if (or (= n 0) (= n 1)) n (+ (fib (- n 1)) (fib (- n 2))))))
           (fib 15)")
        .unwrap(),
        num(610)
    );
    assert_eq!(
        e("(define factorial (lambda (n) (if (= n 0) 1 (* n (factorial (- n 1))))))
           (factorial 20)")
        .unwrap(),
        num(2432902008176640000)
    );
    // A closure keeps the scope it was made in, and changes it in place.
    assert_eq!(
        e("(define counter (lambda () (let (n 0) (lambda () (set n (+ n 1))))))
           (define a (counter))
           (define b (counter))
           (a) (a) (b)
           (list (a) (b))")
        .unwrap(),
        ints(&[3, 2])
    );
    assert_eq!(
        e("(define compose (lambda (f g) (lambda (x) (f (g x)))))
           ((compose (lambda (x) (* x 2)) (lambda (x) (+ x 1))) 5)")
        .unwrap(),
        num(12)
    );
    assert_eq!(
        e("(fold-left (map (filter '(1 2 3 4 5 6) (lambda (x) (= 0 (- x (* 2 (/ x 2))))))
                           (lambda (x) (* x x)))
                      0 +)")
        .unwrap(),
        num(56)
    );
    assert_eq!(e("(apply (lambda (a . rest) (list a rest)) '(1 2 3))").unwrap(),
        Value::list(vec![num(1), ints(&[2, 3])]));
    assert_eq!(e("(eval '(+ 1 2))").unwrap(), num(3));
    assert_eq!(e("(eval (eval ''(+ 1 2)))").unwrap(), num(3));
    assert_eq!(e("(let (x 1) (let (y 2) (let (x 3) (+ x y))))").unwrap(), num(5));
}

#[test]
fn macros_with_fresh_symbols() {
    assert_eq!(
        e("(define-macro swap-args (lambda (f a b) `(~f ~b ~a)))
           (swap-args - 1 10)")
        .unwrap(),
        num(9)
    );
    assert_eq!(
        e("(define-macro my-or (lambda (a b)
               (let (tmp (gensym \"t\")) `(let (~tmp ~a) (if ~tmp ~tmp ~b)))))
           (define tmp false)
           (list (my-or false true) (my-or tmp false) (my-or true tmp))")
        .unwrap(),
        Value::list(vec![Value::Bool(true), Value::Bool(false), Value::Bool(true)])
    );
    // A macro that is called with evaluated arguments is a closure like another.
    assert_eq!(
        e("(define-macro twice (lambda (x) `(* 2 ~x))) (apply twice '(4))").unwrap(),
        Value::list(vec![
            e("'*").unwrap_or(Value::Bool(false)),
            num(2),
            num(4)
        ])
    );
}

#[test]
fn the_functions_of_one_floating_point_number() {
    assert_eq!(e("(floor 1.5)").unwrap(), num(1));
    assert_eq!(e("(floor -1.5)").unwrap(), num(-2));
    assert_eq!(e("(ceil 1.5)").unwrap(), num(2));
    assert_eq!(e("(ceil -1.5)").unwrap(), num(-1));
    assert_eq!(e("(round 2.5)").unwrap(), num(3));
    assert_eq!(e("(round -2.5)").unwrap(), num(-3));
    assert_eq!(e("(round 2.4)").unwrap(), num(2));
    assert_eq!(e("(trunc -2.9)").unwrap(), num(-2));
    assert_eq!(e("(trunc 1e300)").unwrap(), num(i64::MAX));
    assert_eq!(e("(nan? 1.5)").unwrap(), Value::Bool(false));
    assert_eq!(e("(infinite? 1e999)").unwrap(), Value::Bool(true));
    assert_eq!(e("(finite? 1e999)").unwrap(), Value::Bool(false));
    assert_eq!(e("(normal? 1.0)").unwrap(), Value::Bool(true));
    assert_eq!(e("(normal? 0.0)").unwrap(), Value::Bool(false));
    assert_eq!(e("(sign_positive? 0.0)").unwrap(), Value::Bool(true));
    assert_eq!(e("(sign_negative? -0.0)").unwrap(), Value::Bool(true));
    assert_eq!(e("(->int 1e300)").unwrap(), num(i64::MAX));
    assert_eq!(e("(->int -0.99)").unwrap(), num(0));
    assert_eq!(e("(->float 9007199254740993)").unwrap(), float(9007199254740992.0));
    assert_eq!(e("(->float -3)").unwrap(), float(-3.0));
    match e("(floor 1)") {
        Err(AresError::UnexpectedType { value, expected }) => {
            assert_eq!(value, num(1));
            assert_eq!(expected, "Value::Float");
        }
        other => panic!("{:?}", other),
    }
    assert!(matches!(e("(floor 1.0 2.0)"), Err(AresError::UnexpectedArity { .. })));
}

#[test]
fn literals_of_lists_and_maps() {
    assert_eq!(e("[1 (+ 1 1) 'a]").map(|v| format!("{:?}", v).contains("Int(2)")).unwrap(), true);
    assert_eq!(e("[1 \"two\" 3.5]").unwrap(), Value::list(vec![num(1), Value::string("two"), float(3.5)]));
    assert_eq!(
        e("{1 (+ 1 1) \"k\" 'v}").map(|v| match v {
            Value::Table(entries) => entries.len(),
            _ => 0,
        }).unwrap(),
        2
    );
    assert_eq!(e("(= {1 (+ 1 1)} {1 2})").unwrap(), Value::Bool(true));
    assert_eq!(e("(= [1 2] '(1 2))").unwrap(), Value::Bool(true));
    assert_eq!(e("(= [] '())").unwrap(), Value::Bool(true));
    assert_eq!(e("\"a\\tb\\\"c\\x41\"").unwrap(), Value::string("a\tb\"cA"));
}

#[test]
fn errors_deep_inside() {
    let mut ctx = Context::new();
    let mut host = Host;
    let mut ctx = ctx.load(&mut host);
    assert!(matches!(
        ctx.eval_str("(for-each '(1 2 3) (lambda (x) (if (= x 2) (nowhere) x)))"),
        Err(AresError::UndefinedName(_))
    ));
    assert!(matches!(
        ctx.eval_str("(build-list (lambda (push) (push 1) (let (y (/ 1 0)) y)))"),
        Err(AresError::UnexpectedType { .. })
    ));
    assert!(matches!(
        ctx.eval_str("(map '(1 2) (lambda (x y) x))"),
        Err(AresError::UnexpectedArity { .. })
    ));
    assert_eq!(ctx.ctx.stack.len(), 0);
    assert_eq!(ctx.ctx.env_stack.len(), 0);
    assert_eq!(ctx.eval_str("(map '(1 2) (lambda (x) (+ x 1)))").unwrap(), ints(&[2, 3]));
    // A list that was begun and never completed is not used again.
    assert_eq!(ctx.eval_str("(build-list (lambda (push) (push 7)))").unwrap(), ints(&[7]));
}

#[test]
fn nested_constructions() {
    assert_eq!(
        e("(build-list (lambda (push)
              (for-each '(1 2) (lambda (x)
                  (push (build-list (lambda (inner) (inner x (* x 10)))))))))")
        .unwrap(),
        Value::list(vec![ints(&[1, 10]), ints(&[2, 20])])
    );
    // A macro that is defined only while the program runs was not there when
    // the program was expanded: its call is a call of a closure, and what it
    // returns is a value.
    match e("(let (m 3)
                (define-macro add-m (lambda (x) `(+ ~x ~m)))
                (add-m 4))")
    .unwrap()
    {
        Value::List(items) => assert_eq!(items[1..], [num(4), num(3)]),
        other => panic!("{:?}", other),
    }
    assert_eq!(
        e("(define-macro add-three (lambda (x) `(+ ~x 3)))
           (let (y 4) (add-three (add-three y)))")
        .unwrap(),
        num(10)
    );
    assert_eq!(e("(apply apply (list + (list 1 2)))").unwrap(), num(3));
    assert_eq!(e("(eval (list 'if true ''yes ''no))").map(|v| matches!(v, Value::Symbol(_))).unwrap(), true);
    assert_eq!(e("((if true + -) 5 3)").unwrap(), num(8));
    assert_eq!(e("(define f (lambda (n) (if (= n 0) 'done (f (- n 1))))) (= (f 1000) 'done)").unwrap(), Value::Bool(true));
}
