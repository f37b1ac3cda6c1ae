//! An embeddable interpreter for a small Lisp-like expression language.
//!
//! A host application makes a [`Context`], which knows the standard library,
//! registers native functions of its own in it, and evaluates source text or
//! values with it. The state of the host is handed to each evaluation and
//! reaches the native functions of the host through the trait [`State`]. A
//! native function of the host is called only by an interpreter that was
//! loaded with the kind of state that the function was made for. It sees
//! the interpreter and changes nothing in it; where it needs a value of the
//! program, it answers with a request ([`Reply`]): the interpreter
//! evaluates a tree, calls a function or reads and evaluates a text, on its
//! own stack of frames, and hands the value to the function that the
//! request names.
//!
//! ```text
//! let mut ctx = Context::new();
//! let mut host = ();
//! let mut loaded = ctx.load(&mut host);
//! loaded.eval_str("(define twice (lambda (x) (* 2 x))) (twice 21)")  // 42
//! ```
//!
//! # How a text is evaluated
//!
//! * [`parse`] reads the text: the tokenizer ([`parse::tokens`]) cuts it into
//!   tokens, and the grammar ([`parse::grammar`]) says which values they
//!   write. Symbols are interned ([`intern`]).
//! * The macros of each form are expanded, and what comes of that is
//!   evaluated. Both are runs of one machine ([`eval`]), which works off a
//!   stack of frames and never calls itself: a program that recurses deeply
//!   makes the stack of frames grow, not the stack of the host.
//! * The scopes of a program live in an arena ([`eval::environment`]); a
//!   closure holds the index of the scope it was made in.
//!
//! # What is proved
//!
//! Every function has a contract over a mathematical model of its data: the
//! view of a value is a tree of sequences ([`value::ValueView`]), that of the
//! interpreter a machine state ([`eval::frames::MachineView`]). What a step
//! of the machine does is a function on machine states
//! ([`eval::semantics::step`]), and an evaluation is a run of steps
//! ([`eval::semantics::run`]). The module [`laws`] holds what follows for all
//! programs.
//!
//! A new interpreter is described in full: which names mean which
//! functions, the six that the standard library writes in the language
//! itself with their parameters and bodies, that no other symbol has a
//! value, that no symbol means a macro, and how many symbols and closures
//! there are ([`Context::new`], [`stdlib::loading`]).
//!
//! The interpreter computes on integers, which wrap around. It carries
//! floating-point numbers as bit patterns ([`float`]): it compares,
//! classifies and rounds them itself, and leaves reading, writing and
//! arithmetic to the host. Where the host has a say, a contract states what
//! holds whatever the host answers.

pub mod convert;
pub mod equality;
pub mod error;
pub mod eval;
pub mod float;
pub mod intern;
pub mod laws;
pub mod parse;
pub mod stdlib;
pub mod text;
pub mod util;
pub mod value;

pub use error::{AresError, AresResult};
pub use eval::context::{Context, LoadedContext};
pub use eval::environment::Environment;
pub use eval::foreign_function::{Reply, State, ast_fn, free_fn, user_fn};
pub use parse::parse;
pub use value::{Env, FfType, ForeignFunction, ParamBinding, Procedure, Value};
