//! A minimal Lisp-dialect interpreter: source text is tokenized and parsed
//! into a tree of symbolic values, and that tree is evaluated against a chain
//! of lexical binding frames.
//!
//! Numbers are IEEE-754 double-precision values, carried as their 64-bit
//! encodings; the arithmetic itself is performed by the `rustc_apfloat`
//! software implementation of IEEE-754 behind a small set of trusted
//! wrappers.
pub mod builtins;
pub mod env;
pub mod eval;
pub mod laws;
pub mod lexer;
pub mod numeric;
pub mod parser;
pub mod value;

pub use builtins::{apply_builtin, standard_env, val_eq, StdFn};
pub use eval::{eval, eval_with_fuel, EVAL_DEPTH};
pub use laws::to_text;
pub use lexer::tokenize;
pub use numeric::{abs, min};
pub use parser::{atom, parse, read_from_tokens};
pub use value::{Builtin, Env, LVal, LispError, TypeErrorKind};
