//! The untyped lambda calculus: terms with de Bruijn indices, naming
//! contexts, name resolution, call-by-value evaluation and printing.

pub mod command;
pub mod context;
pub mod eval;
pub mod laws;
pub mod print;
pub mod resolve;
pub mod term;

pub use command::{do_command, CommandError};
pub use context::{index2bind, name2index, Binder, Context, CtxNode, Frame};
pub use eval::{eval, EvalError};
pub use print::{get_freshname, pw};
pub use resolve::{make_dbi, Ast, Command, Named, ResolveError};
pub use term::{Lam, Term};
