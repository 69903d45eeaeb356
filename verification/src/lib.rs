//! A mathematical expression parsing and evaluation library.
//!
//! An expression text runs through three stages: the lexer turns it into a
//! token list (consulting a caller-supplied `Scope` to split identifier
//! runs), the parser folds the tokens into a single-rooted tree by operator
//! precedence, and the evaluator walks the tree against builtin registries
//! and the `Scope` to produce a numeric or boolean `Value`.
//!
//! Numbers are carried as IEEE-754 binary64 bit patterns held in `u64`
//! values; see `numerics` for the outside arithmetic relied on and
//! `floatsem` for the comparison semantics proved here.

pub mod constants;
pub mod eval;
pub mod error;
pub mod floatsem;
pub mod functions;
pub mod laws;
pub mod lexer;
pub mod node;
pub mod numerics;
pub mod parser;
pub mod resolve;
pub mod scope;
pub mod tokens;
pub mod util;
pub mod value;

pub use crate::error::Error;
pub use crate::lexer::tokenize;
pub use crate::parser::{compile, eval};
pub use crate::node::{Node, Root};
pub use crate::scope::{Scope, Variable};
pub use crate::value::Value;
