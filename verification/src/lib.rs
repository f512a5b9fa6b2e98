//! Lexer and line-driven parser for squint files: text lines describing
//! agents, their init script and their named scripts of scheduled actions.
//!
//! [`tokenize_line`] turns one line into tokens, and [`parse`] turns a whole
//! input into a [`SquintaxTree`]. A line that cannot be read never stops
//! either of them: it is kept as data, for whoever reports it.

pub mod ast;
pub mod lexer;
pub mod lexer_proofs;
pub mod parser;
pub mod parser_proofs;
pub mod text;

pub use ast::{Agent, Instr, Moment, Script, SquintaxTree};
pub use lexer::{tokenize_line, Token};
pub use parser::parse;
