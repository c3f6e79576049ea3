//! The statement-grammar layer of a recursive-descent parser for a small
//! procedural language: it turns source text into an abstract syntax tree of
//! statement nodes. Every parsing function is proved equal to a mathematical
//! grammar stated over `Seq<char>`, success and failure alike.

pub mod ast;
pub mod cursor;
pub mod diag;
pub mod driver;
pub mod expr;
pub mod laws;
pub mod render;
pub mod stmt;
pub mod toolkit;
