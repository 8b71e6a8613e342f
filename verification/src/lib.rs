//! The core of a tree-walking interpreter for a small dynamically-typed
//! scripting language: lexer, parser, resolver and interpreter, with the
//! behaviour of each stage stated in contracts and checked by Verus.
//!
//! Source text becomes tokens (`lexer`), tokens become a syntax tree
//! (`parser`), a static pass computes the scope depth of every variable
//! reference and rejects static errors (`resolver`), and a tree walk evaluates
//! the program (`interpreter`). `fxlang::FxLang` runs the four in order and
//! keeps interpreter state across runs, as a REPL needs.
//!
//! Runtime numbers are IEEE-754 doubles carried as their bit patterns;
//! `numeric` delegates their arithmetic to a software float implementation.
pub mod env;
pub mod error;
pub mod expr;
pub mod fxclass;
pub mod fxfx;
pub mod fxlang;
pub mod fxunit;
pub mod interpreter;
pub mod lexer;
pub mod numeric;
pub mod parser;
pub mod resolver;
pub mod stmt;
pub mod table;
pub mod tokens;
