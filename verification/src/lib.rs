//! A verified parser for Python expressions.
pub mod ast;
pub mod lexer;
pub mod result;
pub mod arglist;
pub mod grammar;
pub mod parser;
pub mod expressions;
pub mod laws;
pub mod lists;
pub mod written;
