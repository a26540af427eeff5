//! A tree-walking interpreter for the Lox language: scanner, parser, static
//! resolver and evaluator, with the value and environment model they share.

pub mod ast;
pub mod ast_printer;
pub mod environment;
pub mod errors;
pub mod evaluator;
pub mod grammar;
pub mod heap;
pub mod interpreter;
pub mod lox;
pub mod number;
pub mod operators;
pub mod parser;
pub mod resolver;
pub mod rpn_printer;
pub mod scanner;
pub mod semantics;
pub mod text;
pub mod token;
pub mod values;
