//! The query language: tokens, syntax tree, parser, checks and SQL planning.
pub mod lexer;
pub mod ast;
pub mod parser;
pub mod normalize;
pub mod planner;
