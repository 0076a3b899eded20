//! Veltrix: an indentation-structured scripting language with a lexer,
//! a recursive-descent parser, a semantic analyzer and a tree-walking
//! interpreter, each specified against a mathematical model.

pub mod text;
pub mod lexer;
pub mod parser;
pub mod interpreter;
pub mod native;
pub mod semantic;
pub mod repl;
pub mod pipeline;
pub mod file_loader;
pub mod validation;
pub mod cli;
