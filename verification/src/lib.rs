pub mod token;
pub mod numfmt;
pub mod strutil;
pub mod diag;
pub mod ast;
pub mod lexer;
pub mod grammar;
pub mod parser;
pub mod sema;
pub mod analyzer;
pub mod context;
