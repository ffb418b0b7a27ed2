pub mod lexer;
pub mod ast;
pub mod parser;
pub mod optimizer;
pub mod compiler;
