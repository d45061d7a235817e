pub mod ast;
pub mod lexer;
pub mod lox_error;
pub mod parser;
pub mod text;
