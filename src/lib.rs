//! A scanner and recursive-descent parser for a small SQL dialect
//! (`SELECT ... FROM ... [WHERE ...] [ORDER BY ...];` and `CREATE TABLE`).
//!
//! Each stage is specified by spec functions over mathematical values:
//! the scanner by `tokenizer::lex_all`, the grammar by the functions of
//! `grammar`, and the executable code is proved to agree with them.
pub mod grammar;
pub mod laws;
pub mod parser;
pub mod statement;
pub mod text;
pub mod token;
pub mod tokenizer;

pub use parser::Parser;
pub use statement::{
    BinaryOperator, Constraint, DBType, Expression, Statement, TableColumn, UnaryOperator,
};
pub use token::{Keyword, Token};
pub use tokenizer::Tokenizer;
