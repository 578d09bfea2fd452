//! A small relational engine: schema-typed tables held in a database, and a
//! SQL front end (lexer, parser, executor) that checks every statement
//! against the stored schemas.

pub mod text;
pub mod error;
pub mod types;
pub mod schema;
pub mod row;
pub mod table;
pub mod db;
pub mod token;
pub mod lexer;
pub mod ast;
pub mod parser;
pub mod executor;
pub mod session;
pub mod storage;
