//! Filter-language front end and SQL compiler.
//!
//! Text in the filter language is tokenized, parsed into a query tree, and
//! compiled into SQL statements, with OR-to-IN folding, oversized IN
//! splitting and statement batching.

pub mod token;
pub mod lexer;
pub mod ast;
pub mod parser;
pub mod sql;
pub mod sea;
pub mod sql_compiler;
pub mod mapping;
pub mod config;
pub mod registry;
