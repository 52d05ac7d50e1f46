//! Querydown: a query language for relational databases, parsed into a syntax tree and compiled
//! towards SQL.
pub mod ast;
pub mod decimal;
pub mod strings;
pub mod lex;
pub mod tokens;
pub mod order;
pub mod sql_tree;
pub mod sorting;
pub mod msg;
pub mod syntax;
mod copy;
pub mod tree;
pub mod conditions;
pub mod functions;
pub mod options;
pub mod paths;
pub mod join_tree;
pub mod aliases;
pub mod render;
pub mod nesting;
mod grammar;
mod sections;
pub mod entry;

pub use entry::{parse, parse_conditions, parse_definitions, parse_display, parse_sorting};
