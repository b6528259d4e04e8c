//! A compiler for a small schema-definition language: named tables, typed
//! columns, reusable named types and default values are read from text,
//! validated, and rendered as canonical text or JSON.

pub mod chars;
pub mod digits;
pub mod decimal;
pub mod numeric;
pub mod literal;
pub mod token;
pub mod lexer;
pub mod error;
pub mod datatype;
pub mod schema;
pub mod symbols;
pub mod parser;
pub mod codegen;
pub mod json;
pub mod compile;
pub mod laws;
pub mod canon;
pub mod reading;
pub mod spelling;
pub mod readable;
