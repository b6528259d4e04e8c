//! The whole way from a text to its schema and to JSON.

use vstd::prelude::*;
use crate::error::{ErrorView, SchemaError};
use crate::json::{error_json, json_view, schema_json, JsonView};
use crate::lexer::{lex, tokens_of};
use crate::parser::{parse_spreadsheet_schema, schema_of_tokens};
use crate::schema::{SchemaView, SpreadsheetSchema};

verus! {

/// The schema that a text declares, before it is checked: the text is cut
/// into tokens, and the tokens are read as statements.
pub open spec fn schema_of_text(text: Seq<char>) -> Result<SchemaView, ErrorView> {
    match tokens_of(text) {
        Err(e) => Err(ErrorView::Lex { position: e.position }),
        Ok(tokens) => schema_of_tokens(tokens),
    }
}

/// The schema that a text declares, checked: every column has a range that
/// is not inverted and a default, if any, that is a value of its type.
pub open spec fn valid_schema_of_text(text: Seq<char>) -> Result<SchemaView, ErrorView> {
    match schema_of_text(text) {
        Err(e) => Err(e),
        Ok(schema) => match schema.check() {
            Err(e) => Err(e),
            Ok(_) => Ok(schema),
        },
    }
}

/// The JSON value that a text compiles to: that of its schema, or that of
/// the first error.
pub open spec fn compiled(text: Seq<char>) -> JsonView {
    match valid_schema_of_text(text) {
        Ok(schema) => schema_json(schema),
        Err(e) => error_json(e),
    }
}

/// The content of a result that holds a schema.
pub open spec fn schema_result_view(r: Result<SpreadsheetSchema, SchemaError>) -> Result<
    SchemaView,
    ErrorView,
> {
    match r {
        Ok(schema) => Ok(schema@),
        Err(e) => Err(e@),
    }
}

/// Reads the schema that `text` declares, without checking it.
pub fn parse_schema(text: &str) -> (r: Result<SpreadsheetSchema, SchemaError>)
    ensures
        schema_result_view(r) == schema_of_text(text@),
{
    match lex(text) {
        Err(e) => Err(SchemaError::Lex { position: e.position }),
        Ok(tokens) => parse_spreadsheet_schema(&tokens),
    }
}

/// Reads the schema that `text` declares and checks it.
pub fn compile_schema(text: &str) -> (r: Result<SpreadsheetSchema, SchemaError>)
    ensures
        schema_result_view(r) == valid_schema_of_text(text@),
{
    match parse_schema(text) {
        Err(e) => Err(e),
        Ok(schema) => match schema.validate_spreadsheet_schema() {
            Err(e) => Err(e),
            Ok(_) => Ok(schema),
        },
    }
}

/// Compiles `schema_text` to JSON: the JSON form of its schema or, where the
/// text is no valid schema, an object with the message of the first error
/// under the key `err`.
pub fn compile(schema_text: &str) -> (v: serde_json::Value)
    ensures
        json_view(v) == compiled(schema_text@),
{
    match compile_schema(schema_text) {
        Ok(schema) => schema.to_json(),
        Err(e) => e.to_json(),
    }
}

} // verus!
