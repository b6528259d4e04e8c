//! The ways in which compiling a schema fails.

use vstd::prelude::*;
use crate::chars::{chars_of, push_chars, string_of};
use crate::digits::{nat_text, push_nat};

verus! {

/// Why a text is no valid schema.
#[derive(Debug)]
pub enum SchemaError {
    /// No token starts at the byte offset `position`.
    Lex { position: usize },
    /// The token at index `position` is not what the grammar asks for there.
    Parse { position: usize },
    /// What follows the last complete statement is no statement.
    TrailingInput,
    /// A type or a table is declared under a name that is taken.
    DuplicateSymbol { name: String },
    /// A column refers to a type that no earlier statement declares.
    UnknownType { name: String },
    /// A table has two columns of one name.
    DuplicateColumn { name: String },
    /// The lower bound of a type is above its upper bound.
    InvalidRange { min: String, max: String },
    /// The default value of a column is not a value of the column's type.
    InvalidDefault,
}

/// The mathematical content of a [`SchemaError`].
pub enum ErrorView {
    Lex { position: usize },
    Parse { position: usize },
    TrailingInput,
    DuplicateSymbol { name: Seq<char> },
    UnknownType { name: Seq<char> },
    DuplicateColumn { name: Seq<char> },
    InvalidRange { min: Seq<char>, max: Seq<char> },
    InvalidDefault,
}

impl View for SchemaError {
    type V = ErrorView;

    open spec fn view(&self) -> ErrorView {
        match self {
            SchemaError::Lex { position } => ErrorView::Lex { position: *position },
            SchemaError::Parse { position } => ErrorView::Parse { position: *position },
            SchemaError::TrailingInput => ErrorView::TrailingInput,
            SchemaError::DuplicateSymbol { name } => ErrorView::DuplicateSymbol { name: name@ },
            SchemaError::UnknownType { name } => ErrorView::UnknownType { name: name@ },
            SchemaError::DuplicateColumn { name } => ErrorView::DuplicateColumn { name: name@ },
            SchemaError::InvalidRange { min, max } => ErrorView::InvalidRange {
                min: min@,
                max: max@,
            },
            SchemaError::InvalidDefault => ErrorView::InvalidDefault,
        }
    }
}

impl ErrorView {
    /// Whether the error is about a name: one that is taken, or one that is
    /// not declared.
    pub open spec fn is_symbol_error(self) -> bool {
        self is DuplicateSymbol || self is UnknownType || self is DuplicateColumn
    }

    /// The error in words.
    pub open spec fn message(self) -> Seq<char> {
        match self {
            ErrorView::Lex { position } => "Unmatched input at position "@ + nat_text(
                position as nat,
            ),
            ErrorView::Parse { position } => "Unexpected input at token "@ + nat_text(
                position as nat,
            ),
            ErrorView::TrailingInput => "Schema ended prematurely."@,
            ErrorView::DuplicateSymbol { name } => "Symbol "@ + name + " is already assigned!"@,
            ErrorView::UnknownType { name } => "Unrecognised type name "@ + name,
            ErrorView::DuplicateColumn { name } => "Can't have multiple columns named '"@ + name
                + "'"@,
            ErrorView::InvalidRange { min, max } => "Can't have min ("@ + min + ") > max ("@ + max
                + ")"@,
            ErrorView::InvalidDefault => "Default value is not a value of the column's type."@,
        }
    }
}

/// Appends the characters of `text`.
pub fn push_str(out: &mut Vec<char>, text: &str)
    ensures
        final(out)@ == old(out)@ + text@,
{
    let chars = chars_of(text);
    push_chars(out, &chars);
}

impl SchemaError {
    /// Whether the error is about a name: one that is taken, or one that is
    /// not declared.
    pub fn is_symbol_error(&self) -> (r: bool)
        ensures
            r == self@.is_symbol_error(),
    {
        match self {
            SchemaError::DuplicateSymbol { .. } => true,
            SchemaError::UnknownType { .. } => true,
            SchemaError::DuplicateColumn { .. } => true,
            _ => false,
        }
    }

    /// The error in words.
    pub fn message(&self) -> (r: String)
        ensures
            r@ == self@.message(),
    {
        let mut out: Vec<char> = Vec::new();
        match self {
            SchemaError::Lex { position } => {
                push_str(&mut out, "Unmatched input at position ");
                push_nat(&mut out, *position as u64);
            },
            SchemaError::Parse { position } => {
                push_str(&mut out, "Unexpected input at token ");
                push_nat(&mut out, *position as u64);
            },
            SchemaError::TrailingInput => {
                push_str(&mut out, "Schema ended prematurely.");
            },
            SchemaError::DuplicateSymbol { name } => {
                push_str(&mut out, "Symbol ");
                push_str(&mut out, name.as_str());
                push_str(&mut out, " is already assigned!");
            },
            SchemaError::UnknownType { name } => {
                push_str(&mut out, "Unrecognised type name ");
                push_str(&mut out, name.as_str());
            },
            SchemaError::DuplicateColumn { name } => {
                push_str(&mut out, "Can't have multiple columns named '");
                push_str(&mut out, name.as_str());
                push_str(&mut out, "'");
            },
            SchemaError::InvalidRange { min, max } => {
                push_str(&mut out, "Can't have min (");
                push_str(&mut out, min.as_str());
                push_str(&mut out, ") > max (");
                push_str(&mut out, max.as_str());
                push_str(&mut out, ")");
            },
            SchemaError::InvalidDefault => {
                push_str(&mut out, "Default value is not a value of the column's type.");
            },
        }
        string_of(&out)
    }
}

} // verus!
