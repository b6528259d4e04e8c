//! Canonical tokens: the tokens that the canonical text of a schema is made
//! of, and the schemas that can be written out and read back.

use vstd::prelude::*;
use crate::chars::{is_letter, is_word};
use crate::codegen::family_name;
use crate::datatype::DataTypeView;
use crate::decimal::{decimal_of_int, DecimalView};
use crate::digits::signed_value;
use crate::literal::LiteralView;
use crate::schema::{ColumnView, SchemaView, TableView};
use crate::token::TokenView;

verus! {

/// Whether `name` has the form of an identifier: a letter, and letters,
/// digits and underscores behind it.
pub open spec fn is_identifier(name: Seq<char>) -> bool {
    &&& name.len() >= 1
    &&& is_letter(name[0])
    &&& forall|i: int| 1 <= i < name.len() ==> is_word(#[trigger] name[i])
}

/// Whether `name` is a reserved word or the short form of one.
pub open spec fn is_reserved(name: Seq<char>) -> bool {
    ||| name == seq!['t', 'y', 'p', 'e']
    ||| name == seq!['t', 'a', 'b']
    ||| name == seq!['t', 'a', 'b', 'l', 'e']
    ||| name == seq!['s', 'c', 'h', 'e', 'm', 'a']
    ||| name == seq!['s', 'c', 'h']
}

/// Whether `name` can name a type, a table or a column: it is an identifier
/// and no reserved word.
pub open spec fn is_name(name: Seq<char>) -> bool {
    is_identifier(name) && !is_reserved(name)
}

/// The integer that a decimal without a fractional part denotes.
pub open spec fn whole_value(d: DecimalView) -> int {
    signed_value(d.negative, d.int_digits)
}

/// Whether a decimal can be written as a bound and read back: it has a
/// fractional part, or it is what a 32-bit integer is read as.
pub open spec fn bound_printable(d: DecimalView) -> bool {
    &&& d.wf()
    &&& d.frac_digits.len() == 0 ==> i32::MIN <= whole_value(d) <= i32::MAX && decimal_of_int(
        whole_value(d),
    ) == d
}

/// Whether a literal can be written as a default and read back: a decimal
/// has a fractional part, and a text holds no double quote.
pub open spec fn default_printable(lit: LiteralView) -> bool {
    match lit {
        LiteralView::Int(_) => true,
        LiteralView::Dbl(d) => d.wf() && d.frac_digits.len() > 0,
        LiteralView::Str(s) => !s.contains('"'),
    }
}

/// Whether a type can be written out and read back: a length fits in a
/// 32-bit integer, and a decimal bound is printable.
pub open spec fn type_printable(t: DataTypeView) -> bool {
    match t {
        DataTypeView::Int(_) => true,
        DataTypeView::Dbl(t) => {
            &&& t.min matches Some(d) ==> bound_printable(d)
            &&& t.max matches Some(d) ==> bound_printable(d)
        },
        DataTypeView::Str(t) => {
            &&& t.min matches Some(v) ==> v <= i32::MAX
            &&& t.max matches Some(v) ==> v <= i32::MAX
        },
    }
}

pub open spec fn column_printable(c: ColumnView) -> bool {
    &&& type_printable(c.column_type)
    &&& c.default_value matches Some(lit) ==> default_printable(lit)
}

/// Whether a table can be written out and read back: it has a column, its
/// columns have names that differ, and each can be written out.
pub open spec fn table_printable(t: TableView) -> bool {
    &&& t.wf()
    &&& t.columns.len() >= 1
    &&& forall|i: int| 0 <= i < t.names.len() ==> is_name(#[trigger] t.names[i])
    &&& forall|i: int| 0 <= i < t.columns.len() ==> column_printable(#[trigger] t.columns[i])
}

/// Whether a schema can be written out and read back.
pub open spec fn schema_printable(s: SchemaView) -> bool {
    &&& s.names.len() == s.tables.len()
    &&& s.names.no_duplicates()
    &&& forall|i: int| 0 <= i < s.names.len() ==> is_name(#[trigger] s.names[i])
    &&& forall|i: int| 0 <= i < s.tables.len() ==> table_printable(#[trigger] s.tables[i])
}

/// The token of a decimal bound: an integer literal where the decimal has
/// no fractional part.
pub open spec fn decimal_bound_token(d: DecimalView) -> TokenView {
    if d.frac_digits.len() > 0 {
        TokenView::Literal(LiteralView::Dbl(d))
    } else {
        TokenView::Literal(LiteralView::Int(whole_value(d) as i32))
    }
}

/// The tokens of the lower bound of a type: one literal, or none.
pub open spec fn min_tokens(t: DataTypeView) -> Seq<TokenView> {
    match t {
        DataTypeView::Int(t) => match t.min {
            Some(v) => seq![TokenView::Literal(LiteralView::Int(v))],
            None => Seq::empty(),
        },
        DataTypeView::Dbl(t) => match t.min {
            Some(d) => seq![decimal_bound_token(d)],
            None => Seq::empty(),
        },
        DataTypeView::Str(t) => match t.min {
            Some(v) => seq![TokenView::Literal(LiteralView::Int(v as i32))],
            None => Seq::empty(),
        },
    }
}

/// The tokens of the upper bound of a type: one literal, or none.
pub open spec fn max_tokens(t: DataTypeView) -> Seq<TokenView> {
    match t {
        DataTypeView::Int(t) => match t.max {
            Some(v) => seq![TokenView::Literal(LiteralView::Int(v))],
            None => Seq::empty(),
        },
        DataTypeView::Dbl(t) => match t.max {
            Some(d) => seq![decimal_bound_token(d)],
            None => Seq::empty(),
        },
        DataTypeView::Str(t) => match t.max {
            Some(v) => seq![TokenView::Literal(LiteralView::Int(v as i32))],
            None => Seq::empty(),
        },
    }
}

/// The tokens of a type.
pub open spec fn type_tokens(t: DataTypeView) -> Seq<TokenView> {
    seq![TokenView::Ident(family_name(t)), TokenView::OAngle] + min_tokens(t) + seq![
        TokenView::Comma,
    ] + max_tokens(t) + seq![TokenView::CAngle] + (if t.nullable() {
        seq![TokenView::QMark]
    } else {
        Seq::<TokenView>::empty()
    })
}

/// The tokens of a column with its name.
pub open spec fn column_tokens(name: Seq<char>, c: ColumnView) -> Seq<TokenView> {
    seq![TokenView::Ident(name), TokenView::Colon] + type_tokens(c.column_type) + (
    match c.default_value {
        Some(lit) => seq![TokenView::Equals, TokenView::Literal(lit)],
        None => Seq::<TokenView>::empty(),
    })
}

/// The tokens of the columns of a table from index `i` on, with a comma in
/// front of each but the first of the table.
pub open spec fn columns_tokens(t: TableView, i: int) -> Seq<TokenView>
    decreases t.columns.len() - i,
{
    if i < 0 || i >= t.columns.len() || i >= t.names.len() {
        Seq::<TokenView>::empty()
    } else {
        (if i > 0 {
            seq![TokenView::Comma]
        } else {
            Seq::<TokenView>::empty()
        }) + column_tokens(t.names[i], t.columns[i]) + columns_tokens(t, i + 1)
    }
}

/// The tokens of the statement that declares a table.
pub open spec fn table_stmt_tokens(name: Seq<char>, t: TableView) -> Seq<TokenView> {
    seq![TokenView::TableKwd, TokenView::Ident(name), TokenView::OParen] + columns_tokens(t, 0)
        + seq![TokenView::CParen, TokenView::Semicolon]
}

/// The tokens of the tables of a schema from index `i` on.
pub open spec fn tables_tokens(s: SchemaView, i: int) -> Seq<TokenView>
    decreases s.tables.len() - i,
{
    if i < 0 || i >= s.tables.len() || i >= s.names.len() {
        Seq::<TokenView>::empty()
    } else {
        table_stmt_tokens(s.names[i], s.tables[i]) + tables_tokens(s, i + 1)
    }
}

/// The tokens of the canonical text of a schema.
pub open spec fn schema_tokens(s: SchemaView) -> Seq<TokenView> {
    tables_tokens(s, 0)
}

} // verus!
