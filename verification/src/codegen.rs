//! Canonical text: the one way in which a schema is written out.
//!
//! A type is written as the name of its family, its range in angle brackets,
//! with nothing where a bound is absent, and a question mark where it is
//! nullable. A text literal is written between double quotes.

use vstd::prelude::*;
use crate::chars::string_of;
use crate::datatype::{DataType, DataTypeView, DBL_TYPE_NAME, INT_TYPE_NAME, STR_TYPE_NAME};
use crate::digits::{int_text, push_int, push_nat};
use crate::error::push_str;
use crate::literal::{Literal, LiteralView};
use crate::schema::{ColumnSchema, ColumnView, SchemaView, SpreadsheetSchema, TableSchema, TableView};
use crate::symbols::{Stmt, StmtView};

verus! {

/// A literal as it is written.
pub open spec fn literal_text(lit: LiteralView) -> Seq<char> {
    match lit {
        LiteralView::Int(v) => int_text(v as int),
        LiteralView::Dbl(d) => d.text(),
        LiteralView::Str(s) => seq!['"'] + s + seq!['"'],
    }
}

/// The name of the family of a type.
pub open spec fn family_name(t: DataTypeView) -> Seq<char> {
    match t {
        DataTypeView::Int(_) => INT_TYPE_NAME@,
        DataTypeView::Dbl(_) => DBL_TYPE_NAME@,
        DataTypeView::Str(_) => STR_TYPE_NAME@,
    }
}

/// A type as it is written.
pub open spec fn type_text(t: DataTypeView) -> Seq<char> {
    family_name(t) + seq!['<'] + t.min_text() + seq![',', ' '] + t.max_text() + seq!['>'] + (if t.nullable() {
        seq!['?']
    } else {
        Seq::<char>::empty()
    })
}

/// A column as it is written, without its name.
pub open spec fn column_text(c: ColumnView) -> Seq<char> {
    type_text(c.column_type) + (match c.default_value {
        Some(lit) => seq![' ', '=', ' '] + literal_text(lit),
        None => Seq::<char>::empty(),
    })
}

/// The columns of a table from index `i` on, each with its name, with a
/// comma and a space between two of them.
pub open spec fn columns_text(t: TableView, i: int) -> Seq<char>
    decreases t.columns.len() - i,
{
    if i < 0 || i >= t.columns.len() || i >= t.names.len() {
        Seq::<char>::empty()
    } else {
        (if i > 0 {
            seq![',', ' ']
        } else {
            Seq::<char>::empty()
        }) + t.names[i] + seq![':', ' '] + column_text(t.columns[i]) + columns_text(t, i + 1)
    }
}

/// A table as it is written, without its name: its columns in round brackets.
pub open spec fn table_text(t: TableView) -> Seq<char> {
    seq!['('] + columns_text(t, 0) + seq![')']
}

/// The statement that declares a table.
pub open spec fn table_stmt_text(name: Seq<char>, t: TableView) -> Seq<char> {
    seq!['t', 'a', 'b', 'l', 'e', ' '] + name + seq![' '] + table_text(t) + seq![';']
}

/// The statement that declares a type.
pub open spec fn type_stmt_text(name: Seq<char>, t: DataTypeView) -> Seq<char> {
    seq!['t', 'y', 'p', 'e', ' '] + name + seq![' '] + type_text(t) + seq![';']
}

/// A statement as it is written.
pub open spec fn stmt_text(stmt: StmtView) -> Seq<char> {
    match stmt {
        StmtView::TableSchema(name, t) => table_stmt_text(name, t),
        StmtView::TypeDef(name, t) => type_stmt_text(name, t),
    }
}

/// The tables of a schema from index `i` on, one statement on each line.
pub open spec fn tables_text(s: SchemaView, i: int) -> Seq<char>
    decreases s.tables.len() - i,
{
    if i < 0 || i >= s.tables.len() || i >= s.names.len() {
        Seq::<char>::empty()
    } else {
        table_stmt_text(s.names[i], s.tables[i]) + seq!['\n'] + tables_text(s, i + 1)
    }
}

/// A schema as it is written: one statement for each table, on a line of
/// its own, in the order of their declaration.
pub open spec fn schema_text(s: SchemaView) -> Seq<char> {
    tables_text(s, 0)
}

impl Literal {
    /// Appends the literal as it is written.
    pub fn push_text(&self, out: &mut Vec<char>)
        ensures
            final(out)@ == old(out)@ + literal_text(self@),
    {
        match self {
            Literal::Int(v) => push_int(out, *v as i64),
            Literal::Dbl(d) => d.push_text(out),
            Literal::Str(s) => {
                out.push('"');
                push_str(out, s.as_str());
                out.push('"');
            },
        }
    }

    /// The literal as it is written.
    pub fn to_text(&self) -> (r: String)
        ensures
            r@ == literal_text(self@),
    {
        let mut out: Vec<char> = Vec::new();
        self.push_text(&mut out);
        string_of(&out)
    }
}

/// Appends what stands behind the name of a family: the range and the mark.
fn push_range_text(out: &mut Vec<char>, t: &DataType)
    ensures
        final(out)@ == old(out)@ + seq!['<'] + t@.min_text() + seq![',', ' '] + t@.max_text() + seq![
            '>',
        ] + (if t@.nullable() {
            seq!['?']
        } else {
            Seq::<char>::empty()
        }),
{
    out.push('<');
    match t {
        DataType::Int(t) => if let Some(v) = t.min {
            push_int(out, v as i64);
        },
        DataType::Dbl(t) => if let Some(d) = &t.min {
            d.push_text(out);
        },
        DataType::Str(t) => if let Some(v) = t.min {
            push_nat(out, v as u64);
        },
    }
    out.push(',');
    out.push(' ');
    match t {
        DataType::Int(t) => if let Some(v) = t.max {
            push_int(out, v as i64);
        },
        DataType::Dbl(t) => if let Some(d) = &t.max {
            d.push_text(out);
        },
        DataType::Str(t) => if let Some(v) = t.max {
            push_nat(out, v as u64);
        },
    }
    out.push('>');
    if t.get_nullable() {
        out.push('?');
    }
}

impl DataType {
    /// Appends the type as it is written.
    pub fn push_text(&self, out: &mut Vec<char>)
        ensures
            final(out)@ == old(out)@ + type_text(self@),
    {
        match self {
            DataType::Int(_) => push_str(out, INT_TYPE_NAME),
            DataType::Dbl(_) => push_str(out, DBL_TYPE_NAME),
            DataType::Str(_) => push_str(out, STR_TYPE_NAME),
        }
        push_range_text(out, self);
    }

    /// The type as it is written.
    pub fn to_text(&self) -> (r: String)
        ensures
            r@ == type_text(self@),
    {
        let mut out: Vec<char> = Vec::new();
        self.push_text(&mut out);
        string_of(&out)
    }
}

impl ColumnSchema {
    /// Appends the column as it is written, without its name.
    pub fn push_text(&self, out: &mut Vec<char>)
        ensures
            final(out)@ == old(out)@ + column_text(self@),
    {
        self.column_type.push_text(out);
        match &self.default_value {
            Some(lit) => {
                out.push(' ');
                out.push('=');
                out.push(' ');
                lit.push_text(out);
            },
            None => {},
        }
    }

    /// The column as it is written, without its name.
    pub fn to_text(&self) -> (r: String)
        ensures
            r@ == column_text(self@),
    {
        let mut out: Vec<char> = Vec::new();
        self.push_text(&mut out);
        string_of(&out)
    }
}

impl TableSchema {
    /// Appends the table as it is written, without its name.
    pub fn push_text(&self, out: &mut Vec<char>)
        ensures
            final(out)@ == old(out)@ + table_text(self@),
    {
        out.push('(');
        let ghost start = out@;
        let mut i: usize = 0;
        while i < self.columns.len()
            invariant
                i <= self.columns.len(),
                out@ + columns_text(self@, i as int) == start + columns_text(self@, 0),
            decreases self.columns.len() - i,
        {
            let ghost before = out@;
            if i > 0 {
                out.push(',');
                out.push(' ');
            }
            push_str(out, self.columns[i].name.as_str());
            out.push(':');
            out.push(' ');
            self.columns[i].item.push_text(out);
            proof {
                let sep = if i > 0 {
                    seq![',', ' ']
                } else {
                    Seq::<char>::empty()
                };
                let piece = sep + self@.names[i as int] + seq![':', ' '] + column_text(
                    self@.columns[i as int],
                );
                assert(out@ == before + piece);
                assert(columns_text(self@, i as int) == piece + columns_text(self@, i + 1));
                assert(before + (piece + columns_text(self@, i + 1)) == (before + piece)
                    + columns_text(self@, i + 1));
            }
            i = i + 1;
        }
        assert(columns_text(self@, i as int) == Seq::<char>::empty());
        assert(out@ + Seq::<char>::empty() == out@);
        out.push(')');
    }

    /// The table as it is written, without its name.
    pub fn to_text(&self) -> (r: String)
        ensures
            r@ == table_text(self@),
    {
        let mut out: Vec<char> = Vec::new();
        self.push_text(&mut out);
        string_of(&out)
    }
}

impl Stmt {
    /// The statement as it is written.
    pub fn to_text(&self) -> (r: String)
        ensures
            r@ == stmt_text(self@),
    {
        let mut out: Vec<char> = Vec::new();
        match self {
            Stmt::TableSchema(name, schema) => {
                push_table_stmt(&mut out, name, schema);
            },
            Stmt::TypeDef(name, data_type) => {
                out.push('t');
                out.push('y');
                out.push('p');
                out.push('e');
                out.push(' ');
                push_str(&mut out, name.as_str());
                out.push(' ');
                data_type.push_text(&mut out);
                out.push(';');
            },
        }
        string_of(&out)
    }
}

/// Appends the statement that declares `table` under `name`.
fn push_table_stmt(out: &mut Vec<char>, name: &String, table: &TableSchema)
    ensures
        final(out)@ == old(out)@ + table_stmt_text(name@, table@),
{
    out.push('t');
    out.push('a');
    out.push('b');
    out.push('l');
    out.push('e');
    out.push(' ');
    push_str(out, name.as_str());
    out.push(' ');
    table.push_text(out);
    out.push(';');
}

impl SpreadsheetSchema {
    /// The schema as it is written: one statement for each table, on a line
    /// of its own, in the order of their declaration.
    pub fn to_text(&self) -> (r: String)
        ensures
            r@ == schema_text(self@),
    {
        let mut out: Vec<char> = Vec::new();
        let mut i: usize = 0;
        while i < self.tables.len()
            invariant
                i <= self.tables.len(),
                out@ + tables_text(self@, i as int) == tables_text(self@, 0),
            decreases self.tables.len() - i,
        {
            let ghost before = out@;
            push_table_stmt(&mut out, &self.tables[i].name, &self.tables[i].item);
            out.push('\n');
            proof {
                let piece = table_stmt_text(self@.names[i as int], self@.tables[i as int]) + seq![
                    '\n',
                ];
                assert(out@ == before + piece);
                assert(tables_text(self@, i as int) == piece + tables_text(self@, i + 1));
                assert(before + (piece + tables_text(self@, i + 1)) == (before + piece)
                    + tables_text(self@, i + 1));
            }
            i = i + 1;
        }
        assert(tables_text(self@, i as int) == Seq::<char>::empty());
        assert(out@ + Seq::<char>::empty() == out@);
        string_of(&out)
    }
}

} // verus!
