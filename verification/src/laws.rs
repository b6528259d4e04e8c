//! Laws of the language: what holds of every schema and of every text.

use vstd::prelude::*;
use crate::datatype::{DataTypeView, DBL_TYPE_NAME, INT_TYPE_NAME, STR_TYPE_NAME};
use crate::error::ErrorView;
use crate::literal::LiteralView;
use crate::parser::{
    column_at, columns_at, data_type_at, declaration_at, lemma_column_advances, program_at,
    schema_after, stands, stmt_at, token_at, Parsed,
};
use crate::schema::{ColumnView, SchemaView, TableView};
use crate::symbols::{bind, StmtView, SymbolView};
use crate::token::TokenView;

verus! {

/// Range consistency: a type with both bounds passes its check exactly
/// where the lower bound is not above the upper bound, and a type that lacks
/// a bound passes in any case.
pub proof fn law_range_consistency(t: DataTypeView)
    ensures
        t matches DataTypeView::Int(i) ==> (i.min is Some && i.max is Some ==> (t.check() is Ok
            <==> i.min->0 <= i.max->0)),
        t matches DataTypeView::Str(s) ==> (s.min is Some && s.max is Some ==> (t.check() is Ok
            <==> s.min->0 <= s.max->0)),
        t matches DataTypeView::Dbl(d) ==> (d.min is Some && d.max is Some ==> (t.check() is Ok
            <==> !d.max->0.lt(d.min->0))),
        t.check() is Err ==> t.check()->Err_0 is InvalidRange,
        (match t {
            DataTypeView::Int(i) => i.min is None || i.max is None,
            DataTypeView::Dbl(d) => d.min is None || d.max is None,
            DataTypeView::Str(s) => s.min is None || s.max is None,
        }) ==> t.check() is Ok,
{
}

/// Duplicate columns: where a column is read whose name the table has, the
/// table fails with that name; and the columns that are read without error
/// have names that differ from each other.
pub proof fn law_duplicate_column(
    tokens: Seq<TokenView>,
    pos: int,
    symbols: Map<Seq<char>, SymbolView>,
    table: TableView,
)
    requires
        table.wf(),
    ensures
        column_at(tokens, pos, symbols) matches Ok(c) ==> (table.has(c.value.name) ==> columns_at(
            tokens,
            pos,
            symbols,
            table,
        ) == Err::<Parsed<TableView>, ErrorView>(
            ErrorView::DuplicateColumn { name: c.value.name },
        )),
        columns_at(tokens, pos, symbols, table) matches Ok(t) ==> t.value.wf()
            && t.value.columns.len() > table.columns.len(),
    decreases tokens.len() - pos,
{
    lemma_column_advances(tokens, pos, symbols);
    if let Ok(c) = column_at(tokens, pos, symbols) {
        if let Ok(longer) = table.add(c.value.name, c.value.item) {
            lemma_push_keeps_distinct(table.names, c.value.name);
            if stands(tokens, c.next, TokenView::Comma) {
                law_duplicate_column(tokens, c.next + 1, symbols, longer);
            }
        }
    }
}

/// A sequence without duplicates has none after a new element is added.
pub proof fn lemma_push_keeps_distinct(names: Seq<Seq<char>>, name: Seq<char>)
    requires
        names.no_duplicates(),
        !names.contains(name),
    ensures
        names.push(name).no_duplicates(),
{
    let longer = names.push(name);
    assert forall|i: int, j: int| 0 <= i < longer.len() && 0 <= j < longer.len() && i != j implies longer[i]
        != longer[j] by {
        if i < names.len() && j < names.len() {
        } else if i < names.len() {
            assert(names.contains(names[i]));
        } else {
            assert(names.contains(names[j]));
        }
    }
}

/// Duplicate symbols: a declaration whose name is bound, by a type or by a
/// table, fails with that name; and the statement that follows a statement
/// of the same name fails so, since the first has bound the name.
pub proof fn law_duplicate_symbol(
    tokens: Seq<TokenView>,
    pos: int,
    symbols: Map<Seq<char>, SymbolView>,
    later: int,
)
    ensures
        declaration_at(tokens, pos, symbols) matches Ok(d) ==> (symbols.dom().contains(
            d.value.name(),
        ) ==> stmt_at(tokens, pos, symbols) is Err && stmt_at(tokens, pos, symbols)->Err_0
            == (ErrorView::DuplicateSymbol { name: d.value.name() })),
        stmt_at(tokens, pos, symbols) matches Ok(first) ==> !symbols.dom().contains(
            first.stmt.name(),
        ) && first.symbols == symbols.insert(first.stmt.name(), first.stmt.symbol()) && (
        declaration_at(tokens, later, first.symbols) matches Ok(second) ==> (second.value.name()
            == first.stmt.name() ==> stmt_at(tokens, later, first.symbols) is Err && stmt_at(
            tokens,
            later,
            first.symbols,
        )->Err_0 == (ErrorView::DuplicateSymbol { name: first.stmt.name() }))),
{
}

/// An error about a name ends the whole run of statements with that error.
pub proof fn law_symbol_errors_are_fatal(
    tokens: Seq<TokenView>,
    pos: int,
    symbols: Map<Seq<char>, SymbolView>,
    schema: SchemaView,
)
    ensures
        stmt_at(tokens, pos, symbols) matches Err(e) ==> (e.is_symbol_error() ==> program_at(
            tokens,
            pos,
            symbols,
            schema,
        ) is Err && program_at(tokens, pos, symbols, schema)->Err_0 == e),
        stmt_at(tokens, pos, symbols) matches Ok(s) ==> (stands(
            tokens,
            s.next,
            TokenView::Semicolon,
        ) ==> program_at(tokens, pos, symbols, schema) == program_at(
            tokens,
            s.next + 1,
            s.symbols,
            schema_after(schema, s.stmt),
        )),
{
}

/// Whether `name` is the name of one of the three families.
pub open spec fn is_family_name(name: Seq<char>) -> bool {
    name == INT_TYPE_NAME@ || name == DBL_TYPE_NAME@ || name == STR_TYPE_NAME@
}

/// Definition before use: a name that is no family and that no earlier
/// statement has bound to a type is an unknown type; once a statement has
/// declared the type, the name stands for it, at any later place and after
/// any further binding.
pub proof fn law_definition_before_use(
    tokens: Seq<TokenView>,
    pos: int,
    symbols: Map<Seq<char>, SymbolView>,
    name: Seq<char>,
    later: int,
    other: Seq<char>,
    symbol: SymbolView,
)
    requires
        !is_family_name(name),
        token_at(tokens, later) == Some(TokenView::Ident(name)),
    ensures
        !(symbols.dom().contains(name) && symbols[name] is DataType) ==> data_type_at(
            tokens,
            later,
            symbols,
        ) is Err && data_type_at(tokens, later, symbols)->Err_0 == (ErrorView::UnknownType {
            name,
        }),
        stmt_at(tokens, pos, symbols) matches Ok(s) ==> (s.stmt matches StmtView::TypeDef(n, t)
            ==> (n == name ==> data_type_at(tokens, later, s.symbols) == Ok::<
            Parsed<DataTypeView>,
            ErrorView,
        >(Parsed { value: t, next: later + 1 }) && (bind(s.symbols, other, symbol) matches Ok(
            more,
        ) ==> data_type_at(tokens, later, more) == Ok::<Parsed<DataTypeView>, ErrorView>(
            Parsed { value: t, next: later + 1 },
        )))),
{
}

/// A column that refers to an unknown type fails with that name.
pub proof fn law_unknown_type_in_column(
    tokens: Seq<TokenView>,
    pos: int,
    symbols: Map<Seq<char>, SymbolView>,
    column: Seq<char>,
    name: Seq<char>,
)
    requires
        !is_family_name(name),
        token_at(tokens, pos) == Some(TokenView::Ident(column)),
        stands(tokens, pos + 1, TokenView::Colon),
        token_at(tokens, pos + 2) == Some(TokenView::Ident(name)),
        !(symbols.dom().contains(name) && symbols[name] is DataType),
    ensures
        column_at(tokens, pos, symbols) is Err,
        column_at(tokens, pos, symbols)->Err_0 == (ErrorView::UnknownType { name }),
{
}

/// Default values: a column whose range is in order passes its check
/// exactly where it has no default or a default that its type admits; the
/// failure is an invalid default. A literal of another kind than the type's
/// family is never admitted, but that an integer is admitted as a decimal.
pub proof fn law_default_type_checking(c: ColumnView, lit: LiteralView)
    requires
        c.column_type.check() is Ok,
    ensures
        c.default_value is None ==> c.check() is Ok,
        c.default_value == Some(lit) && c.column_type.admits(lit) ==> c.check() is Ok,
        c.default_value == Some(lit) && !c.column_type.admits(lit) ==> c.check() == Err::<
            (),
            ErrorView,
        >(ErrorView::InvalidDefault),
        c.column_type is Int && !(lit is Int) ==> !c.column_type.admits(lit),
        c.column_type is Str && !(lit is Str) ==> !c.column_type.admits(lit),
        c.column_type is Dbl && lit is Str ==> !c.column_type.admits(lit),
        c.column_type matches DataTypeView::Int(t) ==> (lit matches LiteralView::Int(v) ==> (
        c.column_type.admits(lit) <==> t.holds(v))),
        c.column_type matches DataTypeView::Str(t) ==> (lit matches LiteralView::Str(s) ==> (
        c.column_type.admits(lit) <==> t.holds(s))),
        c.column_type matches DataTypeView::Dbl(t) ==> (lit.as_decimal() matches Some(d) ==> (
        c.column_type.admits(lit) <==> t.holds(d))),
{
}

/// Writing and reading: the canonical text of a schema that can be written
/// out is read as that schema.
pub proof fn law_write_and_read(schema: SchemaView)
    requires
        crate::canon::schema_printable(schema),
    ensures
        crate::compile::schema_of_text(crate::codegen::schema_text(schema)) == Ok::<
            SchemaView,
            ErrorView,
        >(schema),
{
    crate::spelling::law_spell_schema(schema);
    crate::reading::law_read_back_tokens(schema);
}

/// Round trip: the canonical text of the schema that is read from a text is
/// read as the same schema, and where the schema stands the check, so does
/// the schema that is read back.
pub proof fn law_round_trip(text: Seq<char>)
    ensures
        crate::compile::schema_of_text(text) matches Ok(schema)
            ==> crate::compile::schema_of_text(crate::codegen::schema_text(schema)) == Ok::<
            SchemaView,
            ErrorView,
        >(schema),
        crate::compile::valid_schema_of_text(text) matches Ok(schema)
            ==> crate::compile::valid_schema_of_text(crate::codegen::schema_text(schema)) == Ok::<
            SchemaView,
            ErrorView,
        >(schema),
{
    crate::readable::law_read_schema_is_printable(text);
    if let Ok(schema) = crate::compile::schema_of_text(text) {
        law_write_and_read(schema);
    }
}

/// The statements that are read behind a schema whose names differ and
/// are bound make a schema whose names differ.
proof fn lemma_program_wf(
    tokens: Seq<TokenView>,
    pos: int,
    symbols: Map<Seq<char>, SymbolView>,
    schema: SchemaView,
)
    requires
        schema.wf(),
        crate::parser::tables_bound(schema, symbols),
        forall|i: int| 0 <= i < schema.tables.len() ==> (#[trigger] schema.tables[i]).columns.len()
            >= 1,
    ensures
        program_at(tokens, pos, symbols, schema) matches Ok(out) ==> out.schema.wf() && forall|
            i: int,
        | 0 <= i < out.schema.tables.len() ==> (#[trigger] out.schema.tables[i]).columns.len() >= 1,
    decreases tokens.len() - pos,
{
    crate::parser::lemma_stmt_advances(tokens, pos, symbols);
    if let Ok(out) = stmt_at(tokens, pos, symbols) {
        if stands(tokens, out.next, TokenView::Semicolon) {
            let longer = schema_after(schema, out.stmt);
            if let StmtView::TableSchema(name, t) = out.stmt {
                law_duplicate_column(tokens, pos + 3, symbols, TableView::empty());
                assert(!schema.names.contains(name)) by {
                    if schema.names.contains(name) {
                        let i = choose|i: int| 0 <= i < schema.names.len() && schema.names[i] == name;
                        assert(symbols.dom().contains(schema.names[i]));
                    }
                }
                lemma_push_keeps_distinct(schema.names, name);
                assert forall|i: int| 0 <= i < longer.tables.len() implies (
                #[trigger] longer.tables[i]).wf() && longer.tables[i].columns.len() >= 1 by {
                    if i < schema.tables.len() {
                        assert(longer.tables[i] == schema.tables[i]);
                    }
                }
            }
            assert forall|i: int| 0 <= i < longer.names.len() implies out.symbols.dom().contains(
                #[trigger] longer.names[i],
            ) by {
                if i < schema.names.len() {
                    assert(longer.names[i] == schema.names[i]);
                    assert(symbols.dom().contains(schema.names[i]));
                }
            }
            lemma_program_wf(tokens, out.next + 1, out.symbols, longer);
        }
    }
}

/// The schema that is read from tokens is well formed: no two of its tables
/// have one name, no two columns of a table have one name, and every table
/// has a column.
pub proof fn law_parsed_schema_is_well_formed(tokens: Seq<TokenView>)
    ensures
        crate::parser::schema_of_tokens(tokens) matches Ok(schema) ==> schema.wf() && forall|
            i: int,
        | 0 <= i < schema.tables.len() ==> (#[trigger] schema.tables[i]).columns.len() >= 1,
{
    lemma_program_wf(tokens, 0, Map::empty(), SchemaView::empty());
}

} // verus!
