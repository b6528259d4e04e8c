//! Reading back: the parser reads the canonical tokens of a schema as that
//! schema.

use vstd::prelude::*;
use crate::canon::{
    column_printable, column_tokens, columns_tokens, max_tokens, min_tokens, schema_printable,
    schema_tokens, table_printable, table_stmt_tokens, tables_tokens, type_printable, type_tokens,
};
use crate::codegen::family_name;
use crate::datatype::{DataTypeView, DBL_TYPE_NAME, INT_TYPE_NAME, STR_TYPE_NAME};
use crate::error::ErrorView;
use crate::parser::{
    column_at, columns_at, data_type_at, dbl_type_at, declaration_at, int_type_at, program_at,
    schema_after, schema_of_tokens, stands, stmt_at, str_type_at, token_at, Parsed, ProgramOut,
    StmtOut,
};
use crate::schema::{ColumnView, NamedView, SchemaView, TableView};
use crate::symbols::{bind, StmtView, SymbolView};
use crate::token::TokenView;

verus! {

/// Whether `piece` stands in `all` at `pos`.
pub open spec fn holds_at<A>(all: Seq<A>, pos: int, piece: Seq<A>) -> bool {
    &&& 0 <= pos
    &&& pos + piece.len() <= all.len()
    &&& forall|k: int| 0 <= k < piece.len() ==> #[trigger] piece[k] == all[pos + k]
}

/// Where two pieces stand one behind the other, each of them stands.
pub proof fn lemma_holds_split<A>(all: Seq<A>, pos: int, first: Seq<A>, second: Seq<A>)
    requires
        holds_at(all, pos, first + second),
    ensures
        holds_at(all, pos, first),
        holds_at(all, pos + first.len(), second),
{
    let both = first + second;
    assert forall|k: int| 0 <= k < first.len() implies #[trigger] first[k] == all[pos + k] by {
        assert(both[k] == first[k]);
    }
    assert forall|k: int| 0 <= k < second.len() implies #[trigger] second[k] == all[pos
        + first.len() + k] by {
        assert(both[first.len() + k] == second[k]);
    }
}

/// The names of the three families differ from each other.
pub proof fn lemma_family_names()
    ensures
        INT_TYPE_NAME@ == seq!['i', 'n', 't'],
        DBL_TYPE_NAME@ == seq!['d', 'b', 'l'],
        STR_TYPE_NAME@ == seq!['s', 't', 'r'],
        INT_TYPE_NAME@ != DBL_TYPE_NAME@,
        INT_TYPE_NAME@ != STR_TYPE_NAME@,
        DBL_TYPE_NAME@ != STR_TYPE_NAME@,
{
    reveal_strlit("int");
    reveal_strlit("dbl");
    reveal_strlit("str");
    assert(INT_TYPE_NAME@ =~= seq!['i', 'n', 't']);
    assert(DBL_TYPE_NAME@ =~= seq!['d', 'b', 'l']);
    assert(STR_TYPE_NAME@ =~= seq!['s', 't', 'r']);
    assert(seq!['i', 'n', 't'][0] != seq!['d', 'b', 'l'][0]);
    assert(seq!['i', 'n', 't'][0] != seq!['s', 't', 'r'][0]);
    assert(seq!['d', 'b', 'l'][0] != seq!['s', 't', 'r'][0]);
}

/// The tokens of a type are read as the type, where no question mark
/// follows a type that is not nullable.
pub proof fn lemma_read_type(
    tokens: Seq<TokenView>,
    pos: int,
    symbols: Map<Seq<char>, SymbolView>,
    t: DataTypeView,
)
    requires
        holds_at(tokens, pos, type_tokens(t)),
        type_printable(t),
        !t.nullable() ==> !stands(tokens, pos + type_tokens(t).len(), TokenView::QMark),
    ensures
        data_type_at(tokens, pos, symbols) == Ok::<Parsed<DataTypeView>, ErrorView>(
            Parsed { value: t, next: pos + type_tokens(t).len() },
        ),
{
    lemma_family_names();
    let piece = type_tokens(t);
    let lo = min_tokens(t);
    let hi = max_tokens(t);
    let head = seq![TokenView::Ident(family_name(t)), TokenView::OAngle];
    let comma = seq![TokenView::Comma];
    let close = seq![TokenView::CAngle];
    let mark = if t.nullable() {
        seq![TokenView::QMark]
    } else {
        Seq::<TokenView>::empty()
    };
    assert(piece == head + lo + comma + hi + close + mark);
    lemma_holds_split(tokens, pos, head + lo + comma + hi + close, mark);
    lemma_holds_split(tokens, pos, head + lo + comma + hi, close);
    lemma_holds_split(tokens, pos, head + lo + comma, hi);
    lemma_holds_split(tokens, pos, head + lo, comma);
    lemma_holds_split(tokens, pos, head, lo);
    assert(head[0] == tokens[pos]);
    assert(head[1] == tokens[pos + 1]);
    let p_lo = pos + 2;
    let p_comma = p_lo + lo.len();
    let p_hi = p_comma + 1;
    let p_close = p_hi + hi.len();
    let p_mark = p_close + 1;
    assert(comma[0] == tokens[p_comma]);
    assert(close[0] == tokens[p_close]);
    if lo.len() > 0 {
        assert(lo[0] == tokens[p_lo]);
    }
    if hi.len() > 0 {
        assert(hi[0] == tokens[p_hi]);
    }
    if t.nullable() {
        assert(mark[0] == tokens[p_mark]);
    }
    match t {
        DataTypeView::Int(i) => {
            assert(int_type_at(tokens, pos + 1) == Ok::<_, ErrorView>(
                Parsed { value: i, next: pos + piece.len() },
            ));
        },
        DataTypeView::Dbl(d) => {
            assert(dbl_type_at(tokens, pos + 1) == Ok::<_, ErrorView>(
                Parsed { value: d, next: pos + piece.len() },
            ));
        },
        DataTypeView::Str(s) => {
            assert(str_type_at(tokens, pos + 1) == Ok::<_, ErrorView>(
                Parsed { value: s, next: pos + piece.len() },
            ));
        },
    }
}

/// The tokens of a column are read as the column, where a comma or a
/// closing bracket follows.
pub proof fn lemma_read_column(
    tokens: Seq<TokenView>,
    pos: int,
    symbols: Map<Seq<char>, SymbolView>,
    name: Seq<char>,
    c: ColumnView,
)
    requires
        holds_at(tokens, pos, column_tokens(name, c)),
        column_printable(c),
        stands(tokens, pos + column_tokens(name, c).len(), TokenView::Comma) || stands(
            tokens,
            pos + column_tokens(name, c).len(),
            TokenView::CParen,
        ),
    ensures
        column_at(tokens, pos, symbols) == Ok::<Parsed<NamedView<ColumnView>>, ErrorView>(
            Parsed { value: NamedView { name, item: c }, next: pos + column_tokens(name, c).len() },
        ),
{
    let head = seq![TokenView::Ident(name), TokenView::Colon];
    let ty = type_tokens(c.column_type);
    let tail = match c.default_value {
        Some(lit) => seq![TokenView::Equals, TokenView::Literal(lit)],
        None => Seq::<TokenView>::empty(),
    };
    assert(column_tokens(name, c) == head + ty + tail);
    lemma_holds_split(tokens, pos, head + ty, tail);
    lemma_holds_split(tokens, pos, head, ty);
    assert(head[0] == tokens[pos]);
    assert(head[1] == tokens[pos + 1]);
    let after = pos + 2 + ty.len();
    if tail.len() > 0 {
        assert(tail[0] == tokens[after]);
        assert(tail[1] == tokens[after + 1]);
    }
    lemma_read_type(tokens, pos + 2, symbols, c.column_type);
}

/// The first `n` columns of a table.
pub open spec fn first_columns(t: TableView, n: int) -> TableView {
    TableView { names: t.names.take(n), columns: t.columns.take(n) }
}

/// The tokens of the columns of a table from index `i` on, without the
/// comma in front of them.
pub open spec fn columns_rest(t: TableView, i: int) -> Seq<TokenView> {
    column_tokens(t.names[i], t.columns[i]) + columns_tokens(t, i + 1)
}

/// The tokens of the columns of a table from index `i` on, behind the
/// columns before them, are read as the whole table.
pub proof fn lemma_read_columns(
    tokens: Seq<TokenView>,
    pos: int,
    symbols: Map<Seq<char>, SymbolView>,
    t: TableView,
    i: int,
)
    requires
        table_printable(t),
        0 <= i < t.columns.len(),
        holds_at(tokens, pos, columns_rest(t, i)),
        stands(tokens, pos + columns_rest(t, i).len(), TokenView::CParen),
    ensures
        columns_at(tokens, pos, symbols, first_columns(t, i)) == Ok::<Parsed<TableView>, ErrorView>(
            Parsed { value: t, next: pos + columns_rest(t, i).len() },
        ),
    decreases t.columns.len() - i,
{
    let name = t.names[i];
    let c = t.columns[i];
    let this = column_tokens(name, c);
    let rest = columns_tokens(t, i + 1);
    lemma_holds_split(tokens, pos, this, rest);
    let after = pos + this.len();
    let acc = first_columns(t, i);
    let longer = first_columns(t, i + 1);
    assert(!acc.has(name)) by {
        if acc.has(name) {
            let k = choose|k: int| 0 <= k < acc.names.len() && acc.names[k] == name;
            assert(t.names[k] == t.names[i]);
        }
    }
    assert(acc.with(name, c).names =~= longer.names);
    assert(acc.with(name, c).columns =~= longer.columns);
    assert(acc.add(name, c) == Ok::<TableView, ErrorView>(longer));
    if i + 1 < t.columns.len() {
        let comma = seq![TokenView::Comma];
        let next = columns_rest(t, i + 1);
        assert(rest == comma + next);
        lemma_holds_split(tokens, after, comma, next);
        assert(comma[0] == tokens[after]);
        lemma_read_column(tokens, pos, symbols, name, c);
        lemma_read_columns(tokens, after + 1, symbols, t, i + 1);
    } else {
        assert(rest.len() == 0);
        lemma_read_column(tokens, pos, symbols, name, c);
        assert(longer.names =~= t.names);
        assert(longer.columns =~= t.columns);
    }
}

/// The tokens of the statement that declares a table are read as that
/// declaration.
pub proof fn lemma_read_table_stmt(
    tokens: Seq<TokenView>,
    pos: int,
    symbols: Map<Seq<char>, SymbolView>,
    name: Seq<char>,
    t: TableView,
)
    requires
        table_printable(t),
        holds_at(tokens, pos, table_stmt_tokens(name, t)),
    ensures
        declaration_at(tokens, pos, symbols) == Ok::<Parsed<StmtView>, ErrorView>(
            Parsed {
                value: StmtView::TableSchema(name, t),
                next: pos + table_stmt_tokens(name, t).len() - 1,
            },
        ),
        stands(tokens, pos + table_stmt_tokens(name, t).len() - 1, TokenView::Semicolon),
{
    let head = seq![TokenView::TableKwd, TokenView::Ident(name), TokenView::OParen];
    let columns = columns_tokens(t, 0);
    let tail = seq![TokenView::CParen, TokenView::Semicolon];
    assert(table_stmt_tokens(name, t) == head + columns + tail);
    lemma_holds_split(tokens, pos, head + columns, tail);
    lemma_holds_split(tokens, pos, head, columns);
    assert(head[0] == tokens[pos]);
    assert(head[1] == tokens[pos + 1]);
    assert(head[2] == tokens[pos + 2]);
    let after = pos + 3 + columns.len();
    assert(tail[0] == tokens[after]);
    assert(tail[1] == tokens[after + 1]);
    assert(columns == columns_rest(t, 0));
    assert(first_columns(t, 0).names =~= TableView::empty().names);
    assert(first_columns(t, 0).columns =~= TableView::empty().columns);
    lemma_read_columns(tokens, pos + 3, symbols, t, 0);
}

/// The first `n` tables of a schema.
pub open spec fn first_tables(s: SchemaView, n: int) -> SchemaView {
    SchemaView { names: s.names.take(n), tables: s.tables.take(n) }
}

/// The symbols that the first `n` tables of a schema bind.
pub open spec fn table_symbols(s: SchemaView, n: int) -> Map<Seq<char>, SymbolView>
    decreases n,
{
    if n <= 0 {
        Map::empty()
    } else {
        table_symbols(s, n - 1).insert(s.names[n - 1], SymbolView::TableSchema(s.tables[n - 1]))
    }
}

/// The first `n` tables of a schema bind their names and no others.
pub proof fn lemma_table_symbols(s: SchemaView, n: int, name: Seq<char>)
    requires
        0 <= n <= s.names.len(),
    ensures
        table_symbols(s, n).dom().contains(name) <==> exists|k: int|
            0 <= k < n && s.names[k] == name,
    decreases n,
{
    if n > 0 {
        lemma_table_symbols(s, n - 1, name);
        if s.names[n - 1] == name {
            assert(0 <= n - 1 < n && s.names[n - 1] == name);
        }
    }
}

/// The tokens of the tables of a schema from index `i` on, behind the
/// tables before them and up to the end, are read as the whole schema.
pub proof fn lemma_read_tables(tokens: Seq<TokenView>, pos: int, s: SchemaView, i: int)
    requires
        schema_printable(s),
        0 <= i <= s.tables.len(),
        holds_at(tokens, pos, tables_tokens(s, i)),
        pos + tables_tokens(s, i).len() == tokens.len(),
    ensures
        program_at(tokens, pos, table_symbols(s, i), first_tables(s, i)) == Ok::<
            ProgramOut,
            ErrorView,
        >(
            ProgramOut {
                schema: s,
                next: tokens.len() as int,
                symbols: table_symbols(s, s.tables.len() as int),
            },
        ),
    decreases s.tables.len() - i,
{
    let symbols = table_symbols(s, i);
    let schema = first_tables(s, i);
    if i == s.tables.len() {
        assert(token_at(tokens, pos) is None);
        assert(schema.names =~= s.names);
        assert(schema.tables =~= s.tables);
    } else {
        let name = s.names[i];
        let t = s.tables[i];
        let this = table_stmt_tokens(name, t);
        let rest = tables_tokens(s, i + 1);
        lemma_holds_split(tokens, pos, this, rest);
        lemma_read_table_stmt(tokens, pos, symbols, name, t);
        lemma_table_symbols(s, i, name);
        assert(!symbols.dom().contains(name)) by {
            if symbols.dom().contains(name) {
                let k = choose|k: int| 0 <= k < i && s.names[k] == name;
                assert(s.names[k] == s.names[i]);
            }
        }
        let after = pos + this.len();
        let bound = table_symbols(s, i + 1);
        assert(stmt_at(tokens, pos, symbols) == Ok::<StmtOut, ErrorView>(
            StmtOut { stmt: StmtView::TableSchema(name, t), next: after - 1, symbols: bound },
        ));
        let longer = first_tables(s, i + 1);
        assert(schema.with(name, t).names =~= longer.names);
        assert(schema.with(name, t).tables =~= longer.tables);
        assert(schema_after(schema, StmtView::TableSchema(name, t)) == longer);
        lemma_read_tables(tokens, after, s, i + 1);
    }
}

/// Reading back: the canonical tokens of a schema that can be written out
/// are read as that schema.
pub proof fn law_read_back_tokens(s: SchemaView)
    requires
        schema_printable(s),
    ensures
        schema_of_tokens(schema_tokens(s)) == Ok::<SchemaView, ErrorView>(s),
{
    let tokens = schema_tokens(s);
    assert(first_tables(s, 0).names =~= SchemaView::empty().names);
    assert(first_tables(s, 0).tables =~= SchemaView::empty().tables);
    lemma_read_tables(tokens, 0, s, 0);
}

} // verus!
