//! The parser: one function for each production of the grammar.
//!
//! ```text
//! program   := (stmt ';')*
//! stmt      := 'type' IDENT type_expr
//!            | 'table' IDENT '(' column (',' column)* ')'
//! type_expr := ('int' | 'dbl' | 'str') ('<' range '>')? '?'?
//!            | IDENT
//! range     := literal? ',' literal?
//! column    := IDENT ':' type_expr ('=' literal)?
//! ```
//!
//! A production reads the tokens from a position on and returns what it
//! read with the position behind it, or an error; the position is an index
//! into the token sequence and is handed on by value, so that a production
//! that fails has moved nothing.

use vstd::prelude::*;
use std::rc::Rc;
use crate::datatype::{
    DataType, DataTypeView, DblDataType, DblTypeView, IntDataType, StrDataType, DBL_TYPE_NAME,
    INT_TYPE_NAME, STR_TYPE_NAME,
};
use crate::decimal::{Decimal, DecimalView};
use crate::error::{ErrorView, SchemaError};
use crate::lexer::token_views;
use crate::literal::{Literal, LiteralView};
use crate::schema::{
    rc_clone, ColumnSchema, ColumnView, Named, NamedView, SchemaView, SpreadsheetSchema,
    TableSchema, TableView,
};
use crate::symbols::{bind, Stmt, StmtView, Symbol, SymbolTable, SymbolView};
use crate::token::{Token, TokenView};

verus! {

/// What a production read, and the position behind it.
pub struct Parsed<T> {
    pub value: T,
    pub next: int,
}

/// The token at `pos`, where there is one.
pub open spec fn token_at(tokens: Seq<TokenView>, pos: int) -> Option<TokenView> {
    if 0 <= pos < tokens.len() {
        Some(tokens[pos])
    } else {
        None
    }
}

/// Whether `token` stands at `pos`.
pub open spec fn stands(tokens: Seq<TokenView>, pos: int, token: TokenView) -> bool {
    token_at(tokens, pos) == Some(token)
}

/// The error of a production that cannot go on at `pos`.
pub open spec fn parse_error(pos: int) -> ErrorView {
    ErrorView::Parse { position: pos as usize }
}

/// The bound that an integer type reads from a literal.
pub open spec fn int_bound(lit: LiteralView) -> Option<i32> {
    match lit {
        LiteralView::Int(v) => Some(v),
        _ => None,
    }
}

/// The bound that a decimal type reads from a literal.
pub open spec fn dbl_bound(lit: LiteralView) -> Option<DecimalView> {
    lit.as_decimal()
}

/// The bound that a text type reads from a literal: a length.
pub open spec fn len_bound(lit: LiteralView) -> Option<usize> {
    match lit {
        LiteralView::Int(v) if v >= 0 => Some(v as usize),
        _ => None,
    }
}

/// An optional bound at `pos`: a literal there must be one that `convert`
/// takes; anything else is no bound, and nothing is read.
pub open spec fn bound_at<B>(
    tokens: Seq<TokenView>,
    pos: int,
    convert: spec_fn(LiteralView) -> Option<B>,
) -> Result<Parsed<Option<B>>, ErrorView> {
    match token_at(tokens, pos) {
        Some(TokenView::Literal(lit)) => match convert(lit) {
            Some(b) => Ok(Parsed { value: Some(b), next: pos + 1 }),
            None => Err(parse_error(pos)),
        },
        _ => Ok(Parsed { value: None, next: pos }),
    }
}

/// A pair of optional bounds.
pub struct RangeView<B> {
    pub min: Option<B>,
    pub max: Option<B>,
}

/// An optional range at `pos`: `'<' literal? ',' literal? '>'`. Without the
/// opening bracket there is no range, both bounds are absent and nothing is
/// read.
pub open spec fn range_at<B>(
    tokens: Seq<TokenView>,
    pos: int,
    convert: spec_fn(LiteralView) -> Option<B>,
) -> Result<Parsed<RangeView<B>>, ErrorView> {
    if !stands(tokens, pos, TokenView::OAngle) {
        Ok(Parsed { value: RangeView { min: None, max: None }, next: pos })
    } else {
        match bound_at(tokens, pos + 1, convert) {
            Err(e) => Err(e),
            Ok(lo) => if !stands(tokens, lo.next, TokenView::Comma) {
                Err(parse_error(lo.next))
            } else {
                match bound_at(tokens, lo.next + 1, convert) {
                    Err(e) => Err(e),
                    Ok(hi) => if !stands(tokens, hi.next, TokenView::CAngle) {
                        Err(parse_error(hi.next))
                    } else {
                        Ok(
                            Parsed {
                                value: RangeView { min: lo.value, max: hi.value },
                                next: hi.next + 1,
                            },
                        )
                    },
                }
            },
        }
    }
}

/// An optional question mark at `pos`.
pub open spec fn nullable_at(tokens: Seq<TokenView>, pos: int) -> Parsed<bool> {
    if stands(tokens, pos, TokenView::QMark) {
        Parsed { value: true, next: pos + 1 }
    } else {
        Parsed { value: false, next: pos }
    }
}

/// What follows the name `int`: an optional range of integers and an
/// optional question mark.
pub open spec fn int_type_at(tokens: Seq<TokenView>, pos: int) -> Result<
    Parsed<IntDataType>,
    ErrorView,
> {
    match range_at(tokens, pos, |lit: LiteralView| int_bound(lit)) {
        Err(e) => Err(e),
        Ok(range) => {
            let mark = nullable_at(tokens, range.next);
            Ok(
                Parsed {
                    value: IntDataType {
                        min: range.value.min,
                        max: range.value.max,
                        nullable: mark.value,
                    },
                    next: mark.next,
                },
            )
        },
    }
}

/// What follows the name `dbl`: an optional range of decimals and an
/// optional question mark.
pub open spec fn dbl_type_at(tokens: Seq<TokenView>, pos: int) -> Result<
    Parsed<DblTypeView>,
    ErrorView,
> {
    match range_at(tokens, pos, |lit: LiteralView| dbl_bound(lit)) {
        Err(e) => Err(e),
        Ok(range) => {
            let mark = nullable_at(tokens, range.next);
            Ok(
                Parsed {
                    value: DblTypeView {
                        min: range.value.min,
                        max: range.value.max,
                        nullable: mark.value,
                    },
                    next: mark.next,
                },
            )
        },
    }
}

/// What follows the name `str`: an optional range of lengths and an optional
/// question mark.
pub open spec fn str_type_at(tokens: Seq<TokenView>, pos: int) -> Result<
    Parsed<StrDataType>,
    ErrorView,
> {
    match range_at(tokens, pos, |lit: LiteralView| len_bound(lit)) {
        Err(e) => Err(e),
        Ok(range) => {
            let mark = nullable_at(tokens, range.next);
            Ok(
                Parsed {
                    value: StrDataType {
                        min: range.value.min,
                        max: range.value.max,
                        nullable: mark.value,
                    },
                    next: mark.next,
                },
            )
        },
    }
}

/// The content of what an executable production returns.
pub open spec fn outcome_of<T: View>(r: Result<(T, usize), SchemaError>) -> Result<
    Parsed<T::V>,
    ErrorView,
> {
    match r {
        Ok((value, next)) => Ok(Parsed { value: value@, next: next as int }),
        Err(e) => Err(e@),
    }
}

/// Whether `expected`, a punctuation mark or a reserved word, stands at `pos`.
fn stands_at(tokens: &Vec<Token>, pos: usize, expected: &Token) -> (r: bool)
    requires
        !(expected@ is Ident),
        !(expected@ is Literal),
    ensures
        r == stands(token_views(tokens@), pos as int, expected@),
        r ==> pos < tokens.len(),
{
    if pos >= tokens.len() {
        return false;
    }
    assert(token_views(tokens@)[pos as int] == tokens@[pos as int]@);
    match (expected, &tokens[pos]) {
        (Token::OParen, Token::OParen) => true,
        (Token::CParen, Token::CParen) => true,
        (Token::OAngle, Token::OAngle) => true,
        (Token::CAngle, Token::CAngle) => true,
        (Token::Colon, Token::Colon) => true,
        (Token::Semicolon, Token::Semicolon) => true,
        (Token::Comma, Token::Comma) => true,
        (Token::Equals, Token::Equals) => true,
        (Token::QMark, Token::QMark) => true,
        (Token::TypeKwd, Token::TypeKwd) => true,
        (Token::TableKwd, Token::TableKwd) => true,
        (Token::SchemaKwd, Token::SchemaKwd) => true,
        _ => false,
    }
}

/// The literal at `pos`, where one stands there.
fn literal_at(tokens: &Vec<Token>, pos: usize) -> (r: Option<&Literal>)
    ensures
        match token_at(token_views(tokens@), pos as int) {
            Some(TokenView::Literal(lit)) => r is Some && r->0@ == lit && pos < tokens.len(),
            _ => r is None,
        },
{
    if pos >= tokens.len() {
        return None;
    }
    assert(token_views(tokens@)[pos as int] == tokens@[pos as int]@);
    tokens[pos].get_literal()
}

/// The identifier at `pos`, where one stands there.
fn ident_at(tokens: &Vec<Token>, pos: usize) -> (r: Option<&String>)
    ensures
        match token_at(token_views(tokens@), pos as int) {
            Some(TokenView::Ident(name)) => r is Some && r->0@ == name && pos < tokens.len(),
            _ => r is None,
        },
{
    if pos >= tokens.len() {
        return None;
    }
    assert(token_views(tokens@)[pos as int] == tokens@[pos as int]@);
    match &tokens[pos] {
        Token::Ident(name) => Some(name),
        _ => None,
    }
}

fn parse_failure<T>(pos: usize) -> (r: Result<T, SchemaError>)
    ensures
        r is Err,
        r->Err_0@ == parse_error(pos as int),
{
    Err(SchemaError::Parse { position: pos })
}

/// Reads an optional question mark.
fn parse_nullable(tokens: &Vec<Token>, pos: usize) -> (r: (bool, usize))
    ensures
        r.0 == nullable_at(token_views(tokens@), pos as int).value,
        r.1 == nullable_at(token_views(tokens@), pos as int).next,
{
    if stands_at(tokens, pos, &Token::QMark) {
        (true, pos + 1)
    } else {
        (false, pos)
    }
}

impl IntDataType {
    /// Reads what follows the name `int`: an optional range of integers and
    /// an optional question mark.
    pub fn parse(tokens: &Vec<Token>, pos: usize) -> (r: Result<(IntDataType, usize), SchemaError>)
        ensures
            outcome_of(r) == int_type_at(token_views(tokens@), pos as int),
    {
        let mut min: Option<i32> = None;
        let mut max: Option<i32> = None;
        let mut at: usize = pos;
        if stands_at(tokens, pos, &Token::OAngle) {
            at = pos + 1;
            match literal_at(tokens, at) {
                Some(literal) => {
                    match literal.get_i32() {
                        Some(v) => {
                            min = Some(v);
                        },
                        None => {
                            return parse_failure(at);
                        },
                    }
                    at = at + 1;
                },
                None => {},
            }
            if !stands_at(tokens, at, &Token::Comma) {
                return parse_failure(at);
            }
            at = at + 1;
            match literal_at(tokens, at) {
                Some(literal) => {
                    match literal.get_i32() {
                        Some(v) => {
                            max = Some(v);
                        },
                        None => {
                            return parse_failure(at);
                        },
                    }
                    at = at + 1;
                },
                None => {},
            }
            if !stands_at(tokens, at, &Token::CAngle) {
                return parse_failure(at);
            }
            at = at + 1;
        }
        let (nullable, next) = parse_nullable(tokens, at);
        Ok((IntDataType::new(min, max, nullable), next))
    }
}

impl DblDataType {
    /// Reads what follows the name `dbl`: an optional range of decimals and
    /// an optional question mark. An integer counts as a decimal.
    pub fn parse(tokens: &Vec<Token>, pos: usize) -> (r: Result<(DblDataType, usize), SchemaError>)
        ensures
            outcome_of(r) == dbl_type_at(token_views(tokens@), pos as int),
    {
        let mut min: Option<Decimal> = None;
        let mut max: Option<Decimal> = None;
        let mut at: usize = pos;
        if stands_at(tokens, pos, &Token::OAngle) {
            at = pos + 1;
            match literal_at(tokens, at) {
                Some(literal) => {
                    match literal.get_f64() {
                        Some(v) => {
                            min = Some(v);
                        },
                        None => {
                            return parse_failure(at);
                        },
                    }
                    at = at + 1;
                },
                None => {},
            }
            if !stands_at(tokens, at, &Token::Comma) {
                return parse_failure(at);
            }
            at = at + 1;
            match literal_at(tokens, at) {
                Some(literal) => {
                    match literal.get_f64() {
                        Some(v) => {
                            max = Some(v);
                        },
                        None => {
                            return parse_failure(at);
                        },
                    }
                    at = at + 1;
                },
                None => {},
            }
            if !stands_at(tokens, at, &Token::CAngle) {
                return parse_failure(at);
            }
            at = at + 1;
        }
        let (nullable, next) = parse_nullable(tokens, at);
        Ok((DblDataType::new(min, max, nullable), next))
    }
}

/// The length that a literal gives: that of an integer that is not negative.
fn length_of(literal: &Literal) -> (r: Option<usize>)
    ensures
        r == len_bound(literal@),
{
    match literal.get_i32() {
        Some(v) => if v >= 0 {
            Some(v as usize)
        } else {
            None
        },
        None => None,
    }
}

impl StrDataType {
    /// Reads what follows the name `str`: an optional range of lengths and
    /// an optional question mark.
    pub fn parse(tokens: &Vec<Token>, pos: usize) -> (r: Result<(StrDataType, usize), SchemaError>)
        ensures
            outcome_of(r) == str_type_at(token_views(tokens@), pos as int),
    {
        let mut min: Option<usize> = None;
        let mut max: Option<usize> = None;
        let mut at: usize = pos;
        if stands_at(tokens, pos, &Token::OAngle) {
            at = pos + 1;
            match literal_at(tokens, at) {
                Some(literal) => {
                    match length_of(literal) {
                        Some(v) => {
                            min = Some(v);
                        },
                        None => {
                            return parse_failure(at);
                        },
                    }
                    at = at + 1;
                },
                None => {},
            }
            if !stands_at(tokens, at, &Token::Comma) {
                return parse_failure(at);
            }
            at = at + 1;
            match literal_at(tokens, at) {
                Some(literal) => {
                    match length_of(literal) {
                        Some(v) => {
                            max = Some(v);
                        },
                        None => {
                            return parse_failure(at);
                        },
                    }
                    at = at + 1;
                },
                None => {},
            }
            if !stands_at(tokens, at, &Token::CAngle) {
                return parse_failure(at);
            }
            at = at + 1;
        }
        let (nullable, next) = parse_nullable(tokens, at);
        Ok((StrDataType::new(min, max, nullable), next))
    }
}

/// A type expression at `pos`: the name of a family with its range and
/// question mark, or a name that `symbols` binds to a type.
pub open spec fn data_type_at(
    tokens: Seq<TokenView>,
    pos: int,
    symbols: Map<Seq<char>, SymbolView>,
) -> Result<Parsed<DataTypeView>, ErrorView> {
    match token_at(tokens, pos) {
        Some(TokenView::Ident(name)) => if name == INT_TYPE_NAME@ {
            match int_type_at(tokens, pos + 1) {
                Ok(t) => Ok(Parsed { value: DataTypeView::Int(t.value), next: t.next }),
                Err(e) => Err(e),
            }
        } else if name == DBL_TYPE_NAME@ {
            match dbl_type_at(tokens, pos + 1) {
                Ok(t) => Ok(Parsed { value: DataTypeView::Dbl(t.value), next: t.next }),
                Err(e) => Err(e),
            }
        } else if name == STR_TYPE_NAME@ {
            match str_type_at(tokens, pos + 1) {
                Ok(t) => Ok(Parsed { value: DataTypeView::Str(t.value), next: t.next }),
                Err(e) => Err(e),
            }
        } else if symbols.dom().contains(name) && symbols[name] is DataType {
            Ok(Parsed { value: symbols[name]->DataType_0, next: pos + 1 })
        } else {
            Err(ErrorView::UnknownType { name })
        },
        _ => Err(parse_error(pos)),
    }
}

fn is_name(name: &String, expected: &str) -> (r: bool)
    ensures
        r == (name@ == expected@),
{
    let owned = expected.to_owned();
    *name == owned
}

/// Reads a type expression: the name of a family with its range and question
/// mark, or a name that `symtable` binds to a type.
pub fn parse_data_type(tokens: &Vec<Token>, pos: usize, symtable: &SymbolTable) -> (r: Result<
    (Rc<DataType>, usize),
    SchemaError,
>)
    ensures
        outcome_of(r) == data_type_at(token_views(tokens@), pos as int, symtable@),
{
    let ident = match ident_at(tokens, pos) {
        Some(ident) => ident,
        None => {
            return parse_failure(pos);
        },
    };
    if is_name(ident, INT_TYPE_NAME) {
        match IntDataType::parse(tokens, pos + 1) {
            Ok((dtype, end)) => Ok((Rc::new(DataType::Int(dtype)), end)),
            Err(e) => Err(e),
        }
    } else if is_name(ident, DBL_TYPE_NAME) {
        match DblDataType::parse(tokens, pos + 1) {
            Ok((dtype, end)) => Ok((Rc::new(DataType::Dbl(dtype)), end)),
            Err(e) => Err(e),
        }
    } else if is_name(ident, STR_TYPE_NAME) {
        match StrDataType::parse(tokens, pos + 1) {
            Ok((dtype, end)) => Ok((Rc::new(DataType::Str(dtype)), end)),
            Err(e) => Err(e),
        }
    } else {
        match symtable.get(ident) {
            Some(Symbol::DataType(dtype)) => Ok((rc_clone(dtype), pos + 1)),
            _ => Err(SchemaError::UnknownType { name: ident.clone() }),
        }
    }
}

/// A column at `pos`: its name, a colon, its type and, optionally, an equals
/// sign and a literal, which is taken as it stands.
pub open spec fn column_at(
    tokens: Seq<TokenView>,
    pos: int,
    symbols: Map<Seq<char>, SymbolView>,
) -> Result<Parsed<NamedView<ColumnView>>, ErrorView> {
    match token_at(tokens, pos) {
        Some(TokenView::Ident(name)) => if !stands(tokens, pos + 1, TokenView::Colon) {
            Err(parse_error(pos + 1))
        } else {
            match data_type_at(tokens, pos + 2, symbols) {
                Err(e) => Err(e),
                Ok(t) => if !stands(tokens, t.next, TokenView::Equals) {
                    Ok(
                        Parsed {
                            value: NamedView {
                                name,
                                item: ColumnView { column_type: t.value, default_value: None },
                            },
                            next: t.next,
                        },
                    )
                } else {
                    match token_at(tokens, t.next + 1) {
                        Some(TokenView::Literal(lit)) => Ok(
                            Parsed {
                                value: NamedView {
                                    name,
                                    item: ColumnView {
                                        column_type: t.value,
                                        default_value: Some(lit),
                                    },
                                },
                                next: t.next + 2,
                            },
                        ),
                        _ => Err(parse_error(t.next + 1)),
                    }
                },
            }
        },
        _ => Err(parse_error(pos)),
    }
}

/// Reads a column: its name, a colon, its type and, optionally, an equals
/// sign and a literal, which is taken as it stands.
pub fn parse_column_schema(tokens: &Vec<Token>, pos: usize, symtable: &SymbolTable) -> (r: Result<
    (Named<ColumnSchema>, usize),
    SchemaError,
>)
    ensures
        outcome_of(r) == column_at(token_views(tokens@), pos as int, symtable@),
{
    let column_name = match ident_at(tokens, pos) {
        Some(ident) => ident.clone(),
        None => {
            return parse_failure(pos);
        },
    };
    if !stands_at(tokens, pos + 1, &Token::Colon) {
        return parse_failure(pos + 1);
    }
    let (column_type, end) = match parse_data_type(tokens, pos + 2, symtable) {
        Ok(parsed) => parsed,
        Err(e) => {
            return Err(e);
        },
    };
    if stands_at(tokens, end, &Token::Equals) {
        match literal_at(tokens, end + 1) {
            Some(literal) => Ok(
                (
                    Named {
                        name: column_name,
                        item: ColumnSchema::new(column_type, Some(literal.clone())),
                    },
                    end + 2,
                ),
            ),
            None => parse_failure(end + 1),
        }
    } else {
        Ok((Named { name: column_name, item: ColumnSchema::new(column_type, None) }, end))
    }
}

/// A production that succeeds ends behind the position at which it began.
pub proof fn lemma_column_advances(
    tokens: Seq<TokenView>,
    pos: int,
    symbols: Map<Seq<char>, SymbolView>,
)
    ensures
        column_at(tokens, pos, symbols) matches Ok(c) ==> pos < c.next <= tokens.len(),
{
}

/// The columns of a table from `pos` on, separated by commas, added to
/// `table` one after the other; a name that the table has is an error.
pub open spec fn columns_at(
    tokens: Seq<TokenView>,
    pos: int,
    symbols: Map<Seq<char>, SymbolView>,
    table: TableView,
) -> Result<Parsed<TableView>, ErrorView>
    decreases tokens.len() - pos,
{
    match column_at(tokens, pos, symbols) {
        Err(e) => Err(e),
        Ok(c) => match table.add(c.value.name, c.value.item) {
            Err(e) => Err(e),
            Ok(longer) => if stands(tokens, c.next, TokenView::Comma) {
                proof {
                    lemma_column_advances(tokens, pos, symbols);
                }
                columns_at(tokens, c.next + 1, symbols, longer)
            } else {
                Ok(Parsed { value: longer, next: c.next })
            },
        },
    }
}

/// A table at `pos`: its name and, in round brackets, its columns.
pub open spec fn table_at(
    tokens: Seq<TokenView>,
    pos: int,
    symbols: Map<Seq<char>, SymbolView>,
) -> Result<Parsed<NamedView<TableView>>, ErrorView> {
    match token_at(tokens, pos) {
        Some(TokenView::Ident(name)) => if !stands(tokens, pos + 1, TokenView::OParen) {
            Err(parse_error(pos + 1))
        } else {
            match columns_at(tokens, pos + 2, symbols, TableView::empty()) {
                Err(e) => Err(e),
                Ok(columns) => if !stands(tokens, columns.next, TokenView::CParen) {
                    Err(parse_error(columns.next))
                } else {
                    Ok(
                        Parsed {
                            value: NamedView { name, item: columns.value },
                            next: columns.next + 1,
                        },
                    )
                },
            }
        },
        _ => Err(parse_error(pos)),
    }
}

/// Reads a table: its name and, in round brackets, its columns, separated by
/// commas. Two columns of one name are an error.
pub fn parse_table_schema(tokens: &Vec<Token>, pos: usize, symtable: &SymbolTable) -> (r: Result<
    (Named<TableSchema>, usize),
    SchemaError,
>)
    ensures
        outcome_of(r) == table_at(token_views(tokens@), pos as int, symtable@),
{
    let table_name = match ident_at(tokens, pos) {
        Some(ident) => ident.clone(),
        None => {
            return parse_failure(pos);
        },
    };
    if !stands_at(tokens, pos + 1, &Token::OParen) {
        return parse_failure(pos + 1);
    }
    let mut table = TableSchema::new();
    let mut at: usize = pos + 2;
    let ghost views = token_views(tokens@);
    loop
        invariant_except_break
            columns_at(views, pos + 2, symtable@, TableView::empty()) == columns_at(
                views,
                at as int,
                symtable@,
                table@,
            ),
        invariant
            at <= tokens.len(),
            views == token_views(tokens@),
            token_at(views, pos as int) == Some(TokenView::Ident(table_name@)),
            stands(views, pos + 1, TokenView::OParen),
        ensures
            columns_at(views, pos + 2, symtable@, TableView::empty()) == Ok::<
                Parsed<TableView>,
                ErrorView,
            >(Parsed { value: table@, next: at as int }),
        decreases tokens.len() - at,
    {
        proof {
            lemma_column_advances(views, at as int, symtable@);
        }
        let (column, end) = match parse_column_schema(tokens, at, symtable) {
            Ok(parsed) => parsed,
            Err(e) => {
                return Err(e);
            },
        };
        match table.add_column(column.name, column.item) {
            Ok(_) => {},
            Err(e) => {
                return Err(e);
            },
        }
        if stands_at(tokens, end, &Token::Comma) {
            at = end + 1;
        } else {
            at = end;
            break;
        }
    }
    if !stands_at(tokens, at, &Token::CParen) {
        return parse_failure(at);
    }
    Ok((Named { name: table_name, item: table }, at + 1))
}

/// What a statement yields: the statement, the position behind it, and the
/// symbols with what the statement binds.
pub struct StmtOut {
    pub stmt: StmtView,
    pub next: int,
    pub symbols: Map<Seq<char>, SymbolView>,
}

/// A statement without its binding: the reserved word `type`, a name and a
/// type expression, or the reserved word `table` and a table.
pub open spec fn declaration_at(
    tokens: Seq<TokenView>,
    pos: int,
    symbols: Map<Seq<char>, SymbolView>,
) -> Result<Parsed<StmtView>, ErrorView> {
    match token_at(tokens, pos) {
        Some(TokenView::TypeKwd) => match token_at(tokens, pos + 1) {
            Some(TokenView::Ident(name)) => match data_type_at(tokens, pos + 2, symbols) {
                Err(e) => Err(e),
                Ok(t) => Ok(Parsed { value: StmtView::TypeDef(name, t.value), next: t.next }),
            },
            _ => Err(parse_error(pos + 1)),
        },
        Some(TokenView::TableKwd) => match table_at(tokens, pos + 1, symbols) {
            Err(e) => Err(e),
            Ok(t) => Ok(
                Parsed { value: StmtView::TableSchema(t.value.name, t.value.item), next: t.next },
            ),
        },
        _ => Err(parse_error(pos)),
    }
}

/// A statement at `pos`: a declaration, and the binding of its name, which
/// fails where the name is taken, by a type or by a table.
pub open spec fn stmt_at(
    tokens: Seq<TokenView>,
    pos: int,
    symbols: Map<Seq<char>, SymbolView>,
) -> Result<StmtOut, ErrorView> {
    match declaration_at(tokens, pos, symbols) {
        Err(e) => Err(e),
        Ok(d) => match bind(symbols, d.value.name(), d.value.symbol()) {
            Err(e) => Err(e),
            Ok(bound) => Ok(StmtOut { stmt: d.value, next: d.next, symbols: bound }),
        },
    }
}

/// Reads a declaration and checks that its name is free, without binding it.
fn parse_declaration(tokens: &Vec<Token>, pos: usize, symtable: &SymbolTable) -> (r: Result<
    (Stmt, usize),
    SchemaError,
>)
    ensures
        match stmt_at(token_views(tokens@), pos as int, symtable@) {
            Ok(out) => r matches Ok((stmt, next)) && stmt@ == out.stmt && next == out.next && pos
                < next <= tokens.len(),
            Err(e) => r matches Err(x) && x@ == e,
        },
{
    if stands_at(tokens, pos, &Token::TypeKwd) {
        let alias = match ident_at(tokens, pos + 1) {
            Some(ident) => ident.clone(),
            None => {
                return parse_failure(pos + 1);
            },
        };
        let (data_type, end) = match parse_data_type(tokens, pos + 2, symtable) {
            Ok(parsed) => parsed,
            Err(e) => {
                return Err(e);
            },
        };
        if symtable.contains(&alias) {
            return Err(SchemaError::DuplicateSymbol { name: alias });
        }
        Ok((Stmt::TypeDef(alias, data_type), end))
    } else if stands_at(tokens, pos, &Token::TableKwd) {
        let (table, end) = match parse_table_schema(tokens, pos + 1, symtable) {
            Ok(parsed) => parsed,
            Err(e) => {
                return Err(e);
            },
        };
        proof {
            lemma_table_advances(token_views(tokens@), pos + 1, symtable@);
        }
        if symtable.contains(&table.name) {
            return Err(SchemaError::DuplicateSymbol { name: table.name });
        }
        Ok((Stmt::TableSchema(table.name, Rc::new(table.item)), end))
    } else {
        parse_failure(pos)
    }
}

/// The columns of a table end behind the position at which they began.
pub proof fn lemma_columns_advance(
    tokens: Seq<TokenView>,
    pos: int,
    symbols: Map<Seq<char>, SymbolView>,
    table: TableView,
)
    ensures
        columns_at(tokens, pos, symbols, table) matches Ok(c) ==> pos < c.next <= tokens.len(),
    decreases tokens.len() - pos,
{
    lemma_column_advances(tokens, pos, symbols);
    if let Ok(c) = column_at(tokens, pos, symbols) {
        if let Ok(longer) = table.add(c.value.name, c.value.item) {
            if stands(tokens, c.next, TokenView::Comma) {
                lemma_columns_advance(tokens, c.next + 1, symbols, longer);
            }
        }
    }
}

/// A table ends behind the position at which it began.
pub proof fn lemma_table_advances(
    tokens: Seq<TokenView>,
    pos: int,
    symbols: Map<Seq<char>, SymbolView>,
)
    ensures
        table_at(tokens, pos, symbols) matches Ok(t) ==> pos < t.next <= tokens.len(),
{
    lemma_columns_advance(tokens, pos + 2, symbols, TableView::empty());
}

/// A statement ends behind the position at which it began.
pub proof fn lemma_stmt_advances(
    tokens: Seq<TokenView>,
    pos: int,
    symbols: Map<Seq<char>, SymbolView>,
)
    ensures
        stmt_at(tokens, pos, symbols) matches Ok(s) ==> pos < s.next <= tokens.len(),
{
    lemma_table_advances(tokens, pos + 1, symbols);
}

/// The symbol that a statement binds its name to.
fn symbol_of(stmt: &Stmt) -> (r: Named<Symbol>)
    ensures
        r.name@ == stmt@.name(),
        r.item@ == stmt@.symbol(),
{
    match stmt {
        Stmt::TableSchema(name, table) => Named {
            name: name.clone(),
            item: Symbol::TableSchema(rc_clone(table)),
        },
        Stmt::TypeDef(name, data_type) => Named {
            name: name.clone(),
            item: Symbol::DataType(rc_clone(data_type)),
        },
    }
}

impl Stmt {
    /// Reads a statement and binds its name in `symtable`. Where the
    /// statement fails, `symtable` is as it was.
    pub fn parse(tokens: &Vec<Token>, pos: usize, symtable: &mut SymbolTable) -> (r: Result<
        (Stmt, usize),
        SchemaError,
    >)
        ensures
            match stmt_at(token_views(tokens@), pos as int, old(symtable)@) {
                Ok(out) => r matches Ok((stmt, next)) && stmt@ == out.stmt && next == out.next
                    && final(symtable)@ == out.symbols,
                Err(e) => r matches Err(x) && x@ == e && final(symtable)@ == old(symtable)@,
            },
    {
        let (stmt, end) = match parse_declaration(tokens, pos, symtable) {
            Ok(parsed) => parsed,
            Err(e) => {
                return Err(e);
            },
        };
        let bound = symbol_of(&stmt);
        match symtable.insert(bound.name, bound.item) {
            Ok(_) => Ok((stmt, end)),
            Err(e) => Err(e),
        }
    }
}

/// What a run of statements yields: the schema with their tables, the
/// position behind the last of them, and the symbols that they bound.
pub struct ProgramOut {
    pub schema: SchemaView,
    pub next: int,
    pub symbols: Map<Seq<char>, SymbolView>,
}

/// The schema with the table of a statement, where the statement declares one.
pub open spec fn schema_after(schema: SchemaView, stmt: StmtView) -> SchemaView {
    match stmt {
        StmtView::TableSchema(name, table) => schema.with(name, table),
        StmtView::TypeDef(_, _) => schema,
    }
}

/// The statements from `pos` on, each with its semicolon, as far as they go.
///
/// A statement that fails on a name (one that is taken, or a type that is
/// not declared) fails the whole. Any other failure, and a statement without
/// its semicolon, ends the run in front of that statement.
pub open spec fn program_at(
    tokens: Seq<TokenView>,
    pos: int,
    symbols: Map<Seq<char>, SymbolView>,
    schema: SchemaView,
) -> Result<ProgramOut, ErrorView>
    decreases tokens.len() - pos,
{
    match stmt_at(tokens, pos, symbols) {
        Err(e) => if e.is_symbol_error() {
            Err(e)
        } else {
            Ok(ProgramOut { schema, next: pos, symbols })
        },
        Ok(s) => if !stands(tokens, s.next, TokenView::Semicolon) {
            Ok(ProgramOut { schema, next: pos, symbols })
        } else {
            proof {
                lemma_stmt_advances(tokens, pos, symbols);
            }
            program_at(tokens, s.next + 1, s.symbols, schema_after(schema, s.stmt))
        },
    }
}

/// The schema that a token sequence declares: its statements must take up
/// all the tokens.
pub open spec fn schema_of_tokens(tokens: Seq<TokenView>) -> Result<SchemaView, ErrorView> {
    match program_at(tokens, 0, Map::empty(), SchemaView::empty()) {
        Err(e) => Err(e),
        Ok(out) => if out.next != tokens.len() {
            Err(ErrorView::TrailingInput)
        } else {
            Ok(out.schema)
        },
    }
}

/// Whether every table of `schema` is bound in `symbols`.
pub open spec fn tables_bound(schema: SchemaView, symbols: Map<Seq<char>, SymbolView>) -> bool {
    forall|i: int| 0 <= i < schema.names.len() ==> symbols.dom().contains(#[trigger] schema.names[i])
}

impl SpreadsheetSchema {
    /// Reads statements from `pos` on, each with its semicolon, as far as
    /// they go, and binds their names in `symtable`.
    pub fn parse(tokens: &Vec<Token>, pos: usize, symtable: &mut SymbolTable) -> (r: Result<
        (SpreadsheetSchema, usize),
        SchemaError,
    >)
        ensures
            match program_at(token_views(tokens@), pos as int, old(symtable)@, SchemaView::empty()) {
                Ok(out) => r matches Ok((schema, next)) && schema@ == out.schema && next == out.next
                    && final(symtable)@ == out.symbols,
                Err(e) => r matches Err(x) && x@ == e,
            },
    {
        let mut schema = SpreadsheetSchema::new();
        let mut at: usize = pos;
        let ghost views = token_views(tokens@);
        let ghost start = symtable@;
        loop
            invariant_except_break
                program_at(views, pos as int, start, SchemaView::empty()) == program_at(
                    views,
                    at as int,
                    symtable@,
                    schema@,
                ),
            invariant
                views == token_views(tokens@),
                start == old(symtable)@,
                tables_bound(schema@, symtable@),
            ensures
                program_at(views, pos as int, start, SchemaView::empty()) == Ok::<
                    ProgramOut,
                    ErrorView,
                >(ProgramOut { schema: schema@, next: at as int, symbols: symtable@ }),
            decreases tokens.len() - at,
        {
            let (stmt, end) = match parse_declaration(tokens, at, symtable) {
                Ok(parsed) => parsed,
                Err(e) => {
                    if e.is_symbol_error() {
                        return Err(e);
                    }
                    break;
                },
            };
            if !stands_at(tokens, end, &Token::Semicolon) {
                break;
            }
            let bound = symbol_of(&stmt);
            let ghost before = symtable@;
            match symtable.insert(bound.name, bound.item) {
                Ok(_) => {},
                Err(e) => {
                    return Err(e);
                },
            }
            match stmt {
                Stmt::TableSchema(name, table) => {
                    assert(!schema@.has(name@)) by {
                        if schema@.has(name@) {
                            let i = choose|i: int|
                                0 <= i < schema@.names.len() && schema@.names[i] == name@;
                            assert(before.dom().contains(schema@.names[i]));
                        }
                    }
                    let added = schema.add_table(name, table);
                    assert(added);
                },
                Stmt::TypeDef(_, _) => {},
            }
            at = end + 1;
        }
        Ok((schema, at))
    }
}

/// Reads a schema: statements, each with its semicolon, that take up all the
/// tokens.
pub fn parse_spreadsheet_schema(tokens: &Vec<Token>) -> (r: Result<SpreadsheetSchema, SchemaError>)
    ensures
        match schema_of_tokens(token_views(tokens@)) {
            Ok(schema) => r is Ok && r->Ok_0@ == schema,
            Err(e) => r is Err && r->Err_0@ == e,
        },
{
    let mut symtable = SymbolTable::new();
    match SpreadsheetSchema::parse(tokens, 0, &mut symtable) {
        Err(e) => Err(e),
        Ok((schema, next)) => if next != tokens.len() {
            Err(SchemaError::TrailingInput)
        } else {
            Ok(schema)
        },
    }
}

} // verus!
