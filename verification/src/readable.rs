//! What is read can be written out: the tokens of a text and the schema
//! that is read from them have the form that the canonical text needs.

use vstd::prelude::*;
use crate::canon::{
    bound_printable, column_printable, default_printable, is_name, is_reserved, schema_printable,
    table_printable, type_printable,
};
use crate::chars::{in_class, is_digit, is_word, lemma_run_len, starts_with, CharClass};
use crate::decimal::decimal_of_int;
use crate::digits::{all_digits, lemma_nat_text};
use crate::lexer::{
    best_match, integer_len, lemma_best_match, lemma_match_len_bounds, lex_from, match_len,
    rule_output, sign_len, standard_rules, strip_zeros, LexOutputView, RuleView,
};
use crate::literal::LiteralView;
use crate::parser::{
    column_at, columns_at, data_type_at, lemma_column_advances, lemma_stmt_advances, program_at,
    schema_after, stands, stmt_at, tables_bound,
};
use crate::schema::{SchemaView, TableView};
use crate::symbols::{StmtView, SymbolView};
use crate::token::TokenView;

verus! {

/// Whether a token has the form that the lexer of the language gives it: an
/// identifier is a name, a decimal has a fractional part, and a text holds
/// no double quote.
pub open spec fn token_ok(token: TokenView) -> bool {
    match token {
        TokenView::Ident(name) => is_name(name),
        TokenView::Literal(lit) => default_printable(lit),
        _ => true,
    }
}

pub open spec fn tokens_ok(tokens: Seq<TokenView>) -> bool {
    forall|k: int| 0 <= k < tokens.len() ==> token_ok(#[trigger] tokens[k])
}

/// The rule that is taken has the longest match, and a longer one than
/// every rule before it.
pub proof fn lemma_best_is_first_longest(
    rules: Seq<RuleView>,
    s: Seq<char>,
    pos: int,
    n: int,
    j: int,
)
    requires
        0 <= j < n <= rules.len(),
    ensures
        match_len(rules[j], s, pos) matches Some(other) ==> best_match(rules, s, pos, n) matches Some(
            (i, len),
        ) && other <= len && (j < i ==> other < len),
    decreases n,
{
    if j < n - 1 {
        lemma_best_is_first_longest(rules, s, pos, n - 1, j);
    }
    lemma_best_match(rules, s, pos, n - 1);
}

/// Leading zeros taken off, digits are still digits, and they start with a
/// zero only where a single zero is left.
pub proof fn lemma_strip_zeros_wf(digits: Seq<char>)
    requires
        digits.len() >= 1,
        all_digits(digits),
    ensures
        strip_zeros(digits).len() >= 1,
        all_digits(strip_zeros(digits)),
        strip_zeros(digits)[0] == '0' ==> strip_zeros(digits).len() == 1,
    decreases digits.len(),
{
    if digits.len() > 1 && digits[0] == '0' {
        let rest = digits.drop_first();
        assert forall|i: int| 0 <= i < rest.len() implies is_digit(#[trigger] rest[i]) by {
            assert(rest[i] == digits[i + 1]);
        }
        lemma_strip_zeros_wf(rest);
    }
}

/// What a rule of the language yields for its match, where it is the rule
/// that is taken, has the form of a token of the language.
pub proof fn lemma_output_ok(s: Seq<char>, pos: int)
    requires
        0 <= pos < s.len(),
    ensures
        best_match(standard_rules(), s, pos, standard_rules().len() as int) matches Some((i, len))
            ==> (rule_output(standard_rules()[i], s, pos, len) matches LexOutputView::Emit(token)
            ==> token_ok(token)),
{
    let rules = standard_rules();
    let n = rules.len() as int;
    lemma_best_match(rules, s, pos, n);
    if let Some((i, len)) = best_match(rules, s, pos, n) {
        lemma_match_len_bounds(rules[i], s, pos);
        match rules[i] {
            RuleView::Identifier => {
                let name = s.subrange(pos, pos + len);
                lemma_run_len(s, pos + 1, CharClass::Word);
                assert(name[0] == s[pos]);
                assert forall|k: int| 1 <= k < name.len() implies is_word(#[trigger] name[k]) by {
                    assert(name[k] == s[pos + k]);
                    assert(in_class(CharClass::Word, s[pos + k]));
                }
                assert(i == 17);
                assert(!is_reserved(name)) by {
                    if is_reserved(name) {
                        let j = if name == seq!['t', 'y', 'p', 'e'] {
                            12int
                        } else if name == seq!['t', 'a', 'b'] {
                            13int
                        } else if name == seq!['t', 'a', 'b', 'l', 'e'] {
                            14int
                        } else if name == seq!['s', 'c', 'h', 'e', 'm', 'a'] {
                            15int
                        } else {
                            16int
                        };
                        assert(rules[j] is Fixed);
                        assert(rules[j]->Fixed_0 == name);
                        assert(starts_with(s, pos, name));
                        lemma_best_is_first_longest(rules, s, pos, n, j);
                    }
                }
            },
            RuleView::Float => {
                assert(i == 19);
                assert(rules[18] == RuleView::Integer);
                lemma_best_is_first_longest(rules, s, pos, n, 18);
                let start = pos + sign_len(s, pos);
                let point = pos + integer_len(s, pos);
                lemma_run_len(s, start, CharClass::Digit);
                lemma_run_len(s, point + 1, CharClass::Digit);
                let digits = s.subrange(start, point);
                assert forall|k: int| 0 <= k < digits.len() implies is_digit(#[trigger] digits[k]) by {
                    assert(digits[k] == s[start + k]);
                    assert(in_class(CharClass::Digit, s[start + k]));
                }
                lemma_strip_zeros_wf(digits);
                let frac = s.subrange(point + 1, pos + len);
                assert forall|k: int| 0 <= k < frac.len() implies is_digit(#[trigger] frac[k]) by {
                    assert(frac[k] == s[point + 1 + k]);
                    assert(in_class(CharClass::Digit, s[point + 1 + k]));
                }
            },
            RuleView::Quoted => {
                let text = s.subrange(pos + 1, pos + len - 1);
                lemma_run_len(s, pos + 1, CharClass::NotQuote);
                assert forall|k: int| 0 <= k < text.len() implies #[trigger] text[k] != '"' by {
                    assert(text[k] == s[pos + 1 + k]);
                    assert(in_class(CharClass::NotQuote, s[pos + 1 + k]));
                }
            },
            _ => {},
        }
    }
}

/// The tokens of a text have the form of tokens of the language.
pub proof fn lemma_lexed_tokens_ok(s: Seq<char>, pos: int)
    ensures
        lex_from(standard_rules(), s, pos) matches Ok(tokens) ==> tokens_ok(tokens),
    decreases s.len() - pos,
{
    let rules = standard_rules();
    if 0 <= pos < s.len() {
        lemma_output_ok(s, pos);
        if let Some((i, len)) = best_match(rules, s, pos, rules.len() as int) {
            if len > 0 && pos + len <= s.len() {
                lemma_lexed_tokens_ok(s, pos + len);
                if let Ok(rest) = lex_from(rules, s, pos + len) {
                    if let LexOutputView::Emit(token) = rule_output(rules[i], s, pos, len) {
                        let tokens = seq![token] + rest;
                        assert forall|k: int| 0 <= k < tokens.len() implies token_ok(
                            #[trigger] tokens[k],
                        ) by {
                            if k > 0 {
                                assert(tokens[k] == rest[k - 1]);
                            }
                        }
                    }
                }
            }
        }
    }
}

/// Whether every type that `symbols` binds can be written out.
pub open spec fn symbols_ok(symbols: Map<Seq<char>, SymbolView>) -> bool {
    forall|name: Seq<char>| #[trigger]
        symbols.dom().contains(name) ==> (symbols[name] matches SymbolView::DataType(t)
            ==> type_printable(t))
}

/// The decimal that an integer is read as can be written out as a bound.
pub proof fn lemma_decimal_of_int(v: i32)
    ensures
        bound_printable(decimal_of_int(v as int)),
{
    let magnitude = (if v < 0 {
        -(v as int)
    } else {
        v as int
    }) as nat;
    lemma_nat_text(magnitude);
}

/// A type that is read from tokens of the language can be written out.
pub proof fn lemma_type_readable(
    tokens: Seq<TokenView>,
    pos: int,
    symbols: Map<Seq<char>, SymbolView>,
)
    requires
        tokens_ok(tokens),
        symbols_ok(symbols),
    ensures
        data_type_at(tokens, pos, symbols) matches Ok(t) ==> type_printable(t.value) && pos < t.next
            <= tokens.len(),
{
    if let Ok(t) = data_type_at(tokens, pos, symbols) {
        let name = tokens[pos]->Ident_0;
        assert(symbols.dom().contains(name) ==> (symbols[name] matches SymbolView::DataType(t)
            ==> type_printable(t)));
        if pos + 2 < tokens.len() {
            assert(token_ok(tokens[pos + 2]));
            if let TokenView::Literal(LiteralView::Int(v)) = tokens[pos + 2] {
                lemma_decimal_of_int(v);
            }
        }
        if pos + 3 < tokens.len() {
            assert(token_ok(tokens[pos + 3]));
            if let TokenView::Literal(LiteralView::Int(v)) = tokens[pos + 3] {
                lemma_decimal_of_int(v);
            }
        }
        if pos + 4 < tokens.len() {
            assert(token_ok(tokens[pos + 4]));
            if let TokenView::Literal(LiteralView::Int(v)) = tokens[pos + 4] {
                lemma_decimal_of_int(v);
            }
        }
    }
}

/// A column that is read from tokens of the language can be written out,
/// and so can its name.
pub proof fn lemma_column_readable(
    tokens: Seq<TokenView>,
    pos: int,
    symbols: Map<Seq<char>, SymbolView>,
)
    requires
        tokens_ok(tokens),
        symbols_ok(symbols),
    ensures
        column_at(tokens, pos, symbols) matches Ok(c) ==> column_printable(c.value.item) && is_name(
            c.value.name,
        ),
{
    if let Ok(c) = column_at(tokens, pos, symbols) {
        assert(token_ok(tokens[pos]));
        lemma_type_readable(tokens, pos + 2, symbols);
        let t = data_type_at(tokens, pos + 2, symbols)->Ok_0;
        if stands(tokens, t.next, TokenView::Equals) {
            assert(token_ok(tokens[t.next + 1]));
        }
    }
}

/// Whether the columns of a table can be written out, each with its name.
pub open spec fn columns_printable(t: TableView) -> bool {
    &&& t.wf()
    &&& forall|i: int| 0 <= i < t.names.len() ==> is_name(#[trigger] t.names[i])
    &&& forall|i: int| 0 <= i < t.columns.len() ==> column_printable(#[trigger] t.columns[i])
}

/// The columns that are read from tokens of the language, behind columns
/// that can be written out, make a table that can be written out.
pub proof fn lemma_columns_readable(
    tokens: Seq<TokenView>,
    pos: int,
    symbols: Map<Seq<char>, SymbolView>,
    table: TableView,
)
    requires
        tokens_ok(tokens),
        symbols_ok(symbols),
        columns_printable(table),
    ensures
        columns_at(tokens, pos, symbols, table) matches Ok(t) ==> table_printable(t.value),
    decreases tokens.len() - pos,
{
    lemma_column_advances(tokens, pos, symbols);
    lemma_column_readable(tokens, pos, symbols);
    if let Ok(c) = column_at(tokens, pos, symbols) {
        if let Ok(longer) = table.add(c.value.name, c.value.item) {
            crate::laws::lemma_push_keeps_distinct(table.names, c.value.name);
            assert forall|i: int| 0 <= i < longer.names.len() implies is_name(
                #[trigger] longer.names[i],
            ) by {
                if i < table.names.len() {
                    assert(longer.names[i] == table.names[i]);
                }
            }
            assert forall|i: int| 0 <= i < longer.columns.len() implies column_printable(
                #[trigger] longer.columns[i],
            ) by {
                if i < table.columns.len() {
                    assert(longer.columns[i] == table.columns[i]);
                }
            }
            if stands(tokens, c.next, TokenView::Comma) {
                lemma_columns_readable(tokens, c.next + 1, symbols, longer);
            }
        }
    }
}

/// A statement that is read from tokens of the language declares what can
/// be written out, under a name, and binds it.
pub proof fn lemma_stmt_readable(
    tokens: Seq<TokenView>,
    pos: int,
    symbols: Map<Seq<char>, SymbolView>,
)
    requires
        tokens_ok(tokens),
        symbols_ok(symbols),
    ensures
        stmt_at(tokens, pos, symbols) matches Ok(out) ==> symbols_ok(out.symbols) && is_name(
            out.stmt.name(),
        ) && !symbols.dom().contains(out.stmt.name()) && out.symbols == symbols.insert(
            out.stmt.name(),
            out.stmt.symbol(),
        ) && (out.stmt matches StmtView::TableSchema(_, t) ==> table_printable(t)),
{
    if let Ok(out) = stmt_at(tokens, pos, symbols) {
        assert(token_ok(tokens[pos + 1]));
        lemma_type_readable(tokens, pos + 2, symbols);
        lemma_columns_readable(tokens, pos + 3, symbols, TableView::empty());
    }
}

/// Whether the tables of a schema can be written out, each with its name.
pub open spec fn tables_printable(schema: SchemaView) -> bool {
    &&& schema.names.len() == schema.tables.len()
    &&& schema.names.no_duplicates()
    &&& forall|i: int| 0 <= i < schema.names.len() ==> is_name(#[trigger] schema.names[i])
    &&& forall|i: int| 0 <= i < schema.tables.len() ==> table_printable(#[trigger] schema.tables[i])
}

/// The statements that are read from tokens of the language, behind tables
/// that can be written out, make a schema that can be written out.
pub proof fn lemma_program_readable(
    tokens: Seq<TokenView>,
    pos: int,
    symbols: Map<Seq<char>, SymbolView>,
    schema: SchemaView,
)
    requires
        tokens_ok(tokens),
        symbols_ok(symbols),
        tables_printable(schema),
        tables_bound(schema, symbols),
    ensures
        program_at(tokens, pos, symbols, schema) matches Ok(out) ==> schema_printable(out.schema),
    decreases tokens.len() - pos,
{
    lemma_stmt_advances(tokens, pos, symbols);
    lemma_stmt_readable(tokens, pos, symbols);
    if let Ok(out) = stmt_at(tokens, pos, symbols) {
        if stands(tokens, out.next, TokenView::Semicolon) {
            let longer = schema_after(schema, out.stmt);
            if let StmtView::TableSchema(name, t) = out.stmt {
                assert(!schema.names.contains(name)) by {
                    if schema.names.contains(name) {
                        let i = choose|i: int| 0 <= i < schema.names.len() && schema.names[i] == name;
                        assert(symbols.dom().contains(schema.names[i]));
                    }
                }
                crate::laws::lemma_push_keeps_distinct(schema.names, name);
                assert forall|i: int| 0 <= i < longer.names.len() implies is_name(
                    #[trigger] longer.names[i],
                ) by {
                    if i < schema.names.len() {
                        assert(longer.names[i] == schema.names[i]);
                    }
                }
                assert forall|i: int| 0 <= i < longer.tables.len() implies table_printable(
                    #[trigger] longer.tables[i],
                ) by {
                    if i < schema.tables.len() {
                        assert(longer.tables[i] == schema.tables[i]);
                    }
                }
            }
            assert forall|i: int| 0 <= i < longer.names.len() implies out.symbols.dom().contains(
                #[trigger] longer.names[i],
            ) by {
                if i < schema.names.len() {
                    assert(longer.names[i] == schema.names[i]);
                    assert(symbols.dom().contains(schema.names[i]));
                }
            }
            lemma_program_readable(tokens, out.next + 1, out.symbols, longer);
        }
    }
}

/// What is read can be written out: the schema that is read from a text
/// can be written out and read back.
pub proof fn law_read_schema_is_printable(text: Seq<char>)
    ensures
        crate::compile::schema_of_text(text) matches Ok(schema) ==> schema_printable(schema),
{
    lemma_lexed_tokens_ok(text, 0);
    if let Ok(tokens) = crate::lexer::tokens_of(text) {
        lemma_program_readable(tokens, 0, Map::empty(), SchemaView::empty());
    }
}

} // verus!
