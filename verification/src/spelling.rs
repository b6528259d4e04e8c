//! Spelling: the lexer reads the canonical text of a schema as the
//! canonical tokens of that schema.

use vstd::prelude::*;
use crate::chars::{
    in_class, is_digit, is_letter, is_space, is_word, lemma_run_len_is, starts_with, CharClass,
};
use crate::lexer::{
    best_match, fraction_len, integer_len, lex_from, match_len, sign_len, standard_rules,
    RuleView,
};
use crate::canon::{
    bound_printable, column_printable, column_tokens, columns_tokens, decimal_bound_token,
    default_printable, is_identifier, is_name, is_reserved, max_tokens, min_tokens,
    schema_printable, schema_tokens, table_printable, table_stmt_tokens, tables_tokens,
    type_printable, type_tokens, whole_value,
};
use crate::codegen::{
    column_text, columns_text, family_name, literal_text, schema_text, table_stmt_text,
    table_text, tables_text, type_text,
};
use crate::datatype::DataTypeView;
use crate::reading::{lemma_family_names, lemma_holds_split};
use crate::schema::{ColumnView, SchemaView, TableView};
use crate::decimal::DecimalView;
use crate::digits::{all_digits, i32_of_digits, int_text, lemma_nat_text, nat_text};
use crate::lexer::{decimal_at, strip_zeros};
use crate::literal::LiteralView;
use crate::reading::holds_at;
use crate::token::TokenView;

verus! {

/// A rule whose match is longer than that of every rule before it, and as
/// long at least as that of every rule behind it, is the rule that is taken.
pub proof fn lemma_winner(rules: Seq<RuleView>, s: Seq<char>, pos: int, i: int, len: int, n: int)
    requires
        0 <= i < n <= rules.len(),
        match_len(rules[i], s, pos) == Some(len),
        forall|j: int|
            0 <= j < i ==> (#[trigger] match_len(rules[j], s, pos) matches Some(other) ==> other
                < len),
        forall|j: int|
            i < j < rules.len() ==> (#[trigger] match_len(rules[j], s, pos) matches Some(other)
                ==> other <= len),
    ensures
        best_match(rules, s, pos, n) == Some((i, len)),
    decreases n,
{
    if n - 1 > i {
        lemma_winner(rules, s, pos, i, len, n - 1);
    } else {
        lemma_losers(rules, s, pos, i, len, i);
    }
}

/// Among rules whose matches are all shorter than `len`, the one that is
/// taken has a match shorter than `len`.
proof fn lemma_losers(rules: Seq<RuleView>, s: Seq<char>, pos: int, i: int, len: int, n: int)
    requires
        0 <= n <= i < rules.len(),
        forall|j: int|
            0 <= j < i ==> (#[trigger] match_len(rules[j], s, pos) matches Some(other) ==> other
                < len),
    ensures
        best_match(rules, s, pos, n) matches Some((_, longest)) ==> longest < len,
    decreases n,
{
    if n > 0 {
        lemma_losers(rules, s, pos, i, len, n - 1);
    }
}

/// What the first character of a match of `rule` must be.
pub open spec fn may_start(rule: RuleView, c: char) -> bool {
    match rule {
        RuleView::LineComment | RuleView::BlockComment => c == '/',
        RuleView::Whitespace => is_space(c),
        RuleView::Fixed(text, _) => text.len() > 0 && c == text[0],
        RuleView::Identifier => is_letter(c),
        RuleView::Integer | RuleView::Float => c == '-' || is_digit(c),
        RuleView::Quoted => c == '"',
    }
}

/// Where a text stands, its characters stand.
pub proof fn lemma_starts_with(s: Seq<char>, pos: int, text: Seq<char>)
    ensures
        starts_with(s, pos, text) <==> holds_at(s, pos, text),
{
    if starts_with(s, pos, text) {
        let sub = s.subrange(pos, pos + text.len());
        assert forall|k: int| 0 <= k < text.len() implies #[trigger] text[k] == s[pos + k] by {
            assert(sub[k] == s[pos + k]);
        }
    }
    if holds_at(s, pos, text) {
        assert(s.subrange(pos, pos + text.len()) =~= text);
    }
}

/// A rule matches only where its first character may stand.
pub proof fn lemma_may_start(rule: RuleView, s: Seq<char>, pos: int)
    ensures
        match_len(rule, s, pos) is Some ==> 0 <= pos < s.len() && may_start(rule, s[pos]),
{
    if 0 <= pos < s.len() {
        lemma_starts_with(s, pos, seq!['/', '/']);
        lemma_starts_with(s, pos, seq!['/', '*']);
        match rule {
            RuleView::Fixed(text, _) => {
                lemma_starts_with(s, pos, text);
                if text.len() > 0 && holds_at(s, pos, text) {
                    assert(text[0] == s[pos + 0]);
                }
            },
            RuleView::LineComment => {
                if holds_at(s, pos, seq!['/', '/']) {
                    assert(seq!['/', '/'][0] == s[pos + 0]);
                }
            },
            RuleView::BlockComment => {
                if holds_at(s, pos, seq!['/', '*']) {
                    assert(seq!['/', '*'][0] == s[pos + 0]);
                }
            },
            _ => {},
        }
    }
}

/// The index of the rule of a punctuation mark among the rules of the
/// language, and the token of the mark.
pub open spec fn punctuation(c: char) -> Option<(int, TokenView)> {
    if c == '(' {
        Some((3, TokenView::OParen))
    } else if c == ')' {
        Some((4, TokenView::CParen))
    } else if c == '<' {
        Some((5, TokenView::OAngle))
    } else if c == '>' {
        Some((6, TokenView::CAngle))
    } else if c == ':' {
        Some((7, TokenView::Colon))
    } else if c == ';' {
        Some((8, TokenView::Semicolon))
    } else if c == ',' {
        Some((9, TokenView::Comma))
    } else if c == '=' {
        Some((10, TokenView::Equals))
    } else if c == '?' {
        Some((11, TokenView::QMark))
    } else {
        None
    }
}

/// What is in front of the tokens of the rest, where the rest has tokens.
pub open spec fn prepend(tokens: Seq<TokenView>, rest: Result<Seq<TokenView>, int>) -> Result<
    Seq<TokenView>,
    int,
> {
    match rest {
        Ok(more) => Ok(tokens + more),
        Err(at) => Err(at),
    }
}

/// Whether the `len` characters at `pos` are read as `tokens`, whatever
/// stands behind them.
#[verifier::opaque]
pub open spec fn spells(s: Seq<char>, pos: int, len: int, tokens: Seq<TokenView>) -> bool {
    lex_from(standard_rules(), s, pos) == prepend(
        tokens,
        lex_from(standard_rules(), s, pos + len),
    )
}

/// What is spelled by two stretches one behind the other is spelled by both
/// together.
pub proof fn lemma_spells_both(
    s: Seq<char>,
    pos: int,
    first: int,
    first_tokens: Seq<TokenView>,
    second: int,
    second_tokens: Seq<TokenView>,
)
    requires
        spells(s, pos, first, first_tokens),
        spells(s, pos + first, second, second_tokens),
    ensures
        spells(s, pos, first + second, first_tokens + second_tokens),
{
    reveal(spells);
    let rest = lex_from(standard_rules(), s, pos + first + second);
    if let Ok(more) = rest {
        assert(first_tokens + (second_tokens + more) == (first_tokens + second_tokens) + more);
    }
}

/// A stretch of no characters spells no tokens.
pub proof fn lemma_spells_nothing(s: Seq<char>, pos: int)
    ensures
        spells(s, pos, 0, Seq::empty()),
{
    reveal(spells);
    let rest = lex_from(standard_rules(), s, pos);
    if let Ok(more) = rest {
        assert(Seq::<TokenView>::empty() + more == more);
    }
}

/// A punctuation mark is read as its token.
pub proof fn lemma_spell_punctuation(s: Seq<char>, pos: int)
    requires
        0 <= pos < s.len(),
        punctuation(s[pos]) is Some,
    ensures
        punctuation(s[pos]) matches Some((_, token)) ==> spells(s, pos, 1, seq![token]),
{
    reveal(spells);
    let rules = standard_rules();
    let c = s[pos];
    let (i, token) = punctuation(c)->0;
    assert(rules[i] == RuleView::Fixed(seq![c], token));
    assert(holds_at(s, pos, seq![c]));
    lemma_starts_with(s, pos, seq![c]);
    assert forall|j: int| 0 <= j < rules.len() && j != i implies match_len(rules[j], s, pos)
        is None by {
        lemma_may_start(rules[j], s, pos);
    }
    lemma_winner(rules, s, pos, i, 1, rules.len() as int);
    let rest = lex_from(rules, s, pos + 1);
    if let Ok(more) = rest {
        assert(seq![token] + more == seq![token] + more);
    }
}

/// A white-space character in front of a character of another kind, or at
/// the end of the text, is dropped.
pub proof fn lemma_spell_space(s: Seq<char>, pos: int)
    requires
        0 <= pos < s.len(),
        is_space(s[pos]),
        pos + 1 < s.len() ==> !is_space(s[pos + 1]),
    ensures
        spells(s, pos, 1, Seq::empty()),
{
    reveal(spells);
    let rules = standard_rules();
    lemma_run_len_is(s, pos, CharClass::Space, 1);
    assert(rules[2] == RuleView::Whitespace);
    assert forall|j: int| 0 <= j < rules.len() && j != 2 implies match_len(rules[j], s, pos)
        is None by {
        lemma_may_start(rules[j], s, pos);
    }
    lemma_winner(rules, s, pos, 2, 1, rules.len() as int);
    let rest = lex_from(rules, s, pos + 1);
    if let Ok(more) = rest {
        assert(Seq::<TokenView>::empty() + more == more);
    }
}

/// Whether the character at `pos`, if there is one, is none that belongs
/// to a word.
pub open spec fn word_ends(s: Seq<char>, pos: int) -> bool {
    pos < s.len() ==> !is_word(s[pos])
}

/// An identifier that stands in front of a character that belongs to no
/// word is matched whole by the rule for identifiers, and every fixed text
/// that stands there is a part of it.
proof fn lemma_word_matches(s: Seq<char>, pos: int, name: Seq<char>)
    requires
        is_identifier(name),
        holds_at(s, pos, name),
        word_ends(s, pos + name.len()),
    ensures
        match_len(RuleView::Identifier, s, pos) == Some(name.len() as int),
        forall|text: Seq<char>, token: TokenView| #[trigger]
            match_len(RuleView::Fixed(text, token), s, pos) is Some ==> is_identifier(text)
                ==> text.len() <= name.len() && text == name.take(text.len() as int),
{
    assert(name[0] == s[pos + 0]);
    assert forall|i: int| pos + 1 <= i < pos + name.len() implies in_class(
        CharClass::Word,
        #[trigger] s[i],
    ) by {
        assert(name[i - pos] == s[pos + (i - pos)]);
    }
    lemma_run_len_is(s, pos + 1, CharClass::Word, (name.len() - 1) as nat);
    assert forall|text: Seq<char>, token: TokenView| #[trigger]
        match_len(RuleView::Fixed(text, token), s, pos) is Some && is_identifier(
            text,
        ) implies text.len() <= name.len() && text == name.take(text.len() as int) by {
        lemma_starts_with(s, pos, text);
        if text.len() > name.len() {
            let k = name.len() as int;
            assert(text[k] == s[pos + k]);
            assert(is_word(text[k]));
        }
        assert forall|k: int| 0 <= k < text.len() implies text[k] == name.take(
            text.len() as int,
        )[k] by {
            assert(text[k] == s[pos + k]);
            assert(name[k] == s[pos + k]);
        }
        assert(text =~= name.take(text.len() as int));
    }
}

/// The fixed texts of the rules of the language: punctuation marks, which
/// are no identifiers, and reserved words, which are.
proof fn lemma_fixed_rules(j: int)
    requires
        0 <= j < standard_rules().len(),
    ensures
        standard_rules()[j] matches RuleView::Fixed(text, _) ==> text.len() >= 1 && (if j < 12 {
            !is_letter(text[0])
        } else {
            is_identifier(text) && is_reserved(text)
        }),
        j == 17 <==> standard_rules()[j] is Identifier,
        standard_rules()[j] is Fixed ==> 3 <= j < 17,
{
    let rules = standard_rules();
    if j == 12 {
        assert(rules[j] == RuleView::Fixed(seq!['t', 'y', 'p', 'e'], TokenView::TypeKwd));
    } else if j == 13 {
        assert(rules[j] == RuleView::Fixed(seq!['t', 'a', 'b'], TokenView::TableKwd));
    } else if j == 14 {
        assert(rules[j] == RuleView::Fixed(seq!['t', 'a', 'b', 'l', 'e'], TokenView::TableKwd));
    } else if j == 15 {
        assert(rules[j] == RuleView::Fixed(
            seq!['s', 'c', 'h', 'e', 'm', 'a'],
            TokenView::SchemaKwd,
        ));
    } else if j == 16 {
        assert(rules[j] == RuleView::Fixed(seq!['s', 'c', 'h'], TokenView::SchemaKwd));
    }
}

/// A name in front of a character that belongs to no word is read as an
/// identifier.
pub proof fn lemma_spell_name(s: Seq<char>, pos: int, name: Seq<char>)
    requires
        is_name(name),
        holds_at(s, pos, name),
        word_ends(s, pos + name.len()),
    ensures
        spells(s, pos, name.len() as int, seq![TokenView::Ident(name)]),
{
    reveal(spells);
    let rules = standard_rules();
    let n = name.len() as int;
    lemma_word_matches(s, pos, name);
    assert(name[0] == s[pos + 0]);
    assert(rules[17] == RuleView::Identifier);
    assert forall|j: int| 0 <= j < rules.len() && j != 17 implies (#[trigger] match_len(
        rules[j],
        s,
        pos,
    ) matches Some(other) ==> other < n) by {
        lemma_may_start(rules[j], s, pos);
        lemma_fixed_rules(j);
        if let RuleView::Fixed(text, token) = rules[j] {
            if match_len(rules[j], s, pos) is Some {
                assert(text.len() <= n && text == name.take(text.len() as int));
                if text.len() == n {
                    assert(name.take(n) == name);
                }
            }
        }
    }
    lemma_winner(rules, s, pos, 17, n, rules.len() as int);
    assert(s.subrange(pos, pos + n) =~= name);
    let rest = lex_from(rules, s, pos + n);
    if let Ok(more) = rest {
        assert(seq![TokenView::Ident(name)] + more == seq![TokenView::Ident(name)] + more);
    }
}

/// The reserved word `table` in front of a character that belongs to no
/// word is read as its token.
pub proof fn lemma_spell_table_word(s: Seq<char>, pos: int)
    requires
        holds_at(s, pos, seq!['t', 'a', 'b', 'l', 'e']),
        word_ends(s, pos + 5),
    ensures
        spells(s, pos, 5, seq![TokenView::TableKwd]),
{
    reveal(spells);
    let rules = standard_rules();
    let word = seq!['t', 'a', 'b', 'l', 'e'];
    assert(is_identifier(word));
    lemma_word_matches(s, pos, word);
    lemma_starts_with(s, pos, word);
    assert(rules[14] == RuleView::Fixed(word, TokenView::TableKwd));
    assert(rules[17] == RuleView::Identifier);
    assert forall|j: int| 0 <= j < rules.len() && j != 14 implies (#[trigger] match_len(
        rules[j],
        s,
        pos,
    ) matches Some(other) ==> if j < 14 {
        other < 5
    } else {
        other <= 5
    }) by {
        lemma_may_start(rules[j], s, pos);
        lemma_fixed_rules(j);
        assert(word[0] == s[pos + 0]);
        if let RuleView::Fixed(text, token) = rules[j] {
            if match_len(rules[j], s, pos) is Some {
                assert(text.len() <= 5 && text == word.take(text.len() as int));
                if j == 12 {
                    assert(text[1] == word.take(4)[1]);
                }
                if j == 13 {
                    assert(text.len() == 3);
                }
            }
        }
    }
    lemma_winner(rules, s, pos, 14, 5, rules.len() as int);
    let rest = lex_from(rules, s, pos + 5);
    if let Ok(more) = rest {
        assert(seq![TokenView::TableKwd] + more == seq![TokenView::TableKwd] + more);
    }
}

/// Whether the character at `pos`, if there is one, is no digit.
pub open spec fn digits_end(s: Seq<char>, pos: int) -> bool {
    pos < s.len() ==> !is_digit(s[pos])
}

/// Whether the character at `pos`, if there is one, is neither a digit nor
/// a point.
pub open spec fn number_ends(s: Seq<char>, pos: int) -> bool {
    pos < s.len() ==> !is_digit(s[pos]) && s[pos] != '.'
}

/// At a minus sign or a digit only the rules for numbers match.
proof fn lemma_only_numbers(s: Seq<char>, pos: int, j: int)
    requires
        0 <= pos < s.len(),
        s[pos] == '-' || is_digit(s[pos]),
        0 <= j < standard_rules().len(),
        j != 18,
        j != 19,
    ensures
        match_len(standard_rules()[j], s, pos) is None,
{
    lemma_may_start(standard_rules()[j], s, pos);
    lemma_fixed_rules(j);
}

/// The digits of a number in front of a character that is no digit are
/// matched whole, with the minus sign in front of them if there is one.
proof fn lemma_integer_len(s: Seq<char>, pos: int, negative: bool, digits: Seq<char>)
    requires
        digits.len() >= 1,
        all_digits(digits),
        holds_at(s, pos, (if negative {
            seq!['-']
        } else {
            Seq::<char>::empty()
        }) + digits),
        digits_end(s, pos + (if negative {
            1int
        } else {
            0int
        }) + digits.len()),
    ensures
        sign_len(s, pos) == (if negative {
            1int
        } else {
            0int
        }),
        integer_len(s, pos) == sign_len(s, pos) + digits.len(),
        s.subrange(pos + sign_len(s, pos), pos + integer_len(s, pos)) == digits,
{
    let sign = if negative {
        seq!['-']
    } else {
        Seq::<char>::empty()
    };
    let text = sign + digits;
    let k: int = if negative {
        1
    } else {
        0
    };
    assert(text[0] == s[pos + 0]);
    assert(is_digit(digits[0]));
    assert forall|i: int| pos + k <= i < pos + k + digits.len() implies in_class(
        CharClass::Digit,
        #[trigger] s[i],
    ) by {
        assert(text[i - pos] == s[pos + (i - pos)]);
        assert(is_digit(digits[i - pos - k]));
    }
    lemma_run_len_is(s, pos + k, CharClass::Digit, digits.len());
    assert forall|i: int| 0 <= i < digits.len() implies s.subrange(
        pos + k,
        pos + k + digits.len(),
    )[i] == digits[i] by {
        assert(text[k + i] == s[pos + (k + i)]);
    }
    assert(s.subrange(pos + k, pos + k + digits.len()) =~= digits);
}

/// The text of an integer.
pub proof fn lemma_int_text(v: int)
    ensures
        int_text(v) == (if v < 0 {
            seq!['-']
        } else {
            Seq::<char>::empty()
        }) + nat_text((if v < 0 {
            -v
        } else {
            v
        }) as nat),
{
    if v >= 0 {
        assert(Seq::<char>::empty() + nat_text(v as nat) == nat_text(v as nat));
    }
}

/// The text of a 32-bit integer in front of a character that is neither a
/// digit nor a point is read as that integer.
pub proof fn lemma_spell_int(s: Seq<char>, pos: int, v: i32)
    requires
        holds_at(s, pos, int_text(v as int)),
        number_ends(s, pos + int_text(v as int).len()),
    ensures
        spells(
            s,
            pos,
            int_text(v as int).len() as int,
            seq![TokenView::Literal(LiteralView::Int(v))],
        ),
{
    reveal(spells);
    let rules = standard_rules();
    let magnitude = (if v < 0 {
        -v
    } else {
        v as int
    }) as nat;
    let digits = nat_text(magnitude);
    lemma_nat_text(magnitude);
    lemma_int_text(v as int);
    lemma_integer_len(s, pos, v < 0, digits);
    let n = int_text(v as int).len() as int;
    assert(n == integer_len(s, pos));
    assert(fraction_len(s, pos + n) == 0);
    assert(rules[18] == RuleView::Integer);
    assert(rules[19] == RuleView::Float);
    assert(int_text(v as int)[0] == s[pos + 0]);
    assert(is_digit(digits[0]));
    assert forall|j: int| 0 <= j < rules.len() && j != 18 implies (#[trigger] match_len(
        rules[j],
        s,
        pos,
    ) matches Some(other) ==> if j < 18 {
        other < n
    } else {
        other <= n
    }) by {
        if j != 19 {
            lemma_only_numbers(s, pos, j);
        }
    }
    lemma_winner(rules, s, pos, 18, n, rules.len() as int);
    assert(i32_of_digits(v < 0, digits) == Some(v));
    let token = TokenView::Literal(LiteralView::Int(v));
    let rest = lex_from(rules, s, pos + n);
    if let Ok(more) = rest {
        assert(seq![token] + more == seq![token] + more);
    }
}

/// Digits that do not start with a zero, or are a single digit, stay as
/// they are when leading zeros are taken off.
pub proof fn lemma_strip_zeros(digits: Seq<char>)
    requires
        digits.len() >= 1,
        digits[0] == '0' ==> digits.len() == 1,
    ensures
        strip_zeros(digits) == digits,
{
}

/// The text of a decimal with a fractional part, in front of a character
/// that is no digit, is read as that decimal.
pub proof fn lemma_spell_decimal(s: Seq<char>, pos: int, d: DecimalView)
    requires
        d.wf(),
        d.frac_digits.len() > 0,
        holds_at(s, pos, d.text()),
        digits_end(s, pos + d.text().len()),
    ensures
        spells(s, pos, d.text().len() as int, seq![TokenView::Literal(LiteralView::Dbl(d))]),
{
    reveal(spells);
    let rules = standard_rules();
    let sign = if d.negative {
        seq!['-']
    } else {
        Seq::<char>::empty()
    };
    let k: int = if d.negative {
        1
    } else {
        0
    };
    let point = seq!['.'];
    let text = d.text();
    assert(text == sign + d.int_digits + (point + d.frac_digits));
    assert(text == (sign + d.int_digits) + (point + d.frac_digits));
    crate::reading::lemma_holds_split(s, pos, sign + d.int_digits, point + d.frac_digits);
    let dot = pos + k + d.int_digits.len();
    crate::reading::lemma_holds_split(s, dot, point, d.frac_digits);
    assert(point[0] == s[dot + 0]);
    lemma_integer_len(s, pos, d.negative, d.int_digits);
    assert(integer_len(s, pos) == k + d.int_digits.len());
    assert forall|i: int| dot + 1 <= i < dot + 1 + d.frac_digits.len() implies in_class(
        CharClass::Digit,
        #[trigger] s[i],
    ) by {
        assert(d.frac_digits[i - dot - 1] == s[dot + 1 + (i - dot - 1)]);
        assert(is_digit(d.frac_digits[i - dot - 1]));
    }
    lemma_run_len_is(s, dot + 1, CharClass::Digit, d.frac_digits.len());
    assert(fraction_len(s, dot) == 1 + d.frac_digits.len());
    let n = text.len() as int;
    assert(n == k + d.int_digits.len() + 1 + d.frac_digits.len());
    assert(rules[18] == RuleView::Integer);
    assert(rules[19] == RuleView::Float);
    assert(text[0] == s[pos + 0]);
    assert(is_digit(d.int_digits[0]));
    assert forall|j: int| 0 <= j < rules.len() && j != 19 implies (#[trigger] match_len(
        rules[j],
        s,
        pos,
    ) matches Some(other) ==> if j < 19 {
        other < n
    } else {
        other <= n
    }) by {
        if j != 18 {
            lemma_only_numbers(s, pos, j);
        }
    }
    lemma_winner(rules, s, pos, 19, n, rules.len() as int);
    lemma_strip_zeros(d.int_digits);
    assert(s.subrange(dot + 1, pos + n) =~= d.frac_digits) by {
        assert forall|i: int| 0 <= i < d.frac_digits.len() implies s.subrange(dot + 1, pos + n)[i]
            == d.frac_digits[i] by {
            assert(d.frac_digits[i] == s[dot + 1 + i]);
        }
    }
    assert(decimal_at(s, pos, n) == d);
    let token = TokenView::Literal(LiteralView::Dbl(d));
    let rest = lex_from(rules, s, pos + n);
    if let Ok(more) = rest {
        assert(seq![token] + more == seq![token] + more);
    }
}

/// A text without a double quote, between double quotes, is read as a text
/// literal.
pub proof fn lemma_spell_quoted(s: Seq<char>, pos: int, text: Seq<char>)
    requires
        !text.contains('"'),
        holds_at(s, pos, seq!['"'] + text + seq!['"']),
    ensures
        spells(
            s,
            pos,
            text.len() as int + 2,
            seq![TokenView::Literal(LiteralView::Str(text))],
        ),
{
    reveal(spells);
    let rules = standard_rules();
    let whole = seq!['"'] + text + seq!['"'];
    let n: int = text.len() as int + 2;
    assert(whole[0] == s[pos + 0]);
    assert(whole[n - 1] == s[pos + (n - 1)]);
    assert forall|i: int| pos + 1 <= i < pos + 1 + text.len() implies in_class(
        CharClass::NotQuote,
        #[trigger] s[i],
    ) by {
        assert(whole[i - pos] == s[pos + (i - pos)]);
        assert(text.contains(text[i - pos - 1]));
    }
    lemma_run_len_is(s, pos + 1, CharClass::NotQuote, text.len());
    assert(rules[20] == RuleView::Quoted);
    assert forall|j: int| 0 <= j < rules.len() && j != 20 implies match_len(rules[j], s, pos)
        is None by {
        lemma_may_start(rules[j], s, pos);
        lemma_fixed_rules(j);
    }
    lemma_winner(rules, s, pos, 20, n, rules.len() as int);
    assert(s.subrange(pos + 1, pos + n - 1) =~= text) by {
        assert forall|i: int| 0 <= i < text.len() implies s.subrange(pos + 1, pos + n - 1)[i]
            == text[i] by {
            assert(whole[i + 1] == s[pos + (i + 1)]);
        }
    }
    let token = TokenView::Literal(LiteralView::Str(text));
    let rest = lex_from(rules, s, pos + n);
    if let Ok(more) = rest {
        assert(seq![token] + more == seq![token] + more);
    }
}

/// A bound of a type, of any family.
pub enum BoundView {
    Absent,
    Int(i32),
    Dbl(DecimalView),
    Len(usize),
}

/// The lower bound of a type.
pub open spec fn min_bound(t: DataTypeView) -> BoundView {
    match t {
        DataTypeView::Int(t) => match t.min {
            Some(v) => BoundView::Int(v),
            None => BoundView::Absent,
        },
        DataTypeView::Dbl(t) => match t.min {
            Some(d) => BoundView::Dbl(d),
            None => BoundView::Absent,
        },
        DataTypeView::Str(t) => match t.min {
            Some(v) => BoundView::Len(v),
            None => BoundView::Absent,
        },
    }
}

/// The upper bound of a type.
pub open spec fn max_bound(t: DataTypeView) -> BoundView {
    match t {
        DataTypeView::Int(t) => match t.max {
            Some(v) => BoundView::Int(v),
            None => BoundView::Absent,
        },
        DataTypeView::Dbl(t) => match t.max {
            Some(d) => BoundView::Dbl(d),
            None => BoundView::Absent,
        },
        DataTypeView::Str(t) => match t.max {
            Some(v) => BoundView::Len(v),
            None => BoundView::Absent,
        },
    }
}

/// A bound as it is written.
pub open spec fn bound_text(b: BoundView) -> Seq<char> {
    match b {
        BoundView::Absent => Seq::empty(),
        BoundView::Int(v) => int_text(v as int),
        BoundView::Dbl(d) => d.text(),
        BoundView::Len(v) => nat_text(v as nat),
    }
}

/// The tokens of a bound: one literal, or none.
pub open spec fn bound_tokens(b: BoundView) -> Seq<TokenView> {
    match b {
        BoundView::Absent => Seq::empty(),
        BoundView::Int(v) => seq![TokenView::Literal(LiteralView::Int(v))],
        BoundView::Dbl(d) => seq![decimal_bound_token(d)],
        BoundView::Len(v) => seq![TokenView::Literal(LiteralView::Int(v as i32))],
    }
}

/// Whether a bound can be written out and read back.
pub open spec fn bound_ok(b: BoundView) -> bool {
    match b {
        BoundView::Absent => true,
        BoundView::Int(_) => true,
        BoundView::Dbl(d) => bound_printable(d),
        BoundView::Len(v) => v <= i32::MAX,
    }
}

/// A decimal without a fractional part that can be written out is written
/// as the integer that it denotes.
pub proof fn lemma_whole_text(d: DecimalView)
    requires
        bound_printable(d),
        d.frac_digits.len() == 0,
    ensures
        d.text() == int_text(whole_value(d)),
{
    let w = whole_value(d);
    lemma_int_text(w);
    let sign = if d.negative {
        seq!['-']
    } else {
        Seq::<char>::empty()
    };
    assert(d.text() =~= sign + d.int_digits);
}

/// A bound in front of a character that is neither a digit nor a point is
/// read as its tokens; what is written of it starts with a minus sign or a
/// digit.
pub proof fn lemma_spell_bound(s: Seq<char>, pos: int, b: BoundView)
    requires
        bound_ok(b),
        holds_at(s, pos, bound_text(b)),
        number_ends(s, pos + bound_text(b).len()),
    ensures
        spells(s, pos, bound_text(b).len() as int, bound_tokens(b)),
        bound_text(b).len() > 0 ==> bound_text(b)[0] == '-' || is_digit(bound_text(b)[0]),
{
    match b {
        BoundView::Absent => {
            lemma_spells_nothing(s, pos);
        },
        BoundView::Int(v) => {
            lemma_spell_int(s, pos, v);
            lemma_int_start(v as int);
        },
        BoundView::Dbl(d) => {
            if d.frac_digits.len() > 0 {
                lemma_spell_decimal(s, pos, d);
                assert(is_digit(d.int_digits[0]));
                assert(d.text()[0] == (if d.negative {
                    '-'
                } else {
                    d.int_digits[0]
                }));
            } else {
                lemma_whole_text(d);
                lemma_spell_int(s, pos, whole_value(d) as i32);
                lemma_int_start(whole_value(d));
            }
        },
        BoundView::Len(v) => {
            lemma_int_text(v as int);
            assert(int_text(v as int) == nat_text(v as nat));
            lemma_spell_int(s, pos, v as i32);
            lemma_int_start(v as int);
        },
    }
}

/// The text of an integer starts with a minus sign or a digit.
pub proof fn lemma_int_start(v: int)
    ensures
        int_text(v).len() > 0,
        int_text(v)[0] == '-' || is_digit(int_text(v)[0]),
{
    let magnitude = (if v < 0 {
        -v
    } else {
        v
    }) as nat;
    lemma_nat_text(magnitude);
    lemma_int_text(v);
    assert(is_digit(nat_text(magnitude)[0]));
}

/// Where the pieces of a text stand one behind the other, each stands at
/// the place that the lengths of those before it give.
pub proof fn lemma_holds_three<A>(all: Seq<A>, pos: int, a: Seq<A>, b: Seq<A>, c: Seq<A>)
    requires
        holds_at(all, pos, a + b + c),
    ensures
        holds_at(all, pos, a),
        holds_at(all, pos + a.len(), b),
        holds_at(all, pos + a.len() + b.len(), c),
{
    lemma_holds_split(all, pos, a + b, c);
    lemma_holds_split(all, pos, a, b);
}

/// Where the parts of the text of a type stand: the name of the family, the
/// opening bracket, the lower bound, the comma and the space, the upper
/// bound, the closing bracket and the question mark.
pub proof fn lemma_type_layout(s: Seq<char>, pos: int, t: DataTypeView)
    requires
        holds_at(s, pos, type_text(t)),
    ensures
        ({
            let family = family_name(t);
            let lo = bound_text(min_bound(t));
            let hi = bound_text(max_bound(t));
            let p1 = pos + family.len();
            let p3 = p1 + 1 + lo.len();
            let p5 = p3 + 2 + hi.len();
            &&& holds_at(s, pos, family)
            &&& s[p1] == '<'
            &&& holds_at(s, p1 + 1, lo)
            &&& s[p3] == ','
            &&& s[p3 + 1] == ' '
            &&& holds_at(s, p3 + 2, hi)
            &&& s[p5] == '>'
            &&& p5 < s.len()
            &&& t.nullable() ==> s[p5 + 1] == '?' && p5 + 1 < s.len()
            &&& type_text(t).len() == p5 + 1 - pos + (if t.nullable() {
                1int
            } else {
                0int
            })
            &&& type_text(t)[0] == family[0]
            &&& type_text(t).last() == (if t.nullable() {
                '?'
            } else {
                '>'
            })
        }),
{
    lemma_family_names();
    let family = family_name(t);
    let lo = bound_text(min_bound(t));
    let hi = bound_text(max_bound(t));
    assert(lo == t.min_text());
    assert(hi == t.max_text());
    let open = seq!['<'];
    let sep = seq![',', ' '];
    let close = seq!['>'];
    let mark = if t.nullable() {
        seq!['?']
    } else {
        Seq::<char>::empty()
    };
    let text = type_text(t);
    assert(text == family + open + lo + sep + hi + close + mark);
    lemma_holds_three(s, pos, family + open + lo + sep + hi, close, mark);
    lemma_holds_three(s, pos, family + open + lo, sep, hi);
    lemma_holds_three(s, pos, family, open, lo);
    let p1 = pos + family.len();
    let p3 = p1 + 1 + lo.len();
    let p5 = p3 + 2 + hi.len();
    assert(open[0] == s[p1 + 0]);
    assert(sep[0] == s[p3 + 0]);
    assert(sep[1] == s[p3 + 1]);
    assert(close[0] == s[p5 + 0]);
    if t.nullable() {
        assert(mark[0] == s[p5 + 1 + 0]);
    }
}

/// The tokens of a type, part by part.
proof fn lemma_type_tokens(t: DataTypeView)
    ensures
        type_tokens(t) == seq![TokenView::Ident(family_name(t))] + seq![TokenView::OAngle]
            + bound_tokens(min_bound(t)) + seq![TokenView::Comma] + Seq::<TokenView>::empty()
            + bound_tokens(max_bound(t)) + seq![TokenView::CAngle] + (if t.nullable() {
            seq![TokenView::QMark]
        } else {
            Seq::<TokenView>::empty()
        }),
        type_printable(t) ==> bound_ok(min_bound(t)) && bound_ok(max_bound(t)),
{
    let t1 = seq![TokenView::Ident(family_name(t))];
    let t2 = seq![TokenView::OAngle];
    assert(bound_tokens(min_bound(t)) == min_tokens(t));
    assert(bound_tokens(max_bound(t)) == max_tokens(t));
    assert(t1 + t2 == seq![TokenView::Ident(family_name(t)), TokenView::OAngle]);
    let t4 = seq![TokenView::Comma];
    assert(t1 + t2 + min_tokens(t) + t4 + Seq::<TokenView>::empty() == t1 + t2 + min_tokens(t)
        + t4);
}

/// The text of a type is read as the tokens of the type.
pub proof fn lemma_spell_type(s: Seq<char>, pos: int, t: DataTypeView)
    requires
        type_printable(t),
        holds_at(s, pos, type_text(t)),
    ensures
        spells(s, pos, type_text(t).len() as int, type_tokens(t)),
{
    lemma_family_names();
    lemma_type_layout(s, pos, t);
    lemma_type_tokens(t);
    let family = family_name(t);
    let lo = bound_text(min_bound(t));
    let hi = bound_text(max_bound(t));
    let p1 = pos + family.len();
    let p2 = p1 + 1;
    let p3 = p2 + lo.len();
    let p4 = p3 + 2;
    let p5 = p4 + hi.len();
    let p6 = p5 + 1;
    assert(is_name(family));
    lemma_spell_name(s, pos, family);
    lemma_spell_punctuation(s, p1);
    lemma_spell_bound(s, p2, min_bound(t));
    lemma_spell_punctuation(s, p3);
    if hi.len() > 0 {
        assert(hi[0] == s[p4 + 0]);
    }
    lemma_spell_bound(s, p4, max_bound(t));
    lemma_spell_space(s, p3 + 1);
    lemma_spell_punctuation(s, p5);
    let t1 = seq![TokenView::Ident(family)];
    let t2 = seq![TokenView::OAngle];
    let t3 = bound_tokens(min_bound(t));
    let t4 = seq![TokenView::Comma];
    let t5 = bound_tokens(max_bound(t));
    let t6 = seq![TokenView::CAngle];
    let none = Seq::<TokenView>::empty();
    lemma_spells_both(s, pos, family.len() as int, t1, 1, t2);
    lemma_spells_both(s, pos, p2 - pos, t1 + t2, lo.len() as int, t3);
    lemma_spells_both(s, pos, p3 - pos, t1 + t2 + t3, 1, t4);
    lemma_spells_both(s, pos, p3 + 1 - pos, t1 + t2 + t3 + t4, 1, none);
    lemma_spells_both(s, pos, p4 - pos, t1 + t2 + t3 + t4 + none, hi.len() as int, t5);
    lemma_spells_both(s, pos, p5 - pos, t1 + t2 + t3 + t4 + none + t5, 1, t6);
    if t.nullable() {
        lemma_spell_punctuation(s, p6);
        lemma_spells_both(
            s,
            pos,
            p6 - pos,
            t1 + t2 + t3 + t4 + none + t5 + t6,
            1,
            seq![TokenView::QMark],
        );
    } else {
        lemma_spells_nothing(s, p6);
        lemma_spells_both(s, pos, p6 - pos, t1 + t2 + t3 + t4 + none + t5 + t6, 0, none);
    }
}

/// A default value in front of a character that is neither a digit nor a
/// point is read as its literal; what is written of it starts with no
/// white space.
pub proof fn lemma_spell_literal(s: Seq<char>, pos: int, lit: LiteralView)
    requires
        default_printable(lit),
        holds_at(s, pos, literal_text(lit)),
        number_ends(s, pos + literal_text(lit).len()),
    ensures
        spells(s, pos, literal_text(lit).len() as int, seq![TokenView::Literal(lit)]),
        literal_text(lit).len() > 0,
        !is_space(literal_text(lit)[0]),
{
    match lit {
        LiteralView::Int(v) => {
            lemma_spell_int(s, pos, v);
            lemma_int_start(v as int);
        },
        LiteralView::Dbl(d) => {
            lemma_spell_decimal(s, pos, d);
            assert(is_digit(d.int_digits[0]));
            assert(d.text()[0] == (if d.negative {
                '-'
            } else {
                d.int_digits[0]
            }));
        },
        LiteralView::Str(text) => {
            lemma_spell_quoted(s, pos, text);
            assert(literal_text(lit)[0] == '"');
        },
    }
}

/// A column as it is written, with its name.
pub open spec fn entry_text(name: Seq<char>, c: ColumnView) -> Seq<char> {
    name + seq![':', ' '] + column_text(c)
}

/// Where the parts of the text of a column stand: the name, the colon and
/// the space, the type, and the default with the equals sign in front of it.
pub proof fn lemma_entry_layout(s: Seq<char>, pos: int, name: Seq<char>, c: ColumnView)
    requires
        holds_at(s, pos, entry_text(name, c)),
    ensures
        ({
            let q = pos + name.len();
            let r = q + 2 + type_text(c.column_type).len();
            &&& holds_at(s, pos, name)
            &&& s[q] == ':'
            &&& s[q + 1] == ' '
            &&& holds_at(s, q + 2, type_text(c.column_type))
            &&& match c.default_value {
                Some(lit) => {
                    &&& s[r] == ' '
                    &&& s[r + 1] == '='
                    &&& s[r + 2] == ' '
                    &&& holds_at(s, r + 3, literal_text(lit))
                    &&& entry_text(name, c).len() == r + 3 + literal_text(lit).len() - pos
                },
                None => entry_text(name, c).len() == r - pos,
            }
        }),
{
    let sep = seq![':', ' '];
    let ty = type_text(c.column_type);
    let q = pos + name.len();
    let r = q + 2 + ty.len();
    match c.default_value {
        Some(lit) => {
            let eq = seq![' ', '=', ' '];
            let text = literal_text(lit);
            assert(entry_text(name, c) == name + sep + (ty + (eq + text)));
            lemma_holds_three(s, pos, name, sep, ty + (eq + text));
            assert(ty + (eq + text) == ty + eq + text);
            lemma_holds_three(s, q + 2, ty, eq, text);
            assert(eq[0] == s[r + 0]);
            assert(eq[1] == s[r + 1]);
            assert(eq[2] == s[r + 2]);
        },
        None => {
            assert(ty + Seq::<char>::empty() == ty);
            lemma_holds_three(s, pos, name, sep, ty);
        },
    }
    assert(sep[0] == s[q + 0]);
    assert(sep[1] == s[q + 1]);
}

/// The tokens of a column, part by part.
proof fn lemma_column_tokens(name: Seq<char>, c: ColumnView)
    ensures
        column_tokens(name, c) == seq![TokenView::Ident(name)] + seq![TokenView::Colon]
            + Seq::<TokenView>::empty() + type_tokens(c.column_type) + (match c.default_value {
            Some(lit) => Seq::<TokenView>::empty() + seq![TokenView::Equals] + Seq::<
                TokenView,
            >::empty() + seq![TokenView::Literal(lit)],
            None => Seq::<TokenView>::empty(),
        }),
{
    let t1 = seq![TokenView::Ident(name)];
    let t2 = seq![TokenView::Colon];
    let none = Seq::<TokenView>::empty();
    assert(t1 + t2 == seq![TokenView::Ident(name), TokenView::Colon]);
    assert(t1 + t2 + none == t1 + t2);
    if let Some(lit) = c.default_value {
        let t3 = seq![TokenView::Equals];
        let t4 = seq![TokenView::Literal(lit)];
        assert(none + t3 + none + t4 == seq![TokenView::Equals, TokenView::Literal(lit)]);
    }
}

/// The text of a column, in front of a character that is neither a digit
/// nor a point, is read as the tokens of the column.
pub proof fn lemma_spell_column(s: Seq<char>, pos: int, name: Seq<char>, c: ColumnView)
    requires
        is_name(name),
        column_printable(c),
        holds_at(s, pos, entry_text(name, c)),
        number_ends(s, pos + entry_text(name, c).len()),
    ensures
        spells(s, pos, entry_text(name, c).len() as int, column_tokens(name, c)),
{
    lemma_entry_layout(s, pos, name, c);
    lemma_column_tokens(name, c);
    let t = c.column_type;
    let q = pos + name.len();
    let r = q + 2 + type_text(t).len();
    lemma_type_layout(s, q + 2, t);
    lemma_family_names();
    assert(is_letter(family_name(t)[0]));
    lemma_spell_name(s, pos, name);
    lemma_spell_punctuation(s, q);
    lemma_spell_space(s, q + 1);
    lemma_spell_type(s, q + 2, t);
    let t1 = seq![TokenView::Ident(name)];
    let t2 = seq![TokenView::Colon];
    let none = Seq::<TokenView>::empty();
    let t3 = type_tokens(t);
    lemma_spells_both(s, pos, name.len() as int, t1, 1, t2);
    lemma_spells_both(s, pos, q + 1 - pos, t1 + t2, 1, none);
    lemma_spells_both(s, pos, q + 2 - pos, t1 + t2 + none, type_text(t).len() as int, t3);
    match c.default_value {
        Some(lit) => {
            lemma_spell_literal(s, r + 3, lit);
            assert(literal_text(lit)[0] == s[r + 3 + 0]);
            lemma_spell_space(s, r);
            lemma_spell_punctuation(s, r + 1);
            lemma_spell_space(s, r + 2);
            let t4 = seq![TokenView::Equals];
            let t5 = seq![TokenView::Literal(lit)];
            lemma_spells_both(s, r, 1, none, 1, t4);
            lemma_spells_both(s, r, 2, none + t4, 1, none);
            lemma_spells_both(s, r, 3, none + t4 + none, literal_text(lit).len() as int, t5);
            lemma_spells_both(
                s,
                pos,
                r - pos,
                t1 + t2 + none + t3,
                3 + literal_text(lit).len() as int,
                none + t4 + none + t5,
            );
        },
        None => {
            lemma_spells_nothing(s, r);
            lemma_spells_both(s, pos, r - pos, t1 + t2 + none + t3, 0, none);
        },
    }
}

/// The text of the columns of a table from index `i` on, part by part: the
/// comma and the space, the column, and the columns behind it.
proof fn lemma_columns_parts(t: TableView, i: int)
    requires
        t.wf(),
        0 <= i < t.columns.len(),
    ensures
        columns_text(t, i) == (if i > 0 {
            seq![',', ' ']
        } else {
            Seq::<char>::empty()
        }) + entry_text(t.names[i], t.columns[i]) + columns_text(t, i + 1),
        columns_tokens(t, i) == (if i > 0 {
            seq![TokenView::Comma] + Seq::<TokenView>::empty()
        } else {
            Seq::<TokenView>::empty()
        }) + column_tokens(t.names[i], t.columns[i]) + columns_tokens(t, i + 1),
        i > 0 ==> columns_text(t, i)[0] == ',',
{
    let sep = if i > 0 {
        seq![',', ' ']
    } else {
        Seq::<char>::empty()
    };
    let name = t.names[i];
    let c = t.columns[i];
    let rest = columns_text(t, i + 1);
    assert(sep + name + seq![':', ' '] + column_text(c) + rest == sep + (name + seq![':', ' ']
        + column_text(c)) + rest);
    assert(seq![TokenView::Comma] + Seq::<TokenView>::empty() == seq![TokenView::Comma]);
}

/// The text of the columns of a table from index `i` on, in front of a
/// closing bracket, is read as the tokens of those columns.
pub proof fn lemma_spell_columns(s: Seq<char>, pos: int, t: TableView, i: int)
    requires
        table_printable(t),
        0 <= i <= t.columns.len(),
        holds_at(s, pos, columns_text(t, i)),
        pos + columns_text(t, i).len() < s.len(),
        s[pos + columns_text(t, i).len()] == ')',
    ensures
        spells(s, pos, columns_text(t, i).len() as int, columns_tokens(t, i)),
    decreases t.columns.len() - i,
{
    if i == t.columns.len() {
        lemma_spells_nothing(s, pos);
    } else {
        lemma_columns_parts(t, i);
        let sep = if i > 0 {
            seq![',', ' ']
        } else {
            Seq::<char>::empty()
        };
        let name = t.names[i];
        let c = t.columns[i];
        let entry = entry_text(name, c);
        let rest = columns_text(t, i + 1);
        lemma_holds_three(s, pos, sep, entry, rest);
        let p1 = pos + sep.len();
        let p2 = p1 + entry.len();
        if i + 1 < t.columns.len() {
            lemma_columns_parts(t, i + 1);
            assert(rest[0] == s[p2 + 0]);
        }
        lemma_spell_column(s, p1, name, c);
        lemma_spell_columns(s, p2, t, i + 1);
        let none = Seq::<TokenView>::empty();
        lemma_spells_both(
            s,
            p1,
            entry.len() as int,
            column_tokens(name, c),
            rest.len() as int,
            columns_tokens(t, i + 1),
        );
        if i > 0 {
            assert(sep[0] == s[pos + 0]);
            assert(sep[1] == s[pos + 1]);
            lemma_entry_layout(s, p1, name, c);
            assert(name[0] == s[p1 + 0]);
            lemma_spell_punctuation(s, pos);
            lemma_spell_space(s, pos + 1);
            lemma_spells_both(s, pos, 1, seq![TokenView::Comma], 1, none);
            lemma_spells_both(
                s,
                pos,
                2,
                seq![TokenView::Comma] + none,
                (entry.len() + rest.len()) as int,
                column_tokens(name, c) + columns_tokens(t, i + 1),
            );
            assert((seq![TokenView::Comma] + none) + (column_tokens(name, c) + columns_tokens(
                t,
                i + 1,
            )) == (seq![TokenView::Comma] + none) + column_tokens(name, c) + columns_tokens(
                t,
                i + 1,
            ));
        } else {
            assert(none + column_tokens(name, c) + columns_tokens(t, i + 1) == column_tokens(
                name,
                c,
            ) + columns_tokens(t, i + 1));
        }
    }
}

/// Where the parts of the text of a statement that declares a table stand.
pub proof fn lemma_table_layout(s: Seq<char>, pos: int, name: Seq<char>, t: TableView)
    requires
        holds_at(s, pos, table_stmt_text(name, t)),
    ensures
        ({
            let q = pos + 6 + name.len();
            let r = q + 2 + columns_text(t, 0).len();
            &&& holds_at(s, pos, seq!['t', 'a', 'b', 'l', 'e'])
            &&& s[pos + 5] == ' '
            &&& holds_at(s, pos + 6, name)
            &&& s[q] == ' '
            &&& s[q + 1] == '('
            &&& holds_at(s, q + 2, columns_text(t, 0))
            &&& s[r] == ')'
            &&& s[r + 1] == ';'
            &&& r + 1 < s.len()
            &&& table_stmt_text(name, t).len() == r + 2 - pos
        }),
{
    let word = seq!['t', 'a', 'b', 'l', 'e'];
    let gap = seq![' '];
    let open = seq!['('];
    let columns = columns_text(t, 0);
    let tail = seq![')', ';'];
    assert(seq!['t', 'a', 'b', 'l', 'e', ' '] == word + gap);
    assert(table_text(t) + seq![';'] == open + columns + tail);
    assert(table_stmt_text(name, t) == word + gap + name + (gap + open) + (columns + tail));
    lemma_holds_three(s, pos, word + gap + name, gap + open, columns + tail);
    lemma_holds_three(s, pos, word, gap, name);
    let q = pos + 6 + name.len();
    lemma_holds_split(s, q + 2, columns, tail);
    let r = q + 2 + columns.len();
    assert(gap[0] == s[pos + 5 + 0]);
    assert((gap + open)[0] == s[q + 0]);
    assert((gap + open)[1] == s[q + 1]);
    assert(tail[0] == s[r + 0]);
    assert(tail[1] == s[r + 1]);
}

/// The tokens of the statement that declares a table, part by part.
proof fn lemma_table_tokens(name: Seq<char>, t: TableView)
    ensures
        table_stmt_tokens(name, t) == seq![TokenView::TableKwd] + Seq::<TokenView>::empty() + seq![
            TokenView::Ident(name),
        ] + Seq::<TokenView>::empty() + seq![TokenView::OParen] + columns_tokens(t, 0) + seq![
            TokenView::CParen,
        ] + seq![TokenView::Semicolon],
{
    let none = Seq::<TokenView>::empty();
    let t1 = seq![TokenView::TableKwd];
    let t2 = seq![TokenView::Ident(name)];
    let t3 = seq![TokenView::OParen];
    let t4 = columns_tokens(t, 0);
    let t5 = seq![TokenView::CParen];
    let t6 = seq![TokenView::Semicolon];
    assert(t1 + none + t2 + none + t3 == seq![
        TokenView::TableKwd,
        TokenView::Ident(name),
        TokenView::OParen,
    ]);
    assert(t1 + none + t2 + none + t3 + t4 + t5 + t6 == (t1 + none + t2 + none + t3) + t4 + (t5
        + t6));
    assert(t5 + t6 == seq![TokenView::CParen, TokenView::Semicolon]);
}

/// The text of the statement that declares a table is read as the tokens of
/// the statement.
pub proof fn lemma_spell_table_stmt(s: Seq<char>, pos: int, name: Seq<char>, t: TableView)
    requires
        is_name(name),
        table_printable(t),
        holds_at(s, pos, table_stmt_text(name, t)),
    ensures
        spells(s, pos, table_stmt_text(name, t).len() as int, table_stmt_tokens(name, t)),
{
    lemma_table_layout(s, pos, name, t);
    lemma_table_tokens(name, t);
    let columns = columns_text(t, 0);
    let q = pos + 6 + name.len();
    let r = q + 2 + columns.len();
    assert(name[0] == s[pos + 6 + 0]);
    lemma_spell_table_word(s, pos);
    lemma_spell_space(s, pos + 5);
    lemma_spell_name(s, pos + 6, name);
    lemma_spell_space(s, q);
    lemma_spell_punctuation(s, q + 1);
    lemma_spell_columns(s, q + 2, t, 0);
    lemma_spell_punctuation(s, r);
    lemma_spell_punctuation(s, r + 1);
    let none = Seq::<TokenView>::empty();
    let t1 = seq![TokenView::TableKwd];
    let t2 = seq![TokenView::Ident(name)];
    let t3 = seq![TokenView::OParen];
    let t4 = columns_tokens(t, 0);
    let t5 = seq![TokenView::CParen];
    let t6 = seq![TokenView::Semicolon];
    lemma_spells_both(s, pos, 5, t1, 1, none);
    lemma_spells_both(s, pos, 6, t1 + none, name.len() as int, t2);
    lemma_spells_both(s, pos, q - pos, t1 + none + t2, 1, none);
    lemma_spells_both(s, pos, q + 1 - pos, t1 + none + t2 + none, 1, t3);
    lemma_spells_both(s, pos, q + 2 - pos, t1 + none + t2 + none + t3, columns.len() as int, t4);
    lemma_spells_both(s, pos, r - pos, t1 + none + t2 + none + t3 + t4, 1, t5);
    lemma_spells_both(s, pos, r + 1 - pos, t1 + none + t2 + none + t3 + t4 + t5, 1, t6);
}

/// The text of the tables of a schema from index `i` on, up to the end of
/// the whole text, is read as the tokens of those tables.
pub proof fn lemma_spell_tables(s: Seq<char>, pos: int, schema: SchemaView, i: int)
    requires
        schema_printable(schema),
        0 <= i <= schema.tables.len(),
        holds_at(s, pos, tables_text(schema, i)),
        pos + tables_text(schema, i).len() == s.len(),
    ensures
        lex_from(standard_rules(), s, pos) == Ok::<Seq<TokenView>, int>(tables_tokens(schema, i)),
    decreases schema.tables.len() - i,
{
    if i < schema.tables.len() {
        let name = schema.names[i];
        let t = schema.tables[i];
        let stmt = table_stmt_text(name, t);
        let line = seq!['\n'];
        let rest = tables_text(schema, i + 1);
        lemma_holds_three(s, pos, stmt, line, rest);
        let p1 = pos + stmt.len();
        assert(line[0] == s[p1 + 0]);
        if i + 1 < schema.tables.len() {
            let next = table_stmt_text(schema.names[i + 1], schema.tables[i + 1]);
            lemma_holds_split(s, p1 + 1, next + seq!['\n'], tables_text(schema, i + 2));
            lemma_holds_split(s, p1 + 1, next, seq!['\n']);
            lemma_table_layout(s, p1 + 1, schema.names[i + 1], schema.tables[i + 1]);
            assert(seq!['t', 'a', 'b', 'l', 'e'][0] == s[p1 + 1 + 0]);
        }
        lemma_spell_table_stmt(s, pos, name, t);
        lemma_spell_space(s, p1);
        lemma_spell_tables(s, p1 + 1, schema, i + 1);
        lemma_spells_both(
            s,
            pos,
            stmt.len() as int,
            table_stmt_tokens(name, t),
            1,
            Seq::empty(),
        );
        reveal(spells);
        assert(table_stmt_tokens(name, t) + Seq::<TokenView>::empty() + tables_tokens(
            schema,
            i + 1,
        ) == tables_tokens(schema, i));
    }
}

/// Spelling: the canonical text of a schema that can be written out is read
/// as the canonical tokens of the schema.
pub proof fn law_spell_schema(schema: SchemaView)
    requires
        schema_printable(schema),
    ensures
        crate::lexer::tokens_of(schema_text(schema)) == Ok::<
            Seq<TokenView>,
            crate::lexer::LexError,
        >(schema_tokens(schema)),
{
    let s = schema_text(schema);
    assert(holds_at(s, 0, s));
    lemma_spell_tables(s, 0, schema, 0);
}

} // verus!
