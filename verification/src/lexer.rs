//! The lexer: an ordered list of rules, applied by longest match.
//!
//! At each position every rule is tried. The rule that matches the most
//! characters is taken, and of several that match as many, the one that was
//! added first.

use vstd::prelude::*;
use vstd::utf8::encode_utf8;
use crate::chars::{
    byte_offset, byte_offset_of, chars_of, has_prefix_at, in_class, lemma_run_len, run_len,
    scan_run, starts_with, string_of_range, CharClass,
};
use crate::chars::push_range;
use crate::decimal::{Decimal, DecimalView};
use crate::digits::{i32_of_digits, parse_i32};
use crate::literal::{Literal, LiteralView};
use crate::token::{Token, TokenView};

verus! {

/// One rule of a lexer: what it matches and what it yields.
#[derive(Debug)]
pub enum Rule {
    /// Two slashes and the rest of the line; yields nothing.
    LineComment,
    /// A slash and an asterisk, characters other than an asterisk, an asterisk
    /// and a slash; yields nothing.
    BlockComment,
    /// One or more white-space characters; yields nothing.
    Whitespace,
    /// A fixed text; yields the given token.
    Fixed(Vec<char>, Token),
    /// A letter and the letters, digits and underscores that follow it;
    /// yields an identifier.
    Identifier,
    /// An optional minus sign and digits; yields an integer literal.
    Integer,
    /// An optional minus sign, digits, and optionally a point and digits;
    /// yields a decimal literal.
    Float,
    /// A double quote, characters other than a double quote, a double quote;
    /// yields a text literal of what stands between the quotes.
    Quoted,
}

/// The mathematical content of a [`Rule`].
pub enum RuleView {
    LineComment,
    BlockComment,
    Whitespace,
    Fixed(Seq<char>, TokenView),
    Identifier,
    Integer,
    Float,
    Quoted,
}

impl View for Rule {
    type V = RuleView;

    open spec fn view(&self) -> RuleView {
        match self {
            Rule::LineComment => RuleView::LineComment,
            Rule::BlockComment => RuleView::BlockComment,
            Rule::Whitespace => RuleView::Whitespace,
            Rule::Fixed(text, token) => RuleView::Fixed(text@, token@),
            Rule::Identifier => RuleView::Identifier,
            Rule::Integer => RuleView::Integer,
            Rule::Float => RuleView::Float,
            Rule::Quoted => RuleView::Quoted,
        }
    }
}

/// What a rule yields for a match.
pub enum LexOutput {
    /// The match is dropped.
    Ignore,
    /// The match becomes a token.
    Emit(Token),
    /// The match is no valid token.
    Reject,
}

/// The mathematical content of a [`LexOutput`].
pub enum LexOutputView {
    Ignore,
    Emit(TokenView),
    Reject,
}

impl View for LexOutput {
    type V = LexOutputView;

    open spec fn view(&self) -> LexOutputView {
        match self {
            LexOutput::Ignore => LexOutputView::Ignore,
            LexOutput::Emit(t) => LexOutputView::Emit(t@),
            LexOutput::Reject => LexOutputView::Reject,
        }
    }
}

/// The input has a character at which no rule matches, or a match that is no
/// valid token; `position` is the byte offset of that place.
#[derive(Debug, Clone, Copy, PartialEq, Eq, Structural)]
pub struct LexError {
    pub position: usize,
}

/// The length of a minus sign at `pos`: 1 where there is one, else 0.
pub open spec fn sign_len(s: Seq<char>, pos: int) -> int {
    if 0 <= pos < s.len() && s[pos] == '-' {
        1
    } else {
        0
    }
}

/// The length of an optional minus sign and the digits after it, at `pos`.
pub open spec fn integer_len(s: Seq<char>, pos: int) -> int {
    sign_len(s, pos) + run_len(s, pos + sign_len(s, pos), CharClass::Digit) as int
}

/// The length of a point and the digits after it at `pos`; 0 where no point
/// stands there or no digit follows it.
pub open spec fn fraction_len(s: Seq<char>, pos: int) -> int {
    if 0 <= pos < s.len() && s[pos] == '.' && run_len(s, pos + 1, CharClass::Digit) > 0 {
        1 + run_len(s, pos + 1, CharClass::Digit) as int
    } else {
        0
    }
}

/// How many characters `rule` matches at `pos`, where it matches there.
pub open spec fn match_len(rule: RuleView, s: Seq<char>, pos: int) -> Option<int> {
    if !(0 <= pos < s.len()) {
        None
    } else {
        match rule {
            RuleView::LineComment => if starts_with(s, pos, seq!['/', '/']) {
                Some(2 + run_len(s, pos + 2, CharClass::NotLineBreak) as int)
            } else {
                None
            },
            RuleView::BlockComment => {
                let star = pos + 2 + run_len(s, pos + 2, CharClass::NotStar);
                if starts_with(s, pos, seq!['/', '*']) && star + 1 < s.len() && s[star + 1]
                    == '/' {
                    Some(star + 2 - pos)
                } else {
                    None
                }
            },
            RuleView::Whitespace => if in_class(CharClass::Space, s[pos]) {
                Some(run_len(s, pos, CharClass::Space) as int)
            } else {
                None
            },
            RuleView::Fixed(text, _) => if text.len() > 0 && starts_with(s, pos, text) {
                Some(text.len() as int)
            } else {
                None
            },
            RuleView::Identifier => if in_class(CharClass::Letter, s[pos]) {
                Some(1 + run_len(s, pos + 1, CharClass::Word) as int)
            } else {
                None
            },
            RuleView::Integer => if integer_len(s, pos) > sign_len(s, pos) {
                Some(integer_len(s, pos))
            } else {
                None
            },
            RuleView::Float => if integer_len(s, pos) > sign_len(s, pos) {
                Some(integer_len(s, pos) + fraction_len(s, pos + integer_len(s, pos)))
            } else {
                None
            },
            RuleView::Quoted => {
                let close = pos + 1 + run_len(s, pos + 1, CharClass::NotQuote);
                if s[pos] == '"' && close < s.len() {
                    Some(close + 1 - pos)
                } else {
                    None
                }
            },
        }
    }
}

/// The digits without the zeros that they start with; a last digit stays.
pub open spec fn strip_zeros(digits: Seq<char>) -> Seq<char>
    decreases digits.len(),
{
    if digits.len() > 1 && digits[0] == '0' {
        strip_zeros(digits.drop_first())
    } else {
        digits
    }
}

/// The decimal that is written in `s` from `pos` on, over `len` characters.
pub open spec fn decimal_at(s: Seq<char>, pos: int, len: int) -> DecimalView {
    let start = pos + sign_len(s, pos);
    let point = pos + integer_len(s, pos);
    DecimalView {
        negative: sign_len(s, pos) == 1,
        int_digits: strip_zeros(s.subrange(start, point)),
        frac_digits: if point < pos + len {
            s.subrange(point + 1, pos + len)
        } else {
            Seq::empty()
        },
    }
}

/// What `rule` yields for its match of `len` characters at `pos`.
pub open spec fn rule_output(rule: RuleView, s: Seq<char>, pos: int, len: int) -> LexOutputView {
    match rule {
        RuleView::LineComment | RuleView::BlockComment | RuleView::Whitespace => LexOutputView::Ignore,
        RuleView::Fixed(_, token) => LexOutputView::Emit(token),
        RuleView::Identifier => LexOutputView::Emit(TokenView::Ident(s.subrange(pos, pos + len))),
        RuleView::Integer => match i32_of_digits(
            sign_len(s, pos) == 1,
            s.subrange(pos + sign_len(s, pos), pos + len),
        ) {
            Some(v) => LexOutputView::Emit(TokenView::Literal(LiteralView::Int(v))),
            None => LexOutputView::Reject,
        },
        RuleView::Float => LexOutputView::Emit(
            TokenView::Literal(LiteralView::Dbl(decimal_at(s, pos, len))),
        ),
        RuleView::Quoted => LexOutputView::Emit(
            TokenView::Literal(LiteralView::Str(s.subrange(pos + 1, pos + len - 1))),
        ),
    }
}

/// The rule among the first `n` that is taken at `pos`, with the length of
/// its match: the longest match, and of several the first.
pub open spec fn best_match(rules: Seq<RuleView>, s: Seq<char>, pos: int, n: int) -> Option<
    (int, int),
>
    decreases n,
{
    if n <= 0 {
        None
    } else {
        let earlier = best_match(rules, s, pos, n - 1);
        match match_len(rules[n - 1], s, pos) {
            Some(len) => match earlier {
                Some((_, longest)) if longest >= len => earlier,
                _ => Some((n - 1, len)),
            },
            None => earlier,
        }
    }
}

/// The tokens of `s` from `pos` on, or the index of the character at which
/// lexing stops.
pub open spec fn lex_from(rules: Seq<RuleView>, s: Seq<char>, pos: int) -> Result<
    Seq<TokenView>,
    int,
>
    decreases s.len() - pos,
{
    if pos < 0 || pos >= s.len() {
        Ok(Seq::empty())
    } else {
        match best_match(rules, s, pos, rules.len() as int) {
            None => Err(pos),
            Some((i, len)) => if len <= 0 || pos + len > s.len() {
                Err(pos)
            } else {
                match rule_output(rules[i], s, pos, len) {
                    LexOutputView::Reject => Err(pos),
                    LexOutputView::Ignore => lex_from(rules, s, pos + len),
                    LexOutputView::Emit(token) => match lex_from(rules, s, pos + len) {
                        Ok(rest) => Ok(seq![token] + rest),
                        Err(at) => Err(at),
                    },
                }
            },
        }
    }
}

/// The tokens of a text, or the byte offset at which lexing stops.
pub open spec fn lex_text(rules: Seq<RuleView>, s: Seq<char>) -> Result<Seq<TokenView>, LexError> {
    match lex_from(rules, s, 0) {
        Ok(tokens) => Ok(tokens),
        Err(at) => Err(LexError { position: byte_offset(s, at) as usize }),
    }
}

/// A match is never empty and never runs past the end of the text.
pub proof fn lemma_match_len_bounds(rule: RuleView, s: Seq<char>, pos: int)
    ensures
        match_len(rule, s, pos) matches Some(len) ==> 1 <= len && pos + len <= s.len(),
{
    if 0 <= pos < s.len() {
        lemma_run_len(s, pos, CharClass::Space);
        lemma_run_len(s, pos + 1, CharClass::Word);
        lemma_run_len(s, pos + 1, CharClass::NotQuote);
        lemma_run_len(s, pos + sign_len(s, pos), CharClass::Digit);
        if starts_with(s, pos, seq!['/', '/']) {
            lemma_run_len(s, pos + 2, CharClass::NotLineBreak);
        }
        if starts_with(s, pos, seq!['/', '*']) {
            lemma_run_len(s, pos + 2, CharClass::NotStar);
        }
        let point = pos + integer_len(s, pos);
        if 0 <= point < s.len() {
            lemma_run_len(s, point + 1, CharClass::Digit);
        }
    }
}

/// The rule that is taken is one of the rules, and its match is as `match_len` says.
pub proof fn lemma_best_match(rules: Seq<RuleView>, s: Seq<char>, pos: int, n: int)
    requires
        0 <= n <= rules.len(),
    ensures
        best_match(rules, s, pos, n) matches Some((i, len)) ==> 0 <= i < n && match_len(
            rules[i],
            s,
            pos,
        ) == Some(len),
    decreases n,
{
    if n > 0 {
        lemma_best_match(rules, s, pos, n - 1);
    }
}

fn starts_with_pair(s: &Vec<char>, pos: usize, first: char, second: char) -> (r: bool)
    requires
        pos < s.len(),
    ensures
        r == starts_with(s@, pos as int, seq![first, second]),
{
    if pos + 1 < s.len() && s[pos] == first && s[pos + 1] == second {
        assert(s@.subrange(pos as int, pos + 2) == seq![first, second]);
        true
    } else {
        if pos + 1 < s.len() {
            let ghost sub = s@.subrange(pos as int, pos + 2);
            assert(sub[0] == s@[pos as int] && sub[1] == s@[pos + 1]);
        }
        false
    }
}

/// How many characters `rule` matches at `pos`, where it matches there.
pub fn rule_match(rule: &Rule, s: &Vec<char>, pos: usize) -> (r: Option<usize>)
    ensures
        match match_len(rule@, s@, pos as int) {
            Some(len) => r == Some(len as usize) && 1 <= len && pos + len <= s.len(),
            None => r is None,
        },
{
    proof {
        lemma_match_len_bounds(rule@, s@, pos as int);
    }
    let n = s.len();
    if pos >= n {
        return None;
    }
    match rule {
        Rule::LineComment => {
            if starts_with_pair(s, pos, '/', '/') {
                let end = scan_run(s, pos + 2, CharClass::NotLineBreak);
                Some(end - pos)
            } else {
                None
            }
        },
        Rule::BlockComment => {
            if starts_with_pair(s, pos, '/', '*') {
                let star = scan_run(s, pos + 2, CharClass::NotStar);
                if star < n && star + 1 < n && s[star + 1] == '/' {
                    Some(star + 2 - pos)
                } else {
                    None
                }
            } else {
                None
            }
        },
        Rule::Whitespace => {
            if crate::chars::char_in_class(CharClass::Space, s[pos]) {
                let end = scan_run(s, pos, CharClass::Space);
                Some(end - pos)
            } else {
                None
            }
        },
        Rule::Fixed(text, _) => {
            if text.len() > 0 && has_prefix_at(s, pos, text) {
                Some(text.len())
            } else {
                None
            }
        },
        Rule::Identifier => {
            if crate::chars::char_in_class(CharClass::Letter, s[pos]) {
                let end = scan_run(s, pos + 1, CharClass::Word);
                Some(end - pos)
            } else {
                None
            }
        },
        Rule::Integer => {
            let start = if s[pos] == '-' {
                pos + 1
            } else {
                pos
            };
            let end = scan_run(s, start, CharClass::Digit);
            if end > start {
                Some(end - pos)
            } else {
                None
            }
        },
        Rule::Float => {
            let start = if s[pos] == '-' {
                pos + 1
            } else {
                pos
            };
            let point = scan_run(s, start, CharClass::Digit);
            if point > start {
                if point < n && s[point] == '.' {
                    let end = scan_run(s, point + 1, CharClass::Digit);
                    if end > point + 1 {
                        Some(end - pos)
                    } else {
                        Some(point - pos)
                    }
                } else {
                    Some(point - pos)
                }
            } else {
                None
            }
        },
        Rule::Quoted => {
            if s[pos] == '"' {
                let close = scan_run(s, pos + 1, CharClass::NotQuote);
                if close < n {
                    Some(close + 1 - pos)
                } else {
                    None
                }
            } else {
                None
            }
        },
    }
}

/// Reads the decimal that is written in `s` from `pos` on, over `len` characters.
fn read_decimal(s: &Vec<char>, pos: usize, len: usize) -> (r: Decimal)
    requires
        pos < s.len(),
        match_len(RuleView::Float, s@, pos as int) == Some(len as int),
    ensures
        r@ == decimal_at(s@, pos as int, len as int),
{
    proof {
        lemma_match_len_bounds(RuleView::Float, s@, pos as int);
    }
    let negative = s[pos] == '-';
    let start = if negative {
        pos + 1
    } else {
        pos
    };
    let point = scan_run(s, start, CharClass::Digit);
    let mut first = start;
    while first + 1 < point && s[first] == '0'
        invariant
            start <= first < point <= s.len(),
            strip_zeros(s@.subrange(start as int, point as int)) == strip_zeros(
                s@.subrange(first as int, point as int),
            ),
        decreases point - first,
    {
        assert(s@.subrange(first as int, point as int).drop_first() == s@.subrange(
            first + 1,
            point as int,
        ));
        first = first + 1;
    }
    let mut int_digits: Vec<char> = Vec::new();
    push_range(&mut int_digits, s, first, point);
    let mut frac_digits: Vec<char> = Vec::new();
    if point < pos + len {
        push_range(&mut frac_digits, s, point + 1, pos + len);
    }
    Decimal { negative, int_digits, frac_digits }
}

/// What `rule` yields for its match of `len` characters at `pos`.
pub fn rule_emit(rule: &Rule, s: &Vec<char>, pos: usize, len: usize) -> (r: LexOutput)
    requires
        pos < s.len(),
        match_len(rule@, s@, pos as int) == Some(len as int),
    ensures
        r@ == rule_output(rule@, s@, pos as int, len as int),
{
    proof {
        lemma_match_len_bounds(rule@, s@, pos as int);
    }
    match rule {
        Rule::LineComment => LexOutput::Ignore,
        Rule::BlockComment => LexOutput::Ignore,
        Rule::Whitespace => LexOutput::Ignore,
        Rule::Fixed(_, token) => LexOutput::Emit(token.clone()),
        Rule::Identifier => LexOutput::Emit(Token::Ident(string_of_range(s, pos, pos + len))),
        Rule::Integer => {
            let negative = s[pos] == '-';
            let start = if negative {
                pos + 1
            } else {
                pos
            };
            proof {
                lemma_run_len(s@, start as int, CharClass::Digit);
            }
            match parse_i32(s, start, pos + len, negative) {
                Some(v) => LexOutput::Emit(Token::Literal(Literal::Int(v))),
                None => LexOutput::Reject,
            }
        },
        Rule::Float => LexOutput::Emit(Token::Literal(Literal::Dbl(read_decimal(s, pos, len)))),
        Rule::Quoted => LexOutput::Emit(
            Token::Literal(Literal::Str(string_of_range(s, pos + 1, pos + len - 1))),
        ),
    }
}

/// A lexer: the rules in the order in which they were added.
#[derive(Debug)]
pub struct Lexer {
    pub rules: Vec<Rule>,
}

impl View for Lexer {
    type V = Seq<RuleView>;

    open spec fn view(&self) -> Seq<RuleView> {
        Seq::new(self.rules@.len(), |i: int| self.rules@[i]@)
    }
}

impl Lexer {
    /// A lexer without rules.
    pub fn new() -> (r: Lexer)
        ensures
            r@ == Seq::<RuleView>::empty(),
    {
        Lexer { rules: Vec::new() }
    }

    /// Adds a rule behind those that the lexer has.
    pub fn add_rule(&mut self, rule: Rule)
        ensures
            final(self)@ == old(self)@.push(rule@),
    {
        self.rules.push(rule);
        assert(self@ =~= old(self)@.push(rule@));
    }

    /// The rule that is taken at `pos`, with the length of its match.
    pub fn find_match(&self, s: &Vec<char>, pos: usize) -> (r: Option<(usize, usize)>)
        requires
            pos < s.len(),
        ensures
            match best_match(self@, s@, pos as int, self@.len() as int) {
                Some((i, len)) => r == Some((i as usize, len as usize)) && 0 <= i < self.rules.len()
                    && 1 <= len && pos + len <= s.len(),
                None => r is None,
            },
    {
        let mut best: Option<(usize, usize)> = None;
        let mut k: usize = 0;
        while k < self.rules.len()
            invariant
                k <= self.rules.len(),
                pos < s.len(),
                match best_match(self@, s@, pos as int, k as int) {
                    Some((i, len)) => best == Some((i as usize, len as usize)) && 0 <= i < k && 1
                        <= len && pos + len <= s.len(),
                    None => best is None,
                },
            decreases self.rules.len() - k,
        {
            assert(self@[k as int] == self.rules@[k as int]@);
            match rule_match(&self.rules[k], s, pos) {
                Some(len) => {
                    let better = match best {
                        Some((_, longest)) => longest < len,
                        None => true,
                    };
                    if better {
                        best = Some((k, len));
                    }
                },
                None => {},
            }
            k = k + 1;
        }
        best
    }

    /// The tokens of `s`, or the index of the character at which lexing stops.
    pub fn lex_chars(&self, s: &Vec<char>) -> (r: Result<Vec<Token>, usize>)
        ensures
            match lex_from(self@, s@, 0) {
                Ok(tokens) => r is Ok && token_views(r->Ok_0@) == tokens,
                Err(at) => r == Err::<Vec<Token>, usize>(at as usize) && 0 <= at < s.len(),
            },
    {
        let mut tokens: Vec<Token> = Vec::new();
        let mut pos: usize = 0;
        while pos < s.len()
            invariant
                pos <= s.len(),
                lex_from(self@, s@, 0) == match lex_from(self@, s@, pos as int) {
                    Ok(rest) => Ok(token_views(tokens@) + rest),
                    Err(at) => Err(at),
                },
            decreases s.len() - pos,
        {
            proof {
                lemma_best_match(self@, s@, pos as int, self@.len() as int);
            }
            match self.find_match(s, pos) {
                None => {
                    return Err(pos);
                },
                Some((i, len)) => {
                    assert(self@[i as int] == self.rules@[i as int]@);
                    match rule_emit(&self.rules[i], s, pos, len) {
                        LexOutput::Reject => {
                            return Err(pos);
                        },
                        LexOutput::Ignore => {},
                        LexOutput::Emit(token) => {
                            proof {
                                let rest = lex_from(self@, s@, pos + len);
                                if rest is Ok {
                                    assert(token_views(tokens@.push(token)) + rest->Ok_0
                                        == token_views(tokens@) + (seq![token@] + rest->Ok_0));
                                }
                            }
                            tokens.push(token);
                        },
                    }
                    pos = pos + len;
                },
            }
        }
        assert(token_views(tokens@) + Seq::<TokenView>::empty() == token_views(tokens@));
        Ok(tokens)
    }

    /// The tokens of `text`, or the place at which lexing stops.
    pub fn lex(&self, text: &str) -> (r: Result<Vec<Token>, LexError>)
        ensures
            match lex_text(self@, text@) {
                Ok(tokens) => r is Ok && token_views(r->Ok_0@) == tokens,
                Err(e) => r == Err::<Vec<Token>, LexError>(e),
            },
    {
        let s = chars_of(text);
        let byte_len = text.as_bytes().len();
        assert(encode_utf8(s@).len() == byte_len);
        match self.lex_chars(&s) {
            Ok(tokens) => Ok(tokens),
            Err(at) => {
                let position = byte_offset_of(&s, at);
                Err(LexError { position })
            },
        }
    }
}

/// The contents of the tokens of a sequence.
pub open spec fn token_views(tokens: Seq<Token>) -> Seq<TokenView> {
    Seq::new(tokens.len(), |i: int| tokens[i]@)
}

/// The rules of the language, in their order: comments and white space,
/// the punctuation marks, the reserved words with their short forms,
/// identifiers, and the three kinds of literal.
pub open spec fn standard_rules() -> Seq<RuleView> {
    seq![
        RuleView::LineComment,
        RuleView::BlockComment,
        RuleView::Whitespace,
        RuleView::Fixed(seq!['('], TokenView::OParen),
        RuleView::Fixed(seq![')'], TokenView::CParen),
        RuleView::Fixed(seq!['<'], TokenView::OAngle),
        RuleView::Fixed(seq!['>'], TokenView::CAngle),
        RuleView::Fixed(seq![':'], TokenView::Colon),
        RuleView::Fixed(seq![';'], TokenView::Semicolon),
        RuleView::Fixed(seq![','], TokenView::Comma),
        RuleView::Fixed(seq!['='], TokenView::Equals),
        RuleView::Fixed(seq!['?'], TokenView::QMark),
        RuleView::Fixed(seq!['t', 'y', 'p', 'e'], TokenView::TypeKwd),
        RuleView::Fixed(seq!['t', 'a', 'b'], TokenView::TableKwd),
        RuleView::Fixed(seq!['t', 'a', 'b', 'l', 'e'], TokenView::TableKwd),
        RuleView::Fixed(seq!['s', 'c', 'h', 'e', 'm', 'a'], TokenView::SchemaKwd),
        RuleView::Fixed(seq!['s', 'c', 'h'], TokenView::SchemaKwd),
        RuleView::Identifier,
        RuleView::Integer,
        RuleView::Float,
        RuleView::Quoted,
    ]
}

/// The lexer of the language.
pub fn setup_lexer() -> (lexer: Lexer)
    ensures
        lexer@ == standard_rules(),
{
    let mut lexer = Lexer::new();
    lexer.add_rule(Rule::LineComment);
    lexer.add_rule(Rule::BlockComment);
    lexer.add_rule(Rule::Whitespace);
    let text = vec!['('];
    assert(text@ =~= seq!['(']);
    lexer.add_rule(Rule::Fixed(text, Token::OParen));
    let text = vec![')'];
    assert(text@ =~= seq![')']);
    lexer.add_rule(Rule::Fixed(text, Token::CParen));
    let text = vec!['<'];
    assert(text@ =~= seq!['<']);
    lexer.add_rule(Rule::Fixed(text, Token::OAngle));
    let text = vec!['>'];
    assert(text@ =~= seq!['>']);
    lexer.add_rule(Rule::Fixed(text, Token::CAngle));
    let text = vec![':'];
    assert(text@ =~= seq![':']);
    lexer.add_rule(Rule::Fixed(text, Token::Colon));
    let text = vec![';'];
    assert(text@ =~= seq![';']);
    lexer.add_rule(Rule::Fixed(text, Token::Semicolon));
    let text = vec![','];
    assert(text@ =~= seq![',']);
    lexer.add_rule(Rule::Fixed(text, Token::Comma));
    let text = vec!['='];
    assert(text@ =~= seq!['=']);
    lexer.add_rule(Rule::Fixed(text, Token::Equals));
    let text = vec!['?'];
    assert(text@ =~= seq!['?']);
    lexer.add_rule(Rule::Fixed(text, Token::QMark));
    let text = vec!['t', 'y', 'p', 'e'];
    assert(text@ =~= seq!['t', 'y', 'p', 'e']);
    lexer.add_rule(Rule::Fixed(text, Token::TypeKwd));
    let text = vec!['t', 'a', 'b'];
    assert(text@ =~= seq!['t', 'a', 'b']);
    lexer.add_rule(Rule::Fixed(text, Token::TableKwd));
    let text = vec!['t', 'a', 'b', 'l', 'e'];
    assert(text@ =~= seq!['t', 'a', 'b', 'l', 'e']);
    lexer.add_rule(Rule::Fixed(text, Token::TableKwd));
    let text = vec!['s', 'c', 'h', 'e', 'm', 'a'];
    assert(text@ =~= seq!['s', 'c', 'h', 'e', 'm', 'a']);
    lexer.add_rule(Rule::Fixed(text, Token::SchemaKwd));
    let text = vec!['s', 'c', 'h'];
    assert(text@ =~= seq!['s', 'c', 'h']);
    lexer.add_rule(Rule::Fixed(text, Token::SchemaKwd));
    lexer.add_rule(Rule::Identifier);
    lexer.add_rule(Rule::Integer);
    lexer.add_rule(Rule::Float);
    lexer.add_rule(Rule::Quoted);
    assert(lexer@ =~= standard_rules());
    lexer
}

/// The tokens of a text of the language.
pub open spec fn tokens_of(text: Seq<char>) -> Result<Seq<TokenView>, LexError> {
    lex_text(standard_rules(), text)
}

/// The tokens of `text`, or the place at which lexing stops.
pub fn lex(text: &str) -> (r: Result<Vec<Token>, LexError>)
    ensures
        match tokens_of(text@) {
            Ok(tokens) => r is Ok && token_views(r->Ok_0@) == tokens,
            Err(e) => r == Err::<Vec<Token>, LexError>(e),
        },
{
    setup_lexer().lex(text)
}

/// The decimal that a text is, where the whole text is one decimal literal.
pub open spec fn decimal_of_text(text: Seq<char>) -> Option<DecimalView> {
    if match_len(RuleView::Float, text, 0) == Some(text.len() as int) {
        Some(decimal_at(text, 0, text.len() as int))
    } else {
        None
    }
}

/// Reads `text` as a decimal: an optional minus sign, digits, and optionally
/// a point and digits, and nothing else.
pub fn parse_decimal(text: &str) -> (r: Option<Decimal>)
    ensures
        match decimal_of_text(text@) {
            Some(d) => r is Some && r->0@ == d,
            None => r is None,
        },
{
    let s = chars_of(text);
    match rule_match(&Rule::Float, &s, 0) {
        Some(len) => if len == s.len() {
            Some(read_decimal(&s, 0, len))
        } else {
            None
        },
        None => None,
    }
}

} // verus!
