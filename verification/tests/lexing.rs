use sheetql::decimal::Decimal;
use sheetql::lexer::{lex, parse_decimal, setup_lexer, LexError, Lexer, Rule};
use sheetql::literal::Literal;
use sheetql::token::Token;

fn show(tokens: &[Token]) -> Vec<String> {
    tokens.iter().map(|t| format!("{:?}", t)).collect()
}

fn dec(text: &str) -> Decimal {
    parse_decimal(text).unwrap()
}

#[test]
fn punctuation_and_words() {
    let tokens = lex("( ) < > : ; , = ? type table tab schema sch").unwrap();
    assert_eq!(
        show(&tokens),
        vec![
            "OParen", "CParen", "OAngle", "CAngle", "Colon", "Semicolon", "Comma", "Equals",
            "QMark", "TypeKwd", "TableKwd", "TableKwd", "SchemaKwd", "SchemaKwd"
        ]
    );
}

#[test]
fn longest_match_decides_between_words_and_identifiers() {
    let tokens = lex("tables typ types tab_1 schemas sch9 T a1_b").unwrap();
    assert_eq!(
        show(&tokens),
        vec![
            "Ident(\"tables\")",
            "Ident(\"typ\")",
            "Ident(\"types\")",
            "Ident(\"tab_1\")",
            "Ident(\"schemas\")",
            "Ident(\"sch9\")",
            "Ident(\"T\")",
            "Ident(\"a1_b\")"
        ]
    );
}

#[test]
fn integers_and_decimals() {
    let tokens = lex("5 -5 007 5.5 -0.25 1-2 2147483647 -2147483648").unwrap();
    assert_eq!(tokens.len(), 9);
    assert!(matches!(tokens[0], Token::Literal(Literal::Int(5))));
    assert!(matches!(tokens[1], Token::Literal(Literal::Int(-5))));
    assert!(matches!(tokens[2], Token::Literal(Literal::Int(7))));
    match &tokens[3] {
        Token::Literal(Literal::Dbl(d)) => {
            assert!(!d.negative);
            assert_eq!(d.int_digits, vec!['5']);
            assert_eq!(d.frac_digits, vec!['5']);
        }
        other => panic!("{:?}", other),
    }
    match &tokens[4] {
        Token::Literal(Literal::Dbl(d)) => {
            assert!(d.negative);
            assert_eq!(d.int_digits, vec!['0']);
            assert_eq!(d.frac_digits, vec!['2', '5']);
        }
        other => panic!("{:?}", other),
    }
    assert!(matches!(tokens[5], Token::Literal(Literal::Int(1))));
    assert!(matches!(tokens[6], Token::Literal(Literal::Int(-2))));
    assert!(matches!(tokens[7], Token::Literal(Literal::Int(2147483647))));
    assert!(matches!(tokens[8], Token::Literal(Literal::Int(-2147483648))));
}

#[test]
fn integer_out_of_range_is_an_error() {
    assert_eq!(lex("a 2147483648").unwrap_err(), LexError { position: 2 });
    assert_eq!(lex("-2147483649").unwrap_err(), LexError { position: 0 });
    assert_eq!(lex("99999999999999999999999999").unwrap_err(), LexError { position: 0 });
    assert!(lex("99999999999999999999999999.0").is_ok());
}

#[test]
fn decimal_keeps_its_digits_without_leading_zeros() {
    let d = dec("-007.500");
    assert!(d.negative);
    assert_eq!(d.int_digits, vec!['7']);
    assert_eq!(d.frac_digits, vec!['5', '0', '0']);
    let zero = dec("000");
    assert_eq!(zero.int_digits, vec!['0']);
    assert!(zero.frac_digits.is_empty());
    assert!(parse_decimal("").is_none());
    assert!(parse_decimal("1.").is_none());
    assert!(parse_decimal(".5").is_none());
    assert!(parse_decimal("1.5x").is_none());
    assert!(parse_decimal("-").is_none());
    assert!(parse_decimal("1e5").is_none());
}

#[test]
fn text_literals_lose_their_quotes() {
    let tokens = lex("\"hello world\" \"\" \"é=1\"").unwrap();
    assert_eq!(
        show(&tokens),
        vec![
            "Literal(Str(\"hello world\"))",
            "Literal(Str(\"\"))",
            "Literal(Str(\"é=1\"))"
        ]
    );
    assert_eq!(lex("a \"open").unwrap_err(), LexError { position: 2 });
}

#[test]
fn comments_and_white_space_are_dropped() {
    let tokens = lex("a // rest ; of line\n b /* block\n comment */ c\t\r\n\u{a0}\u{2003}d").unwrap();
    assert_eq!(
        show(&tokens),
        vec!["Ident(\"a\")", "Ident(\"b\")", "Ident(\"c\")", "Ident(\"d\")"]
    );
    // a block comment ends at its first asterisk
    assert_eq!(lex("/* a * b */").unwrap_err(), LexError { position: 0 });
    assert_eq!(lex("a / b").unwrap_err(), LexError { position: 2 });
    assert!(lex("/**/").is_ok());
    assert!(lex("//").unwrap().is_empty());
}

#[test]
fn error_position_counts_bytes() {
    assert_eq!(lex("// é\n#").unwrap_err(), LexError { position: 6 });
    assert_eq!(lex("\"日本\" .").unwrap_err(), LexError { position: 9 });
    assert_eq!(lex("5.").unwrap_err(), LexError { position: 1 });
    assert_eq!(lex("").unwrap().len(), 0);
}

#[test]
fn rule_order_breaks_ties() {
    let mut lexer = Lexer::new();
    lexer.add_rule(Rule::Whitespace);
    lexer.add_rule(Rule::Float);
    lexer.add_rule(Rule::Integer);
    lexer.add_rule(Rule::Identifier);
    lexer.add_rule(Rule::Fixed(vec!['t', 'a', 'b'], Token::TableKwd));
    let tokens = lexer.lex("5 tab").unwrap();
    assert_eq!(tokens.len(), 2);
    assert!(matches!(&tokens[0], Token::Literal(Literal::Dbl(d)) if d.frac_digits.is_empty()));
    assert!(matches!(&tokens[1], Token::Ident(name) if name == "tab"));
    let standard = setup_lexer().lex("5 tab").unwrap();
    assert!(matches!(standard[0], Token::Literal(Literal::Int(5))));
    assert!(matches!(standard[1], Token::TableKwd));
    assert_eq!(setup_lexer().rules.len(), 21);
}
