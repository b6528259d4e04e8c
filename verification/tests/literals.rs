use sheetql::literal::Literal;
use sheetql::token::Token;

#[test]
fn ident_test() {
    let ident = "helloWorld";
    let str_lit = "\"helloWorld\"";

    let ident_tok = Token::Ident(ident.into());
    let str_lit_tok = Token::Literal(Literal::Str(str_lit.into()));
    assert!(
        ident_tok.is_ident_or_str_literal_tok()
            && ident_tok.get_ident_or_str_literal() == Some(ident.into()),
    );
    assert!(
        str_lit_tok.is_ident_or_str_literal_tok()
            && str_lit_tok.get_ident_or_str_literal() == Some(str_lit.into())
    );
}
