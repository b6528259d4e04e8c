use sheetql::compile::{compile_schema, parse_schema};
use sheetql::error::SchemaError;
use sheetql::lexer::setup_lexer;
use sheetql::parser::parse_spreadsheet_schema;
use sheetql::schema::SpreadsheetSchema;
use sheetql::symbols::{Stmt, SymbolTable};
use sheetql::token::Token;

fn lex(s: &str) -> Result<Vec<Token>, SchemaError> {
    match setup_lexer().lex(s) {
        Ok(toks) => Ok(toks),
        Err(e) => Err(SchemaError::Lex { position: e.position }),
    }
}

fn assert_maps_to_stmt(expected: &str) -> Result<(), String> {
    let tq = lex(expected).map_err(|e| e.message())?;
    let (stmt, _) = Stmt::parse(&tq, 0, &mut SymbolTable::new()).map_err(|e| e.message())?;
    let actual = stmt.to_text();
    if actual != expected {
        return Err(format!("Expected stmt {expected}, got {}", actual));
    }
    Ok(())
}

fn assert_maps_to_schema(expected: &str) -> Result<(), String> {
    let tq = lex(expected).map_err(|e| e.message())?;
    let schema = parse_spreadsheet_schema(&tq).map_err(|e| e.message())?;
    let actual = schema.to_text();
    if actual.trim() != expected.trim() {
        return Err(format!("Expected schema:\n\n{expected}\n\n\nGot:\n\n{actual}"));
    }
    Ok(())
}

fn parse_schema_from_str(s: &str) -> Result<SpreadsheetSchema, String> {
    let tq = lex(s).map_err(|e| e.message())?;
    parse_spreadsheet_schema(&tq).map_err(|e| e.message())
}

fn parse_valid_schema_from_str(s: &str) -> Result<SpreadsheetSchema, String> {
    let schema = parse_schema_from_str(s)?;
    schema.validate_spreadsheet_schema().map_err(|e| e.message())?;
    Ok(schema)
}

#[test]
fn test_ddl_1() {
    let stmt1 = "table T (a: int<, >);";
    let stmt2 = "type myType int<1, 5>;";

    // simple statements
    assert_maps_to_stmt(stmt1).unwrap();
    assert_maps_to_stmt(stmt2).unwrap();

    // simple single-statement schemas
    assert_maps_to_schema(stmt1).unwrap();
}

#[test]
fn test_ddl_2() {
    // table with multiple columns
    assert_maps_to_schema("table Users (userId: int<0, >, userName: str<2, 32>);").unwrap();

    // multi-table schemas
    assert_maps_to_schema(
        "table T1 (a: int<, >);
table T2 (b: int<, >);",
    )
    .unwrap();

    // schemas with comments
    assert!(
        parse_schema_from_str(
            "
			// comment
			table T (a: int);
			"
        )
        .unwrap()
        .to_text()
        .trim()
            == "table T (a: int<, >);"
    );

    // schemas with typedefs
    assert!(
        parse_schema_from_str("type uIntType int<0, >; table T (id: uIntType);")
            .unwrap()
            .to_text()
            .trim()
            == "table T (id: int<0, >);"
    );

    // schemas with default values
    assert_maps_to_schema("table T (a: int<, > = 0);").unwrap();
}

#[test]
fn parse_stmt_test() {
    let tq = lex("type myType int<1,5>").unwrap();
    let mut symtable = SymbolTable::new();

    let (stmt, next) = Stmt::parse(&tq, 0, &mut symtable).unwrap();
    assert_eq!(next, tq.len());
    assert_eq!(stmt.to_text(), "type myType int<1, 5>;");
    assert!(symtable.contains(&"myType".to_string()));
}

#[test]
fn test_schema_validation() {
    let invalid = [
        "table T (a: int<10,5>);",
        "table T (a: int<,>, a: dbl<,>);",
        "table T (a: UndefinedType);",
        "table T (a: int<1, 5> = 9);",
        "table T (a: str<2, 4> = 7);",
    ];
    for text in invalid {
        assert!(parse_valid_schema_from_str(text).is_err(), "{text}");
    }
}

#[test]
fn compile_schema_reports_the_kind_of_error() {
    assert!(matches!(
        compile_schema("table T (a: int<10,5>);"),
        Err(SchemaError::InvalidRange { .. })
    ));
    assert!(matches!(
        compile_schema("table T (a: int<,>, a: dbl<,>);"),
        Err(SchemaError::DuplicateColumn { .. })
    ));
    assert!(matches!(
        compile_schema("table T (a: UndefinedType);"),
        Err(SchemaError::UnknownType { .. })
    ));
    assert!(matches!(
        compile_schema("type A int; type A dbl;"),
        Err(SchemaError::DuplicateSymbol { .. })
    ));
    assert!(matches!(
        compile_schema("type A int; table A (x: A);"),
        Err(SchemaError::DuplicateSymbol { .. })
    ));
    assert!(matches!(
        compile_schema("table T (a: int = \"x\");"),
        Err(SchemaError::InvalidDefault)
    ));
    assert!(matches!(compile_schema("table T (a: int)"), Err(SchemaError::TrailingInput)));
    assert!(matches!(compile_schema("table T (a: int); )"), Err(SchemaError::TrailingInput)));
    assert!(matches!(
        compile_schema("table T (a: int); #"),
        Err(SchemaError::Lex { position: 18 })
    ));
    assert!(parse_schema("table T (a: int<1, 5> = 9);").is_ok());
    assert!(compile_schema("table T (a: dbl<0.5, 2> = 1);").is_ok());
}
