use sheetql::compile::parse_schema;
use sheetql::datatype::{DblDataType, IntDataType, StrDataType};
use sheetql::error::SchemaError;
use sheetql::lexer::lex;
use sheetql::parser::{parse_column_schema, parse_data_type, parse_table_schema};
use sheetql::symbols::{Stmt, Symbol, SymbolTable};

fn parse_error_at(r: Result<impl std::fmt::Debug, SchemaError>) -> usize {
    match r {
        Err(SchemaError::Parse { position }) => position,
        other => panic!("{:?}", other),
    }
}

#[test]
fn int_type_reads_range_and_mark() {
    let tokens = lex("<1, 5>? <,> < -3 , > ? x").unwrap();
    assert_eq!(
        IntDataType::parse(&tokens, 0).unwrap(),
        (IntDataType::new(Some(1), Some(5), true), 6)
    );
    assert_eq!(IntDataType::parse(&tokens, 6).unwrap(), (IntDataType::new(None, None, false), 9));
    assert_eq!(
        IntDataType::parse(&tokens, 9).unwrap(),
        (IntDataType::new(Some(-3), None, true), 14)
    );
    // a question mark alone, and nothing at all
    assert_eq!(IntDataType::parse(&tokens, 13).unwrap(), (IntDataType::new(None, None, true), 14));
    assert_eq!(IntDataType::parse(&tokens, 14).unwrap(), (IntDataType::new(None, None, false), 14));
    assert_eq!(IntDataType::parse(&tokens, 99).unwrap(), (IntDataType::new(None, None, false), 99));
}

#[test]
fn range_of_the_wrong_kind_is_a_parse_error() {
    assert_eq!(parse_error_at(IntDataType::parse(&lex("<1.5, 2>").unwrap(), 0)), 1);
    assert_eq!(parse_error_at(IntDataType::parse(&lex("<1, \"a\">").unwrap(), 0)), 3);
    assert_eq!(parse_error_at(IntDataType::parse(&lex("<1 2>").unwrap(), 0)), 2);
    assert_eq!(parse_error_at(IntDataType::parse(&lex("<1, 2").unwrap(), 0)), 4);
    assert_eq!(parse_error_at(DblDataType::parse(&lex("<\"a\", 2>").unwrap(), 0)), 1);
    assert_eq!(parse_error_at(StrDataType::parse(&lex("<1, 2.0>").unwrap(), 0)), 3);
    assert_eq!(parse_error_at(StrDataType::parse(&lex("<-1, 2>").unwrap(), 0)), 1);
}

#[test]
fn dbl_and_str_types() {
    let (dbl, next) = DblDataType::parse(&lex("<1, 2.50>?").unwrap(), 0).unwrap();
    assert_eq!(next, 6);
    assert!(dbl.nullable);
    let min = dbl.min.unwrap();
    assert_eq!((min.negative, min.int_digits, min.frac_digits), (false, vec!['1'], vec![]));
    let max = dbl.max.unwrap();
    assert_eq!((max.negative, max.int_digits, max.frac_digits), (false, vec!['2'], vec!['5', '0']));
    assert_eq!(
        StrDataType::parse(&lex("<2, 32>").unwrap(), 0).unwrap(),
        (StrDataType::new(Some(2), Some(32), false), 5)
    );
}

#[test]
fn type_expressions_resolve_names() {
    let mut symtable = SymbolTable::new();
    let tokens = lex("type small int<0, 9>; small int str<1,> dbl? other").unwrap();
    let (_, next) = Stmt::parse(&tokens, 0, &mut symtable).unwrap();
    assert_eq!(next, 8);
    let (t, next) = parse_data_type(&tokens, 9, &symtable).unwrap();
    assert_eq!((t.to_text().as_str(), next), ("int<0, 9>", 10));
    let (t, next) = parse_data_type(&tokens, 10, &symtable).unwrap();
    assert_eq!((t.to_text().as_str(), next), ("int<, >", 11));
    let (t, next) = parse_data_type(&tokens, 11, &symtable).unwrap();
    assert_eq!((t.to_text().as_str(), next), ("str<1, >", 16));
    let (t, next) = parse_data_type(&tokens, 16, &symtable).unwrap();
    assert_eq!((t.to_text().as_str(), next), ("dbl<, >?", 18));
    match parse_data_type(&tokens, 18, &symtable) {
        Err(SchemaError::UnknownType { name }) => assert_eq!(name, "other"),
        other => panic!("{:?}", other),
    }
    assert_eq!(parse_error_at(parse_data_type(&tokens, 8, &symtable)), 8);
    assert_eq!(parse_error_at(parse_data_type(&tokens, 19, &symtable)), 19);
    assert!(matches!(symtable.get(&"small".to_string()), Some(Symbol::DataType(_))));
    assert!(symtable.get(&"int".to_string()).is_none());
}

#[test]
fn columns_and_tables() {
    let symtable = SymbolTable::new();
    let tokens = lex("a: int<1, 5> = 3, b: str = \"x\" c").unwrap();
    let (column, next) = parse_column_schema(&tokens, 0, &symtable).unwrap();
    assert_eq!(column.name, "a");
    assert_eq!(column.item.to_text(), "int<1, 5> = 3");
    assert_eq!(next, 10);
    let (column, next) = parse_column_schema(&tokens, 11, &symtable).unwrap();
    assert_eq!(column.name, "b");
    assert_eq!(column.item.to_text(), "str<, > = \"x\"");
    assert_eq!(next, 16);
    assert_eq!(parse_error_at(parse_column_schema(&tokens, 16, &symtable)), 17);
    assert_eq!(parse_error_at(parse_column_schema(&lex("a: int = b").unwrap(), 0, &symtable)), 4);
    assert_eq!(parse_error_at(parse_column_schema(&lex("\"a\": int").unwrap(), 0, &symtable)), 0);

    let (table, next) =
        parse_table_schema(&lex("T (a: int, b: dbl?)").unwrap(), 0, &symtable).unwrap();
    assert_eq!(table.name, "T");
    assert_eq!(table.item.to_text(), "(a: int<, >, b: dbl<, >?)");
    assert_eq!(next, 11);
    // a table has a column, and no comma behind the last
    assert_eq!(parse_error_at(parse_table_schema(&lex("T ()").unwrap(), 0, &symtable)), 2);
    assert_eq!(parse_error_at(parse_table_schema(&lex("T (a: int,)").unwrap(), 0, &symtable)), 6);
    assert_eq!(parse_error_at(parse_table_schema(&lex("T a: int").unwrap(), 0, &symtable)), 1);
    assert_eq!(parse_error_at(parse_table_schema(&lex("T (a: int b").unwrap(), 0, &symtable)), 5);
}

#[test]
fn statements_bind_names_once() {
    let mut symtable = SymbolTable::new();
    let tokens = lex("type a int; table a (x: int); table b (x: a); type b str;").unwrap();
    assert!(Stmt::parse(&tokens, 0, &mut symtable).is_ok());
    match Stmt::parse(&tokens, 4, &mut symtable) {
        Err(SchemaError::DuplicateSymbol { name }) => assert_eq!(name, "a"),
        other => panic!("{:?}", other),
    }
    assert_eq!(symtable.entries.len(), 1);
    let (stmt, next) = Stmt::parse(&tokens, 12, &mut symtable).unwrap();
    assert_eq!(stmt.to_text(), "table b (x: int<, >);");
    assert_eq!(next, 19);
    assert!(matches!(symtable.get(&"b".to_string()), Some(Symbol::TableSchema(_))));
    match Stmt::parse(&tokens, 20, &mut symtable) {
        Err(SchemaError::DuplicateSymbol { name }) => assert_eq!(name, "b"),
        other => panic!("{:?}", other),
    }
    assert_eq!(parse_error_at(Stmt::parse(&tokens, 3, &mut symtable)), 3);
    assert_eq!(parse_error_at(Stmt::parse(&lex("type 5 int").unwrap(), 0, &mut symtable)), 1);
    assert_eq!(symtable.entries.len(), 2);
}

#[test]
fn a_type_is_known_only_after_its_declaration() {
    match parse_schema("table T (a: later); type later int;") {
        Err(SchemaError::UnknownType { name }) => assert_eq!(name, "later"),
        other => panic!("{:?}", other),
    }
    assert!(parse_schema("type later int; table T (a: later);").is_ok());
    // a table is no type
    assert!(matches!(
        parse_schema("table T (a: int); table U (b: T);"),
        Err(SchemaError::UnknownType { .. })
    ));
    // a type may be made of an earlier type
    let schema = parse_schema("type a dbl<1, 2>?; type b a; table T (x: b = 1.5);").unwrap();
    assert_eq!(schema.to_text(), "table T (x: dbl<1, 2>? = 1.5);\n");
    assert!(matches!(parse_schema("type a a;"), Err(SchemaError::UnknownType { .. })));
}

#[test]
fn what_is_no_statement_is_trailing_input() {
    assert!(parse_schema("").unwrap().tables.is_empty());
    assert!(parse_schema("// nothing\n").unwrap().tables.is_empty());
    for text in [
        ";",
        "table T (a: int)",
        "table T (a: int); table",
        "table T (a: int) table U (b: int);",
        "type a int<1, \"x\">;",
        "schema s;",
        "table T (a: int = );",
        "table T (a: int?<1, 2>);",
        "type a int; type b a?;",
    ] {
        assert!(matches!(parse_schema(text), Err(SchemaError::TrailingInput)), "{text}");
    }
}

#[test]
fn canonical_text_reads_back_as_the_same_schema() {
    for text in [
        "table T (a: int<, >);",
        "type t int<-5, 5>?; table A (x: t = -3, y: dbl<0.5, 100> = 2.0, z: str<1, 8>? = \"hi\");
         tab B (int: dbl<-0.0, 7>, tables: str = \"\");",
    ] {
        let first = parse_schema(text).unwrap();
        let written = first.to_text();
        let second = parse_schema(&written).unwrap();
        assert_eq!(second.to_text(), written);
        assert_eq!(second.to_json(), first.to_json());
    }
}
