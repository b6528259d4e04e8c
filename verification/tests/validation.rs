use sheetql::compile::{compile_schema, parse_schema};
use sheetql::datatype::{DataType, DblDataType, IntDataType, StrDataType};
use sheetql::decimal::Decimal;
use sheetql::error::SchemaError;
use sheetql::lexer::parse_decimal;
use sheetql::literal::Literal;
use sheetql::schema::{ColumnSchema, TableSchema};
use std::rc::Rc;

fn dec(text: &str) -> Decimal {
    parse_decimal(text).unwrap()
}

#[test]
fn int_range_is_valid_iff_min_is_not_above_max() {
    assert!(IntDataType::new(Some(1), Some(5), false).validate_data_type().is_ok());
    assert!(IntDataType::new(Some(5), Some(5), false).validate_data_type().is_ok());
    assert!(IntDataType::new(None, Some(5), false).validate_data_type().is_ok());
    assert!(IntDataType::new(Some(9), None, true).validate_data_type().is_ok());
    match IntDataType::new(Some(6), Some(5), false).validate_data_type() {
        Err(SchemaError::InvalidRange { min, max }) => {
            assert_eq!(min, "6");
            assert_eq!(max, "5");
        }
        other => panic!("{:?}", other),
    }
    match IntDataType::new(Some(-2147483647), Some(-2147483648), false).validate_data_type() {
        Err(SchemaError::InvalidRange { min, max }) => {
            assert_eq!(min, "-2147483647");
            assert_eq!(max, "-2147483648");
        }
        other => panic!("{:?}", other),
    }
}

#[test]
fn str_and_dbl_ranges() {
    assert!(StrDataType::new(Some(2), Some(2), false).validate_data_type().is_ok());
    match StrDataType::new(Some(3), Some(2), false).validate_data_type() {
        Err(SchemaError::InvalidRange { min, max }) => {
            assert_eq!(min, "3");
            assert_eq!(max, "2");
        }
        other => panic!("{:?}", other),
    }
    assert!(DblDataType::new(Some(dec("1.5")), Some(dec("1.50")), false)
        .validate_data_type()
        .is_ok());
    assert!(DblDataType::new(Some(dec("-2")), Some(dec("-1.999")), false)
        .validate_data_type()
        .is_ok());
    match DblDataType::new(Some(dec("1.51")), Some(dec("1.5")), false).validate_data_type() {
        Err(SchemaError::InvalidRange { min, max }) => {
            assert_eq!(min, "1.51");
            assert_eq!(max, "1.5");
        }
        other => panic!("{:?}", other),
    }
}

#[test]
fn decimals_compare_by_value() {
    let lt = |a: &str, b: &str| dec(a).lt(&dec(b));
    assert!(lt("1", "2"));
    assert!(!lt("2", "1"));
    assert!(!lt("1", "1.0"));
    assert!(!lt("1.0", "1"));
    assert!(lt("9", "10"));
    assert!(lt("9.99", "10"));
    assert!(lt("1.5", "1.51"));
    assert!(lt("1.09", "1.1"));
    assert!(lt("-1", "0"));
    assert!(lt("-2", "-1"));
    assert!(!lt("-1", "-2"));
    assert!(lt("-1.5", "-1.25"));
    assert!(!lt("-0.0", "0"));
    assert!(!lt("0", "-0.0"));
    assert!(lt("-0.1", "0"));
    assert!(lt("0", "0.001"));
    assert!(lt("12345678901234567890.5", "12345678901234567890.50000000000000000001"));
    assert!(!Decimal::from_i32(-7).lt(&dec("-7.0")));
    assert!(Decimal::from_i32(i32::MIN).lt(&dec("-2147483647.9")));
    assert!(dec("0.000").is_zero());
    assert!(!dec("0.001").is_zero());
}

#[test]
fn validate_literal_follows_the_family() {
    let int = DataType::Int(IntDataType::new(Some(1), Some(5), false));
    assert!(int.validate_literal(Some(&Literal::Int(1))).is_ok());
    assert!(int.validate_literal(Some(&Literal::Int(5))).is_ok());
    assert!(matches!(
        int.validate_literal(Some(&Literal::Int(0))),
        Err(SchemaError::InvalidDefault)
    ));
    assert!(int.validate_literal(Some(&Literal::Int(6))).is_err());
    assert!(int.validate_literal(Some(&Literal::Dbl(dec("2.0")))).is_err());
    assert!(int.validate_literal(Some(&Literal::Str("2".into()))).is_err());
    assert!(int.validate_literal(None).is_err());
    let nullable = DataType::Int(IntDataType::new(Some(1), Some(5), true));
    assert!(nullable.validate_literal(None).is_ok());

    let dbl = DataType::Dbl(DblDataType::new(Some(dec("0.5")), Some(dec("2")), false));
    assert!(dbl.validate_literal(Some(&Literal::Dbl(dec("0.5")))).is_ok());
    assert!(dbl.validate_literal(Some(&Literal::Int(2))).is_ok());
    assert!(dbl.validate_literal(Some(&Literal::Int(1))).is_ok());
    assert!(dbl.validate_literal(Some(&Literal::Int(0))).is_err());
    assert!(dbl.validate_literal(Some(&Literal::Dbl(dec("2.0001")))).is_err());
    assert!(dbl.validate_literal(Some(&Literal::Str("1".into()))).is_err());

    let text = DataType::Str(StrDataType::new(Some(2), Some(4), false));
    assert!(text.validate_literal(Some(&Literal::Str("ab".into()))).is_ok());
    assert!(text.validate_literal(Some(&Literal::Str("abcd".into()))).is_ok());
    assert!(text.validate_literal(Some(&Literal::Str("a".into()))).is_err());
    assert!(text.validate_literal(Some(&Literal::Str("abcde".into()))).is_err());
    // the length is counted in bytes
    assert!(text.validate_literal(Some(&Literal::Str("ééé".into()))).is_err());
    assert!(text.validate_literal(Some(&Literal::Int(3))).is_err());
}

#[test]
fn validation_stops_at_the_first_failing_column() {
    let text = "table A (x: int<1, 5> = 9, y: int<3, 2>); table B (z: str<9, 1>);";
    assert!(parse_schema(text).is_ok());
    assert!(matches!(compile_schema(text), Err(SchemaError::InvalidDefault)));
    let text = "table A (x: int<1, 5> = 3, y: int<3, 2>); table B (z: str = 1);";
    match compile_schema(text) {
        Err(SchemaError::InvalidRange { min, max }) => {
            assert_eq!((min.as_str(), max.as_str()), ("3", "2"));
        }
        other => panic!("{:?}", other),
    }
    // the range of a column is checked before its default
    assert!(matches!(
        compile_schema("table A (x: int<5, 1> = \"a\");"),
        Err(SchemaError::InvalidRange { .. })
    ));
}

#[test]
fn tables_hold_columns_by_name() {
    let mut table = TableSchema::new();
    let int = Rc::new(DataType::Int(IntDataType::new(None, None, false)));
    assert!(table.add_column("a".into(), ColumnSchema::new(int.clone(), None)).is_ok());
    assert!(table
        .add_column("b".into(), ColumnSchema::new(int.clone(), Some(Literal::Int(3))))
        .is_ok());
    match table.add_column("a".into(), ColumnSchema::new(int.clone(), None)) {
        Err(SchemaError::DuplicateColumn { name }) => assert_eq!(name, "a"),
        other => panic!("{:?}", other),
    }
    assert_eq!(table.get_num_columns(), 2);
    assert!(table.get_column("b").unwrap().default_value.is_some());
    assert!(table.get_column("c").is_none());
    assert!(!table.get_column("a").unwrap().get_type().get_nullable());
    assert_eq!(table.to_text(), "(a: int<, >, b: int<, > = 3)");
    assert!(table.validate_table_schema().is_ok());
}

#[test]
fn schemas_hold_tables_by_name() {
    let schema = parse_schema("type n int<0, >?; table T (a: n); tab U (b: str, c: dbl<-1.5, >);")
        .unwrap();
    assert_eq!(schema.get_num_tables(), 2);
    assert_eq!(schema.get_table("T").unwrap().get_num_columns(), 1);
    assert_eq!(schema.get_table("U").unwrap().get_num_columns(), 2);
    assert!(schema.get_table("n").is_none());
    assert_eq!(
        schema.to_text(),
        "table T (a: int<0, >?);\ntable U (b: str<, >, c: dbl<-1.5, >);\n"
    );
}
