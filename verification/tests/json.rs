use serde_json::Value;
use sheetql::compile::{compile, compile_schema};
use sheetql::error::SchemaError;
use sheetql::lexer::parse_decimal;
use sheetql::literal::Literal;

fn json(text: &str) -> Value {
    serde_json::from_str(text).unwrap()
}

#[test]
fn compile_table_with_unbounded_int_column() {
    let actual = compile("table T (a: int<, >);");
    let expected = json(
        r#"{"tables": {"T": {"columns": {"a": {"column_type":
            {"super": "int", "min": null, "max": null, "nullable": false}}}}}}"#,
    );
    assert_eq!(actual, expected);
    let tables = actual["tables"].as_object().unwrap();
    assert_eq!(tables.len(), 1);
    assert_eq!(tables["T"]["columns"].as_object().unwrap().len(), 1);
}

#[test]
fn compile_resolves_named_types() {
    let actual = compile("type myType int<1, 5>; table T (id: myType);");
    assert_eq!(
        actual["tables"]["T"]["columns"]["id"]["column_type"],
        json(r#"{"super":"int","min":1,"max":5,"nullable":false}"#)
    );
    assert_eq!(actual.as_object().unwrap().len(), 1);
    assert_eq!(actual["tables"].as_object().unwrap().len(), 1);
}

#[test]
fn compile_records_default_value() {
    let actual = compile("table T (a: int<, > = 0);");
    let column = &actual["tables"]["T"]["columns"]["a"];
    assert_eq!(column["default_value"], json("0"));
    assert_eq!(column.as_object().unwrap().len(), 2);
    let without = compile("table T (a: int<, >);");
    assert!(without["tables"]["T"]["columns"]["a"].get("default_value").is_none());
}

#[test]
fn compile_inverted_range_is_an_error() {
    assert_eq!(
        compile("table T (a: int<10,5>);"),
        json(r#"{"err": "Can't have min (10) > max (5)"}"#)
    );
    assert!(matches!(
        compile_schema("table T (a: int<10,5>);"),
        Err(SchemaError::InvalidRange { .. })
    ));
}

#[test]
fn compile_duplicate_column_is_an_error() {
    assert_eq!(
        compile("table T (a: int<,>, a: dbl<,>);"),
        json(r#"{"err": "Can't have multiple columns named 'a'"}"#)
    );
}

#[test]
fn compile_unknown_type_is_an_error() {
    assert_eq!(
        compile("table T (a: UndefinedType);"),
        json(r#"{"err": "Unrecognised type name UndefinedType"}"#)
    );
}

#[test]
fn compile_other_errors_have_messages() {
    assert_eq!(
        compile("type A int; table A (x: int);"),
        json(r#"{"err": "Symbol A is already assigned!"}"#)
    );
    assert_eq!(compile("table T (a: int"), json(r#"{"err": "Schema ended prematurely."}"#));
    assert_eq!(
        compile("table T (a: int); @"),
        json(r#"{"err": "Unmatched input at position 18"}"#)
    );
    assert_eq!(
        compile("table T (a: str<1, 2> = \"abc\");"),
        json(r#"{"err": "Default value is not a value of the column's type."}"#)
    );
}

#[test]
fn compile_all_families_and_marks() {
    let actual = compile(
        "type score dbl<0.5, 100>?;
         table Users (name: str<2, 32> = \"anon\", rank: score = 1.25, n: int<-3, 7>?);
         table Empty (x: dbl);",
    );
    let expected = json(
        r#"{"tables": {
            "Users": {"columns": {
                "name": {"column_type": {"super": "str", "min": 2, "max": 32, "nullable": false},
                         "default_value": "anon"},
                "rank": {"column_type": {"super": "dbl", "min": 0.5, "max": 100.0, "nullable": true},
                         "default_value": 1.25},
                "n": {"column_type": {"super": "int", "min": -3, "max": 7, "nullable": true}}}},
            "Empty": {"columns": {
                "x": {"column_type": {"super": "dbl", "min": null, "max": null, "nullable": false}}}}
        }}"#,
    );
    assert_eq!(actual, expected);
}

#[test]
fn literal_to_json() {
    assert_eq!(Literal::Int(-12).to_json(), json("-12"));
    assert_eq!(Literal::Str("a b".to_string()).to_json(), json("\"a b\""));
    assert_eq!(Literal::Dbl(parse_decimal("2.50").unwrap()).to_json(), json("2.5"));
    assert_eq!(Literal::Dbl(parse_decimal("7").unwrap()).to_json(), json("7.0"));
    assert_ne!(Literal::Dbl(parse_decimal("7").unwrap()).to_json(), json("7"));
    assert_eq!(Literal::Dbl(parse_decimal("-0.125").unwrap()).to_json(), json("-0.125"));
}

#[test]
fn decimal_too_large_for_json_is_null() {
    let mut text = String::from("1");
    for _ in 0..400 {
        text.push('0');
    }
    text.push_str(".5");
    assert_eq!(parse_decimal(&text).unwrap().to_json(), Value::Null);
}
