//! Tests for the type declaration parser.

use typecoerce::{parse_data_type, DataType, ParseTypeError};

#[test]
fn parses_integer_any_case() {
    assert_eq!(parse_data_type("integer"), Ok(DataType::Integer));
    assert_eq!(parse_data_type("Integer"), Ok(DataType::Integer));
    assert_eq!(parse_data_type("INTEGER"), Ok(DataType::Integer));
}

#[test]
fn parses_float_any_case() {
    assert_eq!(parse_data_type("float"), Ok(DataType::Float));
    assert_eq!(parse_data_type("FLOAT"), Ok(DataType::Float));
}

#[test]
fn parses_boolean_any_case() {
    assert_eq!(parse_data_type("boolean"), Ok(DataType::Boolean));
    assert_eq!(parse_data_type("Boolean"), Ok(DataType::Boolean));
}

#[test]
fn parses_timestamp_any_case() {
    assert_eq!(parse_data_type("timestamp"), Ok(DataType::Timestamp));
    assert_eq!(parse_data_type("TIMESTAMP"), Ok(DataType::Timestamp));
}

#[test]
fn parses_timestamptz_any_case() {
    assert_eq!(parse_data_type("timestamptz"), Ok(DataType::Timestamptz));
    assert_eq!(parse_data_type("TimestampTZ"), Ok(DataType::Timestamptz));
}

#[test]
fn parses_date_any_case() {
    assert_eq!(parse_data_type("date"), Ok(DataType::Date));
    assert_eq!(parse_data_type("DATE"), Ok(DataType::Date));
}

#[test]
fn parses_varchar_with_length() {
    assert_eq!(parse_data_type("varchar(10)"), Ok(DataType::Varchar(10)));
    assert_eq!(parse_data_type("VARCHAR(0)"), Ok(DataType::Varchar(0)));
    assert_eq!(parse_data_type("Varchar(7)"), Ok(DataType::Varchar(7)));
    assert_eq!(parse_data_type("varchar(+5)"), Ok(DataType::Varchar(5)));
}

#[test]
fn rejects_varchar_with_bad_length() {
    assert_eq!(
        parse_data_type("varchar(abc)"),
        Err(ParseTypeError::InvalidLength("varchar(abc)".to_string()))
    );
    assert_eq!(
        parse_data_type("varchar()"),
        Err(ParseTypeError::InvalidLength("varchar()".to_string()))
    );
    assert_eq!(
        parse_data_type("varchar(1 0)"),
        Err(ParseTypeError::InvalidLength("varchar(1 0)".to_string()))
    );
}

#[test]
fn rejects_unrecognized_names() {
    assert_eq!(
        parse_data_type("enum"),
        Err(ParseTypeError::UnrecognizedType("enum".to_string()))
    );
    assert_eq!(
        parse_data_type(""),
        Err(ParseTypeError::UnrecognizedType("".to_string()))
    );
    assert_eq!(
        parse_data_type("varchar(3"),
        Err(ParseTypeError::UnrecognizedType("varchar(3".to_string()))
    );
    assert_eq!(
        parse_data_type(" integer"),
        Err(ParseTypeError::UnrecognizedType(" integer".to_string()))
    );
}
