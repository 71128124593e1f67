//! Tests for the schema and the row transformer.

use typecoerce::{CellOut, DataType, Schema};

fn strings(items: &[&str]) -> Vec<String> {
    items.iter().map(|s| s.to_string()).collect()
}

#[test]
fn missing_field_comes_out_empty() {
    let mut schema = Schema::new();
    schema.add_field("x".to_string(), DataType::Boolean);
    let header = strings(&["a"]);
    let record = strings(&["true"]);
    let row = schema.transform_row(&header, &record);
    assert_eq!(row, vec![CellOut::Ready("".to_string())]);
}

#[test]
fn row_length_always_matches_schema() {
    let mut schema = Schema::new();
    schema.add_field("a".to_string(), DataType::Boolean);
    schema.add_field("b".to_string(), DataType::Varchar(2));
    schema.add_field("c".to_string(), DataType::Date);
    let header = strings(&["c", "z"]);
    let record = strings(&["2024-01-15", "zz"]);
    let row = schema.transform_row(&header, &record);
    assert_eq!(row.len(), 3);
    assert_eq!(row[0], CellOut::Ready("".to_string()));
    assert_eq!(row[1], CellOut::Ready("".to_string()));
    assert_eq!(row[2], CellOut::Ready("2024-01-15".to_string()));
}

#[test]
fn end_to_end_row_is_reordered_and_coerced() {
    let mut schema = Schema::new();
    schema.add_field("id".to_string(), DataType::Integer);
    schema.add_field("name".to_string(), DataType::Varchar(5));
    schema.add_field("active".to_string(), DataType::Boolean);
    let header = strings(&["id", "name", "extra"]);
    let record = strings(&["7.8", "Alexandra", "z"]);
    let row = schema.transform_row(&header, &record);
    assert_eq!(
        row,
        vec![
            CellOut::PendingInteger("7.8".to_string()),
            CellOut::Ready("Alexa".to_string()),
            CellOut::Ready("".to_string()),
        ]
    );
}

#[test]
fn duplicate_schema_names_keep_both_columns_under_last_type() {
    let mut schema = Schema::new();
    schema.add_field("a".to_string(), DataType::Varchar(2));
    schema.add_field("a".to_string(), DataType::Boolean);
    let header = strings(&["a"]);
    let record = strings(&["yes"]);
    let row = schema.transform_row(&header, &record);
    assert_eq!(
        row,
        vec![
            CellOut::Ready("true".to_string()),
            CellOut::Ready("true".to_string()),
        ]
    );
}

#[test]
fn first_matching_input_column_wins() {
    let mut schema = Schema::new();
    schema.add_field("a".to_string(), DataType::Boolean);
    let header = strings(&["a", "a"]);
    let record = strings(&["YES", "no"]);
    let row = schema.transform_row(&header, &record);
    assert_eq!(row, vec![CellOut::Ready("true".to_string())]);
}

#[test]
fn record_shorter_than_header_reads_empty() {
    let mut schema = Schema::new();
    schema.add_field("b".to_string(), DataType::Boolean);
    let header = strings(&["a", "b"]);
    let record = strings(&["x"]);
    let row = schema.transform_row(&header, &record);
    assert_eq!(row, vec![CellOut::Ready("".to_string())]);
}

#[test]
fn field_names_keep_declared_order() {
    let mut schema = Schema::new();
    schema.add_field("one".to_string(), DataType::Integer);
    schema.add_field("two".to_string(), DataType::Float);
    schema.add_field("one".to_string(), DataType::Date);
    assert_eq!(schema.field_count(), 3);
    assert_eq!(schema.field_names().clone(), strings(&["one", "two", "one"]));
}
