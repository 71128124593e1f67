//! Tests for the per-type coercion rules on plain values.

use typecoerce::{coerce, coerce_boolean, coerce_varchar, CellOut, DataType};

#[test]
fn varchar_truncates_long_values() {
    assert_eq!(coerce_varchar(3, "hello"), "hel".to_string());
}

#[test]
fn varchar_keeps_short_values() {
    assert_eq!(coerce_varchar(10, "hi"), "hi".to_string());
    assert_eq!(coerce_varchar(5, ""), "".to_string());
}

#[test]
fn varchar_counts_characters_not_bytes() {
    // Two-byte characters: one character must survive, not half of one.
    assert_eq!(coerce_varchar(1, "éé"), "é".to_string());
    assert_eq!(coerce_varchar(2, "αβγ"), "αβ".to_string());
}

#[test]
fn varchar_zero_length_empties_everything() {
    assert_eq!(coerce_varchar(0, "hello"), "".to_string());
}

#[test]
fn boolean_accepts_true_tokens() {
    assert_eq!(coerce_boolean("YES"), "true".to_string());
    assert_eq!(coerce_boolean("true"), "true".to_string());
    assert_eq!(coerce_boolean("1"), "true".to_string());
    assert_eq!(coerce_boolean(" TRUE "), "true".to_string());
}

#[test]
fn boolean_accepts_false_tokens() {
    assert_eq!(coerce_boolean("0"), "false".to_string());
    assert_eq!(coerce_boolean("no"), "false".to_string());
    assert_eq!(coerce_boolean("False"), "false".to_string());
    assert_eq!(coerce_boolean("\tfalse\n"), "false".to_string());
}

#[test]
fn boolean_rejects_everything_else() {
    assert_eq!(coerce_boolean("maybe"), "".to_string());
    assert_eq!(coerce_boolean(""), "".to_string());
    assert_eq!(coerce_boolean("2"), "".to_string());
    assert_eq!(coerce_boolean("yes no"), "".to_string());
}

#[test]
fn coerce_dispatches_varchar_and_boolean() {
    assert_eq!(
        coerce(&DataType::Varchar(3), "hello"),
        CellOut::Ready("hel".to_string())
    );
    assert_eq!(
        coerce(&DataType::Boolean, "YES"),
        CellOut::Ready("true".to_string())
    );
}

#[test]
fn coerce_hands_numeric_cells_onward() {
    // The integer and float rules go through floating point, outside this
    // library: the engine hands the raw value on untouched.
    assert_eq!(
        coerce(&DataType::Integer, "2.5"),
        CellOut::PendingInteger("2.5".to_string())
    );
    assert_eq!(
        coerce(&DataType::Float, "1.25"),
        CellOut::PendingFloat("1.25".to_string())
    );
}
