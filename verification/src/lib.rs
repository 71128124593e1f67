//! Schema-driven coercion of tabular string data.
//!
//! A schema maps field names to declared column types and fixes the output
//! column order. The engine turns each input record into an output row in
//! schema order, coercing every value to the canonical rendering of its
//! declared type; an empty string stands uniformly for an absent field or a
//! failed coercion.

pub mod coerce;
pub mod numparse;
pub mod schema;
pub mod text;
pub mod timefmt;
pub mod types;

pub use coerce::{coerce, coerce_boolean, coerce_date, coerce_timestamp, coerce_timestamptz,
    coerce_varchar, CellOut};
pub use schema::Schema;
pub use types::{parse_data_type, DataType, ParseTypeError};
