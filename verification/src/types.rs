//! The declared column types and the parser that recognizes their names.

use vstd::prelude::*;

use crate::numparse::{spec_parse_usize, parse_usize_range};
use crate::text::{chars_of, lower_seq, lower_vec, range_eq_str, vec_eq_str};

verus! {

/// A declared column type.
#[derive(Clone, Copy, Debug, PartialEq, Eq, Structural)]
pub enum DataType {
    /// Text cut to at most the given number of characters.
    Varchar(usize),
    /// A number rounded to a 32-bit signed integer.
    Integer,
    /// A 32-bit floating-point number.
    Float,
    /// A `true` / `false` value.
    Boolean,
    /// A local date and time, `YYYY-MM-DD HH:MM:SS`.
    Timestamp,
    /// A date and time with a zone offset; bare epoch seconds are accepted
    /// as a fallback.
    Timestamptz,
    /// A date, `YYYY-MM-DD`.
    Date,
}

/// Why a type declaration was rejected.
#[derive(Clone, Debug, PartialEq, Eq)]
pub enum ParseTypeError {
    /// The declaration matches none of the recognized forms; carries the
    /// offending declaration.
    UnrecognizedType(String),
    /// The declaration has the varchar form, but what stands between the
    /// parentheses is not an unsigned decimal numeral; carries the
    /// offending declaration.
    InvalidLength(String),
}

/// The spec-level image of `ParseTypeError`.
pub enum TypeErrV {
    UnrecognizedType(Seq<char>),
    InvalidLength(Seq<char>),
}

impl View for ParseTypeError {
    type V = TypeErrV;

    open spec fn view(&self) -> TypeErrV {
        match self {
            ParseTypeError::UnrecognizedType(s) => TypeErrV::UnrecognizedType(s@),
            ParseTypeError::InvalidLength(s) => TypeErrV::InvalidLength(s@),
        }
    }
}

/// What parsing a type declaration yields. Matching is case-insensitive:
/// the declaration is ASCII-lower-cased, then held first against the
/// parenthesized varchar form and then against each bare type name.
pub open spec fn spec_parse_data_type(s: Seq<char>) -> Result<DataType, TypeErrV> {
    let l = lower_seq(s);
    if l.len() >= 9 && l.subrange(0, 8) == "varchar("@ && l[l.len() - 1] == ')' {
        match spec_parse_usize(l.subrange(8, l.len() - 1)) {
            Some(n) => Ok(DataType::Varchar(n)),
            None => Err(TypeErrV::InvalidLength(s)),
        }
    } else if l == "integer"@ {
        Ok(DataType::Integer)
    } else if l == "float"@ {
        Ok(DataType::Float)
    } else if l == "boolean"@ {
        Ok(DataType::Boolean)
    } else if l == "timestamp"@ {
        Ok(DataType::Timestamp)
    } else if l == "timestamptz"@ {
        Ok(DataType::Timestamptz)
    } else if l == "date"@ {
        Ok(DataType::Date)
    } else {
        Err(TypeErrV::UnrecognizedType(s))
    }
}

/// Parses a type declaration as it stands in a schema.
pub fn parse_data_type(s: &str) -> (r: Result<DataType, ParseTypeError>)
    ensures
        (match r {
            Ok(dt) => spec_parse_data_type(s@) == Result::<DataType, TypeErrV>::Ok(dt),
            Err(e) => spec_parse_data_type(s@) == Result::<DataType, TypeErrV>::Err(e@),
        }),
{
    let cs = chars_of(s);
    let low = lower_vec(&cs);
    let n = low.len();
    if n >= 9 && range_eq_str(&low, 0, 8, "varchar(") && low[n - 1] == ')' {
        match parse_usize_range(&low, 8, n - 1) {
            Some(len) => Ok(DataType::Varchar(len)),
            None => Err(ParseTypeError::InvalidLength(s.to_owned())),
        }
    } else if vec_eq_str(&low, "integer") {
        Ok(DataType::Integer)
    } else if vec_eq_str(&low, "float") {
        Ok(DataType::Float)
    } else if vec_eq_str(&low, "boolean") {
        Ok(DataType::Boolean)
    } else if vec_eq_str(&low, "timestamp") {
        Ok(DataType::Timestamp)
    } else if vec_eq_str(&low, "timestamptz") {
        Ok(DataType::Timestamptz)
    } else if vec_eq_str(&low, "date") {
        Ok(DataType::Date)
    } else {
        Err(ParseTypeError::UnrecognizedType(s.to_owned()))
    }
}

/// Every recognized type name parses to its variant in any letter case:
/// whenever the lower-cased declaration spells a bare type name, parsing
/// returns that variant, and whenever it has the varchar form around a
/// well-formed length, parsing returns `Varchar` of that length.
pub proof fn lemma_parse_recognizes_names(s: Seq<char>)
    ensures
        lower_seq(s) == "integer"@ ==> spec_parse_data_type(s) == Result::<
            DataType,
            TypeErrV,
        >::Ok(DataType::Integer),
        lower_seq(s) == "float"@ ==> spec_parse_data_type(s) == Result::<DataType, TypeErrV>::Ok(
            DataType::Float,
        ),
        lower_seq(s) == "boolean"@ ==> spec_parse_data_type(s) == Result::<DataType, TypeErrV>::Ok(
            DataType::Boolean,
        ),
        lower_seq(s) == "timestamp"@ ==> spec_parse_data_type(s) == Result::<
            DataType,
            TypeErrV,
        >::Ok(DataType::Timestamp),
        lower_seq(s) == "timestamptz"@ ==> spec_parse_data_type(s) == Result::<
            DataType,
            TypeErrV,
        >::Ok(DataType::Timestamptz),
        lower_seq(s) == "date"@ ==> spec_parse_data_type(s) == Result::<DataType, TypeErrV>::Ok(
            DataType::Date,
        ),
        (lower_seq(s).len() >= 9 && lower_seq(s).subrange(0, 8) == "varchar("@ && lower_seq(s)[
            lower_seq(s).len() - 1
        ] == ')' && spec_parse_usize(
            lower_seq(s).subrange(8, lower_seq(s).len() - 1),
        ) is Some) ==> spec_parse_data_type(s) == Result::<DataType, TypeErrV>::Ok(
            DataType::Varchar(
                spec_parse_usize(lower_seq(s).subrange(8, lower_seq(s).len() - 1)).unwrap(),
            ),
        ),
{
    reveal_strlit("varchar(");
    reveal_strlit("integer");
    reveal_strlit("float");
    reveal_strlit("boolean");
    reveal_strlit("timestamp");
    reveal_strlit("timestamptz");
    reveal_strlit("date");
    let l = lower_seq(s);
    if l == "integer"@ {
        assert(l.len() == 7);
    }
    if l == "float"@ {
        assert(l.len() == 5);
    }
    if l == "date"@ {
        assert(l.len() == 4);
    }
    if l == "boolean"@ {
        assert(l.len() == 7);
        assert(l != "integer"@) by {
            assert("integer"@[0] == 'i');
            assert("boolean"@[0] == 'b');
        }
    }
    if l == "timestamp"@ {
        assert(l.len() == 9);
        assert(l[0] == 't');
        assert(l.subrange(0, 8) != "varchar("@) by {
            assert("varchar("@[0] == 'v');
            assert(l.subrange(0, 8)[0] == 't');
        }
    }
    if l == "timestamptz"@ {
        assert(l.len() == 11);
        assert(l[0] == 't');
        assert(l.subrange(0, 8) != "varchar("@) by {
            assert("varchar("@[0] == 'v');
            assert(l.subrange(0, 8)[0] == 't');
        }
        assert(l != "timestamp"@) by {
            assert("timestamp"@.len() == 9);
        }
    }
}

} // verus!
