//! The field coercion engine: one deterministic conversion per declared
//! type, total over its inputs, with the empty string as the uniform
//! result of a failed conversion.

use vstd::prelude::*;
use vstd::string::StrSliceExecFns;

use crate::numparse::{spec_parse_i64, parse_i64};
use crate::text::{ascii_lower, chars_of, lower_char, lower_seq, range_eq_str, trim_bounds,
    trim_seq, vec_eq_str};
use crate::timefmt::{chrono_date_canon, chrono_epoch_canon, chrono_timestamp_canon,
    chrono_timestamptz_canon, date_canon, epoch_canon, timestamp_canon, timestamptz_canon};
use crate::types::DataType;

verus! {

/// A transformed cell. Cells declared `Integer` or `Float` carry their
/// raw value onward: those two rules go through floating point, which
/// stays outside this library, with the numeric collaborator.
#[derive(Clone, Debug, PartialEq, Eq)]
pub enum CellOut {
    /// The final text of the cell.
    Ready(String),
    /// The raw value of a cell declared `Integer`, for the numeric
    /// collaborator.
    PendingInteger(String),
    /// The raw value of a cell declared `Float`, for the numeric
    /// collaborator.
    PendingFloat(String),
}

/// The spec-level image of `CellOut`.
pub enum CellV {
    Ready(Seq<char>),
    PendingInteger(Seq<char>),
    PendingFloat(Seq<char>),
}

impl View for CellOut {
    type V = CellV;

    open spec fn view(&self) -> CellV {
        match self {
            CellOut::Ready(s) => CellV::Ready(s@),
            CellOut::PendingInteger(s) => CellV::PendingInteger(s@),
            CellOut::PendingFloat(s) => CellV::PendingFloat(s@),
        }
    }
}

/// The first `n` characters of `s`; all of `s` when it is shorter.
pub open spec fn spec_truncate(s: Seq<char>, n: int) -> Seq<char> {
    if s.len() <= n {
        s
    } else {
        s.subrange(0, n)
    }
}

/// The boolean rule: the value, trimmed of surrounding white space and
/// lower-cased, is matched against the recognized tokens; failing that,
/// the exact literals `true` and `false` are accepted untrimmed; anything
/// else gives the empty string.
pub open spec fn spec_coerce_boolean(s: Seq<char>) -> Seq<char> {
    let norm = lower_seq(trim_seq(s));
    if norm == "true"@ || norm == "yes"@ || norm == "1"@ {
        "true"@
    } else if norm == "false"@ || norm == "no"@ || norm == "0"@ {
        "false"@
    } else if s == "true"@ {
        "true"@
    } else if s == "false"@ {
        "false"@
    } else {
        Seq::empty()
    }
}

/// The timestamp rule: the canonical rendering, or the empty string when
/// the value does not parse.
pub open spec fn spec_coerce_timestamp(s: Seq<char>) -> Seq<char> {
    match timestamp_canon(s) {
        Some(t) => t,
        None => Seq::empty(),
    }
}

/// The zoned timestamp rule: the canonical rendering; when the value does
/// not parse as a zoned date and time, it is read as a count of epoch
/// seconds and rendered in UTC; when both fail, the empty string.
pub open spec fn spec_coerce_timestamptz(s: Seq<char>) -> Seq<char> {
    match timestamptz_canon(s) {
        Some(t) => t,
        None => match spec_parse_i64(s) {
            Some(secs) => match epoch_canon(secs) {
                Some(t) => t,
                None => Seq::empty(),
            },
            None => Seq::empty(),
        },
    }
}

/// The date rule: the canonical rendering, or the empty string when the
/// value does not parse.
pub open spec fn spec_coerce_date(s: Seq<char>) -> Seq<char> {
    match date_canon(s) {
        Some(t) => t,
        None => Seq::empty(),
    }
}

/// What coercion produces for a raw value of each declared type.
pub open spec fn spec_coerce(dt: DataType, s: Seq<char>) -> CellV {
    match dt {
        DataType::Varchar(n) => CellV::Ready(spec_truncate(s, n as int)),
        DataType::Integer => CellV::PendingInteger(s),
        DataType::Float => CellV::PendingFloat(s),
        DataType::Boolean => CellV::Ready(spec_coerce_boolean(s)),
        DataType::Timestamp => CellV::Ready(spec_coerce_timestamp(s)),
        DataType::Timestamptz => CellV::Ready(spec_coerce_timestamptz(s)),
        DataType::Date => CellV::Ready(spec_coerce_date(s)),
    }
}

/// Cuts `raw` to its first `max_len` characters, counted in characters,
/// not in underlying bytes.
pub fn coerce_varchar(max_len: usize, raw: &str) -> (r: String)
    ensures
        r@ == spec_truncate(raw@, max_len as int),
{
    let n = raw.unicode_len();
    let k = if max_len < n {
        max_len
    } else {
        n
    };
    let r = raw.substring_char(0, k).to_owned();
    proof {
        if raw@.len() <= max_len {
            assert(raw@.subrange(0, k as int) =~= raw@);
        }
    }
    r
}

/// Applies the boolean rule to `raw`.
pub fn coerce_boolean(raw: &str) -> (r: String)
    ensures
        r@ == spec_coerce_boolean(raw@),
{
    let cs = chars_of(raw);
    let (a, b) = trim_bounds(&cs);
    let mut norm: Vec<char> = Vec::new();
    let mut i = a;
    while i < b
        invariant
            a <= i <= b <= cs@.len(),
            norm@.len() == i - a,
            forall|k: int| 0 <= k < i - a ==> norm@[k] == lower_char(cs@[a + k]),
        decreases b - i,
    {
        norm.push(ascii_lower(cs[i]));
        i = i + 1;
    }
    proof {
        assert(norm@ =~= lower_seq(cs@.subrange(a as int, b as int)));
        assert(norm@ == lower_seq(trim_seq(raw@)));
    }
    if range_true(&norm) {
        "true".to_owned()
    } else if range_false(&norm) {
        "false".to_owned()
    } else if vec_eq_str(&cs, "true") {
        "true".to_owned()
    } else if vec_eq_str(&cs, "false") {
        "false".to_owned()
    } else {
        String::new()
    }
}

/// Whether `norm` spells one of the tokens accepted as true.
fn range_true(norm: &Vec<char>) -> (r: bool)
    ensures
        r == (norm@ == "true"@ || norm@ == "yes"@ || norm@ == "1"@),
{
    vec_eq_str(norm, "true") || vec_eq_str(norm, "yes") || vec_eq_str(norm, "1")
}

/// Whether `norm` spells one of the tokens accepted as false.
fn range_false(norm: &Vec<char>) -> (r: bool)
    ensures
        r == (norm@ == "false"@ || norm@ == "no"@ || norm@ == "0"@),
{
    vec_eq_str(norm, "false") || vec_eq_str(norm, "no") || vec_eq_str(norm, "0")
}

/// Applies the timestamp rule to `raw`.
pub fn coerce_timestamp(raw: &str) -> (r: String)
    ensures
        r@ == spec_coerce_timestamp(raw@),
{
    match chrono_timestamp_canon(raw) {
        Some(t) => t,
        None => String::new(),
    }
}

/// Applies the zoned timestamp rule to `raw`.
pub fn coerce_timestamptz(raw: &str) -> (r: String)
    ensures
        r@ == spec_coerce_timestamptz(raw@),
{
    match chrono_timestamptz_canon(raw) {
        Some(t) => t,
        None => match parse_i64(raw) {
            Some(secs) => match chrono_epoch_canon(secs) {
                Some(t) => t,
                None => String::new(),
            },
            None => String::new(),
        },
    }
}

/// Applies the date rule to `raw`.
pub fn coerce_date(raw: &str) -> (r: String)
    ensures
        r@ == spec_coerce_date(raw@),
{
    match chrono_date_canon(raw) {
        Some(t) => t,
        None => String::new(),
    }
}

/// Coerces one raw value to its declared type.
pub fn coerce(dt: &DataType, raw: &str) -> (c: CellOut)
    ensures
        c@ == spec_coerce(*dt, raw@),
{
    match dt {
        DataType::Varchar(n) => CellOut::Ready(coerce_varchar(*n, raw)),
        DataType::Integer => CellOut::PendingInteger(raw.to_owned()),
        DataType::Float => CellOut::PendingFloat(raw.to_owned()),
        DataType::Boolean => CellOut::Ready(coerce_boolean(raw)),
        DataType::Timestamp => CellOut::Ready(coerce_timestamp(raw)),
        DataType::Timestamptz => CellOut::Ready(coerce_timestamptz(raw)),
        DataType::Date => CellOut::Ready(coerce_date(raw)),
    }
}

/// Varchar truncation keeps exactly the first characters: the result of
/// the varchar rule has the length of the raw value capped at the declared
/// length, and each of its characters is the raw value's character at the
/// same position.
pub proof fn lemma_varchar_truncation(n: usize, s: Seq<char>)
    ensures
        spec_coerce(DataType::Varchar(n), s) == CellV::Ready(spec_truncate(s, n as int)),
        spec_truncate(s, n as int).len() == if s.len() <= n {
            s.len() as int
        } else {
            n as int
        },
        forall|i: int|
            0 <= i < spec_truncate(s, n as int).len() ==> spec_truncate(s, n as int)[i] == s[i],
{
}

/// The boolean rule normalizes: a value whose trimmed, lower-cased form
/// spells an accepted token comes out as the token's truth value, and a
/// value that matches nothing comes out empty.
pub proof fn lemma_boolean_normalization(s: Seq<char>)
    ensures
        (lower_seq(trim_seq(s)) == "true"@ || lower_seq(trim_seq(s)) == "yes"@ || lower_seq(
            trim_seq(s),
        ) == "1"@) ==> spec_coerce_boolean(s) == "true"@,
        (lower_seq(trim_seq(s)) == "false"@ || lower_seq(trim_seq(s)) == "no"@ || lower_seq(
            trim_seq(s),
        ) == "0"@) ==> spec_coerce_boolean(s) == "false"@,
        (lower_seq(trim_seq(s)) != "true"@ && lower_seq(trim_seq(s)) != "yes"@ && lower_seq(
            trim_seq(s),
        ) != "1"@ && lower_seq(trim_seq(s)) != "false"@ && lower_seq(trim_seq(s)) != "no"@
            && lower_seq(trim_seq(s)) != "0"@ && s != "true"@ && s != "false"@)
            ==> spec_coerce_boolean(s) == Seq::<char>::empty(),
{
    reveal_strlit("true");
    reveal_strlit("false");
    reveal_strlit("yes");
    reveal_strlit("no");
    reveal_strlit("1");
    reveal_strlit("0");
    let norm = lower_seq(trim_seq(s));
    if norm == "false"@ || norm == "no"@ || norm == "0"@ {
        assert(norm != "true"@ && norm != "yes"@ && norm != "1"@) by {
            assert("true"@.len() == 4 && "yes"@.len() == 3 && "1"@.len() == 1);
            assert("false"@.len() == 5 && "no"@.len() == 2 && "0"@.len() == 1);
            assert("0"@[0] == '0' && "1"@[0] == '1');
        }
    }
}

} // verus!
