//! Verified parsing of decimal numerals: the unsigned form used for
//! varchar lengths and the signed form used for epoch seconds.

use vstd::prelude::*;
use vstd::string::StrSliceExecFns;

use crate::text::chars_of;

verus! {

/// Whether `c` is an ASCII decimal digit.
pub open spec fn is_digit(c: char) -> bool {
    c == '0' || c == '1' || c == '2' || c == '3' || c == '4' || c == '5' || c == '6' || c == '7'
        || c == '8' || c == '9'
}

/// The value of an ASCII decimal digit; zero for any other character.
pub open spec fn digit_val(c: char) -> int {
    match c {
        '0' => 0,
        '1' => 1,
        '2' => 2,
        '3' => 3,
        '4' => 4,
        '5' => 5,
        '6' => 6,
        '7' => 7,
        '8' => 8,
        '9' => 9,
        _ => 0,
    }
}

/// Whether every character of `s` is an ASCII decimal digit.
pub open spec fn all_digits(s: Seq<char>) -> bool {
    forall|i: int| 0 <= i < s.len() ==> is_digit(s[i])
}

/// The value of a sequence of decimal digits, most significant first.
pub open spec fn dec_val(s: Seq<char>) -> int
    decreases s.len(),
{
    if s.len() == 0 {
        0
    } else {
        dec_val(s.drop_last()) * 10 + digit_val(s.last())
    }
}

/// The result of parsing `s` as an unsigned decimal numeral the way the
/// standard library does for unsigned integers: an optional leading plus
/// sign, then one or more digits, valued within the machine word.
pub open spec fn spec_parse_usize(s: Seq<char>) -> Option<usize> {
    let body = if s.len() > 0 && s[0] == '+' {
        s.drop_first()
    } else {
        s
    };
    if body.len() > 0 && all_digits(body) && dec_val(body) <= usize::MAX {
        Some(dec_val(body) as usize)
    } else {
        None
    }
}

/// The result of parsing `s` as a signed decimal numeral the way the
/// standard library does for 64-bit integers: an optional sign, then one
/// or more digits, valued within the 64-bit signed range.
pub open spec fn spec_parse_i64(s: Seq<char>) -> Option<int> {
    if s.len() > 0 && s[0] == '-' {
        let body = s.drop_first();
        if body.len() > 0 && all_digits(body) && -dec_val(body) >= i64::MIN {
            Some(-dec_val(body))
        } else {
            None
        }
    } else {
        let body = if s.len() > 0 && s[0] == '+' {
            s.drop_first()
        } else {
            s
        };
        if body.len() > 0 && all_digits(body) && dec_val(body) <= i64::MAX {
            Some(dec_val(body))
        } else {
            None
        }
    }
}

/// A digit sequence values no less than any of its prefixes.
pub proof fn lemma_dec_val_prefix(s: Seq<char>, k: int)
    requires
        0 <= k <= s.len(),
    ensures
        0 <= dec_val(s.take(k)) <= dec_val(s),
    decreases s.len() - k,
{
    if k == 0 {
        assert(s.take(0) =~= Seq::<char>::empty());
        lemma_dec_val_nonneg(s);
    } else if k == s.len() {
        assert(s.take(k) =~= s);
        lemma_dec_val_nonneg(s);
    } else {
        lemma_dec_val_prefix(s, k + 1);
        assert(s.take(k + 1).drop_last() =~= s.take(k));
        lemma_dec_val_nonneg(s.take(k));
    }
}

/// Digit sequences have non-negative values.
pub proof fn lemma_dec_val_nonneg(s: Seq<char>)
    ensures
        dec_val(s) >= 0,
    decreases s.len(),
{
    if s.len() > 0 {
        lemma_dec_val_nonneg(s.drop_last());
    }
}

/// Exec test for `is_digit`.
fn is_digit_char(c: char) -> (r: bool)
    ensures
        r == is_digit(c),
{
    c == '0' || c == '1' || c == '2' || c == '3' || c == '4' || c == '5' || c == '6' || c == '7'
        || c == '8' || c == '9'
}

/// Exec form of `digit_val`.
fn digit_value(c: char) -> (r: u64)
    ensures
        r == digit_val(c),
{
    match c {
        '0' => 0,
        '1' => 1,
        '2' => 2,
        '3' => 3,
        '4' => 4,
        '5' => 5,
        '6' => 6,
        '7' => 7,
        '8' => 8,
        '9' => 9,
        _ => 0,
    }
}

/// Parses the characters of `v` between `from` and `to` as an unsigned
/// decimal numeral.
#[verifier::loop_isolation(false)]
pub fn parse_usize_range(v: &Vec<char>, from: usize, to: usize) -> (r: Option<usize>)
    requires
        from <= to <= v@.len(),
    ensures
        r == spec_parse_usize(v@.subrange(from as int, to as int)),
{
    let ghost s = v@.subrange(from as int, to as int);
    let mut i = from;
    if i < to && v[i] == '+' {
        i = i + 1;
    }
    let ghost body = if s.len() > 0 && s[0] == '+' {
        s.drop_first()
    } else {
        s
    };
    proof {
        assert(body =~= v@.subrange(i as int, to as int));
    }
    if i == to {
        return None;
    }
    let ghost start = i as int;
    let mut acc: usize = 0;
    while i < to
        invariant
            from <= start <= i <= to <= v@.len(),
            body == v@.subrange(start, to as int),
            body.len() == to - start,
            acc == dec_val(body.take(i - start)),
            acc <= usize::MAX,
            forall|k: int| 0 <= k < i - start ==> is_digit(body[k]),
        decreases to - i,
    {
        let c = v[i];
        proof {
            assert(body[i - start] == c);
        }
        if !is_digit_char(c) {
            proof {
                assert(!all_digits(body)) by {
                    assert(!is_digit(body[i - start]));
                }
            }
            return None;
        }
        let d_64 = digit_value(c);
        let d: usize = d_64 as usize;
        proof {
            assert(d == digit_val(c));
        }
        let ghost k = i - start;
        proof {
            assert(body.take(k + 1).drop_last() =~= body.take(k));
            assert(dec_val(body.take(k + 1)) == dec_val(body.take(k)) * 10 + digit_val(c));
        }
        if acc > usize::MAX / 10 || (acc == usize::MAX / 10 && d > usize::MAX % 10) {
            proof {
                assert(usize::MAX == 10 * (usize::MAX / 10) + (usize::MAX % 10));
                assert(dec_val(body.take(k + 1)) > usize::MAX);
                lemma_dec_val_prefix(body, k + 1);
                assert(dec_val(body) > usize::MAX);
            }
            return None;
        }
        proof {
            assert(usize::MAX == 10 * (usize::MAX / 10) + (usize::MAX % 10));
            assert(acc * 10 + d <= usize::MAX);
        }
        acc = acc * 10 + d;
        i = i + 1;
    }
    proof {
        assert(body.take(to - start) =~= body);
    }
    Some(acc)
}

/// Parses the characters of `v` between `from` and `to` as one or more
/// decimal digits, giving the value when it fits in 64 unsigned bits.
fn parse_digits_u64(v: &Vec<char>, from: usize, to: usize) -> (r: Option<u64>)
    requires
        from <= to <= v@.len(),
    ensures
        (match r {
            Some(m) => {
                let body = v@.subrange(from as int, to as int);
                body.len() > 0 && all_digits(body) && dec_val(body) == m
            },
            None => {
                let body = v@.subrange(from as int, to as int);
                body.len() == 0 || !all_digits(body) || dec_val(body) > u64::MAX
            },
        }),
{
    let ghost body = v@.subrange(from as int, to as int);
    if from == to {
        return None;
    }
    let mut i = from;
    let mut acc: u64 = 0;
    while i < to
        invariant
            from <= i <= to <= v@.len(),
            body == v@.subrange(from as int, to as int),
            body.len() == to - from,
            acc == dec_val(body.take(i - from)),
            forall|k: int| 0 <= k < i - from ==> is_digit(body[k]),
        decreases to - i,
    {
        let c = v[i];
        proof {
            assert(body[i - from] == c);
        }
        if !is_digit_char(c) {
            return None;
        }
        let d = digit_value(c);
        let ghost k = i - from;
        proof {
            assert(body.take(k + 1).drop_last() =~= body.take(k));
            assert(dec_val(body.take(k + 1)) == dec_val(body.take(k)) * 10 + digit_val(c));
        }
        if acc > u64::MAX / 10 || (acc == u64::MAX / 10 && d > u64::MAX % 10) {
            proof {
                assert(u64::MAX == 10 * (u64::MAX / 10) + (u64::MAX % 10));
                assert(dec_val(body.take(k + 1)) > u64::MAX);
                lemma_dec_val_prefix(body, k + 1);
            }
            return None;
        }
        proof {
            assert(u64::MAX == 10 * (u64::MAX / 10) + (u64::MAX % 10));
            assert(acc * 10 + d <= u64::MAX);
        }
        acc = acc * 10 + d;
        i = i + 1;
    }
    proof {
        assert(body.take(to - from) =~= body);
    }
    Some(acc)
}

/// Parses `s` as a signed 64-bit decimal numeral.
pub fn parse_i64(s: &str) -> (r: Option<i64>)
    ensures
        (match r {
            Some(n) => spec_parse_i64(s@) == Some(n as int),
            None => spec_parse_i64(s@) is None,
        }),
{
    let v = chars_of(s);
    let n = v.len();
    if n == 0 {
        return None;
    }
    let neg = v[0] == '-';
    let signed = neg || v[0] == '+';
    let from: usize = if signed {
        1
    } else {
        0
    };
    proof {
        if signed {
            assert(v@.subrange(1, n as int) =~= v@.drop_first());
        } else {
            assert(v@.subrange(0, n as int) =~= v@);
        }
    }
    match parse_digits_u64(&v, from, n) {
        Some(m) => {
            if neg {
                if m > 9223372036854775808u64 {
                    None
                } else if m == 9223372036854775808u64 {
                    Some(i64::MIN)
                } else {
                    Some(-(m as i64))
                }
            } else {
                if m > 9223372036854775807u64 {
                    None
                } else {
                    Some(m as i64)
                }
            }
        },
        None => None,
    }
}

} // verus!
