//! Character-level helpers: extracting the characters of a string,
//! ASCII case folding, and trimming white space.

use vstd::prelude::*;
use vstd::string::StrSliceExecFns;

verus! {

/// The lower-case form of one character: ASCII capital letters fold to
/// their lower-case counterpart, every other character is unchanged.
pub open spec fn lower_char(c: char) -> char {
    match c {
        'A' => 'a',
        'B' => 'b',
        'C' => 'c',
        'D' => 'd',
        'E' => 'e',
        'F' => 'f',
        'G' => 'g',
        'H' => 'h',
        'I' => 'i',
        'J' => 'j',
        'K' => 'k',
        'L' => 'l',
        'M' => 'm',
        'N' => 'n',
        'O' => 'o',
        'P' => 'p',
        'Q' => 'q',
        'R' => 'r',
        'S' => 's',
        'T' => 't',
        'U' => 'u',
        'V' => 'v',
        'W' => 'w',
        'X' => 'x',
        'Y' => 'y',
        'Z' => 'z',
        _ => c,
    }
}

/// `s` with every character folded by `lower_char`.
pub open spec fn lower_seq(s: Seq<char>) -> Seq<char> {
    Seq::new(s.len(), |i: int| lower_char(s[i]))
}

/// Whether `c` has the Unicode `White_Space` property.
pub open spec fn is_ws(c: char) -> bool {
    ||| c == '\u{9}'
    ||| c == '\u{a}'
    ||| c == '\u{b}'
    ||| c == '\u{c}'
    ||| c == '\u{d}'
    ||| c == ' '
    ||| c == '\u{85}'
    ||| c == '\u{a0}'
    ||| c == '\u{1680}'
    ||| c == '\u{2000}'
    ||| c == '\u{2001}'
    ||| c == '\u{2002}'
    ||| c == '\u{2003}'
    ||| c == '\u{2004}'
    ||| c == '\u{2005}'
    ||| c == '\u{2006}'
    ||| c == '\u{2007}'
    ||| c == '\u{2008}'
    ||| c == '\u{2009}'
    ||| c == '\u{200a}'
    ||| c == '\u{2028}'
    ||| c == '\u{2029}'
    ||| c == '\u{202f}'
    ||| c == '\u{205f}'
    ||| c == '\u{3000}'
}

/// The first index at or after `i` holding a character that is not white
/// space, or the length of `s` when only white space follows.
pub open spec fn ltrim_idx(s: Seq<char>, i: int) -> int
    recommends
        0 <= i <= s.len(),
    decreases s.len() - i,
{
    if i < s.len() && is_ws(s[i]) {
        ltrim_idx(s, i + 1)
    } else {
        i
    }
}

/// The index just past the last character before `j` that is not white
/// space, or zero when only white space precedes `j`.
pub open spec fn rtrim_idx(s: Seq<char>, j: int) -> int
    recommends
        0 <= j <= s.len(),
    decreases j,
{
    if j > 0 && is_ws(s[j - 1]) {
        rtrim_idx(s, j - 1)
    } else {
        j
    }
}

/// `s` without leading or trailing white space.
pub open spec fn trim_seq(s: Seq<char>) -> Seq<char> {
    let a = ltrim_idx(s, 0);
    let b = rtrim_idx(s, s.len() as int);
    if a <= b {
        s.subrange(a, b)
    } else {
        Seq::empty()
    }
}

/// Exec form of `lower_char`.
pub fn ascii_lower(c: char) -> (r: char)
    ensures
        r == lower_char(c),
{
    match c {
        'A' => 'a',
        'B' => 'b',
        'C' => 'c',
        'D' => 'd',
        'E' => 'e',
        'F' => 'f',
        'G' => 'g',
        'H' => 'h',
        'I' => 'i',
        'J' => 'j',
        'K' => 'k',
        'L' => 'l',
        'M' => 'm',
        'N' => 'n',
        'O' => 'o',
        'P' => 'p',
        'Q' => 'q',
        'R' => 'r',
        'S' => 's',
        'T' => 't',
        'U' => 'u',
        'V' => 'v',
        'W' => 'w',
        'X' => 'x',
        'Y' => 'y',
        'Z' => 'z',
        _ => c,
    }
}

/// Exec form of `is_ws`.
pub fn is_whitespace_char(c: char) -> (r: bool)
    ensures
        r == is_ws(c),
{
    c == '\u{9}' || c == '\u{a}' || c == '\u{b}' || c == '\u{c}' || c == '\u{d}' || c == ' '
        || c == '\u{85}' || c == '\u{a0}' || c == '\u{1680}' || c == '\u{2000}' || c == '\u{2001}'
        || c == '\u{2002}' || c == '\u{2003}' || c == '\u{2004}' || c == '\u{2005}'
        || c == '\u{2006}' || c == '\u{2007}' || c == '\u{2008}' || c == '\u{2009}'
        || c == '\u{200a}' || c == '\u{2028}' || c == '\u{2029}' || c == '\u{202f}'
        || c == '\u{205f}' || c == '\u{3000}'
}

/// The characters of `s`, as a vector.
pub fn chars_of(s: &str) -> (v: Vec<char>)
    ensures
        v@ == s@,
{
    let n = s.unicode_len();
    let mut v: Vec<char> = Vec::new();
    let mut i: usize = 0;
    while i < n
        invariant
            n == s@.len(),
            i <= n,
            v@ == s@.take(i as int),
        decreases n - i,
    {
        v.push(s.get_char(i));
        i = i + 1;
        proof {
            assert(v@ =~= s@.take(i as int));
        }
    }
    proof {
        assert(s@.take(n as int) =~= s@);
    }
    v
}

/// `v` with every character folded by `lower_char`.
pub fn lower_vec(v: &Vec<char>) -> (w: Vec<char>)
    ensures
        w@ == lower_seq(v@),
{
    let n = v.len();
    let mut w: Vec<char> = Vec::new();
    let mut i: usize = 0;
    while i < n
        invariant
            n == v@.len(),
            i <= n,
            w@.len() == i,
            forall|k: int| 0 <= k < i ==> w@[k] == lower_char(v@[k]),
        decreases n - i,
    {
        w.push(ascii_lower(v[i]));
        i = i + 1;
    }
    proof {
        assert(w@ =~= lower_seq(v@));
    }
    w
}

/// Whether the characters of `v` between `from` and `to` spell exactly `lit`.
pub fn range_eq_str(v: &Vec<char>, from: usize, to: usize, lit: &str) -> (b: bool)
    requires
        from <= to <= v@.len(),
    ensures
        b == (v@.subrange(from as int, to as int) == lit@),
{
    let n = lit.unicode_len();
    if to - from != n {
        proof {
            assert(v@.subrange(from as int, to as int).len() == to - from);
        }
        return false;
    }
    let mut i: usize = 0;
    while i < n
        invariant
            from <= to <= v@.len(),
            n == lit@.len(),
            to - from == n,
            i <= n,
            forall|k: int| 0 <= k < i ==> v@[from + k] == lit@[k],
        decreases n - i,
    {
        if v[from + i] != lit.get_char(i) {
            proof {
                assert(v@.subrange(from as int, to as int)[i as int] == v@[from + i]);
            }
            return false;
        }
        i = i + 1;
    }
    proof {
        assert(v@.subrange(from as int, to as int) =~= lit@);
    }
    true
}

/// Whether the characters of `v` spell exactly `lit`.
pub fn vec_eq_str(v: &Vec<char>, lit: &str) -> (b: bool)
    ensures
        b == (v@ == lit@),
{
    let b = range_eq_str(v, 0, v.len(), lit);
    proof {
        assert(v@.subrange(0, v@.len() as int) =~= v@);
    }
    b
}

/// The bounds of the content of `v` once surrounding white space is
/// removed: the trimmed content is `v@.subrange(r.0 as int, r.1 as int)`.
pub fn trim_bounds(v: &Vec<char>) -> (r: (usize, usize))
    ensures
        r.0 <= r.1 <= v@.len(),
        v@.subrange(r.0 as int, r.1 as int) == trim_seq(v@),
{
    let n = v.len();
    let mut a: usize = 0;
    while a < n && is_whitespace_char(v[a])
        invariant
            n == v@.len(),
            a <= n,
            ltrim_idx(v@, 0) == ltrim_idx(v@, a as int),
        decreases n - a,
    {
        proof {
            assert(ltrim_idx(v@, a as int) == ltrim_idx(v@, a + 1));
        }
        a = a + 1;
    }
    proof {
        assert(ltrim_idx(v@, a as int) == a);
    }
    let mut b: usize = n;
    while b > 0 && is_whitespace_char(v[b - 1])
        invariant
            n == v@.len(),
            b <= n,
            rtrim_idx(v@, n as int) == rtrim_idx(v@, b as int),
        decreases b,
    {
        proof {
            assert(rtrim_idx(v@, b as int) == rtrim_idx(v@, b - 1));
        }
        b = b - 1;
    }
    proof {
        assert(rtrim_idx(v@, b as int) == b);
    }
    if a <= b {
        (a, b)
    } else {
        proof {
            assert(v@.subrange(0, 0) =~= Seq::<char>::empty());
        }
        (0, 0)
    }
}

} // verus!
