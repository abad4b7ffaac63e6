//! Recognising the texts that denote a number.

use vstd::prelude::*;
use crate::text::{
    chars_of, digits_in, exponent_in, is_digit, is_exponent_mark, is_letter, is_numeric,
    mantissa_in, number_in, special_in, spells_in, unsigned_start,
};

verus! {

/// What a scan for a mantissa from `from` has found: digits up to `dot`,
/// then, if `dotted`, a point and digits up to `end`, and no digit at `end`.
spec fn mantissa_scan(s: Seq<char>, from: int, dot: int, end: int, dotted: bool) -> bool {
    &&& 0 <= from <= dot <= end <= s.len()
    &&& digits_in(s, from, dot)
    &&& end == s.len() || !is_digit(s[end])
    &&& if dotted {
        dot < end && s[dot] == '.' && digits_in(s, dot + 1, end)
    } else {
        dot == end && (end == s.len() || s[end] != '.')
    }
}

/// How many digits a mantissa scan has passed.
spec fn scanned_digits(from: int, dot: int, end: int, dotted: bool) -> int {
    if dotted {
        (dot - from) + (end - dot - 1)
    } else {
        dot - from
    }
}

/// A mantissa that starts at `from` and is followed by the end of the text
/// or by something that is neither a digit nor a point ends where the scan
/// ended, and the scan has passed a digit.
proof fn lemma_mantissa_extent(s: Seq<char>, from: int, dot: int, end: int, dotted: bool, e: int)
    requires
        mantissa_scan(s, from, dot, end, dotted),
        from <= e <= s.len(),
        mantissa_in(s, from, e),
        e == s.len() || (!is_digit(s[e]) && s[e] != '.'),
    ensures
        e == end,
        scanned_digits(from, dot, end, dotted) > 0,
{
    if from < e && digits_in(s, from, e) {
        // all digits: the scan cannot have stopped before e
        if dot < e {
            assert(is_digit(s[dot]));
        }
        if e < dot {
            assert(is_digit(s[e]));
        }
        assert(is_digit(s[from]));
    } else {
        let k = choose|k: int|
            from <= k < e && e - from >= 2 && #[trigger] s[k] == '.' && digits_in(s, from, k)
                && digits_in(s, k + 1, e);
        if dot < k {
            assert(is_digit(s[dot]));
        }
        if k < dot {
            assert(is_digit(s[k]));
        }
        assert(k == dot);
        assert(dotted);
        if end < e {
            assert(is_digit(s[end]));
        }
        if e < end {
            assert(is_digit(s[e]));
        }
        if k == from {
            assert(is_digit(s[k + 1]));
        }
    }
}

/// A scan that has passed a digit has found a mantissa.
proof fn lemma_scan_is_mantissa(s: Seq<char>, from: int, dot: int, end: int, dotted: bool)
    requires
        mantissa_scan(s, from, dot, end, dotted),
        scanned_digits(from, dot, end, dotted) > 0,
    ensures
        mantissa_in(s, from, end),
{
    if dotted {
        assert(s[dot] == '.');
    }
}

/// The first position at or after `from` that holds no digit.
fn skip_digits(cs: &Vec<char>, from: usize) -> (to: usize)
    requires
        from <= cs.len(),
    ensures
        from <= to <= cs.len(),
        digits_in(cs@, from as int, to as int),
        to == cs.len() || !is_digit(cs@[to as int]),
{
    let mut to: usize = from;
    while to < cs.len() && '0' <= cs[to] && cs[to] <= '9'
        invariant
            from <= to <= cs.len(),
            digits_in(cs@, from as int, to as int),
        decreases cs.len() - to,
    {
        to = to + 1;
    }
    to
}

/// Tells whether `cs[from..]` is a number: a mantissa with an optional
/// exponent.
fn number(cs: &Vec<char>, from: usize) -> (b: bool)
    requires
        from <= cs.len(),
    ensures
        b == number_in(cs@, from as int, cs.len() as int),
{
    let n: usize = cs.len();
    let dot: usize = skip_digits(cs, from);
    let dotted: bool = dot < n && cs[dot] == '.';
    let end: usize = if dotted {
        skip_digits(cs, dot + 1)
    } else {
        dot
    };
    let digits: usize = if dotted {
        (dot - from) + (end - dot - 1)
    } else {
        dot - from
    };
    let ghost s = cs@;
    let ghost (f, d, e) = (from as int, dot as int, end as int);
    assert(mantissa_scan(s, f, d, e, dotted));
    assert(digits == scanned_digits(f, d, e, dotted));
    // Whatever mantissa a number at `from` has, it is the one that was scanned.
    assert forall|m: int|
        f <= m <= n && mantissa_in(s, f, m) && (m == n || is_exponent_mark(#[trigger] s[m])) implies m
        == e && digits > 0 by {
        lemma_mantissa_extent(s, f, d, e, dotted, m);
    }
    if digits == 0 {
        return false;
    }
    proof {
        lemma_scan_is_mantissa(s, f, d, e, dotted);
    }
    if end == n {
        return true;
    }
    if !(cs[end] == 'e' || cs[end] == 'E') {
        assert(!mantissa_in(s, f, n as int)) by {
            if mantissa_in(s, f, n as int) {
                lemma_mantissa_extent(s, f, d, e, dotted, n as int);
            }
        }
        return false;
    }
    let after: usize = end + 1;
    let signed: bool = after < n && (cs[after] == '+' || cs[after] == '-');
    let first: usize = if signed {
        after + 1
    } else {
        after
    };
    let last: usize = skip_digits(cs, first);
    let found: bool = last > first && last == n;
    proof {
        assert(!mantissa_in(s, f, n as int)) by {
            if mantissa_in(s, f, n as int) {
                lemma_mantissa_extent(s, f, d, e, dotted, n as int);
            }
        }
        assert(found == exponent_in(s, after as int, n as int)) by {
            if last < n {
                assert(!is_digit(s[last as int]));
            }
            if signed {
                assert(!is_digit(s[after as int]));
            }
        }
        if found {
            assert(is_exponent_mark(s[e]));
        }
    }
    found
}

/// Tells whether `c` is the lower-case ASCII letter `lower` in either case.
fn letter(c: char, lower: char) -> (b: bool)
    requires
        'a' <= lower <= 'z',
    ensures
        b == is_letter(c, lower),
{
    let u: u32 = c as u32;
    let l: u32 = lower as u32;
    c == lower || (u <= 0x7f && u + 32 == l)
}

/// Tells whether `cs[from..]` is `inf`, `infinity` or `nan` in any letter
/// case.
fn special(cs: &Vec<char>, from: usize) -> (b: bool)
    requires
        from <= cs.len(),
    ensures
        b == special_in(cs@, from as int, cs.len() as int),
{
    let n: usize = cs.len() - from;
    let ghost s = cs@;
    let ghost f = from as int;
    let ghost inf = seq!['i', 'n', 'f'];
    let ghost infinity = seq!['i', 'n', 'f', 'i', 'n', 'i', 't', 'y'];
    let ghost nan = seq!['n', 'a', 'n'];
    if n == 3 {
        let is_inf: bool = letter(cs[from], 'i') && letter(cs[from + 1], 'n') && letter(
            cs[from + 2],
            'f',
        );
        let is_nan: bool = letter(cs[from], 'n') && letter(cs[from + 1], 'a') && letter(
            cs[from + 2],
            'n',
        );
        proof {
            assert(is_inf == spells_in(s, f, f + 3, inf)) by {
                assert(s[f + 0] == s[f]);
                if spells_in(s, f, f + 3, inf) {
                    assert(is_letter(s[f + 0], inf[0]));
                    assert(is_letter(s[f + 1], inf[1]));
                    assert(is_letter(s[f + 2], inf[2]));
                }
            }
            assert(is_nan == spells_in(s, f, f + 3, nan)) by {
                assert(s[f + 0] == s[f]);
                if spells_in(s, f, f + 3, nan) {
                    assert(is_letter(s[f + 0], nan[0]));
                    assert(is_letter(s[f + 1], nan[1]));
                    assert(is_letter(s[f + 2], nan[2]));
                }
            }
        }
        is_inf || is_nan
    } else if n == 8 {
        let head: bool = letter(cs[from], 'i') && letter(cs[from + 1], 'n') && letter(
            cs[from + 2],
            'f',
        ) && letter(cs[from + 3], 'i');
        let rest: bool = letter(cs[from + 4], 'n') && letter(cs[from + 5], 'i') && letter(
            cs[from + 6],
            't',
        ) && letter(cs[from + 7], 'y');
        proof {
            assert((head && rest) == spells_in(s, f, f + 8, infinity)) by {
                assert(s[f + 0] == s[f]);
                if spells_in(s, f, f + 8, infinity) {
                    assert(is_letter(s[f + 0], infinity[0]));
                    assert(is_letter(s[f + 1], infinity[1]));
                    assert(is_letter(s[f + 2], infinity[2]));
                    assert(is_letter(s[f + 3], infinity[3]));
                    assert(is_letter(s[f + 4], infinity[4]));
                    assert(is_letter(s[f + 5], infinity[5]));
                    assert(is_letter(s[f + 6], infinity[6]));
                    assert(is_letter(s[f + 7], infinity[7]));
                }
            }
        }
        head && rest
    } else {
        false
    }
}

/// Tells whether `s` denotes a number.
pub fn numeric(s: &str) -> (b: bool)
    ensures
        b == is_numeric(s@),
{
    let cs: Vec<char> = chars_of(s);
    let from: usize = if cs.len() > 0 && (cs[0] == '+' || cs[0] == '-') {
        1
    } else {
        0
    };
    assert(from == unsigned_start(s@));
    special(&cs, from) || number(&cs, from)
}

} // verus!
