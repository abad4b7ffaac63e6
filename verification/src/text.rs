//! Character classes and the grammar of a decimal number, over `Seq<char>`.

use vstd::prelude::*;
use vstd::std_specs::iter::IteratorSpec;

verus! {

/// The code points with the Unicode property White_Space.
pub open spec fn is_white_space(c: char) -> bool {
    let u = c as u32;
    ||| 0x09 <= u <= 0x0D
    ||| u == 0x20
    ||| u == 0x85
    ||| u == 0xA0
    ||| u == 0x1680
    ||| 0x2000 <= u <= 0x200A
    ||| u == 0x2028
    ||| u == 0x2029
    ||| u == 0x202F
    ||| u == 0x205F
    ||| u == 0x3000
}

/// A text is blank when nothing is left of it once white space is trimmed
/// from both ends, that is, when it holds white space only.
pub open spec fn is_blank(s: Seq<char>) -> bool {
    forall|i: int| 0 <= i < s.len() ==> is_white_space(#[trigger] s[i])
}

pub open spec fn is_digit(c: char) -> bool {
    '0' <= c <= '9'
}

pub open spec fn is_sign(c: char) -> bool {
    c == '+' || c == '-'
}

pub open spec fn is_exponent_mark(c: char) -> bool {
    c == 'e' || c == 'E'
}

/// Every character of `s[from..to]` is a decimal digit.
pub open spec fn digits_in(s: Seq<char>, from: int, to: int) -> bool {
    forall|i: int| from <= i < to ==> is_digit(#[trigger] s[i])
}

/// `s[from..to]` is `Digit+`, `Digit+ '.' Digit*` or `Digit* '.' Digit+`.
pub open spec fn mantissa_in(s: Seq<char>, from: int, to: int) -> bool {
    ||| from < to && digits_in(s, from, to)
    ||| exists|dot: int|
        from <= dot < to && to - from >= 2 && #[trigger] s[dot] == '.' && digits_in(s, from, dot)
            && digits_in(s, dot + 1, to)
}

/// `s[from..to]` is `Sign? Digit+`, what follows an exponent mark.
pub open spec fn exponent_in(s: Seq<char>, from: int, to: int) -> bool {
    ||| from < to && digits_in(s, from, to)
    ||| from + 1 < to && is_sign(s[from]) && digits_in(s, from + 1, to)
}

/// `s[from..to]` is a mantissa, optionally followed by an exponent mark and
/// an exponent.
pub open spec fn number_in(s: Seq<char>, from: int, to: int) -> bool {
    ||| mantissa_in(s, from, to)
    ||| exists|mark: int|
        from <= mark < to && is_exponent_mark(#[trigger] s[mark]) && mantissa_in(s, from, mark)
            && exponent_in(s, mark + 1, to)
}

/// `c` is the letter `lower`, in either case. `lower` is a lower-case ASCII
/// letter.
pub open spec fn is_letter(c: char, lower: char) -> bool {
    c == lower || c as u32 + 32 == lower as u32
}

/// `s[from..to]` spells `word`, letter case aside.
pub open spec fn spells_in(s: Seq<char>, from: int, to: int, word: Seq<char>) -> bool {
    &&& to - from == word.len()
    &&& forall|i: int| 0 <= i < word.len() ==> is_letter(#[trigger] s[from + i], word[i])
}

/// `s[from..to]` is one of the words for a value that is no finite number:
/// `inf`, `infinity` or `nan`, in any letter case.
pub open spec fn special_in(s: Seq<char>, from: int, to: int) -> bool {
    ||| spells_in(s, from, to, seq!['i', 'n', 'f'])
    ||| spells_in(s, from, to, seq!['i', 'n', 'f', 'i', 'n', 'i', 't', 'y'])
    ||| spells_in(s, from, to, seq!['n', 'a', 'n'])
}

/// Where the part after an optional leading sign starts.
pub open spec fn unsigned_start(s: Seq<char>) -> int {
    if s.len() > 0 && is_sign(s[0]) {
        1
    } else {
        0
    }
}

/// The texts that denote a number:
///
/// ```text
/// Numeric ::= Sign? ( 'inf' | 'infinity' | 'nan' | Number )
/// Number  ::= ( Digit+ | Digit+ '.' Digit* | Digit* '.' Digit+ ) Exp?
/// Exp     ::= ('e' | 'E') Sign? Digit+
/// ```
pub open spec fn is_numeric(s: Seq<char>) -> bool {
    let from = unsigned_start(s);
    special_in(s, from, s.len() as int) || number_in(s, from, s.len() as int)
}

pub fn white_space(c: char) -> (b: bool)
    ensures
        b == is_white_space(c),
{
    let u: u32 = c as u32;
    (0x09 <= u && u <= 0x0D) || u == 0x20 || u == 0x85 || u == 0xA0 || u == 0x1680 || (0x2000 <= u
        && u <= 0x200A) || u == 0x2028 || u == 0x2029 || u == 0x202F || u == 0x205F || u == 0x3000
}

/// Copies the characters of `s` into a vector.
pub fn chars_of(s: &str) -> (cs: Vec<char>)
    ensures
        cs@ == s@,
{
    broadcast use vstd::string::group_string_axioms;

    let mut rest = s.chars();
    let mut cs: Vec<char> = Vec::new();
    assert(cs@ + rest.remaining() =~= s@);
    loop
        invariant
            rest.obeys_prophetic_iter_laws(),
            rest.decrease() is Some,
            cs@ + rest.remaining() == s@,
        ensures
            cs@ == s@,
        decreases rest.decrease()->0,
    {
        let ghost before = rest.remaining();
        match rest.next() {
            Some(c) => {
                cs.push(c);
                assert(cs@ + rest.remaining() =~= s@) by {
                    assert(before =~= seq![c] + before.drop_first());
                }
            },
            None => {
                assert(cs@ + before =~= cs@);
                break ;
            },
        }
    }
    cs
}

/// Tells whether `s` holds white space only.
pub fn blank(s: &str) -> (b: bool)
    ensures
        b == is_blank(s@),
{
    let cs: Vec<char> = chars_of(s);
    let mut i: usize = 0;
    while i < cs.len()
        invariant
            i <= cs.len(),
            cs@ == s@,
            forall|j: int| 0 <= j < i ==> is_white_space(#[trigger] cs@[j]),
        decreases cs.len() - i,
    {
        if !white_space(cs[i]) {
            return false;
        }
        i = i + 1;
    }
    true
}

} // verus!
