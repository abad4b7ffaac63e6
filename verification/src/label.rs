//! The name under which a module's gauges are exported.

use vstd::prelude::*;
use vstd::string::StringExecFns;

verus! {

/// The character of a decimal digit.
pub open spec fn digit_char(d: nat) -> char {
    if d == 0 {
        '0'
    } else if d == 1 {
        '1'
    } else if d == 2 {
        '2'
    } else if d == 3 {
        '3'
    } else if d == 4 {
        '4'
    } else if d == 5 {
        '5'
    } else if d == 6 {
        '6'
    } else if d == 7 {
        '7'
    } else if d == 8 {
        '8'
    } else {
        '9'
    }
}

/// The decimal numeral of `n`, without leading zeros.
pub open spec fn decimal_of(n: nat) -> Seq<char>
    decreases n,
{
    if n < 10 {
        seq![digit_char(n)]
    } else {
        decimal_of(n / 10).push(digit_char(n % 10))
    }
}

/// The name of the module with one-based index `index`: the letter `A`, then
/// the index in decimal.
pub open spec fn label_of(index: nat) -> Seq<char> {
    seq!['A'] + decimal_of(index)
}

fn digit_text(d: usize) -> (t: &'static str)
    requires
        d < 10,
    ensures
        t@ == seq![digit_char(d as nat)],
{
    proof {
        reveal_strlit("0");
        reveal_strlit("1");
        reveal_strlit("2");
        reveal_strlit("3");
        reveal_strlit("4");
        reveal_strlit("5");
        reveal_strlit("6");
        reveal_strlit("7");
        reveal_strlit("8");
        reveal_strlit("9");
    }
    let t: &'static str = if d == 0 {
        "0"
    } else if d == 1 {
        "1"
    } else if d == 2 {
        "2"
    } else if d == 3 {
        "3"
    } else if d == 4 {
        "4"
    } else if d == 5 {
        "5"
    } else if d == 6 {
        "6"
    } else if d == 7 {
        "7"
    } else if d == 8 {
        "8"
    } else {
        "9"
    };
    assert(t@ =~= seq![digit_char(d as nat)]);
    t
}

/// Appends the decimal numeral of `n` to `out`.
fn push_decimal(out: &mut String, n: usize)
    ensures
        final(out)@ == old(out)@ + decimal_of(n as nat),
    decreases n,
{
    if n >= 10 {
        push_decimal(out, n / 10);
    }
    out.append(digit_text(n % 10));
    assert(out@ =~= old(out)@ + decimal_of(n as nat));
}

/// Renders the name of the module with one-based index `index`.
pub fn module_label(index: usize) -> (name: String)
    ensures
        name@ == label_of(index as nat),
{
    proof {
        reveal_strlit("A");
    }
    let mut name: String = String::from_str("A");
    assert(name@ =~= seq!['A']);
    push_decimal(&mut name, index);
    name
}

/// A numeral has a digit, and more than one from ten on.
pub proof fn lemma_decimal_length(n: nat)
    ensures
        decimal_of(n).len() >= 1,
        n >= 10 ==> decimal_of(n).len() >= 2,
    decreases n,
{
    if n >= 10 {
        lemma_decimal_length(n / 10);
    }
}

/// Two numbers with the same numeral are the same number.
pub proof fn lemma_decimal_is_injective(a: nat, b: nat)
    requires
        decimal_of(a) == decimal_of(b),
    ensures
        a == b,
    decreases a,
{
    lemma_decimal_length(a);
    lemma_decimal_length(b);
    if a < 10 && b < 10 {
        assert(decimal_of(a)[0] == digit_char(a));
        assert(decimal_of(b)[0] == digit_char(b));
    } else if a >= 10 && b >= 10 {
        let (da, db) = (decimal_of(a / 10), decimal_of(b / 10));
        let (la, lb) = (digit_char(a % 10), digit_char(b % 10));
        assert(decimal_of(a) == da.push(la));
        assert(decimal_of(b) == db.push(lb));
        assert(da.push(la).drop_last() =~= da);
        assert(db.push(lb).drop_last() =~= db);
        assert(da.push(la).last() == la);
        assert(db.push(lb).last() == lb);
        lemma_decimal_is_injective(a / 10, b / 10);
        assert(a % 10 == b % 10);
    }
}

/// Two modules with the same name are the same module: each name stands for
/// one gauge of a family.
pub proof fn lemma_label_is_injective(a: nat, b: nat)
    requires
        label_of(a) == label_of(b),
    ensures
        a == b,
{
    assert(label_of(a).subrange(1, label_of(a).len() as int) =~= decimal_of(a));
    assert(label_of(b).subrange(1, label_of(b).len() as int) =~= decimal_of(b));
    lemma_decimal_is_injective(a, b);
}

} // verus!
