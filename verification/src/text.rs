//! Decimal numbers in strings.

use vstd::prelude::*;
use vstd::string::*;

verus! {

/// The character of the decimal digit `d`.
pub open spec fn digit_char(d: nat) -> char {
    (d + 48) as char
}

/// `n` in decimal, without leading zeros.
pub open spec fn decimal_nat(n: nat) -> Seq<char>
    decreases n,
{
    if n < 10 {
        seq![digit_char(n)]
    } else {
        decimal_nat(n / 10).push(digit_char(n % 10))
    }
}

/// `n` in decimal, with a minus sign in front of a negative number.
pub open spec fn decimal(n: int) -> Seq<char> {
    if n < 0 {
        seq!['-'] + decimal_nat((-n) as nat)
    } else {
        decimal_nat(n as nat)
    }
}

fn digit_str(d: u64) -> (r: &'static str)
    requires
        d < 10,
    ensures
        r@ == seq![digit_char(d as nat)],
{
    proof {
        reveal_strlit("0");
        reveal_strlit("1");
        reveal_strlit("2");
        reveal_strlit("3");
        reveal_strlit("4");
        reveal_strlit("5");
        reveal_strlit("6");
        reveal_strlit("7");
        reveal_strlit("8");
        reveal_strlit("9");
    }
    match d {
        0 => "0",
        1 => "1",
        2 => "2",
        3 => "3",
        4 => "4",
        5 => "5",
        6 => "6",
        7 => "7",
        8 => "8",
        _ => "9",
    }
}

fn push_nat(out: &mut String, n: u64)
    ensures
        final(out)@ == old(out)@ + decimal_nat(n as nat),
    decreases n,
{
    if n >= 10 {
        push_nat(out, n / 10);
    }
    out.append(digit_str(n % 10));
}

/// Appends `n` in decimal.
pub fn push_decimal(out: &mut String, n: i64)
    ensures
        final(out)@ == old(out)@ + decimal(n as int),
{
    if n < 0 {
        proof {
            reveal_strlit("-");
        }
        out.append("-");
        if n == i64::MIN {
            push_nat(out, 9223372036854775808);
        } else {
            push_nat(out, (-n) as u64);
        }
    } else {
        push_nat(out, n as u64);
    }
}

proof fn lemma_decimal_nat_shape(n: nat)
    ensures
        decimal_nat(n).len() >= 1,
        forall|i: int| 0 <= i < decimal_nat(n).len() ==> '0' <= #[trigger] decimal_nat(n)[i] <= '9',
    decreases n,
{
    if n >= 10 {
        lemma_decimal_nat_shape(n / 10);
    }
}

/// A decimal number is made of digits and a minus sign.
pub proof fn lemma_decimal_characters(n: int)
    ensures
        decimal(n).len() >= 1,
        forall|i: int|
            0 <= i < decimal(n).len() ==> (#[trigger] decimal(n)[i] == '-' || '0' <= decimal(n)[i]
                <= '9'),
{
    if n < 0 {
        lemma_decimal_nat_shape((-n) as nat);
    } else {
        lemma_decimal_nat_shape(n as nat);
    }
}

proof fn lemma_decimal_nat_injective(a: nat, b: nat)
    requires
        decimal_nat(a) == decimal_nat(b),
    ensures
        a == b,
    decreases a,
{
    lemma_decimal_nat_shape(a / 10);
    lemma_decimal_nat_shape(b / 10);
    let s = decimal_nat(a);
    let t = decimal_nat(b);
    assert(s.last() == t.last());
    assert(a % 10 == b % 10);
    if a >= 10 && b >= 10 {
        assert(s.drop_last() =~= decimal_nat(a / 10));
        assert(t.drop_last() =~= decimal_nat(b / 10));
        lemma_decimal_nat_injective(a / 10, b / 10);
    } else if a >= 10 {
        assert(s.len() >= 2 && t.len() == 1);
    } else if b >= 10 {
        assert(t.len() >= 2 && s.len() == 1);
    }
}

/// Different numbers are written differently.
pub proof fn lemma_decimal_injective(a: int, b: int)
    requires
        decimal(a) == decimal(b),
    ensures
        a == b,
{
    if a < 0 {
        lemma_decimal_nat_shape((-a) as nat);
        assert(decimal(a)[0] == '-');
    } else {
        lemma_decimal_nat_shape(a as nat);
        assert('0' <= decimal(a)[0]);
    }
    if b < 0 {
        lemma_decimal_nat_shape((-b) as nat);
        assert(decimal(b)[0] == '-');
    } else {
        lemma_decimal_nat_shape(b as nat);
        assert('0' <= decimal(b)[0]);
    }
    if a < 0 {
        assert(decimal(a).drop_first() =~= decimal_nat((-a) as nat));
        assert(decimal(b).drop_first() =~= decimal_nat((-b) as nat));
        lemma_decimal_nat_injective((-a) as nat, (-b) as nat);
    } else {
        lemma_decimal_nat_injective(a as nat, b as nat);
    }
}

/// The number that a sequence of decimal digits stands for.
pub open spec fn digits_value(digits: Seq<char>) -> int
    decreases digits.len(),
{
    if digits.len() == 0 {
        0
    } else {
        10 * digits_value(digits.drop_last()) + (digits.last() as int - '0' as int)
    }
}

/// The number that a text stands for: decimal digits, behind a minus sign where
/// it is negative.
pub open spec fn number_of(text: Seq<char>) -> int {
    if text.len() > 0 && text[0] == '-' {
        -digits_value(text.drop_first())
    } else {
        digits_value(text)
    }
}

proof fn lemma_decimal_nat_reads_back(n: nat)
    ensures
        digits_value(decimal_nat(n)) == n,
        decimal_nat(n)[0] != '-',
        decimal_nat(n).len() > 1 ==> decimal_nat(n)[0] != '0',
        n > 0 ==> decimal_nat(n)[0] != '0',
    decreases n,
{
    lemma_decimal_nat_shape(n);
    let s = decimal_nat(n);
    if n < 10 {
        assert(s.drop_last() =~= Seq::empty());
        assert(digits_value(s.drop_last()) == 0);
    } else {
        lemma_decimal_nat_reads_back(n / 10);
        assert(s.drop_last() =~= decimal_nat(n / 10));
        assert(s[0] == decimal_nat(n / 10)[0]);
    }
}

/// A number in decimal reads back as that number, is made of digits and, where
/// it is negative, a minus sign in front, and has no zero in front of others.
pub proof fn law_decimal_reads_back(n: int)
    ensures
        number_of(decimal(n)) == n,
        decimal(n).len() > 0,
        decimal(n)[0] == '-' <==> n < 0,
        forall|i: int| 0 < i < decimal(n).len() ==> '0' <= #[trigger] decimal(n)[i] <= '9',
        decimal(n).len() > 1 ==> decimal(n)[0] != '0',
        n < 0 ==> decimal(n)[1] != '0',
{
    if n < 0 {
        let m = (-n) as nat;
        lemma_decimal_nat_reads_back(m);
        lemma_decimal_nat_shape(m);
        assert(decimal(n).drop_first() =~= decimal_nat(m));
        assert forall|i: int| 0 < i < decimal(n).len() implies '0' <= #[trigger] decimal(
            n,
        )[i] <= '9' by {
            assert(decimal(n)[i] == decimal_nat(m)[i - 1]);
        }
    } else {
        lemma_decimal_nat_reads_back(n as nat);
        lemma_decimal_nat_shape(n as nat);
    }
}

} // verus!
