//! Decimal digits: the text of a number, and the number that a text spells.

use vstd::prelude::*;
use vstd::string::*;

verus! {

/// The character of the digit `d`.
pub open spec fn digit_char(d: nat) -> char
    recommends
        d < 10,
{
    (d + 48) as char
}

/// Whether `c` is one of `0` to `9`.
pub open spec fn is_digit(c: char) -> bool {
    48 <= c as int <= 57
}

/// The digit that `c` shows.
pub open spec fn digit_value(c: char) -> nat
    recommends
        is_digit(c),
{
    (c as int - 48) as nat
}

/// Whether `s` holds digits only.
pub open spec fn all_digits(s: Seq<char>) -> bool {
    forall|i: int| 0 <= i < s.len() ==> is_digit(#[trigger] s[i])
}

/// Ten to the power `k`.
pub open spec fn pow10(k: nat) -> nat
    decreases k,
{
    if k == 0 {
        1
    } else {
        10 * pow10((k - 1) as nat)
    }
}

/// The digits of `n` without leading zeros; zero is written `0`.
pub open spec fn decimal(n: nat) -> Seq<char>
    decreases n,
{
    if n < 10 {
        seq![digit_char(n)]
    } else {
        decimal(n / 10).push(digit_char(n % 10))
    }
}

/// The last `width` digits of `n`, with zeros in front where `n` is short.
pub open spec fn padded(n: nat, width: nat) -> Seq<char>
    decreases width,
{
    if width == 0 {
        Seq::empty()
    } else {
        padded(n / 10, (width - 1) as nat).push(digit_char(n % 10))
    }
}

/// The text of an integer: a minus sign where it is negative, then its digits.
pub open spec fn signed_decimal(n: int) -> Seq<char> {
    if n < 0 {
        seq!['-'] + decimal((-n) as nat)
    } else {
        decimal(n as nat)
    }
}

/// The number that a run of digits spells, most significant digit first.
pub open spec fn digits_value(s: Seq<char>) -> nat
    decreases s.len(),
{
    if s.len() == 0 {
        0
    } else {
        digits_value(s.drop_last()) * 10 + digit_value(s.last())
    }
}

/// The text of a number is a run of at least one digit.
pub proof fn lemma_decimal_is_digits(n: nat)
    ensures
        decimal(n).len() >= 1,
        all_digits(decimal(n)),
    decreases n,
{
    if n >= 10 {
        lemma_decimal_is_digits(n / 10);
    }
}

/// Reading the text of a number gives the number back.
pub proof fn lemma_decimal_value(n: nat)
    ensures
        digits_value(decimal(n)) == n,
    decreases n,
{
    assert(digit_value(digit_char(n % 10)) == n % 10);
    if n < 10 {
        assert(decimal(n).drop_last() =~= Seq::<char>::empty());
        assert(digits_value(decimal(n).drop_last()) == 0);
    } else {
        lemma_decimal_value(n / 10);
        assert(decimal(n).drop_last() =~= decimal(n / 10));
    }
}

/// A padded number is `width` digits that spell it modulo ten to the `width`.
pub proof fn lemma_padded(n: nat, width: nat)
    ensures
        padded(n, width).len() == width,
        all_digits(padded(n, width)),
        digits_value(padded(n, width)) == n % pow10(width),
    decreases width,
{
    if width > 0 {
        let w = (width - 1) as nat;
        lemma_padded(n / 10, w);
        assert(padded(n, width).drop_last() =~= padded(n / 10, w));
        lemma_pow10_positive(w);
        assert(digit_value(digit_char(n % 10)) == n % 10);
        vstd::arithmetic::div_mod::lemma_breakdown(n as int, 10, pow10(w) as int);
    }
}

/// Ten to any power is at least one.
pub proof fn lemma_pow10_positive(k: nat)
    ensures
        pow10(k) >= 1,
    decreases k,
{
    if k > 0 {
        lemma_pow10_positive((k - 1) as nat);
    }
}

/// The one-character text of a digit.
fn digit_text(d: u64) -> (s: &'static str)
    requires
        d < 10,
    ensures
        s@ == seq![digit_char(d as nat)],
{
    proof {
        reveal_strlit("0");
        reveal_strlit("1");
        reveal_strlit("2");
        reveal_strlit("3");
        reveal_strlit("4");
        reveal_strlit("5");
        reveal_strlit("6");
        reveal_strlit("7");
        reveal_strlit("8");
        reveal_strlit("9");
    }
    let s = if d == 0 {
        "0"
    } else if d == 1 {
        "1"
    } else if d == 2 {
        "2"
    } else if d == 3 {
        "3"
    } else if d == 4 {
        "4"
    } else if d == 5 {
        "5"
    } else if d == 6 {
        "6"
    } else if d == 7 {
        "7"
    } else if d == 8 {
        "8"
    } else {
        "9"
    };
    assert(s@ =~= seq![digit_char(d as nat)]);
    s
}

/// Appends the digits of `n` to `out`.
pub fn push_decimal(out: &mut String, n: u64)
    ensures
        final(out)@ == old(out)@ + decimal(n as nat),
    decreases n,
{
    if n >= 10 {
        push_decimal(out, n / 10);
    }
    out.append(digit_text(n % 10));
    assert(final(out)@ =~= old(out)@ + decimal(n as nat));
}

/// Appends the last `width` digits of `n` to `out`, zeros in front.
pub fn push_padded(out: &mut String, n: u64, width: u8)
    ensures
        final(out)@ == old(out)@ + padded(n as nat, width as nat),
    decreases width,
{
    if width > 0 {
        push_padded(out, n / 10, width - 1);
        out.append(digit_text(n % 10));
    }
    assert(final(out)@ =~= old(out)@ + padded(n as nat, width as nat));
}

/// Appends the text of `n` to `out`.
pub fn push_signed(out: &mut String, n: i64)
    ensures
        final(out)@ == old(out)@ + signed_decimal(n as int),
{
    if n < 0 {
        out.append("-");
        proof {
            reveal_strlit("-");
        }
        let magnitude: u64 = magnitude_of(n);
        push_decimal(out, magnitude);
        assert(final(out)@ =~= old(out)@ + signed_decimal(n as int));
    } else {
        push_decimal(out, n as u64);
    }
}

/// The distance of `n` from zero.
pub fn magnitude_of(n: i64) -> (m: u64)
    ensures
        m as int == if n < 0 {
            -(n as int)
        } else {
            n as int
        },
{
    if n < 0 {
        ((-(n + 1)) as u64) + 1
    } else {
        n as u64
    }
}

} // verus!
