//! Decimal text of numbers.

use vstd::prelude::*;
use vstd::string::StrSliceExecFns;

verus! {

/// The character of the decimal digit `d` (`d < 10`).
pub open spec fn decimal_digit(d: nat) -> char {
    (d + 48) as char
}

/// The decimal text of `n`, without sign or leading zeros.
pub open spec fn decimal(n: nat) -> Seq<char>
    decreases n,
{
    if n < 10 {
        seq![decimal_digit(n)]
    } else {
        decimal(n / 10).push(decimal_digit(n % 10))
    }
}

/// The decimal text of `n`, without sign or leading zeros, as std's
/// `Display` for `usize` writes it.
pub fn decimal_text(n: usize) -> (text: String)
    ensures
        text@ == decimal(n as nat),
    decreases n,
{
    let digits = "0123456789";
    proof {
        reveal_strlit("0123456789");
    }
    let d = n % 10;
    let digit = digits.substring_char(d, d + 1);
    assert(digit@ =~= seq![decimal_digit(d as nat)]);
    if n < 10 {
        String::from_str(digit)
    } else {
        let text = decimal_text(n / 10).concat(digit);
        assert(text@ =~= decimal((n / 10) as nat).push(decimal_digit((n % 10) as nat)));
        text
    }
}

/// The number that a text of decimal digits spells, read left to right.
pub open spec fn digits_value(text: Seq<char>) -> int
    decreases text.len(),
{
    if text.len() == 0 {
        0
    } else {
        digits_value(text.drop_last()) * 10 + (text.last() as int - 48)
    }
}

/// A decimal digit character.
pub open spec fn is_digit_char(c: char) -> bool {
    48 <= c as int <= 57
}

/// The decimal text spells its number: every character is a digit, there
/// is no leading zero (but for 0 itself), and the digits read back as `n`.
pub proof fn lemma_decimal_spells(n: nat)
    ensures
        decimal(n).len() >= 1,
        forall|i: int| 0 <= i < decimal(n).len() ==> is_digit_char(#[trigger] decimal(n)[i]),
        n > 0 ==> decimal(n)[0] != '0',
        digits_value(decimal(n)) == n,
    decreases n,
{
    if n < 10 {
        assert(decimal(n) == seq![decimal_digit(n)]);
        assert(decimal(n).drop_last() =~= Seq::<char>::empty());
        assert(decimal_digit(n) as int == n + 48);
        assert('0' as int == 48);
        assert(digits_value(decimal(n).drop_last()) == 0);
        assert(decimal(n).last() == decimal_digit(n));
        assert(digits_value(decimal(n)) == digits_value(decimal(n).drop_last()) * 10 + (decimal(n).last() as int - 48));
    } else {
        lemma_decimal_spells(n / 10);
        let head = decimal(n / 10);
        let d = (n % 10) as nat;
        assert(decimal(n) == head.push(decimal_digit(d)));
        assert(decimal(n).drop_last() =~= head);
        assert(decimal_digit(d) as int == d + 48);
        assert forall|i: int| 0 <= i < decimal(n).len() implies is_digit_char(#[trigger] decimal(n)[i]) by {
            if i < head.len() {
                assert(decimal(n)[i] == head[i]);
            }
        }
        assert(decimal(n)[0] == head[0]);
        assert(decimal(n).last() == decimal_digit(d));
        assert(digits_value(decimal(n)) == digits_value(head) * 10 + (decimal(n).last() as int - 48));
        assert(digits_value(head) == n / 10);
        assert((n / 10) * 10 + n % 10 == n) by (nonlinear_arith);
    }
}

} // verus!
