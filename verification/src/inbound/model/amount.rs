use vstd::prelude::*;

use crate::inbound::model::decimal::{amount_text, decimal_digits, digit_char};
use crate::model::Amount;

verus! {

/// Appends the character of digit `d`.
fn push_digit(s: &mut String, d: u64)
    requires
        d < 10,
    ensures
        final(s)@ == old(s)@.push(digit_char(d as int)),
{
    proof {
        reveal_strlit("0");
        reveal_strlit("1");
        reveal_strlit("2");
        reveal_strlit("3");
        reveal_strlit("4");
        reveal_strlit("5");
        reveal_strlit("6");
        reveal_strlit("7");
        reveal_strlit("8");
        reveal_strlit("9");
    }
    if d == 0 {
        s.append("0");
    } else if d == 1 {
        s.append("1");
    } else if d == 2 {
        s.append("2");
    } else if d == 3 {
        s.append("3");
    } else if d == 4 {
        s.append("4");
    } else if d == 5 {
        s.append("5");
    } else if d == 6 {
        s.append("6");
    } else if d == 7 {
        s.append("7");
    } else if d == 8 {
        s.append("8");
    } else {
        s.append("9");
    }
    assert(final(s)@ =~= old(s)@.push(digit_char(d as int)));
}

/// Appends the base-ten digits of `n`.
fn push_decimal(s: &mut String, n: u64)
    ensures
        final(s)@ == old(s)@ + decimal_digits(n as nat),
    decreases n,
{
    if n >= 10 {
        push_decimal(s, n / 10);
    }
    push_digit(s, n % 10);
    proof {
        if n >= 10 {
            assert(decimal_digits(n as nat) == decimal_digits((n / 10) as nat).push(
                digit_char((n % 10) as int),
            ));
        }
    }
    assert(final(s)@ =~= old(s)@ + decimal_digits(n as nat));
}

impl Amount {
    /// The amount's text: whole units, '.', and four decimals.
    pub fn to_decimal_string(&self) -> (r: String)
        ensures
            r@ == amount_text(self.value() as nat),
    {
        let v = self.0;
        let mut s = String::new();
        push_decimal(&mut s, v / 10000);
        proof {
            reveal_strlit(".");
        }
        s.append(".");
        let r = v % 10000;
        push_digit(&mut s, r / 1000);
        push_digit(&mut s, r / 100 % 10);
        push_digit(&mut s, r / 10 % 10);
        push_digit(&mut s, r % 10);
        assert(s@ =~= amount_text(v as nat));
        s
    }
}

} // verus!
