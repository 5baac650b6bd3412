//! Numbers written out in decimal, for the report texts.

use vstd::prelude::*;
use vstd::string::StringExecFns;

verus! {

/// The character that stands for the digit `d`.
pub open spec fn digit(d: nat) -> char
    recommends
        d < 10,
{
    if d == 0 {
        '0'
    } else if d == 1 {
        '1'
    } else if d == 2 {
        '2'
    } else if d == 3 {
        '3'
    } else if d == 4 {
        '4'
    } else if d == 5 {
        '5'
    } else if d == 6 {
        '6'
    } else if d == 7 {
        '7'
    } else if d == 8 {
        '8'
    } else {
        '9'
    }
}

/// `n` written in decimal: its digits from the most significant to the
/// least, with no leading zero but for zero itself.
pub open spec fn decimal(n: nat) -> Seq<char>
    decreases n,
{
    if n < 10 {
        seq![digit(n)]
    } else {
        decimal(n / 10).push(digit(n % 10))
    }
}

/// The digits of `rest` where `rest` is what is still to be written of a
/// number, so none once it is zero.
spec fn leading(rest: nat) -> Seq<char> {
    if rest == 0 {
        Seq::empty()
    } else {
        decimal(rest)
    }
}

/// A number in decimal is the digits of its tenth, none where that is zero,
/// and its last digit.
proof fn decimal_unfolds(n: nat)
    ensures
        decimal(n) == leading(n / 10) + seq![digit(n % 10)],
{
    if n < 10 {
        assert(leading(n / 10) + seq![digit(n % 10)] =~= seq![digit(n)]);
    } else {
        assert(decimal(n / 10).push(digit(n % 10)) =~= decimal(n / 10) + seq![digit(n % 10)]);
    }
}

/// The digit `d` as a text of one character.
fn digit_text(d: u128) -> (text: &'static str)
    requires
        d < 10,
    ensures
        text@ == seq![digit(d as nat)],
{
    proof {
        reveal_strlit("0");
        reveal_strlit("1");
        reveal_strlit("2");
        reveal_strlit("3");
        reveal_strlit("4");
        reveal_strlit("5");
        reveal_strlit("6");
        reveal_strlit("7");
        reveal_strlit("8");
        reveal_strlit("9");
    }
    let text = if d == 0 {
        "0"
    } else if d == 1 {
        "1"
    } else if d == 2 {
        "2"
    } else if d == 3 {
        "3"
    } else if d == 4 {
        "4"
    } else if d == 5 {
        "5"
    } else if d == 6 {
        "6"
    } else if d == 7 {
        "7"
    } else if d == 8 {
        "8"
    } else {
        "9"
    };
    assert(text@ =~= seq![digit(d as nat)]);
    text
}

/// Writes `n` out in decimal.
pub fn decimal_text(n: u128) -> (text: String)
    ensures
        text@ == decimal(n as nat),
{
    let mut text = String::from_str(digit_text(n % 10));
    let mut rest: u128 = n / 10;
    proof {
        decimal_unfolds(n as nat);
    }
    while rest > 0
        invariant
            leading(rest as nat) + text@ == decimal(n as nat),
        decreases rest,
    {
        let ghost written = text@;
        let ghost next = seq![digit((rest % 10) as nat)];
        text = String::from_str(digit_text(rest % 10)).concat(text.as_str());
        proof {
            decimal_unfolds(rest as nat);
            assert(leading((rest / 10) as nat) + (next + written) =~= (leading((rest / 10) as nat)
                + next) + written);
        }
        rest = rest / 10;
    }
    assert(leading(0) + text@ =~= text@);
    text
}

} // verus!
