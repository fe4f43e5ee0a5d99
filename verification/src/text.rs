//! Decimal rendering of numbers for diagnostic messages.
use vstd::prelude::*;

verus! {

/// The ASCII digit for `d` (`d < 10`).
pub open spec fn digit_char(d: nat) -> char {
    (('0' as u32) + d) as char
}

/// The decimal representation of `n`, most significant digit first, with no
/// leading zeros (`"0"` for zero), as `u64::to_string` writes it.
pub open spec fn decimal(n: nat) -> Seq<char>
    decreases n,
{
    if n < 10 {
        seq![digit_char(n)]
    } else {
        decimal(n / 10).push(digit_char(n % 10))
    }
}

fn digit_str(d: u64) -> (s: &'static str)
    requires
        d < 10,
    ensures
        s@ == seq![digit_char(d as nat)],
{
    proof {
        reveal_strlit("0");
        reveal_strlit("1");
        reveal_strlit("2");
        reveal_strlit("3");
        reveal_strlit("4");
        reveal_strlit("5");
        reveal_strlit("6");
        reveal_strlit("7");
        reveal_strlit("8");
        reveal_strlit("9");
    }
    if d == 0 {
        "0"
    } else if d == 1 {
        "1"
    } else if d == 2 {
        "2"
    } else if d == 3 {
        "3"
    } else if d == 4 {
        "4"
    } else if d == 5 {
        "5"
    } else if d == 6 {
        "6"
    } else if d == 7 {
        "7"
    } else if d == 8 {
        "8"
    } else {
        "9"
    }
}

/// Appends the decimal representation of `n` to `s`.
pub fn push_decimal(s: &mut String, n: u64)
    ensures
        final(s)@ == old(s)@ + decimal(n as nat),
    decreases n,
{
    if n >= 10 {
        push_decimal(s, n / 10);
    }
    s.append(digit_str(n % 10));
    proof {
        assert(decimal(n as nat) == if n < 10 { seq![digit_char(n as nat)] } else { decimal((n / 10) as nat).push(digit_char((n % 10) as nat)) });
        if n >= 10 {
            assert(old(s)@ + decimal((n / 10) as nat) + seq![digit_char((n % 10) as nat)] =~= old(s)@ + decimal(n as nat));
        } else {
            assert(old(s)@ + seq![digit_char((n % 10) as nat)] =~= old(s)@ + decimal(n as nat));
        }
    }
}

/// The decimal representation of `n` as a new string.
pub fn decimal_string(n: u64) -> (s: String)
    ensures
        s@ == decimal(n as nat),
{
    let mut s = String::new();
    push_decimal(&mut s, n);
    assert(Seq::<char>::empty() + decimal(n as nat) =~= decimal(n as nat));
    s
}

} // verus!
