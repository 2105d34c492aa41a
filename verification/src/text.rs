//! Decimal text of integers, as `format!("{}")` writes them.
use vstd::prelude::*;

verus! {

pub open spec fn digit_char(d: nat) -> char {
    (48 + d) as char
}

/// The decimal digits of `n`, most significant first, without leading
/// zeros ("0" for zero).
pub open spec fn decimal(n: nat) -> Seq<char>
    decreases n,
{
    if n < 10 {
        seq![digit_char(n)]
    } else {
        decimal(n / 10).push(digit_char(n % 10))
    }
}

/// The decimal text of an integer, with a leading `-` when negative.
pub open spec fn signed_decimal(n: int) -> Seq<char> {
    if n < 0 {
        seq!['-'] + decimal((-n) as nat)
    } else {
        decimal(n as nat)
    }
}

/// The text of a number of milliseconds as seconds with three decimals,
/// as `format!("{:.3}", ms as f64 / 1000.0)` writes it.
pub open spec fn seconds_text(ms: int) -> Seq<char> {
    let a = if ms < 0 {
        -ms
    } else {
        ms
    };
    let frac = a % 1000;
    (if ms < 0 {
        seq!['-']
    } else {
        Seq::empty()
    }) + decimal((a / 1000) as nat) + seq!['.'] + seq![
        digit_char((frac / 100) as nat),
        digit_char(((frac / 10) % 10) as nat),
        digit_char((frac % 10) as nat),
    ]
}

/// The one-character text of a digit.
fn digit_str(d: u64) -> (r: &'static str)
    requires
        d < 10,
    ensures
        r@ == seq![digit_char(d as nat)],
{
    proof {
        reveal_strlit("0");
        reveal_strlit("1");
        reveal_strlit("2");
        reveal_strlit("3");
        reveal_strlit("4");
        reveal_strlit("5");
        reveal_strlit("6");
        reveal_strlit("7");
        reveal_strlit("8");
        reveal_strlit("9");
    }
    if d == 0 {
        "0"
    } else if d == 1 {
        "1"
    } else if d == 2 {
        "2"
    } else if d == 3 {
        "3"
    } else if d == 4 {
        "4"
    } else if d == 5 {
        "5"
    } else if d == 6 {
        "6"
    } else if d == 7 {
        "7"
    } else if d == 8 {
        "8"
    } else {
        "9"
    }
}

/// Appends the decimal text of `n`.
pub fn push_decimal(s: &mut String, n: u64)
    ensures
        final(s)@ == old(s)@ + decimal(n as nat),
    decreases n,
{
    if n < 10 {
        s.append(digit_str(n));
    } else {
        push_decimal(s, n / 10);
        s.append(digit_str(n % 10));
        assert(final(s)@ =~= old(s)@ + decimal(n as nat));
    }
}

/// Appends the decimal text of `n`, with a `-` when negative.
pub fn push_signed_decimal(s: &mut String, n: i64)
    ensures
        final(s)@ == old(s)@ + signed_decimal(n as int),
{
    if n < 0 {
        s.append("-");
        let a: u64 = ((-(n as i128)) as u64);
        push_decimal(s, a);
        proof {
            reveal_strlit("-");
            assert(final(s)@ =~= old(s)@ + signed_decimal(n as int));
        }
    } else {
        push_decimal(s, n as u64);
    }
}

/// Appends `ms` milliseconds as seconds with three decimals.
pub fn push_seconds(s: &mut String, ms: i64)
    ensures
        final(s)@ == old(s)@ + seconds_text(ms as int),
{
    let ghost s0 = s@;
    let a: u64 = if ms < 0 {
        (-(ms as i128)) as u64
    } else {
        ms as u64
    };
    if ms < 0 {
        s.append("-");
    }
    push_decimal(s, a / 1000);
    s.append(".");
    let frac = a % 1000;
    s.append(digit_str(frac / 100));
    s.append(digit_str((frac / 10) % 10));
    s.append(digit_str(frac % 10));
    proof {
        reveal_strlit("-");
        reveal_strlit(".");
        assert(s@ =~= s0 + seconds_text(ms as int));
    }
}

} // verus!
