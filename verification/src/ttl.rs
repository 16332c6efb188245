//! Time-to-live values in words.

use vstd::prelude::*;
use vstd::string::*;

verus! {

/// The character of a decimal digit.
pub open spec fn digit(d: int) -> char {
    if d == 0 {
        '0'
    } else if d == 1 {
        '1'
    } else if d == 2 {
        '2'
    } else if d == 3 {
        '3'
    } else if d == 4 {
        '4'
    } else if d == 5 {
        '5'
    } else if d == 6 {
        '6'
    } else if d == 7 {
        '7'
    } else if d == 8 {
        '8'
    } else {
        '9'
    }
}

/// A number in decimal, without leading zeros.
pub open spec fn decimal(n: nat) -> Seq<char>
    decreases n,
{
    if n < 10 {
        seq![digit(n as int)]
    } else {
        decimal(n / 10).push(digit((n % 10) as int))
    }
}

/// A number below 100 in two decimal digits.
pub open spec fn two_digits(n: nat) -> Seq<char> {
    seq![digit((n / 10) as int), digit((n % 10) as int)]
}

/// A time-to-live in hours, minutes and seconds: `1h00m00s`, `5m07s`, `42s`.
/// Units above the largest that is not zero are left out.
pub open spec fn ttl_text(ttl: u32) -> Seq<char> {
    let hours = (ttl / 3600) as nat;
    let minutes = ((ttl % 3600) / 60) as nat;
    let seconds = (ttl % 60) as nat;
    if hours > 0 {
        decimal(hours) + seq!['h'] + two_digits(minutes) + seq!['m'] + two_digits(seconds) + seq![
            's',
        ]
    } else if minutes > 0 {
        decimal(minutes) + seq!['m'] + two_digits(seconds) + seq!['s']
    } else {
        decimal(seconds) + seq!['s']
    }
}

fn digit_text(d: u32) -> (s: &'static str)
    requires
        d < 10,
    ensures
        s@ == seq![digit(d as int)],
{
    proof {
        reveal_strlit("0");
        reveal_strlit("1");
        reveal_strlit("2");
        reveal_strlit("3");
        reveal_strlit("4");
        reveal_strlit("5");
        reveal_strlit("6");
        reveal_strlit("7");
        reveal_strlit("8");
        reveal_strlit("9");
    }
    let s = if d == 0 {
        "0"
    } else if d == 1 {
        "1"
    } else if d == 2 {
        "2"
    } else if d == 3 {
        "3"
    } else if d == 4 {
        "4"
    } else if d == 5 {
        "5"
    } else if d == 6 {
        "6"
    } else if d == 7 {
        "7"
    } else if d == 8 {
        "8"
    } else {
        "9"
    };
    assert(s@ =~= seq![digit(d as int)]);
    s
}

/// Appends a number in decimal.
pub fn push_decimal(out: &mut String, n: u32)
    ensures
        final(out)@ == old(out)@ + decimal(n as nat),
    decreases n,
{
    let ghost before = out@;
    if n >= 10 {
        push_decimal(out, n / 10);
    }
    out.append(digit_text(n % 10));
    assert(out@ =~= before + decimal(n as nat));
}

/// Appends a number below 100 in two digits.
pub fn push_two_digits(out: &mut String, n: u32)
    requires
        n < 100,
    ensures
        final(out)@ == old(out)@ + two_digits(n as nat),
{
    let ghost before = out@;
    out.append(digit_text(n / 10));
    out.append(digit_text(n % 10));
    assert(out@ =~= before + two_digits(n as nat));
}

/// Renders a time-to-live in seconds as hours, minutes and seconds.
pub fn format_ttl(ttl: u32) -> (s: String)
    ensures
        s@ == ttl_text(ttl),
{
    proof {
        reveal_strlit("h");
        reveal_strlit("m");
        reveal_strlit("s");
    }
    let hours: u32 = ttl / 3600;
    let minutes: u32 = (ttl % 3600) / 60;
    let seconds: u32 = ttl % 60;
    let mut out = String::new();
    if hours > 0 {
        push_decimal(&mut out, hours);
        out.append("h");
        push_two_digits(&mut out, minutes);
        out.append("m");
        push_two_digits(&mut out, seconds);
    } else if minutes > 0 {
        push_decimal(&mut out, minutes);
        out.append("m");
        push_two_digits(&mut out, seconds);
    } else {
        push_decimal(&mut out, seconds);
    }
    out.append("s");
    assert(out@ =~= ttl_text(ttl));
    out
}

} // verus!
