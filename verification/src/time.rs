//! Rendering of an elapsed-seconds count as a zero-padded `HH:MM:SS` string.

use vstd::prelude::*;
use vstd::string::StringExecFns;

verus! {

/// The character for one decimal digit.
pub open spec fn spec_digit_char(d: int) -> char {
    if d == 0 {
        '0'
    } else if d == 1 {
        '1'
    } else if d == 2 {
        '2'
    } else if d == 3 {
        '3'
    } else if d == 4 {
        '4'
    } else if d == 5 {
        '5'
    } else if d == 6 {
        '6'
    } else if d == 7 {
        '7'
    } else if d == 8 {
        '8'
    } else {
        '9'
    }
}

/// The decimal rendering of `n`, most significant digit first, no leading
/// zeros (a lone `0` for zero itself).
pub open spec fn spec_dec_str(n: nat) -> Seq<char>
    decreases n,
{
    if n < 10 {
        seq![spec_digit_char(n as int)]
    } else {
        spec_dec_str(n / 10).push(spec_digit_char((n % 10) as int))
    }
}

/// The decimal rendering of `n`, widened to at least two digits with a
/// leading zero.
pub open spec fn spec_pad2(n: nat) -> Seq<char> {
    if n < 10 {
        seq!['0'] + spec_dec_str(n)
    } else {
        spec_dec_str(n)
    }
}

/// The `HH:MM:SS` rendering of a seconds count: hours unbounded, minutes and
/// seconds each two digits.
pub open spec fn spec_format_time(seconds: u32) -> Seq<char> {
    spec_pad2((seconds / 3600) as nat) + seq![':'] + spec_pad2(((seconds % 3600) / 60) as nat)
        + seq![':'] + spec_pad2((seconds % 60) as nat)
}

/// One decimal digit as a string slice.
fn digit_str(d: u32) -> (r: &'static str)
    requires
        d < 10,
    ensures
        r@ =~= seq![spec_digit_char(d as int)],
{
    proof {
        reveal_strlit("0");
        reveal_strlit("1");
        reveal_strlit("2");
        reveal_strlit("3");
        reveal_strlit("4");
        reveal_strlit("5");
        reveal_strlit("6");
        reveal_strlit("7");
        reveal_strlit("8");
        reveal_strlit("9");
    }
    match d {
        0 => "0",
        1 => "1",
        2 => "2",
        3 => "3",
        4 => "4",
        5 => "5",
        6 => "6",
        7 => "7",
        8 => "8",
        _ => "9",
    }
}

/// Appends the decimal rendering of `n` to `s`.
fn push_dec(s: &mut String, n: u32)
    ensures
        final(s)@ == old(s)@ + spec_dec_str(n as nat),
    decreases n,
{
    if n >= 10 {
        push_dec(s, n / 10);
    }
    let d = digit_str(n % 10);
    s.append(d);
    proof {
        assert(final(s)@ =~= old(s)@ + spec_dec_str(n as nat));
    }
}

/// Appends the two-digit-padded decimal rendering of `n` to `s`.
fn push_pad2(s: &mut String, n: u32)
    ensures
        final(s)@ == old(s)@ + spec_pad2(n as nat),
{
    if n < 10 {
        let z = digit_str(0);
        s.append(z);
    }
    push_dec(s, n);
    proof {
        assert(final(s)@ =~= old(s)@ + spec_pad2(n as nat));
    }
}

/// Renders `seconds` as `HH:MM:SS`: hours are not wrapped at 24, minutes and
/// seconds are zero-padded to two digits.
pub fn format_time(seconds: u32) -> (r: String)
    ensures
        r@ == spec_format_time(seconds),
{
    let hrs = seconds / 3600;
    let mins = (seconds % 3600) / 60;
    let secs = seconds % 60;
    let mut out = String::new();
    push_pad2(&mut out, hrs);
    proof {
        reveal_strlit(":");
        assert(":"@ =~= seq![':']);
    }
    out.append(":");
    push_pad2(&mut out, mins);
    out.append(":");
    push_pad2(&mut out, secs);
    proof {
        assert(out@ =~= spec_format_time(seconds));
    }
    out
}

} // verus!
