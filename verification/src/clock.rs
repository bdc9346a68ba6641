//! Lightweight wall-clock display: renders a seconds-since-epoch reading as
//! a two-digit hours:minutes:seconds string.  The reading itself comes from
//! the caller; the formatting is a function of it alone.

use vstd::prelude::*;

verus! {

/// The digit character for one decimal digit.
pub open spec fn digit_char(x: int) -> char {
    ((48 + x) as u8) as char
}

/// Two zero-padded decimal digits.
pub open spec fn two_digits(x: int) -> Seq<char> {
    seq![digit_char(x / 10), digit_char(x % 10)]
}

/// The clock display of a seconds-since-epoch reading: hours, minutes and
/// seconds of the day, each zero-padded to two digits, separated by colons.
pub open spec fn clock_display(secs: u64) -> Seq<char> {
    two_digits(((secs / 3600) % 24) as int) + seq![':'] + two_digits(((secs / 60) % 60) as int)
        + seq![':'] + two_digits((secs % 60) as int)
}

/// One zero-padded decimal digit.
fn digit(x: u64) -> (r: char)
    requires
        x < 10,
    ensures
        r == digit_char(x as int),
{
    ((48 + x) as u8) as char
}

/// Renders a seconds-since-epoch reading as an `HH:MM:SS` display of the
/// time of day.
pub fn chrono_lite_timestamp(now_secs: u64) -> (r: String)
    ensures
        r@ == clock_display(now_secs),
        r@.len() == 8,
{
    let hours = (now_secs / 3600) % 24;
    let mins = (now_secs / 60) % 60;
    let secs = now_secs % 60;
    let mut out = String::new();
    out.push(digit(hours / 10));
    out.push(digit(hours % 10));
    out.push(':');
    out.push(digit(mins / 10));
    out.push(digit(mins % 10));
    out.push(':');
    out.push(digit(secs / 10));
    out.push(digit(secs % 10));
    proof {
        assert(out@ =~= clock_display(now_secs));
    }
    out
}

} // verus!
