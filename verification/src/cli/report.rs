//! Pieces of report text: durations, timestamps and truncated names.

use vstd::prelude::*;
use crate::text::{chars_of, decimal_chars, push_decimal, push_str, string_from_chars, zero_pad};

verus! {

/// `n` in decimal, zero-padded to `width` digits.
pub open spec fn padded(n: nat, width: nat) -> Seq<char> {
    zero_pad(decimal_chars(n), width)
}

/// Appends `n` in decimal, zero-padded to `width` (at most 3) digits.
fn push_padded(s: &mut String, n: u64, width: u64)
    requires
        width <= 3,
    ensures
        final(s)@ == old(s)@ + padded(n as nat, width as nat),
{
    let digits = crate::text::decimal_string(n);
    let len = chars_of(digits.as_str()).len();
    let mut k = len;
    while k < width as usize
        invariant
            len <= k,
            k <= width || k == len,
            s@ == old(s)@ + Seq::new((k - len) as nat, |i: int| '0'),
        decreases width - k,
    {
        crate::text::push_char(s, '0');
        assert(Seq::new((k + 1 - len) as nat, |i: int| '0') =~= Seq::new((k - len) as nat, |i: int| '0').push('0'));
        k = k + 1;
    }
    push_str(s, digits.as_str());
    assert(s@ =~= old(s)@ + padded(n as nat, width as nat));
}

/// How a duration of `secs` seconds and `millis` milliseconds is shown:
/// `M:m SSs` from a minute on, `S.mmms` from a second on, `mmmms` below.
pub open spec fn duration_text(secs: u64, millis: u32) -> Seq<char> {
    if secs / 60 > 0 {
        decimal_chars((secs / 60) as nat) + "m "@ + padded((secs % 60) as nat, 2) + "s"@
    } else if secs > 0 {
        decimal_chars(secs as nat) + "."@ + padded(millis as nat, 3) + "s"@
    } else {
        decimal_chars(millis as nat) + "ms"@
    }
}

/// Formats a duration given as whole seconds and the milliseconds beyond them.
pub fn format_duration(secs: u64, subsec_millis: u32) -> (s: String)
    ensures
        s@ == duration_text(secs, subsec_millis),
{
    let mins = secs / 60;
    let rem = secs % 60;
    let mut s = String::new();
    if mins > 0 {
        push_decimal(&mut s, mins);
        push_str(&mut s, "m ");
        push_padded(&mut s, rem, 2);
        push_str(&mut s, "s");
    } else if secs > 0 {
        push_decimal(&mut s, secs);
        push_str(&mut s, ".");
        push_padded(&mut s, subsec_millis as u64, 3);
        push_str(&mut s, "s");
    } else {
        push_decimal(&mut s, subsec_millis as u64);
        push_str(&mut s, "ms");
    }
    s
}

/// How an offset is shown on a timeline: `MM:SS.mmm`.
pub open spec fn timestamp_text(secs: u64, millis: u32) -> Seq<char> {
    padded((secs / 60) as nat, 2) + ":"@ + padded((secs % 60) as nat, 2) + "."@ + padded(millis as nat, 3)
}

/// Formats a timeline offset given as whole seconds and milliseconds.
pub fn format_timestamp(secs: u64, subsec_millis: u32) -> (s: String)
    ensures
        s@ == timestamp_text(secs, subsec_millis),
{
    let mut s = String::new();
    push_padded(&mut s, secs / 60, 2);
    push_str(&mut s, ":");
    push_padded(&mut s, secs % 60, 2);
    push_str(&mut s, ".");
    push_padded(&mut s, subsec_millis as u64, 3);
    s
}

/// The first `max_chars` characters of `s` (all of it when shorter).
pub fn truncate_str(s: &str, max_chars: usize) -> (t: String)
    ensures
        t@ == if s@.len() <= max_chars {
            s@
        } else {
            s@.take(max_chars as int)
        },
{
    let cs = chars_of(s);
    if cs.len() <= max_chars {
        string_from_chars(cs.as_slice())
    } else {
        crate::text::chars_between(cs.as_slice(), 0, max_chars)
    }
}

} // verus!
