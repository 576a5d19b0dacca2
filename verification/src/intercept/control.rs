//! The control block shared with the injected time payload, and the text
//! forms of time offsets and speeds.
//!
//! The payload reads a 32-byte block: the offset in seconds and nanoseconds
//! (two `i64`), the speed as a fraction (two `u32`), an enabled flag and
//! padding (two `u32`), each little-endian, as both supported architectures
//! lay the block out.

use vstd::prelude::*;
use vstd::bytes::{
    spec_u32_from_le_bytes, spec_u32_to_le_bytes, spec_u64_from_le_bytes, spec_u64_to_le_bytes,
    u32_from_le_bytes, u32_to_le_bytes, u64_from_le_bytes, u64_to_le_bytes,
};
use crate::text::{
    chars_between, chars_of, decimal_chars, push_decimal, push_signed_decimal, push_str,
    signed_decimal_chars, trim, trim_bounds, trim_end_char,
};

verus! {

/// Control block written to shared memory and read by the injected payload.
#[derive(Debug, Clone, Copy)]
pub struct TimeControl {
    /// Seconds to add to the real time.
    pub offset_seconds: i64,
    /// Nanoseconds to add to the real time (normalized by the payload).
    pub offset_nanos: i64,
    /// Speed multiplier numerator (10 for 10x).
    pub speed_numerator: u32,
    /// Speed multiplier denominator (1 for 10x).
    pub speed_denominator: u32,
    /// 0 = passthrough, 1 = active.
    pub enabled: u32,
    /// Padding for alignment.
    pub _pad: u32,
}

/// The bytes of a control block, in payload layout.
pub open spec fn control_bytes(tc: TimeControl) -> Seq<u8> {
    spec_u64_to_le_bytes(tc.offset_seconds as u64) + spec_u64_to_le_bytes(tc.offset_nanos as u64)
        + spec_u32_to_le_bytes(tc.speed_numerator) + spec_u32_to_le_bytes(tc.speed_denominator)
        + spec_u32_to_le_bytes(tc.enabled) + spec_u32_to_le_bytes(tc._pad)
}

/// The control block that 32 bytes in payload layout hold.
pub open spec fn control_from_bytes(b: Seq<u8>) -> TimeControl {
    TimeControl {
        offset_seconds: spec_u64_from_le_bytes(b.subrange(0, 8)) as i64,
        offset_nanos: spec_u64_from_le_bytes(b.subrange(8, 16)) as i64,
        speed_numerator: spec_u32_from_le_bytes(b.subrange(16, 20)),
        speed_denominator: spec_u32_from_le_bytes(b.subrange(20, 24)),
        enabled: spec_u32_from_le_bytes(b.subrange(24, 28)),
        _pad: spec_u32_from_le_bytes(b.subrange(28, 32)),
    }
}

/// How a control block is displayed.
pub open spec fn control_text(tc: TimeControl) -> Seq<char> {
    if tc.enabled == 0 {
        "TimeControl(disabled)"@
    } else {
        "TimeControl(offset: "@ + signed_decimal_chars(tc.offset_seconds as int) + "s "@
            + signed_decimal_chars(tc.offset_nanos as int) + "ns, speed: "@ + decimal_chars(
            tc.speed_numerator as nat,
        ) + "/"@ + decimal_chars(tc.speed_denominator as nat) + "x)"@
    }
}

impl TimeControl {
    /// Size of the control block in bytes.
    pub const SIZE: usize = 32;

    /// An active control with the given offset and 1x speed.
    pub fn with_offset(seconds: i64, nanos: i64) -> (tc: Self)
        ensures
            tc == (TimeControl {
                offset_seconds: seconds,
                offset_nanos: nanos,
                speed_numerator: 1,
                speed_denominator: 1,
                enabled: 1,
                _pad: 0,
            }),
    {
        TimeControl {
            offset_seconds: seconds,
            offset_nanos: nanos,
            speed_numerator: 1,
            speed_denominator: 1,
            enabled: 1,
            _pad: 0,
        }
    }

    /// An active control with the given offset and speed `speed_num / speed_den`.
    pub fn with_offset_and_speed(seconds: i64, nanos: i64, speed_num: u32, speed_den: u32) -> (tc:
        Self)
        ensures
            tc == (TimeControl {
                offset_seconds: seconds,
                offset_nanos: nanos,
                speed_numerator: speed_num,
                speed_denominator: speed_den,
                enabled: 1,
                _pad: 0,
            }),
    {
        TimeControl {
            offset_seconds: seconds,
            offset_nanos: nanos,
            speed_numerator: speed_num,
            speed_denominator: speed_den,
            enabled: 1,
            _pad: 0,
        }
    }

    /// A passthrough control: time is not manipulated.
    pub fn disabled() -> (tc: Self)
        ensures
            tc == (TimeControl {
                offset_seconds: 0,
                offset_nanos: 0,
                speed_numerator: 1,
                speed_denominator: 1,
                enabled: 0,
                _pad: 0,
            }),
    {
        TimeControl {
            offset_seconds: 0,
            offset_nanos: 0,
            speed_numerator: 1,
            speed_denominator: 1,
            enabled: 0,
            _pad: 0,
        }
    }

    /// The block's bytes, for writing to shared memory.
    pub fn to_bytes(&self) -> (b: [u8; 32])
        ensures
            b@ == control_bytes(*self),
    {
        let s = u64_to_le_bytes(self.offset_seconds as u64);
        let n = u64_to_le_bytes(self.offset_nanos as u64);
        let p = u32_to_le_bytes(self.speed_numerator);
        let q = u32_to_le_bytes(self.speed_denominator);
        let e = u32_to_le_bytes(self.enabled);
        let z = u32_to_le_bytes(self._pad);
        proof {
            vstd::bytes::lemma_auto_spec_u64_to_from_le_bytes();
            vstd::bytes::lemma_auto_spec_u32_to_from_le_bytes();
        }
        let b: [u8; 32] = [
            s[0], s[1], s[2], s[3], s[4], s[5], s[6], s[7],
            n[0], n[1], n[2], n[3], n[4], n[5], n[6], n[7],
            p[0], p[1], p[2], p[3], q[0], q[1], q[2], q[3],
            e[0], e[1], e[2], e[3], z[0], z[1], z[2], z[3],
        ];
        assert(b@ =~= control_bytes(*self));
        b
    }

    /// The control block held by 32 bytes read from shared memory.
    pub fn from_bytes(bytes: &[u8; 32]) -> (tc: Self)
        ensures
            tc == control_from_bytes(bytes@),
    {
        let s = vec![bytes[0], bytes[1], bytes[2], bytes[3], bytes[4], bytes[5], bytes[6], bytes[7]];
        let n = vec![bytes[8], bytes[9], bytes[10], bytes[11], bytes[12], bytes[13], bytes[14], bytes[15]];
        let p = vec![bytes[16], bytes[17], bytes[18], bytes[19]];
        let q = vec![bytes[20], bytes[21], bytes[22], bytes[23]];
        let e = vec![bytes[24], bytes[25], bytes[26], bytes[27]];
        let z = vec![bytes[28], bytes[29], bytes[30], bytes[31]];
        assert(s@ =~= bytes@.subrange(0, 8));
        assert(n@ =~= bytes@.subrange(8, 16));
        assert(p@ =~= bytes@.subrange(16, 20));
        assert(q@ =~= bytes@.subrange(20, 24));
        assert(e@ =~= bytes@.subrange(24, 28));
        assert(z@ =~= bytes@.subrange(28, 32));
        TimeControl {
            offset_seconds: u64_from_le_bytes(s.as_slice()) as i64,
            offset_nanos: u64_from_le_bytes(n.as_slice()) as i64,
            speed_numerator: u32_from_le_bytes(p.as_slice()),
            speed_denominator: u32_from_le_bytes(q.as_slice()),
            enabled: u32_from_le_bytes(e.as_slice()),
            _pad: u32_from_le_bytes(z.as_slice()),
        }
    }

    /// The display text: `TimeControl(disabled)`, or the offset and speed.
    pub fn display_string(&self) -> (s: String)
        ensures
            s@ == control_text(*self),
    {
        let mut s = String::new();
        if self.enabled == 0 {
            push_str(&mut s, "TimeControl(disabled)");
        } else {
            push_str(&mut s, "TimeControl(offset: ");
            push_signed_decimal(&mut s, self.offset_seconds);
            push_str(&mut s, "s ");
            push_signed_decimal(&mut s, self.offset_nanos);
            push_str(&mut s, "ns, speed: ");
            push_decimal(&mut s, self.speed_numerator as u64);
            push_str(&mut s, "/");
            push_decimal(&mut s, self.speed_denominator as u64);
            push_str(&mut s, "x)");
        }
        s
    }
}

/// Law: a control block read back from its own bytes is the same block.
pub proof fn control_bytes_roundtrip(tc: TimeControl)
    ensures
        control_from_bytes(control_bytes(tc)) == tc,
{
    vstd::bytes::lemma_auto_spec_u64_to_from_le_bytes();
    vstd::bytes::lemma_auto_spec_u32_to_from_le_bytes();
    let b = control_bytes(tc);
    assert(b.subrange(0, 8) =~= spec_u64_to_le_bytes(tc.offset_seconds as u64));
    assert(b.subrange(8, 16) =~= spec_u64_to_le_bytes(tc.offset_nanos as u64));
    assert(b.subrange(16, 20) =~= spec_u32_to_le_bytes(tc.speed_numerator));
    assert(b.subrange(20, 24) =~= spec_u32_to_le_bytes(tc.speed_denominator));
    assert(b.subrange(24, 28) =~= spec_u32_to_le_bytes(tc.enabled));
    assert(b.subrange(28, 32) =~= spec_u32_to_le_bytes(tc._pad));
    let a = tc.offset_seconds;
    let c = tc.offset_nanos;
    assert((a as u64) as i64 == a) by (bit_vector);
    assert((c as u64) as i64 == c) by (bit_vector);
}

/// Handle to an injection's shared memory segment, with the original vDSO
/// bytes kept for revert.
#[derive(Debug)]
pub struct InjectionHandle {
    /// PID of the target process.
    pub pid: u32,
    /// Address of the shared memory in the target process.
    pub shm_addr: u64,
    /// Address of the payload in the target process.
    pub payload_addr: u64,
    /// Original bytes that were overwritten by the trampoline.
    pub original_bytes: Vec<u8>,
    /// Address where the trampoline was written (start of `__vdso_clock_gettime`).
    pub trampoline_addr: u64,
    /// Size of the allocated region in the target.
    pub allocated_size: usize,
    /// Address of the allocated region.
    pub allocated_addr: u64,
}

/// The pieces of a time offset text such as `+30d`: the sign, the number's
/// text and the unit in seconds.
pub open spec fn offset_parts(s: Seq<char>) -> (i64, Seq<char>, u64) {
    let t = trim(s);
    let (sign, rest) = if t.len() > 0 && t[0] == '+' {
        (1i64, t.skip(1))
    } else if t.len() > 0 && t[0] == '-' {
        (-1i64, t.skip(1))
    } else {
        (1i64, t)
    };
    if rest.len() > 0 && rest.last() == 'd' {
        (sign, rest.drop_last(), 86400u64)
    } else if rest.len() > 0 && rest.last() == 'h' {
        (sign, rest.drop_last(), 3600u64)
    } else if rest.len() > 0 && rest.last() == 'm' {
        (sign, rest.drop_last(), 60u64)
    } else if rest.len() > 0 && rest.last() == 's' {
        (sign, rest.drop_last(), 1u64)
    } else {
        (sign, rest, 1u64)
    }
}

/// Splits a time offset text like `+30d`, `-2h`, `+90m` or `3600s` into its
/// sign (`1` or `-1`), the text of its number and its unit in seconds (a
/// missing unit means seconds). Surrounding white space is ignored.
pub fn split_time_offset(s: &str) -> (r: (i64, String, u64))
    ensures
        (r.0, r.1@, r.2) == offset_parts(s@),
{
    let cs = chars_of(s);
    let (lo0, hi) = trim_bounds(cs.as_slice(), 0, cs.len());
    assert(cs@.subrange(0, cs@.len() as int) =~= cs@);
    let ghost t = cs@.subrange(lo0 as int, hi as int);
    let mut lo = lo0;
    let mut sign: i64 = 1;
    if lo < hi && cs[lo] == '+' {
        lo = lo + 1;
    } else if lo < hi && cs[lo] == '-' {
        sign = -1;
        lo = lo + 1;
    }
    assert(cs@.subrange(lo as int, hi as int) =~= if t.len() > 0 && (t[0] == '+' || t[0] == '-') {
        t.skip(1)
    } else {
        t
    });
    let mut end = hi;
    let mut unit: u64 = 1;
    if lo < hi {
        let last = cs[hi - 1];
        if last == 'd' {
            unit = 86400;
            end = hi - 1;
        } else if last == 'h' {
            unit = 3600;
            end = hi - 1;
        } else if last == 'm' {
            unit = 60;
            end = hi - 1;
        } else if last == 's' {
            end = hi - 1;
        }
    }
    if lo < hi {
        assert(cs@.subrange(lo as int, hi as int).drop_last() =~= cs@.subrange(lo as int, hi - 1));
    }
    (sign, chars_between(cs.as_slice(), lo, end), unit)
}

/// The number's text in a speed such as `10x`: trimmed, then trailing `x`
/// and then trailing `X` removed.
pub open spec fn speed_number_text(s: Seq<char>) -> Seq<char> {
    trim_end_char(trim_end_char(trim(s), 'x'), 'X')
}

/// The text of the number in a speed such as `10x` or `0.5x`.
pub fn speed_number(s: &str) -> (r: String)
    ensures
        r@ == speed_number_text(s@),
{
    let cs = chars_of(s);
    let (lo, hi0) = trim_bounds(cs.as_slice(), 0, cs.len());
    assert(cs@.subrange(0, cs@.len() as int) =~= cs@);
    let ghost t = cs@.subrange(lo as int, hi0 as int);
    let mut hi = hi0;
    while hi > lo && cs[hi - 1] == 'x'
        invariant
            lo <= hi <= hi0 <= cs@.len(),
            trim_end_char(cs@.subrange(lo as int, hi as int), 'x') == trim_end_char(t, 'x'),
        decreases hi - lo,
    {
        assert(cs@.subrange(lo as int, hi as int).drop_last() =~= cs@.subrange(lo as int, hi - 1));
        hi = hi - 1;
    }
    let ghost u = cs@.subrange(lo as int, hi as int);
    assert(trim_end_char(u, 'x') == u);
    let hi1 = hi;
    while hi > lo && cs[hi - 1] == 'X'
        invariant
            lo <= hi <= hi1 <= cs@.len(),
            trim_end_char(cs@.subrange(lo as int, hi as int), 'X') == trim_end_char(u, 'X'),
        decreases hi - lo,
    {
        assert(cs@.subrange(lo as int, hi as int).drop_last() =~= cs@.subrange(lo as int, hi - 1));
        hi = hi - 1;
    }
    chars_between(cs.as_slice(), lo, hi)
}

} // verus!
