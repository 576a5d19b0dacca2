//! Locating the vDSO in the text of `/proc/<pid>/maps`.
//!
//! A vDSO line looks like
//! `7fff12345000-7fff12346000 r-xp 00000000 00:00 0   [vdso]`.

use vstd::prelude::*;
use crate::text::{chars_of, is_white_space, is_white_space_char, parse_unsigned, parse_unsigned_in};

verus! {

/// Describes the memory mapping of the vDSO in a process.
#[derive(Debug, Clone)]
pub struct VdsoMapping {
    /// Start address of the vDSO mapping.
    pub start: u64,
    /// End address of the vDSO mapping.
    pub end: u64,
}

impl VdsoMapping {
    /// Size of the mapping in bytes.
    pub fn size(&self) -> (n: usize)
        requires
            self.start <= self.end,
            self.end - self.start <= usize::MAX,
        ensures
            n == self.end - self.start,
    {
        (self.end - self.start) as usize
    }
}

/// Why no vDSO mapping could be read from the maps text.
#[derive(Debug, Clone, Copy, PartialEq, Eq, Structural)]
pub enum MapsError {
    /// No line names `[vdso]`.
    NoVdso,
    /// The `[vdso]` line has no first field.
    EmptyLine,
    /// The first field has no `-` between the two addresses.
    InvalidRange,
    /// The start address is not hexadecimal that fits in 64 bits.
    InvalidStart,
    /// The end address is not hexadecimal that fits in 64 bits.
    InvalidEnd,
}

impl MapsError {
    /// The error's message.
    pub fn message(&self) -> (s: String)
        ensures
            s@ == maps_error_text(*self),
    {
        match self {
            MapsError::NoVdso => String::from_str("no [vdso] mapping found in process maps"),
            MapsError::EmptyLine => String::from_str("empty maps line"),
            MapsError::InvalidRange => String::from_str("invalid address range format"),
            MapsError::InvalidStart => String::from_str("invalid start address hex"),
            MapsError::InvalidEnd => String::from_str("invalid end address hex"),
        }
    }
}

/// The message of each error.
pub open spec fn maps_error_text(e: MapsError) -> Seq<char> {
    match e {
        MapsError::NoVdso => "no [vdso] mapping found in process maps"@,
        MapsError::EmptyLine => "empty maps line"@,
        MapsError::InvalidRange => "invalid address range format"@,
        MapsError::InvalidStart => "invalid start address hex"@,
        MapsError::InvalidEnd => "invalid end address hex"@,
    }
}

/// The marker that names the vDSO line.
pub open spec fn vdso_marker() -> Seq<char> {
    seq!['[', 'v', 'd', 's', 'o', ']']
}

/// Whether `pat` occurs in `s`.
pub open spec fn occurs_in(s: Seq<char>, pat: Seq<char>) -> bool {
    exists|i: int| 0 <= i && i + pat.len() <= s.len() && #[trigger] s.subrange(i, i + pat.len()) == pat
}

/// A line as `str::lines` yields it: one trailing `'\r'` removed.
pub open spec fn strip_cr(l: Seq<char>) -> Seq<char> {
    if l.len() > 0 && l.last() == '\r' {
        l.drop_last()
    } else {
        l
    }
}

/// The first line holding the vDSO marker, reading `s` after a line already
/// begun with `cur`. Lines end at `'\n'`; the last line needs none.
pub open spec fn vdso_line_after(s: Seq<char>, cur: Seq<char>) -> Option<Seq<char>>
    decreases s.len(),
{
    if s.len() == 0 {
        if occurs_in(strip_cr(cur), vdso_marker()) {
            Some(strip_cr(cur))
        } else {
            None
        }
    } else if s[0] == '\n' {
        if occurs_in(strip_cr(cur), vdso_marker()) {
            Some(strip_cr(cur))
        } else {
            vdso_line_after(s.skip(1), Seq::empty())
        }
    } else {
        vdso_line_after(s.skip(1), cur.push(s[0]))
    }
}

/// The first line of the maps text that holds `[vdso]`.
pub open spec fn vdso_line(s: Seq<char>) -> Option<Seq<char>> {
    vdso_line_after(s, Seq::empty())
}

/// `s` without its leading white space.
pub open spec fn skip_space(s: Seq<char>) -> Seq<char>
    decreases s.len(),
{
    if s.len() > 0 && is_white_space(s[0]) {
        skip_space(s.skip(1))
    } else {
        s
    }
}

/// The characters of `s` before its first white space.
pub open spec fn until_space(s: Seq<char>) -> Seq<char>
    decreases s.len(),
{
    if s.len() == 0 || is_white_space(s[0]) {
        Seq::empty()
    } else {
        seq![s[0]] + until_space(s.skip(1))
    }
}

/// The first white-space separated field of `l`, as `split_whitespace().next()` gives it.
pub open spec fn first_field(l: Seq<char>) -> Option<Seq<char>> {
    if skip_space(l).len() == 0 {
        None
    } else {
        Some(until_space(skip_space(l)))
    }
}

/// The position of the first `'-'` in `s`.
pub open spec fn dash_index(s: Seq<char>) -> Option<int> {
    if exists|i: int| 0 <= i < s.len() && s[i] == '-' {
        Some(choose|i: int| 0 <= i < s.len() && s[i] == '-' && forall|j: int| 0 <= j < i ==> s[j] != '-')
    } else {
        None
    }
}

/// What `parse_vdso_from_maps` gives for the maps text `s`.
pub open spec fn vdso_from_maps(s: Seq<char>) -> Result<(u64, u64), MapsError> {
    match vdso_line(s) {
        None => Err(MapsError::NoVdso),
        Some(l) => match first_field(l) {
            None => Err(MapsError::EmptyLine),
            Some(f) => match dash_index(f) {
                None => Err(MapsError::InvalidRange),
                Some(d) => match parse_unsigned(f.take(d), 16) {
                    None => Err(MapsError::InvalidStart),
                    Some(start) => match parse_unsigned(f.skip(d + 1), 16) {
                        None => Err(MapsError::InvalidEnd),
                        Some(end) => Ok((start, end)),
                    },
                },
            },
        },
    }
}

/// Whether `cs[lo..hi]` holds the vDSO marker.
fn has_marker(cs: &[char], lo: usize, hi: usize) -> (b: bool)
    requires
        lo <= hi <= cs@.len(),
    ensures
        b == occurs_in(cs@.subrange(lo as int, hi as int), vdso_marker()),
{
    let ghost l = cs@.subrange(lo as int, hi as int);
    if hi - lo < 6 {
        assert(!occurs_in(l, vdso_marker()));
        return false;
    }
    let mut i: usize = lo;
    while hi - i >= 6
        invariant
            lo <= i,
            i <= hi,
            hi <= cs@.len(),
            hi - lo >= 6,
            l == cs@.subrange(lo as int, hi as int),
            forall|k: int|
                0 <= k < i - lo ==> #[trigger] l.subrange(k, k + 6) != vdso_marker(),
        decreases hi - i,
    {
        if cs[i] == '[' && cs[i + 1] == 'v' && cs[i + 2] == 'd' && cs[i + 3] == 's' && cs[i + 4]
            == 'o' && cs[i + 5] == ']' {
            assert(l.subrange(i - lo, i - lo + 6) =~= vdso_marker());
            return true;
        }
        assert(l.subrange(i - lo, i - lo + 6) != vdso_marker()) by {
            if l.subrange(i - lo, i - lo + 6) == vdso_marker() {
                assert(l.subrange(i - lo, i - lo + 6)[0] == cs@[i as int]);
                assert(l.subrange(i - lo, i - lo + 6)[1] == cs@[i + 1]);
                assert(l.subrange(i - lo, i - lo + 6)[2] == cs@[i + 2]);
                assert(l.subrange(i - lo, i - lo + 6)[3] == cs@[i + 3]);
                assert(l.subrange(i - lo, i - lo + 6)[4] == cs@[i + 4]);
                assert(l.subrange(i - lo, i - lo + 6)[5] == cs@[i + 5]);
            }
        }
        i = i + 1;
    }
    assert(!occurs_in(l, vdso_marker())) by {
        if occurs_in(l, vdso_marker()) {
            let k = choose|k: int|
                0 <= k && k + 6 <= l.len() && #[trigger] l.subrange(k, k + 6) == vdso_marker();
            assert(k < i - lo);
        }
    }
    false
}

/// The bounds of the first line holding the marker, as `(lo, hi)` with any
/// trailing `'\r'` excluded.
fn find_vdso_line(cs: &[char]) -> (r: Option<(usize, usize)>)
    ensures
        match r {
            None => vdso_line(cs@) is None,
            Some((lo, hi)) => lo <= hi <= cs@.len() && vdso_line(cs@) == Some(
                cs@.subrange(lo as int, hi as int),
            ),
        },
{
    let n = cs.len();
    let mut start: usize = 0;
    let mut i: usize = 0;
    assert(cs@.skip(0) =~= cs@);
    assert(cs@.subrange(0, 0) =~= Seq::<char>::empty());
    while i < n
        invariant
            n == cs@.len(),
            start <= i <= n,
            vdso_line_after(cs@.skip(i as int), cs@.subrange(start as int, i as int)) == vdso_line(
                cs@,
            ),
        decreases n - i,
    {
        let ghost cur = cs@.subrange(start as int, i as int);
        let ghost rest = cs@.skip(i as int);
        assert(rest[0] == cs@[i as int]);
        if cs[i] == '\n' {
            let end = if i > start && cs[i - 1] == '\r' {
                i - 1
            } else {
                i
            };
            assert(strip_cr(cur) =~= cs@.subrange(start as int, end as int));
            if has_marker(cs, start, end) {
                return Some((start, end));
            }
            assert(rest.skip(1) =~= cs@.skip(i + 1));
            assert(cs@.subrange(i + 1, i + 1) =~= Seq::<char>::empty());
            start = i + 1;
        } else {
            assert(rest.skip(1) =~= cs@.skip(i + 1));
            assert(cur.push(cs@[i as int]) =~= cs@.subrange(start as int, i + 1));
        }
        i = i + 1;
    }
    let ghost cur = cs@.subrange(start as int, n as int);
    assert(cs@.skip(n as int).len() == 0);
    let end = if n > start && cs[n - 1] == '\r' {
        n - 1
    } else {
        n
    };
    assert(strip_cr(cur) =~= cs@.subrange(start as int, end as int));
    if has_marker(cs, start, end) {
        Some((start, end))
    } else {
        None
    }
}

/// Parses the vDSO mapping out of the text of a maps file: the first line
/// holding `[vdso]`, whose first field is `start-end` in hexadecimal.
pub fn parse_vdso_from_maps(maps_content: &str) -> (r: Result<VdsoMapping, MapsError>)
    ensures
        match r {
            Ok(m) => vdso_from_maps(maps_content@) == Ok::<(u64, u64), MapsError>((m.start, m.end)),
            Err(e) => vdso_from_maps(maps_content@) == Err::<(u64, u64), MapsError>(e),
        },
{
    let cs = chars_of(maps_content);
    let found = find_vdso_line(cs.as_slice());
    let (lo, hi) = match found {
        None => {
            return Err(MapsError::NoVdso);
        },
        Some(b) => b,
    };
    let ghost l = cs@.subrange(lo as int, hi as int);
    let mut a = lo;
    while a < hi && is_white_space_char(cs[a])
        invariant
            lo <= a <= hi <= cs@.len(),
            skip_space(cs@.subrange(a as int, hi as int)) == skip_space(l),
        decreases hi - a,
    {
        assert(cs@.subrange(a as int, hi as int).skip(1) =~= cs@.subrange(a + 1, hi as int));
        a = a + 1;
    }
    assert(skip_space(cs@.subrange(a as int, hi as int)) == cs@.subrange(a as int, hi as int));
    if a == hi {
        return Err(MapsError::EmptyLine);
    }
    let ghost sp = cs@.subrange(a as int, hi as int);
    let mut b = a;
    while b < hi && !is_white_space_char(cs[b])
        invariant
            a <= b <= hi <= cs@.len(),
            sp == cs@.subrange(a as int, hi as int),
            until_space(sp) == cs@.subrange(a as int, b as int) + until_space(
                cs@.subrange(b as int, hi as int),
            ),
        decreases hi - b,
    {
        let ghost t = cs@.subrange(b as int, hi as int);
        assert(t.skip(1) =~= cs@.subrange(b + 1, hi as int));
        assert(cs@.subrange(a as int, b as int) + seq![cs@[b as int]] =~= cs@.subrange(
            a as int,
            b + 1,
        ));
        b = b + 1;
    }
    let ghost f = cs@.subrange(a as int, b as int);
    assert(until_space(cs@.subrange(b as int, hi as int)) =~= Seq::<char>::empty());
    assert(until_space(sp) =~= f);
    let mut d = a;
    while d < b && cs[d] != '-'
        invariant
            a <= d <= b <= cs@.len(),
            f == cs@.subrange(a as int, b as int),
            forall|j: int| 0 <= j < d - a ==> f[j] != '-',
        decreases b - d,
    {
        d = d + 1;
    }
    if d == b {
        assert(dash_index(f) is None);
        return Err(MapsError::InvalidRange);
    }
    assert(f[d - a] == '-');
    assert(dash_index(f) == Some((d - a) as int)) by {
        let k = choose|i: int|
            0 <= i < f.len() && f[i] == '-' && forall|j: int| 0 <= j < i ==> f[j] != '-';
        if k < d - a {
        } else if k > d - a {
            assert(f[d - a] != '-');
        }
    }
    assert(f.take(d - a) =~= cs@.subrange(a as int, d as int));
    assert(f.skip(d - a + 1) =~= cs@.subrange(d + 1, b as int));
    let start = match parse_unsigned_in(cs.as_slice(), a, d, 16) {
        None => {
            return Err(MapsError::InvalidStart);
        },
        Some(v) => v,
    };
    let end = match parse_unsigned_in(cs.as_slice(), d + 1, b, 16) {
        None => {
            return Err(MapsError::InvalidEnd);
        },
        Some(v) => v,
    };
    Ok(VdsoMapping { start, end })
}

} // verus!
