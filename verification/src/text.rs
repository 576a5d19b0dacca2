//! Character-level helpers shared by the parsers and formatters: decimal and
//! hexadecimal rendering of integers and the `from_str_radix` grammar.

use vstd::prelude::*;

verus! {

/// Collects the characters of `s` into a vector.
pub fn chars_of(s: &str) -> (v: Vec<char>)
    ensures
        v@ == s@,
{
    let mut v: Vec<char> = Vec::new();
    for c in it: s.chars()
        invariant
            v@ == it.seq().take(it.index() as int),
            it.seq() == s@,
    {
        v.push(c);
    }
    v
}

/// Appends one character to a string (`String::push`).
#[verifier::external_body]
pub(crate) fn push_char(s: &mut String, c: char)
    ensures
        final(s)@ == old(s)@.push(c),
{
    s.push(c);
}

/// What `str::to_lowercase` makes of a text (Unicode lowercase mapping).
pub uninterp spec fn lowercase_text(s: Seq<char>) -> Seq<char>;

/// An ASCII character in lower case (other characters unchanged).
pub open spec fn ascii_lower_char(c: char) -> char {
    if 'A' <= c && c <= 'Z' {
        ((c as u32) + 32) as char
    } else {
        c
    }
}

/// Whether every character is ASCII.
pub open spec fn all_ascii(s: Seq<char>) -> bool {
    forall|i: int| 0 <= i < s.len() ==> (s[i] as u32) < 128
}

/// `str::to_lowercase`: the result is the Unicode lowercase mapping of `s`,
/// which for ASCII text lowers `A`..`Z` and keeps every other character.
#[verifier::external_body]
pub(crate) fn to_lowercase(s: &str) -> (r: String)
    ensures
        r@ == lowercase_text(s@),
        all_ascii(s@) ==> r@ == s@.map_values(|c: char| ascii_lower_char(c)),
{
    s.to_lowercase()
}

/// Appends a string slice to a string.
pub fn push_str(s: &mut String, t: &str)
    ensures
        final(s)@ == old(s)@ + t@,
{
    s.append(t);
}

/// Builds a string holding exactly the given characters.
pub fn string_from_chars(cs: &[char]) -> (s: String)
    ensures
        s@ == cs@,
{
    let mut s = String::new();
    let mut i: usize = 0;
    while i < cs.len()
        invariant
            i <= cs@.len(),
            s@ == cs@.take(i as int),
        decreases cs@.len() - i,
    {
        push_char(&mut s, cs[i]);
        i = i + 1;
        assert(s@ == cs@.take(i as int));
    }
    assert(cs@.take(cs@.len() as int) == cs@);
    s
}

/// The character of a digit value below 16, upper-case for values of ten and more.
pub open spec fn digit_char(d: nat) -> char {
    if d < 10 {
        (48 + d) as char
    } else {
        (55 + d) as char
    }
}

/// Decimal rendering of `n`, without leading zeros.
pub open spec fn decimal_chars(n: nat) -> Seq<char>
    decreases n,
{
    if n < 10 {
        seq![digit_char(n)]
    } else {
        decimal_chars(n / 10).push(digit_char(n % 10))
    }
}

/// Upper-case hexadecimal rendering of `n`, without leading zeros.
pub open spec fn hex_chars(n: nat) -> Seq<char>
    decreases n,
{
    if n < 16 {
        seq![digit_char(n)]
    } else {
        hex_chars(n / 16).push(digit_char(n % 16))
    }
}

/// `s` padded on the left with `'0'` up to `width` characters.
pub open spec fn zero_pad(s: Seq<char>, width: nat) -> Seq<char> {
    if s.len() >= width {
        s
    } else {
        Seq::new((width - s.len()) as nat, |i: int| '0') + s
    }
}

/// Decimal rendering of a signed integer, with a leading `-` when negative.
pub open spec fn signed_decimal_chars(n: int) -> Seq<char> {
    if n < 0 {
        seq!['-'] + decimal_chars((-n) as nat)
    } else {
        decimal_chars(n as nat)
    }
}

fn digit_to_char(d: u64) -> (c: char)
    requires
        d < 16,
    ensures
        c == digit_char(d as nat),
{
    if d < 10 {
        ((48 + d) as u8) as char
    } else {
        ((55 + d) as u8) as char
    }
}

/// Appends the decimal rendering of `n`.
pub fn push_decimal(s: &mut String, n: u64)
    ensures
        final(s)@ == old(s)@ + decimal_chars(n as nat),
    decreases n,
{
    if n >= 10 {
        push_decimal(s, n / 10);
    }
    push_char(s, digit_to_char(n % 10));
}

/// Appends the decimal rendering of a signed integer.
pub fn push_signed_decimal(s: &mut String, n: i64)
    ensures
        final(s)@ == old(s)@ + signed_decimal_chars(n as int),
{
    if n < 0 {
        push_char(s, '-');
        let m: u64 = if n == i64::MIN {
            0x8000_0000_0000_0000u64
        } else {
            (-n) as u64
        };
        push_decimal(s, m);
        assert(final(s)@ =~= old(s)@ + signed_decimal_chars(n as int));
    } else {
        push_decimal(s, n as u64);
    }
}

/// Appends the upper-case hexadecimal rendering of `n`.
pub fn push_hex(s: &mut String, n: u64)
    ensures
        final(s)@ == old(s)@ + hex_chars(n as nat),
    decreases n,
{
    if n >= 16 {
        push_hex(s, n / 16);
    }
    push_char(s, digit_to_char(n % 16));
}

/// Decimal rendering of `n` as a new string.
pub fn decimal_string(n: u64) -> (s: String)
    ensures
        s@ == decimal_chars(n as nat),
{
    let mut s = String::new();
    push_decimal(&mut s, n);
    assert(s@ =~= decimal_chars(n as nat));
    s
}

proof fn lemma_hex_chars_nonempty(n: nat)
    ensures
        hex_chars(n).len() >= 1,
    decreases n,
{
    if n >= 16 {
        lemma_hex_chars_nonempty(n / 16);
    }
}

/// Appends the upper-case hexadecimal rendering of `n`, zero-padded to `width` digits.
pub fn push_hex_padded(s: &mut String, n: u64, width: usize)
    requires
        width <= 64,
    ensures
        final(s)@ == old(s)@ + zero_pad(hex_chars(n as nat), width as nat),
{
    let mut digits = String::new();
    push_hex(&mut digits, n);
    let len = digits.as_str().unicode_len();
    let ghost h = hex_chars(n as nat);
    assert(digits@ =~= h);
    if len < width {
        let mut k: usize = 0;
        while k < width - len
            invariant
                len < width,
                k <= width - len,
                s@ == old(s)@ + Seq::new(k as nat, |i: int| '0'),
            decreases width - len - k,
        {
            push_char(s, '0');
            k = k + 1;
            assert(s@ =~= old(s)@ + Seq::new(k as nat, |i: int| '0'));
        }
    }
    let ghost before = s@;
    push_str(s, digits.as_str());
    assert(s@ =~= old(s)@ + zero_pad(h, width as nat)) by {
        lemma_hex_chars_nonempty(n as nat);
        if len < width {
            assert(before =~= old(s)@ + Seq::new((width - len) as nat, |i: int| '0'));
        } else {
            assert(before == old(s)@);
        }
    }
}

// ---------------------------------------------------------------------------
// Parsing, following the grammar of `u64::from_str_radix`: an optional `+`,
// then one or more digits of the radix; a value above `u64::MAX` is an error.
// ---------------------------------------------------------------------------

/// The value of `c` as a digit of `radix` (2 to 16), if it is one.
pub open spec fn char_digit(c: char, radix: nat) -> Option<nat> {
    let v: nat = if '0' <= c && c <= '9' {
        (c as nat - 48) as nat
    } else if 'a' <= c && c <= 'z' {
        (c as nat - 87) as nat
    } else if 'A' <= c && c <= 'Z' {
        (c as nat - 55) as nat
    } else {
        99
    };
    if v < radix {
        Some(v)
    } else {
        None
    }
}

/// Every character of `s` is a digit of `radix`.
pub open spec fn all_digits(s: Seq<char>, radix: nat) -> bool {
    forall|i: int| 0 <= i < s.len() ==> (#[trigger] char_digit(s[i], radix)) is Some
}

/// The number that the digits `s` denote in `radix` (most significant first).
pub open spec fn digits_value(s: Seq<char>, radix: nat) -> nat
    decreases s.len(),
{
    if s.len() == 0 {
        0
    } else {
        digits_value(s.drop_last(), radix) * radix + char_digit(s.last(), radix).unwrap()
    }
}

/// The digits that follow an optional leading `+`.
pub open spec fn unsigned_body(s: Seq<char>) -> Seq<char> {
    if s.len() > 0 && s[0] == '+' {
        s.drop_first()
    } else {
        s
    }
}

/// What `u64::from_str_radix(s, radix)` gives: `Some` value exactly when `s`
/// is an optional `+` followed by one or more digits whose value fits in a `u64`.
pub open spec fn parse_unsigned(s: Seq<char>, radix: nat) -> Option<u64> {
    let body = unsigned_body(s);
    if body.len() > 0 && all_digits(body, radix) && digits_value(body, radix) <= u64::MAX {
        Some(digits_value(body, radix) as u64)
    } else {
        None
    }
}

fn exec_char_digit(c: char, radix: u64) -> (r: Option<u64>)
    requires
        2 <= radix <= 16,
    ensures
        r matches Some(v) ==> char_digit(c, radix as nat) == Some(v as nat),
        r is None ==> char_digit(c, radix as nat) is None,
{
    let v: u64 = if '0' <= c && c <= '9' {
        (c as u64) - 48
    } else if 'a' <= c && c <= 'z' {
        (c as u64) - 87
    } else if 'A' <= c && c <= 'Z' {
        (c as u64) - 55
    } else {
        99
    };
    if v < radix {
        Some(v)
    } else {
        None
    }
}

proof fn lemma_digits_value_prefix_mono(s: Seq<char>, radix: nat, i: int)
    requires
        2 <= radix,
        0 <= i <= s.len(),
        all_digits(s, radix),
    ensures
        digits_value(s.take(i), radix) <= digits_value(s, radix),
    decreases s.len() - i,
{
    if i < s.len() {
        lemma_digits_value_prefix_mono(s, radix, i + 1);
        let t = s.take(i + 1);
        assert(t.drop_last() =~= s.take(i));
        assert(char_digit(t.last(), radix) is Some);
        assert(digits_value(t, radix) == digits_value(s.take(i), radix) * radix + char_digit(
            t.last(),
            radix,
        ).unwrap());
        assert(digits_value(s.take(i), radix) <= digits_value(s.take(i), radix) * radix)
            by (nonlinear_arith)
            requires
                radix >= 2,
        ;
    } else {
        assert(s.take(i) =~= s);
    }
}

/// Parses `cs[lo..hi]` by the grammar of `u64::from_str_radix`.
pub fn parse_unsigned_in(cs: &[char], lo: usize, hi: usize, radix: u64) -> (r: Option<u64>)
    requires
        lo <= hi <= cs@.len(),
        2 <= radix <= 16,
    ensures
        r == parse_unsigned(cs@.subrange(lo as int, hi as int), radix as nat),
{
    let ghost s = cs@.subrange(lo as int, hi as int);
    let mut start = lo;
    if lo < hi && cs[lo] == '+' {
        start = lo + 1;
    }
    let ghost body = cs@.subrange(start as int, hi as int);
    assert(body =~= unsigned_body(s));
    if start == hi {
        return None;
    }
    let mut acc: u64 = 0;
    let mut i = start;
    while i < hi
        invariant
            lo <= start <= i <= hi <= cs@.len(),
            2 <= radix <= 16,
            body == cs@.subrange(start as int, hi as int),
            body == unsigned_body(cs@.subrange(lo as int, hi as int)),
            body.len() > 0,
            all_digits(body.take((i - start) as int), radix as nat),
            acc == digits_value(body.take((i - start) as int), radix as nat),
        decreases hi - i,
    {
        let ghost k = (i - start) as int;
        let d = exec_char_digit(cs[i], radix);
        assert(body[k] == cs@[i as int]);
        match d {
            None => {
                assert(!all_digits(body, radix as nat)) by {
                    assert(char_digit(body[k], radix as nat) is None);
                }
                return None;
            },
            Some(dv) => {
                let ghost t = body.take(k + 1);
                assert(t.drop_last() =~= body.take(k));
                assert(t.last() == body[k]);
                assert(all_digits(t, radix as nat)) by {
                    assert forall|j: int| 0 <= j < t.len() implies (#[trigger] char_digit(
                        t[j],
                        radix as nat,
                    )) is Some by {
                        if j < k {
                            assert(t[j] == body.take(k)[j]);
                        }
                    }
                }
                assert(digits_value(t, radix as nat) == (acc as nat) * (radix as nat) + (dv as nat));
                match acc.checked_mul(radix) {
                    None => {
                        proof {
                            assert(digits_value(t, radix as nat) > u64::MAX);
                            if all_digits(body, radix as nat) {
                                lemma_digits_value_prefix_mono(body, radix as nat, k + 1);
                            }
                        }
                        return None;
                    },
                    Some(m) => {
                        match m.checked_add(dv) {
                            None => {
                                proof {
                                    if all_digits(body, radix as nat) {
                                        lemma_digits_value_prefix_mono(body, radix as nat, k + 1);
                                    }
                                }
                                return None;
                            },
                            Some(v) => {
                                acc = v;
                            },
                        }
                    },
                }
            },
        }
        i = i + 1;
    }
    assert(body.take((hi - start) as int) =~= body);
    Some(acc)
}


/// Why `u64::from_str_radix` refuses a text (`std::num::IntErrorKind`).
#[derive(Debug, Clone, Copy, PartialEq, Eq, Structural)]
pub enum IntErrorKind {
    /// The text is empty.
    Empty,
    /// A character is not a digit of the radix (or the text is a lone sign).
    InvalidDigit,
    /// The value does not fit in 64 bits.
    PosOverflow,
}

impl IntErrorKind {
    /// The message `ParseIntError` displays for this kind.
    pub fn message(&self) -> (s: String)
        ensures
            s@ == int_error_text(*self),
    {
        match self {
            IntErrorKind::Empty => String::from_str("cannot parse integer from empty string"),
            IntErrorKind::InvalidDigit => String::from_str("invalid digit found in string"),
            IntErrorKind::PosOverflow => String::from_str("number too large to fit in target type"),
        }
    }
}

/// The message `ParseIntError` displays for each kind.
pub open spec fn int_error_text(k: IntErrorKind) -> Seq<char> {
    match k {
        IntErrorKind::Empty => "cannot parse integer from empty string"@,
        IntErrorKind::InvalidDigit => "invalid digit found in string"@,
        IntErrorKind::PosOverflow => "number too large to fit in target type"@,
    }
}

/// Reads the digits `s` left to right onto `acc`, as `from_str_radix` does:
/// the first non-digit is an invalid digit, and a running value above
/// `u64::MAX` is an overflow, whichever comes first.
pub open spec fn scan_digits(s: Seq<char>, radix: nat, acc: nat) -> Result<u64, IntErrorKind>
    decreases s.len(),
{
    if s.len() == 0 {
        Ok(acc as u64)
    } else {
        match char_digit(s[0], radix) {
            None => Err(IntErrorKind::InvalidDigit),
            Some(d) => if acc * radix + d > u64::MAX {
                Err(IntErrorKind::PosOverflow)
            } else {
                scan_digits(s.skip(1), radix, acc * radix + d)
            },
        }
    }
}

/// What `u64::from_str_radix(s, radix)` returns, with the kind of its error.
pub open spec fn from_str_radix_u64(s: Seq<char>, radix: nat) -> Result<u64, IntErrorKind> {
    if s.len() == 0 {
        Err(IntErrorKind::Empty)
    } else if s.len() == 1 && (s[0] == '+' || s[0] == '-') {
        Err(IntErrorKind::InvalidDigit)
    } else {
        scan_digits(unsigned_body(s), radix, 0)
    }
}

/// Parses `cs[lo..hi]` as `u64::from_str_radix` does, error kind included.
pub fn parse_u64_radix(cs: &[char], lo: usize, hi: usize, radix: u64) -> (r: Result<u64, IntErrorKind>)
    requires
        lo <= hi <= cs@.len(),
        2 <= radix <= 16,
    ensures
        r == from_str_radix_u64(cs@.subrange(lo as int, hi as int), radix as nat),
{
    let ghost s = cs@.subrange(lo as int, hi as int);
    if lo == hi {
        return Err(IntErrorKind::Empty);
    }
    if hi - lo == 1 && (cs[lo] == '+' || cs[lo] == '-') {
        return Err(IntErrorKind::InvalidDigit);
    }
    let mut start = lo;
    if cs[lo] == '+' {
        start = lo + 1;
    }
    assert(cs@.subrange(start as int, hi as int) =~= unsigned_body(s));
    let mut acc: u64 = 0;
    let mut i = start;
    while i < hi
        invariant
            lo <= start <= i <= hi <= cs@.len(),
            2 <= radix <= 16,
            s == cs@.subrange(lo as int, hi as int),
            s.len() > 0,
            !(s.len() == 1 && (s[0] == '+' || s[0] == '-')),
            scan_digits(cs@.subrange(i as int, hi as int), radix as nat, acc as nat) == from_str_radix_u64(s, radix as nat),
        decreases hi - i,
    {
        let ghost rest = cs@.subrange(i as int, hi as int);
        assert(rest[0] == cs@[i as int]);
        assert(rest.skip(1) =~= cs@.subrange(i + 1, hi as int));
        match exec_char_digit(cs[i], radix) {
            None => {
                return Err(IntErrorKind::InvalidDigit);
            },
            Some(d) => {
                match acc.checked_mul(radix) {
                    None => {
                        assert((acc as nat) * (radix as nat) + (d as nat) > u64::MAX);
                        return Err(IntErrorKind::PosOverflow);
                    },
                    Some(m) => match m.checked_add(d) {
                        None => {
                            return Err(IntErrorKind::PosOverflow);
                        },
                        Some(v) => {
                            acc = v;
                        },
                    },
                }
            },
        }
        i = i + 1;
    }
    assert(cs@.subrange(hi as int, hi as int).len() == 0);
    Ok(acc)
}
} // verus!

verus! {

/// `n` zero characters.
pub open spec fn zeros(n: nat) -> Seq<char> {
    Seq::new(n, |i: int| '0')
}

pub proof fn lemma_digit_char_roundtrip(d: nat, radix: nat)
    requires
        d < radix,
        radix <= 16,
    ensures
        char_digit(digit_char(d), radix) == Some(d),
{
}

pub proof fn lemma_hex_chars_value(n: nat)
    ensures
        all_digits(hex_chars(n), 16),
        digits_value(hex_chars(n), 16) == n,
        hex_chars(n).len() >= 1,
        hex_chars(n)[0] != '+',
    decreases n,
{
    lemma_digit_char_roundtrip(n % 16, 16);
    if n >= 16 {
        lemma_hex_chars_value(n / 16);
        let s = hex_chars(n);
        assert(s.drop_last() =~= hex_chars(n / 16));
        assert(s.last() == digit_char(n % 16));
        assert(digits_value(s, 16) == digits_value(hex_chars(n / 16), 16) * 16 + n % 16);
        assert forall|i: int| 0 <= i < s.len() implies (#[trigger] char_digit(s[i], 16)) is Some by {
            if i < s.len() - 1 {
                assert(s[i] == hex_chars(n / 16)[i]);
            }
        }
    } else {
        assert(hex_chars(n) =~= seq![digit_char(n)]);
        assert(hex_chars(n).drop_last() =~= Seq::<char>::empty());
        assert(hex_chars(n).last() == digit_char(n));
        assert(digits_value(Seq::<char>::empty(), 16) == 0);
        assert(digits_value(hex_chars(n), 16) == 0 * 16 + n);
    }
}

pub proof fn lemma_decimal_chars_value(n: nat)
    ensures
        all_digits(decimal_chars(n), 10),
        digits_value(decimal_chars(n), 10) == n,
        decimal_chars(n).len() >= 1,
        decimal_chars(n)[0] != '+',
    decreases n,
{
    lemma_digit_char_roundtrip(n % 10, 10);
    if n >= 10 {
        lemma_decimal_chars_value(n / 10);
        let s = decimal_chars(n);
        assert(s.drop_last() =~= decimal_chars(n / 10));
        assert(s.last() == digit_char(n % 10));
        assert(digits_value(s, 10) == digits_value(decimal_chars(n / 10), 10) * 10 + n % 10);
        assert forall|i: int| 0 <= i < s.len() implies (#[trigger] char_digit(s[i], 10)) is Some by {
            if i < s.len() - 1 {
                assert(s[i] == decimal_chars(n / 10)[i]);
            }
        }
    } else {
        assert(decimal_chars(n) =~= seq![digit_char(n)]);
        assert(decimal_chars(n).drop_last() =~= Seq::<char>::empty());
        assert(decimal_chars(n).last() == digit_char(n));
        assert(digits_value(Seq::<char>::empty(), 10) == 0);
        assert(digits_value(decimal_chars(n), 10) == 0 * 10 + n);
    }
}

proof fn lemma_zeros_value(k: nat, radix: nat)
    requires
        2 <= radix <= 16,
    ensures
        all_digits(zeros(k), radix),
        digits_value(zeros(k), radix) == 0,
    decreases k,
{
    if k > 0 {
        lemma_zeros_value((k - 1) as nat, radix);
        assert(zeros(k).drop_last() =~= zeros((k - 1) as nat));
        assert(zeros(k).last() == '0');
        assert(char_digit('0', radix) == Some(0nat));
        assert(digits_value(zeros(k), radix) == 0 * radix + 0);
    }
}

/// Leading zeros do not change the value of a digit string.
pub proof fn lemma_zero_prefix_value(k: nat, s: Seq<char>, radix: nat)
    requires
        2 <= radix <= 16,
        all_digits(s, radix),
    ensures
        all_digits(zeros(k) + s, radix),
        digits_value(zeros(k) + s, radix) == digits_value(s, radix),
    decreases s.len(),
{
    lemma_zeros_value(k, radix);
    let z = zeros(k) + s;
    assert forall|i: int| 0 <= i < z.len() implies (#[trigger] char_digit(z[i], radix)) is Some by {
        if i < k {
            assert(z[i] == zeros(k)[i]);
        } else {
            assert(z[i] == s[i - k]);
        }
    }
    if s.len() == 0 {
        assert(z =~= zeros(k));
    } else {
        let s2 = s.drop_last();
        assert(all_digits(s2, radix)) by {
            assert forall|i: int| 0 <= i < s2.len() implies (#[trigger] char_digit(s2[i], radix)) is Some by {
                assert(s2[i] == s[i]);
            }
        }
        lemma_zero_prefix_value(k, s2, radix);
        assert(z.drop_last() =~= zeros(k) + s2);
        assert(z.last() == s.last());
    }
}

/// Whether `c` has the Unicode `White_Space` property, as `char::is_whitespace` tests.
pub open spec fn is_white_space(c: char) -> bool {
    let n = c as u32;
    ||| 0x09 <= n <= 0x0d
    ||| n == 0x20
    ||| n == 0x85
    ||| n == 0xa0
    ||| n == 0x1680
    ||| 0x2000 <= n <= 0x200a
    ||| n == 0x2028
    ||| n == 0x2029
    ||| n == 0x202f
    ||| n == 0x205f
    ||| n == 0x3000
}

/// Whether `c` is white space (`char::is_whitespace`).
pub fn is_white_space_char(c: char) -> (b: bool)
    ensures
        b == is_white_space(c),
{
    let n = c as u32;
    (0x09 <= n && n <= 0x0d) || n == 0x20 || n == 0x85 || n == 0xa0 || n == 0x1680 || (0x2000
        <= n && n <= 0x200a) || n == 0x2028 || n == 0x2029 || n == 0x202f || n == 0x205f || n
        == 0x3000
}

/// `s` without its leading white space.
pub open spec fn trim_start(s: Seq<char>) -> Seq<char>
    decreases s.len(),
{
    if s.len() > 0 && is_white_space(s[0]) {
        trim_start(s.skip(1))
    } else {
        s
    }
}

/// `s` without its trailing white space.
pub open spec fn trim_end(s: Seq<char>) -> Seq<char>
    decreases s.len(),
{
    if s.len() > 0 && is_white_space(s.last()) {
        trim_end(s.drop_last())
    } else {
        s
    }
}

/// `s` without leading and trailing white space, as `str::trim` gives it.
pub open spec fn trim(s: Seq<char>) -> Seq<char> {
    trim_end(trim_start(s))
}

/// `s` with every trailing `c` removed, as `str::trim_end_matches(c)` gives it.
pub open spec fn trim_end_char(s: Seq<char>, c: char) -> Seq<char>
    decreases s.len(),
{
    if s.len() > 0 && s.last() == c {
        trim_end_char(s.drop_last(), c)
    } else {
        s
    }
}

/// The bounds `lo..hi` of `cs@.subrange(start, end)` once white space is
/// trimmed from both ends.
pub fn trim_bounds(cs: &[char], start: usize, end: usize) -> (r: (usize, usize))
    requires
        start <= end <= cs@.len(),
    ensures
        start <= r.0 <= r.1 <= end,
        cs@.subrange(r.0 as int, r.1 as int) == trim(cs@.subrange(start as int, end as int)),
{
    let ghost whole = cs@.subrange(start as int, end as int);
    let mut lo = start;
    while lo < end && is_white_space_char(cs[lo])
        invariant
            start <= lo <= end <= cs@.len(),
            trim_start(cs@.subrange(lo as int, end as int)) == trim_start(whole),
        decreases end - lo,
    {
        assert(cs@.subrange(lo as int, end as int).skip(1) =~= cs@.subrange(lo + 1, end as int));
        lo = lo + 1;
    }
    assert(trim_start(cs@.subrange(lo as int, end as int)) == cs@.subrange(lo as int, end as int));
    let mut hi = end;
    while hi > lo && is_white_space_char(cs[hi - 1])
        invariant
            start <= lo <= hi <= end <= cs@.len(),
            trim_end(cs@.subrange(lo as int, hi as int)) == trim(whole),
        decreases hi - lo,
    {
        assert(cs@.subrange(lo as int, hi as int).drop_last() =~= cs@.subrange(lo as int, hi - 1));
        hi = hi - 1;
    }
    (lo, hi)
}

/// The string `s` with leading and trailing white space removed (`str::trim`).
pub fn trim_str(s: &str) -> (r: String)
    ensures
        r@ == trim(s@),
{
    let cs = chars_of(s);
    let (lo, hi) = trim_bounds(cs.as_slice(), 0, cs.len());
    assert(cs@.subrange(0, cs@.len() as int) =~= cs@);
    chars_between(cs.as_slice(), lo, hi)
}

/// The characters `cs[lo..hi]` as a string.
pub fn chars_between(cs: &[char], lo: usize, hi: usize) -> (s: String)
    requires
        lo <= hi <= cs@.len(),
    ensures
        s@ == cs@.subrange(lo as int, hi as int),
{
    let mut s = String::new();
    let mut i: usize = lo;
    while i < hi
        invariant
            lo <= i <= hi <= cs@.len(),
            s@ == cs@.subrange(lo as int, i as int),
        decreases hi - i,
    {
        push_char(&mut s, cs[i]);
        i = i + 1;
        assert(s@ =~= cs@.subrange(lo as int, i as int));
    }
    s
}

/// Whether `s` starts with `prefix`.
pub open spec fn starts_with(s: Seq<char>, prefix: Seq<char>) -> bool {
    prefix.len() <= s.len() && s.take(prefix.len() as int) == prefix
}

/// Whether two string slices hold the same characters.
pub fn same_str(s: &str, t: &str) -> (b: bool)
    ensures
        b == (s@ == t@),
{
    let a = chars_of(s);
    let c = chars_of(t);
    if a.len() != c.len() {
        return false;
    }
    let mut i: usize = 0;
    while i < a.len()
        invariant
            a@ == s@,
            c@ == t@,
            a@.len() == c@.len(),
            i <= a@.len(),
            forall|j: int| 0 <= j < i ==> a@[j] == c@[j],
        decreases a@.len() - i,
    {
        if a[i] != c[i] {
            return false;
        }
        i = i + 1;
    }
    assert(a@ =~= c@);
    true
}


/// Whether `s` starts with `prefix` (`str::starts_with`).
pub fn str_starts_with(s: &str, prefix: &str) -> (b: bool)
    ensures
        b == starts_with(s@, prefix@),
{
    let a = chars_of(s);
    let p = chars_of(prefix);
    if p.len() > a.len() {
        return false;
    }
    let mut i: usize = 0;
    while i < p.len()
        invariant
            a@ == s@,
            p@ == prefix@,
            p@.len() <= a@.len(),
            i <= p@.len(),
            forall|j: int| 0 <= j < i ==> a@[j] == p@[j],
        decreases p@.len() - i,
    {
        if a[i] != p[i] {
            assert(s@.take(p@.len() as int)[i as int] != p@[i as int]);
            return false;
        }
        i = i + 1;
    }
    assert(s@.take(p@.len() as int) =~= p@);
    true
}

} // verus!
