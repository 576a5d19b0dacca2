//! Simulation seeds: rendering, parsing and the random source behind them.

use vstd::prelude::*;
use crate::text::{
    chars_of, hex_chars, lemma_hex_chars_value, lemma_zero_prefix_value, parse_unsigned,
    parse_unsigned_in, push_hex_padded, push_str, unsigned_body, zero_pad, zeros,
};
use std::str::FromStr;
use rand::rngs::StdRng;
use crate::rng::{std_rng_from_seed, thread_random_u64};

verus! {

/// A random seed used for deterministic simulations.
#[derive(Debug, Clone, Copy, PartialEq, Eq, Structural, Hash)]
pub struct SimSeed(pub u64);

/// Why a seed string was refused: it is not a number of the chosen base that fits in 64 bits.
#[derive(Debug, Clone, Copy, PartialEq, Eq, Structural)]
pub struct ParseSeedError;

/// `s` with every leading `"seed:"` removed, as `str::trim_start_matches` does.
pub open spec fn strip_seed_prefixes(s: Seq<char>) -> Seq<char>
    decreases s.len(),
{
    if s.len() >= 5 && s.take(5) == seq!['s', 'e', 'e', 'd', ':'] {
        strip_seed_prefixes(s.skip(5))
    } else {
        s
    }
}

/// Whether `s` begins with `0x` or `0X`.
pub open spec fn has_hex_prefix(s: Seq<char>) -> bool {
    s.len() >= 2 && s[0] == '0' && (s[1] == 'x' || s[1] == 'X')
}

/// The value a seed string denotes: after the `seed:` prefixes, hexadecimal
/// behind `0x`/`0X`, decimal otherwise.
pub open spec fn seed_value(s: Seq<char>) -> Option<u64> {
    let t = strip_seed_prefixes(s);
    if has_hex_prefix(t) {
        parse_unsigned(t.skip(2), 16)
    } else {
        parse_unsigned(t, 10)
    }
}

/// How a seed is displayed: `seed:0x` and sixteen upper-case hexadecimal digits.
pub open spec fn seed_text(n: u64) -> Seq<char> {
    seq!['s', 'e', 'e', 'd', ':', '0', 'x'] + zero_pad(hex_chars(n as nat), 16)
}

impl SimSeed {
    /// Creates a new `SimSeed` from a given `u64`.
    pub fn new(value: u64) -> (s: Self)
        ensures
            s.0 == value,
    {
        SimSeed(value)
    }

    /// Creates a new random `SimSeed`; any value may come out.
    pub fn random() -> Self {
        SimSeed(thread_random_u64())
    }

    /// Creates the seeded generator for this seed (`StdRng::seed_from_u64`).
    pub fn rng(&self) -> StdRng {
        std_rng_from_seed(self.0)
    }

    /// Renders the seed as `seed:0x` followed by sixteen upper-case hex digits.
    pub fn display_string(&self) -> (s: String)
        ensures
            s@ == seed_text(self.0),
    {
        let mut s = String::new();
        push_str(&mut s, "seed:0x");
        push_hex_padded(&mut s, self.0, 16);
        proof {
            reveal_strlit("seed:0x");
            assert(s@ =~= seed_text(self.0));
        }
        s
    }

    /// Parses a seed: any number of leading `seed:` prefixes, then either
    /// `0x`/`0X` and hexadecimal digits, or decimal digits.
    pub fn parse(s: &str) -> (r: Result<SimSeed, ParseSeedError>)
        ensures
            r matches Ok(v) ==> seed_value(s@) == Some(v.0),
            r is Err <==> seed_value(s@) is None,
    {
        let cs = chars_of(s);
        let mut start: usize = 0;
        assert(cs@.skip(0) =~= cs@);
        while cs.len() - start >= 5 && cs[start] == 's' && cs[start + 1] == 'e' && cs[start + 2]
            == 'e' && cs[start + 3] == 'd' && cs[start + 4] == ':'
            invariant
                start <= cs@.len(),
                strip_seed_prefixes(cs@.skip(start as int)) == strip_seed_prefixes(cs@),
            decreases cs@.len() - start,
        {
            let ghost t = cs@.skip(start as int);
            assert(t.take(5) =~= seq!['s', 'e', 'e', 'd', ':']);
            assert(t.skip(5) =~= cs@.skip(start + 5));
            start = start + 5;
        }
        let ghost t = cs@.skip(start as int);
        assert(!(t.len() >= 5 && t.take(5) == seq!['s', 'e', 'e', 'd', ':'])) by {
            if t.len() >= 5 && t.take(5) == seq!['s', 'e', 'e', 'd', ':'] {
                assert(t.take(5)[0] == t[0]);
                assert(t.take(5)[1] == t[1]);
                assert(t.take(5)[2] == t[2]);
                assert(t.take(5)[3] == t[3]);
                assert(t.take(5)[4] == t[4]);
            }
        }
        assert(strip_seed_prefixes(t) == t);
        let n = cs.len();
        let parsed = if n - start >= 2 && cs[start] == '0' && (cs[start + 1] == 'x' || cs[start
            + 1] == 'X') {
            assert(cs@.subrange(start + 2, n as int) =~= t.skip(2));
            parse_unsigned_in(cs.as_slice(), start + 2, n, 16)
        } else {
            assert(cs@.subrange(start as int, n as int) =~= t);
            parse_unsigned_in(cs.as_slice(), start, n, 10)
        };
        match parsed {
            Some(v) => Ok(SimSeed(v)),
            None => Err(ParseSeedError),
        }
    }
}

impl FromStr for SimSeed {
    type Err = ParseSeedError;

    fn from_str(s: &str) -> (r: Result<Self, Self::Err>)
        ensures
            r matches Ok(v) ==> seed_value(s@) == Some(v.0),
            r is Err <==> seed_value(s@) is None,
    {
        SimSeed::parse(s)
    }
}

/// Law: a displayed seed parses back to the same seed.
pub proof fn seed_display_roundtrip(seed: SimSeed)
    ensures
        seed_value(seed_text(seed.0)) == Some(seed.0),
{
    let n = seed.0 as nat;
    let s = seed_text(seed.0);
    let body = zero_pad(hex_chars(n), 16);
    lemma_hex_chars_value(n);
    assert(s.take(5) =~= seq!['s', 'e', 'e', 'd', ':']);
    let t = s.skip(5);
    assert(t =~= seq!['0', 'x'] + body);
    assert(!(t.len() >= 5 && t.take(5) == seq!['s', 'e', 'e', 'd', ':'])) by {
        if t.len() >= 5 && t.take(5) == seq!['s', 'e', 'e', 'd', ':'] {
            assert(t.take(5)[0] == t[0]);
        }
    }
    assert(strip_seed_prefixes(t) == t);
    assert(strip_seed_prefixes(s) == t);
    assert(has_hex_prefix(t));
    assert(t.skip(2) =~= body);
    if hex_chars(n).len() < 16 {
        let k = (16 - hex_chars(n).len()) as nat;
        lemma_zero_prefix_value(k, hex_chars(n), 16);
        assert(body =~= zeros(k) + hex_chars(n));
        assert(body[0] == '0');
    } else {
        assert(body == hex_chars(n));
    }
    assert(unsigned_body(body) == body);
}

} // verus!
