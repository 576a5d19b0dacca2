//! Finding a process by name: which `/proc` entries match, and what comes of
//! the matches. Reading `/proc` is left to the caller.

use vstd::prelude::*;
use crate::text::{chars_of, decimal_chars, push_char, push_decimal, push_str, trim, trim_bounds};

verus! {

/// The characters of `s` before the first `c` (all of `s` when there is none).
pub open spec fn before_first(s: Seq<char>, c: char) -> Seq<char>
    decreases s.len(),
{
    if s.len() == 0 || s[0] == c {
        Seq::empty()
    } else {
        seq![s[0]] + before_first(s.skip(1), c)
    }
}

/// The characters of `s` after the last `c` (all of `s` when there is none).
pub open spec fn after_last(s: Seq<char>, c: char) -> Seq<char>
    decreases s.len(),
{
    if s.len() == 0 {
        s
    } else if s.last() == c {
        Seq::empty()
    } else {
        after_last(s.drop_last(), c).push(s.last())
    }
}

/// The program name in a command line: the base name of its first
/// NUL-separated field.
pub open spec fn command_basename(cmdline: Seq<char>) -> Seq<char> {
    after_last(before_first(cmdline, '\0'), '/')
}

/// Whether the `/proc` entry of `pid` names the process `name`: init and the
/// searching process itself never do; otherwise its `comm` (trimmed) or else
/// the base name of its command line's first field must equal `name`.
pub open spec fn entry_matches(
    name: Seq<char>,
    pid: u32,
    own_pid: u32,
    comm: Option<Seq<char>>,
    cmdline: Option<Seq<char>>,
) -> bool {
    if pid <= 1 || pid == own_pid {
        false
    } else if comm is Some && trim(comm->0) == name {
        true
    } else {
        cmdline is Some && command_basename(cmdline->0) == name
    }
}

/// The characters of `cs` before the first `c`.
fn first_field_end(cs: &[char], c: char) -> (k: usize)
    ensures
        k <= cs@.len(),
        cs@.take(k as int) == before_first(cs@, c),
{
    let mut k: usize = 0;
    assert(cs@.skip(0) =~= cs@);
    while k < cs.len() && cs[k] != c
        invariant
            k <= cs@.len(),
            before_first(cs@, c) == cs@.take(k as int) + before_first(cs@.skip(k as int), c),
        decreases cs@.len() - k,
    {
        let ghost r = cs@.skip(k as int);
        assert(r.skip(1) =~= cs@.skip(k + 1));
        assert(cs@.take(k as int) + seq![cs@[k as int]] =~= cs@.take(k + 1));
        k = k + 1;
    }
    assert(before_first(cs@.skip(k as int), c) =~= Seq::<char>::empty());
    assert(cs@.take(k as int) + Seq::<char>::empty() =~= cs@.take(k as int));
    k
}

/// The start of the part of `cs[..end]` after its last `c`.
fn last_field_start(cs: &[char], end: usize, c: char) -> (j: usize)
    requires
        end <= cs@.len(),
    ensures
        j <= end,
        cs@.subrange(j as int, end as int) == after_last(cs@.take(end as int), c),
{
    let mut j: usize = end;
    assert(cs@.subrange(end as int, end as int) =~= Seq::<char>::empty());
    while j > 0 && cs[j - 1] != c
        invariant
            j <= end <= cs@.len(),
            after_last(cs@.take(end as int), c) == after_last(cs@.take(j as int), c) + cs@.subrange(
                j as int,
                end as int,
            ),
        decreases j,
    {
        let ghost t = cs@.take(j as int);
        assert(t.drop_last() =~= cs@.take(j - 1));
        assert(seq![t.last()] + cs@.subrange(j as int, end as int) =~= cs@.subrange(
            j - 1,
            end as int,
        ));
        assert(after_last(t, c) == after_last(t.drop_last(), c).push(t.last()));
        assert(after_last(t.drop_last(), c).push(t.last()) + cs@.subrange(j as int, end as int)
            =~= after_last(t.drop_last(), c) + cs@.subrange(j - 1, end as int));
        j = j - 1;
    }
    assert(after_last(cs@.take(j as int), c) =~= Seq::<char>::empty());
    j
}

/// Whether the character sequences of two strings are equal.
fn same_chars(a: &[char], lo: usize, hi: usize, b: &[char]) -> (r: bool)
    requires
        lo <= hi <= a@.len(),
    ensures
        r == (a@.subrange(lo as int, hi as int) == b@),
{
    if hi - lo != b.len() {
        return false;
    }
    let mut i: usize = 0;
    while i < b.len()
        invariant
            hi - lo == b@.len(),
            lo <= hi <= a@.len(),
            i <= b@.len(),
            forall|k: int| 0 <= k < i ==> a@[lo + k] == b@[k],
        decreases b@.len() - i,
    {
        if a[lo + i] != b[i] {
            return false;
        }
        i = i + 1;
    }
    assert(a@.subrange(lo as int, hi as int) =~= b@);
    true
}

/// Decides whether the `/proc` entry of `pid` names the process `name`, from
/// the contents of its `comm` and `cmdline` files (`None` when unreadable).
pub fn entry_names_process(
    name: &str,
    pid: u32,
    own_pid: u32,
    comm: Option<&str>,
    cmdline: Option<&str>,
) -> (b: bool)
    ensures
        b == entry_matches(
            name@,
            pid,
            own_pid,
            match comm {
                Some(c) => Some(c@),
                None => None,
            },
            match cmdline {
                Some(c) => Some(c@),
                None => None,
            },
        ),
{
    if pid <= 1 || pid == own_pid {
        return false;
    }
    let n = chars_of(name);
    if let Some(c) = comm {
        let cs = chars_of(c);
        let (lo, hi) = trim_bounds(cs.as_slice(), 0, cs.len());
        assert(cs@.subrange(0, cs@.len() as int) =~= cs@);
        if same_chars(cs.as_slice(), lo, hi, n.as_slice()) {
            return true;
        }
    }
    if let Some(line) = cmdline {
        let cs = chars_of(line);
        let k = first_field_end(cs.as_slice(), '\0');
        let j = last_field_start(cs.as_slice(), k, '/');
        return same_chars(cs.as_slice(), j, k, n.as_slice());
    }
    false
}

/// Why no single process could be picked.
#[derive(Debug, Clone, PartialEq, Eq)]
pub enum PidLookupError {
    /// No process matched the name.
    NoMatch { name: String },
    /// Several processes matched the name.
    Ambiguous { name: String, pids: Vec<u32> },
}

/// The process ids listed with `", "` between them.
pub open spec fn joined_pids(pids: Seq<u32>) -> Seq<char>
    decreases pids.len(),
{
    if pids.len() == 0 {
        Seq::empty()
    } else if pids.len() == 1 {
        decimal_chars(pids[0] as nat)
    } else {
        joined_pids(pids.drop_last()) + ", "@ + decimal_chars(pids.last() as nat)
    }
}

/// The message of a lookup error.
pub open spec fn pid_error_text(e: PidLookupError) -> Seq<char> {
    match e {
        PidLookupError::NoMatch { name } => "no process found matching '"@ + name@ + "'"@,
        PidLookupError::Ambiguous { name, pids } => "found "@ + decimal_chars(pids@.len()) + " processes matching '"@
            + name@ + "': ["@ + joined_pids(pids@) + "]. Use --pid to target a specific one."@,
    }
}

impl PidLookupError {
    /// The error's message.
    pub fn message(&self) -> (s: String)
        ensures
            s@ == pid_error_text(*self),
    {
        let mut s = String::new();
        match self {
            PidLookupError::NoMatch { name } => {
                push_str(&mut s, "no process found matching '");
                push_str(&mut s, name.as_str());
                push_str(&mut s, "'");
            },
            PidLookupError::Ambiguous { name, pids } => {
                push_str(&mut s, "found ");
                push_decimal(&mut s, pids.len() as u64);
                push_str(&mut s, " processes matching '");
                push_str(&mut s, name.as_str());
                push_str(&mut s, "': [");
                let mut i: usize = 0;
                let ghost base = s@;
                while i < pids.len()
                    invariant
                        i <= pids@.len(),
                        s@ == base + joined_pids(pids@.take(i as int)),
                    decreases pids@.len() - i,
                {
                    let ghost before = s@;
                    if i > 0 {
                        push_str(&mut s, ", ");
                    }
                    push_decimal(&mut s, pids[i] as u64);
                    proof {
                        let t = pids@.take(i + 1);
                        assert(t.drop_last() =~= pids@.take(i as int));
                        if i == 0 {
                            assert(pids@.take(0) =~= Seq::<u32>::empty());
                        }
                    }
                    i = i + 1;
                }
                assert(pids@.take(pids@.len() as int) =~= pids@);
                push_str(&mut s, "]. Use --pid to target a specific one.");
            },
        }
        s
    }
}

/// Picks the one process matching `name` among the matching ids found.
pub fn find_pid_by_name(name: &str, matching: Vec<u32>) -> (r: Result<u32, PidLookupError>)
    ensures
        matching@.len() == 1 ==> r == Ok::<u32, PidLookupError>(matching@[0]),
        matching@.len() == 0 ==> (r matches Err(PidLookupError::NoMatch { name: n }) && n@ == name@),
        matching@.len() > 1 ==> (r matches Err(PidLookupError::Ambiguous { name: n, pids }) && n@
            == name@ && pids@ == matching@),
{
    if matching.len() == 0 {
        Err(PidLookupError::NoMatch { name: String::from_str(name) })
    } else if matching.len() == 1 {
        Ok(matching[0])
    } else {
        Err(PidLookupError::Ambiguous { name: String::from_str(name), pids: matching })
    }
}

/// Whether `c` has a meaning in extended regular expressions.
pub open spec fn is_regex_meta(c: char) -> bool {
    c == '.' || c == '*' || c == '+' || c == '?' || c == '(' || c == ')' || c == '[' || c == ']'
        || c == '{' || c == '}' || c == '|' || c == '^' || c == '$' || c == '\\'
}

/// `s` with a backslash before every regular-expression metacharacter.
pub open spec fn escaped(s: Seq<char>) -> Seq<char>
    decreases s.len(),
{
    if s.len() == 0 {
        Seq::empty()
    } else {
        let rest = escaped(s.drop_last());
        if is_regex_meta(s.last()) {
            rest.push('\\').push(s.last())
        } else {
            rest.push(s.last())
        }
    }
}

/// Escapes regular-expression metacharacters so that a process name matches
/// only itself under `pgrep -x`.
pub fn escape_regex(s: &str) -> (r: String)
    ensures
        r@ == escaped(s@),
{
    let cs = chars_of(s);
    let mut out = String::new();
    let mut i: usize = 0;
    while i < cs.len()
        invariant
            i <= cs@.len(),
            cs@ == s@,
            out@ == escaped(cs@.take(i as int)),
        decreases cs@.len() - i,
    {
        let c = cs[i];
        if c == '.' || c == '*' || c == '+' || c == '?' || c == '(' || c == ')' || c == '[' || c
            == ']' || c == '{' || c == '}' || c == '|' || c == '^' || c == '$' || c == '\\' {
            push_char(&mut out, '\\');
        }
        push_char(&mut out, c);
        assert(cs@.take(i + 1).drop_last() =~= cs@.take(i as int));
        i = i + 1;
    }
    assert(cs@.take(cs@.len() as int) =~= cs@);
    out
}

} // verus!
