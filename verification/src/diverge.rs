//! Diverge preview environments: the environment model, how routing and
//! URLs are read from it, and the context a chaos run takes from it. The
//! HTTP calls to Diverge are left to the caller.

use vstd::prelude::*;
use std::collections::HashMap;
use crate::text::{chars_of, from_str_radix_u64, parse_u64_radix, trim, trim_bounds, trim_end_char};

verus! {

/// Response of `GetEnvironment`.
#[derive(Debug)]
pub struct GetEnvironmentResponse {
    pub environment: Environment,
}

/// Response of `ListEnvironments`.
#[derive(Debug)]
pub struct ListEnvironmentsResponse {
    pub environments: Vec<Environment>,
    pub next_page_token: String,
    pub total_size: i32,
}

/// A preview environment.
#[derive(Debug, Clone)]
pub struct Environment {
    pub name: String,
    pub namespace: String,
    pub labels: HashMap<String, String>,
    pub annotations: HashMap<String, String>,
    pub spec: EnvironmentSpec,
    pub status: EnvironmentStatus,
}

/// What an environment is built from, how it is deployed and routed.
#[derive(Debug, Clone)]
pub struct EnvironmentSpec {
    pub source: EnvironmentSource,
    pub deploy: EnvironmentDeploy,
    pub routing: EnvironmentRouting,
}

/// The source an environment is built from.
#[derive(Debug, Clone, Default)]
pub struct EnvironmentSource {
    pub provider: String,
    pub project: String,
    pub branch: String,
    pub commit_sha: String,
}

/// How an environment is deployed.
#[derive(Debug, Clone, Default)]
pub struct EnvironmentDeploy {
    pub mode: String,
    pub changed_services: Vec<String>,
    pub namespace: String,
}

/// How requests reach an environment.
#[derive(Debug, Clone, Default)]
pub struct EnvironmentRouting {
    pub mode: String,
    pub header_key: Option<String>,
    pub header_value: Option<String>,
    pub external_url: Option<String>,
}

/// The state of an environment.
#[derive(Debug, Clone, Default)]
pub struct EnvironmentStatus {
    pub phase: String,
    pub url: Option<String>,
    pub services: Vec<String>,
}

/// Whether a text is empty or white space only.
pub open spec fn is_blank(s: Seq<char>) -> bool {
    trim(s).len() == 0
}

/// Whether a string slice is empty or white space only.
pub fn blank(s: &str) -> (b: bool)
    ensures
        b == is_blank(s@),
{
    let cs = chars_of(s);
    let (lo, hi) = trim_bounds(cs.as_slice(), 0, cs.len());
    assert(cs@.subrange(0, cs@.len() as int) =~= cs@);
    lo == hi
}

/// An optional text, kept only when it is not blank.
pub open spec fn non_blank(s: Option<String>) -> Option<Seq<char>> {
    match s {
        Some(t) => if is_blank(t@) {
            None
        } else {
            Some(t@)
        },
        None => None,
    }
}

/// `c` with ASCII upper-case letters made lower-case.
pub open spec fn ascii_lower(c: char) -> char {
    if 'A' <= c <= 'Z' {
        ((c as u32) + 32) as char
    } else {
        c
    }
}

/// Whether two texts are equal when ASCII letters are compared without case.
pub open spec fn eq_ignore_ascii_case(a: Seq<char>, b: Seq<char>) -> bool {
    a.len() == b.len() && forall|i: int| 0 <= i < a.len() ==> ascii_lower(#[trigger] a[i]) == ascii_lower(b[i])
}

/// `c` with ASCII upper-case letters made lower-case.
fn lower_ascii_char(c: char) -> (r: char)
    ensures
        r == ascii_lower(c),
{
    if 'A' <= c && c <= 'Z' {
        ((c as u8) + 32) as char
    } else {
        c
    }
}

/// Whether two texts are equal when ASCII letters are compared without case.
pub fn same_ignoring_ascii_case(a: &str, b: &str) -> (r: bool)
    ensures
        r == eq_ignore_ascii_case(a@, b@),
{
    let x = chars_of(a);
    let y = chars_of(b);
    if x.len() != y.len() {
        return false;
    }
    let mut i: usize = 0;
    while i < x.len()
        invariant
            x@ == a@,
            y@ == b@,
            x@.len() == y@.len(),
            i <= x@.len(),
            forall|k: int| 0 <= k < i ==> ascii_lower(#[trigger] x@[k]) == ascii_lower(y@[k]),
        decreases x@.len() - i,
    {
        if lower_ascii_char(x[i]) != lower_ascii_char(y[i]) {
            return false;
        }
        i = i + 1;
    }
    true
}

impl Environment {
    /// The routing header's name: the configured one unless blank, else `x-preview-env`.
    pub fn header_key(&self) -> (k: &str)
        ensures
            k@ == match non_blank(self.spec.routing.header_key) {
                Some(t) => t,
                None => "x-preview-env"@,
            },
    {
        match &self.spec.routing.header_key {
            Some(k) => {
                if !blank(k.as_str()) {
                    return k.as_str();
                }
            },
            None => {},
        }
        "x-preview-env"
    }

    /// The routing header's value: the configured one unless blank, else the
    /// environment's name.
    pub fn header_value(&self) -> (v: &str)
        ensures
            v@ == match non_blank(self.spec.routing.header_value) {
                Some(t) => t,
                None => self.name@,
            },
    {
        match &self.spec.routing.header_value {
            Some(v) => {
                if !blank(v.as_str()) {
                    return v.as_str();
                }
            },
            None => {},
        }
        self.name.as_str()
    }

    /// Whether the environment is in the `Running` phase (in any case).
    pub fn is_running(&self) -> (b: bool)
        ensures
            b == eq_ignore_ascii_case(self.status.phase@, "running"@),
    {
        same_ignoring_ascii_case(self.status.phase.as_str(), "running")
    }

    /// The external URL: the status URL unless blank, else the routing's
    /// external URL unless blank.
    pub fn url(&self) -> (u: Option<&str>)
        ensures
            match u {
                Some(t) => non_blank(self.status.url) == Some(t@) || (non_blank(self.status.url) is None
                    && non_blank(self.spec.routing.external_url) == Some(t@)),
                None => non_blank(self.status.url) is None && non_blank(self.spec.routing.external_url) is None,
            },
    {
        if let Some(u) = &self.status.url {
            if !blank(u.as_str()) {
                return Some(u.as_str());
            }
        }
        if let Some(u) = &self.spec.routing.external_url {
            if !blank(u.as_str()) {
                return Some(u.as_str());
            }
        }
        None
    }

    /// The services changed in this environment.
    pub fn changed_services(&self) -> (s: &[String])
        ensures
            s@ == self.spec.deploy.changed_services@,
    {
        self.spec.deploy.changed_services.as_slice()
    }
}

/// What a chaos run needs to know of a preview environment.
#[derive(Debug, Clone)]
pub struct DivergeContext {
    /// Header name for preview routing (e.g. `x-preview-env`).
    pub header_key: String,
    /// Header value for preview routing (e.g. `pr-123`).
    pub header_value: String,
    /// Services deployed in the environment.
    pub services: Vec<String>,
    /// Changed services, for blast-radius targeting.
    pub changed_services: Vec<String>,
    /// Kubernetes namespace.
    pub namespace: String,
    /// External URL of the environment.
    pub url: Option<String>,
}

/// The text of each string in `v`.
pub open spec fn string_texts(v: Seq<String>) -> Seq<Seq<char>> {
    v.map_values(|s: String| s@)
}

/// A copy of a list of strings.
fn copy_strings(v: &[String]) -> (c: Vec<String>)
    ensures
        string_texts(c@) == string_texts(v@),
{
    let mut c: Vec<String> = Vec::new();
    let mut i: usize = 0;
    while i < v.len()
        invariant
            i <= v@.len(),
            string_texts(c@) == string_texts(v@.take(i as int)),
        decreases v@.len() - i,
    {
        c.push(String::from_str(v[i].as_str()));
        assert(string_texts(v@.take(i + 1)) =~= string_texts(v@.take(i as int)).push(v@[i as int]@));
        assert(string_texts(c@) =~= string_texts(v@.take(i + 1)));
        i = i + 1;
    }
    assert(v@.take(v@.len() as int) =~= v@);
    c
}

/// The context of a chaos run against `env`: its routing header, services,
/// changed services, namespace and URL.
pub fn resolve_context(env: &Environment) -> (c: DivergeContext)
    ensures
        c.header_key@ == match non_blank(env.spec.routing.header_key) {
            Some(t) => t,
            None => "x-preview-env"@,
        },
        c.header_value@ == match non_blank(env.spec.routing.header_value) {
            Some(t) => t,
            None => env.name@,
        },
        string_texts(c.services@) == string_texts(env.status.services@),
        string_texts(c.changed_services@) == string_texts(env.spec.deploy.changed_services@),
        c.namespace@ == env.namespace@,
        match c.url {
            Some(t) => non_blank(env.status.url) == Some(t@) || (non_blank(env.status.url) is None
                && non_blank(env.spec.routing.external_url) == Some(t@)),
            None => non_blank(env.status.url) is None && non_blank(env.spec.routing.external_url) is None,
        },
{
    let url = match env.url() {
        Some(u) => Some(String::from_str(u)),
        None => None,
    };
    DivergeContext {
        header_key: String::from_str(env.header_key()),
        header_value: String::from_str(env.header_value()),
        services: copy_strings(env.status.services.as_slice()),
        changed_services: copy_strings(env.changed_services()),
        namespace: String::from_str(env.namespace.as_str()),
        url,
    }
}

/// Where an environment being waited for stands.
#[derive(Debug, Clone, Copy, PartialEq, Eq, Structural)]
pub enum EnvironmentProgress {
    /// It is running.
    Running,
    /// It failed (phase `failed` or `error`, in any case) and will not run.
    Failed,
    /// It may still start.
    Pending,
}

/// How far an environment is from running, judged by its phase.
pub fn environment_progress(env: &Environment) -> (p: EnvironmentProgress)
    ensures
        p == if eq_ignore_ascii_case(env.status.phase@, "running"@) {
            EnvironmentProgress::Running
        } else if eq_ignore_ascii_case(env.status.phase@, "failed"@) || eq_ignore_ascii_case(
            env.status.phase@,
            "error"@,
        ) {
            EnvironmentProgress::Failed
        } else {
            EnvironmentProgress::Pending
        },
{
    if env.is_running() {
        EnvironmentProgress::Running
    } else if same_ignoring_ascii_case(env.status.phase.as_str(), "failed") || same_ignoring_ascii_case(
        env.status.phase.as_str(),
        "error",
    ) {
        EnvironmentProgress::Failed
    } else {
        EnvironmentProgress::Pending
    }
}

/// The bearer token to use: the explicit one, else the one from the
/// environment, else the service-account file's (trimmed), else none.
pub fn resolve_token(explicit: Option<String>, from_env: Option<String>, from_file: Option<String>) -> (t: Option<String>)
    ensures
        explicit is Some ==> t == explicit,
        explicit is None && from_env is Some ==> t == from_env,
        explicit is None && from_env is None ==> match from_file {
            Some(f) => t matches Some(s) && s@ == trim(f@),
            None => t is None,
        },
{
    if explicit.is_some() {
        return explicit;
    }
    if from_env.is_some() {
        return from_env;
    }
    match from_file {
        Some(f) => Some(crate::text::trim_str(f.as_str())),
        None => None,
    }
}

/// The base URL without its trailing slashes.
pub fn normalize_base_url(base_url: &str) -> (u: String)
    ensures
        u@ == trim_end_char(base_url@, '/'),
{
    let cs = chars_of(base_url);
    let mut hi = cs.len();
    assert(cs@.subrange(0, hi as int) =~= cs@);
    while hi > 0 && cs[hi - 1] == '/'
        invariant
            hi <= cs@.len(),
            cs@ == base_url@,
            trim_end_char(cs@.subrange(0, hi as int), '/') == trim_end_char(base_url@, '/'),
        decreases hi,
    {
        assert(cs@.subrange(0, hi as int).drop_last() =~= cs@.subrange(0, hi - 1));
        hi = hi - 1;
    }
    crate::text::chars_between(cs.as_slice(), 0, hi)
}


/// The services a chaos run targets: all of them when asked to, otherwise
/// the changed ones when there are any (blast-radius targeting), else all.
pub fn target_services(ctx: &DivergeContext, all_services: bool) -> (r: &Vec<String>)
    ensures
        *r == if all_services || ctx.changed_services@.len() == 0 {
            ctx.services
        } else {
            ctx.changed_services
        },
{
    if all_services || ctx.changed_services.len() == 0 {
        &ctx.services
    } else {
        &ctx.changed_services
    }
}

/// The seconds of a `--wait` value: its text without trailing `s`s, read
/// as a decimal `u64`; `None` when it does not read.
pub open spec fn wait_seconds(s: Seq<char>) -> Option<u64> {
    match from_str_radix_u64(trim_end_char(s, 's'), 10) {
        Ok(v) => Some(v),
        Err(_) => None,
    }
}

/// Reads a `--wait` value such as `30s` or `120`.
pub fn parse_wait_secs(s: &str) -> (r: Option<u64>)
    ensures
        r == wait_seconds(s@),
{
    let cs = chars_of(s);
    let mut end = cs.len();
    assert(cs@.subrange(0, end as int) =~= cs@);
    while end > 0 && cs[end - 1] == 's'
        invariant
            end <= cs@.len(),
            cs@ == s@,
            trim_end_char(cs@.subrange(0, end as int), 's') == trim_end_char(s@, 's'),
        decreases end,
    {
        assert(cs@.subrange(0, end as int).drop_last() =~= cs@.subrange(0, end - 1));
        end = end - 1;
    }
    match parse_u64_radix(cs.as_slice(), 0, end, 10) {
        Ok(v) => Some(v),
        Err(_) => None,
    }
}

} // verus!
