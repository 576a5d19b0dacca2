//! Reading the configuration file: the fault types it grants permissions for
//! and the checks `validate` makes of it. Reading and parsing the file is
//! left to the caller, which hands over its values.

use vstd::prelude::*;
use crate::cli::args::{duration_arg_error, duration_arg_fits, duration_arg_seconds};
use crate::text::{
    chars_between, chars_of, push_str, same_str, starts_with, str_starts_with, trim, trim_str,
};

verus! {

/// A value of the configuration file: a string, a list, a table (its keys
/// and values), or anything else (a number, a boolean, a date).
#[derive(Debug)]
pub enum ConfigValue {
    Text(String),
    List(Vec<ConfigValue>),
    Table(Vec<(String, ConfigValue)>),
    Other,
}

/// The value under `key` among a table's pairs (the first with the key).
pub open spec fn entry_in(pairs: Seq<(String, ConfigValue)>, key: Seq<char>) -> Option<ConfigValue>
    decreases pairs.len(),
{
    if pairs.len() == 0 {
        None
    } else if pairs[0].0@ == key {
        Some(pairs[0].1)
    } else {
        entry_in(pairs.skip(1), key)
    }
}

/// The value under `key` of a table; nothing for other values.
pub open spec fn entry(v: ConfigValue, key: Seq<char>) -> Option<ConfigValue> {
    match v {
        ConfigValue::Table(pairs) => entry_in(pairs@, key),
        _ => None,
    }
}

/// The text of a string value.
pub open spec fn text_value(v: ConfigValue) -> Option<Seq<char>> {
    match v {
        ConfigValue::Text(s) => Some(s@),
        _ => None,
    }
}

/// The text under `key` of a table, when it is a string.
pub open spec fn text_entry(v: ConfigValue, key: Seq<char>) -> Option<Seq<char>> {
    match entry(v, key) {
        Some(e) => text_value(e),
        None => None,
    }
}

/// Looks up `key` among the pairs from `start` on.
fn find_entry<'a>(pairs: &'a Vec<(String, ConfigValue)>, key: &str) -> (r: Option<&'a ConfigValue>)
    ensures
        match r {
            Some(x) => entry_in(pairs@, key@) == Some(*x),
            None => entry_in(pairs@, key@) is None,
        },
{
    let mut i: usize = 0;
    assert(pairs@.skip(0) =~= pairs@);
    while i < pairs.len()
        invariant
            i <= pairs@.len(),
            entry_in(pairs@.skip(i as int), key@) == entry_in(pairs@, key@),
        decreases pairs@.len() - i,
    {
        proof {
            assert(pairs@.skip(i as int).skip(1) =~= pairs@.skip(i + 1));
            assert(pairs@.skip(i as int)[0] == pairs@[i as int]);
        }
        if same_str(pairs[i].0.as_str(), key) {
            return Some(&pairs[i].1);
        }
        i = i + 1;
    }
    None
}

/// The value under `key` of a table.
pub fn get_entry<'a>(v: &'a ConfigValue, key: &str) -> (r: Option<&'a ConfigValue>)
    ensures
        match r {
            Some(x) => entry(*v, key@) == Some(*x),
            None => entry(*v, key@) is None,
        },
{
    match v {
        ConfigValue::Table(pairs) => find_entry(pairs, key),
        _ => None,
    }
}

/// The text under `key` of a table, when it is a string.
pub fn get_text<'a>(v: &'a ConfigValue, key: &str) -> (r: Option<&'a String>)
    ensures
        match r {
            Some(s) => text_entry(*v, key@) == Some(s@),
            None => text_entry(*v, key@) is None,
        },
{
    match get_entry(v, key) {
        Some(ConfigValue::Text(s)) => Some(s),
        _ => None,
    }
}

/// The pieces of `s` between commas (`str::split(',')`): one more than
/// there are commas.
pub open spec fn comma_pieces(s: Seq<char>) -> Seq<Seq<char>>
    decreases s.len(),
{
    if s.len() == 0 {
        seq![Seq::empty()]
    } else {
        let r = comma_pieces(s.drop_last());
        if s.last() == ',' {
            r.push(Seq::empty())
        } else {
            r.update(r.len() - 1, r.last().push(s.last()))
        }
    }
}

proof fn lemma_comma_pieces_nonempty(s: Seq<char>)
    ensures
        comma_pieces(s).len() >= 1,
    decreases s.len(),
{
    if s.len() > 0 {
        lemma_comma_pieces_nonempty(s.drop_last());
    }
}

/// The comma-separated items of `s`, each trimmed.
pub open spec fn comma_list(s: Seq<char>) -> Seq<Seq<char>> {
    comma_pieces(s).map_values(|p: Seq<char>| trim(p))
}

/// Splits `s` at commas and trims each item.
pub fn split_comma_list(s: &str) -> (r: Vec<String>)
    ensures
        r@.map_values(|x: String| x@) == comma_list(s@),
{
    let cs = chars_of(s);
    let mut pieces: Vec<String> = Vec::new();
    let mut start: usize = 0;
    let mut i: usize = 0;
    assert(cs@.take(0) =~= Seq::<char>::empty());
    assert(pieces@.map_values(|x: String| x@).push(cs@.subrange(0, 0)) =~= comma_pieces(cs@.take(0)));
    while i < cs.len()
        invariant
            cs@ == s@,
            start <= i <= cs@.len(),
            pieces@.map_values(|x: String| x@).push(cs@.subrange(start as int, i as int)) == comma_pieces(cs@.take(i as int)),
        decreases cs@.len() - i,
    {
        let ghost pv = pieces@.map_values(|x: String| x@);
        let ghost cur = cs@.subrange(start as int, i as int);
        proof {
            assert(cs@.take(i + 1).drop_last() =~= cs@.take(i as int));
            assert(cs@.take(i + 1).last() == cs@[i as int]);
        }
        if cs[i] == ',' {
            let piece = chars_between(cs.as_slice(), start, i);
            pieces.push(piece);
            start = i + 1;
            proof {
                assert(pieces@.map_values(|x: String| x@) =~= pv.push(cur));
                assert(cs@.subrange(start as int, i + 1) =~= Seq::<char>::empty());
                assert(comma_pieces(cs@.take(i + 1)) == pv.push(cur).push(Seq::<char>::empty()));
            }
        } else {
            proof {
                assert(cs@.subrange(start as int, i + 1) =~= cur.push(cs@[i as int]));
                assert(pv.push(cur).update(pv.len() as int, cur.push(cs@[i as int])) =~= pv.push(cur.push(cs@[i as int])));
            }
        }
        i = i + 1;
    }
    let ghost pv = pieces@.map_values(|x: String| x@);
    let last = chars_between(cs.as_slice(), start, cs.len());
    pieces.push(last);
    assert(cs@.take(cs@.len() as int) =~= cs@);
    assert(pieces@.map_values(|x: String| x@) =~= pv.push(cs@.subrange(start as int, cs@.len() as int)));
    let mut r: Vec<String> = Vec::new();
    let mut j: usize = 0;
    while j < pieces.len()
        invariant
            j <= pieces@.len(),
            pieces@.map_values(|x: String| x@) == comma_pieces(s@),
            r@.map_values(|x: String| x@) == comma_list(s@).take(j as int),
        decreases pieces@.len() - j,
    {
        let ghost rv = r@.map_values(|x: String| x@);
        let t = trim_str(pieces[j].as_str());
        proof {
            assert(pieces@[j as int]@ == comma_pieces(s@)[j as int]);
        }
        r.push(t);
        proof {
            assert(r@.map_values(|x: String| x@) =~= rv.push(trim(comma_pieces(s@)[j as int])));
            assert(comma_list(s@).take(j + 1) =~= comma_list(s@).take(j as int).push(trim(comma_pieces(s@)[j as int])));
        }
        j = j + 1;
    }
    assert(comma_list(s@).take(j as int) =~= comma_list(s@));
    r
}

/// The `type` texts of the entries of a `faults` list, in order; entries
/// without a string `type` add nothing.
pub open spec fn listed_fault_types(items: Seq<ConfigValue>) -> Seq<Seq<char>>
    decreases items.len(),
{
    if items.len() == 0 {
        Seq::empty()
    } else {
        let rest = listed_fault_types(items.drop_last());
        match text_entry(items.last(), "type"@) {
            Some(t) => rest.push(t),
            None => rest,
        }
    }
}

/// The fault types to grant permissions for: those given on the command
/// line (a comma-separated list), or, when the configuration has a `faults`
/// list, the types it lists; and `debug` besides when its `simulation`
/// injects through debug containers and `debug` is not listed yet.
pub open spec fn rbac_fault_types(arg: Seq<char>, config: Option<ConfigValue>) -> Seq<Seq<char>> {
    match config {
        None => comma_list(arg),
        Some(c) => {
            let base = match entry(c, "faults"@) {
                Some(ConfigValue::List(items)) => listed_fault_types(items@),
                _ => comma_list(arg),
            };
            let debug = match entry(c, "simulation"@) {
                Some(sim) => text_entry(sim, "inject_method"@) == Some("debug"@),
                None => false,
            };
            if debug && !base.contains("debug"@) {
                base.push("debug"@)
            } else {
                base
            }
        },
    }
}

/// Whether one of the strings is `x`.
fn contains_string(v: &Vec<String>, x: &str) -> (b: bool)
    ensures
        b == v@.map_values(|s: String| s@).contains(x@),
{
    let mut i: usize = 0;
    while i < v.len()
        invariant
            i <= v@.len(),
            forall|k: int| 0 <= k < i ==> v@[k]@ != x@,
        decreases v@.len() - i,
    {
        if same_str(v[i].as_str(), x) {
            assert(v@.map_values(|s: String| s@)[i as int] == x@);
            return true;
        }
        i = i + 1;
    }
    let ghost t = v@.map_values(|s: String| s@);
    assert forall|k: int| 0 <= k < t.len() implies #[trigger] t[k] != x@ by {
        assert(v@[k]@ != x@);
    }
    false
}

/// The fault types `rbac` grants permissions for, from the command line's
/// list and the configuration file, if one was given.
pub fn rbac_faults(faults_arg: &str, config: Option<&ConfigValue>) -> (r: Vec<String>)
    ensures
        r@.map_values(|x: String| x@) == rbac_fault_types(faults_arg@, match config {
            Some(c) => Some(*c),
            None => None,
        }),
{
    let mut faults = split_comma_list(faults_arg);
    if let Some(c) = config {
        if let Some(ConfigValue::List(items)) = get_entry(c, "faults") {
            let mut listed: Vec<String> = Vec::new();
            let mut i: usize = 0;
            while i < items.len()
                invariant
                    i <= items@.len(),
                    listed@.map_values(|x: String| x@) == listed_fault_types(items@.take(i as int)),
                decreases items@.len() - i,
            {
                proof {
                    assert(items@.take(i + 1).drop_last() =~= items@.take(i as int));
                    assert(items@.take(i + 1).last() == items@[i as int]);
                }
                if let Some(t) = get_text(&items[i], "type") {
                    listed.push(t.clone());
                }
                i = i + 1;
                assert(listed@.map_values(|x: String| x@) =~= listed_fault_types(items@.take(i as int)));
            }
            assert(items@.take(items@.len() as int) =~= items@);
            faults = listed;
        }
        let debug = match get_entry(c, "simulation") {
            Some(sim) => match get_text(sim, "inject_method") {
                Some(m) => same_str(m.as_str(), "debug"),
                None => false,
            },
            None => false,
        };
        if debug && !contains_string(&faults, "debug") {
            let ghost before = faults@.map_values(|x: String| x@);
            faults.push("debug".to_string());
            assert(faults@.map_values(|x: String| x@) =~= before.push("debug"@));
        }
    }
    faults
}


/// A setting of the configuration file that must be a string.
#[derive(Debug, Clone, Copy, PartialEq, Eq, Structural)]
pub enum SettingKey {
    RunDuration,
    Warmup,
    Namespace,
}

/// Why `validate` refused a configuration.
#[derive(Debug, Clone, PartialEq, Eq)]
pub enum ConfigError {
    /// The setting is there but is not a string.
    NotText(SettingKey),
    /// The duration does not parse.
    InvalidDuration(crate::cli::args::DurationArgError),
    /// The warmup does not parse.
    InvalidWarmup(crate::cli::args::DurationArgError),
    /// The namespace is the empty string.
    EmptyNamespace,
    /// `faults` is not a list.
    FaultsNotList,
    /// An entry of `faults` is not a string.
    FaultNotText,
    /// `probes` is not a list.
    ProbesNotList,
    /// A probe's `name` is not a string.
    ProbeNameNotText,
    /// A probe's `url` is not a string.
    ProbeUrlNotText,
    /// A probe's URL is neither `http://` nor `https://`.
    InvalidProbeUrl { name: String, url: String },
}

/// The text of each error.
pub open spec fn config_error_text(e: ConfigError) -> Seq<char> {
    match e {
        ConfigError::NotText(SettingKey::RunDuration) => "'duration' must be a string"@,
        ConfigError::NotText(SettingKey::Warmup) => "'warmup' must be a string"@,
        ConfigError::NotText(SettingKey::Namespace) => "'namespace' must be a string"@,
        ConfigError::InvalidDuration(_) => "Invalid duration"@,
        ConfigError::InvalidWarmup(_) => "Invalid warmup"@,
        ConfigError::EmptyNamespace => "Namespace cannot be empty"@,
        ConfigError::FaultsNotList => "'faults' must be an array"@,
        ConfigError::FaultNotText => "Faults array must contain only strings"@,
        ConfigError::ProbesNotList => "'probes' must be an array"@,
        ConfigError::ProbeNameNotText => "probe 'name' must be a string"@,
        ConfigError::ProbeUrlNotText => "probe 'url' must be a string"@,
        ConfigError::InvalidProbeUrl { name, url } => "Invalid URL in probe '"@ + name@ + "': "@ + url@,
    }
}

impl ConfigError {
    /// The error's message (the duration errors carry their cause apart).
    pub fn message(&self) -> (s: String)
        ensures
            s@ == config_error_text(*self),
    {
        match self {
            ConfigError::NotText(SettingKey::RunDuration) => "'duration' must be a string".to_string(),
            ConfigError::NotText(SettingKey::Warmup) => "'warmup' must be a string".to_string(),
            ConfigError::NotText(SettingKey::Namespace) => "'namespace' must be a string".to_string(),
            ConfigError::InvalidDuration(_) => "Invalid duration".to_string(),
            ConfigError::InvalidWarmup(_) => "Invalid warmup".to_string(),
            ConfigError::EmptyNamespace => "Namespace cannot be empty".to_string(),
            ConfigError::FaultsNotList => "'faults' must be an array".to_string(),
            ConfigError::FaultNotText => "Faults array must contain only strings".to_string(),
            ConfigError::ProbesNotList => "'probes' must be an array".to_string(),
            ConfigError::ProbeNameNotText => "probe 'name' must be a string".to_string(),
            ConfigError::ProbeUrlNotText => "probe 'url' must be a string".to_string(),
            ConfigError::InvalidProbeUrl { name, url } => {
                let mut s = "Invalid URL in probe '".to_string();
                push_str(&mut s, name.as_str());
                push_str(&mut s, "': ");
                push_str(&mut s, url.as_str());
                s
            },
        }
    }
}

/// What a valid configuration sets.
#[derive(Debug, Clone, PartialEq, Eq)]
pub struct ConfigSummary {
    pub duration: String,
    pub warmup: String,
    pub namespace: String,
    pub faults: Vec<String>,
    pub probe_names: Vec<String>,
}

/// A string setting: its text, `default` when it is absent, `None` when it
/// is not a string.
pub open spec fn setting(v: ConfigValue, key: Seq<char>, default: Seq<char>) -> Option<Seq<char>> {
    match entry(v, key) {
        Some(e) => text_value(e),
        None => Some(default),
    }
}

/// The name a probe entry gives itself: its `name` (`unnamed` when it has
/// none); `None` when the name is not a string.
pub open spec fn probe_entry_name(p: ConfigValue) -> Option<Seq<char>> {
    setting(p, "name"@, "unnamed"@)
}

/// Whether a URL starts with `http://` or `https://`.
pub open spec fn web_url(u: Seq<char>) -> bool {
    starts_with(u, "http://"@) || starts_with(u, "https://"@)
}

/// Whether a probe entry passes: a string name if any, and a string web URL
/// if any.
pub open spec fn probe_entry_ok(p: ConfigValue) -> bool {
    &&& probe_entry_name(p) is Some
    &&& (entry(p, "url"@) matches Some(u) ==> (text_value(u) matches Some(t) && web_url(t)))
}

/// `e` is what the failing probe entry `p` is refused for: its name, else
/// its URL's type, else its URL.
pub open spec fn probe_entry_error(p: ConfigValue, e: ConfigError) -> bool {
    if probe_entry_name(p) is None {
        e == ConfigError::ProbeNameNotText
    } else if text_entry(p, "url"@) is None {
        e == ConfigError::ProbeUrlNotText
    } else {
        e matches ConfigError::InvalidProbeUrl { name, url } && name@ == probe_entry_name(p)->0 && url@
            == text_entry(p, "url"@)->0
    }
}

/// The texts of the strings of `v`.
pub open spec fn views(v: Seq<String>) -> Seq<Seq<char>> {
    v.map_values(|x: String| x@)
}

/// `r` is what `validate` concludes of the configuration `v`: the settings
/// are checked in the order `duration`, `warmup`, `namespace` (strings),
/// then the duration and warmup parse, the namespace is not empty, `faults`
/// is a list of strings and `probes` a list of passing entries; the first
/// check that fails gives the error, and a configuration that passes them
/// all gives its settings, the defaults (`30s`, `5s`, `default`) where
/// absent.
pub open spec fn config_checked(v: ConfigValue, r: Result<ConfigSummary, ConfigError>) -> bool {
    let d = setting(v, "duration"@, "30s"@);
    let w = setting(v, "warmup"@, "5s"@);
    let n = setting(v, "namespace"@, "default"@);
    if d is None {
        r == Err::<ConfigSummary, ConfigError>(ConfigError::NotText(SettingKey::RunDuration))
    } else if w is None {
        r == Err::<ConfigSummary, ConfigError>(ConfigError::NotText(SettingKey::Warmup))
    } else if n is None {
        r == Err::<ConfigSummary, ConfigError>(ConfigError::NotText(SettingKey::Namespace))
    } else if duration_arg_seconds(d->0) is Err {
        r == Err::<ConfigSummary, ConfigError>(ConfigError::InvalidDuration(duration_arg_seconds(d->0)->Err_0))
    } else if duration_arg_seconds(w->0) is Err {
        r == Err::<ConfigSummary, ConfigError>(ConfigError::InvalidWarmup(duration_arg_seconds(w->0)->Err_0))
    } else if n->0.len() == 0 {
        r == Err::<ConfigSummary, ConfigError>(ConfigError::EmptyNamespace)
    } else if entry(v, "faults"@) matches Some(f) && !(f is List) {
        r == Err::<ConfigSummary, ConfigError>(ConfigError::FaultsNotList)
    } else if entry(v, "faults"@) matches Some(ConfigValue::List(items)) && exists|k: int|
        0 <= k < items@.len() && !(#[trigger] items@[k] is Text) {
        r == Err::<ConfigSummary, ConfigError>(ConfigError::FaultNotText)
    } else if entry(v, "probes"@) matches Some(p) && !(p is List) {
        r == Err::<ConfigSummary, ConfigError>(ConfigError::ProbesNotList)
    } else if entry(v, "probes"@) matches Some(ConfigValue::List(items)) && exists|k: int|
        0 <= k < items@.len() && !probe_entry_ok(#[trigger] items@[k]) {
        let items = entry(v, "probes"@)->Some_0->List_0@;
        exists|k: int|
            0 <= k < items.len() && !probe_entry_ok(#[trigger] items[k]) && (forall|j: int|
                0 <= j < k ==> probe_entry_ok(#[trigger] items[j])) && (r matches Err(e) && probe_entry_error(items[k], e))
    } else {
        &&& r matches Ok(s)
        &&& s.duration@ == d->0
        &&& s.warmup@ == w->0
        &&& s.namespace@ == n->0
        &&& views(s.faults@) == match entry(v, "faults"@) {
            Some(ConfigValue::List(items)) => items@.map_values(|x: ConfigValue| text_value(x)->0),
            _ => Seq::empty(),
        }
        &&& views(s.probe_names@) == match entry(v, "probes"@) {
            Some(ConfigValue::List(items)) => items@.map_values(|x: ConfigValue| probe_entry_name(x)->0),
            _ => Seq::empty(),
        }
    }
}

/// The duration and warmup given, if any, fit in 64-bit seconds.
pub open spec fn config_durations_fit(v: ConfigValue) -> bool {
    &&& (text_entry(v, "duration"@) matches Some(t) ==> duration_arg_fits(t))
    &&& (text_entry(v, "warmup"@) matches Some(t) ==> duration_arg_fits(t))
}

/// A string setting, `default` when absent, `None` when not a string.
fn get_setting(v: &ConfigValue, key: &str, default: &str) -> (r: Option<String>)
    ensures
        match r {
            Some(s) => setting(*v, key@, default@) == Some(s@),
            None => setting(*v, key@, default@) is None,
        },
{
    match get_entry(v, key) {
        Some(ConfigValue::Text(s)) => Some(s.clone()),
        Some(_) => None,
        None => Some(default.to_string()),
    }
}

/// Checks a probe entry, giving its name when it passes.
fn check_probe_entry(p: &ConfigValue) -> (r: Result<String, ConfigError>)
    ensures
        match r {
            Ok(name) => probe_entry_ok(*p) && probe_entry_name(*p) == Some(name@),
            Err(e) => !probe_entry_ok(*p) && probe_entry_error(*p, e),
        },
{
    let name = match get_setting(p, "name", "unnamed") {
        Some(n) => n,
        None => return Err(ConfigError::ProbeNameNotText),
    };
    match get_entry(p, "url") {
        Some(ConfigValue::Text(url)) => {
            if str_starts_with(url.as_str(), "http://") || str_starts_with(url.as_str(), "https://") {
                Ok(name)
            } else {
                Err(ConfigError::InvalidProbeUrl { name, url: url.clone() })
            }
        },
        Some(_) => Err(ConfigError::ProbeUrlNotText),
        None => Ok(name),
    }
}

/// The texts of a list whose entries are all strings; `None` otherwise.
fn list_texts(items: &Vec<ConfigValue>) -> (r: Option<Vec<String>>)
    ensures
        r is Some <==> forall|k: int| 0 <= k < items@.len() ==> (#[trigger] items@[k]) is Text,
        r matches Some(t) ==> views(t@) == items@.map_values(|x: ConfigValue| text_value(x)->0),
{
    let mut out: Vec<String> = Vec::new();
    let mut i: usize = 0;
    while i < items.len()
        invariant
            i <= items@.len(),
            forall|k: int| 0 <= k < i ==> (#[trigger] items@[k]) is Text,
            views(out@) == items@.take(i as int).map_values(|x: ConfigValue| text_value(x)->0),
        decreases items@.len() - i,
    {
        match &items[i] {
            ConfigValue::Text(s) => {
                let ghost before = views(out@);
                out.push(s.clone());
                assert(views(out@) =~= items@.take(i + 1).map_values(|x: ConfigValue| text_value(x)->0)) by {
                    assert(views(out@) =~= before.push(s@));
                }
            },
            _ => {
                assert(!(items@[i as int] is Text));
                return None;
            },
        }
        i = i + 1;
    }
    assert(items@.take(items@.len() as int) =~= items@);
    Some(out)
}

/// The names of a list of probe entries that all pass; the error of the
/// first that does not, otherwise.
fn probe_entry_names(items: &Vec<ConfigValue>) -> (r: Result<Vec<String>, ConfigError>)
    ensures
        r is Ok <==> forall|k: int| 0 <= k < items@.len() ==> probe_entry_ok(#[trigger] items@[k]),
        r matches Ok(t) ==> views(t@) == items@.map_values(|x: ConfigValue| probe_entry_name(x)->0),
        r matches Err(e) ==> exists|k: int|
            0 <= k < items@.len() && !probe_entry_ok(#[trigger] items@[k]) && (forall|j: int|
                0 <= j < k ==> probe_entry_ok(#[trigger] items@[j])) && probe_entry_error(items@[k], e),
{
    let mut out: Vec<String> = Vec::new();
    let mut i: usize = 0;
    while i < items.len()
        invariant
            i <= items@.len(),
            forall|k: int| 0 <= k < i ==> probe_entry_ok(#[trigger] items@[k]),
            views(out@) == items@.take(i as int).map_values(|x: ConfigValue| probe_entry_name(x)->0),
        decreases items@.len() - i,
    {
        match check_probe_entry(&items[i]) {
            Ok(name) => {
                let ghost before = views(out@);
                let ghost nv = name@;
                out.push(name);
                assert(views(out@) =~= items@.take(i + 1).map_values(|x: ConfigValue| probe_entry_name(x)->0)) by {
                    assert(views(out@) =~= before.push(nv));
                }
            },
            Err(e) => {
                assert(!probe_entry_ok(items@[i as int]));
                return Err(e);
            },
        }
        i = i + 1;
    }
    assert(items@.take(items@.len() as int) =~= items@);
    Ok(out)
}

/// Checks a configuration as `validate` does and gives what it sets.
pub fn validate_config(v: &ConfigValue) -> (r: Result<ConfigSummary, ConfigError>)
    requires
        config_durations_fit(*v),
    ensures
        config_checked(*v, r),
{
    let duration = match get_setting(v, "duration", "30s") {
        Some(s) => s,
        None => return Err(ConfigError::NotText(SettingKey::RunDuration)),
    };
    let warmup = match get_setting(v, "warmup", "5s") {
        Some(s) => s,
        None => return Err(ConfigError::NotText(SettingKey::Warmup)),
    };
    let namespace = match get_setting(v, "namespace", "default") {
        Some(s) => s,
        None => return Err(ConfigError::NotText(SettingKey::Namespace)),
    };
    if let Some(e) = duration_arg_error(duration.as_str()) {
        return Err(ConfigError::InvalidDuration(e));
    }
    if let Some(e) = duration_arg_error(warmup.as_str()) {
        return Err(ConfigError::InvalidWarmup(e));
    }
    if chars_of(namespace.as_str()).len() == 0 {
        return Err(ConfigError::EmptyNamespace);
    }
    let faults = match get_entry(v, "faults") {
        Some(ConfigValue::List(items)) => match list_texts(items) {
            Some(t) => t,
            None => return Err(ConfigError::FaultNotText),
        },
        Some(_) => return Err(ConfigError::FaultsNotList),
        None => {
            let t: Vec<String> = Vec::new();
            assert(views(t@) =~= Seq::<Seq<char>>::empty());
            t
        },
    };
    let probe_names = match get_entry(v, "probes") {
        Some(ConfigValue::List(items)) => match probe_entry_names(items) {
            Ok(names) => names,
            Err(e) => return Err(e),
        },
        Some(_) => return Err(ConfigError::ProbesNotList),
        None => {
            let t: Vec<String> = Vec::new();
            assert(views(t@) =~= Seq::<Seq<char>>::empty());
            t
        },
    };
    Ok(ConfigSummary { duration, warmup, namespace, faults, probe_names })
}

} // verus!
