//! K3d clusters: the `k3d` command lines, and reading `k3d cluster list -o json`.
//! Running `k3d` is left to the caller.

use vstd::prelude::*;
use crate::text::same_str;

verus! {

/// A K3d cluster, known by name.
pub struct K3dCluster {
    pub name: String,
}

/// The text of each string in `v`.
pub open spec fn texts(v: Seq<String>) -> Seq<Seq<char>> {
    v.map_values(|s: String| s@)
}

/// A vector of owned copies of the given string slices.
pub fn owned_strings(parts: &[&str]) -> (v: Vec<String>)
    ensures
        v@.len() == parts@.len(),
        forall|i: int| 0 <= i < parts@.len() ==> (#[trigger] v@[i])@ == parts@[i]@,
{
    let mut v: Vec<String> = Vec::new();
    let mut i: usize = 0;
    while i < parts.len()
        invariant
            i <= parts@.len(),
            v@.len() == i,
            forall|k: int| 0 <= k < i ==> (#[trigger] v@[k])@ == parts@[k]@,
        decreases parts@.len() - i,
    {
        v.push(String::from_str(parts[i]));
        i = i + 1;
    }
    v
}

impl K3dCluster {
    /// Arguments to `k3d` that create the cluster `name` without a load
    /// balancer and wait for it.
    pub fn create_args(name: &str) -> (a: Vec<String>)
        ensures
            texts(a@) == seq!["cluster"@, "create"@, name@, "--no-lb"@, "--wait"@],
    {
        let a = owned_strings(&["cluster", "create", name, "--no-lb", "--wait"]);
        assert(texts(a@) =~= seq!["cluster"@, "create"@, name@, "--no-lb"@, "--wait"@]);
        a
    }

    /// Arguments to `k3d` that delete this cluster.
    pub fn delete_args(&self) -> (a: Vec<String>)
        ensures
            texts(a@) == seq!["cluster"@, "delete"@, self.name@],
    {
        let a = owned_strings(&["cluster", "delete", self.name.as_str()]);
        assert(texts(a@) =~= seq!["cluster"@, "delete"@, self.name@]);
        a
    }

    /// Arguments to `k3d` that list the clusters as JSON.
    pub fn list_args() -> (a: Vec<String>)
        ensures
            texts(a@) == seq!["cluster"@, "list"@, "-o"@, "json"@],
    {
        let a = owned_strings(&["cluster", "list", "-o", "json"]);
        assert(texts(a@) =~= seq!["cluster"@, "list"@, "-o"@, "json"@]);
        a
    }

    /// Arguments to `k3d` that print this cluster's kubeconfig.
    pub fn kubeconfig_args(&self) -> (a: Vec<String>)
        ensures
            texts(a@) == seq!["kubeconfig"@, "get"@, self.name@],
    {
        let a = owned_strings(&["kubeconfig", "get", self.name.as_str()]);
        assert(texts(a@) =~= seq!["kubeconfig"@, "get"@, self.name@]);
        a
    }
}

/// What `serde_json` reads from a cluster list: its error message when the
/// text is not JSON; `None` when the JSON is not an array; otherwise, for
/// each element, its `"name"` field when that is a string.
pub uninterp spec fn json_cluster_names(text: Seq<char>) -> Result<Option<Seq<Option<Seq<char>>>>, Seq<char>>;

/// The text of each optional string in `v`.
pub open spec fn optional_texts(v: Seq<Option<String>>) -> Seq<Option<Seq<char>>> {
    v.map_values(|s: Option<String>| match s {
        Some(t) => Some(t@),
        None => None,
    })
}

/// The view of what `read_cluster_names` returns.
pub open spec fn names_result_view(r: Result<Option<Vec<Option<String>>>, String>) -> Result<Option<Seq<Option<Seq<char>>>>, Seq<char>> {
    match r {
        Ok(Some(v)) => Ok(Some(optional_texts(v@))),
        Ok(None) => Ok(None),
        Err(e) => Err(e@),
    }
}

/// `serde_json::from_str::<serde_json::Value>` on the list text, then
/// `Value::as_array`, and `get("name")` with `as_str` on each element. The
/// result is named: it depends on the text alone.
#[verifier::external_body]
fn read_cluster_names(text: &str) -> (r: Result<Option<Vec<Option<String>>>, String>)
    ensures
        names_result_view(r) == json_cluster_names(text@),
{
    let value: serde_json::Value = serde_json::from_str(text).map_err(|e| e.to_string())?;
    Ok(value.as_array().map(|items| {
        items.iter().map(|c| c.get("name").and_then(|n| n.as_str()).map(|n| n.to_string())).collect()
    }))
}

/// Whether the names read from a cluster list include `name`.
pub open spec fn listed(names: Option<Seq<Option<Seq<char>>>>, name: Seq<char>) -> bool {
    match names {
        None => false,
        Some(ns) => ns.contains(Some(name)),
    }
}

/// Whether the output of `k3d cluster list -o json` lists a cluster named
/// `name`; the JSON error message when the output is not JSON.
pub fn cluster_listed(list_json: &str, name: &str) -> (r: Result<bool, String>)
    ensures
        match json_cluster_names(list_json@) {
            Err(e) => r matches Err(m) && m@ == e,
            Ok(names) => r == Ok::<bool, String>(listed(names, name@)),
        },
{
    match read_cluster_names(list_json) {
        Err(e) => Err(e),
        Ok(None) => Ok(false),
        Ok(Some(names)) => {
            let ghost ns = optional_texts(names@);
            let mut i: usize = 0;
            while i < names.len()
                invariant
                    i <= names@.len(),
                    ns == optional_texts(names@),
                    json_cluster_names(list_json@) == Ok::<
                        Option<Seq<Option<Seq<char>>>>,
                        Seq<char>,
                    >(Some(ns)),
                    forall|k: int| 0 <= k < i ==> ns[k] != Some(name@),
                decreases names@.len() - i,
            {
                if let Some(n) = &names[i] {
                    if same_str(n.as_str(), name) {
                        assert(ns[i as int] == Some(name@));
                        assert(ns.contains(Some(name@)));
                        return Ok(true);
                    }
                }
                i = i + 1;
            }
            Ok(false)
        },
    }
}

} // verus!
