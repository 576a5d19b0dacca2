//! Pods and services as discovered in a namespace, and the pods that a set
//! of services selects (for blast-radius targeting). Listing them from the
//! cluster is left to the caller.
//!
//! Labels and selectors are `(key, value)` lists with distinct keys, in the
//! order the cluster returns them.

use vstd::prelude::*;
use crate::text::same_str;

verus! {

/// A pod found in a namespace.
#[derive(Debug, Clone)]
pub struct PodInfo {
    pub name: String,
    pub namespace: String,
    pub labels: Vec<(String, String)>,
    pub container_names: Vec<String>,
    pub is_ready: bool,
    pub pod_ip: Option<String>,
}

/// A service found in a namespace.
#[derive(Debug, Clone)]
pub struct ServiceInfo {
    pub name: String,
    pub cluster_ip: Option<String>,
    pub ports: Vec<u16>,
    pub selector: Vec<(String, String)>,
}

/// The value a label list gives `key`: that of its first pair with the key.
pub open spec fn label_value(labels: Seq<(String, String)>, key: Seq<char>) -> Option<Seq<char>>
    decreases labels.len(),
{
    if labels.len() == 0 {
        None
    } else if labels[0].0@ == key {
        Some(labels[0].1@)
    } else {
        label_value(labels.skip(1), key)
    }
}

/// Whether every pair of a selector is among the labels.
pub open spec fn selector_matches(selector: Seq<(String, String)>, labels: Seq<(String, String)>) -> bool {
    forall|i: int| 0 <= i < selector.len() ==> label_value(labels, (#[trigger] selector[i]).0@) == Some(selector[i].1@)
}

/// Whether `svc` is one of the named services and selects something.
pub open spec fn is_target(svc: ServiceInfo, names: Seq<String>) -> bool {
    &&& exists|k: int| 0 <= k < names.len() && (#[trigger] names[k])@ == svc.name@
    &&& svc.selector@.len() > 0
}

/// Whether some targeted service selects `pod`.
pub open spec fn pod_selected(pod: PodInfo, services: Seq<ServiceInfo>, names: Seq<String>) -> bool {
    exists|j: int|
        0 <= j < services.len() && is_target(#[trigger] services[j], names) && selector_matches(
            services[j].selector@,
            pod.labels@,
        )
}

/// Whether no service is targeted: then all pods are kept.
pub open spec fn no_target(services: Seq<ServiceInfo>, names: Seq<String>) -> bool {
    forall|j: int| 0 <= j < services.len() ==> !is_target(#[trigger] services[j], names)
}

/// The value `labels` gives `key`.
fn find_label<'a>(labels: &'a Vec<(String, String)>, key: &str) -> (r: Option<&'a String>)
    ensures
        match r {
            Some(v) => label_value(labels@, key@) == Some(v@),
            None => label_value(labels@, key@) is None,
        },
{
    let mut i: usize = 0;
    assert(labels@.skip(0) =~= labels@);
    while i < labels.len()
        invariant
            i <= labels@.len(),
            label_value(labels@.skip(i as int), key@) == label_value(labels@, key@),
        decreases labels@.len() - i,
    {
        assert(labels@.skip(i as int)[0] == labels@[i as int]);
        if same_str(labels[i].0.as_str(), key) {
            return Some(&labels[i].1);
        }
        assert(labels@.skip(i as int).skip(1) =~= labels@.skip(i + 1));
        i = i + 1;
    }
    None
}

/// Whether `selector` matches `labels`.
fn matches_selector(selector: &Vec<(String, String)>, labels: &Vec<(String, String)>) -> (b: bool)
    ensures
        b == selector_matches(selector@, labels@),
{
    let mut i: usize = 0;
    while i < selector.len()
        invariant
            i <= selector@.len(),
            forall|k: int| 0 <= k < i ==> label_value(labels@, (#[trigger] selector@[k]).0@) == Some(selector@[k].1@),
        decreases selector@.len() - i,
    {
        match find_label(labels, selector[i].0.as_str()) {
            Some(v) => {
                if !same_str(v.as_str(), selector[i].1.as_str()) {
                    return false;
                }
            },
            None => {
                return false;
            },
        }
        i = i + 1;
    }
    true
}

/// Whether `svc` is one of the named services and selects something.
fn targets(svc: &ServiceInfo, names: &[String]) -> (b: bool)
    ensures
        b == is_target(*svc, names@),
{
    if svc.selector.len() == 0 {
        return false;
    }
    let mut k: usize = 0;
    while k < names.len()
        invariant
            k <= names@.len(),
            svc.selector@.len() > 0,
            forall|m: int| 0 <= m < k ==> (#[trigger] names@[m])@ != svc.name@,
        decreases names@.len() - k,
    {
        if same_str(names[k].as_str(), svc.name.as_str()) {
            assert(names@[k as int]@ == svc.name@);
            return true;
        }
        k = k + 1;
    }
    false
}

/// Whether some targeted service selects `pod`.
fn selected(pod: &PodInfo, services: &[ServiceInfo], names: &[String]) -> (b: bool)
    ensures
        b == pod_selected(*pod, services@, names@),
{
    let mut j: usize = 0;
    while j < services.len()
        invariant
            j <= services@.len(),
            forall|m: int|
                0 <= m < j ==> !(is_target(#[trigger] services@[m], names@) && selector_matches(
                    services@[m].selector@,
                    pod.labels@,
                )),
        decreases services@.len() - j,
    {
        if targets(&services[j], names) && matches_selector(&services[j].selector, &pod.labels) {
            return true;
        }
        j = j + 1;
    }
    false
}

/// The pods that the named services select: `None` when no service is named,
/// or when none of the named services has a selector (then every pod is
/// meant); otherwise the pods matched by at least one such selector, in order.
pub fn pods_for_services(
    service_names: &[String],
    services: &[ServiceInfo],
    pods: Vec<PodInfo>,
) -> (r: Option<Vec<PodInfo>>)
    ensures
        r is None <==> (service_names@.len() == 0 || no_target(services@, service_names@)),
        r matches Some(v) ==> v@ == pods@.filter(|p: PodInfo| pod_selected(p, services@, service_names@)),
{
    if service_names.len() == 0 {
        return None;
    }
    let mut any = false;
    let mut j: usize = 0;
    while j < services.len()
        invariant
            j <= services@.len(),
            any == !forall|m: int| 0 <= m < j ==> !is_target(#[trigger] services@[m], service_names@),
        decreases services@.len() - j,
    {
        if targets(&services[j], service_names) {
            any = true;
        }
        j = j + 1;
    }
    if !any {
        return None;
    }
    let ghost orig = pods@;
    let ghost f = |p: PodInfo| pod_selected(p, services@, service_names@);
    let mut rest = pods;
    let mut kept: Vec<PodInfo> = Vec::new();
    let ghost mut i: int = 0;
    assert(orig.skip(0) =~= orig);
    assert(orig.take(0) =~= Seq::<PodInfo>::empty());
    proof {
        reveal(Seq::filter);
    }
    while rest.len() > 0
        invariant
            0 <= i <= orig.len(),
            rest@ == orig.skip(i),
            kept@ == orig.take(i).filter(f),
            f == (|p: PodInfo| pod_selected(p, services@, service_names@)),
        decreases rest@.len(),
    {
        proof {
            assert(orig.take(i + 1).drop_last() =~= orig.take(i));
            assert(orig.take(i + 1).last() == orig[i]);
            reveal(Seq::filter);
        }
        let p = rest.remove(0);
        assert(p == orig[i]);
        if selected(&p, services, service_names) {
            kept.push(p);
        }
        proof {
            assert(rest@ =~= orig.skip(i + 1));
            i = i + 1;
        }
    }
    proof {
        assert(orig.take(i) =~= orig);
    }
    Some(kept)
}

/// Whether a pod's conditions say it is ready: some condition of type
/// `Ready` has status `True`.
pub open spec fn ready_in(conditions: Seq<(String, String)>) -> bool {
    exists|i: int| 0 <= i < conditions.len() && (#[trigger] conditions[i]).0@ == "Ready"@ && conditions[i].1@ == "True"@
}

/// Whether some `(type, status)` condition is `Ready` with status `True`.
pub fn pod_is_ready(conditions: &Vec<(String, String)>) -> (b: bool)
    ensures
        b == ready_in(conditions@),
{
    let mut i: usize = 0;
    while i < conditions.len()
        invariant
            i <= conditions@.len(),
            forall|k: int| 0 <= k < i ==> !((#[trigger] conditions@[k]).0@ == "Ready"@ && conditions@[k].1@ == "True"@),
        decreases conditions@.len() - i,
    {
        if same_str(conditions[i].0.as_str(), "Ready") && same_str(conditions[i].1.as_str(), "True") {
            return true;
        }
        i = i + 1;
    }
    false
}

} // verus!
