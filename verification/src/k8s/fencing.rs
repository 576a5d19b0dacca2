//! Namespace fencing: namespaces that faults are never injected into. The
//! list cannot be overridden.

use vstd::prelude::*;
use crate::text::{push_str, same_str};

verus! {

/// The protected namespaces, in the order they are listed in messages.
pub open spec fn blocked_namespaces() -> Seq<Seq<char>> {
    seq![
        "kube-system"@,
        "kube-public"@,
        "kube-node-lease"@,
        "istio-system"@,
        "linkerd"@,
        "cert-manager"@,
        "ingress-nginx"@,
        "monitoring"@,
        "gatekeeper-system"@,
        "calico-system"@,
        "tigera-operator"@,
    ]
}

/// Whether a namespace is protected (without failing).
pub fn is_blocked(namespace: &str) -> (b: bool)
    ensures
        b == blocked_namespaces().contains(namespace@),
{
    let names: [&str; 11] = [
        "kube-system",
        "kube-public",
        "kube-node-lease",
        "istio-system",
        "linkerd",
        "cert-manager",
        "ingress-nginx",
        "monitoring",
        "gatekeeper-system",
        "calico-system",
        "tigera-operator",
    ];
    let ghost views = Seq::new(11, |i: int| names@[i]@);
    assert(views =~= blocked_namespaces());
    let mut i: usize = 0;
    while i < 11
        invariant
            i <= 11,
            views == blocked_namespaces(),
            forall|k: int| 0 <= k < 11 ==> views[k] == (#[trigger] names@[k])@,
            forall|k: int| 0 <= k < i ==> views[k] != namespace@,
        decreases 11 - i,
    {
        if same_str(namespace, names[i]) {
            assert(views[i as int] == namespace@);
            return true;
        }
        i = i + 1;
    }
    false
}

/// Refusal to operate in a protected namespace.
#[derive(Debug, Clone, PartialEq, Eq)]
pub struct ProtectedNamespace {
    pub namespace: String,
}

/// The protected namespaces joined with `", "`.
pub open spec fn blocked_list_text() -> Seq<char> {
    "kube-system, kube-public, kube-node-lease, istio-system, linkerd, cert-manager, ingress-nginx, monitoring, gatekeeper-system, calico-system, tigera-operator"@
}

impl ProtectedNamespace {
    /// The refusal's message, naming the namespace and the protected list.
    pub fn message(&self) -> (s: String)
        ensures
            s@ == "Namespace '"@ + self.namespace@ + "' is protected and cannot be targeted by heisensim.\nProtected namespaces: "@
                + blocked_list_text() + "\nThis restriction cannot be overridden."@,
    {
        let mut s = String::new();
        push_str(&mut s, "Namespace '");
        push_str(&mut s, self.namespace.as_str());
        push_str(&mut s, "' is protected and cannot be targeted by heisensim.\nProtected namespaces: ");
        push_str(&mut s, "kube-system, kube-public, kube-node-lease, istio-system, linkerd, cert-manager, ingress-nginx, monitoring, gatekeeper-system, calico-system, tigera-operator");
        push_str(&mut s, "\nThis restriction cannot be overridden.");
        s
    }
}

/// Refuses a protected namespace; any other is accepted.
pub fn validate_namespace(namespace: &str) -> (r: Result<(), ProtectedNamespace>)
    ensures
        r is Ok <==> !blocked_namespaces().contains(namespace@),
        r matches Err(e) ==> e.namespace@ == namespace@,
{
    if is_blocked(namespace) {
        Err(ProtectedNamespace { namespace: String::from_str(namespace) })
    } else {
        Ok(())
    }
}

} // verus!
