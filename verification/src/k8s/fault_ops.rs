//! The commands that inject and revert network faults inside pods, and how
//! they are run: with `kubectl exec` in the pod's container, or with
//! `kubectl debug` in an ephemeral `nicolaka/netshoot` container that shares
//! the pod's network namespace.

use vstd::prelude::*;
use crate::k8s::cluster::{owned_strings, texts};
use crate::text::{chars_of, decimal_chars, push_char, push_decimal, push_str};

verus! {

/// How network fault commands reach a pod.
#[derive(Debug, Clone, Copy, PartialEq, Eq, Structural)]
pub enum InjectMethod {
    /// Run the command in the target container (which needs tc/iptables).
    Exec,
    /// Run the command in an ephemeral debug container.
    Debug,
}

/// The kind of an active fault, which decides how it is reverted.
#[derive(Debug, Clone, PartialEq, Eq)]
pub enum ActiveFaultKind {
    /// Network latency via tc qdisc netem.
    NetworkLatency,
    /// Network partition via an iptables DROP rule.
    Partition { target_ip: String },
    /// DNS blackhole via iptables DROP on port 53.
    DnsFailure,
    /// CPU/memory stress via stress-ng, with the debug container it runs in
    /// when one was used.
    Stress { debug_container: Option<String> },
}

/// `n` milliseconds as tc writes them: the number followed by `ms`.
pub open spec fn ms_text(n: u32) -> Seq<char> {
    decimal_chars(n as nat) + "ms"@
}

/// The number of milliseconds followed by `ms`.
fn ms_string(n: u32) -> (s: String)
    ensures
        s@ == ms_text(n),
{
    let mut s = String::new();
    push_decimal(&mut s, n as u64);
    push_str(&mut s, "ms");
    s
}

/// The command that adds `delay_ms` of latency with `jitter_ms` of jitter on `eth0`.
pub fn latency_command(delay_ms: u32, jitter_ms: u32) -> (c: Vec<String>)
    ensures
        texts(c@) == seq!["tc"@, "qdisc"@, "add"@, "dev"@, "eth0"@, "root"@, "netem"@, "delay"@]
            + seq![ms_text(delay_ms), ms_text(jitter_ms)],
{
    let mut c = owned_strings(&["tc", "qdisc", "add", "dev", "eth0", "root", "netem", "delay"]);
    c.push(ms_string(delay_ms));
    c.push(ms_string(jitter_ms));
    assert(texts(c@) =~= seq!["tc"@, "qdisc"@, "add"@, "dev"@, "eth0"@, "root"@, "netem"@, "delay"@]
        + seq![ms_text(delay_ms), ms_text(jitter_ms)]);
    c
}

/// The command that removes the latency qdisc from `eth0`.
pub fn revert_latency_command() -> (c: Vec<String>)
    ensures
        texts(c@) == seq!["tc"@, "qdisc"@, "del"@, "dev"@, "eth0"@, "root"@],
{
    let c = owned_strings(&["tc", "qdisc", "del", "dev", "eth0", "root"]);
    assert(texts(c@) =~= seq!["tc"@, "qdisc"@, "del"@, "dev"@, "eth0"@, "root"@]);
    c
}

/// The command that drops all outgoing traffic to `target_ip`.
pub fn partition_command(target_ip: &str) -> (c: Vec<String>)
    ensures
        texts(c@) == seq!["iptables"@, "-A"@, "OUTPUT"@, "-d"@, target_ip@, "-j"@, "DROP"@],
{
    let c = owned_strings(&["iptables", "-A", "OUTPUT", "-d", target_ip, "-j", "DROP"]);
    assert(texts(c@) =~= seq!["iptables"@, "-A"@, "OUTPUT"@, "-d"@, target_ip@, "-j"@, "DROP"@]);
    c
}

/// The command that removes the rule dropping traffic to `target_ip`.
pub fn revert_partition_command(target_ip: &str) -> (c: Vec<String>)
    ensures
        texts(c@) == seq!["iptables"@, "-D"@, "OUTPUT"@, "-d"@, target_ip@, "-j"@, "DROP"@],
{
    let c = owned_strings(&["iptables", "-D", "OUTPUT", "-d", target_ip, "-j", "DROP"]);
    assert(texts(c@) =~= seq!["iptables"@, "-D"@, "OUTPUT"@, "-d"@, target_ip@, "-j"@, "DROP"@]);
    c
}

/// The name of an ephemeral debug container: `heisensim-` and the first
/// eight characters of an id.
pub fn debug_container_name(id: &str) -> (s: String)
    requires
        id@.len() >= 8,
    ensures
        s@ == "heisensim-"@ + id@.take(8),
{
    let cs = chars_of(id);
    let mut s = String::new();
    push_str(&mut s, "heisensim-");
    let mut i: usize = 0;
    let ghost base = s@;
    while i < 8
        invariant
            i <= 8,
            cs@ == id@,
            cs@.len() >= 8,
            s@ == base + cs@.take(i as int),
        decreases 8 - i,
    {
        push_char(&mut s, cs[i]);
        assert(cs@.take(i + 1) =~= cs@.take(i as int).push(cs@[i as int]));
        i = i + 1;
    }
    s
}

/// The arguments to `kubectl` that run `command` in `pod_name` with `method`;
/// `debug_name` names the ephemeral container of the debug method.
pub fn kubectl_args(
    method: InjectMethod,
    namespace: &str,
    pod_name: &str,
    command: &[String],
    debug_name: &str,
) -> (a: Vec<String>)
    ensures
        method == InjectMethod::Exec ==> texts(a@) == seq!["exec"@, "-n"@, namespace@, pod_name@, "--"@]
            + texts(command@),
        method == InjectMethod::Debug ==> texts(a@) == seq![
            "debug"@,
            "-n"@,
            namespace@,
            pod_name@,
            "--image=nicolaka/netshoot:latest"@,
            "--container="@ + debug_name@,
            "--target="@,
            "--"@,
        ] + texts(command@),
{
    let mut a = match method {
        InjectMethod::Exec => owned_strings(&["exec", "-n", namespace, pod_name, "--"]),
        InjectMethod::Debug => {
            let mut container = String::new();
            push_str(&mut container, "--container=");
            push_str(&mut container, debug_name);
            let mut v = owned_strings(
                &["debug", "-n", namespace, pod_name, "--image=nicolaka/netshoot:latest"],
            );
            v.push(container);
            v.push(String::from_str("--target="));
            v.push(String::from_str("--"));
            v
        },
    };
    let ghost head = texts(a@);
    let mut i: usize = 0;
    while i < command.len()
        invariant
            i <= command@.len(),
            texts(a@) == head + texts(command@.take(i as int)),
        decreases command@.len() - i,
    {
        let ghost before = a@;
        let c = command[i].clone();
        assert(c@ == command@[i as int]@);
        a.push(c);
        assert(a@ == before.push(c));
        assert(texts(a@) =~= texts(before).push(c@));
        assert(command@.take(i + 1) =~= command@.take(i as int).push(command@[i as int]));
        assert(texts(command@.take(i + 1)) =~= texts(command@.take(i as int)).push(command@[i as int]@));
        assert(texts(a@) =~= head + texts(command@.take(i + 1)));
        i = i + 1;
    }
    assert(command@.take(command@.len() as int) =~= command@);
    proof {
        match method {
            InjectMethod::Exec => {
                assert(head =~= seq!["exec"@, "-n"@, namespace@, pod_name@, "--"@]);
            },
            InjectMethod::Debug => {
                assert(head =~= seq![
                    "debug"@,
                    "-n"@,
                    namespace@,
                    pod_name@,
                    "--image=nicolaka/netshoot:latest"@,
                    "--container="@ + debug_name@,
                    "--target="@,
                    "--"@,
                ]);
            },
        }
    }
    a
}

} // verus!
