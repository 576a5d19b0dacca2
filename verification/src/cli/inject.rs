//! What the `time-warp` and `process-fault` commands ask of a pod: the
//! `kubectl debug` command line that runs `heisensim-inject` next to the
//! workload, and the fault configuration that `heisensim-inject` applies.

use vstd::prelude::*;
use crate::cli::args::{texts, ProcessFaultType};
use crate::intercept::handler::NetworkFaultConfig;
use crate::k8s::cluster::owned_strings;
use crate::text::{decimal_chars, push_decimal, push_str, signed_decimal_chars, push_signed_decimal};

verus! {

/// The image that carries `heisensim-inject`.
pub open spec fn inject_image() -> Seq<char> {
    "--image=ghcr.io/heisensim/heisensim:latest"@
}

/// The container to share a process namespace with: the named one, else
/// the one named like the pod.
pub open spec fn target_text(pod: Seq<char>, container: Option<String>) -> Seq<char> {
    match container {
        Some(c) => c@,
        None => pod,
    }
}

/// `prefix` followed by `rest`.
fn joined(prefix: &str, rest: &str) -> (s: String)
    ensures
        s@ == prefix@ + rest@,
{
    let mut s = String::new();
    push_str(&mut s, prefix);
    push_str(&mut s, rest);
    s
}

/// The `kubectl` arguments of `time-warp`: an ephemeral container
/// `heisensim-timewarp` that runs `heisensim-inject` on process 1 with the
/// offset and speed.
pub fn time_warp_kubectl_args(namespace: &str, pod: &str, container: &Option<String>, offset: &str, speed: &str) -> (a: Vec<String>)
    ensures
        texts(a@) == seq![
            "debug"@,
            "-n"@,
            namespace@,
            pod@,
            inject_image(),
            "--container=heisensim-timewarp"@,
            "--target="@ + target_text(pod@, *container),
            "--"@,
            "heisensim-inject"@,
            "--pid"@,
            "1"@,
            "--offset"@,
            offset@,
            "--speed"@,
            speed@,
        ],
{
    let target = match container {
        Some(c) => joined("--target=", c.as_str()),
        None => joined("--target=", pod),
    };
    let mut a = owned_strings(
        &[
            "debug",
            "-n",
            namespace,
            pod,
            "--image=ghcr.io/heisensim/heisensim:latest",
            "--container=heisensim-timewarp",
        ],
    );
    a.push(target);
    let rest = owned_strings(&["--", "heisensim-inject", "--pid", "1", "--offset", offset, "--speed", speed]);
    let ghost head = a@;
    let mut i: usize = 0;
    while i < rest.len()
        invariant
            i <= rest@.len(),
            a@ == head + rest@.take(i as int),
        decreases rest@.len() - i,
    {
        a.push(rest[i].clone());
        assert(rest@.take(i + 1) =~= rest@.take(i as int).push(rest@[i as int]));
        i = i + 1;
    }
    assert(rest@.take(rest@.len() as int) =~= rest@);
    assert(texts(a@) =~= seq![
        "debug"@,
        "-n"@,
        namespace@,
        pod@,
        inject_image(),
        "--container=heisensim-timewarp"@,
        "--target="@ + target_text(pod@, *container),
        "--"@,
        "heisensim-inject"@,
        "--pid"@,
        "1"@,
        "--offset"@,
        offset@,
        "--speed"@,
        speed@,
    ]);
    a
}

/// The name `heisensim-inject` knows a process fault by.
pub open spec fn fault_flag(f: ProcessFaultType) -> Seq<char> {
    match f {
        ProcessFaultType::ConnectError => "connect-error"@,
        ProcessFaultType::FdExhaustion => "fd-exhaustion"@,
        ProcessFaultType::ConnectLatency => "connect-latency"@,
    }
}

/// The name `heisensim-inject` knows a process fault by.
pub fn fault_flag_text(f: ProcessFaultType) -> (s: &'static str)
    ensures
        s@ == fault_flag(f),
{
    match f {
        ProcessFaultType::ConnectError => "connect-error",
        ProcessFaultType::FdExhaustion => "fd-exhaustion",
        ProcessFaultType::ConnectLatency => "connect-latency",
    }
}

/// The `kubectl` arguments of `process-fault`: an ephemeral container
/// `container_name` that runs `heisensim-inject` on process 1 with the fault,
/// its duration and errno, the port filter if any, and the latency for
/// `connect-latency`.
pub fn process_fault_kubectl_args(
    namespace: &str,
    pod: &str,
    container: &Option<String>,
    container_name: &str,
    fault: ProcessFaultType,
    duration: &str,
    errno: i32,
    port: Option<u16>,
    latency: u64,
) -> (a: Vec<String>)
    ensures
        texts(a@) == seq![
            "debug"@,
            "-n"@,
            namespace@,
            pod@,
            inject_image(),
            "--container="@ + container_name@,
            "--target="@ + target_text(pod@, *container),
            "--"@,
            "heisensim-inject"@,
            "--pid"@,
            "1"@,
            "--fault"@,
            fault_flag(fault),
            "--duration"@,
            duration@,
            "--errno"@,
            signed_decimal_chars(errno as int),
        ] + (match port {
            Some(p) => seq!["--port"@, decimal_chars(p as nat)],
            None => Seq::empty(),
        }) + (if fault == ProcessFaultType::ConnectLatency {
            seq!["--latency"@, decimal_chars(latency as nat)]
        } else {
            Seq::empty()
        }),
{
    let target = match container {
        Some(c) => joined("--target=", c.as_str()),
        None => joined("--target=", pod),
    };
    let mut a = owned_strings(
        &[
            "debug",
            "-n",
            namespace,
            pod,
            "--image=ghcr.io/heisensim/heisensim:latest",
        ],
    );
    a.push(joined("--container=", container_name));
    a.push(target);
    let rest = owned_strings(
        &["--", "heisensim-inject", "--pid", "1", "--fault", fault_flag_text(fault), "--duration", duration, "--errno"],
    );
    let ghost head = a@;
    let mut i: usize = 0;
    while i < rest.len()
        invariant
            i <= rest@.len(),
            a@ == head + rest@.take(i as int),
        decreases rest@.len() - i,
    {
        a.push(rest[i].clone());
        assert(rest@.take(i + 1) =~= rest@.take(i as int).push(rest@[i as int]));
        i = i + 1;
    }
    assert(rest@.take(rest@.len() as int) =~= rest@);
    let mut e = String::new();
    push_signed_decimal(&mut e, errno as i64);
    a.push(e);
    let ghost base = texts(a@);
    if let Some(p) = port {
        a.push(String::from_str("--port"));
        let mut ps = String::new();
        push_decimal(&mut ps, p as u64);
        a.push(ps);
    }
    let ghost with_port = texts(a@);
    assert(with_port =~= base + match port {
        Some(p) => seq!["--port"@, decimal_chars(p as nat)],
        None => Seq::<Seq<char>>::empty(),
    });
    if fault == ProcessFaultType::ConnectLatency {
        a.push(String::from_str("--latency"));
        let mut ls = String::new();
        push_decimal(&mut ls, latency);
        a.push(ls);
    }
    assert(texts(a@) =~= with_port + if fault == ProcessFaultType::ConnectLatency {
        seq!["--latency"@, decimal_chars(latency as nat)]
    } else {
        Seq::<Seq<char>>::empty()
    });
    assert(base =~= seq![
        "debug"@,
        "-n"@,
        namespace@,
        pod@,
        inject_image(),
        "--container="@ + container_name@,
        "--target="@ + target_text(pod@, *container),
        "--"@,
        "heisensim-inject"@,
        "--pid"@,
        "1"@,
        "--fault"@,
        fault_flag(fault),
        "--duration"@,
        duration@,
        "--errno"@,
        signed_decimal_chars(errno as int),
    ]);
    a
}

/// The errno of a file-descriptor exhaustion fault (`EMFILE`).
pub const EMFILE: i32 = 24;

/// A process fault refused before injection.
#[derive(Debug, Clone, Copy, PartialEq, Eq, Structural)]
pub enum ProcessFaultError {
    /// A port filter only applies to connections, not to fd exhaustion.
    PortWithFdExhaustion,
}

impl ProcessFaultError {
    /// The error's message.
    pub fn message(&self) -> (s: String)
        ensures
            s@ == "--port cannot be combined with fd-exhaustion"@,
    {
        String::from_str("--port cannot be combined with fd-exhaustion")
    }
}

/// The network fault a process fault applies: `connect()` fails with `errno`
/// (connect-error), `socket()` fails with `EMFILE` (fd-exhaustion), or
/// `connect()` waits `latency_ms` (connect-latency); a port filter limits
/// the connect faults and is refused with fd exhaustion.
pub fn process_fault_config(fault: ProcessFaultType, errno: i32, latency_ms: u64, port: Option<u16>) -> (r: Result<NetworkFaultConfig, ProcessFaultError>)
    ensures
        fault == ProcessFaultType::FdExhaustion && port is Some <==> r is Err,
        r matches Ok(c) ==> c.target_port == port && match fault {
            ProcessFaultType::ConnectError => c.connect_error == Some(errno) && c.socket_error is None
                && c.connect_latency_ms is None,
            ProcessFaultType::FdExhaustion => c.socket_error == Some(EMFILE) && c.connect_error is None
                && c.connect_latency_ms is None,
            ProcessFaultType::ConnectLatency => c.connect_latency_ms == Some(latency_ms)
                && c.connect_error is None && c.socket_error is None,
        },
{
    match fault {
        ProcessFaultType::ConnectError => Ok(NetworkFaultConfig {
            connect_error: Some(errno),
            socket_error: None,
            connect_latency_ms: None,
            target_port: port,
        }),
        ProcessFaultType::FdExhaustion => {
            if port.is_some() {
                Err(ProcessFaultError::PortWithFdExhaustion)
            } else {
                Ok(NetworkFaultConfig {
                    connect_error: None,
                    socket_error: Some(EMFILE),
                    connect_latency_ms: None,
                    target_port: None,
                })
            }
        },
        ProcessFaultType::ConnectLatency => Ok(NetworkFaultConfig {
            connect_error: None,
            socket_error: None,
            connect_latency_ms: Some(latency_ms),
            target_port: port,
        }),
    }
}

} // verus!
