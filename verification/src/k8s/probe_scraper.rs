//! Turning the readiness and liveness probes that pods declare into probe
//! configurations. Listing the pods from the cluster is left to the caller,
//! which hands over what each pod declares.

use vstd::prelude::*;
use crate::probe::{
    ExecProbeConfig, GrpcProbeConfig, HttpMethod, HttpProbeConfig, ProbeConfig, TcpProbeConfig,
};
use crate::text::{
    chars_of, decimal_chars, from_str_radix_u64, lowercase_text, parse_u64_radix, push_decimal,
    push_signed_decimal, push_str, signed_decimal_chars, to_lowercase,
};

verus! {

/// A port given by number or by name.
#[derive(Debug, Clone)]
pub enum PortRef {
    Number(i32),
    Name(String),
}

/// An HTTP GET check.
#[derive(Debug, Clone)]
pub struct HttpGetAction {
    pub port: PortRef,
    pub path: Option<String>,
    pub scheme: Option<String>,
}

/// A TCP connect check.
#[derive(Debug, Clone)]
pub struct TcpSocketAction {
    pub port: PortRef,
}

/// A gRPC health check.
#[derive(Debug, Clone)]
pub struct GrpcAction {
    pub port: i32,
    pub service: Option<String>,
}

/// A command run in the container.
#[derive(Debug, Clone)]
pub struct ExecAction {
    pub command: Option<Vec<String>>,
}

/// A probe as a container declares it.
#[derive(Debug, Clone)]
pub struct KubeProbe {
    pub http_get: Option<HttpGetAction>,
    pub tcp_socket: Option<TcpSocketAction>,
    pub grpc: Option<GrpcAction>,
    pub exec_action: Option<ExecAction>,
    pub period_seconds: Option<i32>,
    pub timeout_seconds: Option<i32>,
}

/// The probes of one container.
#[derive(Debug, Clone)]
pub struct ContainerProbes {
    pub name: String,
    pub readiness_probe: Option<KubeProbe>,
    pub liveness_probe: Option<KubeProbe>,
}

/// What a listed pod declares: its name, its address once it has one, and
/// its containers when it has a spec.
#[derive(Debug, Clone)]
pub struct PodProbes {
    pub name: Option<String>,
    pub pod_ip: Option<String>,
    pub containers: Option<Vec<ContainerProbes>>,
}

/// The port a reference resolves to: a number's low 16 bits; a name that
/// reads as a decimal `u16`; otherwise 80.
pub open spec fn port_number(p: PortRef) -> u16 {
    match p {
        PortRef::Number(i) => i as u16,
        PortRef::Name(s) => match from_str_radix_u64(s@, 10) {
            Ok(v) => if v <= 0xffff {
                v as u16
            } else {
                80
            },
            Err(_) => 80,
        },
    }
}

/// The URL of an HTTP check on the pod at `pod_ip`: the scheme (`HTTP` by
/// default) in lower case, the address, the port and the path (`/` by
/// default).
pub open spec fn http_url(a: HttpGetAction, pod_ip: Seq<char>) -> Seq<char> {
    let scheme = match a.scheme {
        Some(s) => s@,
        None => "HTTP"@,
    };
    let path = match a.path {
        Some(p) => p@,
        None => "/"@,
    };
    lowercase_text(scheme) + "://"@ + pod_ip + ":"@ + decimal_chars(port_number(a.port) as nat) + path
}

/// Whether the probe has a check of some kind.
pub open spec fn has_action(p: KubeProbe) -> bool {
    p.http_get is Some || p.tcp_socket is Some || p.grpc is Some || p.exec_action is Some
}

/// `r` is the configuration for probe `p` named `name` on the pod at
/// `pod_ip`: the first check it has, in the order HTTP, TCP, gRPC, exec;
/// none when it has no check.
pub open spec fn converted(
    r: Option<ProbeConfig>,
    p: KubeProbe,
    name: Seq<char>,
    pod_ip: Seq<char>,
    interval_ms: u64,
    timeout_ms: u64,
) -> bool {
    if p.http_get is Some {
        &&& r matches Some(ProbeConfig::Http(c))
        &&& c.name@ == name
        &&& c.url@ == http_url(p.http_get->0, pod_ip)
        &&& c.method == HttpMethod::Get
        &&& c.expected_status == 200
        &&& c.timeout_ms == timeout_ms
        &&& c.interval_ms == interval_ms
        &&& c.headers is None
    } else if p.tcp_socket is Some {
        &&& r matches Some(ProbeConfig::Tcp(c))
        &&& c.name@ == name
        &&& c.host@ == pod_ip
        &&& c.port == port_number(p.tcp_socket->0.port)
        &&& c.timeout_ms == timeout_ms
        &&& c.interval_ms == interval_ms
    } else if p.grpc is Some {
        &&& r matches Some(ProbeConfig::Grpc(c))
        &&& c.name@ == name
        &&& c.address@ == pod_ip + ":"@ + signed_decimal_chars(p.grpc->0.port as int)
        &&& c.service == p.grpc->0.service
        &&& c.timeout_ms == timeout_ms
        &&& c.interval_ms == interval_ms
    } else if p.exec_action is Some {
        &&& r matches Some(ProbeConfig::Exec(c))
        &&& c.name@ == name
        &&& c.command@ == match p.exec_action->0.command {
            Some(v) => v@,
            None => Seq::empty(),
        }
        &&& c.timeout_ms == timeout_ms
        &&& c.interval_ms == interval_ms
    } else {
        r is None
    }
}

/// Resolves a port reference.
pub fn resolve_port(p: &PortRef) -> (n: u16)
    ensures
        n == port_number(*p),
{
    match p {
        PortRef::Number(i) => *i as u16,
        PortRef::Name(s) => {
            let cs = chars_of(s.as_str());
            assert(cs@.subrange(0, cs@.len() as int) =~= s@);
            match parse_u64_radix(cs.as_slice(), 0, cs.len(), 10) {
                Ok(v) => if v <= 0xffff {
                    v as u16
                } else {
                    80
                },
                Err(_) => 80,
            }
        },
    }
}

/// A copy of a list of strings.
fn copy_strings(v: &Vec<String>) -> (r: Vec<String>)
    ensures
        r@ == v@,
{
    let mut r: Vec<String> = Vec::new();
    let mut i: usize = 0;
    while i < v.len()
        invariant
            i <= v@.len(),
            r@ == v@.take(i as int),
        decreases v@.len() - i,
    {
        r.push(v[i].clone());
        i = i + 1;
        assert(r@ =~= v@.take(i as int));
    }
    assert(v@.take(v@.len() as int) =~= v@);
    r
}

/// The URL of an HTTP check on the pod at `pod_ip`.
fn http_url_of(a: &HttpGetAction, pod_ip: &str) -> (url: String)
    ensures
        url@ == http_url(*a, pod_ip@),
{
    let port = resolve_port(&a.port);
    let scheme = match &a.scheme {
        Some(s) => s.as_str(),
        None => "HTTP",
    };
    let path = match &a.path {
        Some(p) => p.as_str(),
        None => "/",
    };
    let mut url = to_lowercase(scheme);
    push_str(&mut url, "://");
    push_str(&mut url, pod_ip);
    push_str(&mut url, ":");
    push_decimal(&mut url, port as u64);
    push_str(&mut url, path);
    url
}

/// Converts one declared probe into a probe configuration named `name` for
/// the pod at `pod_ip`; `None` when the probe has no check.
pub fn convert_probe(
    probe: &KubeProbe,
    name: &str,
    pod_ip: &str,
    interval_ms: u64,
    timeout_ms: u64,
) -> (r: Option<ProbeConfig>)
    ensures
        converted(r, *probe, name@, pod_ip@, interval_ms, timeout_ms),
{
    if let Some(http) = &probe.http_get {
        let url = http_url_of(http, pod_ip);
        Some(
            ProbeConfig::Http(
                HttpProbeConfig {
                    name: name.to_string(),
                    url,
                    method: HttpMethod::Get,
                    expected_status: 200,
                    timeout_ms,
                    interval_ms,
                    headers: None,
                },
            ),
        )
    } else if let Some(tcp) = &probe.tcp_socket {
        let port = resolve_port(&tcp.port);
        Some(
            ProbeConfig::Tcp(
                TcpProbeConfig { name: name.to_string(), host: pod_ip.to_string(), port, timeout_ms, interval_ms },
            ),
        )
    } else if let Some(grpc) = &probe.grpc {
        let mut address = pod_ip.to_string();
        push_str(&mut address, ":");
        push_signed_decimal(&mut address, grpc.port as i64);
        let service = match &grpc.service {
            Some(s) => Some(s.clone()),
            None => None,
        };
        Some(
            ProbeConfig::Grpc(
                GrpcProbeConfig { name: name.to_string(), address, service, timeout_ms, interval_ms },
            ),
        )
    } else if let Some(exec_action) = &probe.exec_action {
        let command = match &exec_action.command {
            Some(v) => copy_strings(v),
            None => Vec::new(),
        };
        Some(
            ProbeConfig::Exec(
                ExecProbeConfig { name: name.to_string(), command, timeout_ms, interval_ms },
            ),
        )
    } else {
        None
    }
}

/// The check period of a probe in milliseconds (10 s by default).
pub open spec fn probe_interval_ms(p: KubeProbe) -> u64 {
    (match p.period_seconds {
        Some(s) => s,
        None => 10,
    } as u64 * 1000) as u64
}

/// The check timeout of a probe in milliseconds (5 s by default).
pub open spec fn probe_timeout_ms(p: KubeProbe) -> u64 {
    (match p.timeout_seconds {
        Some(s) => s,
        None => 5,
    } as u64 * 1000) as u64
}

/// The probe's period and timeout, where given, are not negative.
pub open spec fn seconds_fit(p: KubeProbe) -> bool {
    &&& (p.period_seconds matches Some(s) ==> s >= 0)
    &&& (p.timeout_seconds matches Some(s) ==> s >= 0)
}

/// The probes to convert for one container, readiness first: each with the
/// name `pod/container/readiness` (or `liveness`) and the pod's address.
pub open spec fn container_jobs(pod_name: Seq<char>, pod_ip: Seq<char>, c: ContainerProbes) -> Seq<(KubeProbe, Seq<char>, Seq<char>)> {
    let ready = match c.readiness_probe {
        Some(p) => seq![(p, pod_name + "/"@ + c.name@ + "/readiness"@, pod_ip)],
        None => Seq::empty(),
    };
    let live = match c.liveness_probe {
        Some(p) => seq![(p, pod_name + "/"@ + c.name@ + "/liveness"@, pod_ip)],
        None => Seq::empty(),
    };
    ready + live
}

/// The probes to convert for a list of containers, in order.
pub open spec fn containers_jobs(pod_name: Seq<char>, pod_ip: Seq<char>, cs: Seq<ContainerProbes>) -> Seq<(KubeProbe, Seq<char>, Seq<char>)>
    decreases cs.len(),
{
    if cs.len() == 0 {
        Seq::empty()
    } else {
        containers_jobs(pod_name, pod_ip, cs.drop_last()) + container_jobs(pod_name, pod_ip, cs.last())
    }
}

/// The name a pod goes by (`unknown` when it has none).
pub open spec fn pod_name_of(p: PodProbes) -> Seq<char> {
    match p.name {
        Some(n) => n@,
        None => "unknown"@,
    }
}

/// The probes to convert for one pod: none without an address or a spec.
pub open spec fn pod_jobs(p: PodProbes) -> Seq<(KubeProbe, Seq<char>, Seq<char>)> {
    match p.pod_ip {
        Some(ip) => match p.containers {
            Some(cs) => containers_jobs(pod_name_of(p), ip@, cs@),
            None => Seq::empty(),
        },
        None => Seq::empty(),
    }
}

/// The probes to convert for a list of pods, in order.
pub open spec fn pods_jobs(ps: Seq<PodProbes>) -> Seq<(KubeProbe, Seq<char>, Seq<char>)>
    decreases ps.len(),
{
    if ps.len() == 0 {
        Seq::empty()
    } else {
        pods_jobs(ps.drop_last()) + pod_jobs(ps.last())
    }
}

/// Every declared probe of every pod has periods that fit.
pub open spec fn pods_fit(ps: Seq<PodProbes>) -> bool {
    forall|i: int| 0 <= i < pods_jobs(ps).len() ==> seconds_fit(#[trigger] pods_jobs(ps)[i].0)
}

/// `r` holds, in order, the configurations of those `jobs` that have a
/// check.
pub open spec fn configs_of(r: Seq<ProbeConfig>, jobs: Seq<(KubeProbe, Seq<char>, Seq<char>)>) -> bool
    decreases jobs.len(),
{
    if jobs.len() == 0 {
        r.len() == 0
    } else {
        let (p, name, ip) = jobs.last();
        if has_action(p) {
            &&& r.len() > 0
            &&& converted(Some(r.last()), p, name, ip, probe_interval_ms(p), probe_timeout_ms(p))
            &&& configs_of(r.drop_last(), jobs.drop_last())
        } else {
            configs_of(r, jobs.drop_last())
        }
    }
}

/// Converting one more probe extends the list by its configuration, if any.
proof fn lemma_configs_push(
    r: Seq<ProbeConfig>,
    jobs: Seq<(KubeProbe, Seq<char>, Seq<char>)>,
    job: (KubeProbe, Seq<char>, Seq<char>),
    o: Option<ProbeConfig>,
)
    requires
        configs_of(r, jobs),
        converted(o, job.0, job.1, job.2, probe_interval_ms(job.0), probe_timeout_ms(job.0)),
    ensures
        configs_of(
            match o {
                Some(c) => r.push(c),
                None => r,
            },
            jobs.push(job),
        ),
{
    assert(jobs.push(job).drop_last() =~= jobs);
    assert(jobs.push(job).last() == job);
    match o {
        Some(c) => {
            assert(r.push(c).drop_last() =~= r);
        },
        None => {},
    }
}

/// The probes of the first pods come first among those of all pods.
proof fn lemma_pods_jobs_take(ps: Seq<PodProbes>, n: int)
    requires
        0 <= n <= ps.len(),
    ensures
        pods_jobs(ps.take(n)).len() <= pods_jobs(ps).len(),
        forall|k: int| 0 <= k < pods_jobs(ps.take(n)).len() ==> #[trigger] pods_jobs(ps.take(n))[k] == pods_jobs(ps)[k],
    decreases ps.len(),
{
    if n == ps.len() {
        assert(ps.take(n) =~= ps);
    } else {
        let d = ps.drop_last();
        assert(ps.take(n) =~= d.take(n));
        lemma_pods_jobs_take(d, n);
    }
}

/// The probes of pod `i` follow those of the pods before it, and their
/// periods fit when those of all pods do.
proof fn lemma_pods_jobs_prefix(ps: Seq<PodProbes>, i: int)
    requires
        0 <= i < ps.len(),
        pods_fit(ps),
    ensures
        pods_jobs(ps.take(i + 1)) == pods_jobs(ps.take(i)) + pod_jobs(ps[i]),
        forall|k: int| 0 <= k < pod_jobs(ps[i]).len() ==> seconds_fit(#[trigger] pod_jobs(ps[i])[k].0),
{
    assert(ps.take(i + 1).drop_last() =~= ps.take(i));
    assert(ps.take(i + 1).last() == ps[i]);
    lemma_pods_jobs_take(ps, i + 1);
    let pre = pods_jobs(ps.take(i));
    assert forall|k: int| 0 <= k < pod_jobs(ps[i]).len() implies seconds_fit(#[trigger] pod_jobs(ps[i])[k].0) by {
        assert(pods_jobs(ps.take(i + 1))[pre.len() + k] == pod_jobs(ps[i])[k]);
        assert(pods_jobs(ps)[pre.len() + k] == pod_jobs(ps[i])[k]);
    }
}

/// The probes of the first containers come first among those of all.
proof fn lemma_containers_jobs_take(name: Seq<char>, ip: Seq<char>, cs: Seq<ContainerProbes>, n: int)
    requires
        0 <= n <= cs.len(),
    ensures
        containers_jobs(name, ip, cs.take(n)).len() <= containers_jobs(name, ip, cs).len(),
        forall|k: int| 0 <= k < containers_jobs(name, ip, cs.take(n)).len()
            ==> #[trigger] containers_jobs(name, ip, cs.take(n))[k] == containers_jobs(name, ip, cs)[k],
    decreases cs.len(),
{
    if n == cs.len() {
        assert(cs.take(n) =~= cs);
    } else {
        let d = cs.drop_last();
        assert(cs.take(n) =~= d.take(n));
        lemma_containers_jobs_take(name, ip, d, n);
    }
}

/// The probes of container `j` follow those of the containers before it,
/// and their periods fit when those of all containers do.
proof fn lemma_containers_jobs_prefix(name: Seq<char>, ip: Seq<char>, cs: Seq<ContainerProbes>, j: int)
    requires
        0 <= j < cs.len(),
        forall|k: int| 0 <= k < containers_jobs(name, ip, cs).len() ==> seconds_fit(#[trigger] containers_jobs(name, ip, cs)[k].0),
    ensures
        containers_jobs(name, ip, cs.take(j + 1)) == containers_jobs(name, ip, cs.take(j)) + container_jobs(name, ip, cs[j]),
        forall|k: int| 0 <= k < container_jobs(name, ip, cs[j]).len() ==> seconds_fit(#[trigger] container_jobs(name, ip, cs[j])[k].0),
{
    assert(cs.take(j + 1).drop_last() =~= cs.take(j));
    assert(cs.take(j + 1).last() == cs[j]);
    lemma_containers_jobs_take(name, ip, cs, j + 1);
    let pre = containers_jobs(name, ip, cs.take(j));
    assert forall|k: int| 0 <= k < container_jobs(name, ip, cs[j]).len() implies seconds_fit(#[trigger] container_jobs(name, ip, cs[j])[k].0) by {
        assert(containers_jobs(name, ip, cs.take(j + 1))[pre.len() + k] == container_jobs(name, ip, cs[j])[k]);
        assert(containers_jobs(name, ip, cs)[pre.len() + k] == container_jobs(name, ip, cs[j])[k]);
    }
}

/// Converts the probe `p` of a pod, named `name`, and appends its
/// configuration, if any, to `out`.
fn push_converted(out: &mut Vec<ProbeConfig>, p: &KubeProbe, name: &str, pod_ip: &str)
    requires
        seconds_fit(*p),
    ensures
        exists|o: Option<ProbeConfig>|
            converted(o, *p, name@, pod_ip@, probe_interval_ms(*p), probe_timeout_ms(*p)) && final(out)@ == match o {
                Some(c) => old(out)@.push(c),
                None => old(out)@,
            },
{
    let period: i32 = match p.period_seconds {
        Some(s) => s,
        None => 10,
    };
    let timeout: i32 = match p.timeout_seconds {
        Some(s) => s,
        None => 5,
    };
    let interval_ms = (period as u64) * 1000;
    let timeout_ms = (timeout as u64) * 1000;
    assert(interval_ms == probe_interval_ms(*p) && timeout_ms == probe_timeout_ms(*p));
    let o = convert_probe(p, name, pod_ip, interval_ms, timeout_ms);
    let ghost og = o;
    match o {
        Some(c) => {
            out.push(c);
        },
        None => {},
    }
}

/// The name of a container's probe: the pod's name, `/`, the container's
/// name and the suffix for the kind of probe.
fn probe_job_name(pod_name: &str, container: &str, suffix: &str) -> (s: String)
    ensures
        s@ == pod_name@ + "/"@ + container@ + suffix@,
{
    let mut s = pod_name.to_string();
    push_str(&mut s, "/");
    push_str(&mut s, container);
    push_str(&mut s, suffix);
    s
}

/// The configurations of the probes the given pods declare, in order: for
/// each pod with an address and a spec, for each container, its readiness
/// probe and then its liveness probe, where they have a check.
pub fn scrape_probes(pods: &[PodProbes]) -> (r: Vec<ProbeConfig>)
    requires
        pods_fit(pods@),
    ensures
        configs_of(r@, pods_jobs(pods@)),
{
    let mut r: Vec<ProbeConfig> = Vec::new();
    let mut i: usize = 0;
    while i < pods.len()
        invariant
            i <= pods@.len(),
            pods_fit(pods@),
            configs_of(r@, pods_jobs(pods@.take(i as int))),
        decreases pods@.len() - i,
    {
        proof {
            lemma_pods_jobs_prefix(pods@, i as int);
        }
        let ghost base = pods_jobs(pods@.take(i as int));
        let pod = &pods[i];
        assert(pods@.take(i + 1).drop_last() =~= pods@.take(i as int));
        match (&pod.pod_ip, &pod.containers) {
            (Some(ip), Some(cs)) => {
                let pod_name: &str = match &pod.name {
                    Some(n) => n.as_str(),
                    None => "unknown",
                };
                let mut j: usize = 0;
                while j < cs.len()
                    invariant
                        j <= cs@.len(),
                        pod_name@ == pod_name_of(*pod),
                        forall|k: int| 0 <= k < containers_jobs(pod_name@, ip@, cs@).len()
                            ==> seconds_fit(#[trigger] containers_jobs(pod_name@, ip@, cs@)[k].0),
                        configs_of(r@, base + containers_jobs(pod_name@, ip@, cs@.take(j as int))),
                    decreases cs@.len() - j,
                {
                    let c = &cs[j];
                    let ghost done = base + containers_jobs(pod_name@, ip@, cs@.take(j as int));
                    proof {
                        assert(cs@.take(j + 1).drop_last() =~= cs@.take(j as int));
                        lemma_containers_jobs_prefix(pod_name@, ip@, cs@, j as int);
                    }
                    let ghost mut jobs = done;
                    if let Some(p) = &c.readiness_probe {
                        let name = probe_job_name(pod_name, c.name.as_str(), "/readiness");
                        let ghost job = (*p, name@, ip@);
                        let ghost pre = r@;
                        proof {
                            assert(container_jobs(pod_name@, ip@, *c)[0] == job);
                        }
                        push_converted(&mut r, p, name.as_str(), ip.as_str());
                        proof {
                            let o = choose|o: Option<ProbeConfig>|
                                converted(o, job.0, job.1, job.2, probe_interval_ms(job.0), probe_timeout_ms(job.0)) && r@ == match o {
                                    Some(c) => pre.push(c),
                                    None => pre,
                                };
                            lemma_configs_push(pre, jobs, job, o);
                            jobs = jobs.push(job);
                        }
                    }
                    if let Some(p) = &c.liveness_probe {
                        let name = probe_job_name(pod_name, c.name.as_str(), "/liveness");
                        let ghost job = (*p, name@, ip@);
                        let ghost pre = r@;
                        proof {
                            assert(container_jobs(pod_name@, ip@, *c).last() == job);
                        }
                        push_converted(&mut r, p, name.as_str(), ip.as_str());
                        proof {
                            let o = choose|o: Option<ProbeConfig>|
                                converted(o, job.0, job.1, job.2, probe_interval_ms(job.0), probe_timeout_ms(job.0)) && r@ == match o {
                                    Some(c) => pre.push(c),
                                    None => pre,
                                };
                            lemma_configs_push(pre, jobs, job, o);
                            jobs = jobs.push(job);
                        }
                    }
                    proof {
                        assert(jobs =~= base + containers_jobs(pod_name@, ip@, cs@.take(j + 1)));
                    }
                    j = j + 1;
                }
                assert(cs@.take(cs@.len() as int) =~= cs@);
            },
            _ => {
                assert(pods_jobs(pods@.take(i + 1)) =~= base);
            },
        }
        i = i + 1;
    }
    assert(pods@.take(pods@.len() as int) =~= pods@);
    r
}

} // verus!
