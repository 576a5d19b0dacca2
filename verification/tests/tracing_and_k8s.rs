use std::time::Instant;

use heisensim::cli::args::{InitPreset, ProcessFaultType};
use heisensim::cli::init::{init_preset, BASIC_PRESET_TOML};
use heisensim::cli::inject::{
    fault_flag_text, process_fault_config, process_fault_kubectl_args, time_warp_kubectl_args,
};
use heisensim::diverge::{
    blank, parse_wait_secs, same_ignoring_ascii_case, target_services, DivergeContext,
};
use heisensim::intercept::ptrace::{
    decode_syscall, syscall_numbers, with_address, DecodedSyscall, ThreadTable, WaitEvent,
    WaitStep, MAX_SOCKADDR_LEN,
};
use heisensim::intercept::syscall::InterceptedSyscall;
use heisensim::intercept::trampoline::TargetArch;
use heisensim::k8s::fault_ops::ActiveFaultKind;
use heisensim::k8s::fault_tracker::{
    revert_plan, settle_reverts, ActiveFault, FaultTracker, RevertOutcome, RevertPlan,
};

fn strings(v: &[&str]) -> Vec<String> {
    v.iter().map(|s| s.to_string()).collect()
}

#[test]
fn syscall_numbers_differ_by_architecture() {
    assert_eq!(syscall_numbers(TargetArch::X86_64).connect, 42);
    assert_eq!(syscall_numbers(TargetArch::Aarch64).connect, 203);
    assert_eq!(syscall_numbers(TargetArch::X86_64).clock_gettime, 228);
}

#[test]
fn decoding_reads_the_arguments_of_each_syscall() {
    assert_eq!(
        decode_syscall(TargetArch::X86_64, 228, 1, 0, 0),
        DecodedSyscall::Ready(InterceptedSyscall::ClockGettime { clock_id: 1 })
    );
    assert_eq!(
        decode_syscall(TargetArch::X86_64, 41, 2, 1, 6),
        DecodedSyscall::Ready(InterceptedSyscall::Socket { domain: 2, sock_type: 1, protocol: 6 })
    );
    assert_eq!(
        decode_syscall(TargetArch::Aarch64, 203, 7, 0x1000, 16),
        DecodedSyscall::NeedsAddress { is_connect: true, fd: 7, addr_ptr: 0x1000, addr_len: 16 }
    );
    assert_eq!(
        decode_syscall(TargetArch::X86_64, 49, 3, 0x2000, 4096),
        DecodedSyscall::NeedsAddress { is_connect: false, fd: 3, addr_ptr: 0x2000, addr_len: MAX_SOCKADDR_LEN }
    );
    assert_eq!(
        decode_syscall(TargetArch::X86_64, 999, 0, 0, 0),
        DecodedSyscall::Ready(InterceptedSyscall::Unknown { syscall_nr: 999 })
    );
    assert_eq!(
        with_address(true, 5, vec![2, 0]),
        InterceptedSyscall::Connect { fd: 5, addr: vec![2, 0] }
    );
    assert_eq!(with_address(false, 5, vec![]), InterceptedSyscall::Bind { fd: 5, addr: vec![] });
}

#[test]
fn the_thread_table_follows_wait_events() {
    let mut t = ThreadTable::new();
    t.set_leader(100);
    assert_eq!(t.leader_tid(), Some(100));
    assert_eq!(t.on_wait_event(WaitEvent::Syscall(100)), WaitStep::SyscallEntered(100));
    assert_eq!(
        t.on_wait_event(WaitEvent::Clone { parent: 100, child: Some(101) }),
        WaitStep::Retry
    );
    assert_eq!(t.thread_count(), 2);
    let mut running = t.running_threads();
    running.sort();
    assert_eq!(running, vec![100, 101]);
    assert_eq!(t.on_wait_event(WaitEvent::Syscall(101)), WaitStep::SyscallEntered(101));
    assert_eq!(t.running_threads(), vec![100]);
    assert_eq!(t.on_wait_event(WaitEvent::Stopped(555)), WaitStep::Retry);
    assert_eq!(t.thread_count(), 2);
    assert_eq!(t.on_wait_event(WaitEvent::Exited(101)), WaitStep::Retry);
    assert_eq!(t.on_wait_event(WaitEvent::Exited(100)), WaitStep::Finished);
    assert_eq!(t.thread_count(), 0);
}

#[test]
fn a_killed_leader_stops_the_trace_with_an_error() {
    let mut t = ThreadTable::new();
    t.set_leader(7);
    t.on_wait_event(WaitEvent::Syscall(7));
    t.on_wait_event(WaitEvent::Clone { parent: 7, child: Some(8) });
    assert_eq!(t.on_wait_event(WaitEvent::Signaled(7)), WaitStep::Killed);
    assert_eq!(t.drain(), vec![8]);
    assert_eq!(t.thread_count(), 0);
    assert_eq!(t.leader_tid(), Some(7));
}

fn fault(id: u128, kind: ActiveFaultKind) -> ActiveFault {
    ActiveFault {
        fault_id: id,
        kind,
        namespace: "shop".to_string(),
        pod_name: "api-0".to_string(),
        injected_at: Instant::now(),
    }
}

#[test]
fn the_ledger_tracks_untracks_and_requeues() {
    let mut ledger = FaultTracker::new();
    ledger.track(fault(1, ActiveFaultKind::NetworkLatency));
    ledger.track(fault(2, ActiveFaultKind::DnsFailure));
    ledger.track(fault(1, ActiveFaultKind::DnsFailure));
    assert_eq!(ledger.active_count(), 3);
    ledger.untrack(1);
    assert_eq!(ledger.active_count(), 1);
    let taken = ledger.take_all();
    assert_eq!(taken.iter().map(|f| f.fault_id).collect::<Vec<_>>(), vec![2]);
    assert_eq!(ledger.active_count(), 0);
    ledger.requeue(taken);
    assert_eq!(ledger.active_count(), 1);
}

#[test]
fn each_fault_kind_has_its_revert() {
    assert_eq!(
        revert_plan(&fault(1, ActiveFaultKind::NetworkLatency)),
        RevertPlan::NetworkCommand(strings(&["tc", "qdisc", "del", "dev", "eth0", "root"]))
    );
    assert_eq!(
        revert_plan(&fault(1, ActiveFaultKind::Partition { target_ip: "10.0.0.9".to_string() })),
        RevertPlan::NetworkCommand(strings(&["iptables", "-D", "OUTPUT", "-d", "10.0.0.9", "-j", "DROP"]))
    );
    assert_eq!(revert_plan(&fault(1, ActiveFaultKind::DnsFailure)), RevertPlan::DnsRevert);
    assert_eq!(
        revert_plan(&fault(1, ActiveFaultKind::Stress { debug_container: Some("dbg".to_string()) })),
        RevertPlan::Kubectl(strings(&[
            "exec", "-n", "shop", "api-0", "-c", "dbg", "--", "pkill", "-9", "stress-ng"
        ]))
    );
    assert_eq!(
        revert_plan(&fault(1, ActiveFaultKind::Stress { debug_container: None })),
        RevertPlan::PodCommand(strings(&["pkill", "-9", "stress-ng"]))
    );
}

#[test]
fn settled_reverts_report_all_and_requeue_the_unreverted() {
    let outcomes = vec![
        (fault(1, ActiveFaultKind::DnsFailure), RevertOutcome::Reverted),
        (fault(2, ActiveFaultKind::DnsFailure), RevertOutcome::Failed("boom".to_string())),
        (fault(3, ActiveFaultKind::DnsFailure), RevertOutcome::TimedOut),
    ];
    let (report, requeue) = settle_reverts(outcomes);
    assert_eq!(
        report,
        vec![
            (1, RevertOutcome::Reverted),
            (2, RevertOutcome::Failed("boom".to_string())),
            (3, RevertOutcome::TimedOut)
        ]
    );
    assert_eq!(requeue.iter().map(|f| f.fault_id).collect::<Vec<_>>(), vec![2, 3]);
}

#[test]
fn time_warp_runs_the_injector_in_a_debug_container() {
    let a = time_warp_kubectl_args("shop", "api-0", &None, "+1h", "2x");
    assert_eq!(
        a,
        strings(&[
            "debug",
            "-n",
            "shop",
            "api-0",
            "--image=ghcr.io/heisensim/heisensim:latest",
            "--container=heisensim-timewarp",
            "--target=api-0",
            "--",
            "heisensim-inject",
            "--pid",
            "1",
            "--offset",
            "+1h",
            "--speed",
            "2x"
        ])
    );
    let b = time_warp_kubectl_args("shop", "api-0", &Some("app".to_string()), "-2d", "1x");
    assert_eq!(b[6], "--target=app");
}

#[test]
fn process_faults_pass_their_flags() {
    assert_eq!(fault_flag_text(ProcessFaultType::FdExhaustion), "fd-exhaustion");
    let a = process_fault_kubectl_args(
        "shop",
        "api-0",
        &None,
        "heisensim-fault-1",
        ProcessFaultType::ConnectLatency,
        "30s",
        -111,
        Some(5432),
        250,
    );
    assert_eq!(
        a,
        strings(&[
            "debug",
            "-n",
            "shop",
            "api-0",
            "--image=ghcr.io/heisensim/heisensim:latest",
            "--container=heisensim-fault-1",
            "--target=api-0",
            "--",
            "heisensim-inject",
            "--pid",
            "1",
            "--fault",
            "connect-latency",
            "--duration",
            "30s",
            "--errno",
            "-111",
            "--port",
            "5432",
            "--latency",
            "250"
        ])
    );
    let c = process_fault_config(ProcessFaultType::ConnectError, 111, 0, None).unwrap();
    assert_eq!(c.connect_error, Some(111));
    assert!(process_fault_config(ProcessFaultType::FdExhaustion, 111, 0, Some(80)).is_err());
}

#[test]
fn init_presets_name_their_duration() {
    let (text, name, duration) = init_preset(None);
    assert_eq!((text, name, duration), (BASIC_PRESET_TOML, "basic", "30s"));
    let (_, name, duration) = init_preset(Some(InitPreset::Microservice));
    assert_eq!((name, duration), ("microservice", "5m"));
    let (_, name, duration) = init_preset(Some(InitPreset::Ci));
    assert_eq!((name, duration), ("ci", "1m"));
}

#[test]
fn blank_and_case_insensitive_text() {
    assert!(blank("  \t"));
    assert!(!blank(" x "));
    assert!(same_ignoring_ascii_case("Bearer", "bEARER"));
    assert!(!same_ignoring_ascii_case("Bearer", "Bearers"));
}

#[test]
fn runs_target_changed_services_unless_told_otherwise() {
    let ctx = DivergeContext {
        header_key: "x-preview-env".to_string(),
        header_value: "pr-1".to_string(),
        services: strings(&["api", "web", "db"]),
        changed_services: strings(&["api"]),
        namespace: "pr-1".to_string(),
        url: None,
    };
    assert_eq!(target_services(&ctx, false), &strings(&["api"]));
    assert_eq!(target_services(&ctx, true), &strings(&["api", "web", "db"]));
    let unchanged = DivergeContext { changed_services: vec![], ..ctx };
    assert_eq!(target_services(&unchanged, false), &strings(&["api", "web", "db"]));
}

#[test]
fn wait_values_read_as_seconds() {
    assert_eq!(parse_wait_secs("30s"), Some(30));
    assert_eq!(parse_wait_secs("120"), Some(120));
    assert_eq!(parse_wait_secs("5ss"), Some(5));
    assert_eq!(parse_wait_secs("2m"), None);
    assert_eq!(parse_wait_secs("s"), None);
}
