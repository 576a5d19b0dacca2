use heisensim::intercept::control::{speed_number, split_time_offset, InjectionHandle, TimeControl};
use heisensim::intercept::elf::{
    clock_gettime_symbol, find_clock_gettime, ElfError, ElfSymbol, ElfTables, VdsoSymbol,
    CLOCK_GETTIME_SYMBOLS,
};
use heisensim::intercept::handler::{extract_port, NetworkFaultConfig, SyscallHandler};
use heisensim::intercept::injector::{injection_layout, mmap_outcome, InjectionConfig};
use heisensim::intercept::maps::{parse_vdso_from_maps, MapsError};
use heisensim::intercept::process::{
    entry_names_process, escape_regex, find_pid_by_name, PidLookupError,
};
use heisensim::intercept::seccomp::SeccompFilter;
use heisensim::intercept::syscall::{InterceptedSyscall, SyscallResult};
use heisensim::intercept::trampoline::{
    generate_aarch64_trampoline, generate_trampoline, generate_x86_64_payload,
    generate_x86_64_trampoline, trampoline_size, TargetArch, TrampolineError,
    AARCH64_TRAMPOLINE_SIZE, X86_64_TRAMPOLINE_SIZE,
};
use std::time::Duration;

#[test]
fn test_intercepted_syscall_variants() {
    let s = InterceptedSyscall::GetTimeOfDay;
    assert_eq!(s, InterceptedSyscall::GetTimeOfDay);
    assert_eq!(format!("{:?}", s), "GetTimeOfDay");

    let s2 = InterceptedSyscall::Unknown { syscall_nr: 42 };
    assert_eq!(s2.clone(), InterceptedSyscall::Unknown { syscall_nr: 42 });
}

#[test]
fn test_syscall_result_variants() {
    let r = SyscallResult::Allow;
    assert_eq!(r, SyscallResult::Allow);
    assert_eq!(format!("{:?}", r), "Allow");

    let r2 = SyscallResult::Replace(100);
    assert_eq!(r2.clone(), SyscallResult::Replace(100));
}

#[test]
fn test_handler_new_and_unknown() {
    let mut handler = SyscallHandler::new();
    let result = handler.handle(InterceptedSyscall::Unknown { syscall_nr: 999 });
    assert_eq!(result, SyscallResult::Allow);
}

#[test]
fn test_handler_new() {
    let handler = SyscallHandler::new();
    assert!(handler.time_control.is_none());
}

#[test]
fn test_handler_with_time_control() {
    let tc = TimeControl::with_offset(3600, 0);
    let handler = SyscallHandler::with_time_control(tc);
    assert!(handler.time_control.is_some());
    assert_eq!(handler.time_control.unwrap().offset_seconds, 3600);
}

#[test]
fn test_handler_clock_gettime_allows() {
    let mut handler = SyscallHandler::new();
    let result = handler.handle(InterceptedSyscall::ClockGettime { clock_id: 0 });
    assert!(matches!(result, SyscallResult::Allow));
}

#[test]
fn test_handler_clock_gettime_with_control() {
    let tc = TimeControl::with_offset(3600, 0);
    let mut handler = SyscallHandler::with_time_control(tc);
    let result = handler.handle(InterceptedSyscall::ClockGettime { clock_id: 0 });
    assert!(matches!(result, SyscallResult::Allow));
}

#[test]
fn test_handler_unknown_allows() {
    let mut handler = SyscallHandler::new();
    let result = handler.handle(InterceptedSyscall::Unknown { syscall_nr: 999 });
    assert!(matches!(result, SyscallResult::Allow));
}

#[test]
fn test_handler_network_allows() {
    let mut handler = SyscallHandler::new();
    let result = handler.handle(InterceptedSyscall::Socket {
        domain: 2,
        sock_type: 1,
        protocol: 0,
    });
    assert!(matches!(result, SyscallResult::Allow));
}

#[test]
fn test_set_clear_time_control() {
    let mut handler = SyscallHandler::new();
    assert!(handler.time_control.is_none());

    handler.set_time_control(TimeControl::with_offset(100, 0));
    assert!(handler.time_control.is_some());

    handler.clear_time_control();
    assert!(handler.time_control.is_none());
}

#[test]
fn test_handler_socket_block_emfile() {
    let config = NetworkFaultConfig {
        socket_error: Some(24),
        ..Default::default()
    };
    let mut handler = SyscallHandler::with_network_fault(config);
    let result = handler.handle(InterceptedSyscall::Socket {
        domain: 2,
        sock_type: 1,
        protocol: 0,
    });
    assert_eq!(result, SyscallResult::Block(24));
}

#[test]
fn test_handler_connect_block_econnrefused() {
    let config = NetworkFaultConfig {
        connect_error: Some(111),
        ..Default::default()
    };
    let mut handler = SyscallHandler::with_network_fault(config);
    let result = handler.handle(InterceptedSyscall::Connect {
        fd: 5,
        addr: vec![],
    });
    assert_eq!(result, SyscallResult::Block(111));
}

#[test]
fn test_handler_socket_allows_without_fault() {
    let mut handler = SyscallHandler::new();
    let result = handler.handle(InterceptedSyscall::Socket {
        domain: 2,
        sock_type: 1,
        protocol: 0,
    });
    assert_eq!(result, SyscallResult::Allow);
}

#[test]
fn test_handler_connect_allows_without_fault() {
    let mut handler = SyscallHandler::new();
    let result = handler.handle(InterceptedSyscall::Connect {
        fd: 5,
        addr: vec![],
    });
    assert_eq!(result, SyscallResult::Allow);
}

#[test]
fn test_handler_connect_delay_with_latency() {
    let config = NetworkFaultConfig {
        connect_latency_ms: Some(200),
        ..Default::default()
    };
    let mut handler = SyscallHandler::with_network_fault(config);
    let result = handler.handle(InterceptedSyscall::Connect {
        fd: 5,
        addr: vec![],
    });
    assert_eq!(result, SyscallResult::Delay(Duration::from_millis(200)));
}

#[test]
fn test_handler_connect_error_takes_precedence_over_latency() {
    let config = NetworkFaultConfig {
        connect_error: Some(111),
        connect_latency_ms: Some(200),
        ..Default::default()
    };
    let mut handler = SyscallHandler::with_network_fault(config);
    let result = handler.handle(InterceptedSyscall::Connect {
        fd: 5,
        addr: vec![],
    });
    assert_eq!(result, SyscallResult::Block(111));
}

#[test]
fn test_extract_port_ipv4() {
    let mut addr = vec![0u8; 16];
    let family: u16 = 2;
    addr[0..2].copy_from_slice(&family.to_ne_bytes());
    addr[2..4].copy_from_slice(&443u16.to_be_bytes());
    assert_eq!(extract_port(&addr), Some(443));
}

#[test]
fn test_extract_port_ipv6() {
    let mut addr = vec![0u8; 28];
    let family: u16 = 10;
    addr[0..2].copy_from_slice(&family.to_ne_bytes());
    addr[2..4].copy_from_slice(&8080u16.to_be_bytes());
    assert_eq!(extract_port(&addr), Some(8080));
}

#[test]
fn test_extract_port_unix_socket() {
    let mut addr = vec![0u8; 16];
    let family: u16 = 1;
    addr[0..2].copy_from_slice(&family.to_ne_bytes());
    assert_eq!(extract_port(&addr), None);
}

#[test]
fn test_extract_port_too_short() {
    assert_eq!(extract_port(&[]), None);
    assert_eq!(extract_port(&[2, 0]), None);
    assert_eq!(extract_port(&[2, 0, 0]), None);
}

#[test]
fn extract_port_reads_family_in_native_order() {
    let mut addr = vec![0u8; 16];
    addr[0..2].copy_from_slice(&10u16.to_ne_bytes());
    addr[2..4].copy_from_slice(&0x1234u16.to_be_bytes());
    assert_eq!(extract_port(&addr), Some(0x1234));
    addr[0..2].copy_from_slice(&16u16.to_ne_bytes());
    assert_eq!(extract_port(&addr), None);
}

#[test]
fn test_handler_connect_port_filter_match() {
    let config = NetworkFaultConfig {
        connect_error: Some(111),
        target_port: Some(5432),
        ..Default::default()
    };
    let mut handler = SyscallHandler::with_network_fault(config);
    let mut addr = vec![0u8; 16];
    addr[0..2].copy_from_slice(&2u16.to_ne_bytes());
    addr[2..4].copy_from_slice(&5432u16.to_be_bytes());
    let result = handler.handle(InterceptedSyscall::Connect { fd: 5, addr });
    assert_eq!(result, SyscallResult::Block(111));
}

#[test]
fn test_handler_connect_port_filter_no_match() {
    let config = NetworkFaultConfig {
        connect_error: Some(111),
        target_port: Some(5432),
        ..Default::default()
    };
    let mut handler = SyscallHandler::with_network_fault(config);
    let mut addr = vec![0u8; 16];
    addr[0..2].copy_from_slice(&2u16.to_ne_bytes());
    addr[2..4].copy_from_slice(&6379u16.to_be_bytes());
    let result = handler.handle(InterceptedSyscall::Connect { fd: 5, addr });
    assert_eq!(result, SyscallResult::Allow);
}

#[test]
fn test_handler_connect_no_port_filter() {
    let config = NetworkFaultConfig {
        connect_error: Some(111),
        target_port: None,
        ..Default::default()
    };
    let mut handler = SyscallHandler::with_network_fault(config);
    let result = handler.handle(InterceptedSyscall::Connect {
        fd: 5,
        addr: vec![],
    });
    assert_eq!(result, SyscallResult::Block(111));
}

#[test]
fn test_handler_connect_port_filter_unix_socket_allows() {
    let config = NetworkFaultConfig {
        connect_error: Some(111),
        target_port: Some(5432),
        ..Default::default()
    };
    let mut handler = SyscallHandler::with_network_fault(config);
    let mut addr = vec![0u8; 16];
    addr[0..2].copy_from_slice(&1u16.to_ne_bytes());
    let result = handler.handle(InterceptedSyscall::Connect { fd: 5, addr });
    assert_eq!(result, SyscallResult::Allow);
}

#[test]
fn handler_network_fault_can_be_set_and_cleared() {
    let mut handler = SyscallHandler::new();
    handler.set_network_fault(NetworkFaultConfig {
        socket_error: Some(24),
        ..Default::default()
    });
    let socket = InterceptedSyscall::Socket {
        domain: 2,
        sock_type: 1,
        protocol: 0,
    };
    assert_eq!(handler.handle(socket.clone()), SyscallResult::Block(24));
    handler.clear_network_fault();
    assert_eq!(handler.handle(socket), SyscallResult::Allow);
    assert!(handler.network_fault.is_none());
}

#[test]
fn handler_latency_applies_only_to_the_filtered_port() {
    let config = NetworkFaultConfig {
        connect_latency_ms: Some(75),
        target_port: Some(80),
        ..Default::default()
    };
    let mut handler = SyscallHandler::with_network_fault(config);
    let mut addr = vec![0u8; 16];
    addr[0..2].copy_from_slice(&2u16.to_ne_bytes());
    addr[2..4].copy_from_slice(&80u16.to_be_bytes());
    assert_eq!(
        handler.handle(InterceptedSyscall::Connect { fd: 3, addr: addr.clone() }),
        SyscallResult::Delay(Duration::from_millis(75))
    );
    addr[2..4].copy_from_slice(&81u16.to_be_bytes());
    assert_eq!(
        handler.handle(InterceptedSyscall::Connect { fd: 3, addr }),
        SyscallResult::Allow
    );
    assert_eq!(
        handler.handle(InterceptedSyscall::Bind { fd: 3, addr: vec![] }),
        SyscallResult::Allow
    );
}

#[test]
fn test_time_control_size() {
    assert_eq!(TimeControl::SIZE, 32);
}

#[test]
fn test_time_control_roundtrip() {
    let tc = TimeControl::with_offset(3600, 500_000_000);
    let bytes = tc.to_bytes();
    let tc2 = TimeControl::from_bytes(&bytes);
    assert_eq!(tc2.offset_seconds, 3600);
    assert_eq!(tc2.offset_nanos, 500_000_000);
    assert_eq!(tc2.enabled, 1);
}

#[test]
fn time_control_bytes_layout() {
    let tc = TimeControl::with_offset_and_speed(-2, 7, 10, 3);
    let b = tc.to_bytes();
    assert_eq!(&b[0..8], &(-2i64).to_le_bytes());
    assert_eq!(&b[8..16], &7i64.to_le_bytes());
    assert_eq!(&b[16..20], &10u32.to_le_bytes());
    assert_eq!(&b[20..24], &3u32.to_le_bytes());
    assert_eq!(&b[24..28], &1u32.to_le_bytes());
    assert_eq!(&b[28..32], &0u32.to_le_bytes());
    let back = TimeControl::from_bytes(&b);
    assert_eq!(back.offset_seconds, -2);
    assert_eq!(back.speed_denominator, 3);
}

#[test]
fn test_time_control_disabled() {
    let tc = TimeControl::disabled();
    assert_eq!(tc.enabled, 0);
    assert_eq!(tc.offset_seconds, 0);
    let display = tc.display_string();
    assert!(display.contains("disabled"));
}

#[test]
fn test_time_control_display() {
    let tc = TimeControl::with_offset_and_speed(86400, 0, 10, 1);
    let display = tc.display_string();
    assert!(display.contains("86400s"));
    assert!(display.contains("10/1x"));
}

#[test]
fn time_control_display_exact() {
    let tc = TimeControl::with_offset_and_speed(-5, -250, 1, 2);
    assert_eq!(tc.display_string(), "TimeControl(offset: -5s -250ns, speed: 1/2x)");
    assert_eq!(TimeControl::disabled().display_string(), "TimeControl(disabled)");
}

#[test]
fn time_offset_text_is_split() {
    let (sign, num, unit) = split_time_offset("+30d");
    assert_eq!((sign, num.as_str(), unit), (1, "30", 86400));
    let (sign, num, unit) = split_time_offset(" -2h ");
    assert_eq!((sign, num.as_str(), unit), (-1, "2", 3600));
    let (sign, num, unit) = split_time_offset("90m");
    assert_eq!((sign, num.as_str(), unit), (1, "90", 60));
    let (sign, num, unit) = split_time_offset("3600s");
    assert_eq!((sign, num.as_str(), unit), (1, "3600", 1));
    let (sign, num, unit) = split_time_offset("1.5");
    assert_eq!((sign, num.as_str(), unit), (1, "1.5", 1));
}

#[test]
fn speed_text_is_trimmed() {
    assert_eq!(speed_number("10x"), "10");
    assert_eq!(speed_number(" 0.5x "), "0.5");
    assert_eq!(speed_number("3xX"), "3x");
    assert_eq!(speed_number("7XX"), "7");
}

#[test]
fn injection_handle_holds_its_fields() {
    let h = InjectionHandle {
        pid: 1,
        shm_addr: 2,
        payload_addr: 3,
        original_bytes: vec![4, 5],
        trampoline_addr: 6,
        allocated_size: 7,
        allocated_addr: 8,
    };
    assert_eq!(h.original_bytes, vec![4, 5]);
    assert!(format!("{:?}", h).contains("shm_addr: 2"));
}

#[test]
fn test_injection_config() {
    let config = InjectionConfig {
        pid: 12345,
        time_control: TimeControl::with_offset(3600, 0),
    };
    assert_eq!(config.pid, 12345);
    assert_eq!(config.time_control.offset_seconds, 3600);
}

#[test]
fn injection_layout_places_the_parts() {
    let l = injection_layout(0x1000, 154, 12);
    assert_eq!(l.total_size, 154 + 32 + 12 + 8);
    assert_eq!(l.shm_addr, 0x1000 + 154);
    assert_eq!(l.saved_bytes_addr, 0x1000 + 154 + 32);
    assert_eq!(l.base_time_addr, 0x1000 + 154 + 32 + 12);
}

#[test]
fn mmap_outcome_reads_errors() {
    assert_eq!(mmap_outcome(0x7f00_0000_0000), Ok(0x7f00_0000_0000));
    assert_eq!(mmap_outcome(u64::MAX), Err(1));
    assert_eq!(mmap_outcome((-12i64) as u64), Err(12));
    assert_eq!(mmap_outcome(0xFFFF_FFFF_FFFF_F000), Ok(0xFFFF_FFFF_FFFF_F000));
}

const SAMPLE_MAPS: &str = "\
55a1b2c3d000-55a1b2c5e000 r--p 00000000 08:01 1234567  /usr/bin/myapp
55a1b2c5e000-55a1b2d8a000 r-xp 00021000 08:01 1234567  /usr/bin/myapp
7f8a12000000-7f8a12022000 r--p 00000000 08:01 2345678  /usr/lib/libc.so.6
7fff9a5fe000-7fff9a600000 r-xp 00000000 00:00 0        [vdso]
7fff9a600000-7fff9a602000 r--p 00000000 00:00 0        [vvar]
";

#[test]
fn test_parse_vdso_found() {
    let mapping = parse_vdso_from_maps(SAMPLE_MAPS).unwrap();
    assert_eq!(mapping.start, 0x7fff9a5fe000);
    assert_eq!(mapping.end, 0x7fff9a600000);
    assert_eq!(mapping.size(), 0x2000);
}

#[test]
fn test_parse_vdso_not_found() {
    let maps = "55a1b2c3d000-55a1b2c5e000 r--p 00000000 08:01 1234567  /usr/bin/myapp\n";
    assert!(parse_vdso_from_maps(maps).is_err());
}

#[test]
fn test_parse_vdso_empty() {
    assert!(parse_vdso_from_maps("").is_err());
}

#[test]
fn parse_vdso_errors() {
    assert_eq!(parse_vdso_from_maps("").unwrap_err(), MapsError::NoVdso);
    assert_eq!(
        parse_vdso_from_maps("7fff9a5fe000 r-xp [vdso]\n").unwrap_err(),
        MapsError::InvalidRange
    );
    assert_eq!(
        parse_vdso_from_maps("zz-7fff9a600000 r-xp [vdso]").unwrap_err(),
        MapsError::InvalidStart
    );
    assert_eq!(
        parse_vdso_from_maps("10-qq r-xp [vdso]\r\n").unwrap_err(),
        MapsError::InvalidEnd
    );
    assert_eq!(
        MapsError::NoVdso.message(),
        "no [vdso] mapping found in process maps"
    );
    let m = parse_vdso_from_maps("a [vvar]\n  10-20 r-xp [vdso]\r\n").unwrap();
    assert_eq!((m.start, m.end), (0x10, 0x20));
}

#[test]
fn test_clock_gettime_symbols_order() {
    assert_eq!(CLOCK_GETTIME_SYMBOLS[0], "__vdso_clock_gettime");
}

#[test]
fn test_vdso_symbol_debug() {
    let sym = VdsoSymbol {
        offset: 0xb20,
        size: 64,
        name: "__vdso_clock_gettime".to_string(),
    };
    let dbg = format!("{:?}", sym);
    assert!(dbg.contains("__vdso_clock_gettime"));
    assert!(dbg.contains("2848"));
}

fn symbol(name: &str, value: u64, info: u8) -> ElfSymbol {
    ElfSymbol {
        name: Some(name.to_string()),
        value,
        size: 64,
        info,
    }
}

#[test]
fn clock_gettime_symbol_picks_the_first_function() {
    let tables = ElfTables {
        dynamic_symbols: vec![
            symbol("__vdso_clock_gettime", 0, 0x12),
            symbol("__vdso_time", 0xa00, 0x12),
            symbol("__vdso_clock_gettime64", 0xb20, 0x11),
            symbol("__vdso_clock_gettime64", 0xc40, 0x22),
        ],
        segments: vec![(6, 0x40), (1, 0x100), (1, 0x900)],
    };
    let sym = clock_gettime_symbol(&tables).unwrap();
    assert_eq!(sym.offset, 0xc40 - 0x100);
    assert_eq!(sym.name, "__vdso_clock_gettime64");
    let none = ElfTables {
        dynamic_symbols: vec![symbol("other", 1, 0x12)],
        segments: vec![],
    };
    assert_eq!(clock_gettime_symbol(&none).unwrap_err(), ElfError::NotFound);
}

#[test]
fn find_clock_gettime_refuses_non_elf_bytes() {
    assert_eq!(
        find_clock_gettime(&[0u8; 16], 0x7000).unwrap_err(),
        ElfError::Parse
    );
    assert_eq!(ElfError::Parse.message(), "failed to parse vDSO as ELF");
}

#[test]
fn test_x86_64_trampoline() {
    let target = 0xDEAD_BEEF_CAFE_BABEu64;
    let t = generate_x86_64_trampoline(target);

    assert_eq!(t.len(), X86_64_TRAMPOLINE_SIZE);
    assert_eq!(t[0], 0x48);
    assert_eq!(t[1], 0xB8);
    assert_eq!(&t[2..10], &target.to_le_bytes());
    assert_eq!(t[10], 0xFF);
    assert_eq!(t[11], 0xE0);
}

#[test]
fn test_aarch64_trampoline() {
    let target = 0xDEAD_BEEF_CAFE_BABEu64;
    let t = generate_aarch64_trampoline(target);

    assert_eq!(t.len(), AARCH64_TRAMPOLINE_SIZE);
    assert_eq!(&t[0..4], &0x5800_0058_u32.to_le_bytes());
    assert_eq!(&t[4..8], &0xD61F_0200_u32.to_le_bytes());
    assert_eq!(&t[8..16], &target.to_le_bytes());
}

#[test]
fn test_trampoline_current_arch() {
    for arch in [TargetArch::X86_64, TargetArch::Aarch64] {
        let result = generate_trampoline(arch, 0x1234_5678_9ABC_DEF0);
        assert!(result.is_ok());
        let bytes = result.unwrap();
        assert!(!bytes.is_empty());
        assert_eq!(bytes.len(), trampoline_size(arch));
    }
}

#[test]
fn trampoline_for_other_architectures_is_refused() {
    assert_eq!(TargetArch::from_name("riscv64"), TargetArch::Other);
    assert_eq!(TargetArch::from_name("aarch64"), TargetArch::Aarch64);
    assert_eq!(
        generate_trampoline(TargetArch::Other, 1).unwrap_err(),
        TrampolineError::UnsupportedArchitecture
    );
    assert_eq!(trampoline_size(TargetArch::Other), 0);
    assert_eq!(
        TrampolineError::UnsupportedArchitecture.message(),
        "unsupported architecture for vDSO trampoline"
    );
}

#[test]
fn test_x86_64_payload_generation() {
    let payload = generate_x86_64_payload(
        0x7f00_0000_0000,
        0x7f00_0001_0000,
        0x7f00_0002_000c,
        0x7f00_0003_0000,
    );

    assert!(!payload.is_empty());
    assert_eq!(payload[0], 0x55);
    assert_eq!(*payload.last().unwrap(), 0xC3);
}

#[test]
fn x86_64_payload_embeds_addresses_and_jumps() {
    let shm = 0x1122_3344_5566_7788u64;
    let orig = 0x99AA_BBCC_DDEE_FF00u64;
    let p = generate_x86_64_payload(shm, orig, 0, 0);
    assert_eq!(p.len(), 154);
    assert_eq!(&p[19..21], &[0x48, 0xBB]);
    assert_eq!(&p[21..29], &shm.to_le_bytes());
    assert_eq!(&p[34..40], &[0x0F, 0x85, 23, 0, 0, 0]);
    assert_eq!(&p[48..56], &orig.to_le_bytes());
    assert_eq!(&p[58..63], &[0xE9, 80, 0, 0, 0]);
    assert_eq!(&p[71..79], &orig.to_le_bytes());
    assert_eq!(&p[86..94], &shm.to_le_bytes());
    assert_eq!(&p[115..123], &1_000_000_000u64.to_le_bytes());
    assert_eq!(&p[126..128], &[0x7C, 12]);
}

#[test]
fn test_find_pid_no_match() {
    let result = find_pid_by_name("__heisensim_nonexistent_process_42__", vec![]);
    assert!(result.is_err());
    assert!(result.unwrap_err().message().contains("no process found"));
}

#[test]
fn test_find_pid_by_name_ambiguous_error_message() {
    let err_msg = format!(
        "found {} processes matching '{}': [{}]. Use --pid to target a specific one.",
        3, "node", "1234, 5678, 9012"
    );
    assert!(err_msg.contains("found 3 processes"));
    assert!(err_msg.contains("Use --pid"));
}

#[test]
fn find_pid_by_name_outcomes() {
    assert_eq!(find_pid_by_name("svc", vec![77]), Ok(77));
    let err = find_pid_by_name("node", vec![1234, 5678, 9012]).unwrap_err();
    assert_eq!(
        err.message(),
        "found 3 processes matching 'node': [1234, 5678, 9012]. Use --pid to target a specific one."
    );
    assert_eq!(
        find_pid_by_name("x", vec![]).unwrap_err(),
        PidLookupError::NoMatch {
            name: "x".to_string()
        }
    );
}

#[test]
fn proc_entries_match_by_comm_or_command_basename() {
    assert!(entry_names_process("redis", 40, 9, Some("redis\n"), None));
    assert!(entry_names_process("redis", 40, 9, Some("other"), Some("/usr/bin/redis\0--port\0")));
    assert!(!entry_names_process("redis", 40, 9, Some("other"), Some("/usr/bin/redis-cli\0")));
    assert!(!entry_names_process("redis", 1, 9, Some("redis"), None));
    assert!(!entry_names_process("redis", 9, 9, Some("redis"), None));
    assert!(entry_names_process("app", 50, 9, None, Some("app")));
}

#[test]
fn test_escape_regex_plain_name() {
    assert_eq!(escape_regex("my-server"), "my-server");
}

#[test]
fn test_escape_regex_dots() {
    assert_eq!(escape_regex("svc.v1"), r"svc\.v1");
}

#[test]
fn test_escape_regex_metacharacters() {
    assert_eq!(escape_regex("a+b*c?d"), r"a\+b\*c\?d");
    assert_eq!(escape_regex("(foo)"), r"\(foo\)");
    assert_eq!(escape_regex("[bar]"), r"\[bar\]");
    assert_eq!(escape_regex("^start$"), r"\^start\$");
}

#[test]
fn seccomp_filter_can_be_created() {
    let _filter = SeccompFilter::new();
}
