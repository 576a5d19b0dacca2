use heisensim::clock::VirtualClock;
use heisensim::config::HeisensimError;
use heisensim::net::{Message, VirtualNetwork, DROP_DRAW_RANGE};
use heisensim::process::{ProcessId, ProcessState, ProcessTable};
use heisensim::seed::SimSeed;
use heisensim::types::{FaultKind, NodeId, SimulationState, VirtualTime};
use rand::Rng;
use std::str::FromStr;
use std::time::Duration;

#[test]
fn test_virtual_time() {
    let t1 = VirtualTime::from_millis(500);
    let t2 = VirtualTime::from_millis(500);
    assert_eq!(t1 + t2, VirtualTime::from_secs(1));

    let mut t3 = VirtualTime::from_secs(2);
    t3 -= VirtualTime::from_millis(500);
    assert_eq!(t3.as_millis(), 1500);

    let mut t4 = VirtualTime::from_secs(1);
    t4 += VirtualTime::from_secs(1);
    assert_eq!(t4.as_secs(), 2);

    assert_eq!(t1.display_string(), "500000000ns");
}

#[test]
fn virtual_time_as_std_duration_keeps_nanoseconds() {
    let t = VirtualTime(1_500_000_123);
    assert_eq!(t.as_std_duration(), Duration::from_nanos(1_500_000_123));
    assert_eq!(VirtualTime(7) - VirtualTime(2), VirtualTime(5));
}

#[test]
fn virtual_time_compound_assignment_wraps() {
    let mut t = VirtualTime(u64::MAX);
    t += VirtualTime(2);
    assert_eq!(t, VirtualTime(1));
    t -= VirtualTime(3);
    assert_eq!(t, VirtualTime(u64::MAX - 1));
}

#[test]
fn simulation_state_and_fault_kind_compare() {
    assert_eq!(SimulationState::Running, SimulationState::Running);
    assert_ne!(SimulationState::Paused, SimulationState::Failed);
    assert_eq!(FaultKind::Custom("foo".to_string()), FaultKind::Custom("foo".to_string()));
    assert_ne!(FaultKind::ClockSkew, FaultKind::PacketDelay);
}

#[test]
fn test_clock_schedule_and_tick() {
    let mut clock: VirtualClock<&str> = VirtualClock::new();
    let _cb1 = clock.schedule_after(VirtualTime(100), 0, "timer-a");
    let _cb2 = clock.schedule_after(VirtualTime(200), 0, "timer-b");
    let _cb3 = clock.schedule_after(VirtualTime(50), 0, "timer-c");

    let expired = clock.tick();
    assert_eq!(clock.now(), VirtualTime(50));
    assert_eq!(expired.len(), 1);
    assert_eq!(expired[0].payload, "timer-c");

    let expired = clock.tick();
    assert_eq!(clock.now(), VirtualTime(100));
    assert_eq!(expired.len(), 1);
    assert_eq!(expired[0].payload, "timer-a");

    let expired = clock.tick();
    assert_eq!(clock.now(), VirtualTime(200));
    assert_eq!(expired.len(), 1);
    assert_eq!(expired[0].payload, "timer-b");

    let expired = clock.tick();
    assert!(expired.is_empty());
    assert!(clock.is_empty());
}

#[test]
fn test_clock_priority_ordering() {
    let mut clock: VirtualClock<&str> = VirtualClock::new();
    clock.schedule(VirtualTime(100), 10, "probe");
    clock.schedule(VirtualTime(100), 0, "fault");

    let expired = clock.tick();
    assert_eq!(expired.len(), 2);
    assert_eq!(expired[0].payload, "fault");
    assert_eq!(expired[1].payload, "probe");
}

#[test]
fn clock_same_priority_fires_in_scheduling_order() {
    let mut clock: VirtualClock<u32> = VirtualClock::default();
    let a = clock.schedule(VirtualTime(10), 5, 1);
    let b = clock.schedule(VirtualTime(10), 5, 2);
    assert_eq!(a, 0);
    assert_eq!(b, 1);
    let expired = clock.tick();
    assert_eq!(expired.iter().map(|t| t.payload).collect::<Vec<_>>(), vec![1, 2]);
    assert_eq!(expired[0].callback_id, 0);
}

#[test]
fn clock_never_moves_backwards() {
    let mut clock: VirtualClock<&str> = VirtualClock::new();
    clock.schedule(VirtualTime(100), 0, "late");
    let _ = clock.tick();
    assert_eq!(clock.now(), VirtualTime(100));
    clock.schedule(VirtualTime(40), 0, "overdue");
    let expired = clock.tick();
    assert_eq!(clock.now(), VirtualTime(100));
    assert_eq!(expired.len(), 1);
    assert_eq!(expired[0].payload, "overdue");
}

#[test]
fn process_table_register_kill_crash() {
    let mut table = ProcessTable::new();
    let p0 = table.register(NodeId(1), "api".to_string(), VirtualTime(0));
    let p1 = table.register(NodeId(2), "db".to_string(), VirtualTime(5));
    let p2 = table.register(NodeId(1), "worker".to_string(), VirtualTime(9));
    assert_eq!((p0, p1, p2), (ProcessId(0), ProcessId(1), ProcessId(2)));
    assert_eq!(table.get(p1).unwrap().state, ProcessState::Starting);
    assert!(table.kill(p0));
    assert!(table.crash(p1));
    assert!(!table.kill(ProcessId(7)));
    assert_eq!(table.get(p0).unwrap().state, ProcessState::Killed);
    assert_eq!(table.get(p1).unwrap().state, ProcessState::Crashed);
    assert!(table.get(ProcessId(7)).is_none());
    let alive: Vec<u32> = table.list_alive().iter().map(|p| p.pid.0).collect();
    assert_eq!(alive, vec![2]);
    let on_node1: Vec<u32> = table.list_by_node(NodeId(1)).iter().map(|p| p.pid.0).collect();
    assert_eq!(on_node1, vec![0, 2]);
}

#[test]
fn test_sim_seed_new() {
    let seed = SimSeed::new(42);
    assert_eq!(seed.0, 42);
}

#[test]
fn test_sim_seed_random() {
    let seed1 = SimSeed::random();
    let seed2 = SimSeed::random();
    assert_ne!(seed1, seed2);
}

#[test]
fn test_sim_seed_rng_same_sequence() {
    let seed = SimSeed::new(12345);
    let mut rng1 = seed.rng();
    let mut rng2 = seed.rng();
    assert_eq!(rng1.random::<u64>(), rng2.random::<u64>());
    assert_eq!(rng1.random::<u64>(), rng2.random::<u64>());
}

#[test]
fn test_sim_seed_rng_different_sequence() {
    let seed1 = SimSeed::new(1);
    let seed2 = SimSeed::new(2);
    let mut rng1 = seed1.rng();
    let mut rng2 = seed2.rng();
    assert_ne!(rng1.random::<u64>(), rng2.random::<u64>());
}

#[test]
fn test_sim_seed_display() {
    let seed = SimSeed::new(0x123456789ABCDEF0);
    assert_eq!(seed.display_string(), "seed:0x123456789ABCDEF0");
}

#[test]
fn test_sim_seed_from_str_decimal() {
    let seed = SimSeed::from_str("12345").unwrap();
    assert_eq!(seed.0, 12345);
}

#[test]
fn test_sim_seed_from_str_hex_prefix() {
    let seed = SimSeed::from_str("0x1A").unwrap();
    assert_eq!(seed.0, 0x1A);
    let seed2 = SimSeed::from_str("0X1B").unwrap();
    assert_eq!(seed2.0, 0x1B);
}

#[test]
fn test_sim_seed_from_str_seed_prefix() {
    let seed = SimSeed::from_str("seed:0x1A").unwrap();
    assert_eq!(seed.0, 0x1A);
    let seed2 = SimSeed::from_str("seed:12345").unwrap();
    assert_eq!(seed2.0, 12345);
}

#[test]
fn test_sim_seed_from_str_invalid() {
    assert!(SimSeed::from_str("invalid").is_err());
    assert!(SimSeed::from_str("seed:invalid").is_err());
}

#[test]
fn sim_seed_display_parses_back() {
    for v in [0u64, 1, 0xFF, 0x1234_5678, u64::MAX] {
        let seed = SimSeed::new(v);
        assert_eq!(SimSeed::from_str(&seed.display_string()).unwrap(), seed);
    }
    assert_eq!(SimSeed::new(0x2A).display_string(), "seed:0x000000000000002A");
}

#[test]
fn sim_seed_from_str_edge_cases() {
    assert_eq!(SimSeed::from_str("seed:seed:7").unwrap().0, 7);
    assert_eq!(SimSeed::from_str("+9").unwrap().0, 9);
    assert!(SimSeed::from_str("").is_err());
    assert!(SimSeed::from_str("0x").is_err());
    assert!(SimSeed::from_str("18446744073709551616").is_err());
    assert_eq!(SimSeed::from_str("18446744073709551615").unwrap().0, u64::MAX);
}

#[test]
fn test_virtual_network() {
    let mut net = VirtualNetwork::new(SimSeed::new(123));
    let node1 = NodeId(1);
    let node2 = NodeId(2);

    net.set_drop_threshold(0);
    net.set_delay_range(5, 10);

    net.send(VirtualTime(0), node1, node2, vec![1, 2, 3]);

    let ready = net.deliver_ready(VirtualTime::from_millis(4));
    assert!(ready.is_empty());

    let ready = net.deliver_ready(VirtualTime::from_millis(10));
    assert_eq!(ready.len(), 1);
    assert_eq!(ready[0].0, node2);
    assert_eq!(ready[0].1.data, vec![1, 2, 3]);
}

#[test]
fn test_virtual_network_partition() {
    let mut net = VirtualNetwork::new(SimSeed::new(123));
    let node1 = NodeId(1);
    let node2 = NodeId(2);
    let node3 = NodeId(3);

    let a = vec![node1];
    let b = vec![node2];

    let part_id = net.add_partition(a, b);

    net.send(VirtualTime(0), node1, node2, vec![1]);
    net.send(VirtualTime(0), node1, node3, vec![2]);

    let ready = net.deliver_ready(VirtualTime::from_millis(100));
    assert_eq!(ready.len(), 1);
    assert_eq!(ready[0].0, node3);
    assert_eq!(ready[0].1.data, vec![2]);

    net.remove_partition(part_id);
    net.send(VirtualTime(100), node1, node2, vec![3]);
    let ready = net.deliver_ready(VirtualTime::from_millis(200));
    assert_eq!(ready.len(), 1);
    assert_eq!(ready[0].0, node2);
    assert_eq!(ready[0].1.data, vec![3]);
}

#[test]
fn network_partition_cuts_the_reverse_direction_too() {
    let mut net = VirtualNetwork::new(SimSeed::new(9));
    net.add_partition(vec![NodeId(1)], vec![NodeId(2)]);
    net.send(VirtualTime(0), NodeId(2), NodeId(1), vec![9]);
    assert!(net.deliver_ready(VirtualTime::from_secs(1)).is_empty());
}

#[test]
fn network_full_drop_threshold_drops_everything() {
    let mut net = VirtualNetwork::new(SimSeed::new(5));
    net.set_drop_threshold(u64::MAX);
    for i in 0..20u8 {
        net.send(VirtualTime(0), NodeId(1), NodeId(2), vec![i]);
    }
    assert!(net.deliver_ready(VirtualTime::from_secs(10)).is_empty());
    net.set_drop_threshold(DROP_DRAW_RANGE / 2);
    net.set_drop_threshold(0);
    net.send(VirtualTime(0), NodeId(1), NodeId(2), vec![1]);
    assert_eq!(net.deliver_ready(VirtualTime::from_secs(10)).len(), 1);
}

#[test]
fn network_inverted_delay_range_uses_the_minimum() {
    let mut net = VirtualNetwork::new(SimSeed::new(77));
    net.set_delay_range(20, 3);
    net.send(VirtualTime(0), NodeId(1), NodeId(2), vec![1]);
    assert!(net.deliver_ready(VirtualTime::from_millis(19)).is_empty());
    let ready = net.deliver_ready(VirtualTime::from_millis(20));
    assert_eq!(ready.len(), 1);
    let m: &Message = &ready[0].1;
    assert_eq!(m.sent_at, VirtualTime(0));
    assert_eq!(m.from, NodeId(1));
}

#[test]
fn network_delivers_in_delivery_time_order() {
    let mut net = VirtualNetwork::new(SimSeed::new(3));
    net.set_delay_range(1, 1);
    net.send(VirtualTime::from_millis(5), NodeId(1), NodeId(2), vec![2]);
    net.send(VirtualTime::from_millis(0), NodeId(1), NodeId(3), vec![1]);
    net.send(VirtualTime::from_millis(5), NodeId(1), NodeId(4), vec![3]);
    let ready = net.deliver_ready(VirtualTime::from_secs(1));
    let order: Vec<u8> = ready.iter().map(|(_, m)| m.data[0]).collect();
    assert_eq!(order, vec![1, 2, 3]);
}

#[test]
fn network_same_seed_same_delays() {
    let run = |seed: u64| {
        let mut net = VirtualNetwork::new(SimSeed::new(seed));
        net.set_delay_range(1, 1000);
        for i in 0..10u8 {
            net.send(VirtualTime(0), NodeId(1), NodeId(2), vec![i]);
        }
        net.deliver_ready(VirtualTime::from_secs(5))
            .iter()
            .map(|(_, m)| m.data[0])
            .collect::<Vec<_>>()
    };
    assert_eq!(run(11), run(11));
}

#[test]
fn heisensim_error_messages() {
    assert_eq!(
        HeisensimError::ConfigError("bad".to_string()).message(),
        "Configuration error: bad"
    );
    assert_eq!(HeisensimError::IoError("gone".to_string()).message(), "IO error: gone");
    assert_eq!(
        HeisensimError::SerializationError("x".to_string()).message(),
        "Serialization error: x"
    );
}
