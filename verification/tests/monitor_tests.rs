use easyfirewall::time::Timestamp;
use easyfirewall::monitor::{
    BlockedEntry,
    count_drop_rules, extract_log_field, sorted_ids_into_vec, MonitoringError, TrafficMonitor,
    TrafficStats,
};

#[test]
fn test_extract_log_field() {
    let line = "IN=eth0 SRC=192.168.1.10 DST=10.0.0.1 PROTO=TCP DPT=22";
    assert_eq!(extract_log_field(line, "SRC="), Some("192.168.1.10".to_string()));
    assert_eq!(extract_log_field(line, "DPT="), Some("22".to_string()));
}

#[test]
fn test_parse_log_line() {
    let monitor = TrafficMonitor::new("nftables".to_string(), 60);

    let line = "kernel: [UFW BLOCK] IN=eth0 SRC=192.168.1.10 DST=10.0.0.1 PROTO=TCP SPT=12345 DPT=22";
    let entry = monitor.parse_log_line(line);

    assert!(entry.is_some());
    let entry = entry.unwrap();
    assert_eq!(entry.ip_address, "192.168.1.10");
    assert_eq!(entry.port, "22");
    assert_eq!(entry.protocol, "tcp");
}

#[test]
fn test_traffic_stats_new() {
    let stats = TrafficStats::new(60);

    assert_eq!(stats.blocked_packets, 0);
    assert_eq!(stats.blocked_bytes, 0);
    assert_eq!(stats.time_window_seconds, 60);
    assert!(stats.blocked_entries.is_empty());
}

#[test]
fn test_traffic_stats_with_blocked_packets() {
    let stats = TrafficStats::new(60).with_blocked_packets(100);

    assert_eq!(stats.blocked_packets, 100);
}

#[test]
fn test_parse_kernel_logs() {
    let monitor = TrafficMonitor::new("nftables".to_string(), 60);

    let log_content = "kernel: [UFW BLOCK] IN=eth0 SRC=192.168.1.10 DST=10.0.0.1 PROTO=TCP SPT=12345 DPT=22
kernel: [UFW BLOCK] IN=eth0 SRC=10.0.0.3 DST=192.168.1.1 PROTO=UDP DPT=53";

    let entries = monitor.parse_kernel_logs(log_content);

    assert_eq!(entries.len(), 2);
    assert!(entries.iter().any(|e| e.ip_address == "192.168.1.10"));
    assert!(entries.iter().any(|e| e.ip_address == "10.0.0.3"));
}

#[test]
fn field_runs_to_the_end_of_the_line_or_is_missing() {
    assert_eq!(extract_log_field("a SRC=1.2.3.4", "SRC="), Some("1.2.3.4".to_string()));
    assert_eq!(extract_log_field("a SRC=\tb", "SRC="), Some(String::new()));
    assert_eq!(extract_log_field("nothing here", "SRC="), None);
}

#[test]
fn lines_without_firewall_words_are_ignored_and_fields_default() {
    let monitor = TrafficMonitor::new("nftables".to_string(), 30);
    assert!(monitor.parse_log_line("kernel: eth0 link up").is_none());
    let e = monitor.parse_log_line("FIREWALL drop src=5.6.7.8 proto icmp").unwrap();
    assert_eq!(e.ip_address, "5.6.7.8");
    assert_eq!(e.port, "unknown");
    assert_eq!(e.protocol, "icmp");
    assert_eq!(e.attempts, 1);
}

#[test]
fn grouping_sums_attempts_and_orders_by_count() {
    let monitor = TrafficMonitor::new("nftables".to_string(), 60);
    let log = "BLOCK SRC=1.1.1.1 PROTO=TCP DPT=22\n\
BLOCK SRC=2.2.2.2 PROTO=UDP DPT=53\n\
BLOCK SRC=2.2.2.2 PROTO=UDP DPT=53\n\
link up\n\
BLOCK SRC=2.2.2.2 PROTO=TCP DPT=80\n";
    let entries = monitor.parse_kernel_logs(log);
    assert_eq!(entries.len(), 2);
    assert_eq!(entries[0].ip_address, "2.2.2.2");
    assert_eq!(entries[0].attempts, 3);
    assert_eq!(entries[0].port, "53");
    assert_eq!(entries[1].attempts, 1);
    let total: u64 = entries.iter().map(|e| e.attempts).sum();
    assert_eq!(total, 4);

    let stats = monitor.stats_from_entries(entries);
    assert_eq!(stats.blocked_packets, 4);
    assert_eq!(stats.time_window_seconds, 60);
    assert_eq!(stats.most_blocked_ips[0], ("2.2.2.2".to_string(), 3));
    assert_eq!(stats.most_blocked_ips.len(), 2);
    assert_eq!(stats.most_attacked_ports.len(), 2);
    assert_eq!(stats.most_attacked_ports[0], ("53".to_string(), 3));
    assert_eq!(stats.most_attacked_ports[1], ("22".to_string(), 1));
    assert_eq!(stats.blocked_entries.len(), 2);
}

#[test]
fn only_the_top_ten_are_kept() {
    let monitor = TrafficMonitor::new("nftables".to_string(), 60);
    let mut log = String::new();
    for i in 0..12 {
        for _ in 0..(i + 1) {
            log.push_str(&format!("DROP SRC=10.0.0.{} DPT={}\n", i, 1000 + i));
        }
    }
    let entries = monitor.parse_kernel_logs(&log);
    assert_eq!(entries.len(), 12);
    let stats = monitor.stats_from_entries(entries);
    assert_eq!(stats.blocked_packets, 78);
    assert_eq!(stats.most_blocked_ips.len(), 10);
    assert_eq!(stats.most_blocked_ips[0], ("10.0.0.11".to_string(), 12));
    assert_eq!(stats.most_blocked_ips[9], ("10.0.0.2".to_string(), 3));
    assert_eq!(stats.most_attacked_ports.len(), 10);
}

#[test]
fn truncation_keeps_the_first_items() {
    let v = vec![("a".to_string(), 5u64), ("b".to_string(), 4), ("c".to_string(), 1)];
    assert_eq!(sorted_ids_into_vec(v.clone(), 2), vec![("a".to_string(), 5), ("b".to_string(), 4)]);
    assert_eq!(sorted_ids_into_vec(v.clone(), 10), v);
}

#[test]
fn fallback_counter_and_other_backends() {
    assert_eq!(count_drop_rules("tcp dport 22 drop\nudp drop\ndropdrop"), 4);
    assert_eq!(count_drop_rules("accept"), 0);
    let monitor = TrafficMonitor::new("nftables".to_string(), 60);
    assert!(monitor.check_backend().is_ok());
    let stats = monitor.stats_from_counter(7);
    assert_eq!(stats.blocked_packets, 7);
    assert!(stats.most_blocked_ips.is_empty());
    let other = TrafficMonitor::new("iptables".to_string(), 60);
    match other.check_backend() {
        Err(e) => assert_eq!(e.message(), "Unsupported backend: iptables"),
        Ok(()) => panic!("iptables accepted"),
    }
    assert_eq!(other.backend(), "iptables");
    assert_eq!(other.time_window(), 60);
}

#[test]
fn log_sources() {
    let monitor = TrafficMonitor::new("nftables".to_string(), 45);
    assert_eq!(monitor.journal_args(), vec!["-k", "--since", "45s ago", "-n", "1000"]);
    assert_eq!(monitor.kern_log_paths(), vec!["/var/log/kern.log", "/var/log/syslog", "/var/log/messages"]);
}

#[test]
fn monitoring_error_messages() {
    assert_eq!(MonitoringError::ParseError("p".to_string()).message(), "Parse error: p");
    assert_eq!(MonitoringError::IoError("i".to_string()).message(), "IO error: i");
    assert_eq!(MonitoringError::LogFileNotFound("f".to_string()).message(), "Log file not found: f");
}

#[test]
fn stats_builders_replace_one_field() {
    let stats = TrafficStats::new(10)
        .with_blocked_bytes(5)
        .with_most_blocked_ips(vec![("x".to_string(), 2)])
        .with_most_attacked_ports(vec![("22".to_string(), 2)])
        .with_blocked_entries(Vec::new());
    assert_eq!(stats.blocked_bytes, 5);
    assert_eq!(stats.blocked_packets, 0);
    assert_eq!(stats.most_blocked_ips.len(), 1);
    assert_eq!(stats.most_attacked_ports[0].0, "22");
}

fn report(ip: &str, port: &str, at: i64) -> BlockedEntry {
    BlockedEntry {
        ip_address: ip.to_string(),
        port: port.to_string(),
        protocol: "tcp".to_string(),
        attempts: 1,
        last_seen: Timestamp::from_unix(at, 0).unwrap(),
    }
}

#[test]
fn groups_carry_the_time_of_their_latest_report() {
    let reports = vec![
        report("1.1.1.1", "22", 100),
        report("2.2.2.2", "53", 150),
        report("1.1.1.1", "80", 300),
        report("1.1.1.1", "443", 200),
    ];
    let groups = TrafficMonitor::group_reports(reports);
    assert_eq!(groups.len(), 2);
    assert_eq!(groups[0].ip_address, "1.1.1.1");
    assert_eq!(groups[0].port, "22");
    assert_eq!(groups[0].attempts, 3);
    assert_eq!(groups[0].last_seen.unix_seconds(), 200);
    assert_eq!(groups[1].ip_address, "2.2.2.2");
    assert_eq!(groups[1].last_seen.unix_seconds(), 150);
}
