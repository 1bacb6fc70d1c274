use easyfirewall::firewall::iptables::IptablesBackend;
use easyfirewall::firewall::nftables::NftablesBackend;
use easyfirewall::firewall::{FirewallError, FirewallRule, RuleOrigin};

fn rule(id: usize, action: &str, protocol: &str, port: Option<&str>) -> FirewallRule {
    FirewallRule {
        id,
        action: action.to_string(),
        protocol: protocol.to_string(),
        port: port.map(|p| p.to_string()),
        source: "0.0.0.0/0".to_string(),
        destination: "0.0.0.0/0".to_string(),
        interface: None,
        origin: RuleOrigin::System,
        packets: 0,
        bytes: 0,
    }
}

#[test]
fn test_parse_iptables_rule_accept() {
    let backend = IptablesBackend::new();
    let line = "1  ACCEPT     tcp  --  0.0.0.0/0            0.0.0.0/0            tcp dpt:22";
    let rule = backend.parse_rule_line(line, 1);

    assert!(rule.is_some());
    let rule = rule.unwrap();
    assert_eq!(rule.action, "ACCEPT");
    assert_eq!(rule.protocol, "tcp");
    assert_eq!(rule.port, Some("22".to_string()));
}

#[test]
fn test_parse_iptables_rule_drop() {
    let backend = IptablesBackend::new();
    let line = "2  DROP       tcp  --  0.0.0.0/0            0.0.0.0/0            tcp dpt:23";
    let rule = backend.parse_rule_line(line, 2);

    assert!(rule.is_some());
    let rule = rule.unwrap();
    assert_eq!(rule.action, "DROP");
    assert_eq!(rule.port, Some("23".to_string()));
}

#[test]
fn test_parse_iptables_rule_with_interface() {
    let backend = IptablesBackend::new();
    let line = "1  ACCEPT     tcp  --  0.0.0.0/0            0.0.0.0/0            tcp dpt:80 in:eth0";
    let rule = backend.parse_rule_line(line, 1);

    assert!(rule.is_some());
    let rule = rule.unwrap();
    assert_eq!(rule.interface, Some("eth0".to_string()));
}

#[test]
fn test_parse_iptables_ignore_headers() {
    let backend = IptablesBackend::new();

    let header_line = "Chain INPUT (policy ACCEPT)";
    assert!(backend.parse_rule_line(header_line, 1).is_none());

    let header_line2 = "num target prot opt source               destination";
    assert!(backend.parse_rule_line(header_line2, 1).is_none());
}

#[test]
fn test_parse_simple_rule() {
    let backend = NftablesBackend::new();
    let line = "meta l4proto tcp tcp dport 22 accept";
    let rule = backend.parse_rule_line(line, 1);

    assert!(rule.is_some());
    let rule = rule.unwrap();
    assert_eq!(rule.action, "ACCEPT");
    assert_eq!(rule.protocol, "tcp");
    assert_eq!(rule.port, Some("22".to_string()));
}

#[test]
fn test_parse_drop_rule() {
    let backend = NftablesBackend::new();
    let line = "meta l4proto tcp tcp dport 23 drop";
    let rule = backend.parse_rule_line(line, 1);

    assert!(rule.is_some());
    let rule = rule.unwrap();
    assert_eq!(rule.action, "DROP");
    assert_eq!(rule.port, Some("23".to_string()));
}

#[test]
fn iptables_listing_is_numbered_from_one() {
    let backend = IptablesBackend::new();
    assert_eq!(backend.name(), "iptables");
    let output = "Chain INPUT (policy ACCEPT)\n\
num  target     prot opt source               destination\n\
1    ACCEPT     tcp  --  0.0.0.0/0            0.0.0.0/0            tcp dpt:22\n\
2    DROP       udp  --  0.0.0.0/0            0.0.0.0/0            udp dpt:53\n\
3    REJECT     all  --  0.0.0.0/0            0.0.0.0/0\n";
    let rules = backend.parse_iptables_rules(output).unwrap();
    assert_eq!(rules.len(), 3);
    assert_eq!(rules[0].id, 1);
    assert_eq!(rules[1].id, 2);
    assert_eq!(rules[1].protocol, "udp");
    assert_eq!(rules[2].id, 3);
    assert_eq!(rules[2].action, "REJECT");
    assert_eq!(rules[2].protocol, "all");
    assert_eq!(rules[2].port, None);
    assert_eq!(rules[0].origin, RuleOrigin::System);
}

#[test]
fn iptables_delete_mirrors_add() {
    let backend = IptablesBackend::new();
    let mut r = rule(1, "ACCEPT", "tcp", Some("22"));
    r.interface = Some("eth0".to_string());
    r.source = "10.0.0.0/8".to_string();
    let add = backend.add_rule_args(&r);
    let del = backend.delete_rule_args(&r);
    assert_eq!(
        add,
        vec!["-A", "INPUT", "-p", "tcp", "--dport", "22", "-s", "10.0.0.0/8", "-i", "eth0", "-j", "ACCEPT"]
    );
    assert_eq!(del[0], "-D");
    assert_eq!(del[1..], add[1..]);
    let any = rule(2, "DROP", "all", None);
    assert_eq!(backend.add_rule_args(&any), vec!["-A", "INPUT", "-j", "DROP"]);
}

#[test]
fn iptables_delete_checks_the_rule_number() {
    let backend = IptablesBackend::new();
    let rules = vec![rule(1, "ACCEPT", "tcp", Some("22")), rule(2, "DROP", "tcp", Some("23"))];
    match backend.plan_delete(0, &rules) {
        Err(e) => assert_eq!(e.message(), "Invalid rule: Invalid rule ID: 0"),
        Ok(_) => panic!("rule 0 accepted"),
    }
    match backend.plan_delete(3, &rules) {
        Err(FirewallError::InvalidRule(m)) => assert_eq!(m, "Invalid rule ID: 3"),
        _ => panic!("rule 3 accepted"),
    }
    let args = backend.plan_delete(2, &rules).unwrap();
    assert_eq!(args, vec!["-D", "INPUT", "-p", "tcp", "--dport", "23", "-j", "DROP"]);
    let (del, add) = backend.plan_update(&rule(1, "DROP", "udp", None), &rules);
    assert_eq!(del.unwrap(), vec!["-D", "INPUT", "-p", "tcp", "--dport", "22", "-j", "ACCEPT"]);
    assert_eq!(add, vec!["-A", "INPUT", "-p", "udp", "-j", "DROP"]);
}

#[test]
fn nftables_ruleset_skips_structure() {
    let backend = NftablesBackend::new();
    assert_eq!(backend.name(), "nftables");
    let ruleset = "table ip filter {\n\tchain input {\n\t\ttype filter hook input priority 0; policy accept;\n\t\ttcp dport 22 accept\n\t\tudp dport 53 drop\n\t}\n}\n";
    let rules = backend.try_parse_ruleset(ruleset).unwrap();
    assert_eq!(rules.len(), 3);
    assert_eq!(rules[0].id, 1);
    assert_eq!(rules[0].action, "ACCEPT");
    assert_eq!(rules[0].port, None);
    assert_eq!(rules[1].id, 2);
    assert_eq!(rules[1].port, Some("22".to_string()));
    assert_eq!(rules[2].id, 3);
    assert_eq!(rules[2].action, "DROP");
    assert_eq!(rules[2].protocol, "udp");
    assert_eq!(rules[2].port, Some("53".to_string()));
    let same = backend.parse_ruleset(ruleset).unwrap();
    assert_eq!(same.len(), 3);
}

#[test]
fn nftables_keyword_value() {
    let backend = NftablesBackend::new();
    assert_eq!(
        backend.extract_after_keyword("tcp dport {22} accept", "dport"),
        Some("22".to_string())
    );
    assert_eq!(backend.extract_after_keyword("tcp dport", "dport"), Some(String::new()));
    assert_eq!(backend.extract_after_keyword("tcp accept", "dport"), None);
    assert_eq!(backend.extract_after_keyword("TCP DPORT 8080 ACCEPT", "dport"), Some("8080".to_string()));
    let rule = backend.parse_rule_line("ip protocol icmp reject", 4).unwrap();
    assert_eq!(rule.id, 4);
    assert_eq!(rule.protocol, "icmp");
    assert_eq!(rule.action, "REJECT");
    assert_eq!(rule.source, "0.0.0.0/0");
}

#[test]
fn nftables_add_and_delete_plans() {
    let backend = NftablesBackend::new();
    let mut r = rule(1, "ACCEPT", "tcp", Some("22"));
    r.interface = Some("eth0".to_string());
    assert_eq!(
        backend.add_rule_args(&r),
        vec!["add", "rule", "ip", "filter", "input", "meta", "l4proto", "tcp", "tcp", "dport", "22", "iifname", "eth0", "accept"]
    );
    assert_eq!(backend.flush_args(), vec!["flush", "rule", "ip", "filter", "input"]);
    let rules = vec![rule(1, "ACCEPT", "tcp", Some("22")), rule(2, "DROP", "tcp", Some("23")), rule(3, "DROP", "udp", None)];
    let keep = backend.plan_delete(2, &rules).unwrap();
    assert_eq!(keep.len(), 2);
    assert_eq!(keep[0].id, 1);
    assert_eq!(keep[1].id, 3);
    match backend.plan_delete(4, &rules) {
        Err(FirewallError::InvalidRule(m)) => assert_eq!(m, "Invalid rule ID: 4"),
        _ => panic!("rule 4 accepted"),
    }
}

#[test]
fn origin_names_and_error_messages() {
    assert_eq!(RuleOrigin::System.display_name(), "system");
    assert_eq!(RuleOrigin::EasyFirewall.display_name(), "easyfirewall");
    assert_eq!(RuleOrigin::External.display_name(), "external");
    assert_eq!(FirewallError::PermissionDenied.message(), "Permission denied: root privileges required");
    assert_eq!(FirewallError::BackendNotAvailable("nft".to_string()).message(), "Backend not available: nft");
    assert_eq!(FirewallError::CommandFailed("x".to_string()).message(), "Failed to execute command: x");
    assert_eq!(FirewallError::ParseError("y".to_string()).message(), "Parse error: y");
    assert_eq!(FirewallError::IoError("z".to_string()).message(), "IO error: z");
}
