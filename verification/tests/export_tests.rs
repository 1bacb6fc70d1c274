use easyfirewall::export::{ExportFormat, ExportedRule, RuleExporter};
use easyfirewall::firewall::{FirewallRule, RuleOrigin};

fn rule(id: usize, action: &str, protocol: &str, port: Option<&str>) -> FirewallRule {
    FirewallRule {
        id,
        action: action.to_string(),
        protocol: protocol.to_string(),
        port: port.map(|p| p.to_string()),
        source: "0.0.0.0/0".to_string(),
        destination: "0.0.0.0/0".to_string(),
        interface: None,
        origin: RuleOrigin::System,
        packets: 0,
        bytes: 0,
    }
}

#[test]
fn test_exported_rule_from_firewall_rule() {
    let firewall_rule = FirewallRule {
        id: 1,
        action: "ACCEPT".to_string(),
        protocol: "tcp".to_string(),
        port: Some("22".to_string()),
        source: "0.0.0.0/0".to_string(),
        destination: "0.0.0.0/0".to_string(),
        interface: Some("eth0".to_string()),
        origin: RuleOrigin::System,
        packets: 100,
        bytes: 1000,
    };

    let exported = ExportedRule::from(firewall_rule);

    assert_eq!(exported.id, 1);
    assert_eq!(exported.action, "ACCEPT");
    assert_eq!(exported.protocol, "tcp");
    assert_eq!(exported.port, Some("22".to_string()));
    assert_eq!(exported.interface, Some("eth0".to_string()));
}

#[test]
fn test_export_format_from_extension() {
    assert_eq!(ExportFormat::from_extension("json"), Some(ExportFormat::Json));
    assert_eq!(ExportFormat::from_extension("yaml"), Some(ExportFormat::Yaml));
    assert_eq!(ExportFormat::from_extension("yml"), Some(ExportFormat::Yaml));
    assert_eq!(ExportFormat::from_extension("txt"), None);
}

#[test]
fn extension_case_does_not_matter() {
    assert_eq!(ExportFormat::from_extension("JSON"), Some(ExportFormat::Json));
    assert_eq!(ExportFormat::from_extension("YmL"), Some(ExportFormat::Yaml));
    assert_eq!(ExportFormat::from_extension(""), None);
}

#[test]
fn unknown_or_missing_extension_means_json() {
    assert_eq!(ExportFormat::for_extension(None), ExportFormat::Json);
    assert_eq!(ExportFormat::for_extension(Some("txt")), ExportFormat::Json);
    assert_eq!(ExportFormat::for_extension(Some("YAML")), ExportFormat::Yaml);
}

#[test]
fn exported_rule_is_stamped_and_has_no_description() {
    let exported = ExportedRule::from(rule(3, "DROP", "udp", Some("53")));
    assert_eq!(exported.description, None);
    assert!(exported.created_at.contains('T'));
    assert!(exported.created_at.len() >= 20);
}

#[test]
fn export_config_keeps_rules_in_order() {
    let rules = vec![rule(1, "ACCEPT", "tcp", Some("22")), rule(2, "DROP", "udp", None)];
    let config = RuleExporter::export_config(&rules, "nftables");
    assert_eq!(config.version, "1.0.0");
    assert_eq!(config.backend, "nftables");
    assert_eq!(config.rules.len(), 2);
    assert_eq!(config.rules[0].id, 1);
    assert_eq!(config.rules[1].action, "DROP");
    assert_eq!(config.rules[1].port, None);
    assert!(config.exported_at.contains('T'));
}

#[test]
fn import_of_export_restores_the_rule() {
    let original = rule(7, "REJECT", "tcp", Some("443"));
    let exported = ExportedRule::from(original.clone());
    let back = RuleExporter::imported_rule(&exported, 9);
    assert_eq!(back.id, 9);
    assert_eq!(back.action, "REJECT");
    assert_eq!(back.protocol, "tcp");
    assert_eq!(back.port, Some("443".to_string()));
    assert_eq!(back.source, original.source);
    assert_eq!(back.destination, original.destination);
    assert_eq!(back.interface, None);
    assert_eq!(back.origin, RuleOrigin::EasyFirewall);
    assert_eq!(back.packets, 0);
}

#[test]
fn imported_rules_are_numbered_after_the_listed_ones() {
    let rules = vec![rule(1, "ACCEPT", "tcp", Some("22")), rule(2, "DROP", "udp", None)];
    let config = RuleExporter::export_config(&rules, "iptables");
    let imported = RuleExporter::imported_rules(&config.rules, 4);
    assert_eq!(imported.len(), 2);
    assert_eq!(imported[0].id, 5);
    assert_eq!(imported[1].id, 5);
    assert_eq!(imported[1].action, "DROP");
}
