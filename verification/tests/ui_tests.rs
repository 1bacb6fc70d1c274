use easyfirewall::app::ViewMode;
use easyfirewall::firewall::{FirewallRule, RuleOrigin};
use easyfirewall::history::HistoryAction;
use easyfirewall::ui::{pad_left_number, pad_right_text, AppUi, Tone};

fn rule(id: usize, action: &str, port: Option<&str>) -> FirewallRule {
    FirewallRule {
        id,
        action: action.to_string(),
        protocol: "tcp".to_string(),
        port: port.map(|p| p.to_string()),
        source: "0.0.0.0/0".to_string(),
        destination: "10.0.0.1".to_string(),
        interface: None,
        origin: RuleOrigin::System,
        packets: 12,
        bytes: 3400,
    }
}

#[test]
fn screen_state_setters() {
    let mut ui = AppUi::new();
    assert!(ui.rules().is_empty());
    assert_eq!(ui.selected_rule(), None);
    ui.set_rules(vec![rule(1, "ACCEPT", Some("22")), rule(2, "DROP", None)]);
    ui.set_selected_rule(Some(1));
    ui.set_show_details(true);
    assert_eq!(ui.rules().len(), 2);
    assert_eq!(ui.selected_rule(), Some(1));
    assert!(ui.show_details());
    assert_eq!(ui.detail_rule().unwrap().id, 2);
    ui.set_selected_rule(Some(5));
    assert!(ui.detail_rule().is_none());
}

#[test]
fn rule_lines_are_in_columns() {
    assert_eq!(AppUi::rule_line(&rule(1, "ACCEPT", Some("22"))), "   1 ACCEPT  tcp    22       0.0.0.0/0");
    assert_eq!(AppUi::rule_line(&rule(12345, "REJECTED", None)), "12345 REJECTED tcp    *        0.0.0.0/0");
    assert_eq!(pad_right_text("ab", 4), "ab  ");
    assert_eq!(pad_left_number(7, 3), "  7");
    assert_eq!(pad_left_number(1234, 3), "1234");
    assert_eq!(format!("{:4} {:7}", 1, "ACCEPT"), format!("{} {}", pad_left_number(1, 4), pad_right_text("ACCEPT", 7)));
}

#[test]
fn details_fill_missing_fields() {
    let fields = AppUi::detail_fields(&rule(3, "DROP", None));
    assert_eq!(fields.len(), 9);
    assert_eq!(fields[0], ("ID:       ", "3".to_string()));
    assert_eq!(fields[3], ("Port:     ", "All".to_string()));
    assert_eq!(fields[5], ("Dest:     ", "10.0.0.1".to_string()));
    assert_eq!(fields[6], ("Interface:", "Any".to_string()));
    assert_eq!(fields[7], ("Packets:  ", "12".to_string()));
    assert_eq!(fields[8], ("Bytes:    ", "3400".to_string()));
}

#[test]
fn headers_footers_and_tones() {
    assert_eq!(AppUi::header(ViewMode::Rules), ("Firewall Manager", "Backend: nftables  Status: Active"));
    assert_eq!(AppUi::header(ViewMode::History).0, "History Log");
    assert_eq!(AppUi::footer(ViewMode::Monitoring).1, "r:Refresh m:Back h:History q:Quit");
    assert_eq!(AppUi::footer(ViewMode::Rules).1, "a:Add e:Edit d:Del m:Monitor h:History q:Quit");
    assert_eq!(AppUi::action_tone("ACCEPT"), Tone::Green);
    assert_eq!(AppUi::action_tone("DROP"), Tone::Red);
    assert_eq!(AppUi::action_tone("REJECT"), Tone::Yellow);
    assert_eq!(AppUi::action_tone("accept"), Tone::White);
    let deleted = HistoryAction::RuleDeleted { id: 1, port: "22".to_string() };
    assert_eq!(AppUi::severity_tone(&deleted), Tone::Yellow);
    assert_eq!(AppUi::kind_tone(&deleted), Tone::Red);
    let err = HistoryAction::Error { message: "x".to_string() };
    assert_eq!(AppUi::severity_tone(&err), Tone::Red);
    assert_eq!(AppUi::kind_tone(&HistoryAction::FirewallEnabled), Tone::White);
    assert_eq!(AppUi::severity_tone(&HistoryAction::FirewallEnabled), Tone::Green);
}

#[test]
fn top_lists_show_ten_entries() {
    let pairs: Vec<(String, u64)> = (0..12).map(|i| (format!("10.0.0.{}", i), 20 - i as u64)).collect();
    let lines = AppUi::top_lines(&pairs, "attempts");
    assert_eq!(lines.len(), 10);
    assert_eq!(lines[0], ("  10.0.0.0        ".to_string(), "20 attempts".to_string()));
    assert_eq!(lines[9], ("  10.0.0.9        ".to_string(), "11 attempts".to_string()));
    let ports = AppUi::top_lines(&[("22".to_string(), 3)], "hits");
    assert_eq!(ports, vec![("  22              ".to_string(), "3 hits".to_string())]);
    assert_eq!(format!("  {:15} ", "22"), ports[0].0);
}

#[test]
fn history_lines_are_newest_first() {
    let mut log = easyfirewall::history::HistoryLog::new(100, false, None);
    for i in 0..20 {
        log.add(HistoryAction::RuleAdded { id: i, port: "22".to_string() });
    }
    log.add(HistoryAction::Error { message: "boom".to_string() });
    let lines = AppUi::history_lines(&log);
    assert_eq!(lines.len(), 15);
    assert_eq!(lines[0].1, "[ERROR]");
    assert_eq!(lines[0].2, "Error: boom");
    assert_eq!(lines[1].2, "Rule added: #19 port 22");
    assert_eq!(lines[14].2, "Rule added: #6 port 22");
    assert_eq!(lines[0].0.len(), 9);
    assert!(lines[0].0.ends_with(' '));
    assert_eq!(&lines[0].0[2..3], ":");
}
