use easyfirewall::history::{HistoryAction, HistoryEntry, HistoryLog};
use easyfirewall::time::Timestamp;

#[test]
fn test_history_entry_new() {
    let entry = HistoryEntry::new(HistoryAction::RuleAdded { id: 1, port: "22".to_string() });

    assert_eq!(entry.action.action_type(), "ADD");
    assert_eq!(entry.action.severity(), "INFO");
}

#[test]
fn test_history_log_add() {
    let mut history = HistoryLog::new(100, false, None);

    assert_eq!(history.len(), 0);
    assert!(history.is_empty());

    history.add(HistoryAction::RuleAdded { id: 1, port: "22".to_string() });

    assert_eq!(history.len(), 1);
    assert!(!history.is_empty());
}

#[test]
fn test_history_log_max_entries() {
    let mut history = HistoryLog::new(5, false, None);

    for i in 0..10 {
        history.add(HistoryAction::RuleAdded { id: i, port: format!("{}", i) });
    }

    assert_eq!(history.len(), 5);
}

#[test]
fn test_history_log_recent() {
    let mut history = HistoryLog::new(100, false, None);

    for i in 0..10 {
        history.add(HistoryAction::RuleAdded { id: i, port: format!("{}", i) });
    }

    let recent = history.recent(3);
    assert_eq!(recent.len(), 3);

    assert_eq!(recent[0].action, HistoryAction::RuleAdded { id: 9, port: "9".to_string() });
}

#[test]
fn test_history_log_find_by_action_type() {
    let mut history = HistoryLog::new(100, false, None);

    history.add(HistoryAction::RuleAdded { id: 1, port: "22".to_string() });
    history.add(HistoryAction::RuleDeleted { id: 1, port: "22".to_string() });
    history.add(HistoryAction::RuleEdited { id: 1, port: "22".to_string() });

    let add_entries = history.find_by_action_type("ADD");
    assert_eq!(add_entries.len(), 1);

    let delete_entries = history.find_by_action_type("DELETE");
    assert_eq!(delete_entries.len(), 1);

    let edit_entries = history.find_by_action_type("EDIT");
    assert_eq!(edit_entries.len(), 1);
}

#[test]
fn test_history_log_find_by_severity() {
    let mut history = HistoryLog::new(100, false, None);

    history.add(HistoryAction::RuleAdded { id: 1, port: "22".to_string() });
    history.add(HistoryAction::RuleDeleted { id: 1, port: "22".to_string() });
    history.add(HistoryAction::Error { message: "Test error".to_string() });

    let info_entries = history.find_by_severity("INFO");
    assert_eq!(info_entries.len(), 1);

    let warning_entries = history.find_by_severity("WARNING");
    assert_eq!(warning_entries.len(), 1);

    let error_entries = history.find_by_severity("ERROR");
    assert_eq!(error_entries.len(), 1);
}

#[test]
fn test_history_log_clear() {
    let mut history = HistoryLog::new(100, false, None);

    history.add(HistoryAction::RuleAdded { id: 1, port: "22".to_string() });
    assert_eq!(history.len(), 1);

    history.clear();
    assert_eq!(history.len(), 0);
    assert!(history.is_empty());
}

#[test]
fn test_history_action_display_name() {
    let action = HistoryAction::RuleAdded { id: 1, port: "22".to_string() };
    assert_eq!(action.display_name(), "Rule added: #1 port 22");

    let action = HistoryAction::RuleDeleted { id: 2, port: "80".to_string() };
    assert_eq!(action.display_name(), "Rule deleted: #2 port 80");

    let action = HistoryAction::FirewallEnabled;
    assert_eq!(action.display_name(), "Firewall enabled");

    let action = HistoryAction::Error { message: "test".to_string() };
    assert_eq!(action.display_name(), "Error: test");
}

#[test]
fn test_history_log_format_as_text() {
    let mut history = HistoryLog::new(100, false, None);

    history.add(HistoryAction::RuleAdded { id: 1, port: "22".to_string() });

    let text = history.format_as_text();

    assert!(text.contains("EasyFirewall History Log"));
    assert!(text.contains("Rule added: #1 port 22"));
}

#[test]
fn every_action_has_its_type_and_severity() {
    let cases = vec![
        (HistoryAction::RuleAdded { id: 1, port: "22".to_string() }, "ADD", "INFO"),
        (HistoryAction::RuleDeleted { id: 1, port: "22".to_string() }, "DELETE", "WARNING"),
        (HistoryAction::RuleEdited { id: 1, port: "22".to_string() }, "EDIT", "INFO"),
        (HistoryAction::FirewallEnabled, "ENABLE", "INFO"),
        (HistoryAction::FirewallDisabled, "DISABLE", "INFO"),
        (HistoryAction::FirewallReloaded, "RELOAD", "INFO"),
        (HistoryAction::BulkImport { count: 3 }, "IMPORT", "INFO"),
        (HistoryAction::BulkExport { count: 4 }, "EXPORT", "INFO"),
        (HistoryAction::Error { message: "x".to_string() }, "ERROR", "ERROR"),
    ];
    for (a, t, s) in cases {
        assert_eq!(a.action_type(), t);
        assert_eq!(a.severity(), s);
    }
    assert_eq!(HistoryAction::RuleEdited { id: 3, port: "*".to_string() }.display_name(), "Rule edited: #3 port *");
    assert_eq!(HistoryAction::FirewallDisabled.display_name(), "Firewall disabled");
    assert_eq!(HistoryAction::FirewallReloaded.display_name(), "Firewall reloaded");
    assert_eq!(HistoryAction::BulkImport { count: 3 }.display_name(), "Bulk import: 3 rules");
    assert_eq!(HistoryAction::BulkExport { count: 4 }.display_name(), "Bulk export: 4 rules");
}

#[test]
fn full_log_drops_the_oldest_entries() {
    let mut history = HistoryLog::new(3, true, Some("/tmp/h.json".to_string()));
    for i in 0..5 {
        history.add(HistoryAction::RuleAdded { id: i, port: format!("{}", i) });
    }
    assert_eq!(history.len(), 3);
    let ids: Vec<String> = history.entries().iter().map(|e| e.action.display_name()).collect();
    assert_eq!(ids, vec!["Rule added: #2 port 2", "Rule added: #3 port 3", "Rule added: #4 port 4"]);
    assert!(history.is_persistent());
    assert_eq!(history.log_file(), &Some("/tmp/h.json".to_string()));
    assert_eq!(history.recent(10).len(), 3);
}

#[test]
fn severities_partition_the_log() {
    let mut history = HistoryLog::default();
    history.add(HistoryAction::RuleAdded { id: 1, port: "22".to_string() });
    history.add(HistoryAction::RuleDeleted { id: 1, port: "22".to_string() });
    history.add(HistoryAction::FirewallReloaded);
    history.add(HistoryAction::Error { message: "e".to_string() });
    let total = history.find_by_severity("INFO").len()
        + history.find_by_severity("WARNING").len()
        + history.find_by_severity("ERROR").len();
    assert_eq!(total, history.len());
    assert_eq!(history.find_by_severity("info").len(), 0);
}

#[test]
fn text_export_has_one_line_per_entry() {
    let mut history = HistoryLog::new(10, false, None);
    history.add(HistoryAction::RuleDeleted { id: 2, port: "80".to_string() });
    let text = history.format_as_text();
    let lines: Vec<&str> = text.lines().collect();
    assert_eq!(lines.len(), 3);
    assert_eq!(lines[0], "EasyFirewall History Log");
    assert_eq!(lines[1], "=".repeat(40));
    assert!(lines[2].ends_with(" UTC | WARNING | Rule deleted: #2 port 80"));
}

#[test]
fn timestamps_format_in_utc() {
    let t = Timestamp::from_unix(0, 0).unwrap();
    assert_eq!(t.log_text(), "1970-01-01 00:00:00 UTC");
    assert_eq!(t.clock_text(), "00:00:00");
    assert_eq!(t.to_rfc3339(), "1970-01-01T00:00:00+00:00");
    let later = Timestamp::from_unix(1710372600, 0).unwrap();
    assert_eq!(later.log_text(), "2024-03-13 23:30:00 UTC");
    assert_eq!(later.unix_seconds(), 1710372600);
    assert_eq!(later.subsec_nanos(), 0);
    assert!(Timestamp::from_unix(i64::MAX, 0).is_none());
    let now = Timestamp::now();
    assert!(now.unix_seconds() > 1_600_000_000);
}
