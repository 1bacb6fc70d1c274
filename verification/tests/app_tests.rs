use easyfirewall::app::{Action, App, AppError, PendingChange, ViewMode};
use easyfirewall::events::{AppEvent, Key, KeyInput};
use easyfirewall::firewall::{FirewallRule, RuleOrigin};
use easyfirewall::forms::FormMode;
use easyfirewall::history::HistoryAction;
use easyfirewall::monitor::{MonitoringError, TrafficStats};

fn rule(id: usize, action: &str, port: &str) -> FirewallRule {
    FirewallRule {
        id,
        action: action.to_string(),
        protocol: "tcp".to_string(),
        port: Some(port.to_string()),
        source: "0.0.0.0/0".to_string(),
        destination: "0.0.0.0/0".to_string(),
        interface: None,
        origin: RuleOrigin::System,
        packets: 0,
        bytes: 0,
    }
}

fn started(rules: Vec<FirewallRule>) -> App {
    let mut app = App::new();
    app.init(true, "mock").unwrap();
    app.load_rules(rules);
    app
}

#[test]
fn test_app_init_with_unavailable_backend() {
    let app = App::new();

    let result = app.init(false, "mock");
    assert!(result.is_err());
    assert!(result.unwrap_err().message().contains("not available"));
}

#[test]
fn test_app_navigation() {
    let mut app = started(vec![rule(1, "ACCEPT", "22"), rule(2, "DROP", "23"), rule(3, "ACCEPT", "80")]);

    assert_eq!(app.selected_index(), Some(0));
    assert_eq!(app.show_details(), false);

    app.handle_event(AppEvent::Down);
    assert_eq!(app.selected_index(), Some(1));

    app.handle_event(AppEvent::Down);
    assert_eq!(app.selected_index(), Some(2));

    app.handle_event(AppEvent::Down);
    assert_eq!(app.selected_index(), Some(2));

    app.handle_event(AppEvent::Up);
    assert_eq!(app.selected_index(), Some(1));

    app.handle_event(AppEvent::Up);
    assert_eq!(app.selected_index(), Some(0));

    app.handle_event(AppEvent::Up);
    assert_eq!(app.selected_index(), Some(0));
}

#[test]
fn test_app_toggle_details() {
    let mut app = started(vec![rule(1, "ACCEPT", "22")]);

    assert_eq!(app.show_details(), false);

    app.handle_event(AppEvent::Enter);
    assert_eq!(app.show_details(), true);

    app.handle_event(AppEvent::Enter);
    assert_eq!(app.show_details(), false);
}

#[test]
fn test_app_quit() {
    let mut app = started(vec![]);

    assert_eq!(app.is_running(), true);

    app.handle_event(AppEvent::Quit);
    assert_eq!(app.is_running(), false);
}

#[test]
fn test_app_open_add_form() {
    let mut app = started(vec![]);

    assert_eq!(app.has_active_form(), false);

    app.handle_event(AppEvent::AddRule);

    assert_eq!(app.has_active_form(), true);
    assert!(app.form().is_some());
}

#[test]
fn test_app_open_edit_form() {
    let mut app = started(vec![rule(1, "ACCEPT", "22")]);

    assert_eq!(app.has_active_form(), false);

    app.handle_event(AppEvent::EditRule);

    assert_eq!(app.has_active_form(), true);
    let form = app.form().unwrap();
    assert!(matches!(form.mode, FormMode::EditRule(1)));
}

#[test]
fn test_app_open_delete_form() {
    let mut app = started(vec![rule(1, "ACCEPT", "22")]);

    assert_eq!(app.has_active_form(), false);

    app.handle_event(AppEvent::DeleteRule);

    assert_eq!(app.has_active_form(), true);
    let form = app.form().unwrap();
    assert!(matches!(form.mode, FormMode::DeleteConfirm(1)));
}

#[test]
fn test_app_cancel_form() {
    let mut app = started(vec![]);

    app.handle_event(AppEvent::AddRule);
    assert_eq!(app.has_active_form(), true);

    app.handle_event(AppEvent::Cancel);
    assert_eq!(app.has_active_form(), false);
}

#[test]
fn edit_and_delete_need_a_rule() {
    let mut app = started(vec![]);
    app.handle_event(AppEvent::EditRule);
    assert!(!app.has_active_form());
    app.handle_event(AppEvent::DeleteRule);
    assert!(!app.has_active_form());
    app.handle_event(AppEvent::Enter);
    assert!(!app.show_details());
    assert_eq!(app.selected_index(), None);
}

#[test]
fn views_toggle_and_cancel_returns_to_rules() {
    let mut app = started(vec![rule(1, "ACCEPT", "22")]);
    app.handle_event(AppEvent::Enter);
    assert!(app.show_details());
    app.handle_event(AppEvent::ToggleMonitoring);
    assert_eq!(app.view_mode(), ViewMode::Monitoring);
    assert!(!app.show_details());
    app.handle_event(AppEvent::ToggleHistory);
    assert_eq!(app.view_mode(), ViewMode::History);
    app.handle_event(AppEvent::ToggleHistory);
    assert_eq!(app.view_mode(), ViewMode::Rules);
    app.handle_event(AppEvent::ToggleMonitoring);
    app.handle_event(AppEvent::ToggleMonitoring);
    assert_eq!(app.view_mode(), ViewMode::Rules);
    app.handle_event(AppEvent::ToggleHistory);
    app.handle_event(AppEvent::Cancel);
    assert_eq!(app.view_mode(), ViewMode::Rules);
}

#[test]
fn events_while_a_form_is_open_go_to_the_form() {
    let mut app = started(vec![rule(1, "ACCEPT", "22"), rule(2, "DROP", "23")]);
    app.handle_event(AppEvent::AddRule);
    app.handle_event(AppEvent::Down);
    app.handle_event(AppEvent::Quit);
    assert_eq!(app.selected_index(), Some(0));
    assert!(app.is_running());
    assert_eq!(app.dispatch(AppEvent::Refresh), Action::Nothing);
    assert!(app.has_active_form());
}

#[test]
fn dispatch_hands_out_the_outside_work() {
    let mut app = started(vec![rule(1, "ACCEPT", "22")]);
    assert_eq!(app.dispatch(AppEvent::Refresh), Action::ReloadRules);
    assert_eq!(app.dispatch(AppEvent::ExportRules), Action::ExportRules);
    assert_eq!(app.dispatch(AppEvent::ImportRules), Action::ImportRules);
    assert_eq!(app.dispatch(AppEvent::SwitchBackend), Action::SwitchBackend);
    assert_eq!(app.dispatch(AppEvent::ToggleMonitoring), Action::Nothing);
    assert_eq!(app.view_mode(), ViewMode::Monitoring);
    assert_eq!(app.dispatch(AppEvent::Refresh), Action::CollectStats);
    app.dispatch(AppEvent::ToggleHistory);
    assert_eq!(app.dispatch(AppEvent::Refresh), Action::Nothing);
    assert_eq!(app.dispatch(AppEvent::Quit), Action::Nothing);
    assert!(!app.is_running());
}

fn type_text(app: &mut App, text: &str) {
    for c in text.chars() {
        app.handle_form_key(&KeyInput::new(Key::Char(c)));
    }
}

#[test]
fn saving_an_add_form_gives_the_change_and_records_it() {
    let mut app = started(vec![rule(1, "ACCEPT", "22"), rule(2, "DROP", "23")]);
    app.handle_event(AppEvent::AddRule);
    app.handle_form_key(&KeyInput::new(Key::Down));
    type_text(&mut app, "8080");
    let confirmed = app.handle_form_key(&KeyInput::new(Key::Enter));
    assert!(confirmed);
    let change = app.begin_save_form().unwrap().unwrap();
    assert!(!app.has_active_form());
    match &change {
        PendingChange::Add { rule, record } => {
            assert_eq!(rule.id, 3);
            assert_eq!(rule.port, Some("8080".to_string()));
            assert_eq!(rule.origin, RuleOrigin::EasyFirewall);
            assert_eq!(*record, HistoryAction::RuleAdded { id: 3, port: "8080".to_string() });
        }
        _ => panic!("not an addition"),
    }
    app.load_rules(vec![rule(1, "ACCEPT", "22"), rule(2, "DROP", "23"), rule(3, "ACCEPT", "8080")]);
    app.finish_change(change);
    assert_eq!(app.history().len(), 1);
    assert_eq!(app.history().recent(1)[0].action.display_name(), "Rule added: #3 port 8080");
}

#[test]
fn invalid_form_is_kept_with_its_error() {
    let mut app = started(vec![]);
    app.handle_event(AppEvent::AddRule);
    app.handle_form_key(&KeyInput::new(Key::Down));
    type_text(&mut app, "99999");
    assert!(app.handle_form_key(&KeyInput::new(Key::Enter)));
    match app.begin_save_form() {
        Err(e) => assert_eq!(e.message(), "Validation failed"),
        Ok(_) => panic!("invalid form saved"),
    }
    let form = app.form().unwrap();
    assert!(!form.confirmed);
    assert_eq!(form.port, "99999");
    assert_eq!(form.error_message, Some("Port must be a valid number (1-65535)".to_string()));
    assert!(!app.handle_form_key(&KeyInput::new(Key::Esc)));
    assert!(!app.has_active_form());
}

#[test]
fn confirmed_delete_is_recorded_with_the_rule_port() {
    let mut app = started(vec![rule(1, "ACCEPT", "22"), rule(2, "DROP", "23")]);
    app.handle_event(AppEvent::Down);
    app.handle_event(AppEvent::DeleteRule);
    assert!(app.handle_form_key(&KeyInput::new(Key::Enter)));
    let change = app.begin_save_form().unwrap().unwrap();
    match &change {
        PendingChange::Delete { rule_id, record } => {
            assert_eq!(*rule_id, 2);
            assert_eq!(*record, HistoryAction::RuleDeleted { id: 2, port: "23".to_string() });
        }
        _ => panic!("not a deletion"),
    }
    app.load_rules(vec![rule(1, "ACCEPT", "22")]);
    assert_eq!(app.selected_index(), Some(0));
    app.finish_change(change);
    assert_eq!(app.history().find_by_severity("WARNING").len(), 1);
}

#[test]
fn edit_form_keeps_the_rule_number() {
    let mut app = started(vec![rule(1, "ACCEPT", "22"), rule(2, "DROP", "23")]);
    app.handle_event(AppEvent::Down);
    app.handle_event(AppEvent::EditRule);
    for _ in 0..5 {
        app.handle_form_key(&KeyInput::new(Key::Down));
    }
    for _ in 0..4 {
        app.handle_form_key(&KeyInput::new(Key::Backspace));
    }
    type_text(&mut app, "REJECT");
    app.handle_form_key(&KeyInput::new(Key::Enter));
    match app.begin_save_form().unwrap().unwrap() {
        PendingChange::Update { rule, record } => {
            assert_eq!(rule.id, 2);
            assert_eq!(rule.action, "REJECT");
            assert_eq!(record, HistoryAction::RuleEdited { id: 2, port: "23".to_string() });
        }
        _ => panic!("not an update"),
    }
}

#[test]
fn unconfirmed_delete_and_no_form_give_nothing() {
    let mut app = started(vec![rule(1, "ACCEPT", "22")]);
    assert!(app.begin_save_form().unwrap().is_none());
    app.handle_event(AppEvent::DeleteRule);
    assert!(app.begin_save_form().unwrap().is_none());
    assert!(!app.has_active_form());
}

#[test]
fn monitoring_results_are_kept_or_reported() {
    let mut app = started(vec![]);
    assert!(app.monitoring_stats().is_none());
    app.refresh_monitoring(Ok(TrafficStats::new(60).with_blocked_packets(5))).unwrap();
    assert_eq!(app.monitoring_stats().unwrap().blocked_packets, 5);
    let err = app.refresh_monitoring(Err(MonitoringError::IoError("no log".to_string())));
    match err {
        Err(AppError::MonitoringFailed(m)) => assert_eq!(m, "IO error: no log"),
        _ => panic!("failure not reported"),
    }
    assert_eq!(app.monitoring_stats().unwrap().blocked_packets, 5);
    assert_eq!(
        AppError::MonitoringFailed("x".to_string()).message(),
        "Failed to collect monitoring stats: x"
    );
    assert_eq!(
        AppError::BackendNotAvailable("nft".to_string()).message(),
        "Backend 'nft' is not available"
    );
}

#[test]
fn reloading_fewer_rules_moves_the_selection_back() {
    let mut app = started(vec![rule(1, "ACCEPT", "22"), rule(2, "DROP", "23"), rule(3, "DROP", "24")]);
    app.handle_event(AppEvent::Down);
    app.handle_event(AppEvent::Down);
    app.load_rules(vec![rule(1, "ACCEPT", "22")]);
    assert_eq!(app.selected_index(), Some(0));
    app.load_rules(vec![]);
    assert_eq!(app.selected_index(), None);
    assert_eq!(app.rules().len(), 0);
    app.set_history_offset(4);
    assert_eq!(app.history_offset(), 4);
    app.rules_mut().push(rule(9, "ACCEPT", "1"));
    assert_eq!(app.rules()[0].id, 9);
    assert_eq!(app.monitor().backend(), "nftables");
}

#[test]
fn c_cancels_an_open_form() {
    let mut app = started(vec![rule(1, "ACCEPT", "22")]);
    app.handle_event(AppEvent::AddRule);
    app.handle_form_key(&KeyInput::new(Key::Down));
    type_text(&mut app, "80");
    assert!(!app.handle_form_key(&KeyInput::new(Key::Char('c'))));
    assert!(!app.has_active_form());
}
