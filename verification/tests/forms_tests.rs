use easyfirewall::events::{Key, KeyInput, KeyKind};
use easyfirewall::firewall::{FirewallRule, RuleOrigin};
use easyfirewall::forms::{FormMode, FormRenderer, FormState};

#[test]
fn test_form_state_new_add() {
    let form = FormState::new_add();
    assert_eq!(form.mode, FormMode::AddRule);
    assert_eq!(form.protocol, "tcp");
    assert_eq!(form.action, "ACCEPT");
    assert!(!form.confirmed);
}

#[test]
fn test_form_state_validation_valid() {
    let mut form = FormState::new_add();
    form.port = "22".to_string();
    assert!(form.validate().is_ok());
}

#[test]
fn test_form_state_validation_invalid_protocol() {
    let mut form = FormState::new_add();
    form.protocol = "invalid".to_string();
    assert!(form.validate().is_err());
}

#[test]
fn test_form_state_validation_invalid_port() {
    let mut form = FormState::new_add();
    form.port = "invalid".to_string();
    assert!(form.validate().is_err());
}

#[test]
fn test_form_state_validation_invalid_action() {
    let mut form = FormState::new_add();
    form.action = "invalid".to_string();
    assert!(form.validate().is_err());
}

#[test]
fn test_form_state_to_rule() {
    let mut form = FormState::new_add();
    form.port = "80".to_string();
    let rule = form.to_rule(1);

    assert!(rule.is_some());
    let rule = rule.unwrap();
    assert_eq!(rule.id, 1);
    assert_eq!(rule.action, "ACCEPT");
    assert_eq!(rule.port, Some("80".to_string()));
}

#[test]
fn test_form_state_field_navigation() {
    let mut form = FormState::new_add();
    assert_eq!(form.current_field, 0);

    form.current_field = 3;
    if let Some(field) = form.get_field_mut(3) {
        *field = "test".to_string();
    }
    assert_eq!(form.destination, "test");
}

#[test]
fn validation_messages_name_the_first_problem() {
    let mut form = FormState::new_add();
    form.protocol = "gre".to_string();
    form.port = "x".to_string();
    assert_eq!(form.validate().unwrap_err(), "Protocol must be tcp, udp, icmp, or all");
    form.protocol = "UDP".to_string();
    assert_eq!(form.validate().unwrap_err(), "Port must be a valid number (1-65535)");
    form.port = "65536".to_string();
    assert_eq!(form.validate().unwrap_err(), "Port must be a valid number (1-65535)");
    form.port = "0".to_string();
    assert_eq!(form.validate().unwrap_err(), "Port must be a valid number (1-65535)");
    form.port = "65535".to_string();
    form.action = "allow".to_string();
    assert_eq!(form.validate().unwrap_err(), "Action must be ACCEPT, DROP, or REJECT");
    form.action = "reject".to_string();
    assert!(form.validate().is_ok());
    assert!(form.to_rule(1).is_some());
    form.action = "nope".to_string();
    assert!(form.to_rule(1).is_none());
}

#[test]
fn to_rule_normalises_case_and_fills_defaults() {
    let mut form = FormState::new_add();
    form.protocol = "UDP".to_string();
    form.action = "drop".to_string();
    form.source = String::new();
    form.destination = String::new();
    form.interface = "eth1".to_string();
    let rule = form.to_rule(5).unwrap();
    assert_eq!(rule.protocol, "udp");
    assert_eq!(rule.action, "DROP");
    assert_eq!(rule.port, None);
    assert_eq!(rule.source, "0.0.0.0/0");
    assert_eq!(rule.destination, "0.0.0.0/0");
    assert_eq!(rule.interface, Some("eth1".to_string()));
    assert_eq!(rule.origin, RuleOrigin::EasyFirewall);
}

#[test]
fn edit_form_round_trips_the_rule() {
    let rule = FirewallRule {
        id: 4,
        action: "DROP".to_string(),
        protocol: "udp".to_string(),
        port: Some("53".to_string()),
        source: "10.0.0.0/8".to_string(),
        destination: "0.0.0.0/0".to_string(),
        interface: Some("eth0".to_string()),
        origin: RuleOrigin::System,
        packets: 9,
        bytes: 99,
    };
    let form = FormState::new_edit(&rule);
    assert_eq!(form.mode, FormMode::EditRule(4));
    let back = form.to_rule(4).unwrap();
    assert_eq!(back.action, rule.action);
    assert_eq!(back.protocol, rule.protocol);
    assert_eq!(back.port, rule.port);
    assert_eq!(back.source, rule.source);
    assert_eq!(back.destination, rule.destination);
    assert_eq!(back.interface, rule.interface);
}

#[test]
fn typing_moving_and_confirming() {
    let mut form = FormState::new_add();
    form.handle_input(&KeyInput::new(Key::Down));
    for c in ['4', '4', '3'] {
        form.handle_input(&KeyInput::new(Key::Char(c)));
    }
    assert_eq!(form.port, "443");
    form.handle_input(&KeyInput::new(Key::Backspace));
    assert_eq!(form.port, "44");
    let release = KeyInput { code: Key::Char('9'), modifiers: 0, kind: KeyKind::Release };
    form.handle_input(&release);
    assert_eq!(form.port, "44");
    form.handle_input(&KeyInput::new(Key::Tab));
    assert_eq!(form.current_field, 2);
    form.handle_input(&KeyInput::new(Key::Up));
    form.handle_input(&KeyInput::new(Key::Up));
    form.handle_input(&KeyInput::new(Key::Up));
    assert_eq!(form.current_field, 0);
    for _ in 0..8 {
        form.handle_input(&KeyInput::new(Key::Down));
    }
    assert_eq!(form.current_field, 5);
    form.handle_input(&KeyInput::new(Key::Enter));
    assert!(form.confirmed);
    form.handle_input(&KeyInput::new(Key::Esc));
    assert!(form.cancelled);
}

#[test]
fn delete_form_and_field_names() {
    let form = FormState::new_delete(7);
    assert_eq!(form.mode, FormMode::DeleteConfirm(7));
    assert!(form.is_active());
    assert_eq!(FormState::get_field_name(0), "Protocol");
    assert_eq!(FormState::get_field_name(5), "Action");
    assert_eq!(FormState::get_field_name(6), "");
    let mut form = FormState::new_add();
    assert!(form.get_field_mut(6).is_none());
}

#[test]
fn dialog_texts_and_placement() {
    assert_eq!(FormRenderer::modal_area(100, 40), (20, 10, 60, 20));
    assert_eq!(FormRenderer::modal_area(30, 10), (2, 2, 26, 6));
    assert_eq!(FormRenderer::title(FormMode::AddRule), "Add Firewall Rule");
    assert_eq!(FormRenderer::title(FormMode::EditRule(12)), "Edit Rule #12");
    assert_eq!(FormRenderer::title(FormMode::DeleteConfirm(3)), "Confirm Delete");
    assert_eq!(FormRenderer::delete_question(3), "Are you sure you want to delete rule #3?");
    assert_eq!(
        FormRenderer::field_texts("Port", "22"),
        ("Port: ".to_string(), "22_".to_string())
    );
    let mut form = FormState::new_add();
    assert_eq!(FormRenderer::status_line(&form), "Enter: Save  Esc: Cancel  \u{2191}/\u{2193}: Navigate");
    form.error_message = Some("bad".to_string());
    assert_eq!(FormRenderer::status_line(&form), "Error: bad");
}

#[test]
fn c_cancels_and_types_nothing() {
    let mut form = FormState::new_add();
    form.handle_input(&KeyInput::new(Key::Char('u')));
    form.handle_input(&KeyInput::new(Key::Char('c')));
    assert!(form.cancelled);
    assert_eq!(form.protocol, "tcpu");
    let mut other = FormState::new_add();
    other.handle_input(&KeyInput::new(Key::Char('C')));
    assert!(!other.cancelled);
    assert_eq!(other.protocol, "tcpC");
}
