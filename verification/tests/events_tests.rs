use easyfirewall::events::{AppEvent, EventError, EventHandler, Key, KeyInput, KeyKind};

#[test]
fn test_map_quit_key() {
    let handler = EventHandler::default();

    let key_q = KeyInput::new(Key::Char('q'));
    assert_eq!(handler.map_key_event(key_q), AppEvent::Quit);

    let key_upper_q = KeyInput::new(Key::Char('Q'));
    assert_eq!(handler.map_key_event(key_upper_q), AppEvent::Quit);
}

#[test]
fn test_map_navigation_keys() {
    let handler = EventHandler::default();

    let key_up = KeyInput::new(Key::Up);
    assert_eq!(handler.map_key_event(key_up), AppEvent::Up);

    let key_down = KeyInput::new(Key::Down);
    assert_eq!(handler.map_key_event(key_down), AppEvent::Down);

    let key_k = KeyInput::new(Key::Char('k'));
    assert_eq!(handler.map_key_event(key_k), AppEvent::Up);

    let key_j = KeyInput::new(Key::Char('j'));
    assert_eq!(handler.map_key_event(key_j), AppEvent::Down);
}

#[test]
fn test_map_refresh_key() {
    let handler = EventHandler::default();

    let key_r = KeyInput::new(Key::Char('r'));
    assert_eq!(handler.map_key_event(key_r), AppEvent::Refresh);

    let key_upper_r = KeyInput::new(Key::Char('R'));
    assert_eq!(handler.map_key_event(key_upper_r), AppEvent::Refresh);
}

#[test]
fn test_ignore_release_events() {
    let handler = EventHandler::default();

    let key_release = KeyInput { code: Key::Char('q'), modifiers: 0, kind: KeyKind::Release };

    assert_eq!(handler.map_key_event(key_release), AppEvent::Quit);
}

#[test]
fn release_gives_no_event_and_press_gives_one() {
    let handler = EventHandler::new(100);
    assert_eq!(handler.tick_rate_ms(), 100);
    let release = KeyInput { code: Key::Char('q'), modifiers: 0, kind: KeyKind::Release };
    assert_eq!(handler.event_for(release), None);
    let press = KeyInput::new(Key::Char('q'));
    assert_eq!(handler.event_for(press), Some(AppEvent::Quit));
    let repeat = KeyInput { code: Key::Down, modifiers: 0, kind: KeyKind::Repeat };
    assert_eq!(handler.event_for(repeat), Some(AppEvent::Down));
}

#[test]
fn documented_keys_map_to_their_events() {
    let handler = EventHandler::default();
    assert_eq!(handler.tick_rate_ms(), 250);
    let pairs = [
        ('a', AppEvent::AddRule),
        ('e', AppEvent::EditRule),
        ('d', AppEvent::DeleteRule),
        ('m', AppEvent::ToggleMonitoring),
        ('h', AppEvent::ToggleHistory),
        ('x', AppEvent::ExportRules),
        ('i', AppEvent::ImportRules),
        ('b', AppEvent::SwitchBackend),
        ('c', AppEvent::Cancel),
        ('z', AppEvent::Unknown),
    ];
    for (c, e) in pairs {
        assert_eq!(handler.map_key_event(KeyInput::new(Key::Char(c))), e);
    }
    assert_eq!(handler.map_key_event(KeyInput::new(Key::Esc)), AppEvent::Cancel);
    assert_eq!(handler.map_key_event(KeyInput::new(Key::Enter)), AppEvent::Enter);
    assert_eq!(handler.map_key_event(KeyInput::new(Key::Tab)), AppEvent::Unknown);
}

#[test]
fn letters_with_modifiers_are_unknown() {
    let handler = EventHandler::default();
    let ctrl_q = KeyInput { code: Key::Char('q'), modifiers: 2, kind: KeyKind::Press };
    assert_eq!(handler.map_key_event(ctrl_q), AppEvent::Unknown);
    let shift_up = KeyInput { code: Key::Up, modifiers: 1, kind: KeyKind::Press };
    assert_eq!(handler.map_key_event(shift_up), AppEvent::Up);
}

#[test]
fn event_error_message() {
    let e = EventError::IoError("broken pipe".to_string());
    assert_eq!(e.message(), "IO error: broken pipe");
}
