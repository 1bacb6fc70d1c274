//! Keyboard events and the application events they stand for.
use vstd::prelude::*;
use crate::text::concat2;

verus! {

/// A failure while waiting for a key: the terminal could not be read.
/// The error's text is kept.
#[derive(Debug)]
pub enum EventError {
    IoError(String),
}

/// The message of an event error.
pub open spec fn event_error_text(e: EventError) -> Seq<char> {
    match e {
        EventError::IoError(m) => "IO error: "@ + m@,
    }
}

impl EventError {
    pub fn message(&self) -> (r: String)
        ensures
            r@ == event_error_text(*self),
    {
        match self {
            EventError::IoError(m) => concat2("IO error: ", m.as_str()),
        }
    }
}

/// What the user asked for.
#[derive(Debug, Clone, Copy, PartialEq, Eq, Structural)]
pub enum AppEvent {
    Quit,
    Up,
    Down,
    Enter,
    Refresh,
    AddRule,
    EditRule,
    DeleteRule,
    Cancel,
    ToggleMonitoring,
    ToggleHistory,
    ExportRules,
    ImportRules,
    SwitchBackend,
    Unknown,
}

/// A key of the keyboard, as the terminal reports it.
#[derive(Debug, Clone, Copy, PartialEq, Eq, Structural)]
pub enum Key {
    Char(char),
    Up,
    Down,
    Left,
    Right,
    Enter,
    Esc,
    Backspace,
    Tab,
    Other,
}

/// Whether the key went down, repeats, or was released.
#[derive(Debug, Clone, Copy, PartialEq, Eq, Structural)]
pub enum KeyKind {
    Press,
    Repeat,
    Release,
}

/// A key event: the key, the modifier bits held with it (shift 1,
/// control 2, alt 4, super 8, hyper 16, meta 32) and its kind.
#[derive(Debug, Clone, Copy, PartialEq, Eq, Structural)]
pub struct KeyInput {
    pub code: Key,
    pub modifiers: u8,
    pub kind: KeyKind,
}

impl KeyInput {
    /// A key press without modifiers.
    pub fn new(code: Key) -> (r: KeyInput)
        ensures
            r == (KeyInput { code, modifiers: 0, kind: KeyKind::Press }),
    {
        KeyInput { code, modifiers: 0, kind: KeyKind::Press }
    }
}

/// The event a key stands for.  Letters only count without modifiers;
/// arrows, Enter and Esc count with any.
pub open spec fn key_event(key: KeyInput) -> AppEvent {
    let plain = key.modifiers == 0;
    match key.code {
        Key::Char(c) => if !plain {
            AppEvent::Unknown
        } else if c == 'q' || c == 'Q' {
            AppEvent::Quit
        } else if c == 'k' {
            AppEvent::Up
        } else if c == 'j' {
            AppEvent::Down
        } else if c == 'r' || c == 'R' {
            AppEvent::Refresh
        } else if c == 'a' {
            AppEvent::AddRule
        } else if c == 'e' {
            AppEvent::EditRule
        } else if c == 'd' {
            AppEvent::DeleteRule
        } else if c == 'c' {
            AppEvent::Cancel
        } else if c == 'm' {
            AppEvent::ToggleMonitoring
        } else if c == 'h' {
            AppEvent::ToggleHistory
        } else if c == 'x' {
            AppEvent::ExportRules
        } else if c == 'i' {
            AppEvent::ImportRules
        } else if c == 'b' {
            AppEvent::SwitchBackend
        } else {
            AppEvent::Unknown
        },
        Key::Up => AppEvent::Up,
        Key::Down => AppEvent::Down,
        Key::Enter => AppEvent::Enter,
        Key::Esc => AppEvent::Cancel,
        _ => AppEvent::Unknown,
    }
}

/// Turns key events into application events.
pub struct EventHandler {
    tick_rate_ms: u64,
}

impl EventHandler {
    /// The polling interval in milliseconds.
    pub closed spec fn tick_rate_view(&self) -> u64 {
        self.tick_rate_ms
    }

    pub fn new(tick_rate_ms: u64) -> (r: Self)
        ensures
            r.tick_rate_view() == tick_rate_ms,
    {
        EventHandler { tick_rate_ms }
    }

    /// A handler that polls every 250 ms.
    pub fn default() -> (r: Self)
        ensures
            r.tick_rate_view() == 250,
    {
        Self::new(250)
    }

    pub fn tick_rate_ms(&self) -> (r: u64)
        ensures
            r == self.tick_rate_view(),
    {
        self.tick_rate_ms
    }

    /// The event a key stands for.
    pub fn map_key_event(&self, key: KeyInput) -> (r: AppEvent)
        ensures
            r == key_event(key),
    {
        let plain = key.modifiers == 0;
        match key.code {
            Key::Char(c) => {
                if !plain {
                    AppEvent::Unknown
                } else if c == 'q' || c == 'Q' {
                    AppEvent::Quit
                } else if c == 'k' {
                    AppEvent::Up
                } else if c == 'j' {
                    AppEvent::Down
                } else if c == 'r' || c == 'R' {
                    AppEvent::Refresh
                } else if c == 'a' {
                    AppEvent::AddRule
                } else if c == 'e' {
                    AppEvent::EditRule
                } else if c == 'd' {
                    AppEvent::DeleteRule
                } else if c == 'c' {
                    AppEvent::Cancel
                } else if c == 'm' {
                    AppEvent::ToggleMonitoring
                } else if c == 'h' {
                    AppEvent::ToggleHistory
                } else if c == 'x' {
                    AppEvent::ExportRules
                } else if c == 'i' {
                    AppEvent::ImportRules
                } else if c == 'b' {
                    AppEvent::SwitchBackend
                } else {
                    AppEvent::Unknown
                }
            },
            Key::Up => AppEvent::Up,
            Key::Down => AppEvent::Down,
            Key::Enter => AppEvent::Enter,
            Key::Esc => AppEvent::Cancel,
            _ => AppEvent::Unknown,
        }
    }

    /// What a polled key gives: nothing for a release (so that one press is
    /// one event), the mapped event otherwise.
    pub fn event_for(&self, key: KeyInput) -> (r: Option<AppEvent>)
        ensures
            key.kind == KeyKind::Release ==> r is None,
            key.kind != KeyKind::Release ==> r == Some(key_event(key)),
    {
        match key.kind {
            KeyKind::Release => None,
            _ => Some(self.map_key_event(key)),
        }
    }
}

} // verus!
