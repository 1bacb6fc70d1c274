//! EasyFirewall: the verified core of a terminal firewall manager.
//!
//! The library holds the rules, parsers, forms, history log, traffic
//! statistics and the application state machine.  Process execution,
//! terminal handling and file I/O live in the application crate.
pub mod text;
pub mod firewall;
pub mod time;
pub mod history;
pub mod ranking;
pub mod monitor;
pub mod events;
pub mod forms;
pub mod app;
pub mod config;
pub mod export;
pub mod ui;
