//! The settings of the application.
use vstd::prelude::*;
use vstd::string::*;
use crate::text::owned;

verus! {

/// The settings: backend, event tick, log file, export directory, and
/// whether changes are saved on their own.  Paths are kept as text.
#[derive(Debug, Clone)]
pub struct Config {
    pub backend: String,
    pub tick_rate_ms: u64,
    pub log_file: String,
    pub export_dir: String,
    pub auto_save: bool,
}

/// The settings used when nothing else is given: nftables, a 250 ms tick,
/// `/var/log/easyfirewall.log`, `~/.easyfirewall/exports`, no auto-save.
pub open spec fn is_default_config(c: Config) -> bool {
    &&& c.backend@ == "nftables"@
    &&& c.tick_rate_ms == 250
    &&& c.log_file@ == "/var/log/easyfirewall.log"@
    &&& c.export_dir@ == "~/.easyfirewall/exports"@
    &&& !c.auto_save
}

impl Default for Config {
    fn default() -> (r: Config)
        ensures
            is_default_config(r),
    {
        Config {
            backend: owned("nftables"),
            tick_rate_ms: 250,
            log_file: owned("/var/log/easyfirewall.log"),
            export_dir: owned("~/.easyfirewall/exports"),
            auto_save: false,
        }
    }
}

impl Config {
    /// The settings of this version: always the defaults.
    pub fn load() -> (r: Result<Config, String>)
        ensures
            r matches Ok(c) && is_default_config(c),
    {
        Ok(Config::default())
    }

    pub fn log_file(&self) -> (r: &String)
        ensures
            r@ == self.log_file@,
    {
        &self.log_file
    }

    pub fn export_dir(&self) -> (r: &String)
        ensures
            r@ == self.export_dir@,
    {
        &self.export_dir
    }
}

} // verus!
