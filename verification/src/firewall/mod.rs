//! Firewall rules and the errors of the backends.
pub mod iptables;
pub mod nftables;

use vstd::prelude::*;
use vstd::string::*;
use crate::text::{clone_opt, concat2, opt_view, owned};

verus! {

/// One firewall rule as shown to the user.
#[derive(Debug)]
pub struct FirewallRule {
    pub id: usize,
    pub action: String,
    pub protocol: String,
    pub port: Option<String>,
    pub source: String,
    pub destination: String,
    pub interface: Option<String>,
    pub origin: RuleOrigin,
    pub packets: u64,
    pub bytes: u64,
}

/// Where a rule came from.
#[derive(Debug, Clone, Copy, PartialEq, Eq, Structural)]
pub enum RuleOrigin {
    System,
    EasyFirewall,
    External,
}

/// The mathematical content of a rule: its strings as character sequences.
pub struct RuleView {
    pub id: usize,
    pub action: Seq<char>,
    pub protocol: Seq<char>,
    pub port: Option<Seq<char>>,
    pub source: Seq<char>,
    pub destination: Seq<char>,
    pub interface: Option<Seq<char>>,
    pub origin: RuleOrigin,
    pub packets: u64,
    pub bytes: u64,
}

impl View for FirewallRule {
    type V = RuleView;

    open spec fn view(&self) -> RuleView {
        RuleView {
            id: self.id,
            action: self.action@,
            protocol: self.protocol@,
            port: opt_view(self.port),
            source: self.source@,
            destination: self.destination@,
            interface: opt_view(self.interface),
            origin: self.origin,
            packets: self.packets,
            bytes: self.bytes,
        }
    }
}

/// The views of a sequence of rules.
pub open spec fn rule_views(s: Seq<FirewallRule>) -> Seq<RuleView> {
    s.map_values(|r: FirewallRule| r@)
}

impl Clone for FirewallRule {
    fn clone(&self) -> (r: Self)
        ensures
            r@ == self@,
    {
        FirewallRule {
            id: self.id,
            action: self.action.clone(),
            protocol: self.protocol.clone(),
            port: clone_opt(&self.port),
            source: self.source.clone(),
            destination: self.destination.clone(),
            interface: clone_opt(&self.interface),
            origin: self.origin,
            packets: self.packets,
            bytes: self.bytes,
        }
    }
}

/// A copy of a list of rules.
pub fn clone_rules(rules: &[FirewallRule]) -> (r: Vec<FirewallRule>)
    ensures
        rule_views(r@) == rule_views(rules@),
{
    let mut r: Vec<FirewallRule> = Vec::new();
    let mut i: usize = 0;
    while i < rules.len()
        invariant
            i <= rules.len(),
            rule_views(r@) == rule_views(rules@).take(i as int),
        decreases rules.len() - i,
    {
        let ghost old_r = r@;
        r.push(rules[i].clone());
        assert(rule_views(r@) =~= rule_views(old_r).push(rules@[i as int]@));
        i = i + 1;
        assert(rule_views(r@) =~= rule_views(rules@).take(i as int));
    }
    assert(rule_views(rules@).take(rules.len() as int) =~= rule_views(rules@));
    r
}

/// The text of an origin: `system`, `easyfirewall` or `external`.
pub open spec fn origin_name(o: RuleOrigin) -> Seq<char> {
    match o {
        RuleOrigin::System => "system"@,
        RuleOrigin::EasyFirewall => "easyfirewall"@,
        RuleOrigin::External => "external"@,
    }
}

impl RuleOrigin {
    pub fn display_name(&self) -> (r: &'static str)
        ensures
            r@ == origin_name(*self),
    {
        match self {
            RuleOrigin::System => "system",
            RuleOrigin::EasyFirewall => "easyfirewall",
            RuleOrigin::External => "external",
        }
    }
}

/// The errors of the firewall backends.
#[derive(Debug)]
pub enum FirewallError {
    PermissionDenied,
    BackendNotAvailable(String),
    InvalidRule(String),
    CommandFailed(String),
    ParseError(String),
    IoError(String),
}

/// The message shown for an error.
pub open spec fn firewall_error_text(e: FirewallError) -> Seq<char> {
    match e {
        FirewallError::PermissionDenied => "Permission denied: root privileges required"@,
        FirewallError::BackendNotAvailable(s) => "Backend not available: "@ + s@,
        FirewallError::InvalidRule(s) => "Invalid rule: "@ + s@,
        FirewallError::CommandFailed(s) => "Failed to execute command: "@ + s@,
        FirewallError::ParseError(s) => "Parse error: "@ + s@,
        FirewallError::IoError(s) => "IO error: "@ + s@,
    }
}

impl FirewallError {
    /// The message of the error, as its `Display` shows it.
    pub fn message(&self) -> (r: String)
        ensures
            r@ == firewall_error_text(*self),
    {
        match self {
            FirewallError::PermissionDenied => owned("Permission denied: root privileges required"),
            FirewallError::BackendNotAvailable(s) => concat2("Backend not available: ", s.as_str()),
            FirewallError::InvalidRule(s) => concat2("Invalid rule: ", s.as_str()),
            FirewallError::CommandFailed(s) => concat2("Failed to execute command: ", s.as_str()),
            FirewallError::ParseError(s) => concat2("Parse error: ", s.as_str()),
            FirewallError::IoError(s) => concat2("IO error: ", s.as_str()),
        }
    }
}

/// The address that stands for "any host".
pub open spec fn any_address() -> Seq<char> {
    "0.0.0.0/0"@
}

} // verus!
