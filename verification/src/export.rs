//! Exported rule sets: what goes into an export file and what an imported
//! rule becomes.  Reading, writing and the JSON or YAML text are the
//! caller's.
use vstd::prelude::*;
use vstd::string::*;
use crate::firewall::{FirewallRule, RuleOrigin, RuleView};
use crate::text::{chars_of, clone_opt, eq_lit, lower_text, opt_view, owned, to_lowercase};
use crate::time::{utc_rfc3339, utc_valid, Timestamp};

verus! {

/// A rule as written to an export file.
#[derive(Debug, Clone)]
pub struct ExportedRule {
    pub id: usize,
    pub action: String,
    pub protocol: String,
    pub port: Option<String>,
    pub source: String,
    pub destination: String,
    pub interface: Option<String>,
    pub description: Option<String>,
    pub created_at: String,
}

/// An export file: format version, backend, rules and the time of export.
#[derive(Debug, Clone)]
pub struct ExportedConfig {
    pub version: String,
    pub backend: String,
    pub rules: Vec<ExportedRule>,
    pub exported_at: String,
}

/// The two file formats.
#[derive(Debug, Clone, Copy, PartialEq, Eq, Structural)]
pub enum ExportFormat {
    Json,
    Yaml,
}

/// The format named by a lower-case extension.
pub open spec fn format_named(ext: Seq<char>) -> Option<ExportFormat> {
    if ext == "json"@ {
        Some(ExportFormat::Json)
    } else if ext == "yaml"@ || ext == "yml"@ {
        Some(ExportFormat::Yaml)
    } else {
        None
    }
}

/// The format used for a file with the given extension: the named one,
/// JSON otherwise and when there is no extension.
pub open spec fn format_for(ext: Option<Seq<char>>) -> ExportFormat {
    match ext {
        Some(e) => match format_named(lower_text(e)) {
            Some(f) => f,
            None => ExportFormat::Json,
        },
        None => ExportFormat::Json,
    }
}

/// A time stamp in RFC 3339 form of an instant that chrono represents.
pub open spec fn is_stamp(s: Seq<char>) -> bool {
    exists|secs: i64, nanos: u32|
        #![trigger utc_rfc3339(secs, nanos)]
        utc_valid(secs, nanos) && s == utc_rfc3339(secs, nanos)
}

/// `e` carries the fields of rule `r`, with no description.
pub open spec fn exports(r: RuleView, e: ExportedRule) -> bool {
    &&& e.id == r.id
    &&& e.action@ == r.action
    &&& e.protocol@ == r.protocol
    &&& opt_view(e.port) == r.port
    &&& e.source@ == r.source
    &&& e.destination@ == r.destination
    &&& opt_view(e.interface) == r.interface
    &&& e.description is None
}

/// The rule that importing `e` adds, numbered `id`: its fields, made by
/// this application, with no counters.
pub open spec fn imported(e: ExportedRule, id: usize) -> RuleView {
    RuleView {
        id,
        action: e.action@,
        protocol: e.protocol@,
        port: opt_view(e.port),
        source: e.source@,
        destination: e.destination@,
        interface: opt_view(e.interface),
        origin: RuleOrigin::EasyFirewall,
        packets: 0,
        bytes: 0,
    }
}

impl ExportFormat {
    /// The format named by a file extension, in any case: `json`, or
    /// `yaml` and `yml`.
    pub fn from_extension(ext: &str) -> (r: Option<ExportFormat>)
        ensures
            r == format_named(lower_text(ext@)),
    {
        let lower = to_lowercase(ext);
        let v = chars_of(lower.as_str());
        if eq_lit(&v, "json") {
            Some(ExportFormat::Json)
        } else if eq_lit(&v, "yaml") || eq_lit(&v, "yml") {
            Some(ExportFormat::Yaml)
        } else {
            None
        }
    }

    /// The format for a file with the given extension (none when the path
    /// has none): JSON unless the extension names YAML.
    pub fn for_extension(ext: Option<&str>) -> (r: ExportFormat)
        ensures
            r == format_for(
                match ext {
                    Some(e) => Some(e@),
                    None => None,
                },
            ),
    {
        match ext {
            Some(e) => match ExportFormat::from_extension(e) {
                Some(f) => f,
                None => ExportFormat::Json,
            },
            None => ExportFormat::Json,
        }
    }
}

impl ExportedRule {
    /// The exported form of a rule, stamped with the current time.
    pub fn from(rule: FirewallRule) -> (r: ExportedRule)
        ensures
            exports(rule@, r),
            is_stamp(r.created_at@),
    {
        let now = Timestamp::now();
        let created_at = now.to_rfc3339();
        ExportedRule {
            id: rule.id,
            action: rule.action,
            protocol: rule.protocol,
            port: rule.port,
            source: rule.source,
            destination: rule.destination,
            interface: rule.interface,
            description: None,
            created_at,
        }
    }
}

/// What export files are made from and what imports become.
pub struct RuleExporter;

impl RuleExporter {
    /// The export of the given rules of a backend: format version `1.0.0`,
    /// each rule exported in order, stamped with the current time.
    pub fn export_config(rules: &[FirewallRule], backend: &str) -> (r: ExportedConfig)
        ensures
            r.version@ == "1.0.0"@,
            r.backend@ == backend@,
            r.rules@.len() == rules@.len(),
            forall|i: int|
                0 <= i < rules@.len() ==> #[trigger] exports(rules@[i]@, r.rules@[i])
                    && is_stamp(r.rules@[i].created_at@),
            is_stamp(r.exported_at@),
    {
        let mut out: Vec<ExportedRule> = Vec::new();
        let mut i: usize = 0;
        while i < rules.len()
            invariant
                i <= rules@.len(),
                out@.len() == i,
                forall|j: int|
                    0 <= j < i ==> #[trigger] exports(rules@[j]@, out@[j]) && is_stamp(
                        out@[j].created_at@,
                    ),
            decreases rules@.len() - i,
        {
            let e = ExportedRule::from(rules[i].clone());
            out.push(e);
            i = i + 1;
        }
        let now = Timestamp::now();
        ExportedConfig {
            version: owned("1.0.0"),
            backend: owned(backend),
            rules: out,
            exported_at: now.to_rfc3339(),
        }
    }

    /// The rules that importing asks the backend to add, in order: each is
    /// numbered after the `listed` rules.
    pub fn imported_rules(exported: &[ExportedRule], listed: usize) -> (r: Vec<FirewallRule>)
        requires
            listed < usize::MAX,
        ensures
            r@.len() == exported@.len(),
            forall|i: int|
                0 <= i < r@.len() ==> (#[trigger] r@[i])@ == imported(
                    exported@[i],
                    (listed + 1) as usize,
                ),
    {
        let mut out: Vec<FirewallRule> = Vec::new();
        let mut i: usize = 0;
        while i < exported.len()
            invariant
                i <= exported@.len(),
                listed < usize::MAX,
                out@.len() == i,
                forall|j: int|
                    0 <= j < i ==> (#[trigger] out@[j])@ == imported(
                        exported@[j],
                        (listed + 1) as usize,
                    ),
            decreases exported@.len() - i,
        {
            out.push(RuleExporter::imported_rule(&exported[i], listed + 1));
            i = i + 1;
        }
        out
    }

    /// The rule that importing `exported` adds, numbered `id`.
    pub fn imported_rule(exported: &ExportedRule, id: usize) -> (r: FirewallRule)
        ensures
            r@ == imported(*exported, id),
    {
        FirewallRule {
            id,
            action: exported.action.clone(),
            protocol: exported.protocol.clone(),
            port: clone_opt(&exported.port),
            source: exported.source.clone(),
            destination: exported.destination.clone(),
            interface: clone_opt(&exported.interface),
            origin: RuleOrigin::EasyFirewall,
            packets: 0,
            bytes: 0,
        }
    }
}

/// Law: importing an exported rule gives back its action, protocol, port,
/// source, destination and interface; the imported rule takes the number
/// it is given, this application as its origin, and zero counters.
pub proof fn lemma_import_restores_export(r: RuleView, e: ExportedRule, id: usize)
    requires
        exports(r, e),
    ensures
        imported(e, id) == (RuleView {
            id,
            origin: RuleOrigin::EasyFirewall,
            packets: 0,
            bytes: 0,
            ..r
        }),
{
}

} // verus!
