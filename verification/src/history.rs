//! The history of operations: a bounded log that forgets its oldest
//! entries first.
use std::collections::VecDeque;
use vstd::prelude::*;
use vstd::string::*;
use crate::text::{concat2, decimal, decimal_usize, owned, push_char, str_eq};
use crate::time::{log_pattern, utc_format, Timestamp};

verus! {

/// One recorded operation.
#[derive(Debug, Clone, PartialEq, Eq)]
pub enum HistoryAction {
    RuleAdded { id: usize, port: String },
    RuleDeleted { id: usize, port: String },
    RuleEdited { id: usize, port: String },
    FirewallEnabled,
    FirewallDisabled,
    FirewallReloaded,
    BulkImport { count: usize },
    BulkExport { count: usize },
    Error { message: String },
}

/// The human-readable description of an operation.
pub open spec fn display_text(a: HistoryAction) -> Seq<char> {
    match a {
        HistoryAction::RuleAdded { id, port } => "Rule added: #"@ + decimal(id as nat)
            + " port "@ + port@,
        HistoryAction::RuleDeleted { id, port } => "Rule deleted: #"@ + decimal(id as nat)
            + " port "@ + port@,
        HistoryAction::RuleEdited { id, port } => "Rule edited: #"@ + decimal(id as nat)
            + " port "@ + port@,
        HistoryAction::FirewallEnabled => "Firewall enabled"@,
        HistoryAction::FirewallDisabled => "Firewall disabled"@,
        HistoryAction::FirewallReloaded => "Firewall reloaded"@,
        HistoryAction::BulkImport { count } => "Bulk import: "@ + decimal(count as nat)
            + " rules"@,
        HistoryAction::BulkExport { count } => "Bulk export: "@ + decimal(count as nat)
            + " rules"@,
        HistoryAction::Error { message } => "Error: "@ + message@,
    }
}

/// The short type tag of an operation.
pub open spec fn action_type_text(a: HistoryAction) -> Seq<char> {
    match a {
        HistoryAction::RuleAdded { .. } => "ADD"@,
        HistoryAction::RuleDeleted { .. } => "DELETE"@,
        HistoryAction::RuleEdited { .. } => "EDIT"@,
        HistoryAction::FirewallEnabled => "ENABLE"@,
        HistoryAction::FirewallDisabled => "DISABLE"@,
        HistoryAction::FirewallReloaded => "RELOAD"@,
        HistoryAction::BulkImport { .. } => "IMPORT"@,
        HistoryAction::BulkExport { .. } => "EXPORT"@,
        HistoryAction::Error { .. } => "ERROR"@,
    }
}

/// The severity of an operation: errors are ERROR, deletions WARNING,
/// everything else INFO.
pub open spec fn severity_text(a: HistoryAction) -> Seq<char> {
    match a {
        HistoryAction::Error { .. } => "ERROR"@,
        HistoryAction::RuleDeleted { .. } => "WARNING"@,
        _ => "INFO"@,
    }
}

fn rule_text(prefix: &str, id: usize, port: &String) -> (r: String)
    ensures
        r@ == prefix@ + decimal(id as nat) + " port "@ + port@,
{
    let mut r = owned(prefix);
    let n = decimal_usize(id);
    r.append(n.as_str());
    r.append(" port ");
    r.append(port.as_str());
    r
}

fn count_text(prefix: &str, count: usize) -> (r: String)
    ensures
        r@ == prefix@ + decimal(count as nat) + " rules"@,
{
    let mut r = owned(prefix);
    let n = decimal_usize(count);
    r.append(n.as_str());
    r.append(" rules");
    r
}

impl HistoryAction {
    pub fn display_name(&self) -> (r: String)
        ensures
            r@ == display_text(*self),
    {
        match self {
            HistoryAction::RuleAdded { id, port } => rule_text("Rule added: #", *id, port),
            HistoryAction::RuleDeleted { id, port } => rule_text("Rule deleted: #", *id, port),
            HistoryAction::RuleEdited { id, port } => rule_text("Rule edited: #", *id, port),
            HistoryAction::FirewallEnabled => owned("Firewall enabled"),
            HistoryAction::FirewallDisabled => owned("Firewall disabled"),
            HistoryAction::FirewallReloaded => owned("Firewall reloaded"),
            HistoryAction::BulkImport { count } => count_text("Bulk import: ", *count),
            HistoryAction::BulkExport { count } => count_text("Bulk export: ", *count),
            HistoryAction::Error { message } => concat2("Error: ", message.as_str()),
        }
    }

    pub fn action_type(&self) -> (r: &'static str)
        ensures
            r@ == action_type_text(*self),
    {
        match self {
            HistoryAction::RuleAdded { .. } => "ADD",
            HistoryAction::RuleDeleted { .. } => "DELETE",
            HistoryAction::RuleEdited { .. } => "EDIT",
            HistoryAction::FirewallEnabled => "ENABLE",
            HistoryAction::FirewallDisabled => "DISABLE",
            HistoryAction::FirewallReloaded => "RELOAD",
            HistoryAction::BulkImport { .. } => "IMPORT",
            HistoryAction::BulkExport { .. } => "EXPORT",
            HistoryAction::Error { .. } => "ERROR",
        }
    }

    pub fn severity(&self) -> (r: &'static str)
        ensures
            r@ == severity_text(*self),
    {
        match self {
            HistoryAction::Error { .. } => "ERROR",
            HistoryAction::RuleDeleted { .. } => "WARNING",
            _ => "INFO",
        }
    }
}

/// An operation with the instant it was recorded.
#[derive(Debug, Clone)]
pub struct HistoryEntry {
    pub timestamp: Timestamp,
    pub action: HistoryAction,
}

impl HistoryEntry {
    /// An entry for `action`, stamped with the current time.
    pub fn new(action: HistoryAction) -> (r: Self)
        ensures
            r.action == action,
    {
        HistoryEntry { timestamp: Timestamp::now(), action }
    }
}

/// The actions of a sequence of entries.
pub open spec fn actions(s: Seq<HistoryEntry>) -> Seq<HistoryAction> {
    s.map_values(|e: HistoryEntry| e.action)
}

/// The entries of a given type, in order.
pub open spec fn of_type(s: Seq<HistoryEntry>, t: Seq<char>) -> Seq<HistoryEntry> {
    s.filter(|e: HistoryEntry| action_type_text(e.action) == t)
}

/// The entries of a given severity, in order.
pub open spec fn of_severity(s: Seq<HistoryEntry>, t: Seq<char>) -> Seq<HistoryEntry> {
    s.filter(|e: HistoryEntry| severity_text(e.action) == t)
}

/// What the log holds after one more entry: the entry is appended and, when
/// that exceeds the bound, the oldest entry is dropped.
pub open spec fn appended(s: Seq<HistoryEntry>, e: HistoryEntry, max: usize) -> Seq<
    HistoryEntry,
> {
    if s.len() + 1 > max {
        s.push(e).drop_first()
    } else {
        s.push(e)
    }
}

/// The last `max` entries of `s` (all of them when there are fewer).
pub open spec fn newest(s: Seq<HistoryEntry>, max: int) -> Seq<HistoryEntry> {
    if s.len() > max {
        s.skip(s.len() - max)
    } else {
        s
    }
}

/// One line of the text export.
pub open spec fn entry_line(e: HistoryEntry) -> Seq<char> {
    utc_format(e.timestamp.secs(), e.timestamp.nanos(), log_pattern()) + " | "@ + severity_text(
        e.action,
    ) + " | "@ + display_text(e.action) + seq!['\n']
}

/// The lines of the text export, oldest first.
pub open spec fn entry_lines(s: Seq<HistoryEntry>) -> Seq<char>
    decreases s.len(),
{
    if s.len() == 0 {
        Seq::empty()
    } else {
        entry_lines(s.drop_last()) + entry_line(s.last())
    }
}

/// The title of the text export.
pub open spec fn export_header() -> Seq<char> {
    "EasyFirewall History Log\n"@ + Seq::new(40, |i: int| '=') + seq!['\n']
}

/// The bounded operation log.
#[derive(Debug)]
pub struct HistoryLog {
    entries: VecDeque<HistoryEntry>,
    max_entries: usize,
    persistent: bool,
    log_file: Option<String>,
}

impl HistoryLog {
    #[verifier::type_invariant]
    spec fn bounded(self) -> bool {
        self.entries@.len() <= self.max_entries
    }

    /// The entries, oldest first.
    pub closed spec fn entries_view(self) -> Seq<HistoryEntry> {
        self.entries@
    }

    /// The most entries the log keeps.
    pub closed spec fn max_view(self) -> usize {
        self.max_entries
    }

    /// Whether each change is also written to the log file.
    pub closed spec fn persistent_view(self) -> bool {
        self.persistent
    }

    /// The file the log is written to, if any.
    pub closed spec fn log_file_view(self) -> Option<String> {
        self.log_file
    }

    pub fn new(max_entries: usize, persistent: bool, log_file: Option<String>) -> (r: Self)
        ensures
            r.entries_view() == Seq::<HistoryEntry>::empty(),
            r.max_view() == max_entries,
            r.persistent_view() == persistent,
            r.log_file_view() == log_file,
    {
        HistoryLog { entries: VecDeque::with_capacity(max_entries), max_entries, persistent, log_file }
    }

    /// A log of 100 entries, kept in memory only.
    pub fn default() -> (r: Self)
        ensures
            r.entries_view() == Seq::<HistoryEntry>::empty(),
            r.max_view() == 100,
            !r.persistent_view(),
            r.log_file_view() is None,
    {
        Self::new(100, false, None)
    }

    /// Records `action`, stamped with the current time; the oldest entry is
    /// dropped when the log would exceed its bound.  Writing the log to its
    /// file (when it is persistent) is the caller's part.
    pub fn add(&mut self, action: HistoryAction)
        ensures
            exists|e: HistoryEntry|
                #![trigger appended(old(self).entries_view(), e, old(self).max_view())]
                e.action == action && final(self).entries_view() == appended(
                    old(self).entries_view(),
                    e,
                    old(self).max_view(),
                ),
            final(self).entries_view().len() <= final(self).max_view(),
            final(self).max_view() == old(self).max_view(),
            final(self).persistent_view() == old(self).persistent_view(),
            final(self).log_file_view() == old(self).log_file_view(),
    {
        proof {
            use_type_invariant(&*self);
        }
        let entry = HistoryEntry::new(action);
        let ghost e = entry;
        let ghost before = self.entries@;
        let mut entries: VecDeque<HistoryEntry> = VecDeque::new();
        std::mem::swap(&mut entries, &mut self.entries);
        entries.push_back(entry);
        if entries.len() > self.max_entries {
            let _ = entries.pop_front();
            assert(entries@ =~= before.push(e).drop_first());
        }
        assert(entries@ == appended(before, e, self.max_entries));
        self.entries = entries;
        assert(self.entries_view() == appended(before, e, self.max_view()));
        assert(e.action == action);
        assert(before == old(self).entries_view());
        assert(self.max_view() == old(self).max_view());
        assert(self.entries_view() == appended(old(self).entries_view(), e, old(self).max_view()));
        proof {
            use_type_invariant(&*self);
        }
    }

    /// Replaces the entries with ones read back from the log file, keeping
    /// the newest as many as the log holds.
    pub fn restore(&mut self, loaded: Vec<HistoryEntry>)
        ensures
            final(self).entries_view() == newest(loaded@, old(self).max_view() as int),
            final(self).max_view() == old(self).max_view(),
            final(self).persistent_view() == old(self).persistent_view(),
            final(self).log_file_view() == old(self).log_file_view(),
    {
        let ghost all = loaded@;
        let mut rest = loaded;
        let mut kept: VecDeque<HistoryEntry> = VecDeque::new();
        let mut k: usize = 0;
        while k < self.max_entries && rest.len() > 0
            invariant
                k <= self.max_entries,
                k <= all.len(),
                rest@ == all.take(all.len() - k),
                kept@ == all.subrange(all.len() - k, all.len() as int),
            decreases rest@.len(),
        {
            let e = rest.pop().unwrap();
            let ghost before = kept@;
            kept.push_front(e);
            k = k + 1;
            assert(kept@ =~= all.subrange(all.len() - k, all.len() as int));
            assert(rest@ =~= all.take(all.len() - k));
        }
        assert(kept@ =~= newest(all, self.max_entries as int));
        self.entries = kept;
    }

    pub fn entries(&self) -> (r: &VecDeque<HistoryEntry>)
        ensures
            r@ == self.entries_view(),
    {
        &self.entries
    }

    pub fn entries_ref(&self) -> (r: &VecDeque<HistoryEntry>)
        ensures
            r@ == self.entries_view(),
    {
        &self.entries
    }

    /// The `count` most recent entries, newest first.
    pub fn recent(&self, count: usize) -> (r: Vec<&HistoryEntry>)
        ensures
            r@.len() == if count < self.entries_view().len() {
                count as int
            } else {
                self.entries_view().len() as int
            },
            forall|k: int|
                0 <= k < r@.len() ==> *#[trigger] r@[k] == self.entries_view()[self.entries_view().len()
                    - 1 - k],
    {
        let n = self.entries.len();
        let mut r: Vec<&HistoryEntry> = Vec::new();
        let mut k: usize = 0;
        while k < count && k < n
            invariant
                n == self.entries@.len(),
                k <= n,
                k <= count,
                r@.len() == k,
                forall|j: int| 0 <= j < k ==> *#[trigger] r@[j] == self.entries@[n - 1 - j],
            decreases n - k,
        {
            r.push(&self.entries[n - 1 - k]);
            k = k + 1;
        }
        r
    }

    pub fn len(&self) -> (r: usize)
        ensures
            r == self.entries_view().len(),
            r <= self.max_view(),
    {
        proof {
            use_type_invariant(self);
        }
        self.entries.len()
    }

    pub fn is_empty(&self) -> (r: bool)
        ensures
            r == (self.entries_view().len() == 0),
    {
        self.entries.len() == 0
    }

    pub fn is_persistent(&self) -> (r: bool)
        ensures
            r == self.persistent_view(),
    {
        self.persistent
    }

    pub fn log_file(&self) -> (r: &Option<String>)
        ensures
            *r == self.log_file_view(),
    {
        &self.log_file
    }

    /// Forgets every entry.  Writing the emptied log to its file (when it is
    /// persistent) is the caller's part.
    pub fn clear(&mut self)
        ensures
            final(self).entries_view() == Seq::<HistoryEntry>::empty(),
            final(self).max_view() == old(self).max_view(),
            final(self).persistent_view() == old(self).persistent_view(),
            final(self).log_file_view() == old(self).log_file_view(),
    {
        let mut entries: VecDeque<HistoryEntry> = VecDeque::new();
        std::mem::swap(&mut entries, &mut self.entries);
        entries.clear();
        self.entries = entries;
    }

    /// The entries whose action has the given type tag, oldest first.
    pub fn find_by_action_type(&self, action_type: &str) -> (r: Vec<&HistoryEntry>)
        ensures
            r@.map_values(|e: &HistoryEntry| *e) == of_type(self.entries_view(), action_type@),
    {
        let n = self.entries.len();
        let mut r: Vec<&HistoryEntry> = Vec::new();
        let mut i: usize = 0;
        let ghost s = self.entries@;
        let ghost p = |e: HistoryEntry| action_type_text(e.action) == action_type@;
        assert(s.take(0) =~= Seq::<HistoryEntry>::empty());
        proof {
            reveal_with_fuel(Seq::<_>::filter, 1);
        }
        while i < n
            invariant
                n == s.len(),
                s == self.entries@,
                p == (|e: HistoryEntry| action_type_text(e.action) == action_type@),
                i <= n,
                r@.map_values(|e: &HistoryEntry| *e) == s.take(i as int).filter(p),
            decreases n - i,
        {
            let e = &self.entries[i];
            let ghost before = r@;
            proof {
                reveal_with_fuel(Seq::<_>::filter, 1);
                assert(s.take(i + 1).drop_last() =~= s.take(i as int));
                assert(s.take(i + 1).last() == s[i as int]);
            }
            if str_eq(e.action.action_type(), action_type) {
                r.push(e);
                assert(r@.map_values(|e: &HistoryEntry| *e) =~= before.map_values(
                    |e: &HistoryEntry| *e,
                ).push(*e));
            }
            i = i + 1;
        }
        assert(s.take(n as int) =~= s);
        r
    }

    /// The entries of the given severity, oldest first.
    pub fn find_by_severity(&self, severity: &str) -> (r: Vec<&HistoryEntry>)
        ensures
            r@.map_values(|e: &HistoryEntry| *e) == of_severity(self.entries_view(), severity@),
    {
        let n = self.entries.len();
        let mut r: Vec<&HistoryEntry> = Vec::new();
        let mut i: usize = 0;
        let ghost s = self.entries@;
        let ghost p = |e: HistoryEntry| severity_text(e.action) == severity@;
        assert(s.take(0) =~= Seq::<HistoryEntry>::empty());
        proof {
            reveal_with_fuel(Seq::<_>::filter, 1);
        }
        while i < n
            invariant
                n == s.len(),
                s == self.entries@,
                p == (|e: HistoryEntry| severity_text(e.action) == severity@),
                i <= n,
                r@.map_values(|e: &HistoryEntry| *e) == s.take(i as int).filter(p),
            decreases n - i,
        {
            let e = &self.entries[i];
            let ghost before = r@;
            proof {
                reveal_with_fuel(Seq::<_>::filter, 1);
                assert(s.take(i + 1).drop_last() =~= s.take(i as int));
                assert(s.take(i + 1).last() == s[i as int]);
            }
            if str_eq(e.action.severity(), severity) {
                r.push(e);
                assert(r@.map_values(|e: &HistoryEntry| *e) =~= before.map_values(
                    |e: &HistoryEntry| *e,
                ).push(*e));
            }
            i = i + 1;
        }
        assert(s.take(n as int) =~= s);
        r
    }

    /// The log as plain text: a title, a rule of `=`, then one line per
    /// entry, `time | severity | description`.
    pub fn format_as_text(&self) -> (r: String)
        ensures
            r@ == export_header() + entry_lines(self.entries_view()),
    {
        let mut output = owned("EasyFirewall History Log\n");
        let mut k: usize = 0;
        while k < 40
            invariant
                k <= 40,
                output@ == "EasyFirewall History Log\n"@ + Seq::new(k as nat, |i: int| '='),
            decreases 40 - k,
        {
            push_char(&mut output, '=');
            k = k + 1;
            assert(output@ =~= "EasyFirewall History Log\n"@ + Seq::new(k as nat, |i: int| '='));
        }
        push_char(&mut output, '\n');
        assert(output@ =~= export_header());
        let n = self.entries.len();
        let ghost s = self.entries@;
        let mut i: usize = 0;
        assert(s.take(0) =~= Seq::<HistoryEntry>::empty());
        while i < n
            invariant
                n == s.len(),
                s == self.entries@,
                i <= n,
                output@ == export_header() + entry_lines(s.take(i as int)),
            decreases n - i,
        {
            let e = &self.entries[i];
            let stamp = e.timestamp.log_text();
            output.append(stamp.as_str());
            output.append(" | ");
            output.append(e.action.severity());
            output.append(" | ");
            let d = e.action.display_name();
            output.append(d.as_str());
            push_char(&mut output, '\n');
            assert(s.take(i + 1).drop_last() =~= s.take(i as int));
            assert(s.take(i + 1).last() == s[i as int]);
            assert(output@ =~= export_header() + entry_lines(s.take(i + 1)));
            i = i + 1;
        }
        assert(s.take(n as int) =~= s);
        output
    }
}

/// Law: each entry has exactly one severity, so the INFO, WARNING and
/// ERROR entries together are the whole log.
pub proof fn lemma_severities_partition(s: Seq<HistoryEntry>)
    ensures
        of_severity(s, "INFO"@).len() + of_severity(s, "WARNING"@).len() + of_severity(
            s,
            "ERROR"@,
        ).len() == s.len(),
    decreases s.len(),
{
    reveal_with_fuel(Seq::<_>::filter, 1);
    if s.len() > 0 {
        lemma_severities_partition(s.drop_last());
        let a = s.last().action;
        assert("INFO"@ != "WARNING"@) by {
            reveal_strlit("INFO");
            reveal_strlit("WARNING");
            assert("INFO"@.len() != "WARNING"@.len());
        }
        assert("INFO"@ != "ERROR"@) by {
            reveal_strlit("INFO");
            reveal_strlit("ERROR");
            assert("INFO"@.len() != "ERROR"@.len());
        }
        assert("WARNING"@ != "ERROR"@) by {
            reveal_strlit("WARNING");
            reveal_strlit("ERROR");
            assert("WARNING"@.len() != "ERROR"@.len());
        }
    }
}

/// Law: after any sequence of additions the log holds the most recent
/// `max` actions, in order: adding to a log that holds the last `max` of
/// some history yields the last `max` of that history extended.
pub proof fn lemma_keeps_most_recent(
    history: Seq<HistoryEntry>,
    s: Seq<HistoryEntry>,
    e: HistoryEntry,
    max: usize,
)
    requires
        s == history.skip(history.len() - s.len()),
        s.len() == if history.len() < max {
            history.len() as int
        } else {
            max as int
        },
    ensures
        appended(s, e, max) == history.push(e).skip(
            history.push(e).len() - appended(s, e, max).len(),
        ),
        appended(s, e, max).len() == if history.len() + 1 < max {
            (history.len() + 1) as int
        } else {
            max as int
        },
{
    let h2 = history.push(e);
    let r = appended(s, e, max);
    assert(r =~= h2.skip(h2.len() - r.len()));
}

} // verus!
