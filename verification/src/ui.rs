//! What the screen shows: the state kept for drawing, the texts of the
//! header, footer, rule list and rule details, and the colour of each
//! entry.  Drawing itself is the terminal front end's.
use vstd::prelude::*;
use vstd::string::*;
use crate::app::ViewMode;
use crate::firewall::{rule_views, FirewallRule, RuleView};
use crate::history::{action_type_text, display_text, severity_text, HistoryAction, HistoryEntry, HistoryLog};
use crate::monitor::{first_n, pair_views};
use crate::time::{clock_pattern, utc_format};
use crate::text::{
    chars_of, decimal, decimal_string, decimal_usize, eq_lit, owned, push_char,
};

verus! {

/// The colour an entry is drawn in.
#[derive(Debug, Clone, Copy, PartialEq, Eq, Structural)]
pub enum Tone {
    Green,
    Red,
    Yellow,
    White,
}

/// `n` spaces.
pub open spec fn spaces(n: nat) -> Seq<char> {
    Seq::new(n, |i: int| ' ')
}

/// `s` filled with spaces on the right up to `width` characters, as `{:w}`
/// lays out text.
pub open spec fn pad_right(s: Seq<char>, width: nat) -> Seq<char> {
    if s.len() < width {
        s + spaces((width - s.len()) as nat)
    } else {
        s
    }
}

/// `s` filled with spaces on the left up to `width` characters, as `{:w}`
/// lays out a number.
pub open spec fn pad_left(s: Seq<char>, width: nat) -> Seq<char> {
    if s.len() < width {
        spaces((width - s.len()) as nat) + s
    } else {
        s
    }
}

/// The port shown in the list: the port, or `*`.
pub open spec fn or_text(p: Option<Seq<char>>, d: Seq<char>) -> Seq<char> {
    match p {
        Some(s) => s,
        None => d,
    }
}

/// The line of a rule in the list: number, action, protocol, port and
/// source in columns.
pub open spec fn rule_line_text(r: RuleView) -> Seq<char> {
    pad_left(decimal(r.id as nat), 4) + " "@ + pad_right(r.action, 7) + " "@ + pad_right(
        r.protocol,
        6,
    ) + " "@ + pad_right(or_text(r.port, "*"@), 8) + " "@ + r.source
}

/// The colour of a rule's action.
pub open spec fn action_tone_of(action: Seq<char>) -> Tone {
    if action == "ACCEPT"@ {
        Tone::Green
    } else if action == "DROP"@ {
        Tone::Red
    } else if action == "REJECT"@ {
        Tone::Yellow
    } else {
        Tone::White
    }
}

/// The colour of a history entry's text, by its severity.
pub open spec fn severity_tone_of(a: HistoryAction) -> Tone {
    let s = severity_text(a);
    if s == "ERROR"@ {
        Tone::Red
    } else if s == "WARNING"@ {
        Tone::Yellow
    } else {
        Tone::Green
    }
}

/// The colour of a history entry's kind.
pub open spec fn kind_tone_of(a: HistoryAction) -> Tone {
    let t = action_type_text(a);
    if t == "ADD"@ {
        Tone::Green
    } else if t == "DELETE"@ || t == "ERROR"@ {
        Tone::Red
    } else if t == "EDIT"@ {
        Tone::Yellow
    } else {
        Tone::White
    }
}

/// The title and subtitle of the header of a view.
pub open spec fn header_of(mode: ViewMode) -> (Seq<char>, Seq<char>) {
    match mode {
        ViewMode::Rules => ("Firewall Manager"@, "Backend: nftables  Status: Active"@),
        ViewMode::Monitoring => ("Traffic Monitor"@, "Real-time firewall activity"@),
        ViewMode::History => ("History Log"@, "Recent operations and changes"@),
    }
}

/// The two lines of the footer of a view.
pub open spec fn footer_of(mode: ViewMode) -> (Seq<char>, Seq<char>) {
    match mode {
        ViewMode::Rules => (
            "EasyFirewall - Manage your firewall rules safely"@,
            "a:Add e:Edit d:Del m:Monitor h:History q:Quit"@,
        ),
        ViewMode::Monitoring => (
            "Traffic Monitor - Blocked packets and activity"@,
            "r:Refresh m:Back h:History q:Quit"@,
        ),
        ViewMode::History => (
            "History Log - Recent operations and changes"@,
            "r:Refresh h:Back m:Monitor q:Quit"@,
        ),
    }
}

/// The labelled fields of the details of a rule.
pub open spec fn detail_texts(r: RuleView) -> Seq<(Seq<char>, Seq<char>)> {
    seq![
        ("ID:       "@, decimal(r.id as nat)),
        ("Action:   "@, r.action),
        ("Protocol: "@, r.protocol),
        ("Port:     "@, or_text(r.port, "All"@)),
        ("Source:   "@, r.source),
        ("Dest:     "@, r.destination),
        ("Interface:"@, or_text(r.interface, "Any"@)),
        ("Packets:  "@, decimal(r.packets as nat)),
        ("Bytes:    "@, decimal(r.bytes as nat)),
    ]
}

/// The lines of a top list as shown: the first ten pairs, each as the key
/// in a column of 15 behind two spaces, and the count followed by `unit`.
pub open spec fn top_line_texts(pairs: Seq<(Seq<char>, u64)>, unit: Seq<char>) -> Seq<
    (Seq<char>, Seq<char>),
> {
    first_n(pairs, 10).map_values(
        |p: (Seq<char>, u64)| ("  "@ + pad_right(p.0, 15) + " "@, decimal(p.1 as nat) + " "@ + unit),
    )
}

/// The line of a history entry: its time of day, its kind in brackets and
/// its description.
pub open spec fn history_line_text(e: HistoryEntry) -> (Seq<char>, Seq<char>, Seq<char>) {
    (
        utc_format(e.timestamp.secs(), e.timestamp.nanos(), clock_pattern()) + " "@,
        "["@ + action_type_text(e.action) + "]"@,
        display_text(e.action),
    )
}

/// `s` followed by `n` spaces.
fn append_spaces(s: &mut String, n: usize)
    ensures
        final(s)@ == old(s)@ + spaces(n as nat),
{
    let mut i: usize = 0;
    while i < n
        invariant
            i <= n,
            s@ == old(s)@ + spaces(i as nat),
        decreases n - i,
    {
        let ghost before = s@;
        push_char(s, ' ');
        assert(before.push(' ') =~= old(s)@ + spaces((i + 1) as nat));
        i = i + 1;
    }
}

/// `format!("{:w}", s)` for text.
pub fn pad_right_text(s: &str, width: usize) -> (r: String)
    ensures
        r@ == pad_right(s@, width as nat),
{
    let n = chars_of(s).len();
    let mut r = owned(s);
    if n < width {
        append_spaces(&mut r, width - n);
    }
    r
}

/// `format!("{:w}", n)` for a number.
pub fn pad_left_number(n: u64, width: usize) -> (r: String)
    ensures
        r@ == pad_left(decimal(n as nat), width as nat),
{
    let d = decimal_string(n);
    let len = chars_of(d.as_str()).len();
    if len < width {
        let mut r = String::new();
        append_spaces(&mut r, width - len);
        r.append(d.as_str());
        r
    } else {
        d
    }
}

/// The text shown for an optional field.
fn or_default_text(p: &Option<String>, d: &str) -> (r: String)
    ensures
        r@ == or_text(crate::text::opt_view(*p), d@),
{
    match p {
        Some(s) => s.clone(),
        None => owned(d),
    }
}

/// The state the screen is drawn from.
pub struct AppUi {
    rules: Vec<FirewallRule>,
    selected_rule: Option<usize>,
    show_details: bool,
}

impl AppUi {
    pub closed spec fn rules_view(&self) -> Seq<RuleView> {
        rule_views(self.rules@)
    }

    pub closed spec fn selected_view(&self) -> Option<usize> {
        self.selected_rule
    }

    pub closed spec fn details_view(&self) -> bool {
        self.show_details
    }

    /// Nothing to show yet.
    pub fn new() -> (r: AppUi)
        ensures
            r.rules_view().len() == 0,
            r.selected_view() is None,
            !r.details_view(),
    {
        AppUi { rules: Vec::new(), selected_rule: None, show_details: false }
    }

    pub fn set_rules(&mut self, rules: Vec<FirewallRule>)
        ensures
            final(self).rules_view() == rule_views(rules@),
            final(self).selected_view() == old(self).selected_view(),
            final(self).details_view() == old(self).details_view(),
    {
        self.rules = rules;
    }

    pub fn set_selected_rule(&mut self, index: Option<usize>)
        ensures
            final(self).selected_view() == index,
            final(self).rules_view() == old(self).rules_view(),
            final(self).details_view() == old(self).details_view(),
    {
        self.selected_rule = index;
    }

    pub fn set_show_details(&mut self, show: bool)
        ensures
            final(self).details_view() == show,
            final(self).rules_view() == old(self).rules_view(),
            final(self).selected_view() == old(self).selected_view(),
    {
        self.show_details = show;
    }

    pub fn rules(&self) -> (r: &[FirewallRule])
        ensures
            rule_views(r@) == self.rules_view(),
    {
        self.rules.as_slice()
    }

    pub fn selected_rule(&self) -> (r: Option<usize>)
        ensures
            r == self.selected_view(),
    {
        self.selected_rule
    }

    pub fn show_details(&self) -> (r: bool)
        ensures
            r == self.details_view(),
    {
        self.show_details
    }

    /// The rule whose details are shown: the selected one, when the
    /// selection is within the list.
    pub fn detail_rule(&self) -> (r: Option<&FirewallRule>)
        ensures
            match self.selected_view() {
                Some(i) => if i < self.rules_view().len() {
                    r matches Some(x) && x@ == self.rules_view()[i as int]
                } else {
                    r is None
                },
                None => r is None,
            },
    {
        match self.selected_rule {
            Some(i) => {
                if i < self.rules.len() {
                    Some(&self.rules[i])
                } else {
                    None
                }
            },
            None => None,
        }
    }

    /// The title and subtitle of the header.
    pub fn header(mode: ViewMode) -> (r: (&'static str, &'static str))
        ensures
            (r.0@, r.1@) == header_of(mode),
    {
        match mode {
            ViewMode::Rules => ("Firewall Manager", "Backend: nftables  Status: Active"),
            ViewMode::Monitoring => ("Traffic Monitor", "Real-time firewall activity"),
            ViewMode::History => ("History Log", "Recent operations and changes"),
        }
    }

    /// The two lines of the footer.
    pub fn footer(mode: ViewMode) -> (r: (&'static str, &'static str))
        ensures
            (r.0@, r.1@) == footer_of(mode),
    {
        match mode {
            ViewMode::Rules => (
                "EasyFirewall - Manage your firewall rules safely",
                "a:Add e:Edit d:Del m:Monitor h:History q:Quit",
            ),
            ViewMode::Monitoring => (
                "Traffic Monitor - Blocked packets and activity",
                "r:Refresh m:Back h:History q:Quit",
            ),
            ViewMode::History => (
                "History Log - Recent operations and changes",
                "r:Refresh h:Back m:Monitor q:Quit",
            ),
        }
    }

    /// The line of a rule in the list.
    pub fn rule_line(rule: &FirewallRule) -> (r: String)
        ensures
            r@ == rule_line_text(rule@),
    {
        let mut r = pad_left_number(rule.id as u64, 4);
        r.append(" ");
        r.append(pad_right_text(rule.action.as_str(), 7).as_str());
        r.append(" ");
        r.append(pad_right_text(rule.protocol.as_str(), 6).as_str());
        r.append(" ");
        let port = or_default_text(&rule.port, "*");
        r.append(pad_right_text(port.as_str(), 8).as_str());
        r.append(" ");
        r.append(rule.source.as_str());
        r
    }

    /// The labelled fields of the details of a rule.
    pub fn detail_fields(rule: &FirewallRule) -> (r: Vec<(&'static str, String)>)
        ensures
            r@.len() == detail_texts(rule@).len(),
            forall|i: int|
                0 <= i < r@.len() ==> (#[trigger] r@[i]).0@ == detail_texts(rule@)[i].0
                    && r@[i].1@ == detail_texts(rule@)[i].1,
    {
        let mut r: Vec<(&'static str, String)> = Vec::new();
        r.push(("ID:       ", decimal_usize(rule.id)));
        r.push(("Action:   ", rule.action.clone()));
        r.push(("Protocol: ", rule.protocol.clone()));
        r.push(("Port:     ", or_default_text(&rule.port, "All")));
        r.push(("Source:   ", rule.source.clone()));
        r.push(("Dest:     ", rule.destination.clone()));
        r.push(("Interface:", or_default_text(&rule.interface, "Any")));
        r.push(("Packets:  ", decimal_string(rule.packets)));
        r.push(("Bytes:    ", decimal_string(rule.bytes)));
        r
    }

    /// The lines of a top list (addresses or ports): the first ten.
    pub fn top_lines(pairs: &[(String, u64)], unit: &str) -> (r: Vec<(String, String)>)
        ensures
            r@.len() == top_line_texts(pair_views(pairs@), unit@).len(),
            forall|i: int|
                0 <= i < r@.len() ==> (#[trigger] r@[i]).0@ == top_line_texts(
                    pair_views(pairs@),
                    unit@,
                )[i].0 && r@[i].1@ == top_line_texts(pair_views(pairs@), unit@)[i].1,
    {
        let ghost all = top_line_texts(pair_views(pairs@), unit@);
        let n = if pairs.len() < 10 {
            pairs.len()
        } else {
            10
        };
        let mut r: Vec<(String, String)> = Vec::new();
        let mut i: usize = 0;
        while i < n
            invariant
                n <= pairs@.len(),
                n == all.len(),
                i <= n,
                r@.len() == i,
                all == top_line_texts(pair_views(pairs@), unit@),
                forall|k: int|
                    0 <= k < i ==> (#[trigger] r@[k]).0@ == all[k].0 && r@[k].1@ == all[k].1,
            decreases n - i,
        {
            let (key, count) = &pairs[i];
            let mut left = owned("  ");
            left.append(pad_right_text(key.as_str(), 15).as_str());
            left.append(" ");
            let mut right = decimal_string(*count);
            right.append(" ");
            right.append(unit);
            assert(pair_views(pairs@)[i as int] == (key@, *count));
            r.push((left, right));
            i = i + 1;
        }
        r
    }

    /// The lines of the history view: the fifteen newest entries, newest
    /// first.
    pub fn history_lines(history: &HistoryLog) -> (r: Vec<(String, String, String)>)
        ensures
            r@.len() == if history.entries_view().len() < 15 {
                history.entries_view().len() as int
            } else {
                15
            },
            forall|k: int|
                0 <= k < r@.len() ==> {
                    let t = history_line_text(
                        history.entries_view()[history.entries_view().len() - 1 - k],
                    );
                    &&& (#[trigger] r@[k]).0@ == t.0
                    &&& r@[k].1@ == t.1
                    &&& r@[k].2@ == t.2
                },
    {
        let recent = history.recent(15);
        let mut r: Vec<(String, String, String)> = Vec::new();
        let mut i: usize = 0;
        while i < recent.len()
            invariant
                i <= recent@.len(),
                r@.len() == i,
                recent@.len() == if history.entries_view().len() < 15 {
                    history.entries_view().len() as int
                } else {
                    15
                },
                forall|k: int|
                    0 <= k < recent@.len() ==> *#[trigger] recent@[k] == history.entries_view()[history.entries_view().len() - 1 - k],
                forall|k: int|
                    0 <= k < i ==> {
                        let t = history_line_text(
                            history.entries_view()[history.entries_view().len() - 1 - k],
                        );
                        &&& (#[trigger] r@[k]).0@ == t.0
                        &&& r@[k].1@ == t.1
                        &&& r@[k].2@ == t.2
                    },
            decreases recent@.len() - i,
        {
            let e = recent[i];
            let mut time = e.timestamp.clock_text();
            time.append(" ");
            let mut kind = owned("[");
            kind.append(e.action.action_type());
            kind.append("]");
            let text = e.action.display_name();
            r.push((time, kind, text));
            i = i + 1;
        }
        r
    }

    /// The colour of a rule, by its action.
    pub fn action_tone(action: &str) -> (r: Tone)
        ensures
            r == action_tone_of(action@),
    {
        let v = chars_of(action);
        if eq_lit(&v, "ACCEPT") {
            Tone::Green
        } else if eq_lit(&v, "DROP") {
            Tone::Red
        } else if eq_lit(&v, "REJECT") {
            Tone::Yellow
        } else {
            Tone::White
        }
    }

    /// The colour of a history entry's text.
    pub fn severity_tone(action: &HistoryAction) -> (r: Tone)
        ensures
            r == severity_tone_of(*action),
    {
        let v = chars_of(action.severity());
        if eq_lit(&v, "ERROR") {
            Tone::Red
        } else if eq_lit(&v, "WARNING") {
            Tone::Yellow
        } else {
            Tone::Green
        }
    }

    /// The colour of a history entry's kind.
    pub fn kind_tone(action: &HistoryAction) -> (r: Tone)
        ensures
            r == kind_tone_of(*action),
    {
        let v = chars_of(action.action_type());
        if eq_lit(&v, "ADD") {
            Tone::Green
        } else if eq_lit(&v, "DELETE") || eq_lit(&v, "ERROR") {
            Tone::Red
        } else if eq_lit(&v, "EDIT") {
            Tone::Yellow
        } else {
            Tone::White
        }
    }
}

} // verus!
