//! The add, edit and delete forms: their fields, their key handling and
//! their validation.
use vstd::prelude::*;
use vstd::string::*;
use crate::events::{Key, KeyInput};
use crate::firewall::{any_address, FirewallRule, RuleOrigin, RuleView};
use crate::text::{
    chars_of, concat2, decimal, decimal_usize, eq_lit, lower_text,
    owned, pop_char, push_char, to_lowercase, to_uppercase, upper_text,
};

verus! {

/// What a form is for.
#[derive(Debug, Clone, Copy, PartialEq, Eq, Structural)]
pub enum FormMode {
    AddRule,
    EditRule(usize),
    DeleteConfirm(usize),
}

/// The state of a form.
#[derive(Debug, Clone)]
pub struct FormState {
    pub mode: FormMode,
    pub protocol: String,
    pub port: String,
    pub source: String,
    pub destination: String,
    pub interface: String,
    pub action: String,
    pub current_field: usize,
    pub confirmed: bool,
    pub cancelled: bool,
    pub error_message: Option<String>,
}

/// The number of the last field (fields are numbered 0 to 5).
pub open spec fn last_field() -> usize {
    5
}

/// The text of field `index`: protocol, port, source, destination,
/// interface, action.
pub open spec fn field_of(f: FormState, index: usize) -> Seq<char> {
    if index == 0 {
        f.protocol@
    } else if index == 1 {
        f.port@
    } else if index == 2 {
        f.source@
    } else if index == 3 {
        f.destination@
    } else if index == 4 {
        f.interface@
    } else if index == 5 {
        f.action@
    } else {
        Seq::empty()
    }
}

/// The form with field `index` holding `value`.
pub open spec fn with_field(f: FormState, index: usize, value: String) -> FormState {
    if index == 0 {
        FormState { protocol: value, ..f }
    } else if index == 1 {
        FormState { port: value, ..f }
    } else if index == 2 {
        FormState { source: value, ..f }
    } else if index == 3 {
        FormState { destination: value, ..f }
    } else if index == 4 {
        FormState { interface: value, ..f }
    } else if index == 5 {
        FormState { action: value, ..f }
    } else {
        f
    }
}

/// The label of field `index`.
pub open spec fn field_name(index: usize) -> Seq<char> {
    if index == 0 {
        "Protocol"@
    } else if index == 1 {
        "Port"@
    } else if index == 2 {
        "Source"@
    } else if index == 3 {
        "Destination"@
    } else if index == 4 {
        "Interface"@
    } else if index == 5 {
        "Action"@
    } else {
        ""@
    }
}

/// An ASCII digit.
pub open spec fn is_digit(c: char) -> bool {
    '0' <= c && c <= '9'
}

/// The value of a string of decimal digits.
pub open spec fn digits_value(s: Seq<char>) -> nat
    decreases s.len(),
{
    if s.len() == 0 {
        0
    } else {
        digits_value(s.drop_last()) * 10 + ((s.last() as u32) - 48) as nat
    }
}

/// Every character is a decimal digit.
pub open spec fn all_digits(d: Seq<char>) -> bool {
    forall|i: int| 0 <= i < d.len() ==> is_digit(#[trigger] d[i])
}

/// The text without one leading `+`.
pub open spec fn unsigned_digits(s: Seq<char>) -> Seq<char> {
    if s.len() > 0 && s[0] == '+' {
        s.drop_first()
    } else {
        s
    }
}

/// What `str::parse::<u16>` accepts: an optional `+`, then one or more
/// decimal digits whose value is at most 65535.
pub open spec fn parse_u16(s: Seq<char>) -> Option<nat> {
    let d = unsigned_digits(s);
    if d.len() == 0 || !all_digits(d) || digits_value(d) > 65535 {
        None
    } else {
        Some(digits_value(d))
    }
}

/// The protocol field names tcp, udp, icmp or all, in any case.
pub open spec fn valid_protocol(p: Seq<char>) -> bool {
    let l = lower_text(p);
    l == "tcp"@ || l == "udp"@ || l == "icmp"@ || l == "all"@
}

/// The port field is empty or a port number from 1 to 65535.
pub open spec fn valid_port(p: Seq<char>) -> bool {
    p.len() == 0 || (parse_u16(p) matches Some(v) && v >= 1)
}

/// The action field names ACCEPT, DROP or REJECT, in any case.
pub open spec fn valid_action(a: Seq<char>) -> bool {
    let u = upper_text(a);
    u == "ACCEPT"@ || u == "DROP"@ || u == "REJECT"@
}

/// The first problem of a form, if any: protocol, then port, then action.
pub open spec fn validation_error(f: FormState) -> Option<Seq<char>> {
    if !valid_protocol(f.protocol@) {
        Some("Protocol must be tcp, udp, icmp, or all"@)
    } else if !valid_port(f.port@) {
        Some("Port must be a valid number (1-65535)"@)
    } else if !valid_action(f.action@) {
        Some("Action must be ACCEPT, DROP, or REJECT"@)
    } else {
        None
    }
}

/// An empty field stands for a default.
pub open spec fn or_default(s: Seq<char>, d: Seq<char>) -> Seq<char> {
    if s.len() == 0 {
        d
    } else {
        s
    }
}

/// An empty field stands for nothing.
pub open spec fn non_empty(s: Seq<char>) -> Option<Seq<char>> {
    if s.len() == 0 {
        None
    } else {
        Some(s)
    }
}

/// The rule a valid form describes, numbered `id`.
pub open spec fn form_rule(f: FormState, id: usize) -> RuleView {
    RuleView {
        id: id,
        action: upper_text(f.action@),
        protocol: lower_text(f.protocol@),
        port: non_empty(f.port@),
        source: or_default(f.source@, any_address()),
        destination: or_default(f.destination@, any_address()),
        interface: non_empty(f.interface@),
        origin: RuleOrigin::EasyFirewall,
        packets: 0,
        bytes: 0,
    }
}

/// The fields of the edit form for a rule.
pub open spec fn edit_fields(f: FormState, r: RuleView) -> bool {
    &&& f.mode == FormMode::EditRule(r.id)
    &&& f.protocol@ == r.protocol
    &&& f.port@ == (match r.port {
        Some(p) => p,
        None => Seq::empty(),
    })
    &&& f.source@ == r.source
    &&& f.destination@ == r.destination
    &&& f.interface@ == (match r.interface {
        Some(i) => i,
        None => Seq::empty(),
    })
    &&& f.action@ == r.action
    &&& f.current_field == 0
    &&& !f.confirmed
    &&& !f.cancelled
    &&& f.error_message is None
}

/// What a key does to a form.
pub open spec fn after_key(f: FormState, key: Key) -> FormState {
    match key {
        Key::Up => if f.current_field > 0 {
            FormState { current_field: (f.current_field - 1) as usize, ..f }
        } else {
            f
        },
        Key::Down | Key::Tab => if f.current_field < last_field() {
            FormState { current_field: (f.current_field + 1) as usize, ..f }
        } else {
            f
        },
        Key::Char(c) => if c == '\t' {
            if f.current_field < last_field() {
                FormState { current_field: (f.current_field + 1) as usize, ..f }
            } else {
                f
            }
        } else if c == 'c' {
            FormState { cancelled: true, ..f }
        } else {
            f
        },
        Key::Enter => FormState { confirmed: true, ..f },
        Key::Esc => FormState { cancelled: true, ..f },
        _ => f,
    }
}

/// Fields other than the texts are as `after_key` says; the text of the
/// current field gains the typed character (Tab and `c` type nothing) or
/// loses its last one.
pub open spec fn key_effect(old: FormState, new: FormState, key: Key) -> bool {
    let expected = after_key(old, key);
    &&& new.mode == expected.mode
    &&& new.current_field == expected.current_field
    &&& new.confirmed == expected.confirmed
    &&& new.cancelled == expected.cancelled
    &&& new.error_message == expected.error_message
    &&& forall|i: usize|
        #![trigger field_of(new, i)]
        i <= last_field() ==> field_of(new, i) == if i != old.current_field {
            field_of(old, i)
        } else {
            match key {
                Key::Char(c) => if c != '\t' && c != 'c' {
                    field_of(old, i).push(c)
                } else {
                    field_of(old, i)
                },
                Key::Backspace => if field_of(old, i).len() > 0 {
                    field_of(old, i).drop_last()
                } else {
                    field_of(old, i)
                },
                _ => field_of(old, i),
            }
        }
}

impl FormState {
    /// The form for a new rule: tcp, any source and destination, ACCEPT.
    pub fn new_add() -> (r: Self)
        ensures
            r.mode == FormMode::AddRule,
            r.protocol@ == "tcp"@,
            r.port@ == Seq::<char>::empty(),
            r.source@ == any_address(),
            r.destination@ == any_address(),
            r.interface@ == Seq::<char>::empty(),
            r.action@ == "ACCEPT"@,
            r.current_field == 0,
            !r.confirmed,
            !r.cancelled,
            r.error_message is None,
    {
        FormState {
            mode: FormMode::AddRule,
            protocol: owned("tcp"),
            port: String::new(),
            source: owned("0.0.0.0/0"),
            destination: owned("0.0.0.0/0"),
            interface: String::new(),
            action: owned("ACCEPT"),
            current_field: 0,
            confirmed: false,
            cancelled: false,
            error_message: None,
        }
    }

    /// The form that edits `rule`, holding its values.
    pub fn new_edit(rule: &FirewallRule) -> (r: Self)
        ensures
            edit_fields(r, rule@),
    {
        let port = match &rule.port {
            Some(p) => p.clone(),
            None => String::new(),
        };
        let interface = match &rule.interface {
            Some(i) => i.clone(),
            None => String::new(),
        };
        FormState {
            mode: FormMode::EditRule(rule.id),
            protocol: rule.protocol.clone(),
            port,
            source: rule.source.clone(),
            destination: rule.destination.clone(),
            interface,
            action: rule.action.clone(),
            current_field: 0,
            confirmed: false,
            cancelled: false,
            error_message: None,
        }
    }

    /// The confirmation form for deleting rule `rule_id`.
    pub fn new_delete(rule_id: usize) -> (r: Self)
        ensures
            r.mode == FormMode::DeleteConfirm(rule_id),
            r.protocol@.len() == 0 && r.port@.len() == 0 && r.source@.len() == 0,
            r.destination@.len() == 0 && r.interface@.len() == 0 && r.action@.len() == 0,
            r.current_field == 0,
            !r.confirmed,
            !r.cancelled,
            r.error_message is None,
    {
        FormState {
            mode: FormMode::DeleteConfirm(rule_id),
            protocol: String::new(),
            port: String::new(),
            source: String::new(),
            destination: String::new(),
            interface: String::new(),
            action: String::new(),
            current_field: 0,
            confirmed: false,
            cancelled: false,
            error_message: None,
        }
    }

    /// Every form mode is an active form.
    pub fn is_active(&self) -> (r: bool)
        ensures
            r,
    {
        match self.mode {
            FormMode::AddRule | FormMode::EditRule(_) | FormMode::DeleteConfirm(_) => true,
        }
    }

    /// The text of field `index`, to be changed in place.
    pub fn get_field_mut(&mut self, index: usize) -> (r: Option<&mut String>)
        ensures
            (index <= last_field()) == (r is Some),
            match r {
                Some(f) => f@ == field_of(*old(self), index) && *final(self) == with_field(
                    *old(self),
                    index,
                    *final(f),
                ),
                None => *final(self) == *old(self),
            },
    {
        match index {
            0 => Some(&mut self.protocol),
            1 => Some(&mut self.port),
            2 => Some(&mut self.source),
            3 => Some(&mut self.destination),
            4 => Some(&mut self.interface),
            5 => Some(&mut self.action),
            _ => None,
        }
    }

    /// The label of field `index`.
    pub fn get_field_name(index: usize) -> (r: &'static str)
        ensures
            r@ == field_name(index),
    {
        match index {
            0 => "Protocol",
            1 => "Port",
            2 => "Source",
            3 => "Destination",
            4 => "Interface",
            5 => "Action",
            _ => "",
        }
    }

    /// Handles a key: arrows and Tab move between fields, characters are
    /// typed into the current field, Backspace deletes, Enter confirms, and
    /// Esc or `c` cancels.  Only key presses count.
    pub fn handle_input(&mut self, event: &KeyInput)
        ensures
            event.kind == crate::events::KeyKind::Press ==> key_effect(
                *old(self),
                *final(self),
                event.code,
            ),
            event.kind != crate::events::KeyKind::Press ==> *final(self) == *old(self),
    {
        match event.kind {
            crate::events::KeyKind::Press => self.handle_key_event(event.code),
            _ => {},
        }
    }

    fn handle_key_event(&mut self, key: Key)
        ensures
            key_effect(*old(self), *final(self), key),
    {
        match key {
            Key::Up => {
                if self.current_field > 0 {
                    self.current_field = self.current_field - 1;
                }
            },
            Key::Down | Key::Tab => {
                if self.current_field < 5 {
                    self.current_field = self.current_field + 1;
                }
            },
            Key::Char(c) => {
                if c == '\t' {
                    if self.current_field < 5 {
                        self.current_field = self.current_field + 1;
                    }
                } else if c == 'c' {
                    self.cancelled = true;
                } else {
                    let idx = self.current_field;
                    match self.get_field_mut(idx) {
                        Some(field) => push_char(field, c),
                        None => {},
                    }
                }
            },
            Key::Backspace => {
                let idx = self.current_field;
                match self.get_field_mut(idx) {
                    Some(field) => pop_char(field),
                    None => {},
                }
            },
            Key::Enter => {
                self.confirmed = true;
            },
            Key::Esc => {
                self.cancelled = true;
            },
            _ => {},
        }
    }

    /// Checks the form: the protocol must be tcp, udp, icmp or all, the
    /// port empty or a number from 1 to 65535, and the action ACCEPT,
    /// DROP or REJECT (any case); the first problem is reported.
    pub fn validate(&self) -> (r: Result<(), String>)
        ensures
            match validation_error(*self) {
                Some(m) => r matches Err(e) && e@ == m,
                None => r is Ok,
            },
    {
        let pl = to_lowercase(self.protocol.as_str());
        let plv = chars_of(pl.as_str());
        if !(eq_lit(&plv, "tcp") || eq_lit(&plv, "udp") || eq_lit(&plv, "icmp") || eq_lit(
            &plv,
            "all",
        )) {
            return Err(owned("Protocol must be tcp, udp, icmp, or all"));
        }
        if !self.port.as_str().is_empty() && !port_is_valid(self.port.as_str()) {
            return Err(owned("Port must be a valid number (1-65535)"));
        }
        let au = to_uppercase(self.action.as_str());
        let auv = chars_of(au.as_str());
        if !(eq_lit(&auv, "ACCEPT") || eq_lit(&auv, "DROP") || eq_lit(&auv, "REJECT")) {
            return Err(owned("Action must be ACCEPT, DROP, or REJECT"));
        }
        Ok(())
    }

    /// The rule the form describes, numbered `id`, when the form is valid.
    pub fn to_rule(&self, id: usize) -> (r: Option<FirewallRule>)
        ensures
            validation_error(*self) is Some ==> r is None,
            validation_error(*self) is None ==> (r matches Some(rule) && rule@ == form_rule(
                *self,
                id,
            )),
    {
        match self.validate() {
            Err(_) => return None,
            Ok(()) => {},
        }
        let port = if self.port.as_str().is_empty() {
            None
        } else {
            Some(self.port.clone())
        };
        let source = if self.source.as_str().is_empty() {
            owned("0.0.0.0/0")
        } else {
            self.source.clone()
        };
        let destination = if self.destination.as_str().is_empty() {
            owned("0.0.0.0/0")
        } else {
            self.destination.clone()
        };
        let interface = if self.interface.as_str().is_empty() {
            None
        } else {
            Some(self.interface.clone())
        };
        Some(
            FirewallRule {
                id,
                action: to_uppercase(self.action.as_str()),
                protocol: to_lowercase(self.protocol.as_str()),
                port,
                source,
                destination,
                interface,
                origin: RuleOrigin::EasyFirewall,
                packets: 0,
                bytes: 0,
            },
        )
    }
}

/// Value of the digits so far never decreases as digits are added.
proof fn lemma_digits_prefix(s: Seq<char>, k: int)
    requires
        0 <= k <= s.len(),
        all_digits(s),
    ensures
        digits_value(s.take(k)) <= digits_value(s),
    decreases s.len() - k,
{
    if k < s.len() {
        lemma_digits_prefix(s, k + 1);
        assert(s.take(k + 1).drop_last() =~= s.take(k));
    } else {
        assert(s.take(k) =~= s);
    }
}

/// Whether a non-empty port field is a port number from 1 to 65535.
fn port_is_valid(p: &str) -> (r: bool)
    ensures
        p@.len() > 0 ==> r == valid_port(p@),
{
    let v = chars_of(p);
    let start: usize = if v.len() > 0 && v[0] == '+' {
        1
    } else {
        0
    };
    let ghost d = unsigned_digits(v@);
    assert(d =~= v@.skip(start as int));
    if start >= v.len() {
        return false;
    }
    let mut acc: u64 = 0;
    let mut i: usize = start;
    assert(v@.subrange(start as int, start as int) =~= Seq::<char>::empty());
    while i < v.len()
        invariant
            start <= i <= v.len(),
            v@ == p@,
            d == unsigned_digits(v@),
            d == v@.skip(start as int),
            acc == digits_value(v@.subrange(start as int, i as int)),
            acc <= 65535,
            forall|j: int| start <= j < i ==> is_digit(#[trigger] v@[j]),
        decreases v.len() - i,
    {
        let c = v[i];
        if !('0' <= c && c <= '9') {
            assert(!is_digit(d[i - start]));
            return false;
        }
        let digit = (c as u32 - 48) as u64;
        assert(v@.subrange(start as int, i + 1).drop_last() =~= v@.subrange(
            start as int,
            i as int,
        ));
        acc = acc * 10 + digit;
        i = i + 1;
        if acc > 65535 {
            proof {
                assert(d.take(i - start) =~= v@.subrange(start as int, i as int));
                if all_digits(d) {
                    lemma_digits_prefix(d, i - start);
                }
            }
            return false;
        }
    }
    assert(v@.subrange(start as int, v.len() as int) =~= d);
    assert forall|j: int| 0 <= j < d.len() implies is_digit(#[trigger] d[j]) by {
        assert(d[j] == v@[j + start]);
    }
    acc >= 1
}

/// Law: the edit form of a rule that the add form could have produced
/// gives back that same rule.
pub proof fn lemma_edit_round_trip(f: FormState, r: RuleView)
    requires
        edit_fields(f, r),
        r.action == "ACCEPT"@ || r.action == "DROP"@ || r.action == "REJECT"@,
        r.protocol == "tcp"@ || r.protocol == "udp"@ || r.protocol == "icmp"@ || r.protocol
            == "all"@,
        r.port matches Some(p) ==> p.len() > 0 && valid_port(p),
        r.interface matches Some(i) ==> i.len() > 0,
        r.source.len() > 0,
        r.destination.len() > 0,
        r.origin == RuleOrigin::EasyFirewall,
        r.packets == 0,
        r.bytes == 0,
    ensures
        validation_error(f) is None,
        form_rule(f, r.id) == r,
{
    reveal_strlit("ACCEPT");
    reveal_strlit("DROP");
    reveal_strlit("REJECT");
    reveal_strlit("tcp");
    reveal_strlit("udp");
    reveal_strlit("icmp");
    reveal_strlit("all");
    assert(upper_text(r.action) =~= r.action);
    assert(lower_text(r.protocol) =~= r.protocol);
    let fr = form_rule(f, r.id);
    assert(fr.port == r.port);
    assert(fr.interface == r.interface);
}

/// The texts and the placement of the form's dialog; drawing it is the
/// terminal front end's.
pub struct FormRenderer;

/// The smaller of two numbers.
pub open spec fn min_u16(a: u16, b: u16) -> u16 {
    if a <= b {
        a
    } else {
        b
    }
}

/// The title of the dialog of a form.
pub open spec fn form_title(mode: FormMode) -> Seq<char> {
    match mode {
        FormMode::AddRule => "Add Firewall Rule"@,
        FormMode::EditRule(id) => "Edit Rule #"@ + decimal(id as nat),
        FormMode::DeleteConfirm(_) => "Confirm Delete"@,
    }
}

/// The last line of an add or edit dialog: the error, or the keys.
pub open spec fn form_status(f: FormState) -> Seq<char> {
    match f.error_message {
        Some(e) => "Error: "@ + e@,
        None => "Enter: Save  Esc: Cancel  \u{2191}/\u{2193}: Navigate"@,
    }
}

impl FormRenderer {
    /// The dialog's area in a screen of the given size, as x, y, width,
    /// height: at most 60 by 20, two cells in from each edge, centred.
    pub fn modal_area(width: u16, height: u16) -> (r: (u16, u16, u16, u16))
        requires
            width >= 4,
            height >= 4,
        ensures
            r.2 == min_u16(60, (width - 4) as u16),
            r.3 == min_u16(20, (height - 4) as u16),
            r.0 == (width - r.2) / 2,
            r.1 == (height - r.3) / 2,
    {
        let w = if 60 <= width - 4 {
            60
        } else {
            width - 4
        };
        let h = if 20 <= height - 4 {
            20
        } else {
            height - 4
        };
        ((width - w) / 2, (height - h) / 2, w, h)
    }

    /// The title of the dialog.
    pub fn title(mode: FormMode) -> (r: String)
        ensures
            r@ == form_title(mode),
    {
        match mode {
            FormMode::AddRule => owned("Add Firewall Rule"),
            FormMode::EditRule(id) => concat2("Edit Rule #", decimal_usize(id).as_str()),
            FormMode::DeleteConfirm(_) => owned("Confirm Delete"),
        }
    }

    /// The label and the value of a field as shown: `label: ` and the
    /// value followed by a cursor mark.
    pub fn field_texts(label: &str, value: &str) -> (r: (String, String))
        ensures
            r.0@ == label@ + ": "@,
            r.1@ == value@ + "_"@,
    {
        (concat2(label, ": "), concat2(value, "_"))
    }

    /// The last line of an add or edit dialog.
    pub fn status_line(state: &FormState) -> (r: String)
        ensures
            r@ == form_status(*state),
    {
        match &state.error_message {
            Some(e) => concat2("Error: ", e.as_str()),
            None => owned("Enter: Save  Esc: Cancel  \u{2191}/\u{2193}: Navigate"),
        }
    }

    /// The question of the delete dialog.
    pub fn delete_question(rule_id: usize) -> (r: String)
        ensures
            r@ == "Are you sure you want to delete rule #"@ + decimal(rule_id as nat) + "?"@,
    {
        let n = decimal_usize(rule_id);
        let mut r = concat2("Are you sure you want to delete rule #", n.as_str());
        r.append("?");
        r
    }
}

/// The text a key leaves in the field it edits: a typed character is
/// appended, Backspace removes the last character.
pub open spec fn edited(t: Seq<char>, key: Key) -> Seq<char> {
    match key {
        Key::Char(c) => t.push(c),
        _ => if t.len() > 0 {
            t.drop_last()
        } else {
            t
        },
    }
}

/// The six field labels are different texts.
proof fn lemma_labels_distinct()
    ensures
        field_name(0) != field_name(1),
        field_name(0) != field_name(2),
        field_name(0) != field_name(3),
        field_name(0) != field_name(4),
        field_name(0) != field_name(5),
        field_name(1) != field_name(2),
        field_name(1) != field_name(3),
        field_name(1) != field_name(4),
        field_name(1) != field_name(5),
        field_name(2) != field_name(3),
        field_name(2) != field_name(4),
        field_name(2) != field_name(5),
        field_name(3) != field_name(4),
        field_name(3) != field_name(5),
        field_name(4) != field_name(5),
{
    reveal_strlit("Protocol");
    reveal_strlit("Port");
    reveal_strlit("Source");
    reveal_strlit("Destination");
    reveal_strlit("Interface");
    reveal_strlit("Action");
    assert(field_name(0).len() == 8);
    assert(field_name(1).len() == 4);
    assert(field_name(2).len() == 6);
    assert(field_name(3).len() == 11);
    assert(field_name(4).len() == 9);
    assert(field_name(5).len() == 6);
    assert(field_name(2)[0] != field_name(5)[0]);
}

/// Law: field `i` of a form is the one labelled `field_name(i)`: reading
/// it gives that field, and writing it changes that field and no other.
pub proof fn lemma_fields_follow_labels(f: FormState, i: usize, v: String)
    requires
        i <= last_field(),
    ensures
        field_name(i) == "Protocol"@ ==> field_of(f, i) == f.protocol@,
        field_name(i) == "Port"@ ==> field_of(f, i) == f.port@,
        field_name(i) == "Source"@ ==> field_of(f, i) == f.source@,
        field_name(i) == "Destination"@ ==> field_of(f, i) == f.destination@,
        field_name(i) == "Interface"@ ==> field_of(f, i) == f.interface@,
        field_name(i) == "Action"@ ==> field_of(f, i) == f.action@,
        with_field(f, i, v).protocol == if field_name(i) == "Protocol"@ { v } else { f.protocol },
        with_field(f, i, v).port == if field_name(i) == "Port"@ { v } else { f.port },
        with_field(f, i, v).source == if field_name(i) == "Source"@ { v } else { f.source },
        with_field(f, i, v).destination == if field_name(i) == "Destination"@ { v } else { f.destination },
        with_field(f, i, v).interface == if field_name(i) == "Interface"@ { v } else { f.interface },
        with_field(f, i, v).action == if field_name(i) == "Action"@ { v } else { f.action },
{
    lemma_labels_distinct();
}

/// Law: a typed character or Backspace edits the field labelled with the
/// current field's name and leaves the other fields as they were.
pub proof fn lemma_keys_edit_the_labelled_field(old: FormState, new: FormState, key: Key)
    requires
        old.current_field <= last_field(),
        key_effect(old, new, key),
        key is Backspace || (key matches Key::Char(c) && c != '\t' && c != 'c'),
    ensures
        new.protocol@ == if field_name(old.current_field) == "Protocol"@ {
            edited(old.protocol@, key)
        } else {
            old.protocol@
        },
        new.port@ == if field_name(old.current_field) == "Port"@ {
            edited(old.port@, key)
        } else {
            old.port@
        },
        new.source@ == if field_name(old.current_field) == "Source"@ {
            edited(old.source@, key)
        } else {
            old.source@
        },
        new.destination@ == if field_name(old.current_field) == "Destination"@ {
            edited(old.destination@, key)
        } else {
            old.destination@
        },
        new.interface@ == if field_name(old.current_field) == "Interface"@ {
            edited(old.interface@, key)
        } else {
            old.interface@
        },
        new.action@ == if field_name(old.current_field) == "Action"@ {
            edited(old.action@, key)
        } else {
            old.action@
        },
{
    lemma_labels_distinct();
    assert(field_of(new, 0) == field_of(new, 0));
    assert(field_of(new, 1) == field_of(new, 1));
    assert(field_of(new, 2) == field_of(new, 2));
    assert(field_of(new, 3) == field_of(new, 3));
    assert(field_of(new, 4) == field_of(new, 4));
    assert(field_of(new, 5) == field_of(new, 5));
}

} // verus!
