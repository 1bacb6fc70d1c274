//! The iptables backend: parsing `iptables -L INPUT -n --line-numbers`
//! and building the command lines that change the INPUT chain.
use vstd::prelude::*;
use vstd::string::*;
use crate::firewall::{
    any_address, rule_views, FirewallError, FirewallRule, RuleOrigin, RuleView,
};
use crate::text::{
    chars_of, decimal, decimal_usize, eq_lit, first_token, first_token_exec, lines, lines_exec,
    owned, split_second, split_second_exec, starts_with, starts_with_lit, str_views,
    string_from, to_uppercase, tokens, tokens_exec, trim, trim_chars, upper_text, views,
    concat2,
};

verus! {

/// The iptables backend.
pub struct IptablesBackend;

/// Header lines of the listing: empty, `Chain ...`, `target ...` or `num ...`.
pub open spec fn is_header(t: Seq<char>) -> bool {
    ||| t.len() == 0
    ||| starts_with(t, "Chain"@)
    ||| starts_with(t, "target"@)
    ||| starts_with(t, "num"@)
}

/// The action column, upper-cased; anything but ACCEPT, DROP or REJECT is UNKNOWN.
pub open spec fn action_of(tok: Seq<char>) -> Seq<char> {
    let a = upper_text(tok);
    if a == "ACCEPT"@ || a == "DROP"@ || a == "REJECT"@ {
        a
    } else {
        "UNKNOWN"@
    }
}

/// The protocol column: tcp, udp, icmp or all; anything else counts as all.
pub open spec fn protocol_of(tok: Seq<char>) -> Seq<char> {
    if tok == "tcp"@ || tok == "udp"@ || tok == "icmp"@ {
        tok
    } else {
        "all"@
    }
}

/// The first token after the first `dpt:`.
pub open spec fn port_of(t: Seq<char>) -> Option<Seq<char>> {
    match split_second(t, "dpt:"@) {
        Some(p) => first_token(p),
        None => None,
    }
}

/// The first token after the first `in:`, unless it starts with `*`.
pub open spec fn interface_of(t: Seq<char>) -> Option<Seq<char>> {
    match split_second(t, "in:"@) {
        Some(p) => match first_token(p) {
            Some(w) => if starts_with(w, "*"@) {
                None
            } else {
                Some(w)
            },
            None => None,
        },
        None => None,
    }
}

/// What one line of the listing gives, numbered `id`.
pub open spec fn rule_of_line(line: Seq<char>, id: usize) -> Option<RuleView> {
    let t = trim(line);
    if is_header(t) {
        None
    } else {
        let parts = tokens(t);
        if parts.len() < 4 {
            None
        } else {
            Some(
                RuleView {
                    id: id,
                    action: action_of(parts[1]),
                    protocol: protocol_of(parts[2]),
                    port: port_of(t),
                    source: any_address(),
                    destination: any_address(),
                    interface: interface_of(t),
                    origin: RuleOrigin::System,
                    packets: 0,
                    bytes: 0,
                },
            )
        }
    }
}

/// The rules of a listing given as lines; the first rule is numbered `id`.
pub open spec fn rules_of_lines(ls: Seq<Seq<char>>, id: int) -> Seq<RuleView>
    decreases ls.len(),
{
    if ls.len() == 0 {
        Seq::empty()
    } else {
        let t = trim(ls[0]);
        if is_header(t) {
            rules_of_lines(ls.drop_first(), id)
        } else {
            match rule_of_line(t, id as usize) {
                Some(r) => seq![r] + rules_of_lines(ls.drop_first(), id + 1),
                None => rules_of_lines(ls.drop_first(), id),
            }
        }
    }
}

/// The rules of a whole listing, numbered from 1.
pub open spec fn rules_of_listing(s: Seq<char>) -> Seq<RuleView> {
    rules_of_lines(lines(s), 1)
}

/// The arguments that add (`op` = `-A`) or delete (`op` = `-D`) a rule
/// in the INPUT chain.
pub open spec fn rule_args(op: Seq<char>, r: RuleView) -> Seq<Seq<char>> {
    let base = seq![op, "INPUT"@];
    let with_proto = if r.protocol != "all"@ {
        base + seq!["-p"@, r.protocol]
    } else {
        base
    };
    let with_port = match r.port {
        Some(p) => with_proto + seq!["--dport"@, p],
        None => with_proto,
    };
    let with_source = if r.source != any_address() {
        with_port + seq!["-s"@, r.source]
    } else {
        with_port
    };
    let with_iface = match r.interface {
        Some(i) => with_source + seq!["-i"@, i],
        None => with_source,
    };
    with_iface + seq!["-j"@, r.action]
}

/// Result of `delete_rule` before the command runs: the rule number must
/// be between 1 and the number of listed rules.
pub open spec fn delete_plan(rule_id: usize, rules: Seq<RuleView>) -> Result<
    Seq<Seq<char>>,
    Seq<char>,
> {
    if rule_id == 0 {
        Err("Invalid rule ID: 0"@)
    } else if rule_id > rules.len() {
        Err("Invalid rule ID: "@ + decimal(rule_id as nat))
    } else {
        Ok(rule_args("-D"@, rules[rule_id - 1]))
    }
}

impl Default for IptablesBackend {
    fn default() -> (r: Self)
        ensures
            r == (IptablesBackend),
    {
        IptablesBackend::new()
    }
}

impl IptablesBackend {
    pub fn new() -> (r: Self)
        ensures
            r == (IptablesBackend),
    {
        IptablesBackend
    }

    pub fn name(&self) -> (r: &'static str)
        ensures
            r@ == "iptables"@,
    {
        "iptables"
    }

    /// Parses the listing of the INPUT chain.  Header lines are skipped,
    /// every line that parses becomes a rule, and rules are numbered from 1
    /// in the order of the listing.
    pub fn parse_iptables_rules(&self, output: &str) -> (r: Result<Vec<FirewallRule>, FirewallError>)
        ensures
            r matches Ok(rules) && rule_views(rules@) == rules_of_listing(output@),
    {
        let v = chars_of(output);
        let ls = lines_exec(&v);
        let mut rules: Vec<FirewallRule> = Vec::new();
        let mut i: usize = 0;
        assert(views(ls@).skip(0) =~= views(ls@));
        while i < ls.len()
            invariant
                i <= ls.len(),
                rules.len() <= i,
                rules_of_lines(views(ls@), 1) == rule_views(rules@) + rules_of_lines(
                    views(ls@).skip(i as int),
                    rules.len() + 1,
                ),
            decreases ls.len() - i,
        {
            let ghost rest = views(ls@).skip(i as int);
            assert(rest[0] == ls@[i as int]@);
            assert(rest.drop_first() =~= views(ls@).skip(i + 1));
            let t = trim_chars(&ls[i]);
            let header = Self::is_header_exec(&t);
            if !header {
                let id = rules.len() + 1;
                let line = string_from(&t);
                match self.parse_rule_line(line.as_str(), id) {
                    Some(rule) => {
                        let ghost old_rules = rules@;
                        rules.push(rule);
                        assert(rule_views(rules@) =~= rule_views(old_rules) + seq![rule@]);
                    },
                    None => {},
                }
            }
            i = i + 1;
        }
        assert(views(ls@).skip(ls.len() as int) =~= Seq::<Seq<char>>::empty());
        assert(rule_views(rules@) + Seq::<RuleView>::empty() =~= rule_views(rules@));
        Ok(rules)
    }

    fn is_header_exec(t: &Vec<char>) -> (r: bool)
        ensures
            r == is_header(t@),
    {
        t.len() == 0 || starts_with_lit(t, "Chain") || starts_with_lit(t, "target")
            || starts_with_lit(t, "num")
    }

    /// Parses one line of the listing into a rule numbered `id`: the second
    /// column gives the action, the third the protocol, `dpt:` the port and
    /// `in:` the interface.  Headers and lines with fewer than four columns
    /// give nothing.
    pub fn parse_rule_line(&self, line: &str, id: usize) -> (r: Option<FirewallRule>)
        ensures
            match r {
                Some(rule) => rule_of_line(line@, id) == Some(rule@),
                None => rule_of_line(line@, id) is None,
            },
    {
        let v = chars_of(line);
        let t = trim_chars(&v);
        if Self::is_header_exec(&t) {
            return None;
        }
        let parts = tokens_exec(&t);
        if parts.len() < 4 {
            return None;
        }
        assert(views(parts@)[1] == parts@[1]@);
        assert(views(parts@)[2] == parts@[2]@);
        let col1 = string_from(&parts[1]);
        let upper = to_uppercase(col1.as_str());
        let action = if str_is(&upper, "ACCEPT") || str_is(&upper, "DROP") || str_is(
            &upper,
            "REJECT",
        ) {
            upper
        } else {
            owned("UNKNOWN")
        };
        let protocol = if eq_lit(&parts[2], "tcp") || eq_lit(&parts[2], "udp") || eq_lit(
            &parts[2],
            "icmp",
        ) {
            string_from(&parts[2])
        } else {
            owned("all")
        };
        let port = match split_second_exec(&t, &chars_of("dpt:")) {
            Some(p) => match first_token_exec(&p) {
                Some(w) => Some(string_from(&w)),
                None => None,
            },
            None => None,
        };
        let interface = match split_second_exec(&t, &chars_of("in:")) {
            Some(p) => match first_token_exec(&p) {
                Some(w) => if starts_with_lit(&w, "*") {
                    None
                } else {
                    Some(string_from(&w))
                },
                None => None,
            },
            None => None,
        };
        let rule = FirewallRule {
            id,
            action,
            protocol,
            port,
            source: owned("0.0.0.0/0"),
            destination: owned("0.0.0.0/0"),
            interface,
            origin: RuleOrigin::System,
            packets: 0,
            bytes: 0,
        };
        Some(rule)
    }

    /// The command line arguments that add `rule` to the INPUT chain
    /// (`iptables -A INPUT ...`).
    pub fn add_rule_args(&self, rule: &FirewallRule) -> (r: Vec<String>)
        ensures
            str_views(r@) == rule_args("-A"@, rule@),
    {
        Self::rule_args_exec("-A", rule)
    }

    /// The command line arguments that delete `rule` from the INPUT chain
    /// (`iptables -D INPUT ...`).
    pub fn delete_rule_args(&self, rule: &FirewallRule) -> (r: Vec<String>)
        ensures
            str_views(r@) == rule_args("-D"@, rule@),
    {
        Self::rule_args_exec("-D", rule)
    }

    fn rule_args_exec(op: &str, rule: &FirewallRule) -> (r: Vec<String>)
        ensures
            str_views(r@) == rule_args(op@, rule@),
    {
        let mut args: Vec<String> = Vec::new();
        args.push(owned(op));
        args.push(owned("INPUT"));
        let ghost base = seq![op@, "INPUT"@];
        assert(str_views(args@) =~= base);
        if !str_is(&rule.protocol, "all") {
            args.push(owned("-p"));
            args.push(rule.protocol.clone());
        }
        let ghost with_proto = str_views(args@);
        assert(with_proto =~= if rule.protocol@ != "all"@ {
            base + seq!["-p"@, rule.protocol@]
        } else {
            base
        });
        match &rule.port {
            Some(p) => {
                args.push(owned("--dport"));
                args.push(p.clone());
            },
            None => {},
        }
        let ghost with_port = str_views(args@);
        assert(with_port =~= match rule@.port {
            Some(p) => with_proto + seq!["--dport"@, p],
            None => with_proto,
        });
        if !str_is(&rule.source, "0.0.0.0/0") {
            args.push(owned("-s"));
            args.push(rule.source.clone());
        }
        let ghost with_source = str_views(args@);
        assert(with_source =~= if rule.source@ != any_address() {
            with_port + seq!["-s"@, rule.source@]
        } else {
            with_port
        });
        match &rule.interface {
            Some(i) => {
                args.push(owned("-i"));
                args.push(i.clone());
            },
            None => {},
        }
        let ghost with_iface = str_views(args@);
        assert(with_iface =~= match rule@.interface {
            Some(i) => with_source + seq!["-i"@, i],
            None => with_source,
        });
        args.push(owned("-j"));
        args.push(rule.action.clone());
        assert(str_views(args@) =~= with_iface + seq!["-j"@, rule.action@]);
        args
    }

    /// Checks a rule number against the current listing and gives the
    /// arguments of the `iptables -D` command that deletes it.
    pub fn plan_delete(&self, rule_id: usize, rules: &Vec<FirewallRule>) -> (r: Result<
        Vec<String>,
        FirewallError,
    >)
        ensures
            match delete_plan(rule_id, rule_views(rules@)) {
                Ok(args) => r matches Ok(v) && str_views(v@) == args,
                Err(msg) => r matches Err(FirewallError::InvalidRule(m)) && m@ == msg,
            },
    {
        if rule_id == 0 {
            return Err(FirewallError::InvalidRule(owned("Invalid rule ID: 0")));
        }
        if rule_id > rules.len() {
            let n = decimal_usize(rule_id);
            return Err(FirewallError::InvalidRule(concat2("Invalid rule ID: ", n.as_str())));
        }
        assert(rule_views(rules@)[rule_id - 1] == rules@[rule_id - 1]@);
        Ok(self.delete_rule_args(&rules[rule_id - 1]))
    }

    /// What `update_rule` runs: the delete command for the listed rule
    /// numbered `rule.id` (when there is one), then the add command for the
    /// new rule.
    pub fn plan_update(&self, rule: &FirewallRule, current: &Vec<FirewallRule>) -> (r: (
        Option<Vec<String>>,
        Vec<String>,
    ))
        ensures
            1 <= rule.id <= current.len() ==> (r.0 matches Some(d) && str_views(d@)
                == rule_args("-D"@, current@[rule.id - 1]@)),
            !(1 <= rule.id <= current.len()) ==> r.0 is None,
            str_views(r.1@) == rule_args("-A"@, rule@),
    {
        let del = if rule.id >= 1 && rule.id <= current.len() {
            Some(self.delete_rule_args(&current[rule.id - 1]))
        } else {
            None
        };
        (del, self.add_rule_args(rule))
    }
}

/// Whether a string equals the given text.
fn str_is(s: &String, lit: &str) -> (r: bool)
    ensures
        r == (s@ == lit@),
{
    let v = chars_of(s.as_str());
    eq_lit(&v, lit)
}

/// Law: deleting a rule uses the same match as adding it; only the
/// operation differs (`-D` in place of `-A`).
pub proof fn lemma_delete_mirrors_add(r: RuleView)
    ensures
        rule_args("-D"@, r) == rule_args("-A"@, r).update(0, "-D"@),
        rule_args("-A"@, r)[0] == "-A"@,
{
    let a = rule_args("-A"@, r);
    let d = rule_args("-D"@, r);
    assert(d =~= a.update(0, "-D"@));
}

/// Law: every parsed rule has a known action, a known protocol, the
/// "any" source and destination, the system origin and zero counters.
pub proof fn lemma_parsed_rule_shape(line: Seq<char>, id: usize)
    ensures
        rule_of_line(line, id) matches Some(r) ==> {
            &&& r.id == id
            &&& (r.action == "ACCEPT"@ || r.action == "DROP"@ || r.action == "REJECT"@
                || r.action == "UNKNOWN"@)
            &&& (r.protocol == "tcp"@ || r.protocol == "udp"@ || r.protocol == "icmp"@
                || r.protocol == "all"@)
            &&& r.source == any_address()
            &&& r.destination == any_address()
            &&& r.origin == RuleOrigin::System
            &&& r.packets == 0
            &&& r.bytes == 0
        },
{
}

/// Law: the rules of a listing are numbered consecutively from `id`.
pub proof fn lemma_rules_numbered(ls: Seq<Seq<char>>, id: int)
    requires
        1 <= id,
        id + ls.len() <= usize::MAX,
    ensures
        forall|k: int|
            0 <= k < rules_of_lines(ls, id).len() ==> #[trigger] rules_of_lines(ls, id)[k].id
                == id + k,
        rules_of_lines(ls, id).len() <= ls.len(),
    decreases ls.len(),
{
    if ls.len() > 0 {
        lemma_rules_numbered(ls.drop_first(), id + 1);
        lemma_rules_numbered(ls.drop_first(), id);
        let t = trim(ls[0]);
        if !is_header(t) {
            match rule_of_line(t, id as usize) {
                Some(r) => {
                    let rest = rules_of_lines(ls.drop_first(), id + 1);
                    assert forall|k: int|
                        0 <= k < rules_of_lines(ls, id).len() implies #[trigger] rules_of_lines(
                        ls,
                        id,
                    )[k].id == id + k by {
                        if k > 0 {
                            assert(rules_of_lines(ls, id)[k] == rest[k - 1]);
                        }
                    }
                },
                None => {},
            }
        }
    }
}

/// Law: the protocol column of a listed rule is kept when it names a
/// protocol (tcp, udp, icmp or all), and anything else counts as all; a
/// listed rule with a protocol is added back or deleted with `-p` and that
/// same column.
pub proof fn lemma_protocol_column_kept(line: Seq<char>, id: usize)
    ensures
        rule_of_line(line, id) matches Some(r) ==> {
            let col = tokens(trim(line))[2];
            &&& (col == "tcp"@ || col == "udp"@ || col == "icmp"@ || col == "all"@)
                ==> r.protocol == col
            &&& !(col == "tcp"@ || col == "udp"@ || col == "icmp"@ || col == "all"@)
                ==> r.protocol == "all"@
            &&& r.protocol != "all"@ ==> rule_args("-A"@, r)[2] == "-p"@ && rule_args(
                "-A"@,
                r,
            )[3] == col && rule_args("-D"@, r)[2] == "-p"@ && rule_args("-D"@, r)[3] == col
        },
{
}

} // verus!
