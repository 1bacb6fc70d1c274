//! The nftables backend: parsing `nft list ruleset` and building the
//! command lines that change the `ip filter input` chain.
use vstd::prelude::*;
use vstd::string::*;
use crate::firewall::{any_address, rule_views, FirewallError, FirewallRule, RuleOrigin, RuleView};
use crate::text::{
    byte_len, byte_len_prefix, char_at_byte, char_at_byte_exec, chars_of, concat2, contains,
    contains_lit, decimal, decimal_usize, eq_lit, find, find_exec, lines, lines_exec, lower_text,
    owned, slice_chars, starts_with, starts_with_lit, str_views, string_from, to_lowercase,
    trim, trim_chars, trim_matches_char, trim_matches_chars, views, opt_view,
};

verus! {

/// The nftables backend.
pub struct NftablesBackend;

/// Lines of the ruleset that are structure, not rules: empty lines and
/// lines that start with `table`, `chain`, `#`, `}` or `{`.
pub open spec fn is_skipped(t: Seq<char>) -> bool {
    ||| t.len() == 0
    ||| starts_with(t, "table"@)
    ||| starts_with(t, "chain"@)
    ||| starts_with(t, "#"@)
    ||| starts_with(t, "}"@)
    ||| starts_with(t, "{"@)
}

/// The action named in the (lower-cased) line; accept wins over drop,
/// drop over reject.
pub open spec fn action_of(lower: Seq<char>) -> Seq<char> {
    if contains(lower, "accept"@) {
        "ACCEPT"@
    } else if contains(lower, "drop"@) {
        "DROP"@
    } else if contains(lower, "reject"@) {
        "REJECT"@
    } else {
        "UNKNOWN"@
    }
}

/// The protocol named in the (lower-cased) line.
pub open spec fn protocol_of(lower: Seq<char>) -> Seq<char> {
    if contains(lower, "tcp"@) {
        "tcp"@
    } else if contains(lower, "udp"@) {
        "udp"@
    } else if contains(lower, "icmp"@) {
        "icmp"@
    } else {
        "all"@
    }
}

/// The byte offset, in the original line, just past the first occurrence
/// of `kw` in the lower-cased line: the position of the match in the
/// lower-cased text plus the length of `kw`, both in bytes.
pub open spec fn keyword_end(line: Seq<char>, kw: Seq<char>) -> Option<int> {
    let lower = lower_text(line);
    match find(lower, kw) {
        Some(ci) => Some((byte_len(lower.take(ci)) + byte_len(kw)) as int),
        None => None,
    }
}

/// The line can be cut at `keyword_end`: the offset falls on a character
/// boundary of the original line (cutting elsewhere panics).
pub open spec fn extract_defined(line: Seq<char>, kw: Seq<char>) -> bool {
    match keyword_end(line, kw) {
        Some(b) => char_at_byte(line, b) is Some,
        None => true,
    }
}

/// The value that follows a keyword: the trimmed rest of the line up to
/// its first space, with surrounding `{` and then `}` removed.
pub open spec fn token_after(after: Seq<char>) -> Seq<char> {
    let tok = match find(after, seq![' ']) {
        Some(e) => after.take(e),
        None => after,
    };
    trim_matches_char(trim_matches_char(tok, '{'), '}')
}

/// What `extract_after_keyword` returns.
pub open spec fn extract_after(line: Seq<char>, kw: Seq<char>) -> Option<Seq<char>> {
    match keyword_end(line, kw) {
        None => None,
        Some(b) => match char_at_byte(line, b) {
            Some(j) => Some(token_after(trim(line.skip(j)))),
            None => None,
        },
    }
}

/// The port of a line that mentions `dport`.
pub open spec fn port_of(line: Seq<char>) -> Option<Seq<char>> {
    if contains(lower_text(line), "dport"@) {
        match extract_after(line, "dport"@) {
            Some(p) => Some(p),
            None => extract_after(line, "port"@),
        }
    } else {
        None
    }
}

/// The line can be parsed without a panic.
pub open spec fn line_ok(line: Seq<char>) -> bool {
    contains(lower_text(line), "dport"@) ==> {
        &&& extract_defined(line, "dport"@)
        &&& (extract_after(line, "dport"@) is None ==> extract_defined(line, "port"@))
    }
}

/// The rule that one line of the ruleset gives, numbered `id`.
pub open spec fn rule_of_line(line: Seq<char>, id: usize) -> RuleView {
    let lower = lower_text(line);
    RuleView {
        id: id,
        action: action_of(lower),
        protocol: protocol_of(lower),
        port: port_of(line),
        source: any_address(),
        destination: any_address(),
        interface: None,
        origin: RuleOrigin::System,
        packets: 0,
        bytes: 0,
    }
}

/// The rules of a ruleset given as lines; the first is numbered `id`.
pub open spec fn rules_of_lines(ls: Seq<Seq<char>>, id: int) -> Seq<RuleView>
    decreases ls.len(),
{
    if ls.len() == 0 {
        Seq::empty()
    } else {
        let t = trim(ls[0]);
        if is_skipped(t) {
            rules_of_lines(ls.drop_first(), id)
        } else {
            seq![rule_of_line(t, id as usize)] + rules_of_lines(ls.drop_first(), id + 1)
        }
    }
}

/// Every rule line of the ruleset parses without a panic.
pub open spec fn lines_ok(ls: Seq<Seq<char>>) -> bool {
    forall|i: int|
        0 <= i < ls.len() && !is_skipped(trim(#[trigger] ls[i])) ==> line_ok(trim(ls[i]))
}

/// The rules of a whole ruleset, numbered from 1.
pub open spec fn rules_of_ruleset(s: Seq<char>) -> Seq<RuleView> {
    rules_of_lines(lines(s), 1)
}

/// The arguments of `nft` that add a rule to the `ip filter input` chain.
pub open spec fn add_args(r: RuleView) -> Seq<Seq<char>> {
    let base = seq!["add"@, "rule"@, "ip"@, "filter"@, "input"@];
    let with_proto = if r.protocol != "all"@ {
        base + seq!["meta"@, "l4proto"@, r.protocol]
    } else {
        base
    };
    let with_port = match r.port {
        Some(p) => with_proto + seq![r.protocol, "dport"@, p],
        None => with_proto,
    };
    let with_source = if r.source != any_address() {
        with_port + seq!["ip"@, "saddr"@, r.source]
    } else {
        with_port
    };
    let with_iface = match r.interface {
        Some(i) => with_source + seq!["iifname"@, i],
        None => with_source,
    };
    with_iface + seq![lower_text(r.action)]
}

/// The arguments of `nft` that empty the `ip filter input` chain.
pub open spec fn flush_args() -> Seq<Seq<char>> {
    seq!["flush"@, "rule"@, "ip"@, "filter"@, "input"@]
}

/// Result of `delete_rule` before any command runs: the rule number must be
/// between 1 and the number of listed rules; the chain is then rebuilt from
/// every listed rule but that one, in order.
pub open spec fn delete_plan(rule_id: usize, rules: Seq<RuleView>) -> Result<
    Seq<RuleView>,
    Seq<char>,
> {
    if rule_id == 0 || rule_id > rules.len() {
        Err("Invalid rule ID: "@ + decimal(rule_id as nat))
    } else {
        Ok(rules.remove(rule_id - 1))
    }
}

impl Default for NftablesBackend {
    fn default() -> (r: Self)
        ensures
            r == (NftablesBackend),
    {
        NftablesBackend::new()
    }
}

impl NftablesBackend {
    pub fn new() -> (r: Self)
        ensures
            r == (NftablesBackend),
    {
        NftablesBackend
    }

    pub fn name(&self) -> (r: &'static str)
        ensures
            r@ == "nftables"@,
    {
        "nftables"
    }

    /// Parses the output of `nft list ruleset`: structure lines are
    /// skipped and every other line becomes a rule, numbered from 1.
    pub fn parse_ruleset(&self, ruleset: &str) -> (r: Result<Vec<FirewallRule>, FirewallError>)
        requires
            lines_ok(lines(ruleset@)),
        ensures
            r matches Ok(rules) && rule_views(rules@) == rules_of_ruleset(ruleset@),
    {
        let v = chars_of(ruleset);
        let ls = lines_exec(&v);
        let mut rules: Vec<FirewallRule> = Vec::new();
        let mut i: usize = 0;
        assert(views(ls@).skip(0) =~= views(ls@));
        while i < ls.len()
            invariant
                i <= ls.len(),
                rules.len() <= i,
                views(ls@) == lines(ruleset@),
                lines_ok(views(ls@)),
                rules_of_lines(views(ls@), 1) == rule_views(rules@) + rules_of_lines(
                    views(ls@).skip(i as int),
                    rules.len() + 1,
                ),
            decreases ls.len() - i,
        {
            let ghost rest = views(ls@).skip(i as int);
            assert(rest[0] == ls@[i as int]@);
            assert(views(ls@)[i as int] == ls@[i as int]@);
            assert(rest.drop_first() =~= views(ls@).skip(i + 1));
            let t = trim_chars(&ls[i]);
            if !Self::is_skipped_exec(&t) {
                let id = rules.len() + 1;
                let line = string_from(&t);
                let rule = self.parse_rule_line(line.as_str(), id).unwrap();
                let ghost old_rules = rules@;
                rules.push(rule);
                assert(rule_views(rules@) =~= rule_views(old_rules) + seq![rule@]);
            }
            i = i + 1;
        }
        assert(views(ls@).skip(ls.len() as int) =~= Seq::<Seq<char>>::empty());
        assert(rule_views(rules@) + Seq::<RuleView>::empty() =~= rule_views(rules@));
        Ok(rules)
    }

    /// Parses the ruleset when every rule line can be parsed, and gives
    /// `None` when some line would make `parse_ruleset` panic (a keyword
    /// whose position in the lower-cased line is not a character boundary
    /// of the line itself).
    pub fn try_parse_ruleset(&self, ruleset: &str) -> (r: Option<Vec<FirewallRule>>)
        ensures
            r is Some <==> lines_ok(lines(ruleset@)),
            r matches Some(rules) ==> rule_views(rules@) == rules_of_ruleset(ruleset@),
    {
        let v = chars_of(ruleset);
        let ls = lines_exec(&v);
        let mut i: usize = 0;
        while i < ls.len()
            invariant
                i <= ls.len(),
                views(ls@) == lines(ruleset@),
                forall|k: int|
                    0 <= k < i && !is_skipped(trim(#[trigger] views(ls@)[k])) ==> line_ok(
                        trim(views(ls@)[k]),
                    ),
            decreases ls.len() - i,
        {
            assert(views(ls@)[i as int] == ls@[i as int]@);
            let t = trim_chars(&ls[i]);
            if !Self::is_skipped_exec(&t) {
                let line = string_from(&t);
                if !Self::line_ok_exec(line.as_str()) {
                    assert(!line_ok(trim(views(ls@)[i as int])));
                    assert(!lines_ok(views(ls@)));
                    return None;
                }
            }
            i = i + 1;
        }
        match self.parse_ruleset(ruleset) {
            Ok(rules) => Some(rules),
            Err(_) => None,
        }
    }

    fn is_skipped_exec(t: &Vec<char>) -> (r: bool)
        ensures
            r == is_skipped(t@),
    {
        t.len() == 0 || starts_with_lit(t, "table") || starts_with_lit(t, "chain")
            || starts_with_lit(t, "#") || starts_with_lit(t, "}") || starts_with_lit(t, "{")
    }

    fn line_ok_exec(line: &str) -> (r: bool)
        ensures
            r == line_ok(line@),
    {
        let lower_s = to_lowercase(line);
        let lower = chars_of(lower_s.as_str());
        if !contains_lit(&lower, "dport") {
            return true;
        }
        match Self::extract_checked(line, "dport") {
            None => false,
            Some(Some(_)) => true,
            Some(None) => Self::extract_checked(line, "port").is_some(),
        }
    }

    /// Parses one rule line: the action and the protocol are the first of
    /// their keywords found in the lower-cased line, and the port is the
    /// value after `dport`.
    pub fn parse_rule_line(&self, line: &str, id: usize) -> (r: Option<FirewallRule>)
        requires
            line_ok(line@),
        ensures
            r matches Some(rule) && rule@ == rule_of_line(line@, id),
    {
        let lower_s = to_lowercase(line);
        let lower = chars_of(lower_s.as_str());
        let action = if contains_lit(&lower, "accept") {
            owned("ACCEPT")
        } else if contains_lit(&lower, "drop") {
            owned("DROP")
        } else if contains_lit(&lower, "reject") {
            owned("REJECT")
        } else {
            owned("UNKNOWN")
        };
        let protocol = if contains_lit(&lower, "tcp") {
            owned("tcp")
        } else if contains_lit(&lower, "udp") {
            owned("udp")
        } else if contains_lit(&lower, "icmp") {
            owned("icmp")
        } else {
            owned("all")
        };
        let port = if contains_lit(&lower, "dport") {
            match self.extract_after_keyword(line, "dport") {
                Some(p) => Some(p),
                None => self.extract_after_keyword(line, "port"),
            }
        } else {
            None
        };
        Some(
            FirewallRule {
                id,
                action,
                protocol,
                port,
                source: owned("0.0.0.0/0"),
                destination: owned("0.0.0.0/0"),
                interface: None,
                origin: RuleOrigin::System,
                packets: 0,
                bytes: 0,
            },
        )
    }

    /// The value after the first case-insensitive occurrence of `keyword`:
    /// the rest of the line is trimmed, cut at its first space, and
    /// stripped of `{` and `}`.
    pub fn extract_after_keyword(&self, line: &str, keyword: &str) -> (r: Option<String>)
        requires
            extract_defined(line@, keyword@),
        ensures
            opt_view(r) == extract_after(line@, keyword@),
    {
        Self::extract_checked(line, keyword).unwrap()
    }

    /// `None` where the original cut would panic; otherwise the value.
    fn extract_checked(line: &str, keyword: &str) -> (r: Option<Option<String>>)
        ensures
            r is Some <==> extract_defined(line@, keyword@),
            r matches Some(x) ==> opt_view(x) == extract_after(line@, keyword@),
    {
        let lower_s = to_lowercase(line);
        let lower = chars_of(lower_s.as_str());
        let kw = chars_of(keyword);
        let lv = chars_of(line);
        match find_exec(&lower, &kw, 0) {
            None => Some(None),
            Some(ci) => {
                proof {
                    crate::text::lemma_find_from(lower@, kw@, 0);
                }
                let a = byte_len_prefix(&lower, ci);
                let k = byte_len_prefix(&kw, kw.len());
                assert(kw@.take(kw.len() as int) =~= kw@);
                let b = a + k;
                match char_at_byte_exec(&lv, b) {
                    None => None,
                    Some(j) => {
                        proof {
                            crate::text::lemma_char_at_byte_bound(lv@, b as int);
                        }
                        let rest = slice_chars(&lv, j, lv.len());
                        assert(rest@ =~= lv@.skip(j as int));
                        let after = trim_chars(&rest);
                        let tok = Self::token_after_exec(&after);
                        Some(Some(string_from(&tok)))
                    },
                }
            },
        }
    }

    fn token_after_exec(after: &Vec<char>) -> (r: Vec<char>)
        ensures
            r@ == token_after(after@),
    {
        let sp: Vec<char> = vec![' '];
        assert(sp@ =~= seq![' ']);
        let tok = match find_exec(after, &sp, 0) {
            Some(e) => {
                proof {
                    crate::text::lemma_find_from(after@, sp@, 0);
                }
                assert(after@.subrange(0, e as int) =~= after@.take(e as int));
                slice_chars(after, 0, e)
            },
            None => {
                assert(after@.subrange(0, after@.len() as int) =~= after@);
                slice_chars(after, 0, after.len())
            },
        };
        let t1 = trim_matches_chars(&tok, '{');
        trim_matches_chars(&t1, '}')
    }

    /// The arguments of the `nft` command that adds `rule`.
    pub fn add_rule_args(&self, rule: &FirewallRule) -> (r: Vec<String>)
        ensures
            str_views(r@) == add_args(rule@),
    {
        let mut args: Vec<String> = Vec::new();
        args.push(owned("add"));
        args.push(owned("rule"));
        args.push(owned("ip"));
        args.push(owned("filter"));
        args.push(owned("input"));
        let ghost base = seq!["add"@, "rule"@, "ip"@, "filter"@, "input"@];
        assert(str_views(args@) =~= base);
        let all = chars_of("all");
        let proto = chars_of(rule.protocol.as_str());
        if !crate::text::chars_eq(&proto, &all) {
            args.push(owned("meta"));
            args.push(owned("l4proto"));
            args.push(rule.protocol.clone());
        }
        let ghost with_proto = str_views(args@);
        assert(with_proto =~= if rule.protocol@ != "all"@ {
            base + seq!["meta"@, "l4proto"@, rule.protocol@]
        } else {
            base
        });
        match &rule.port {
            Some(p) => {
                args.push(rule.protocol.clone());
                args.push(owned("dport"));
                args.push(p.clone());
            },
            None => {},
        }
        let ghost with_port = str_views(args@);
        assert(with_port =~= match rule@.port {
            Some(p) => with_proto + seq![rule.protocol@, "dport"@, p],
            None => with_proto,
        });
        let src = chars_of(rule.source.as_str());
        if !eq_lit(&src, "0.0.0.0/0") {
            args.push(owned("ip"));
            args.push(owned("saddr"));
            args.push(rule.source.clone());
        }
        let ghost with_source = str_views(args@);
        assert(with_source =~= if rule.source@ != any_address() {
            with_port + seq!["ip"@, "saddr"@, rule.source@]
        } else {
            with_port
        });
        match &rule.interface {
            Some(i) => {
                args.push(owned("iifname"));
                args.push(i.clone());
            },
            None => {},
        }
        let ghost with_iface = str_views(args@);
        assert(with_iface =~= match rule@.interface {
            Some(i) => with_source + seq!["iifname"@, i],
            None => with_source,
        });
        args.push(to_lowercase(rule.action.as_str()));
        assert(str_views(args@) =~= with_iface + seq![lower_text(rule.action@)]);
        args
    }

    /// The arguments of the `nft` command that empties the input chain.
    pub fn flush_args(&self) -> (r: Vec<String>)
        ensures
            str_views(r@) == flush_args(),
    {
        let mut args: Vec<String> = Vec::new();
        args.push(owned("flush"));
        args.push(owned("rule"));
        args.push(owned("ip"));
        args.push(owned("filter"));
        args.push(owned("input"));
        assert(str_views(args@) =~= flush_args());
        args
    }

    /// Checks a rule number against the current listing and gives the rules
    /// that are added again after the chain is flushed.
    pub fn plan_delete(&self, rule_id: usize, rules: &Vec<FirewallRule>) -> (r: Result<
        Vec<FirewallRule>,
        FirewallError,
    >)
        ensures
            match delete_plan(rule_id, rule_views(rules@)) {
                Ok(keep) => r matches Ok(v) && rule_views(v@) == keep,
                Err(msg) => r matches Err(FirewallError::InvalidRule(m)) && m@ == msg,
            },
    {
        if rule_id == 0 || rule_id > rules.len() {
            let n = decimal_usize(rule_id);
            return Err(FirewallError::InvalidRule(concat2("Invalid rule ID: ", n.as_str())));
        }
        let mut keep: Vec<FirewallRule> = Vec::new();
        let mut i: usize = 0;
        while i < rules.len()
            invariant
                1 <= rule_id <= rules.len(),
                i <= rules.len(),
                rule_views(keep@) == (if i < rule_id {
                    rule_views(rules@).take(i as int)
                } else {
                    rule_views(rules@).take(i as int).remove(rule_id - 1)
                }),
            decreases rules.len() - i,
        {
            let ghost old_keep = keep@;
            if i + 1 != rule_id {
                keep.push(rules[i].clone());
                assert(rule_views(keep@) =~= rule_views(old_keep).push(rules@[i as int]@));
            }
            i = i + 1;
            assert(rule_views(keep@) =~= (if i < rule_id {
                rule_views(rules@).take(i as int)
            } else {
                rule_views(rules@).take(i as int).remove(rule_id - 1)
            }));
        }
        assert(rule_views(rules@).take(rules.len() as int) =~= rule_views(rules@));
        Ok(keep)
    }
}

/// Law: every rule read from a ruleset has a known action, a known
/// protocol, the "any" source and destination, no interface, the system
/// origin and zero counters.
pub proof fn lemma_parsed_rule_shape(line: Seq<char>, id: usize)
    ensures
        ({
            let r = rule_of_line(line, id);
            &&& r.id == id
            &&& (r.action == "ACCEPT"@ || r.action == "DROP"@ || r.action == "REJECT"@
                || r.action == "UNKNOWN"@)
            &&& (r.protocol == "tcp"@ || r.protocol == "udp"@ || r.protocol == "icmp"@
                || r.protocol == "all"@)
            &&& r.source == any_address()
            &&& r.destination == any_address()
            &&& r.interface is None
            &&& r.origin == RuleOrigin::System
            &&& r.packets == 0
            &&& r.bytes == 0
        }),
{
}

/// Law: the rules of a ruleset are numbered consecutively from `id`, one
/// per line that is not structure.
pub proof fn lemma_rules_numbered(ls: Seq<Seq<char>>, id: int)
    requires
        1 <= id,
        id + ls.len() <= usize::MAX,
    ensures
        forall|k: int|
            0 <= k < rules_of_lines(ls, id).len() ==> #[trigger] rules_of_lines(ls, id)[k].id
                == id + k,
        rules_of_lines(ls, id).len() <= ls.len(),
    decreases ls.len(),
{
    if ls.len() > 0 {
        lemma_rules_numbered(ls.drop_first(), id + 1);
        lemma_rules_numbered(ls.drop_first(), id);
        let t = trim(ls[0]);
        if !is_skipped(t) {
            let rest = rules_of_lines(ls.drop_first(), id + 1);
            assert forall|k: int|
                0 <= k < rules_of_lines(ls, id).len() implies #[trigger] rules_of_lines(
                ls,
                id,
            )[k].id == id + k by {
                if k > 0 {
                    assert(rules_of_lines(ls, id)[k] == rest[k - 1]);
                }
            }
        }
    }
}

/// Law: a rule restricted to a source address is added with `ip saddr`
/// and that address, as iptables adds it with `-s` and that address.
pub proof fn lemma_source_restriction(r: RuleView)
    requires
        r.source != any_address(),
    ensures
        exists|i: int|
            0 <= i && i + 2 < add_args(r).len() && #[trigger] add_args(r)[i] == "ip"@ && add_args(
                r,
            )[i + 1] == "saddr"@ && add_args(r)[i + 2] == r.source,
        exists|j: int|
            0 <= j && j + 1 < crate::firewall::iptables::rule_args("-A"@, r).len()
                && #[trigger] crate::firewall::iptables::rule_args("-A"@, r)[j] == "-s"@
                && crate::firewall::iptables::rule_args("-A"@, r)[j + 1] == r.source,
{
    let base = seq!["add"@, "rule"@, "ip"@, "filter"@, "input"@];
    let with_proto = if r.protocol != "all"@ {
        base + seq!["meta"@, "l4proto"@, r.protocol]
    } else {
        base
    };
    let with_port = match r.port {
        Some(p) => with_proto + seq![r.protocol, "dport"@, p],
        None => with_proto,
    };
    let i = with_port.len() as int;
    assert(add_args(r)[i] == "ip"@);
    let ibase = seq!["-A"@, "INPUT"@];
    let iproto = if r.protocol != "all"@ {
        ibase + seq!["-p"@, r.protocol]
    } else {
        ibase
    };
    let iport = match r.port {
        Some(p) => iproto + seq!["--dport"@, p],
        None => iproto,
    };
    let j = iport.len() as int;
    assert(crate::firewall::iptables::rule_args("-A"@, r)[j] == "-s"@);
}

} // verus!
