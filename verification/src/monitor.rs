//! Traffic monitoring: reading blocked packets out of kernel log lines and
//! summing them up per address and per port.
use vstd::prelude::*;
use vstd::string::*;
use crate::ranking::{item_views, sort_desc, sorted_desc, Ranked};
use crate::text::{
    chars_of, concat2, contains, contains_lit, decimal, decimal_string, find,
    find_exec, is_whitespace_char, lemma_find_from, lemma_find_shift, lemma_word_len, lines,
    lines_exec, lower_text, opt_view, owned, slice_chars, str_eq, string_from, to_lowercase,
    views, word_len,
};
use crate::time::Timestamp;

verus! {

/// Blocked traffic from one address.
#[derive(Debug, Clone)]
pub struct BlockedEntry {
    pub ip_address: String,
    pub port: String,
    pub protocol: String,
    pub attempts: u64,
    pub last_seen: Timestamp,
}

/// The content of a blocked-traffic entry, without its time.
pub struct EntryView {
    pub ip: Seq<char>,
    pub port: Seq<char>,
    pub protocol: Seq<char>,
    pub attempts: nat,
}

impl View for BlockedEntry {
    type V = EntryView;

    open spec fn view(&self) -> EntryView {
        EntryView {
            ip: self.ip_address@,
            port: self.port@,
            protocol: self.protocol@,
            attempts: self.attempts as nat,
        }
    }
}

impl Ranked for BlockedEntry {
    open spec fn rank(&self) -> nat {
        self.attempts as nat
    }

    fn rank_exec(&self) -> (r: u64) {
        self.attempts
    }
}

/// A key (an address or a port) with its count.
pub struct Tally(pub String, pub u64);

impl View for Tally {
    type V = (Seq<char>, u64);

    open spec fn view(&self) -> (Seq<char>, u64) {
        (self.0@, self.1)
    }
}

impl Ranked for Tally {
    open spec fn rank(&self) -> nat {
        self.1 as nat
    }

    fn rank_exec(&self) -> (r: u64) {
        self.1
    }
}

/// Statistics over a time window.
#[derive(Debug)]
pub struct TrafficStats {
    pub blocked_packets: u64,
    pub blocked_bytes: u64,
    pub blocked_entries: Vec<BlockedEntry>,
    pub most_attacked_ports: Vec<(String, u64)>,
    pub most_blocked_ips: Vec<(String, u64)>,
    pub time_window_seconds: u64,
}

/// The views of a list of (key, count) pairs.
pub open spec fn pair_views(s: Seq<(String, u64)>) -> Seq<(Seq<char>, u64)> {
    s.map_values(|p: (String, u64)| (p.0@, p.1))
}

impl TrafficStats {
    /// Empty statistics for a window of `time_window_seconds`.
    pub fn new(time_window_seconds: u64) -> (r: Self)
        ensures
            r.blocked_packets == 0,
            r.blocked_bytes == 0,
            r.blocked_entries@.len() == 0,
            r.most_attacked_ports@.len() == 0,
            r.most_blocked_ips@.len() == 0,
            r.time_window_seconds == time_window_seconds,
    {
        TrafficStats {
            blocked_packets: 0,
            blocked_bytes: 0,
            blocked_entries: Vec::new(),
            most_attacked_ports: Vec::new(),
            most_blocked_ips: Vec::new(),
            time_window_seconds,
        }
    }

    pub fn with_blocked_packets(self, count: u64) -> (r: Self)
        ensures
            r == (TrafficStats { blocked_packets: count, ..self }),
    {
        let mut s = self;
        s.blocked_packets = count;
        s
    }

    pub fn with_blocked_bytes(self, bytes: u64) -> (r: Self)
        ensures
            r == (TrafficStats { blocked_bytes: bytes, ..self }),
    {
        let mut s = self;
        s.blocked_bytes = bytes;
        s
    }

    pub fn with_blocked_entries(self, entries: Vec<BlockedEntry>) -> (r: Self)
        ensures
            r == (TrafficStats { blocked_entries: entries, ..self }),
    {
        let mut s = self;
        s.blocked_entries = entries;
        s
    }

    pub fn with_most_attacked_ports(self, ports: Vec<(String, u64)>) -> (r: Self)
        ensures
            r == (TrafficStats { most_attacked_ports: ports, ..self }),
    {
        let mut s = self;
        s.most_attacked_ports = ports;
        s
    }

    pub fn with_most_blocked_ips(self, ips: Vec<(String, u64)>) -> (r: Self)
        ensures
            r == (TrafficStats { most_blocked_ips: ips, ..self }),
    {
        let mut s = self;
        s.most_blocked_ips = ips;
        s
    }
}

/// The errors of the traffic monitor.
#[derive(Debug, Clone)]
pub enum MonitoringError {
    ParseError(String),
    IoError(String),
    LogFileNotFound(String),
    UnsupportedBackend(String),
}

/// The message shown for a monitoring error.
pub open spec fn monitoring_error_text(e: MonitoringError) -> Seq<char> {
    match e {
        MonitoringError::ParseError(s) => "Parse error: "@ + s@,
        MonitoringError::IoError(s) => "IO error: "@ + s@,
        MonitoringError::LogFileNotFound(s) => "Log file not found: "@ + s@,
        MonitoringError::UnsupportedBackend(s) => "Unsupported backend: "@ + s@,
    }
}

impl MonitoringError {
    /// The message of the error, as its `Display` shows it.
    pub fn message(&self) -> (r: String)
        ensures
            r@ == monitoring_error_text(*self),
    {
        match self {
            MonitoringError::ParseError(s) => concat2("Parse error: ", s.as_str()),
            MonitoringError::IoError(s) => concat2("IO error: ", s.as_str()),
            MonitoringError::LogFileNotFound(s) => concat2("Log file not found: ", s.as_str()),
            MonitoringError::UnsupportedBackend(s) => concat2("Unsupported backend: ", s.as_str()),
        }
    }
}

// ---------------------------------------------------------------------
// Kernel log lines
// ---------------------------------------------------------------------

/// The value after the first occurrence of `prefix`, up to the next
/// whitespace or the end of the line.
pub open spec fn log_field(line: Seq<char>, prefix: Seq<char>) -> Option<Seq<char>> {
    match find(line, prefix) {
        Some(i) => {
            let rest = line.skip(i + prefix.len());
            Some(rest.take(word_len(rest) as int))
        },
        None => None,
    }
}

/// A field looked up under its upper-case and then its lower-case key.
pub open spec fn field_or_unknown(line: Seq<char>, upper: Seq<char>, lower: Seq<char>) -> Seq<
    char,
> {
    match log_field(line, upper) {
        Some(v) => v,
        None => match log_field(line, lower) {
            Some(v) => v,
            None => "unknown"@,
        },
    }
}

/// A log line is about the firewall when it mentions firewall, drop,
/// reject or block, in any case.
pub open spec fn is_firewall_line(lower: Seq<char>) -> bool {
    ||| contains(lower, "firewall"@)
    ||| contains(lower, "drop"@)
    ||| contains(lower, "reject"@)
    ||| contains(lower, "block"@)
}

/// The protocol a log line mentions.
pub open spec fn log_protocol(lower: Seq<char>) -> Seq<char> {
    if contains(lower, "tcp"@) {
        "tcp"@
    } else if contains(lower, "udp"@) {
        "udp"@
    } else if contains(lower, "icmp"@) {
        "icmp"@
    } else {
        "unknown"@
    }
}

/// What one log line reports: one blocked attempt from `SRC=` to `DPT=`.
pub open spec fn log_entry(line: Seq<char>) -> Option<EntryView> {
    let lower = lower_text(line);
    if !is_firewall_line(lower) {
        None
    } else {
        Some(
            EntryView {
                ip: field_or_unknown(line, "SRC="@, "src="@),
                port: field_or_unknown(line, "DPT="@, "dpt="@),
                protocol: log_protocol(lower),
                attempts: 1,
            },
        )
    }
}

/// The entries reported by a sequence of lines, in order.
pub open spec fn log_entries(ls: Seq<Seq<char>>) -> Seq<EntryView>
    decreases ls.len(),
{
    if ls.len() == 0 {
        Seq::empty()
    } else {
        match log_entry(ls.last()) {
            Some(e) => log_entries(ls.drop_last()).push(e),
            None => log_entries(ls.drop_last()),
        }
    }
}

/// The position of the entry for `ip`, searching from the front.
pub open spec fn ip_index(gs: Seq<EntryView>, ip: Seq<char>) -> Option<int>
    decreases gs.len(),
{
    if gs.len() == 0 {
        None
    } else if gs[0].ip == ip {
        Some(0)
    } else {
        match ip_index(gs.drop_first(), ip) {
            Some(k) => Some(k + 1),
            None => None,
        }
    }
}

/// Adds one report: its attempts go to the entry of its address, or it
/// becomes a new entry.
pub open spec fn group_add(gs: Seq<EntryView>, e: EntryView) -> Seq<EntryView> {
    match ip_index(gs, e.ip) {
        Some(k) => gs.update(
            k,
            EntryView {
                ip: gs[k].ip,
                port: gs[k].port,
                protocol: gs[k].protocol,
                attempts: gs[k].attempts + e.attempts,
            },
        ),
        None => gs.push(e),
    }
}

/// The reports grouped by address, in order of first appearance.
pub open spec fn grouped(es: Seq<EntryView>) -> Seq<EntryView>
    decreases es.len(),
{
    if es.len() == 0 {
        Seq::empty()
    } else {
        group_add(grouped(es.drop_last()), es.last())
    }
}

/// Adds one report to the groups of whole entries: a report from an
/// address already seen adds its attempts to that group, which keeps its
/// port and protocol and takes the report's time; a report from a new
/// address becomes a new group.
pub open spec fn group_report(gs: Seq<BlockedEntry>, e: BlockedEntry) -> Seq<BlockedEntry> {
    match ip_index(item_views(gs), e.ip_address@) {
        Some(k) => gs.update(
            k,
            BlockedEntry {
                ip_address: gs[k].ip_address,
                port: gs[k].port,
                protocol: gs[k].protocol,
                attempts: (gs[k].attempts + e.attempts) as u64,
                last_seen: e.last_seen,
            },
        ),
        None => gs.push(e),
    }
}

/// The reports grouped by address, in order of first appearance; each group
/// carries the time of its latest report.
pub open spec fn grouped_reports(s: Seq<BlockedEntry>) -> Seq<BlockedEntry>
    decreases s.len(),
{
    if s.len() == 0 {
        Seq::empty()
    } else {
        group_report(grouped_reports(s.drop_last()), s.last())
    }
}

/// The entries of a kernel log, one per address, in first-appearance order.
pub open spec fn kernel_log_entries(content: Seq<char>) -> Seq<EntryView> {
    grouped(log_entries(lines(content)))
}

/// The sum of the attempts.
pub open spec fn total_attempts(s: Seq<EntryView>) -> nat
    decreases s.len(),
{
    if s.len() == 0 {
        0
    } else {
        total_attempts(s.drop_last()) + s.last().attempts
    }
}

// ---------------------------------------------------------------------
// Counting by key
// ---------------------------------------------------------------------

/// The position of `key`, searching from the front.
pub open spec fn key_index(gs: Seq<(Seq<char>, u64)>, key: Seq<char>) -> Option<int>
    decreases gs.len(),
{
    if gs.len() == 0 {
        None
    } else if gs[0].0 == key {
        Some(0)
    } else {
        match key_index(gs.drop_first(), key) {
            Some(k) => Some(k + 1),
            None => None,
        }
    }
}

/// Adds `n` to the count of `key`, or appends it with count `n`.
pub open spec fn tally_add(gs: Seq<(Seq<char>, u64)>, key: Seq<char>, n: u64) -> Seq<
    (Seq<char>, u64),
> {
    match key_index(gs, key) {
        Some(k) => gs.update(k, (key, (gs[k].1 + n) as u64)),
        None => gs.push((key, n)),
    }
}

/// The attempts of the entries summed per address.
pub open spec fn per_ip(es: Seq<EntryView>) -> Seq<(Seq<char>, u64)>
    decreases es.len(),
{
    if es.len() == 0 {
        Seq::empty()
    } else {
        tally_add(per_ip(es.drop_last()), es.last().ip, es.last().attempts as u64)
    }
}

/// The attempts of the entries summed per port.
pub open spec fn per_port(es: Seq<EntryView>) -> Seq<(Seq<char>, u64)>
    decreases es.len(),
{
    if es.len() == 0 {
        Seq::empty()
    } else {
        tally_add(per_port(es.drop_last()), es.last().port, es.last().attempts as u64)
    }
}

/// Counts never increase along the list.
pub open spec fn counts_desc(s: Seq<(Seq<char>, u64)>) -> bool {
    forall|i: int, j: int| 0 <= i < j < s.len() ==> s[i].1 >= s[j].1
}

/// At most the first `n` items.
pub open spec fn first_n<A>(s: Seq<A>, n: int) -> Seq<A> {
    if s.len() <= n {
        s
    } else {
        s.take(n)
    }
}

/// `top` is the first ten of some ordering of `counts` by decreasing count
/// (entries with equal counts may come in any order).
pub open spec fn is_top_ten(top: Seq<(Seq<char>, u64)>, counts: Seq<(Seq<char>, u64)>) -> bool {
    exists|s: Seq<(Seq<char>, u64)>|
        #![trigger first_n(s, 10)]
        s.to_multiset() == counts.to_multiset() && counts_desc(s) && top == first_n(s, 10)
}

/// Non-overlapping occurrences of `pat`, searched from the left
/// (`str::matches(pat).count()`).
pub open spec fn count_matches(s: Seq<char>, pat: Seq<char>) -> nat
    decreases s.len(),
{
    if pat.len() == 0 {
        0
    } else {
        match find(s, pat) {
            Some(i) => {
                proof {
                    lemma_find_from(s, pat, 0);
                }
                1 + count_matches(s.skip(i + pat.len()), pat)
            },
            None => 0,
        }
    }
}

/// `extract_log_field`: the value after `prefix`, up to the next
/// whitespace.
pub fn extract_log_field(line: &str, prefix: &str) -> (r: Option<String>)
    ensures
        opt_view(r) == log_field(line@, prefix@),
{
    let v = chars_of(line);
    let p = chars_of(prefix);
    match find_exec(&v, &p, 0) {
        None => None,
        Some(i) => {
            proof {
                lemma_find_from(v@, p@, 0);
            }
            let n = v.len();
            let plen = p.len();
            assert(i + plen <= n);
            let start = i + plen;
            let ghost rest = v@.skip(start as int);
            let mut end: usize = start;
            assert(v@.skip(start as int) =~= rest);
            while end < v.len() && !is_whitespace_char(v[end])
                invariant
                    start <= end <= v.len(),
                    rest == v@.skip(start as int),
                    word_len(rest) == (end - start) + word_len(v@.skip(end as int)),
                decreases v.len() - end,
            {
                assert(v@.skip(end as int).drop_first() =~= v@.skip(end + 1));
                end = end + 1;
            }
            proof {
                lemma_word_len(rest);
                assert(rest.take((end - start) as int) =~= v@.subrange(start as int, end as int));
            }
            let w = slice_chars(&v, start, end);
            Some(string_from(&w))
        },
    }
}

/// Keeps the first `limit` items of an already ordered list.
pub fn sorted_ids_into_vec<T>(sorted: Vec<(T, u64)>, limit: usize) -> (r: Vec<(T, u64)>)
    ensures
        r@ == first_n(sorted@, limit as int),
{
    let mut s = sorted;
    s.truncate(limit);
    assert(s@ =~= first_n(sorted@, limit as int));
    s
}

/// The monitor of blocked traffic.
pub struct TrafficMonitor {
    backend: String,
    time_window: u64,
}

impl TrafficMonitor {
    /// The backend whose logs are read.
    pub closed spec fn backend_view(&self) -> Seq<char> {
        self.backend@
    }

    /// The time window, in seconds.
    pub closed spec fn window_view(&self) -> u64 {
        self.time_window
    }

    pub fn new(backend: String, time_window_seconds: u64) -> (r: Self)
        ensures
            r.backend_view() == backend@,
            r.window_view() == time_window_seconds,
    {
        TrafficMonitor { backend, time_window: time_window_seconds }
    }

    pub fn backend(&self) -> (r: &str)
        ensures
            r@ == self.backend_view(),
    {
        self.backend.as_str()
    }

    pub fn time_window(&self) -> (r: u64)
        ensures
            r == self.window_view(),
    {
        self.time_window
    }

    /// Statistics can only be collected for nftables.
    pub fn check_backend(&self) -> (r: Result<(), MonitoringError>)
        ensures
            self.backend_view() == "nftables"@ ==> r is Ok,
            self.backend_view() != "nftables"@ ==> (r matches Err(
                MonitoringError::UnsupportedBackend(b),
            ) && b@ == self.backend_view()),
    {
        if str_eq(self.backend.as_str(), "nftables") {
            Ok(())
        } else {
            Err(MonitoringError::UnsupportedBackend(self.backend.clone()))
        }
    }

    /// The arguments of the `journalctl` call that reads the kernel log of
    /// the time window: `-k --since "<window>s ago" -n 1000`.
    pub fn journal_args(&self) -> (r: Vec<String>)
        ensures
            crate::text::str_views(r@) == seq![
                "-k"@,
                "--since"@,
                decimal(self.window_view() as nat) + "s ago"@,
                "-n"@,
                "1000"@,
            ],
    {
        let mut args: Vec<String> = Vec::new();
        args.push(owned("-k"));
        args.push(owned("--since"));
        let n = decimal_string(self.time_window);
        args.push(concat2(n.as_str(), "s ago"));
        args.push(owned("-n"));
        args.push(owned("1000"));
        assert(crate::text::str_views(args@) =~= seq![
            "-k"@,
            "--since"@,
            decimal(self.time_window as nat) + "s ago"@,
            "-n"@,
            "1000"@,
        ]);
        args
    }

    /// The log files read when `journalctl` is not available, in order.
    pub fn kern_log_paths(&self) -> (r: Vec<&'static str>)
        ensures
            r@.len() == 3,
            r@[0]@ == "/var/log/kern.log"@,
            r@[1]@ == "/var/log/syslog"@,
            r@[2]@ == "/var/log/messages"@,
    {
        let mut v: Vec<&'static str> = Vec::new();
        v.push("/var/log/kern.log");
        v.push("/var/log/syslog");
        v.push("/var/log/messages");
        v
    }

    /// Reads one kernel log line: lines about the firewall give one blocked
    /// attempt from the `SRC=` address to the `DPT=` port, stamped with the
    /// current time.
    pub fn parse_log_line(&self, line: &str) -> (r: Option<BlockedEntry>)
        ensures
            match r {
                Some(e) => log_entry(line@) == Some(e@),
                None => log_entry(line@) is None,
            },
    {
        let lower_s = to_lowercase(line);
        let lower = chars_of(lower_s.as_str());
        if !(contains_lit(&lower, "firewall") || contains_lit(&lower, "drop") || contains_lit(
            &lower,
            "reject",
        ) || contains_lit(&lower, "block")) {
            return None;
        }
        let ip_address = Self::field_or_unknown_exec(line, "SRC=", "src=");
        let port = Self::field_or_unknown_exec(line, "DPT=", "dpt=");
        let protocol = if contains_lit(&lower, "tcp") {
            owned("tcp")
        } else if contains_lit(&lower, "udp") {
            owned("udp")
        } else if contains_lit(&lower, "icmp") {
            owned("icmp")
        } else {
            owned("unknown")
        };
        Some(BlockedEntry { ip_address, port, protocol, attempts: 1, last_seen: Timestamp::now() })
    }

    fn field_or_unknown_exec(line: &str, upper: &str, lower: &str) -> (r: String)
        ensures
            r@ == field_or_unknown(line@, upper@, lower@),
    {
        match extract_log_field(line, upper) {
            Some(v) => v,
            None => match extract_log_field(line, lower) {
                Some(v) => v,
                None => owned("unknown"),
            },
        }
    }

    /// Reads a kernel log: each firewall line is one report stamped with the
    /// current time; the reports are grouped by address (as
    /// `group_reports` does) and ordered by decreasing attempts.
    pub fn parse_kernel_logs(&self, log_content: &str) -> (r: Vec<BlockedEntry>)
        ensures
            item_views(r@).to_multiset() == kernel_log_entries(log_content@).to_multiset(),
            sorted_desc(r@),
            exists|reports: Seq<BlockedEntry>|
                #![trigger grouped_reports(reports)]
                item_views(reports) == log_entries(lines(log_content@)) && r@.to_multiset()
                    == grouped_reports(reports).to_multiset(),
    {
        let v = chars_of(log_content);
        let ls = lines_exec(&v);
        let mut reports: Vec<BlockedEntry> = Vec::new();
        let mut i: usize = 0;
        assert(views(ls@).take(0) =~= Seq::<Seq<char>>::empty());
        while i < ls.len()
            invariant
                i <= ls.len(),
                reports@.len() <= i,
                item_views(reports@) == log_entries(views(ls@).take(i as int)),
                total_attempts(item_views(reports@)) == reports@.len(),
            decreases ls.len() - i,
        {
            let line = string_from(&ls[i]);
            let ghost prefix = views(ls@).take(i + 1);
            assert(prefix.drop_last() =~= views(ls@).take(i as int));
            assert(prefix.last() == ls@[i as int]@);
            match self.parse_log_line(line.as_str()) {
                None => {},
                Some(entry) => {
                    let ghost before = reports@;
                    reports.push(entry);
                    assert(item_views(reports@) =~= item_views(before).push(entry@));
                    assert(item_views(reports@).drop_last() =~= item_views(before));
                },
            }
            i = i + 1;
        }
        assert(views(ls@).take(ls.len() as int) =~= views(ls@));
        let ghost all = reports@;
        let groups = Self::group_reports(reports);
        let r = sort_desc(groups);
        assert(item_views(all) == log_entries(lines(log_content@)));
        assert(r@.to_multiset() == grouped_reports(all).to_multiset());
        r
    }

    /// A copy of a blocked-traffic entry.
    fn copy_entry(e: &BlockedEntry) -> (r: BlockedEntry)
        ensures
            r == *e,
    {
        BlockedEntry {
            ip_address: e.ip_address.clone(),
            port: e.port.clone(),
            protocol: e.protocol.clone(),
            attempts: e.attempts,
            last_seen: e.last_seen,
        }
    }

    /// Groups reports by address, in order of first appearance: a group keeps
    /// the address, port and protocol of its first report, sums the attempts
    /// of its reports, and carries the time of its latest report.
    pub fn group_reports(reports: Vec<BlockedEntry>) -> (r: Vec<BlockedEntry>)
        requires
            total_attempts(item_views(reports@)) <= u64::MAX,
        ensures
            r@ == grouped_reports(reports@),
            item_views(r@) == grouped(item_views(reports@)),
    {
        let ghost es = item_views(reports@);
        let mut groups: Vec<BlockedEntry> = Vec::new();
        let mut i: usize = 0;
        assert(reports@.take(0) =~= Seq::<BlockedEntry>::empty());
        assert(es.take(0) =~= Seq::<EntryView>::empty());
        while i < reports.len()
            invariant
                i <= reports@.len(),
                es == item_views(reports@),
                total_attempts(es) <= u64::MAX,
                groups@ == grouped_reports(reports@.take(i as int)),
                item_views(groups@) == grouped(es.take(i as int)),
                forall|k: int|
                    0 <= k < groups@.len() ==> #[trigger] groups@[k].attempts <= total_attempts(
                        es.take(i as int),
                    ),
            decreases reports.len() - i,
        {
            let e = Self::copy_entry(&reports[i]);
            let ghost gs = groups@;
            let ghost prefix = reports@.take(i + 1);
            assert(prefix.drop_last() =~= reports@.take(i as int));
            assert(prefix.last() == e);
            assert(es.take(i + 1).drop_last() =~= es.take(i as int));
            assert(es.take(i + 1).last() == e@);
            proof {
                lemma_total_prefix(es, i + 1);
            }
            match Self::find_ip(&groups, &e.ip_address) {
                Some(k) => {
                    let g = groups.remove(k);
                    let updated = BlockedEntry {
                        ip_address: g.ip_address,
                        port: g.port,
                        protocol: g.protocol,
                        attempts: g.attempts + e.attempts,
                        last_seen: e.last_seen,
                    };
                    groups.insert(k, updated);
                    assert(groups@ =~= group_report(gs, e));
                    assert(item_views(groups@) =~= group_add(item_views(gs), e@));
                },
                None => {
                    groups.push(e);
                    assert(groups@ =~= group_report(gs, e));
                    assert(item_views(groups@) =~= group_add(item_views(gs), e@));
                },
            }
            i = i + 1;
        }
        assert(reports@.take(reports@.len() as int) =~= reports@);
        assert(es.take(es.len() as int) =~= es);
        groups
    }

    /// The position of the group of `ip`.
    fn find_ip(groups: &Vec<BlockedEntry>, ip: &String) -> (r: Option<usize>)
        ensures
            match r {
                Some(k) => k < groups@.len() && ip_index(item_views(groups@), ip@) == Some(
                    k as int,
                ),
                None => ip_index(item_views(groups@), ip@) is None,
            },
    {
        let ghost gs = item_views(groups@);
        let mut j: usize = 0;
        assert(gs.skip(0) =~= gs);
        while j < groups.len()
            invariant
                j <= groups@.len(),
                gs == item_views(groups@),
                match ip_index(gs.skip(j as int), ip@) {
                    Some(x) => ip_index(gs, ip@) == Some(x + j),
                    None => ip_index(gs, ip@) is None,
                },
            decreases groups.len() - j,
        {
            assert(gs.skip(j as int)[0] == groups@[j as int]@);
            if str_eq(groups[j].ip_address.as_str(), ip.as_str()) {
                return Some(j);
            }
            assert(gs.skip(j as int).drop_first() =~= gs.skip(j + 1));
            j = j + 1;
        }
        assert(gs.skip(j as int) =~= Seq::<EntryView>::empty());
        None
    }

    /// Statistics from the grouped reports: the total of the attempts, and
    /// the ten addresses and the ten ports with the most attempts.
    pub fn stats_from_entries(&self, entries: Vec<BlockedEntry>) -> (r: TrafficStats)
        requires
            total_attempts(item_views(entries@)) <= u64::MAX,
        ensures
            r.blocked_packets == total_attempts(item_views(entries@)),
            r.blocked_bytes == 0,
            r.time_window_seconds == self.window_view(),
            r.blocked_entries@ == entries@,
            is_top_ten(pair_views(r.most_blocked_ips@), per_ip(item_views(entries@))),
            is_top_ten(pair_views(r.most_attacked_ports@), per_port(item_views(entries@))),
    {
        let ghost es = item_views(entries@);
        let mut total: u64 = 0;
        let mut ips: Vec<Tally> = Vec::new();
        let mut ports: Vec<Tally> = Vec::new();
        let mut i: usize = 0;
        assert(es.take(0) =~= Seq::<EntryView>::empty());
        while i < entries.len()
            invariant
                es == item_views(entries@),
                total_attempts(es) <= u64::MAX,
                i <= entries@.len(),
                total == total_attempts(es.take(i as int)),
                item_views(ips@) == per_ip(es.take(i as int)),
                item_views(ports@) == per_port(es.take(i as int)),
                forall|k: int| 0 <= k < ips@.len() ==> #[trigger] ips@[k].1 <= total,
                forall|k: int| 0 <= k < ports@.len() ==> #[trigger] ports@[k].1 <= total,
            decreases entries.len() - i,
        {
            let e = &entries[i];
            let ghost prefix = es.take(i + 1);
            assert(prefix.drop_last() =~= es.take(i as int));
            assert(prefix.last() == e@);
            proof {
                lemma_total_prefix(es, i + 1);
            }
            let ghost old_ips = ips@;
            let ghost old_ports = ports@;
            Self::tally_into(&mut ips, &e.ip_address, e.attempts, total);
            Self::tally_into(&mut ports, &e.port, e.attempts, total);
            total = total + e.attempts;
            i = i + 1;
        }
        assert(es.take(entries.len() as int) =~= es);
        let ghost ip_counts = item_views(ips@);
        let ghost port_counts = item_views(ports@);
        let sorted_ips = sort_desc(ips);
        let sorted_ports = sort_desc(ports);
        let ghost si = item_views(sorted_ips@);
        let ghost sp = item_views(sorted_ports@);
        let top_ips = Self::top_ten(sorted_ips);
        let top_ports = Self::top_ten(sorted_ports);
        assert(is_top_ten(pair_views(top_ips@), per_ip(es))) by {
            assert(si.to_multiset() == per_ip(es).to_multiset());
            assert(pair_views(top_ips@) == first_n(si, 10));
        }
        assert(is_top_ten(pair_views(top_ports@), per_port(es))) by {
            assert(sp.to_multiset() == per_port(es).to_multiset());
            assert(pair_views(top_ports@) == first_n(sp, 10));
        }
        TrafficStats {
            blocked_packets: total,
            blocked_bytes: 0,
            blocked_entries: entries,
            most_attacked_ports: top_ports,
            most_blocked_ips: top_ips,
            time_window_seconds: self.time_window,
        }
    }

    /// Adds `n` to the count of `key` (the counts stay below `bound + n`).
    fn tally_into(counts: &mut Vec<Tally>, key: &String, n: u64, bound: u64)
        requires
            bound + n <= u64::MAX,
            forall|k: int| 0 <= k < old(counts)@.len() ==> #[trigger] old(counts)@[k].1 <= bound,
        ensures
            item_views(final(counts)@) == tally_add(item_views(old(counts)@), key@, n),
            forall|k: int|
                0 <= k < final(counts)@.len() ==> #[trigger] final(counts)@[k].1 <= bound + n,
    {
        let ghost gs = item_views(counts@);
        let mut j: usize = 0;
        assert(gs.skip(0) =~= gs);
        while j < counts.len()
            invariant
                j <= counts@.len(),
                counts@ == old(counts)@,
                bound + n <= u64::MAX,
                forall|k: int| 0 <= k < counts@.len() ==> #[trigger] counts@[k].1 <= bound,
                gs == item_views(counts@),
                match key_index(gs.skip(j as int), key@) {
                    Some(x) => key_index(gs, key@) == Some(x + j),
                    None => key_index(gs, key@) is None,
                },
            decreases counts.len() - j,
        {
            assert(gs.skip(j as int)[0] == counts@[j as int]@);
            if str_eq(counts[j].0.as_str(), key.as_str()) {
                let old_item = counts.remove(j);
                assert(old_item.1 <= bound);
                counts.insert(j, Tally(key.clone(), old_item.1 + n));
                assert(item_views(counts@) =~= tally_add(gs, key@, n));
                return;
            }
            assert(gs.skip(j as int).drop_first() =~= gs.skip(j + 1));
            j = j + 1;
        }
        assert(gs.skip(j as int) =~= Seq::<(Seq<char>, u64)>::empty());
        counts.push(Tally(key.clone(), n));
        assert(item_views(counts@) =~= tally_add(gs, key@, n));
    }

    /// The first ten of an ordered list of counts, as pairs.
    fn top_ten(sorted: Vec<Tally>) -> (r: Vec<(String, u64)>)
        requires
            sorted_desc(sorted@),
        ensures
            pair_views(r@) == first_n(item_views(sorted@), 10),
            counts_desc(item_views(sorted@)),
    {
        let mut pairs: Vec<(String, u64)> = Vec::new();
        let mut rest = sorted;
        let ghost all = item_views(rest@);
        let n = rest.len();
        let mut k: usize = 0;
        assert(all.take(0) =~= Seq::<(Seq<char>, u64)>::empty());
        assert(all.skip(0) =~= all);
        while rest.len() > 0
            invariant
                all == item_views(sorted@),
                sorted_desc(sorted@),
                k + rest@.len() == n,
                n == sorted@.len(),
                pair_views(pairs@) == all.take(k as int),
                item_views(rest@) == all.skip(k as int),
            decreases rest.len(),
        {
            let ghost rest_before = rest@;
            let t = rest.remove(0);
            assert(item_views(rest_before)[0] == t@);
            assert(all[k as int] == t@);
            let ghost before = pairs@;
            let ghost tv = t@;
            pairs.push((t.0, t.1));
            assert(pair_views(pairs@) =~= pair_views(before).push(tv));
            assert(all.take(k + 1) =~= all.take(k as int).push(all[k as int]));
            assert(pair_views(pairs@) =~= all.take(k + 1));
            k = k + 1;
            assert(item_views(rest@) =~= item_views(rest_before).drop_first());
            assert(item_views(rest@) =~= all.skip(k as int));
        }
        assert(all.take(n as int) =~= all);
        assert forall|i: int, j: int| 0 <= i < j < all.len() implies all[i].1 >= all[j].1 by {
            assert(all[i] == sorted@[i]@ && all[j] == sorted@[j]@);
        }
        let r = sorted_ids_into_vec(pairs, 10);
        assert(pair_views(r@) =~= first_n(all, 10));
        r
    }

    /// Statistics when the log cannot be read: only the packet counter.
    pub fn stats_from_counter(&self, packet_count: u64) -> (r: TrafficStats)
        ensures
            r.blocked_packets == packet_count,
            r.blocked_bytes == 0,
            r.blocked_entries@.len() == 0,
            r.most_attacked_ports@.len() == 0,
            r.most_blocked_ips@.len() == 0,
            r.time_window_seconds == self.window_view(),
    {
        TrafficStats::new(self.time_window).with_blocked_packets(packet_count)
    }
}

/// The number of `drop` keywords in a ruleset listing, the fallback
/// counter of blocked traffic.
pub fn count_drop_rules(content: &str) -> (r: u64)
    ensures
        r == count_matches(content@, "drop"@),
{
    let v = chars_of(content);
    let pat = chars_of("drop");
    proof {
        reveal_strlit("drop");
    }
    let mut pos: usize = 0;
    let mut count: u64 = 0;
    assert(v@.skip(0) =~= v@);
    loop
        invariant
            pos <= v.len(),
            v@ == content@,
            pat@ == "drop"@,
            pat@.len() > 0,
            count <= pos,
            count_matches(v@, pat@) == count + count_matches(v@.skip(pos as int), pat@),
        decreases v.len() - pos,
    {
        proof {
            lemma_find_shift(v@, pat@, pos as int, 0);
        }
        match find_exec(&v, &pat, pos) {
            None => {
                assert(find(v@.skip(pos as int), pat@) is None);
                assert(count_matches(v@.skip(pos as int), pat@) == 0);
                return count;
            },
            Some(i) => {
                proof {
                    lemma_find_from(v@, pat@, pos as int);
                    assert(v@.skip(pos as int).skip(i - pos + pat@.len()) =~= v@.skip(
                        i + pat@.len(),
                    ));
                }
                let n = v.len();
                let plen = pat.len();
                assert(i + plen <= n);
                count = count + 1;
                pos = i + plen;
            },
        }
    }
}

/// The running total of a prefix never exceeds the whole total.
proof fn lemma_total_prefix(s: Seq<EntryView>, i: int)
    requires
        0 <= i <= s.len(),
    ensures
        total_attempts(s.take(i)) <= total_attempts(s),
        i > 0 ==> total_attempts(s.take(i)) == total_attempts(s.take(i - 1)) + s[i - 1].attempts,
    decreases s.len() - i,
{
    if i > 0 {
        assert(s.take(i).drop_last() =~= s.take(i - 1));
    }
    if i < s.len() {
        lemma_total_prefix(s, i + 1);
        assert(s.take(i + 1).drop_last() =~= s.take(i));
    } else {
        assert(s.take(i) =~= s);
    }
}

/// Where `ip_index` finds an address, and that it finds it when present.
proof fn lemma_ip_index(gs: Seq<EntryView>, ip: Seq<char>)
    ensures
        ip_index(gs, ip) matches Some(k) ==> 0 <= k < gs.len() && gs[k].ip == ip,
        ip_index(gs, ip) is None ==> forall|i: int| 0 <= i < gs.len() ==> #[trigger] gs[i].ip != ip,
    decreases gs.len(),
{
    if gs.len() > 0 && gs[0].ip != ip {
        lemma_ip_index(gs.drop_first(), ip);
        if ip_index(gs, ip) is None {
            assert forall|i: int| 0 <= i < gs.len() implies #[trigger] gs[i].ip != ip by {
                if i > 0 {
                    assert(gs[i] == gs.drop_first()[i - 1]);
                }
            }
        }
    }
}

/// Changing one entry changes the total by the difference of the attempts.
proof fn lemma_total_update(s: Seq<EntryView>, k: int, x: EntryView)
    requires
        0 <= k < s.len(),
    ensures
        total_attempts(s.update(k, x)) + s[k].attempts == total_attempts(s) + x.attempts,
    decreases s.len(),
{
    let u = s.update(k, x);
    if k == s.len() - 1 {
        assert(u.drop_last() =~= s.drop_last());
    } else {
        assert(u.drop_last() =~= s.drop_last().update(k, x));
        lemma_total_update(s.drop_last(), k, x);
    }
}

/// Law: grouping the reports by address keeps the total of the attempts,
/// so the blocked packets counted from the grouped entries are all the
/// attempts that the log reports.
pub proof fn lemma_grouping_keeps_total(es: Seq<EntryView>)
    ensures
        total_attempts(grouped(es)) == total_attempts(es),
    decreases es.len(),
{
    if es.len() > 0 {
        lemma_grouping_keeps_total(es.drop_last());
        let gs = grouped(es.drop_last());
        let e = es.last();
        lemma_ip_index(gs, e.ip);
        match ip_index(gs, e.ip) {
            Some(k) => {
                lemma_total_update(
                    gs,
                    k,
                    EntryView {
                        ip: gs[k].ip,
                        port: gs[k].port,
                        protocol: gs[k].protocol,
                        attempts: gs[k].attempts + e.attempts,
                    },
                );
            },
            None => {
                assert(gs.push(e).drop_last() =~= gs);
            },
        }
    }
}

/// Law: after grouping, no address appears twice.
pub proof fn lemma_grouped_distinct(es: Seq<EntryView>)
    ensures
        forall|i: int, j: int|
            0 <= i < j < grouped(es).len() ==> #[trigger] grouped(es)[i].ip != #[trigger] grouped(
                es,
            )[j].ip,
    decreases es.len(),
{
    if es.len() > 0 {
        lemma_grouped_distinct(es.drop_last());
        let gs = grouped(es.drop_last());
        let e = es.last();
        lemma_ip_index(gs, e.ip);
        let g = grouped(es);
        assert forall|i: int, j: int| 0 <= i < j < g.len() implies #[trigger] g[i].ip != #[trigger] g[j].ip by {
            match ip_index(gs, e.ip) {
                Some(k) => {
                    assert(gs[i].ip != gs[j].ip);
                },
                None => {
                    if j < gs.len() {
                        assert(gs[i].ip != gs[j].ip);
                    } else {
                        assert(gs[i].ip != e.ip);
                    }
                },
            }
        }
    }
}

/// Law: the protocol of a report is one that the line mentions: tcp when
/// it mentions tcp, else udp when it mentions udp, else icmp when it
/// mentions icmp; it is `unknown` exactly when the line mentions none.
pub proof fn lemma_report_protocol(line: Seq<char>)
    ensures
        log_entry(line) matches Some(e) ==> {
            let lower = lower_text(line);
            &&& contains(lower, "tcp"@) ==> e.protocol == "tcp"@
            &&& !contains(lower, "tcp"@) && contains(lower, "udp"@) ==> e.protocol == "udp"@
            &&& !contains(lower, "tcp"@) && !contains(lower, "udp"@) && contains(lower, "icmp"@)
                ==> e.protocol == "icmp"@
            &&& e.protocol == "unknown"@ <==> (!contains(lower, "tcp"@) && !contains(
                lower,
                "udp"@,
            ) && !contains(lower, "icmp"@))
            &&& e.protocol != "unknown"@ ==> contains(lower, e.protocol)
        },
{
    reveal_strlit("tcp");
    reveal_strlit("udp");
    reveal_strlit("icmp");
    reveal_strlit("unknown");
    assert("tcp"@ != "unknown"@);
    assert("udp"@ != "unknown"@);
    assert("icmp"@ != "unknown"@);
}

/// The key an entry is counted under: its address, or its port.
pub open spec fn entry_key(e: EntryView, by_ip: bool) -> Seq<char> {
    if by_ip {
        e.ip
    } else {
        e.port
    }
}

/// The sum of the attempts of the entries counted under `key`.
pub open spec fn attempts_under(es: Seq<EntryView>, by_ip: bool, key: Seq<char>) -> nat
    decreases es.len(),
{
    if es.len() == 0 {
        0
    } else {
        attempts_under(es.drop_last(), by_ip, key) + if entry_key(es.last(), by_ip) == key {
            es.last().attempts
        } else {
            0
        }
    }
}

/// The counts of `per_ip` (by address) or `per_port` (by port).
spec fn tally_by(es: Seq<EntryView>, by_ip: bool) -> Seq<(Seq<char>, u64)>
    decreases es.len(),
{
    if es.len() == 0 {
        Seq::empty()
    } else {
        tally_add(
            tally_by(es.drop_last(), by_ip),
            entry_key(es.last(), by_ip),
            es.last().attempts as u64,
        )
    }
}

proof fn lemma_per_ip_is_tally(es: Seq<EntryView>)
    ensures
        per_ip(es) == tally_by(es, true),
    decreases es.len(),
{
    if es.len() > 0 {
        lemma_per_ip_is_tally(es.drop_last());
    }
}

proof fn lemma_per_port_is_tally(es: Seq<EntryView>)
    ensures
        per_port(es) == tally_by(es, false),
    decreases es.len(),
{
    if es.len() > 0 {
        lemma_per_port_is_tally(es.drop_last());
    }
}

/// Where `key_index` finds a key, and that it finds it when present.
proof fn lemma_key_index(gs: Seq<(Seq<char>, u64)>, key: Seq<char>)
    ensures
        key_index(gs, key) matches Some(k) ==> 0 <= k < gs.len() && gs[k].0 == key,
        key_index(gs, key) is None ==> forall|i: int| 0 <= i < gs.len() ==> #[trigger] gs[i].0 != key,
    decreases gs.len(),
{
    if gs.len() > 0 && gs[0].0 != key {
        lemma_key_index(gs.drop_first(), key);
        if key_index(gs, key) is None {
            assert forall|i: int| 0 <= i < gs.len() implies #[trigger] gs[i].0 != key by {
                if i > 0 {
                    assert(gs[i] == gs.drop_first()[i - 1]);
                }
            }
        }
    }
}

proof fn lemma_attempts_under_bound(es: Seq<EntryView>, by_ip: bool, key: Seq<char>)
    ensures
        attempts_under(es, by_ip, key) <= total_attempts(es),
    decreases es.len(),
{
    if es.len() > 0 {
        lemma_attempts_under_bound(es.drop_last(), by_ip, key);
    }
}

proof fn lemma_attempts_under_absent(es: Seq<EntryView>, by_ip: bool, key: Seq<char>)
    requires
        forall|i: int| 0 <= i < es.len() ==> #[trigger] entry_key(es[i], by_ip) != key,
    ensures
        attempts_under(es, by_ip, key) == 0,
    decreases es.len(),
{
    if es.len() > 0 {
        let s = es.drop_last();
        assert forall|i: int| 0 <= i < s.len() implies #[trigger] entry_key(s[i], by_ip) != key by {
            assert(s[i] == es[i]);
        }
        assert(entry_key(es[es.len() - 1], by_ip) != key);
        lemma_attempts_under_absent(s, by_ip, key);
    }
}

/// The tally facts, for either key.
proof fn lemma_tally_by(es: Seq<EntryView>, by_ip: bool)
    requires
        total_attempts(es) <= u64::MAX,
    ensures
        forall|k: int|
            0 <= k < tally_by(es, by_ip).len() ==> #[trigger] tally_by(es, by_ip)[k].1
                == attempts_under(es, by_ip, tally_by(es, by_ip)[k].0),
        forall|i: int, j: int|
            0 <= i < j < tally_by(es, by_ip).len() ==> #[trigger] tally_by(es, by_ip)[i].0
                != #[trigger] tally_by(es, by_ip)[j].0,
        forall|i: int|
            0 <= i < es.len() ==> #[trigger] key_index(tally_by(es, by_ip), entry_key(es[i], by_ip))
                is Some,
    decreases es.len(),
{
    if es.len() > 0 {
        let s = es.drop_last();
        let e = es.last();
        let key = entry_key(e, by_ip);
        let n = e.attempts;
        let t0 = tally_by(s, by_ip);
        let t = tally_by(es, by_ip);
        lemma_tally_by(s, by_ip);
        lemma_key_index(t0, key);
        lemma_attempts_under_bound(s, by_ip, key);
        assert(es[es.len() - 1] == e);
        match key_index(t0, key) {
            Some(k) => {
                assert(t == t0.update(k, (key, (t0[k].1 + n) as u64)));
                assert forall|j: int| 0 <= j < t.len() implies #[trigger] t[j].1 == attempts_under(
                    es,
                    by_ip,
                    t[j].0,
                ) by {
                    if j != k {
                        assert(t0[j].0 != t0[k].0);
                    }
                }
                assert forall|i: int, j: int| 0 <= i < j < t.len() implies #[trigger] t[i].0
                    != #[trigger] t[j].0 by {
                    assert(t0[i].0 != t0[j].0);
                }
                assert forall|i: int| 0 <= i < es.len() implies #[trigger] key_index(
                    t,
                    entry_key(es[i], by_ip),
                ) is Some by {
                    let x = entry_key(es[i], by_ip);
                    lemma_key_index(t, x);
                    if i < s.len() {
                        assert(es[i] == s[i]);
                        lemma_key_index(t0, x);
                        let w = key_index(t0, x)->0;
                        assert(t[w].0 == x);
                    } else {
                        assert(t[k].0 == x);
                    }
                }
            },
            None => {
                assert(t == t0.push((key, n as u64)));
                assert forall|i: int| 0 <= i < s.len() implies #[trigger] entry_key(s[i], by_ip)
                    != key by {
                    lemma_key_index(t0, entry_key(s[i], by_ip));
                    let w = key_index(t0, entry_key(s[i], by_ip))->0;
                    assert(t0[w].0 != key);
                }
                lemma_attempts_under_absent(s, by_ip, key);
                assert forall|j: int| 0 <= j < t.len() implies #[trigger] t[j].1 == attempts_under(
                    es,
                    by_ip,
                    t[j].0,
                ) by {
                    if j < t0.len() {
                        assert(t[j] == t0[j]);
                        assert(t0[j].0 != key);
                    }
                }
                assert forall|i: int, j: int| 0 <= i < j < t.len() implies #[trigger] t[i].0
                    != #[trigger] t[j].0 by {
                    if j < t0.len() {
                        assert(t0[i].0 != t0[j].0);
                    } else {
                        assert(t0[i].0 != key);
                    }
                }
                assert forall|i: int| 0 <= i < es.len() implies #[trigger] key_index(
                    t,
                    entry_key(es[i], by_ip),
                ) is Some by {
                    let x = entry_key(es[i], by_ip);
                    lemma_key_index(t, x);
                    if i < s.len() {
                        assert(es[i] == s[i]);
                        lemma_key_index(t0, x);
                        let w = key_index(t0, x)->0;
                        assert(t[w].0 == x);
                    } else {
                        assert(t[t0.len() as int].0 == x);
                    }
                }
            },
        }
    }
}

/// Law: each address appears once in the per-address counts, with the sum
/// of the attempts of all the entries from that address, and every entry's
/// address is counted.
pub proof fn lemma_address_counts_sum(es: Seq<EntryView>)
    requires
        total_attempts(es) <= u64::MAX,
    ensures
        forall|k: int|
            0 <= k < per_ip(es).len() ==> #[trigger] per_ip(es)[k].1 == attempts_under(
                es,
                true,
                per_ip(es)[k].0,
            ),
        forall|i: int, j: int|
            0 <= i < j < per_ip(es).len() ==> #[trigger] per_ip(es)[i].0 != #[trigger] per_ip(
                es,
            )[j].0,
        forall|i: int| 0 <= i < es.len() ==> #[trigger] key_index(per_ip(es), es[i].ip) is Some,
{
    lemma_per_ip_is_tally(es);
    lemma_tally_by(es, true);
    assert forall|i: int| 0 <= i < es.len() implies #[trigger] key_index(per_ip(es), es[i].ip)
        is Some by {
        assert(entry_key(es[i], true) == es[i].ip);
    }
}

/// Law: each port appears once in the per-port counts, with the sum of the
/// attempts of all the entries to that port (two addresses attacking the
/// same port add up), and every entry's port is counted.
pub proof fn lemma_port_counts_sum(es: Seq<EntryView>)
    requires
        total_attempts(es) <= u64::MAX,
    ensures
        forall|k: int|
            0 <= k < per_port(es).len() ==> #[trigger] per_port(es)[k].1 == attempts_under(
                es,
                false,
                per_port(es)[k].0,
            ),
        forall|i: int, j: int|
            0 <= i < j < per_port(es).len() ==> #[trigger] per_port(es)[i].0
                != #[trigger] per_port(es)[j].0,
        forall|i: int| 0 <= i < es.len() ==> #[trigger] key_index(per_port(es), es[i].port) is Some,
{
    lemma_per_port_is_tally(es);
    lemma_tally_by(es, false);
    assert forall|i: int| 0 <= i < es.len() implies #[trigger] key_index(per_port(es), es[i].port)
        is Some by {
        assert(entry_key(es[i], false) == es[i].port);
    }
}

} // verus!
