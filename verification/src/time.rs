//! UTC instants, held as plain numbers; the calendar arithmetic and the
//! text formats come from `chrono`.
use vstd::prelude::*;
use vstd::string::*;

verus! {

/// Whether `chrono::DateTime::<Utc>::from_timestamp(secs, nanos)` accepts
/// the pair (it refuses out-of-range seconds and invalid nanoseconds).
pub uninterp spec fn utc_valid(secs: i64, nanos: u32) -> bool;

/// The text that `DateTime::<Utc>::format(pattern)` gives for the instant.
pub uninterp spec fn utc_format(secs: i64, nanos: u32, pattern: Seq<char>) -> Seq<char>;

/// The text that `DateTime::<Utc>::to_rfc3339` gives for the instant.
pub uninterp spec fn utc_rfc3339(secs: i64, nanos: u32) -> Seq<char>;

/// The format of history log lines: `2024-03-13 23:30:00 UTC`.
pub open spec fn log_pattern() -> Seq<char> {
    "%Y-%m-%d %H:%M:%S UTC"@
}

/// The format of the time of day: `23:30:00`.
pub open spec fn clock_pattern() -> Seq<char> {
    "%H:%M:%S"@
}

/// `chrono::Utc::now()`, read back as seconds and nanoseconds since the
/// Unix epoch.  Of the instant itself nothing is claimed (it is the clock);
/// the claim is that the pair is one that `from_timestamp` accepts, which
/// chrono documents as a round trip of `timestamp` and
/// `timestamp_subsec_nanos`.
#[verifier::external_body]
fn utc_now() -> (r: (i64, u32))
    ensures
        utc_valid(r.0, r.1),
{
    let t = chrono::Utc::now();
    (t.timestamp(), t.timestamp_subsec_nanos())
}

/// `chrono::DateTime::<Utc>::from_timestamp(secs, nanos).is_some()`.
#[verifier::external_body]
fn utc_accepts(secs: i64, nanos: u32) -> (r: bool)
    ensures
        r == utc_valid(secs, nanos),
{
    chrono::DateTime::from_timestamp(secs, nanos).is_some()
}

/// `DateTime::<Utc>::format(pattern).to_string()` for the instant; the
/// result is named by `utc_format`.  Only the two patterns of this crate
/// are admitted, both of which chrono formats without error.
#[verifier::external_body]
fn utc_format_text(secs: i64, nanos: u32, pattern: &str) -> (r: String)
    requires
        utc_valid(secs, nanos),
        pattern@ == log_pattern() || pattern@ == clock_pattern(),
    ensures
        r@ == utc_format(secs, nanos, pattern@),
{
    match chrono::DateTime::from_timestamp(secs, nanos) {
        Some(t) => t.format(pattern).to_string(),
        None => String::new(),
    }
}

/// `DateTime::<Utc>::to_rfc3339()` for the instant; the result is named
/// by `utc_rfc3339`.
#[verifier::external_body]
fn utc_rfc3339_text(secs: i64, nanos: u32) -> (r: String)
    requires
        utc_valid(secs, nanos),
    ensures
        r@ == utc_rfc3339(secs, nanos),
{
    match chrono::DateTime::from_timestamp(secs, nanos) {
        Some(t) => t.to_rfc3339(),
        None => String::new(),
    }
}

/// An instant in UTC: seconds and nanoseconds since the Unix epoch, always
/// a pair that chrono accepts.
#[derive(Debug, Clone, Copy)]
pub struct Timestamp {
    secs: i64,
    nanos: u32,
}

impl Timestamp {
    #[verifier::type_invariant]
    spec fn well_formed(self) -> bool {
        utc_valid(self.secs, self.nanos)
    }

    /// Seconds since the Unix epoch.
    pub closed spec fn secs(self) -> i64 {
        self.secs
    }

    /// Nanoseconds past the second.
    pub closed spec fn nanos(self) -> u32 {
        self.nanos
    }

    /// The current instant (`chrono::Utc::now()`).
    pub fn now() -> (r: Timestamp)
        ensures
            utc_valid(r.secs(), r.nanos()),
    {
        let (secs, nanos) = utc_now();
        Timestamp { secs, nanos }
    }

    /// The instant `secs` seconds and `nanos` nanoseconds after the epoch,
    /// when chrono can represent it.
    pub fn from_unix(secs: i64, nanos: u32) -> (r: Option<Timestamp>)
        ensures
            r is Some <==> utc_valid(secs, nanos),
            r matches Some(t) ==> t.secs() == secs && t.nanos() == nanos,
    {
        if utc_accepts(secs, nanos) {
            Some(Timestamp { secs, nanos })
        } else {
            None
        }
    }

    pub fn unix_seconds(&self) -> (r: i64)
        ensures
            r == self.secs(),
    {
        self.secs
    }

    pub fn subsec_nanos(&self) -> (r: u32)
        ensures
            r == self.nanos(),
    {
        self.nanos
    }

    /// `2024-03-13 23:30:00 UTC`.
    pub fn log_text(&self) -> (r: String)
        ensures
            r@ == utc_format(self.secs(), self.nanos(), log_pattern()),
    {
        proof {
            use_type_invariant(self);
        }
        utc_format_text(self.secs, self.nanos, "%Y-%m-%d %H:%M:%S UTC")
    }

    /// `23:30:00`.
    pub fn clock_text(&self) -> (r: String)
        ensures
            r@ == utc_format(self.secs(), self.nanos(), clock_pattern()),
    {
        proof {
            use_type_invariant(self);
        }
        utc_format_text(self.secs, self.nanos, "%H:%M:%S")
    }

    /// RFC 3339 text of the instant.
    pub fn to_rfc3339(&self) -> (r: String)
        ensures
            r@ == utc_rfc3339(self.secs(), self.nanos()),
    {
        proof {
            use_type_invariant(self);
        }
        utc_rfc3339_text(self.secs, self.nanos)
    }
}

} // verus!
