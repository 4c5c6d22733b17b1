//! Instants in time, and their text form in feeds.

use vstd::prelude::*;

verus! {

/// An instant in UTC: whole seconds since the start of 1970, and the
/// nanoseconds since the last full second. During a leap second `nanos`
/// runs on past a thousand million.
#[derive(Clone, Copy, Debug, PartialEq, Eq, Structural)]
pub struct Timestamp {
    pub secs: i64,
    pub nanos: u32,
}

/// The first second of the year 0, the earliest that the feed date format
/// can write.
pub const TEXT_FIRST_SECOND: i64 = -62_167_219_200;

/// The last second of the year 9999, the latest that the feed date format
/// can write.
pub const TEXT_LAST_SECOND: i64 = 253_402_300_799;

/// What the feed date format (RFC 2822) makes of a text: the instant it
/// names, as seconds and nanoseconds, or `None` if the text is no date.
pub uninterp spec fn rfc2822_instant(text: Seq<char>) -> Option<(i64, u32)>;

/// The text that the feed date format (RFC 2822) gives an instant, in UTC,
/// or `None` for a pair of numbers that is no instant.
pub uninterp spec fn rfc2822_text(secs: i64, nanos: u32) -> Option<Seq<char>>;

/// An error of the date parser.
#[verifier::external_type_specification]
#[verifier::external_body]
pub struct ExDateParseError(chrono::ParseError);

impl Timestamp {
    /// This instant is earlier than `other`.
    pub open spec fn is_before(self, other: Timestamp) -> bool {
        self.secs < other.secs || (self.secs == other.secs && self.nanos < other.nanos)
    }

    /// This instant is not later than `other`.
    pub open spec fn is_not_after(self, other: Timestamp) -> bool {
        !other.is_before(self)
    }

    /// The feed date format can write this instant: its year is between 0
    /// and 9999.
    pub open spec fn has_text(self) -> bool {
        TEXT_FIRST_SECOND <= self.secs <= TEXT_LAST_SECOND
    }

    /// The instant that `secs` and `nanos` give.
    pub fn new(secs: i64, nanos: u32) -> (t: Timestamp)
        ensures
            t == (Timestamp { secs, nanos }),
    {
        Timestamp { secs, nanos }
    }

    /// Whether this instant is earlier than `other`.
    pub fn before(&self, other: &Timestamp) -> (r: bool)
        ensures
            r == self.is_before(*other),
    {
        self.secs < other.secs || (self.secs == other.secs && self.nanos < other.nanos)
    }

    /// The instant that a date in the feed date format names, or `None` if
    /// the text is no such date.
    pub fn from_rfc2822(text: &str) -> (r: Option<Timestamp>)
        ensures
            r == instant_of(rfc2822_instant(text@)),
    {
        match parse_rfc2822(text) {
            Ok(t) => Some(t),
            Err(_) => None,
        }
    }

    /// This instant in the feed date format, or `None` if the format cannot
    /// write it.
    pub fn to_rfc2822(&self) -> (r: Option<String>)
        ensures
            r is Some <==> self.has_text() && rfc2822_text(self.secs, self.nanos) is Some,
            r matches Some(text) ==> rfc2822_text(self.secs, self.nanos) == Some(text@),
    {
        if TEXT_FIRST_SECOND <= self.secs && self.secs <= TEXT_LAST_SECOND {
            format_rfc2822(self.secs, self.nanos)
        } else {
            None
        }
    }
}

/// The instant that a pair of seconds and nanoseconds stands for.
pub open spec fn instant_of(pair: Option<(i64, u32)>) -> Option<Timestamp> {
    match pair {
        Some((secs, nanos)) => Some(Timestamp { secs, nanos }),
        None => None,
    }
}

/// `chrono::DateTime::parse_from_rfc2822`, with the instant read off by
/// `timestamp` and `timestamp_subsec_nanos`. The parser is a function of the
/// text alone; the contract names what it returns and claims no more.
#[verifier::external_body]
fn parse_rfc2822(text: &str) -> (r: Result<Timestamp, chrono::ParseError>)
    ensures
        r is Ok <==> rfc2822_instant(text@) is Some,
        r matches Ok(t) ==> Some(t) == instant_of(rfc2822_instant(text@)),
{
    match chrono::DateTime::parse_from_rfc2822(text) {
        Ok(date) => Ok(Timestamp { secs: date.timestamp(), nanos: date.timestamp_subsec_nanos() }),
        Err(e) => Err(e),
    }
}

/// `chrono::DateTime::to_rfc2822` on the UTC date that
/// `chrono::DateTime::from_timestamp` makes of the two numbers; `None` where
/// the latter makes none. The formatter panics on years outside 0 to 9999,
/// which the precondition leaves out. The text is a function of the two
/// numbers alone; the contract names it and claims no more.
#[verifier::external_body]
fn format_rfc2822(secs: i64, nanos: u32) -> (r: Option<String>)
    requires
        TEXT_FIRST_SECOND <= secs <= TEXT_LAST_SECOND,
    ensures
        r is Some <==> rfc2822_text(secs, nanos) is Some,
        r matches Some(text) ==> rfc2822_text(secs, nanos) == Some(text@),
{
    match chrono::DateTime::from_timestamp(secs, nanos) {
        Some(date) => Some(date.to_rfc2822()),
        None => None,
    }
}

} // verus!
