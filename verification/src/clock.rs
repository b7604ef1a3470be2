use vstd::prelude::*;

verus! {

/// A point in time: whole seconds since the Unix epoch, leap seconds not
/// counted, and the nanoseconds that have passed since that second began.
#[derive(Clone, Copy, Debug, PartialEq, Eq)]
pub struct Instant {
    pub secs: i64,
    pub nanos: u32,
}

impl Instant {
    /// Whether this point lies before `other`.
    pub open spec fn before(self, other: Instant) -> bool {
        self.secs < other.secs || (self.secs == other.secs && self.nanos < other.nanos)
    }

    /// Whether this point lies before `other`.
    pub fn is_before(&self, other: &Instant) -> (earlier: bool)
        ensures
            earlier == self.before(*other),
    {
        self.secs < other.secs || (self.secs == other.secs && self.nanos < other.nanos)
    }
}

/// What `chrono` reads in a text as an RFC 3339 date and time: the seconds
/// and nanoseconds of the point in time that the text names, or nothing
/// where `chrono` does not accept the text.
pub uninterp spec fn rfc3339_instant(text: Seq<char>) -> Option<(i64, u32)>;

/// The point in time that a text names, where it is an RFC 3339 date and
/// time.
pub open spec fn air_instant(text: Seq<char>) -> Option<Instant> {
    match rfc3339_instant(text) {
        Some((secs, nanos)) => Some(Instant { secs, nanos }),
        None => None,
    }
}

/// Calls `chrono::DateTime::parse_from_rfc3339` on `text`. Where `chrono`
/// accepts the text, the result is what `timestamp` and
/// `timestamp_subsec_nanos` give for the parsed value; the contract names
/// that pair and claims no more than that the same text always reads the
/// same. In a leap second the nanoseconds are a thousand million or more.
/// Two values of `chrono` compare as their pairs do, seconds first.
#[verifier::external_body]
pub(crate) fn parse_rfc3339(text: &str) -> (read: Option<(i64, u32)>)
    ensures
        read == rfc3339_instant(text@),
{
    match chrono::DateTime::parse_from_rfc3339(text) {
        Ok(at) => Some((at.timestamp(), at.timestamp_subsec_nanos())),
        Err(_) => None,
    }
}

/// Whether a count of seconds is one that `chrono` can give for a point in
/// time: `chrono` makes it of a count of days held in 32 bits and a count
/// of seconds held in 32 bits, which keeps it within 2^48 of zero.
pub open spec fn in_clock_range(secs: i64) -> bool {
    -0x1_0000_0000_0000 <= secs <= 0x1_0000_0000_0000
}

/// Reads the system clock with `std::time::SystemTime::now`, turns the
/// reading into a UTC date and time with `chrono`'s
/// `From<SystemTime> for DateTime<Utc>`, and hands back what `timestamp`
/// and `timestamp_subsec_nanos` give for it. The conversion takes a clock
/// that stands before 1970 as well as one that stands after it, over the
/// whole of `chrono`'s calendar, some 262 000 years either side. Of the
/// result only its range is claimed, which follows from how `timestamp`
/// is computed; the time itself is whatever the clock says.
#[verifier::external_body]
pub(crate) fn utc_now() -> (now: Instant)
    ensures
        in_clock_range(now.secs),
{
    let at = chrono::DateTime::<chrono::Utc>::from(std::time::SystemTime::now());
    Instant { secs: at.timestamp(), nanos: at.timestamp_subsec_nanos() }
}

/// The point in time that `text` names, where it is an RFC 3339 date and
/// time.
pub fn read_air_instant(text: &str) -> (at: Option<Instant>)
    ensures
        at == air_instant(text@),
{
    match parse_rfc3339(text) {
        Some((secs, nanos)) => Some(Instant { secs, nanos }),
        None => None,
    }
}

} // verus!
