use vstd::prelude::*;

verus! {

#[verifier::external_type_specification]
#[verifier::external_body]
pub struct ExParseError(chrono::format::ParseError);

/// A moment in UTC: whole seconds since the Unix epoch and the nanoseconds
/// past that second.
#[derive(Debug, Clone, Copy, PartialEq, Eq)]
pub struct Timestamp {
    pub secs: i64,
    pub nanos: u32,
}

impl Timestamp {
    /// Whether `self` comes strictly before `other`.
    pub open spec fn spec_earlier(self, other: Timestamp) -> bool {
        self.secs < other.secs || (self.secs == other.secs && self.nanos < other.nanos)
    }

    /// Whether `self` comes strictly before `other`.
    pub fn is_earlier_than(&self, other: &Timestamp) -> (r: bool)
        ensures
            r == self.spec_earlier(*other),
    {
        self.secs < other.secs || (self.secs == other.secs && self.nanos < other.nanos)
    }
}

/// The moment that `DateTime::parse_from_rfc3339` of `chrono` reads from an
/// RFC 3339 text, as its `timestamp` and `timestamp_subsec_nanos`; `None`
/// where it refuses the text.
pub uninterp spec fn rfc3339_moment(text: Seq<char>) -> Option<(i64, u32)>;

/// `DateTime::parse_from_rfc3339` of `chrono`, taken as the seconds and
/// nanoseconds of the moment it denotes.
#[verifier::external_body]
fn parse_from_rfc3339(text: &str) -> (r: Result<(i64, u32), chrono::format::ParseError>)
    ensures
        r is Ok == rfc3339_moment(text@) is Some,
        r matches Ok(m) ==> rfc3339_moment(text@) == Some(m),
{
    chrono::DateTime::parse_from_rfc3339(text).map(|d| (d.timestamp(), d.timestamp_subsec_nanos()))
}

/// Reads an RFC 3339 date, such as the `not_after` of a certificate.
pub fn parse_rfc3339(text: &str) -> (r: Option<Timestamp>)
    ensures
        match rfc3339_moment(text@) {
            Some(m) => r == Some(Timestamp { secs: m.0, nanos: m.1 }),
            None => r is None,
        },
{
    match parse_from_rfc3339(text) {
        Ok((secs, nanos)) => Some(Timestamp { secs, nanos }),
        Err(_) => None,
    }
}

} // verus!
