//! Instants on the UTC time line, as plain numbers.

use vstd::prelude::*;

verus! {

/// An instant: the whole seconds since the Unix epoch, and the nanoseconds
/// past them. Within a leap second the nanoseconds run on past one second.
#[derive(Debug, Clone, Copy, PartialEq, Eq, Structural)]
pub struct UtcTime {
    /// Whole seconds since 1970-01-01T00:00:00Z.
    pub secs: i64,
    /// Nanoseconds since the start of that second.
    pub nanos: u32,
}

impl UtcTime {
    /// An instant from its two parts.
    pub fn new(secs: i64, nanos: u32) -> (t: UtcTime)
        ensures
            t.secs == secs,
            t.nanos == nanos,
    {
        UtcTime { secs, nanos }
    }

    /// Whether this instant is `other` or comes before it.
    pub open spec fn spec_at_or_before(self, other: UtcTime) -> bool {
        self.secs < other.secs || (self.secs == other.secs && self.nanos <= other.nanos)
    }

    /// Whether this instant comes before `other`.
    pub open spec fn spec_before(self, other: UtcTime) -> bool {
        self.secs < other.secs || (self.secs == other.secs && self.nanos < other.nanos)
    }

    /// Whether this instant is `other` or comes before it.
    #[verifier::when_used_as_spec(spec_at_or_before)]
    pub fn at_or_before(self, other: UtcTime) -> (r: bool)
        ensures
            r == self.spec_at_or_before(other),
    {
        self.secs < other.secs || (self.secs == other.secs && self.nanos <= other.nanos)
    }

    /// Whether this instant comes before `other`.
    #[verifier::when_used_as_spec(spec_before)]
    pub fn before(self, other: UtcTime) -> (r: bool)
        ensures
            r == self.spec_before(other),
    {
        self.secs < other.secs || (self.secs == other.secs && self.nanos < other.nanos)
    }
}

/// What `serde_json` and `chrono` read from the bytes of a JSON document
/// that holds one date in RFC 3339 form: the seconds and nanoseconds of the
/// instant, or `None` where the bytes are no such document.
pub uninterp spec fn decoded_time(bytes: Seq<u8>) -> Option<(i64, u32)>;

/// The JSON document that `serde_json` and `chrono` write for an instant,
/// or `None` where `chrono` has no date for the two numbers.
pub uninterp spec fn encoded_time(secs: i64, nanos: u32) -> Option<Seq<u8>>;

/// Reads the wall clock with `chrono::Utc::now`. The reading depends on the
/// machine and the moment, so nothing is promised of it.
#[verifier::external_body]
pub(crate) fn utc_now() -> UtcTime {
    let now = chrono::Utc::now();
    UtcTime { secs: now.timestamp(), nanos: now.timestamp_subsec_nanos() }
}

/// Reads a date with `serde_json::from_slice`, through the `Deserialize`
/// impl that `chrono` gives `DateTime<Utc>`. The result is a function of the
/// bytes alone, which `decoded_time` names.
#[verifier::external_body]
pub(crate) fn decode_time(bytes: &[u8]) -> (r: Option<UtcTime>)
    ensures
        r matches Some(t) ==> decoded_time(bytes@) == Some((t.secs, t.nanos)),
        r is None ==> decoded_time(bytes@) is None,
{
    let parsed = serde_json::from_slice::<chrono::DateTime<chrono::Utc>>(bytes).ok()?;
    Some(UtcTime { secs: parsed.timestamp(), nanos: parsed.timestamp_subsec_nanos() })
}

/// Writes a date with `serde_json::to_vec`, through the `Serialize` impl
/// that `chrono` gives `DateTime<Utc>`; the date is made with
/// `DateTime::from_timestamp`, which has none for some pairs of numbers. The
/// result is a function of the two numbers alone, which `encoded_time` names.
#[verifier::external_body]
pub(crate) fn encode_time(time: UtcTime) -> (r: Option<Vec<u8>>)
    ensures
        r matches Some(bytes) ==> encoded_time(time.secs, time.nanos) == Some(bytes@),
        r is None ==> encoded_time(time.secs, time.nanos) is None,
{
    let date = chrono::DateTime::<chrono::Utc>::from_timestamp(time.secs, time.nanos)?;
    serde_json::to_vec(&date).ok()
}

} // verus!
