//! Timestamps: seconds and nanoseconds since the Unix epoch, totally ordered.

use vstd::prelude::*;

verus! {

/// A point in time, as produced by the node that first accepted an operation.
#[derive(Clone, Copy, Debug, PartialEq, Eq, Structural)]
pub struct Timestamp {
    pub seconds: i64,
    pub nanos: i32,
}

/// `a` comes strictly before `b`: seconds first, nanoseconds break ties.
pub open spec fn ts_lt(a: Timestamp, b: Timestamp) -> bool {
    a.seconds < b.seconds || (a.seconds == b.seconds && a.nanos < b.nanos)
}

/// `a` comes before or at `b`.
pub open spec fn ts_le(a: Timestamp, b: Timestamp) -> bool {
    !ts_lt(b, a)
}

/// The later of two timestamps (the first one on a tie, which then equals the second).
pub open spec fn ts_max(a: Timestamp, b: Timestamp) -> Timestamp {
    if ts_lt(a, b) {
        b
    } else {
        a
    }
}

/// The ordering of `a` relative to `b`.
pub open spec fn ts_cmp(a: Timestamp, b: Timestamp) -> std::cmp::Ordering {
    if ts_lt(a, b) {
        std::cmp::Ordering::Less
    } else if ts_lt(b, a) {
        std::cmp::Ordering::Greater
    } else {
        std::cmp::Ordering::Equal
    }
}

/// Timestamps that the calendar library can turn into a date: nanoseconds below one second
/// and seconds within about 253,000 years of the epoch.
pub open spec fn representable(t: Timestamp) -> bool {
    &&& 0 <= t.nanos < 1_000_000_000
    &&& -8_000_000_000_000 <= t.seconds <= 8_000_000_000_000
}

/// Whether the calendar library can turn `t` into a date and text.
pub fn is_representable(t: &Timestamp) -> (r: bool)
    ensures
        r == representable(*t),
{
    0 <= t.nanos && t.nanos < 1_000_000_000 && -8_000_000_000_000 <= t.seconds && t.seconds
        <= 8_000_000_000_000
}

/// The order is total and antisymmetric: two timestamps that neither precede the other are equal.
pub proof fn lemma_ts_total(a: Timestamp, b: Timestamp)
    ensures
        ts_lt(a, b) || ts_lt(b, a) || a == b,
        !(ts_lt(a, b) && ts_lt(b, a)),
        !ts_lt(a, a),
{
}

/// Compares two timestamps: seconds first, nanoseconds break ties.
pub fn compare_timestamps(a: &Timestamp, b: &Timestamp) -> (r: std::cmp::Ordering)
    ensures
        r == ts_cmp(*a, *b),
{
    if a.seconds < b.seconds {
        std::cmp::Ordering::Less
    } else if a.seconds > b.seconds {
        std::cmp::Ordering::Greater
    } else if a.nanos < b.nanos {
        std::cmp::Ordering::Less
    } else if a.nanos > b.nanos {
        std::cmp::Ordering::Greater
    } else {
        std::cmp::Ordering::Equal
    }
}

/// Whether `a` comes strictly after `b`.
pub fn is_newer(a: &Timestamp, b: &Timestamp) -> (r: bool)
    ensures
        r == ts_lt(*b, *a),
{
    a.seconds > b.seconds || (a.seconds == b.seconds && a.nanos > b.nanos)
}

#[verifier::external_type_specification]
#[verifier::external_body]
pub struct ExParseError(chrono::ParseError);

/// What the calendar library reads from an RFC 3339 text, if it accepts it.
pub uninterp spec fn rfc3339_reading(s: Seq<char>) -> Option<Timestamp>;

/// The RFC 3339 text that the calendar library writes for a timestamp.
pub uninterp spec fn rfc3339_text(t: Timestamp) -> Seq<char>;

/// Relies on chrono's `DateTime::parse_from_rfc3339`, read back in UTC: the result depends on
/// the text alone.
#[verifier::external_body]
fn parse_rfc3339(s: &str) -> (r: Result<Timestamp, chrono::ParseError>)
    ensures
        r is Ok <==> rfc3339_reading(s@) is Some,
        r matches Ok(t) ==> rfc3339_reading(s@) == Some(t),
{
    let dt = chrono::DateTime::parse_from_rfc3339(s)?.with_timezone(&chrono::Utc);
    Ok(Timestamp { seconds: dt.timestamp(), nanos: dt.timestamp_subsec_nanos() as i32 })
}

/// Relies on chrono's `Utc.timestamp_opt(..).single()` and `DateTime::to_rfc3339`: the text
/// depends on the timestamp alone, and a representable timestamp always has one.
#[verifier::external_body]
fn format_rfc3339(t: Timestamp) -> (r: String)
    requires
        representable(t),
    ensures
        r@ == rfc3339_text(t),
{
    chrono::TimeZone::timestamp_opt(&chrono::Utc, t.seconds, t.nanos as u32).single().unwrap().to_rfc3339()
}

/// Relies on chrono's `Utc::now`: it takes the nanoseconds from the system time's
/// `Duration::subsec_nanos`, which are below one second.
#[verifier::external_body]
fn utc_now() -> (r: Timestamp)
    ensures
        0 <= r.nanos < 1_000_000_000,
{
    let now = chrono::Utc::now();
    Timestamp { seconds: now.timestamp(), nanos: now.timestamp_subsec_nanos() as i32 }
}

/// The current wall-clock time.
pub fn create_timestamp() -> (r: Timestamp)
    ensures
        0 <= r.nanos < 1_000_000_000,
{
    utc_now()
}

/// Reads an RFC 3339 text, in any offset, as a UTC timestamp.
pub fn timestamp_from_rfc3339(rfc3339: &str) -> (r: Result<Timestamp, chrono::ParseError>)
    ensures
        r is Ok <==> rfc3339_reading(rfc3339@) is Some,
        r matches Ok(t) ==> rfc3339_reading(rfc3339@) == Some(t),
{
    parse_rfc3339(rfc3339)
}

/// Writes a timestamp as RFC 3339 text.
pub fn timestamp_to_rfc3339(timestamp: &Timestamp) -> (r: String)
    requires
        representable(*timestamp),
    ensures
        r@ == rfc3339_text(*timestamp),
{
    format_rfc3339(*timestamp)
}

} // verus!
