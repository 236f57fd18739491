//! Points in time, the clock, and the RFC 3339 form of a point in time.
use vstd::prelude::*;

verus! {

/// A point in time: seconds since the start of 1970 in UTC, and the nanoseconds into
/// that second.
#[derive(Clone, Copy, Debug, PartialEq, Eq, Structural)]
pub struct DomainTime {
    pub seconds: i64,
    pub nanos: u32,
}

/// The start of 1970.
pub open spec fn unix_epoch() -> DomainTime {
    DomainTime { seconds: 0, nanos: 0 }
}

/// A point in time with a year of four digits, outside a leap second.
pub open spec fn plain_time(t: DomainTime) -> bool {
    -62167219200 <= t.seconds <= 253402300799 && t.nanos < 1_000_000_000
}

/// What chrono reads from a text in RFC 3339 form; nothing where the text has another
/// form.
pub uninterp spec fn rfc3339_time(text: Seq<char>) -> Option<DomainTime>;

/// What chrono writes for a point in time in RFC 3339 form, in UTC, with as many
/// digits of the second as it needs.
pub uninterp spec fn rfc3339_text(t: DomainTime) -> Seq<char>;

/// `DateTime::parse_from_rfc3339` of chrono, brought to UTC. The result is a function
/// of the text alone.
#[verifier::external_body]
pub(crate) fn read_rfc3339(text: &str) -> (t: Option<DomainTime>)
    ensures
        t == rfc3339_time(text@),
{
    match chrono::DateTime::parse_from_rfc3339(text) {
        Ok(t) => Some(DomainTime { seconds: t.timestamp(), nanos: t.timestamp_subsec_nanos() }),
        Err(_) => None,
    }
}

/// `DateTime::to_rfc3339_opts` of chrono with `SecondsFormat::AutoSi` and a `Z`; the
/// start of 1970 stands for a point that chrono does not know. The result is a function
/// of the point in time alone. Where the year has four digits the text starts with the first
/// of them, and reading it gives the point back.
#[verifier::external_body]
pub(crate) fn write_rfc3339(t: DomainTime) -> (text: String)
    ensures
        text@ == rfc3339_text(t),
        plain_time(t) ==> rfc3339_time(text@) == Some(t) && '0' <= text@[0] <= '9',
        text@.len() > 0,
        text@.last() == 'Z',
{
    chrono::DateTime::from_timestamp(t.seconds, t.nanos).unwrap_or_default()
        .to_rfc3339_opts(chrono::SecondsFormat::AutoSi, true)
}

/// What chrono writes for a point in time in RFC 3339 form, in UTC, with the offset in
/// figures.
pub uninterp spec fn rfc3339_offset_text(t: DomainTime) -> Seq<char>;

/// `DateTime::to_rfc3339` of chrono; the start of 1970 stands for a point that chrono does
/// not know. The result is a function of the point in time alone, and reading it gives that
/// point back where its year has four digits.
#[verifier::external_body]
pub(crate) fn write_rfc3339_offset(t: DomainTime) -> (text: String)
    ensures
        text@ == rfc3339_offset_text(t),
        plain_time(t) ==> rfc3339_time(text@) == Some(t),
{
    chrono::DateTime::from_timestamp(t.seconds, t.nanos).unwrap_or_default().to_rfc3339()
}

/// A point in time that the clock may show.
pub open spec fn clock_time(t: DomainTime) -> bool {
    -10_000_000_000_000 < t.seconds < 10_000_000_000_000 && t.nanos < 2_000_000_000
}

/// Seconds that the clock may show.
pub open spec fn clock_seconds(s: i64) -> bool {
    -10_000_000_000_000 < s < 10_000_000_000_000
}

/// Milliseconds that the clock may show.
pub open spec fn clock_millis(ms: i64) -> bool {
    -10_000_000_000_000_000 < ms < 10_000_000_000_001_000
}

/// A text that may stand for the present: the RFC 3339 form of a point in time that the clock
/// may show.
pub open spec fn clock_text(text: Seq<char>) -> bool {
    exists|t: DomainTime| clock_time(t) && #[trigger] time_written(t, text)
}

/// Whether a text is the RFC 3339 form of a point in time, from which that point is read back
/// where its year has four digits.
pub open spec fn time_written(t: DomainTime, text: Seq<char>) -> bool {
    &&& text == rfc3339_text(t)
    &&& plain_time(t) ==> rfc3339_time(text) == Some(t) && '0' <= text[0] <= '9'
    &&& text.len() > 0
    &&& text.last() == 'Z'
}

/// `Utc::now` of chrono. It depends on the clock; chrono's points in time lie within
/// 263000 years of 1970.
#[verifier::external_body]
pub(crate) fn now() -> (t: DomainTime)
    ensures
        clock_time(t),
{
    let t = chrono::Utc::now();
    DomainTime { seconds: t.timestamp(), nanos: t.timestamp_subsec_nanos() }
}

/// The seconds of the clock.
pub(crate) fn now_seconds() -> (s: i64)
    ensures
        clock_seconds(s),
{
    now().seconds
}

/// The milliseconds of the clock.
pub(crate) fn now_millis() -> (ms: i64)
    ensures
        clock_millis(ms),
{
    let t = now();
    t.seconds * 1000 + (t.nanos / 1_000_000) as i64
}

/// Reads a point in time; the start of 1970 where the text holds none.
pub fn parse_domain_datetime_or_unix_epoch(text: &str) -> (t: DomainTime)
    ensures
        t == time_or_epoch(text@),
{
    match read_rfc3339(text) {
        Some(t) => t,
        None => DomainTime { seconds: 0, nanos: 0 },
    }
}

pub open spec fn time_or_epoch(text: Seq<char>) -> DomainTime {
    match rfc3339_time(text) {
        Some(t) => t,
        None => unix_epoch(),
    }
}

/// The RFC 3339 form of a point in time.
pub fn format_domain_datetime(t: DomainTime) -> (text: String)
    ensures
        text@ == rfc3339_text(t),
        plain_time(t) ==> rfc3339_time(text@) == Some(t),
{
    write_rfc3339(t)
}

} // verus!
