//! Instants of time, read and written through chrono.
use vstd::prelude::*;
use crate::text::digit_char;

verus! {

/// An instant: whole seconds since the Unix epoch and the nanoseconds past them.
#[derive(Clone, Copy, Debug, PartialEq, Eq, Structural)]
pub struct Timestamp {
    pub secs: i64,
    pub nanos: u32,
}

/// The current instant (`chrono::Utc::now`). chrono builds it from the
/// system clock's time since the Unix epoch, so the seconds are not negative
/// and the nanoseconds are those of a `Duration`, below one second; which
/// instant it is depends on the clock and is not stated.
#[verifier::external_body]
pub(crate) fn now() -> (t: Timestamp)
    ensures
        t.secs >= 0,
        t.nanos < 1_000_000_000,
{
    let d = chrono::Utc::now();
    Timestamp { secs: d.timestamp(), nanos: d.timestamp_subsec_nanos() }
}

/// chrono's RFC 3339 text of an instant in UTC (`DateTime<Utc>::to_rfc3339`),
/// empty when chrono cannot represent the instant.
pub uninterp spec fn rfc3339_utc(secs: i64, nanos: u32) -> Seq<char>;

/// The RFC 3339 text of `t` in UTC, as `DateTime<Utc>::to_rfc3339` writes it
/// (empty when `DateTime::from_timestamp` refuses `t`). Named, not stated.
#[verifier::external_body]
pub(crate) fn rfc3339_text(t: Timestamp) -> (r: String)
    ensures
        r@ == rfc3339_utc(t.secs, t.nanos),
{
    match chrono::DateTime::from_timestamp(t.secs, t.nanos) {
        Some(d) => d.to_rfc3339(),
        None => String::new(),
    }
}

/// chrono's RFC 3339 text of an instant at a fixed offset east of UTC, with
/// nine digits of nanoseconds and `Z` for a zero offset
/// (`to_rfc3339_opts(SecondsFormat::Nanos, true)`).
pub uninterp spec fn rfc3339_nanos(secs: i64, nanos: u32, offset_secs: i32) -> Seq<char>;

/// Two decimal digits of `n`, for `n` below 100.
pub open spec fn two_digits(n: int) -> Seq<char> {
    seq![digit_char((n / 10) as nat), digit_char((n % 10) as nat)]
}

/// How chrono ends RFC 3339 text at an offset of `offset_secs` east of UTC:
/// `Z` for UTC, else the sign, two digits of hours, a colon and two digits
/// of minutes, the offset rounded to the nearest minute.
pub open spec fn offset_suffix(offset_secs: int) -> Seq<char> {
    if offset_secs == 0 {
        seq!['Z']
    } else {
        let a = if offset_secs < 0 { -offset_secs } else { offset_secs };
        let minutes = (a + 30) / 60;
        seq![if offset_secs < 0 { '-' } else { '+' }] + two_digits(minutes / 60) + seq![':'] + two_digits(minutes % 60)
    }
}

/// Whether an instant lies far enough inside chrono's range (years -262143
/// to 262142, about ±8.2e12 seconds around the epoch) that any offset of less
/// than a day keeps its local time representable.
pub open spec fn offset_safe(t: Timestamp) -> bool {
    -8_000_000_000_000 <= t.secs <= 8_000_000_000_000
}

/// Whether `t` lies far enough inside chrono's range for any offset.
pub fn is_offset_safe(t: Timestamp) -> (b: bool)
    ensures
        b == offset_safe(t),
{
    -8_000_000_000_000 <= t.secs && t.secs <= 8_000_000_000_000
}

/// The RFC 3339 text of `t` seen at `offset_secs` east of UTC, with nine
/// digits of nanoseconds. Named; of its shape, the claim is only what
/// chrono's writer (`write_rfc3339`) always does for a valid instant: a `T`
/// between the date and the time, and the offset last, as `offset_suffix`
/// gives it. chrono panics when the offset pushes the local time out of its
/// range (`DateTime::naive_local`), so the instant must lie well inside that
/// range.
#[verifier::external_body]
pub(crate) fn rfc3339_nanos_text(t: Timestamp, offset_secs: i32) -> (r: String)
    requires
        -86_400 < offset_secs < 86_400,
        offset_safe(t),
    ensures
        r@ == rfc3339_nanos(t.secs, t.nanos, offset_secs),
        t.nanos < 1_000_000_000 ==> r@.contains('T') && r@.len() >= offset_suffix(offset_secs as int).len() && r@.skip(r@.len() - offset_suffix(offset_secs as int).len()) == offset_suffix(offset_secs as int),
{
    match (chrono::DateTime::from_timestamp(t.secs, t.nanos), chrono::FixedOffset::east_opt(offset_secs)) {
        (Some(d), Some(o)) => d.with_timezone(&o).to_rfc3339_opts(chrono::SecondsFormat::Nanos, true),
        _ => String::new(),
    }
}

/// What `DateTime::parse_from_rfc3339` makes of a text: the instant it
/// denotes, as seconds and nanoseconds since the Unix epoch.
pub uninterp spec fn rfc3339_parse(s: Seq<char>) -> Option<(i64, u32)>;

/// Whether chrono writes `t` in UTC with a four-digit year (0000 to 9999)
/// and without a leap second, the form that RFC 3339 parsing reads back.
pub open spec fn four_digit_year(t: Timestamp) -> bool {
    &&& -62_167_219_200 <= t.secs <= 253_402_300_799
    &&& t.nanos < 1_000_000_000
}

/// Parses an RFC 3339 text (`DateTime::parse_from_rfc3339`). Named, not
/// stated; the one fact claimed is that the text `DateTime<Utc>::to_rfc3339`
/// writes for an instant of a four-digit year reads back as that instant
/// (chrono writes the date, the time with its fraction of a second and the
/// offset `+00:00`, all of which the parser reads exactly).
#[verifier::external_body]
pub(crate) fn parse_rfc3339(s: &str) -> (r: Option<Timestamp>)
    ensures
        r matches Some(t) ==> rfc3339_parse(s@) == Some((t.secs, t.nanos)),
        r is None ==> rfc3339_parse(s@) is None,
        forall|t: Timestamp| #[trigger] rfc3339_utc(t.secs, t.nanos) == s@ && four_digit_year(t) ==> r == Some(t),
{
    match chrono::DateTime::parse_from_rfc3339(s) {
        Ok(d) => Some(Timestamp { secs: d.timestamp(), nanos: d.timestamp_subsec_nanos() }),
        Err(_) => None,
    }
}

}
