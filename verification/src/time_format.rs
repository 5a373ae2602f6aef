//! The modification-time column: a Unix timestamp rendered as
//! `DD-MM-YYYY HH:MM` in UTC.

use vstd::prelude::*;

verus! {

/// The calendar rendering (`DD-MM-YYYY HH:MM`, UTC, zero-padded) of a count
/// of non-leap seconds since the Unix epoch. The civil-calendar arithmetic
/// behind it is chrono's; the result depends on the seconds alone.
pub uninterp spec fn timestamp_text(secs: int) -> Seq<char>;

/// The last second of the year 9999, UTC: the latest instant this library
/// renders. Every timestamp above it is shown as this instant.
pub const MAX_TIMESTAMP_SECS: u64 = 253402300799;

/// Relies on chrono's `DateTime::<Utc>::from_timestamp` and
/// `DateTime::format`: `from_timestamp` returns `Some` for every number of
/// seconds whose calendar date fits chrono's year range, which holds of all
/// seconds up to the year 9999, and `format("%d-%m-%Y %H:%M")` renders the
/// zero-padded day, month, year, hour and minute of that UTC instant, a
/// function of the seconds alone.
#[verifier::external_body]
fn utc_timestamp_string(secs: u64) -> (r: String)
    requires
        secs <= MAX_TIMESTAMP_SECS,
    ensures
        r@ == timestamp_text(secs as int),
{
    let dt = chrono::DateTime::<chrono::Utc>::from_timestamp(secs as i64, 0).unwrap();
    dt.format("%d-%m-%Y %H:%M").to_string()
}

/// What `format_timestamp` shows: the calendar text of the instant itself,
/// clamped to the supported calendar range.
pub open spec fn spec_timestamp_display(secs: int) -> Seq<char> {
    if secs <= MAX_TIMESTAMP_SECS {
        timestamp_text(secs)
    } else {
        timestamp_text(MAX_TIMESTAMP_SECS as int)
    }
}

/// Renders a modification time, given as non-leap seconds since the Unix
/// epoch, as `DD-MM-YYYY HH:MM` in UTC. Total: timestamps past the year
/// 9999 are shown as that year's last instant.
pub fn format_timestamp(secs: u64) -> (r: String)
    ensures
        r@ == spec_timestamp_display(secs as int),
{
    if secs <= MAX_TIMESTAMP_SECS {
        utc_timestamp_string(secs)
    } else {
        utc_timestamp_string(MAX_TIMESTAMP_SECS)
    }
}

} // verus!
