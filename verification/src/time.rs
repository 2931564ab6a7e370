use vstd::prelude::*;

verus! {

/// The text chrono's `format` writes for the UTC instant `nanos` nanoseconds
/// after the Unix epoch under `pattern`.
pub uninterp spec fn utc_formatted(nanos: i64, pattern: Seq<char>) -> Seq<char>;

/// The three patterns the application formats instants with.
pub open spec fn known_pattern(pattern: Seq<char>) -> bool {
    pattern == "%b %d"@ || pattern == "%H:%M"@ || pattern == "%Y-%m-%d %H:%M UTC"@
}

/// `chrono::DateTime::from_timestamp_nanos(nanos).format(pattern).to_string()`.
/// The contract claims the text is [`utc_formatted`] of the instant and the
/// pattern: chrono's formatting with its default English names reads nothing
/// else. `requires` admits only patterns whose items chrono accepts, since
/// `to_string` panics on a pattern it cannot format.
#[verifier::external_body]
fn format_utc(nanos: i64, pattern: &str) -> (s: String)
    requires
        known_pattern(pattern@),
    ensures
        s@ == utc_formatted(nanos, pattern@),
{
    chrono::DateTime::from_timestamp_nanos(nanos).format(pattern).to_string()
}

/// Month and day of an instant, as `Mar 04`.
pub fn month_day_label(nanos: i64) -> (s: String)
    ensures
        s@ == utc_formatted(nanos, "%b %d"@),
{
    format_utc(nanos, "%b %d")
}

/// Hour and minute of an instant, as `09:30`.
pub fn clock_label(nanos: i64) -> (s: String)
    ensures
        s@ == utc_formatted(nanos, "%H:%M"@),
{
    format_utc(nanos, "%H:%M")
}

/// Date and time of an instant, as `2024-03-04 09:30 UTC`.
pub fn utc_stamp_label(nanos: i64) -> (s: String)
    ensures
        s@ == utc_formatted(nanos, "%Y-%m-%d %H:%M UTC"@),
{
    format_utc(nanos, "%Y-%m-%d %H:%M UTC")
}

} // verus!
