//! The time of day.

use time::format_description::well_known::Rfc3339;
use time::OffsetDateTime;
use vstd::prelude::*;
use vstd::string::*;

verus! {

/// The first moment of the year 0, in nanoseconds since the start of 1970.
pub const FIRST_NANO: i128 = -62_167_219_200_000_000_000;

/// The last moment of the year 9999, in nanoseconds since the start of 1970.
pub const LAST_NANO: i128 = 253_402_300_799_999_999_999;

/// The nanoseconds of a day.
pub const DAY_NANOS: i128 = 86_400_000_000_000;

/// Whether a moment is in a year of at most four digits.
pub open spec fn in_common_years(nanos: int) -> bool {
    FIRST_NANO <= nanos <= LAST_NANO
}

/// `OffsetDateTime::now_utc` reads the clock. Nothing is promised of it. It
/// expects the clock to be within ten thousand years of the year 0.
#[verifier::external_body]
pub(crate) fn now_nanos() -> (r: i128) {
    OffsetDateTime::now_utc().unix_timestamp_nanos()
}

/// The text of a moment by RFC 3339.
pub uninterp spec fn rfc3339(nanos: int) -> Option<Seq<char>>;

/// `OffsetDateTime::format` writes a moment by RFC 3339, in universal time. The
/// text depends on the moment alone. There is one exactly for the years from 0
/// to 9999. How it looks stays unsaid.
#[verifier::external_body]
pub(crate) fn format_moment(nanos: i128) -> (r: Option<String>)
    ensures
        match r {
            Some(text) => rfc3339(nanos as int) == Some(text@),
            None => rfc3339(nanos as int) is None,
        },
        r is Some <==> in_common_years(nanos as int),
{
    OffsetDateTime::from_unix_timestamp_nanos(nanos).ok()?.format(&Rfc3339).ok()
}

/// The text of a moment, or another where it has none.
pub open spec fn moment_text(nanos: int, otherwise: Seq<char>) -> Seq<char> {
    match rfc3339(nanos) {
        Some(text) => text,
        None => otherwise,
    }
}

/// Writes a moment, or another text where it cannot be written.
pub fn timestamp(nanos: i128, otherwise: &str) -> (r: String)
    ensures
        r@ == moment_text(nanos as int, otherwise@),
        !in_common_years(nanos as int) ==> r@ == otherwise@,
{
    match format_moment(nanos) {
        Some(text) => text,
        None => otherwise.to_string(),
    }
}

/// The present time as text, or another text where it cannot be written.
pub fn timestamp_now(otherwise: &str) -> (r: String)
    ensures
        r@ == otherwise@ || exists|nanos: int| rfc3339(nanos) == Some(#[trigger] r@),
{
    let nanos: i128 = now_nanos();
    let text = timestamp(nanos, otherwise);
    proof {
        if rfc3339(nanos as int) is Some {
            assert(rfc3339(nanos as int) == Some(text@));
        }
    }
    text
}

/// A moment that has a text is written as that, and any other as the other text.
pub proof fn moments_are_written_where_they_can_be(nanos: int, otherwise: Seq<char>)
    ensures
        rfc3339(nanos) matches Some(text) ==> moment_text(nanos, otherwise) == text,
        rfc3339(nanos) is None ==> moment_text(nanos, otherwise) == otherwise,
{
}

} // verus!
