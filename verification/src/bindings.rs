//! What this crate takes on trust: the calls into chrono and std whose
//! contracts the verifier believes without proof. Everything else in the
//! crate is proved against these statements.

use crate::calendar::{month_name_text, Instant};
use chrono::{DateTime, Datelike, Month, Timelike, Utc};
use std::time::SystemTime;
use vstd::prelude::*;

verus! {

/// The lowercase form of `text` as `str::to_lowercase` of std computes it,
/// character by character after the Unicode case tables. It depends on the
/// text alone.
pub uninterp spec fn lowercase_of(text: Seq<char>) -> Seq<char>;

/// `str::to_lowercase` of std returns the lowercase form of its argument.
pub assume_specification[ str::to_lowercase ](text: &str) -> (lowered: String)
    ensures
        lowered@ == lowercase_of(text@),
;

/// Reads the system clock with `SystemTime::now` of std, turns the reading
/// into a UTC date and time with chrono's `From<SystemTime>` for
/// `DateTime<Utc>`, which takes a reading before 1970 as well as one after
/// it and holds every year from -262143 to 262142, and takes the result
/// apart with chrono's `year`, `month`, `day`, `hour`, `minute`, `second`
/// and `nanosecond`, in that order. Nothing is claimed of which moment comes
/// back, only that chrono hands out a day of the proleptic Gregorian
/// calendar and a time of day within the ranges it documents.
#[verifier::external_body]
pub(crate) fn clock_reading() -> (fields: (i32, u32, u32, u32, u32, u32, u32))
    ensures
        (Instant {
            year: fields.0 as int,
            month: fields.1 as int,
            day: fields.2 as int,
            hour: fields.3 as int,
            minute: fields.4 as int,
            second: fields.5 as int,
            nanosecond: fields.6 as int,
        }).valid(),
{
    let now = DateTime::<Utc>::from(SystemTime::now());
    (
        now.year(),
        now.month(),
        now.day(),
        now.hour(),
        now.minute(),
        now.second(),
        now.nanosecond(),
    )
}

/// The English name of a month through `chrono::Month`: `Month::try_from`
/// accepts the numbers 1 to 12 and `Month::name` gives the full name, the
/// same that chrono's `%B` prints. Any other number gives the empty text.
#[verifier::external_body]
pub(crate) fn english_month_name(month: u8) -> (name: String)
    ensures
        name@ == month_name_text(month as int),
{
    match Month::try_from(month) {
        Ok(known) => known.name().to_string(),
        Err(_) => String::new(),
    }
}

} // verus!
