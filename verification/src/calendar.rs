//! Civil dates and times in UTC, held as validated calendar fields.

use crate::bindings::{clock_reading, english_month_name};
use crate::text::{two_digit_text, two_digits};
use vstd::prelude::*;
use vstd::string::StringExecFns;

verus! {

/// Whether `year` is a leap year of the proleptic Gregorian calendar.
pub open spec fn is_leap_year(year: int) -> bool {
    year % 4 == 0 && (year % 100 != 0 || year % 400 == 0)
}

/// The number of days of `month` (1 to 12) in `year`; 0 for any other month.
pub open spec fn days_in_month(year: int, month: int) -> int {
    if month == 2 {
        if is_leap_year(year) {
            29
        } else {
            28
        }
    } else if month == 4 || month == 6 || month == 9 || month == 11 {
        30
    } else if 1 <= month <= 12 {
        31
    } else {
        0
    }
}

/// The full English name of month 1 to 12; the empty text for any other
/// number.
pub open spec fn month_name_text(month: int) -> Seq<char> {
    if month == 1 {
        "January"@
    } else if month == 2 {
        "February"@
    } else if month == 3 {
        "March"@
    } else if month == 4 {
        "April"@
    } else if month == 5 {
        "May"@
    } else if month == 6 {
        "June"@
    } else if month == 7 {
        "July"@
    } else if month == 8 {
        "August"@
    } else if month == 9 {
        "September"@
    } else if month == 10 {
        "October"@
    } else if month == 11 {
        "November"@
    } else if month == 12 {
        "December"@
    } else {
        Seq::empty()
    }
}

/// A point in time as the calendar reads it in UTC.
pub struct Instant {
    pub year: int,
    pub month: int,
    pub day: int,
    pub hour: int,
    pub minute: int,
    pub second: int,
    pub nanosecond: int,
}

impl Instant {
    /// The fields name a day that exists and a time of day on it. A
    /// nanosecond count of a thousand million or more stands for a leap
    /// second.
    pub open spec fn valid(self) -> bool {
        &&& 1 <= self.month <= 12
        &&& 1 <= self.day <= days_in_month(self.year, self.month)
        &&& 0 <= self.hour < 24
        &&& 0 <= self.minute < 60
        &&& 0 <= self.second < 60
        &&& 0 <= self.nanosecond < 2_000_000_000
    }
}

/// Leap-year test on a machine integer.
pub fn leap_year(year: i32) -> (leap: bool)
    ensures
        leap == is_leap_year(year as int),
{
    // The calendar repeats every 400 years: moving the year up by a whole
    // number of such cycles keeps the answer and leaves nothing negative.
    let shifted: i64 = year as i64 + 2_147_484_000;
    let place: i64 = shifted % 400;
    assert(place == (year as int) % 400);
    assert(((year as int) % 4 == 0) == (place % 4 == 0));
    assert(((year as int) % 100 == 0) == (place % 100 == 0));
    place % 4 == 0 && (place % 100 != 0 || place == 0)
}

/// Length of a month in days; 0 when `month` is not 1 to 12.
pub fn month_length(year: i32, month: u32) -> (days: u32)
    ensures
        days == days_in_month(year as int, month as int),
{
    if month == 2 {
        if leap_year(year) {
            29
        } else {
            28
        }
    } else if month == 4 || month == 6 || month == 9 || month == 11 {
        30
    } else if 1 <= month && month <= 12 {
        31
    } else {
        0
    }
}

/// The moment an expense was recorded: a valid UTC calendar date and time.
#[derive(Clone, Copy, Debug, PartialEq, Eq, Structural)]
pub struct Timestamp {
    year: i32,
    month: u32,
    day: u32,
    hour: u32,
    minute: u32,
    second: u32,
    nanosecond: u32,
}

impl View for Timestamp {
    type V = Instant;

    closed spec fn view(&self) -> Instant {
        Instant {
            year: self.year as int,
            month: self.month as int,
            day: self.day as int,
            hour: self.hour as int,
            minute: self.minute as int,
            second: self.second as int,
            nanosecond: self.nanosecond as int,
        }
    }
}

impl Timestamp {
    #[verifier::type_invariant]
    spec fn well_formed(self) -> bool {
        self@.valid()
    }

    /// A timestamp is what its fields say: two that read the same are the
    /// same.
    pub proof fn lemma_view_determines(self, other: Timestamp)
        requires
            self@ == other@,
        ensures
            self == other,
    {
    }

    /// Builds a timestamp from calendar fields, or `None` when they name no
    /// moment.
    pub fn new(
        year: i32,
        month: u32,
        day: u32,
        hour: u32,
        minute: u32,
        second: u32,
        nanosecond: u32,
    ) -> (made: Option<Timestamp>)
        ensures
            made is Some <==> (Instant {
                year: year as int,
                month: month as int,
                day: day as int,
                hour: hour as int,
                minute: minute as int,
                second: second as int,
                nanosecond: nanosecond as int,
            }).valid(),
            made matches Some(t) ==> t@ == (Instant {
                year: year as int,
                month: month as int,
                day: day as int,
                hour: hour as int,
                minute: minute as int,
                second: second as int,
                nanosecond: nanosecond as int,
            }),
    {
        if 1 <= month && month <= 12 && 1 <= day && day <= month_length(year, month) && hour < 24
            && minute < 60 && second < 60 && nanosecond < 2_000_000_000 {
            Some(Timestamp { year, month, day, hour, minute, second, nanosecond })
        } else {
            None
        }
    }

    /// The present moment by the system clock, in UTC.
    ///
    /// Which moment comes back is the clock's affair; it is a valid one.
    pub fn now() -> (now: Timestamp)
        ensures
            now@.valid(),
    {
        let (year, month, day, hour, minute, second, nanosecond) = clock_reading();
        Timestamp { year, month, day, hour, minute, second, nanosecond }
    }

    /// The year.
    pub fn year(&self) -> (year: i32)
        ensures
            year == self@.year,
            self@.valid(),
    {
        proof {
            use_type_invariant(self);
        }
        self.year
    }

    /// The month, 1 to 12.
    pub fn month(&self) -> (month: u32)
        ensures
            month == self@.month,
            1 <= month <= 12,
            self@.valid(),
    {
        proof {
            use_type_invariant(self);
        }
        self.month
    }

    /// The day of the month, 1 to 31.
    pub fn day(&self) -> (day: u32)
        ensures
            day == self@.day,
            1 <= day <= 31,
            self@.valid(),
    {
        proof {
            use_type_invariant(self);
        }
        self.day
    }

    /// The hour of the day, 0 to 23.
    pub fn hour(&self) -> (hour: u32)
        ensures
            hour == self@.hour,
            hour < 24,
            self@.valid(),
    {
        proof {
            use_type_invariant(self);
        }
        self.hour
    }

    /// The minute of the hour, 0 to 59.
    pub fn minute(&self) -> (minute: u32)
        ensures
            minute == self@.minute,
            minute < 60,
            self@.valid(),
    {
        proof {
            use_type_invariant(self);
        }
        self.minute
    }

    /// The second of the minute, 0 to 59.
    pub fn second(&self) -> (second: u32)
        ensures
            second == self@.second,
            second < 60,
            self@.valid(),
    {
        proof {
            use_type_invariant(self);
        }
        self.second
    }

    /// The nanoseconds since the whole second; a thousand million or more
    /// within a leap second.
    pub fn nanosecond(&self) -> (nanosecond: u32)
        ensures
            nanosecond == self@.nanosecond,
            nanosecond < 2_000_000_000,
            self@.valid(),
    {
        proof {
            use_type_invariant(self);
        }
        self.nanosecond
    }

    /// The date as a listing shows it: the month's name, a comma, and the
    /// day of the month in two digits.
    pub fn date_label(&self) -> (label: String)
        ensures
            label@ == month_name_text(self@.month) + ", "@ + two_digit_text(self@.day as nat),
    {
        let mut label = self.month_name();
        label.append(", ");
        let day = two_digits(self.day() as usize);
        label.append(day.as_str());
        label
    }

    /// The full English name of the month.
    pub fn month_name(&self) -> (name: String)
        ensures
            name@ == month_name_text(self@.month),
    {
        let month = self.month();
        english_month_name(month as u8)
    }
}

} // verus!
