//! Wall-clock timestamps for export metadata.
//!
//! The exported document embeds the time of export. The clock itself is the
//! platform's; validation of what it reports — month, day and time-of-day
//! ranges, with leap years — is the library's and is exact. Years before 0
//! of the proleptic calendar never come from a clock and are rejected.

use vstd::prelude::*;

verus! {

/// A calendar year divisible by four is a leap year, unless it closes a
/// century that is not divisible by four hundred.
pub open spec fn spec_is_leap_year(year: int) -> bool {
    year % 4 == 0 && (year % 100 != 0 || year % 400 == 0)
}

/// Days of `month` (1 through 12) in `year`.
pub open spec fn spec_days_in_month(year: int, month: int) -> int {
    if month == 2 {
        if spec_is_leap_year(year) {
            29
        } else {
            28
        }
    } else if month == 4 || month == 6 || month == 9 || month == 11 {
        30
    } else {
        31
    }
}

/// Whether the parts name a real calendar date and time of day.
pub open spec fn spec_valid_timestamp(
    year: int,
    month: int,
    day: int,
    hour: int,
    minute: int,
    second: int,
) -> bool {
    &&& 0 <= year
    &&& 1 <= month <= 12
    &&& 1 <= day <= spec_days_in_month(year, month)
    &&& 0 <= hour <= 23
    &&& 0 <= minute <= 59
    &&& 0 <= second <= 59
}

/// A validated wall-clock snapshot, embedded in exported documents.
#[derive(Clone, Copy, Debug, PartialEq, Eq, Structural)]
pub struct Timestamp {
    pub year: i32,
    pub month: u8,
    pub day: u8,
    pub hour: u8,
    pub minute: u8,
    pub second: u8,
}

impl Timestamp {
    /// The parts name a real date and time.
    pub open spec fn wf(&self) -> bool {
        spec_valid_timestamp(
            self.year as int,
            self.month as int,
            self.day as int,
            self.hour as int,
            self.minute as int,
            self.second as int,
        )
    }

    /// Validates clock parts into a timestamp: `Some` exactly when they
    /// name a real calendar date and time of day.
    pub fn from_parts(year: i32, month: u8, day: u8, hour: u8, minute: u8, second: u8) -> (r:
        Option<Timestamp>)
        ensures
            match r {
                Some(t) => {
                    &&& t.year == year && t.month == month && t.day == day
                    &&& t.hour == hour && t.minute == minute && t.second == second
                    &&& t.wf()
                },
                None => !spec_valid_timestamp(
                    year as int,
                    month as int,
                    day as int,
                    hour as int,
                    minute as int,
                    second as int,
                ),
            },
    {
        if year < 0 {
            return None;
        }
        if month < 1 || month > 12 {
            return None;
        }
        let days: u8 = if month == 2 {
            let y = year as u64;
            if y % 4 == 0 && (y % 100 != 0 || y % 400 == 0) {
                29
            } else {
                28
            }
        } else if month == 4 || month == 6 || month == 9 || month == 11 {
            30
        } else {
            31
        };
        if day < 1 || day > days {
            return None;
        }
        if hour > 23 || minute > 59 || second > 59 {
            return None;
        }
        Some(Timestamp { year, month, day, hour, minute, second })
    }
}

} // verus!
