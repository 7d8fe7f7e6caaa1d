//! Calendar timestamps to the second, their order, and parsing them from text.
use vstd::prelude::*;

use chrono::{Datelike, Timelike};

verus! {

/// A date and a time of day, to the second.
#[derive(Clone, Copy, Debug, PartialEq, Eq, Structural)]
pub struct Timestamp {
    pub year: i32,
    pub month: u32,
    pub day: u32,
    pub hour: u32,
    pub minute: u32,
    pub second: u32,
}

/// The one text form that timestamps are given in: `YYYY-MM-DDTHH:MM:SS`.
pub const TIMESTAMP_FORMAT: &'static str = "%Y-%m-%dT%H:%M:%S";

impl Timestamp {
    /// Every field lies in its calendar range.
    pub open spec fn valid(self) -> bool {
        &&& 1 <= self.month <= 12
        &&& 1 <= self.day <= 31
        &&& self.hour < 24
        &&& self.minute < 60
        &&& self.second < 60
    }

    /// `self` comes strictly before `other`: the fields compared in turn,
    /// from the year down to the second.
    pub open spec fn precedes(self, other: Timestamp) -> bool {
        if self.year != other.year {
            self.year < other.year
        } else if self.month != other.month {
            self.month < other.month
        } else if self.day != other.day {
            self.day < other.day
        } else if self.hour != other.hour {
            self.hour < other.hour
        } else if self.minute != other.minute {
            self.minute < other.minute
        } else {
            self.second < other.second
        }
    }

    pub fn is_valid(&self) -> (r: bool)
        ensures
            r == self.valid(),
    {
        1 <= self.month && self.month <= 12 && 1 <= self.day && self.day <= 31 && self.hour < 24
            && self.minute < 60 && self.second < 60
    }

    pub fn is_before(&self, other: &Timestamp) -> (r: bool)
        ensures
            r == self.precedes(*other),
    {
        if self.year != other.year {
            self.year < other.year
        } else if self.month != other.month {
            self.month < other.month
        } else if self.day != other.day {
            self.day < other.day
        } else if self.hour != other.hour {
            self.hour < other.hour
        } else if self.minute != other.minute {
            self.minute < other.minute
        } else {
            self.second < other.second
        }
    }
}

/// `precedes` is a strict total order.
pub proof fn lemma_precedes_order(a: Timestamp, b: Timestamp, c: Timestamp)
    ensures
        !a.precedes(a),
        a.precedes(b) ==> !b.precedes(a),
        a != b ==> a.precedes(b) || b.precedes(a),
        a.precedes(b) && b.precedes(c) ==> a.precedes(c),
{
}

/// What chrono's `NaiveDateTime::parse_from_str` makes of a text under a format.
pub uninterp spec fn parsed_date_time(text: Seq<char>, format: Seq<char>) -> Option<Timestamp>;

/// Relies on chrono's `NaiveDateTime::parse_from_str`: the outcome depends on
/// the text and the format alone, and a parsed value reports its month in
/// 1..=12, its day in 1..=31, its hour in 0..=23, and its minute and second
/// in 0..=59 (chrono's `Datelike` and `Timelike`).
#[verifier::external_body]
fn parse_date_time(text: &str, format: &str) -> (r: Option<Timestamp>)
    ensures
        r == parsed_date_time(text@, format@),
        r matches Some(t) ==> t.valid(),
{
    match chrono::NaiveDateTime::parse_from_str(text, format) {
        Ok(dt) => Some(
            Timestamp {
                year: dt.year(),
                month: dt.month(),
                day: dt.day(),
                hour: dt.hour(),
                minute: dt.minute(),
                second: dt.second(),
            },
        ),
        Err(_) => None,
    }
}

/// Reads a timestamp written as `YYYY-MM-DDTHH:MM:SS`.
pub fn parse_timestamp(text: &str) -> (r: Option<Timestamp>)
    ensures
        r == parsed_date_time(text@, TIMESTAMP_FORMAT@),
        r matches Some(t) ==> t.valid(),
{
    parse_date_time(text, TIMESTAMP_FORMAT)
}

} // verus!
