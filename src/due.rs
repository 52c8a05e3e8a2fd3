use vstd::prelude::*;

use crate::error::StoreError;
use chrono::{Datelike, NaiveDateTime, Timelike};

verus! {

/// A calendar date with a time of day, with no time zone attached.
#[derive(Debug, Clone, Copy, PartialEq, Eq, Structural)]
pub struct DueTime {
    pub year: i32,
    pub month: u32,
    pub day: u32,
    pub hour: u32,
    pub minute: u32,
    pub second: u32,
}

/// The text layout of a due date and time: `MM/DD/YYYY HH:MM AM/PM`.
pub const DUE_FORMAT: &'static str = "%m/%d/%Y %I:%M %p";

impl DueTime {
    /// The fields as a tuple of integers.
    pub open spec fn fields(self) -> (int, int, int, int, int, int) {
        (
            self.year as int,
            self.month as int,
            self.day as int,
            self.hour as int,
            self.minute as int,
            self.second as int,
        )
    }
}

/// What chrono reads from `text` under the strftime layout `fmt`: the year, month,
/// day, hour, minute and second, or `None` where the text does not fit.
pub uninterp spec fn chrono_parse(text: Seq<char>, fmt: Seq<char>) -> Option<
    (int, int, int, int, int, int),
>;

/// Relies on `chrono::NaiveDateTime::parse_from_str`, which reads a date and time
/// from `text` under the layout `fmt`; the result depends on the two strings alone.
#[verifier::external_body]
fn parse_naive(text: &str, fmt: &str) -> (r: Option<DueTime>)
    ensures
        r is Some <==> chrono_parse(text@, fmt@) is Some,
        r matches Some(d) ==> chrono_parse(text@, fmt@) == Some(d.fields()),
{
    NaiveDateTime::parse_from_str(text, fmt).ok().map(
        |t| DueTime {
            year: t.year(),
            month: t.month(),
            day: t.day(),
            hour: t.hour(),
            minute: t.minute(),
            second: t.second(),
        },
    )
}

/// Reads a due date and time written as `MM/DD/YYYY HH:MM AM/PM`.
pub fn parse_due(text: &str) -> (r: Result<DueTime, StoreError>)
    ensures
        chrono_parse(text@, DUE_FORMAT@) is None <==> r == Err::<DueTime, StoreError>(
            StoreError::Parse,
        ),
        r matches Ok(d) ==> chrono_parse(text@, DUE_FORMAT@) == Some(d.fields()),
{
    match parse_naive(text, DUE_FORMAT) {
        Some(d) => Ok(d),
        None => Err(StoreError::Parse),
    }
}

} // verus!
