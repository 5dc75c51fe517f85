//! The wall-clock source. Only the reading of the clock is outside work; the
//! rendering into `<month name>/<day> <hour>:<minute> <AM|PM>` is verified.

use chrono::{Datelike, Timelike};
use vstd::prelude::*;

use crate::text::{pad2_str, u64_to_pad2};
use crate::widget::{plain_block, plain_style, Block};

verus! {

/// One reading of the local clock, as plain values.
#[derive(Clone, Copy)]
pub struct ClockReading {
    pub month: u8,
    pub day: u8,
    pub hour: u8,
    pub minute: u8,
}

/// The ranges the clock accessors promise.
pub open spec fn valid_reading(r: ClockReading) -> bool {
    1 <= r.month <= 12 && 1 <= r.day <= 31 && r.hour <= 23 && r.minute <= 59
}

/// Relies on `chrono::Local::now` and chrono's `Datelike` / `Timelike`
/// accessors: `month()` is 1 to 12, `day()` is 1 to 31, `hour()` is 0 to 23
/// and `minute()` is 0 to 59. Like every reading of the system clock through
/// chrono, the call aborts if the clock is set before the Unix epoch or
/// beyond chrono's representable range — an environmental condition no
/// caller can exclude.
#[verifier::external_body]
pub fn read_clock() -> (r: ClockReading)
    ensures
        valid_reading(r),
{
    let now = chrono::Local::now();
    ClockReading {
        month: now.month() as u8,
        day: now.day() as u8,
        hour: now.hour() as u8,
        minute: now.minute() as u8,
    }
}

/// The English month name, months counted from one.
pub open spec fn month_name(m: nat) -> Seq<char> {
    if m == 1 { "January"@ }
    else if m == 2 { "February"@ }
    else if m == 3 { "March"@ }
    else if m == 4 { "April"@ }
    else if m == 5 { "May"@ }
    else if m == 6 { "June"@ }
    else if m == 7 { "July"@ }
    else if m == 8 { "August"@ }
    else if m == 9 { "September"@ }
    else if m == 10 { "October"@ }
    else if m == 11 { "November"@ }
    else { "December"@ }
}

fn month_str(m: u8) -> (r: &'static str)
    requires
        1 <= m <= 12,
    ensures
        r@ == month_name(m as nat),
{
    if m == 1 { "January" }
    else if m == 2 { "February" }
    else if m == 3 { "March" }
    else if m == 4 { "April" }
    else if m == 5 { "May" }
    else if m == 6 { "June" }
    else if m == 7 { "July" }
    else if m == 8 { "August" }
    else if m == 9 { "September" }
    else if m == 10 { "October" }
    else if m == 11 { "November" }
    else { "December" }
}

/// The hour on a twelve-hour dial.
pub open spec fn hour12(h: nat) -> nat {
    if h % 12 == 0 {
        12
    } else {
        h % 12
    }
}

/// The clock rendering: month name, slash, two-digit day, space, two-digit
/// twelve-hour hour, colon, two-digit minute, space, and AM or PM.
pub open spec fn clock_text(r: ClockReading) -> Seq<char> {
    month_name(r.month as nat) + "/"@ + pad2_str(r.day as nat) + " "@ + pad2_str(
        hour12(r.hour as nat),
    ) + ":"@ + pad2_str(r.minute as nat) + " "@ + (if r.hour < 12 { "AM"@ } else { "PM"@ })
}

/// Renders a clock reading.
pub fn clock_string(r: ClockReading) -> (s: String)
    requires
        valid_reading(r),
    ensures
        s@ == clock_text(r),
{
    let mut s = month_str(r.month).to_owned();
    s.append("/");
    s.append(u64_to_pad2(r.day as u64).as_str());
    s.append(" ");
    let h12: u64 = if r.hour % 12 == 0 { 12 } else { (r.hour % 12) as u64 };
    proof {
        assert(h12 as nat == hour12(r.hour as nat));
    }
    s.append(u64_to_pad2(h12).as_str());
    s.append(":");
    s.append(u64_to_pad2(r.minute as u64).as_str());
    s.append(" ");
    if r.hour < 12 {
        s.append("AM");
    } else {
        s.append("PM");
    }
    proof {
        assert(s@ =~= clock_text(r));
    }
    s
}

/// The wall-clock source: an icon and the fixed rendering above.
pub struct DateTime {
    pub icon: String,
}

impl Default for DateTime {
    /// The source with its usual clock icon.
    fn default() -> (r: DateTime)
        ensures
            r.icon@ == "\u{f5ef}"@,
    {
        DateTime { icon: "\u{f5ef}".to_owned() }
    }
}

impl DateTime {
    pub fn new(icon: &str) -> (r: DateTime)
        ensures
            r.icon@ == icon@,
    {
        DateTime { icon: icon.to_owned() }
    }

    /// The block for one clock reading.
    pub fn render(&self, r: ClockReading) -> (b: Block)
        requires
            valid_reading(r),
        ensures
            b@.icon == self.icon@,
            b@.text == clock_text(r),
            b@.color == plain_style(),
    {
        plain_block(self.icon.as_str(), clock_string(r).as_str())
    }

    /// One sample: reads the clock and renders it. Always present; the text
    /// is the fixed rendering of whatever the clock read.
    pub fn update(&self) -> (b: Option<Block>)
        ensures
            b matches Some(bl) && bl@.icon == self.icon@ && bl@.color == plain_style() && exists|
                r: ClockReading,
            |
                valid_reading(r) && bl@.text == clock_text(r),
    {
        let now = read_clock();
        let bl = self.render(now);
        Some(bl)
    }
}

/// The clock source under its usual icon.
pub fn date_and_time() -> (b: Option<Block>)
    ensures
        b matches Some(bl) && bl@.icon == "\u{f5ef}"@ && bl@.color == plain_style() && exists|
            r: ClockReading,
        |
            valid_reading(r) && bl@.text == clock_text(r),
{
    let source = DateTime::default();
    source.update()
}

} // verus!
