use vstd::prelude::*;

use crate::text;

verus! {

/// A local wall-clock time to the minute, as the calendar shows it.
#[derive(Clone, Copy, Debug, PartialEq, Eq, Structural)]
pub struct LocalTime {
    pub year: i32,
    pub month: u32,
    pub day: u32,
    pub hour: u32,
    pub minute: u32,
}

pub open spec fn is_leap_year(y: int) -> bool {
    (y % 4 == 0 && y % 100 != 0) || y % 400 == 0
}

/// The number of days in month `m` (1 to 12) of year `y` in the Gregorian calendar.
pub open spec fn days_in_month(y: int, m: int) -> int {
    if m == 2 {
        if is_leap_year(y) {
            29
        } else {
            28
        }
    } else if m == 4 || m == 6 || m == 9 || m == 11 {
        30
    } else {
        31
    }
}

/// `n` (below 100) as two digits, with a leading zero.
pub open spec fn two_digits(n: int) -> Seq<char> {
    seq![text::digit_char((n / 10) as nat), text::digit_char((n % 10) as nat)]
}

/// `n` (below 10000) as four digits, with leading zeros.
pub open spec fn four_digits(n: int) -> Seq<char> {
    two_digits(n / 100) + two_digits(n % 100)
}

/// The earliest year that chrono's dates reach.
pub const MIN_YEAR: i32 = -262143;

/// The latest year that chrono's dates reach.
pub const MAX_YEAR: i32 = 262142;

/// `d` with zeros in front, to at least four characters.
pub open spec fn zero_pad4(d: Seq<char>) -> Seq<char> {
    Seq::new(if d.len() < 4 { (4 - d.len()) as nat } else { 0 }, |i: int| '0') + d
}

/// The year as strftime's `%Y` writes it: four digits with leading zeros for
/// the years 0 to 9999; other years with a sign and at least four digits.
pub open spec fn year_text(y: int) -> Seq<char> {
    if 0 <= y <= 9999 {
        four_digits(y)
    } else if y < 0 {
        seq!['-'] + zero_pad4(text::decimal((-y) as nat))
    } else {
        seq!['+'] + zero_pad4(text::decimal(y as nat))
    }
}

/// The hour on a 12-hour clock: 12, 1, ..., 11.
pub open spec fn hour12(h: int) -> int {
    if h % 12 == 0 {
        12
    } else {
        h % 12
    }
}

impl LocalTime {
    /// A real date (proleptic Gregorian) in the years that chrono's dates
    /// reach, and a time of day.
    pub open spec fn wf(self) -> bool {
        &&& MIN_YEAR <= self.year <= MAX_YEAR
        &&& 1 <= self.month <= 12
        &&& 1 <= self.day <= days_in_month(self.year as int, self.month as int)
        &&& self.hour < 24
        &&& self.minute < 60
    }

    /// `hh:mm AM` on a 12-hour clock (the `%I:%M %p` of strftime).
    pub open spec fn clock_text(self) -> Seq<char> {
        two_digits(hour12(self.hour as int)) + seq![':'] + two_digits(self.minute as int) + if self.hour
            < 12 {
            seq![' ', 'A', 'M']
        } else {
            seq![' ', 'P', 'M']
        }
    }

    /// `yyyy-mm-dd hh:mm AM` (the `%Y-%m-%d %I:%M %p` of strftime).
    pub open spec fn stamp_text(self) -> Seq<char> {
        self.date_text() + seq![' '] + self.clock_text()
    }

    /// `yyyy-mm-dd` (the `%Y-%m-%d` of strftime).
    pub open spec fn date_text(self) -> Seq<char> {
        year_text(self.year as int) + seq!['-'] + two_digits(self.month as int) + seq!['-']
            + two_digits(self.day as int)
    }

    /// The time with these fields, when they make a valid one.
    pub fn new(year: i32, month: u32, day: u32, hour: u32, minute: u32) -> (r: Option<LocalTime>)
        ensures
            r is Some <==> (LocalTime { year, month, day, hour, minute }).wf(),
            r matches Some(t) ==> t == (LocalTime { year, month, day, hour, minute }),
    {
        if year < MIN_YEAR || year > MAX_YEAR || month < 1 || month > 12 || day < 1 || hour >= 24 || minute
            >= 60 {
            return None;
        }
        let a: i32 = if year < 0 {
            -year
        } else {
            year
        };
        let leap = (a % 4 == 0 && a % 100 != 0) || a % 400 == 0;
        assert(leap == is_leap_year(year as int));
        let days: u32 = if month == 2 {
            if leap {
                29
            } else {
                28
            }
        } else if month == 4 || month == 6 || month == 9 || month == 11 {
            30
        } else {
            31
        };
        if day > days {
            return None;
        }
        Some(LocalTime { year, month, day, hour, minute })
    }
}

/// chrono's `NaiveDateTime::format`, on the date and time in `t` (seconds at
/// zero), then `to_string`. Claimed of chrono, for the two patterns that this
/// crate uses: `%Y` gives the year zero-padded to four digits (with a sign
/// and at least four digits outside the years 0 to 9999), `%m`, `%d`,
/// `%I` and `%M` give two zero-padded digits (`%I` is the hour on a 12-hour
/// clock, 12 for midnight and noon), and `%p` gives `AM` before noon and `PM`
/// from noon on; other characters are copied.
#[verifier::external_body]
fn chrono_format(t: &LocalTime, pattern: &str) -> (r: String)
    requires
        t.wf(),
        pattern@ == "%Y-%m-%d %I:%M %p"@ || pattern@ == "%I:%M %p"@,
    ensures
        pattern@ == "%Y-%m-%d %I:%M %p"@ ==> r@ == t.stamp_text(),
        pattern@ == "%I:%M %p"@ ==> r@ == t.clock_text(),
{
    chrono::NaiveDate::from_ymd_opt(t.year, t.month, t.day).unwrap().and_hms_opt(
        t.hour,
        t.minute,
        0,
    ).unwrap().format(pattern).to_string()
}

impl LocalTime {
    /// The time stamp that heads a saved thought: `yyyy-mm-dd hh:mm AM`.
    pub fn stamp_label(&self) -> (r: String)
        requires
            self.wf(),
        ensures
            r@ == self.stamp_text(),
    {
        chrono_format(self, "%Y-%m-%d %I:%M %p")
    }

    /// The clock shown in the editor's header: `hh:mm AM`.
    pub fn clock_label(&self) -> (r: String)
        requires
            self.wf(),
        ensures
            r@ == self.clock_text(),
    {
        chrono_format(self, "%I:%M %p")
    }
}


/// The time stamp of a saved thought is the date, a space, and then the
/// clock that the editor's header shows for the same time.
pub proof fn lemma_stamp_ends_with_clock(t: LocalTime)
    ensures
        t.stamp_text() == t.date_text() + seq![' '] + t.clock_text(),
        ({
            let s = t.stamp_text();
            let k = s.len() - t.clock_text().len();
            &&& k >= 1
            &&& s[k - 1] == ' '
            &&& s.subrange(k, s.len() as int) == t.clock_text()
        }),
{
    let s = t.stamp_text();
    let k = s.len() - t.clock_text().len();
    assert(s.subrange(k, s.len() as int) =~= t.clock_text());
}


/// The Gregorian month lengths: thirty days hath September, April, June and
/// November; February has 28, or 29 in a leap year; all the rest have 31.
/// The months of a year add up to 365 days, or 366 in a leap year.
pub proof fn lemma_gregorian_months(y: int)
    ensures
        forall|m: int|
            (m == 1 || m == 3 || m == 5 || m == 7 || m == 8 || m == 10 || m == 12) ==> #[trigger] days_in_month(y, m) == 31,
        forall|m: int| (m == 4 || m == 6 || m == 9 || m == 11) ==> #[trigger] days_in_month(y, m) == 30,
        days_in_month(y, 2) == (if (y % 4 == 0 && y % 100 != 0) || y % 400 == 0 { 29int } else { 28int }),
        days_in_month(y, 1) + days_in_month(y, 2) + days_in_month(y, 3) + days_in_month(y, 4)
            + days_in_month(y, 5) + days_in_month(y, 6) + days_in_month(y, 7) + days_in_month(y, 8)
            + days_in_month(y, 9) + days_in_month(y, 10) + days_in_month(y, 11) + days_in_month(y, 12)
            == (if is_leap_year(y) { 366int } else { 365int }),
{
}

/// Every real date and time of day in chrono's years makes a `LocalTime`,
/// in particular the 31st of every 31-day month.
pub proof fn lemma_real_dates_are_times(year: i32, month: u32, day: u32, hour: u32, minute: u32)
    requires
        MIN_YEAR <= year <= MAX_YEAR,
        1 <= month <= 12,
        1 <= day,
        day <= 28 || (day <= 30 && month != 2) || (day == 31 && (month == 1 || month == 3 || month == 5
            || month == 7 || month == 8 || month == 10 || month == 12)) || (day == 29 && month == 2
            && ((year % 4 == 0 && year % 100 != 0) || year % 400 == 0)),
        hour < 24,
        minute < 60,
    ensures
        (LocalTime { year, month, day, hour, minute }).wf(),
{
}

} // verus!
