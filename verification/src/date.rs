//! Calendar timestamps (UTC) as plain fields, with validity, ordering and
//! the three textual forms the renderers emit.
use chrono::TimeZone;
use vstd::prelude::*;

verus! {

/// A UTC timestamp held as plain calendar fields.
#[derive(Clone, Copy, PartialEq, Eq, Structural, Debug)]
pub struct Date {
    pub year: u32,
    pub month: u32,
    pub day: u32,
    pub hour: u32,
    pub minute: u32,
    pub second: u32,
}

pub open spec fn spec_is_leap_year(y: int) -> bool {
    (y % 4 == 0 && y % 100 != 0) || y % 400 == 0
}

pub open spec fn spec_days_in_month(y: int, m: int) -> int {
    if m == 2 {
        if spec_is_leap_year(y) {
            29
        } else {
            28
        }
    } else if m == 4 || m == 6 || m == 9 || m == 11 {
        30
    } else {
        31
    }
}

/// A valid Gregorian calendar date-time with a four-digit year.
pub open spec fn date_wf(d: Date) -> bool {
    &&& 1000 <= d.year <= 9999
    &&& 1 <= d.month <= 12
    &&& 1 <= d.day <= spec_days_in_month(d.year as int, d.month as int)
    &&& d.hour < 24
    &&& d.minute < 60
    &&& d.second < 60
}

pub fn is_leap_year(y: u32) -> (r: bool)
    ensures
        r == spec_is_leap_year(y as int),
{
    (y % 4 == 0 && y % 100 != 0) || y % 400 == 0
}

pub fn days_in_month(y: u32, m: u32) -> (r: u32)
    ensures
        r == spec_days_in_month(y as int, m as int),
{
    if m == 2 {
        if is_leap_year(y) {
            29
        } else {
            28
        }
    } else if m == 4 || m == 6 || m == 9 || m == 11 {
        30
    } else {
        31
    }
}

impl Date {
    /// Build a date from its fields; `None` exactly on invalid field values.
    pub fn new(year: u32, month: u32, day: u32, hour: u32, minute: u32, second: u32) -> (r: Option<
        Date,
    >)
        ensures
            match r {
                Some(d) => {
                    &&& d == (Date { year, month, day, hour, minute, second })
                    &&& date_wf(d)
                },
                None => !date_wf(Date { year, month, day, hour, minute, second }),
            },
    {
        if 1000 <= year && year <= 9999 && 1 <= month && month <= 12 && 1 <= day && day
            <= days_in_month(year, month) && hour < 24 && minute < 60 && second < 60 {
            Some(Date { year, month, day, hour, minute, second })
        } else {
            None
        }
    }
}

/// `a` is at or before `b` in time: lexicographic order on the fields.
pub open spec fn date_le(a: Date, b: Date) -> bool {
    if a.year != b.year {
        a.year < b.year
    } else if a.month != b.month {
        a.month < b.month
    } else if a.day != b.day {
        a.day < b.day
    } else if a.hour != b.hour {
        a.hour < b.hour
    } else if a.minute != b.minute {
        a.minute < b.minute
    } else {
        a.second <= b.second
    }
}

pub fn date_le_exec(a: &Date, b: &Date) -> (r: bool)
    ensures
        r == date_le(*a, *b),
{
    if a.year != b.year {
        a.year < b.year
    } else if a.month != b.month {
        a.month < b.month
    } else if a.day != b.day {
        a.day < b.day
    } else if a.hour != b.hour {
        a.hour < b.hour
    } else if a.minute != b.minute {
        a.minute < b.minute
    } else {
        a.second <= b.second
    }
}

pub proof fn lemma_date_le_trans(a: Date, b: Date, c: Date)
    requires
        date_le(a, b),
        date_le(b, c),
    ensures
        date_le(a, c),
{
}

/// The English three-letter abbreviation of month `m`.
pub open spec fn month_abbrev(m: int) -> Seq<u8> {
    if m == 1 {
        seq![74u8, 97u8, 110u8]  // Jan
    } else if m == 2 {
        seq![70u8, 101u8, 98u8]  // Feb
    } else if m == 3 {
        seq![77u8, 97u8, 114u8]  // Mar
    } else if m == 4 {
        seq![65u8, 112u8, 114u8]  // Apr
    } else if m == 5 {
        seq![77u8, 97u8, 121u8]  // May
    } else if m == 6 {
        seq![74u8, 117u8, 110u8]  // Jun
    } else if m == 7 {
        seq![74u8, 117u8, 108u8]  // Jul
    } else if m == 8 {
        seq![65u8, 117u8, 103u8]  // Aug
    } else if m == 9 {
        seq![83u8, 101u8, 112u8]  // Sep
    } else if m == 10 {
        seq![79u8, 99u8, 116u8]  // Oct
    } else if m == 11 {
        seq![78u8, 111u8, 118u8]  // Nov
    } else {
        seq![68u8, 101u8, 99u8]  // Dec
    }
}

fn month_abbrev_vec(m: u32) -> (r: Vec<u8>)
    requires
        1 <= m <= 12,
    ensures
        r@ == month_abbrev(m as int),
{
    let table: [u8; 36] = [
        74, 97, 110, 70, 101, 98, 77, 97, 114, 65, 112, 114, 77, 97, 121, 74, 117, 110, 74, 117,
        108, 65, 117, 103, 83, 101, 112, 79, 99, 116, 78, 111, 118, 68, 101, 99,
    ];
    let base = (m as usize - 1) * 3;
    let s = vstd::slice::slice_subrange(table.as_slice(), base, base + 3);
    let v = vstd::slice::slice_to_vec(s);
    proof {
        assert(v@ =~= month_abbrev(m as int));
    }
    v
}

/// The two decimal digits of `n` (zero-padded).
pub open spec fn two_digits(n: int) -> Seq<u8> {
    seq![(48 + n / 10) as u8, (48 + n % 10) as u8]
}

/// The four decimal digits of `n` (zero-padded).
pub open spec fn four_digits(n: int) -> Seq<u8> {
    seq![
        (48 + n / 1000) as u8,
        (48 + (n / 100) % 10) as u8,
        (48 + (n / 10) % 10) as u8,
        (48 + n % 10) as u8,
    ]
}

/// The day of the month, space-padded to two columns.
pub open spec fn padded_day(n: int) -> Seq<u8> {
    if n < 10 {
        seq![32u8, (48 + n) as u8]
    } else {
        two_digits(n)
    }
}

/// `Mon DD`: abbreviated month name and zero-padded day.
pub open spec fn month_day(d: Date) -> Seq<u8> {
    month_abbrev(d.month as int) + seq![32u8] + two_digits(d.day as int)
}

/// `Mon D, YYYY`: abbreviated month name, space-padded day, full year.
pub open spec fn long_date(d: Date) -> Seq<u8> {
    month_abbrev(d.month as int) + seq![32u8] + padded_day(d.day as int) + seq![44u8, 32u8]
        + four_digits(d.year as int)
}

impl Date {
    /// Render this date as `Mon DD`, the index listing's form.
    pub fn format_month_day(&self) -> (r: Vec<u8>)
        requires
            date_wf(*self),
        ensures
            r@ == month_day(*self),
    {
        let mut v = month_abbrev_vec(self.month);
        v.push(32);
        v.push(48 + (self.day / 10) as u8);
        v.push(48 + (self.day % 10) as u8);
        proof {
            assert(v@ =~= month_day(*self));
        }
        v
    }

    /// Render this date as `Mon D, YYYY`, the page header's form.
    pub fn format_long(&self) -> (r: Vec<u8>)
        requires
            date_wf(*self),
        ensures
            r@ == long_date(*self),
    {
        let mut v = month_abbrev_vec(self.month);
        v.push(32);
        if self.day < 10 {
            v.push(32);
            v.push(48 + self.day as u8);
        } else {
            v.push(48 + (self.day / 10) as u8);
            v.push(48 + (self.day % 10) as u8);
        }
        v.push(44);
        v.push(32);
        v.push(48 + (self.year / 1000) as u8);
        v.push(48 + ((self.year / 100) % 10) as u8);
        v.push(48 + ((self.year / 10) % 10) as u8);
        v.push(48 + (self.year % 10) as u8);
        proof {
            assert(v@ =~= long_date(*self));
        }
        v
    }
}

/// The RFC 2822 rendering of the given UTC calendar fields; it depends on
/// those six values alone.
pub uninterp spec fn rfc2822_of(y: int, mo: int, d: int, h: int, mi: int, s: int) -> Seq<u8>;

/// Relies on chrono: `Utc.with_ymd_and_hms` maps a valid calendar date-time
/// to its single UTC instant, and `DateTime::to_rfc2822` renders that
/// instant; the output depends on the six fields alone.
#[verifier::external_body]
fn rfc2822_bytes(y: u32, mo: u32, d: u32, h: u32, mi: u32, s: u32) -> (r: Vec<u8>)
    requires
        1000 <= y <= 9999,
        1 <= mo <= 12,
        1 <= d <= spec_days_in_month(y as int, mo as int),
        h < 24,
        mi < 60,
        s < 60,
    ensures
        r@ == rfc2822_of(y as int, mo as int, d as int, h as int, mi as int, s as int),
{
    match chrono::Utc.with_ymd_and_hms(y as i32, mo, d, h, mi, s) {
        chrono::LocalResult::Single(dt) => dt.to_rfc2822().into_bytes(),
        // A valid date-time always maps to a single UTC instant.
        _ => Vec::new(),
    }
}

impl Date {
    /// Render this date in the feed's RFC 2822 form.
    pub fn format_rfc2822(&self) -> (r: Vec<u8>)
        requires
            date_wf(*self),
        ensures
            r@ == rfc2822_of(
                self.year as int,
                self.month as int,
                self.day as int,
                self.hour as int,
                self.minute as int,
                self.second as int,
            ),
    {
        rfc2822_bytes(self.year, self.month, self.day, self.hour, self.minute, self.second)
    }
}

} // verus!
