use chrono::Datelike;
use vstd::prelude::*;
use vstd::string::*;

verus! {

/// 9999-12-31T00:00:00Z: every earlier instant falls on a local day with a
/// four-digit year, whatever the zone.
pub const MAX_STAMP_MILLIS: i64 = 253_402_214_400_000;

/// 10000-01-02T00:00:00Z: from here on every local day has a five-digit
/// year, which the `YYYY-MM-DD` day keys cannot hold.
pub const FAR_STAMP_MILLIS: i64 = 253_402_387_200_000;

/// The last day number that a four-digit year reaches: 9999-12-31.
pub const MAX_EPOCH_DAY: i64 = 2_932_896;

pub const MILLIS_PER_DAY: i64 = 86_400_000;

/// A day of the proleptic Gregorian calendar.
#[derive(Debug, Clone, Copy, PartialEq, Eq, Structural)]
pub struct CivilDate {
    pub year: u32,
    pub month: u32,
    pub day: u32,
}

pub open spec fn is_leap_year(y: int) -> bool {
    (y % 4 == 0 && y % 100 != 0) || y % 400 == 0
}

pub open spec fn days_in_month(y: int, m: int) -> int {
    if m == 2 {
        if is_leap_year(y) { 29 } else { 28 }
    } else if m == 4 || m == 6 || m == 9 || m == 11 {
        30
    } else {
        31
    }
}

/// Days from 1970-01-01 to the given day, for years from 1 on.
pub open spec fn days_from_civil(y: int, m: int, d: int) -> int {
    let yy = if m <= 2 { y - 1 } else { y };
    let era = yy / 400;
    let yoe = yy - era * 400;
    let mp = (m + 9) % 12;
    let doy = (153 * mp + 2) / 5 + d - 1;
    let doe = yoe * 365 + yoe / 4 - yoe / 100 + doy;
    era * 146097 + doe - 719468
}

impl CivilDate {
    /// A real calendar day with a four-digit year.
    pub open spec fn wf(self) -> bool {
        &&& 1000 <= self.year <= 9999
        &&& 1 <= self.month <= 12
        &&& 1 <= self.day <= days_in_month(self.year as int, self.month as int)
    }

    /// Days since 1970-01-01.
    pub open spec fn epoch_day(self) -> int {
        days_from_civil(self.year as int, self.month as int, self.day as int)
    }

    /// Calendar order, which is also the order of the `YYYY-MM-DD` texts.
    pub open spec fn precedes(self, other: CivilDate) -> bool {
        ||| self.year < other.year
        ||| self.year == other.year && self.month < other.month
        ||| self.year == other.year && self.month == other.month && self.day < other.day
    }

    /// Weekday, Monday being 0: 1970-01-01 was a Thursday.
    pub open spec fn weekday(self) -> int {
        (self.epoch_day() + 3) % 7
    }

    /// Whether this is a real calendar day with a four-digit year.
    pub fn is_valid(&self) -> (r: bool)
        ensures
            r == self.wf(),
    {
        if self.year < 1000 || self.year > 9999 || self.month < 1 || self.month > 12 || self.day < 1 {
            return false;
        }
        let leap = (self.year % 4 == 0 && self.year % 100 != 0) || self.year % 400 == 0;
        let last: u32 = if self.month == 2 {
            if leap { 29 } else { 28 }
        } else if self.month == 4 || self.month == 6 || self.month == 9 || self.month == 11 {
            30
        } else {
            31
        };
        self.day <= last
    }

    /// Whether this day comes strictly before `other`.
    pub fn is_before(&self, other: &CivilDate) -> (r: bool)
        ensures
            r == self.precedes(*other),
    {
        self.year < other.year || (self.year == other.year && self.month < other.month) || (
        self.year == other.year && self.month == other.month && self.day < other.day)
    }
}

pub open spec fn digit_char(d: int) -> char {
    seq!['0', '1', '2', '3', '4', '5', '6', '7', '8', '9'][d]
}

/// Decimal digits of `n`, without leading zeros.
pub open spec fn decimal_text(n: nat) -> Seq<char>
    decreases n,
{
    if n < 10 {
        seq![digit_char(n as int)]
    } else {
        decimal_text(n / 10) + seq![digit_char((n % 10) as int)]
    }
}

pub open spec fn two_digit_text(n: nat) -> Seq<char> {
    if n < 10 {
        seq!['0'] + decimal_text(n)
    } else {
        decimal_text(n)
    }
}

/// The `YYYY-MM-DD` form of a day.
pub open spec fn date_text(d: CivilDate) -> Seq<char> {
    decimal_text(d.year as nat) + seq!['-'] + two_digit_text(d.month as nat) + seq!['-']
        + two_digit_text(d.day as nat)
}

fn digit_str(d: u64) -> (r: &'static str)
    requires
        d < 10,
    ensures
        r@ == seq![digit_char(d as int)],
{
    proof {
        reveal_strlit("0");
        reveal_strlit("1");
        reveal_strlit("2");
        reveal_strlit("3");
        reveal_strlit("4");
        reveal_strlit("5");
        reveal_strlit("6");
        reveal_strlit("7");
        reveal_strlit("8");
        reveal_strlit("9");
    }
    if d == 0 {
        "0"
    } else if d == 1 {
        "1"
    } else if d == 2 {
        "2"
    } else if d == 3 {
        "3"
    } else if d == 4 {
        "4"
    } else if d == 5 {
        "5"
    } else if d == 6 {
        "6"
    } else if d == 7 {
        "7"
    } else if d == 8 {
        "8"
    } else {
        "9"
    }
}

/// Appends the decimal digits of `n`.
pub fn push_decimal(out: &mut String, n: u64)
    ensures
        final(out)@ == old(out)@ + decimal_text(n as nat),
    decreases n,
{
    if n >= 10 {
        push_decimal(out, n / 10);
    }
    out.append(digit_str(n % 10));
    proof {
        if n >= 10 {
            assert(final(out)@ =~= old(out)@ + decimal_text(n as nat));
        }
    }
}

fn push_two_digits(out: &mut String, n: u64)
    ensures
        final(out)@ == old(out)@ + two_digit_text(n as nat),
{
    if n < 10 {
        proof {
            reveal_strlit("0");
        }
        out.append("0");
        push_decimal(out, n);
        assert(final(out)@ =~= old(out)@ + two_digit_text(n as nat));
    } else {
        push_decimal(out, n);
    }
}

/// Appends the `YYYY-MM-DD` form of `d`.
pub fn push_date(out: &mut String, d: &CivilDate)
    ensures
        final(out)@ == old(out)@ + date_text(*d),
{
    proof {
        reveal_strlit("-");
    }
    let ghost start = out@;
    push_decimal(out, d.year as u64);
    out.append("-");
    push_two_digits(out, d.month as u64);
    out.append("-");
    push_two_digits(out, d.day as u64);
    assert(out@ =~= start + date_text(*d));
}

/// The `YYYY-MM-DD` form of `d`.
pub fn format_date(d: &CivilDate) -> (r: String)
    ensures
        r@ == date_text(*d),
{
    let mut out = String::new();
    push_date(&mut out, d);
    assert(out@ =~= date_text(*d));
    out
}

/// Relies on chrono: `DateTime::from_timestamp_millis`, its conversion to the
/// process's `Local` zone and the calendar day there. A zone's offset is
/// less than a day either way, and the day depends on the zone in force.
#[verifier::external_body]
pub(crate) fn local_date_of_millis(ms: i64) -> (r: CivilDate)
    requires
        0 < ms < FAR_STAMP_MILLIS,
    ensures
        1969 <= r.year <= 10000,
        1 <= r.month <= 12,
        1 <= r.day <= days_in_month(r.year as int, r.month as int),
        ms / MILLIS_PER_DAY - 1 <= r.epoch_day() <= ms / MILLIS_PER_DAY + 1,
        ms < MAX_STAMP_MILLIS ==> r.year <= 9999,
{
    let utc = chrono::DateTime::from_timestamp_millis(ms).unwrap_or_default();
    let local = chrono::DateTime::<chrono::Local>::from(utc).date_naive();
    CivilDate { year: local.year() as u32, month: local.month(), day: local.day() }
}

/// The number of 1970-01-01 in a count of days where 0001-01-01 is day 1.
pub const CE_DAY_OF_EPOCH: i64 = 719_163;

/// Relies on chrono's `NaiveDate::from_num_days_from_ce_opt`, which numbers
/// 0001-01-01 as day 1 and so 1970-01-01 as day 719163.
#[verifier::external_body]
pub(crate) fn date_of_ce_day(ce_day: i32) -> (r: CivilDate)
    requires
        CE_DAY_OF_EPOCH <= ce_day <= CE_DAY_OF_EPOCH + MAX_EPOCH_DAY,
    ensures
        r.wf(),
        r.epoch_day() == ce_day - CE_DAY_OF_EPOCH,
{
    let d = chrono::NaiveDate::from_num_days_from_ce_opt(ce_day).unwrap_or_default();
    CivilDate { year: d.year() as u32, month: d.month(), day: d.day() }
}

/// Days from 0000-03-01 to the given day, for years from 1 on: the count
/// that `days_from_civil` shifts by 719468.
pub fn days_from_march_zero(d: &CivilDate) -> (r: u64)
    requires
        d.wf(),
    ensures
        r as int == d.epoch_day() + 719468,
{
    let y: u64 = d.year as u64;
    let m: u64 = d.month as u64;
    let yy: u64 = if m <= 2 { y - 1 } else { y };
    let era: u64 = yy / 400;
    let yoe: u64 = yy - era * 400;
    let mp: u64 = (m + 9) % 12;
    let doy: u64 = (153 * mp + 2) / 5 + d.day as u64 - 1;
    let doe: u64 = yoe * 365 + yoe / 4 - yoe / 100 + doy;
    era * 146097 + doe
}

/// The weekday of `d`, Monday being 0.
pub fn weekday_index(d: &CivilDate) -> (r: u32)
    requires
        d.wf(),
    ensures
        r as int == d.weekday(),
        r < 7,
{
    let e = days_from_march_zero(d);
    // 1970-01-01 is day 719468 of that count, and a Thursday.
    let w = (e + 2) % 7;
    assert(w as int == (d.epoch_day() + 3) % 7) by {
        assert(d.epoch_day() + 3 == e as int + 2 - 7 * 102781);
    }
    w as u32
}

} // verus!
