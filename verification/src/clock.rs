//! Points in time and spans of time: the system clock, calendar dates and
//! durations in words.

use std::time::{Duration, SystemTime, SystemTimeError};

use vstd::prelude::*;
use vstd::string::*;

use crate::text::{push_decimal, push_zero_padded};

verus! {

// ---------------------------------------------------------------------------
// The system clock
// ---------------------------------------------------------------------------

/// Declares `std::time::SystemTime`. Nothing is claimed of it but what
/// `since_epoch` names.
#[verifier::external_type_specification]
#[verifier::external_body]
pub struct ExSystemTime(SystemTime);

/// Declares `std::time::SystemTimeError`, which is only told apart from a
/// duration.
#[verifier::external_type_specification]
#[verifier::external_body]
pub struct ExSystemTimeError(SystemTimeError);

/// How long after the start of 1970 a clock reading lies: what
/// `SystemTime::duration_since` gives for it, or nothing where the reading lies
/// before.
pub uninterp spec fn since_epoch(t: SystemTime) -> Option<Duration>;

/// The whole seconds in a duration: what `Duration::as_secs` gives.
pub uninterp spec fn whole_seconds(d: Duration) -> u64;

/// Reads the clock with `SystemTime::now`. Nothing is claimed of the reading.
#[verifier::external_body]
fn system_now() -> SystemTime {
    SystemTime::now()
}

/// Calls `SystemTime::duration_since` with the start of 1970. The result is
/// `since_epoch` of the reading, and an error where that is nothing.
#[verifier::external_body]
fn duration_since_epoch(t: SystemTime) -> (r: Result<Duration, SystemTimeError>)
    ensures
        match r {
            Ok(d) => since_epoch(t) == Some(d),
            Err(_) => since_epoch(t) is None,
        },
{
    t.duration_since(std::time::UNIX_EPOCH)
}

/// Calls `Duration::as_secs`. The result is `whole_seconds` of the duration.
#[verifier::external_body]
fn duration_seconds(d: Duration) -> (r: u64)
    ensures
        r == whole_seconds(d),
{
    d.as_secs()
}

/// Whole seconds from the start of 1970 to a clock reading, and 0 for a
/// reading before that.
pub open spec fn unix_secs_of(t: SystemTime) -> u64 {
    match since_epoch(t) {
        Some(d) => whole_seconds(d),
        None => 0,
    }
}

/// Unix time of a clock reading, in whole seconds.
pub fn unix_secs_at(t: SystemTime) -> (r: u64)
    ensures
        r == unix_secs_of(t),
{
    match duration_since_epoch(t) {
        Ok(d) => duration_seconds(d),
        Err(_) => 0,
    }
}

/// Unix time now, in whole seconds.
pub fn unix_secs() -> (r: u64)
    ensures
        exists|t: SystemTime| r == unix_secs_of(t),
{
    let now = system_now();
    unix_secs_at(now)
}

// ---------------------------------------------------------------------------
// The calendar
// ---------------------------------------------------------------------------

/// A day of the Gregorian calendar.
pub struct Date {
    pub year: nat,
    pub month: nat,
    pub day: nat,
}

pub open spec fn is_leap(year: nat) -> bool {
    year % 4 == 0 && (year % 100 != 0 || year % 400 == 0)
}

pub open spec fn days_in_year(year: nat) -> nat {
    if is_leap(year) {
        366
    } else {
        365
    }
}

pub open spec fn days_in_month(year: nat, month: nat) -> nat {
    if month == 2 {
        if is_leap(year) {
            29
        } else {
            28
        }
    } else if month == 4 || month == 6 || month == 9 || month == 11 {
        30
    } else {
        31
    }
}

/// Days from the start of 1970 to the start of `year`.
pub open spec fn days_before_year(year: nat) -> nat
    decreases year,
{
    if year <= 1970 {
        0
    } else {
        days_before_year((year - 1) as nat) + days_in_year((year - 1) as nat)
    }
}

/// Days from the start of `year` to the start of `month`.
pub open spec fn days_before_month(year: nat, month: nat) -> nat
    decreases month,
{
    if month <= 1 {
        0
    } else {
        days_before_month(year, (month - 1) as nat) + days_in_month(year, (month - 1) as nat)
    }
}

impl Date {
    /// Whether this is a day from 1970 on.
    pub open spec fn valid(self) -> bool {
        &&& self.year >= 1970
        &&& 1 <= self.month <= 12
        &&& 1 <= self.day <= days_in_month(self.year, self.month)
    }

    /// Days from the start of 1970 to this day.
    pub open spec fn number(self) -> int {
        days_before_year(self.year) + days_before_month(self.year, self.month) + self.day - 1
    }

    /// Whether this day comes before another.
    pub open spec fn before(self, other: Date) -> bool {
        ||| self.year < other.year
        ||| self.year == other.year && self.month < other.month
        ||| self.year == other.year && self.month == other.month && self.day < other.day
    }
}

/// The day that lies `n` days after the start of 1970.
pub open spec fn date_of(n: nat) -> Date {
    choose|date: Date| date.valid() && date.number() == n
}

/// The day that a Unix time falls on, and the time of that day, as
/// `YYYY-MM-DDThh:mm:ssZ`.
pub open spec fn iso8601_text(ts: nat) -> Seq<char> {
    let date = date_of(ts / 86_400);
    let secs = ts % 86_400;
    crate::text::zero_padded(date.year, 4) + "-"@ + crate::text::zero_padded(date.month, 2) + "-"@
        + crate::text::zero_padded(date.day, 2) + "T"@ + crate::text::zero_padded(secs / 3_600, 2)
        + ":"@ + crate::text::zero_padded((secs % 3_600) / 60, 2) + ":"@
        + crate::text::zero_padded(secs % 60, 2) + "Z"@
}

proof fn lemma_months(year: nat)
    ensures
        days_before_month(year, 1) == 0,
        days_before_month(year, 2) == 31,
        days_before_month(year, 3) == 31 + days_in_month(year, 2),
        days_before_month(year, 4) == 62 + days_in_month(year, 2),
        days_before_month(year, 5) == 92 + days_in_month(year, 2),
        days_before_month(year, 6) == 123 + days_in_month(year, 2),
        days_before_month(year, 7) == 153 + days_in_month(year, 2),
        days_before_month(year, 8) == 184 + days_in_month(year, 2),
        days_before_month(year, 9) == 215 + days_in_month(year, 2),
        days_before_month(year, 10) == 245 + days_in_month(year, 2),
        days_before_month(year, 11) == 276 + days_in_month(year, 2),
        days_before_month(year, 12) == 306 + days_in_month(year, 2),
{
    reveal_with_fuel(days_before_month, 13);
}

/// Leap years up to and with `year`, counted from year 1.
spec fn leaps_through(year: int) -> int {
    year / 4 - year / 100 + year / 400
}

proof fn lemma_leap_step(year: nat)
    requires
        year >= 1,
    ensures
        leaps_through(year as int) - leaps_through(year - 1) == (if is_leap(year) {
            1int
        } else {
            0int
        }),
{
}

proof fn lemma_days_before_year(year: nat)
    requires
        year >= 1970,
    ensures
        days_before_year(year) == 365 * (year - 1970) + leaps_through(year - 1) - 477,
    decreases year,
{
    if year > 1970 {
        lemma_days_before_year((year - 1) as nat);
        lemma_leap_step((year - 1) as nat);
    }
}

proof fn lemma_years_grow(a: nat, b: nat)
    requires
        1970 <= a < b,
    ensures
        days_before_year(a) + days_in_year(a) <= days_before_year(b),
    decreases b,
{
    if a + 1 < b {
        lemma_years_grow(a, (b - 1) as nat);
    }
}

/// The numbers of two days are in the order of the days.
pub proof fn dates_are_ordered(a: Date, b: Date)
    requires
        a.valid(),
        b.valid(),
        a.before(b),
    ensures
        a.number() < b.number(),
{
    lemma_months(a.year);
    lemma_months(b.year);
    if a.year < b.year {
        lemma_years_grow(a.year, b.year);
    }
}

/// A number of days from the start of 1970 belongs to no more than one day, and
/// `date_of` gives it.
pub proof fn date_of_is_unique(n: nat, date: Date)
    requires
        date.valid(),
        date.number() == n,
    ensures
        date_of(n) == date,
{
    let other = date_of(n);
    assert(other.valid() && other.number() == n);
    if other.before(date) {
        dates_are_ordered(other, date);
    } else if date.before(other) {
        dates_are_ordered(date, other);
    }
}

/// In years that start in March, counted from year 0, the day `doe` of a cycle
/// of 400 years falls in year `yoe` of the cycle.
proof fn lemma_year_of_cycle(doe: int, yoe: int, doy: int)
    requires
        0 <= doe < 146_097,
        yoe == (doe - doe / 1_460 + doe / 36_524 - doe / 146_096) / 365,
        doy == doe - (365 * yoe + yoe / 4 - yoe / 100),
    ensures
        0 <= yoe < 400,
        0 <= doy <= 365,
        doy == 365 ==> (yoe + 1) % 4 == 0 && ((yoe + 1) % 100 != 0 || (yoe + 1) % 400 == 0),
{
}

proof fn lemma_month_of_year(doy: int, mp: int)
    requires
        0 <= doy <= 365,
        mp == (5 * doy + 2) / 153,
    ensures
        0 <= mp <= 11,
        (153 * mp + 2) / 5 <= doy,
        doy - (153 * mp + 2) / 5 < 31,
        (mp == 1 || mp == 3 || mp == 6 || mp == 8) ==> doy - (153 * mp + 2) / 5 < 30,
        mp == 11 ==> doy - 337 < 29 && (153 * mp + 2) / 5 == 337,
{
}

/// Unix seconds as a date and time of day in UTC.
pub fn iso8601(ts: u64) -> (r: String)
    ensures
        r@ == iso8601_text(ts as nat),
{
    let z: u64 = ts / 86_400 + 719_468;
    let secs: u64 = ts % 86_400;
    let era: u64 = z / 146_097;
    let doe: u64 = z % 146_097;
    let yoe: u64 = (doe - doe / 1_460 + doe / 36_524 - doe / 146_096) / 365;
    proof {
        lemma_year_of_cycle(
            doe as int,
            yoe as int,
            doe - (365 * yoe + yoe as int / 4 - yoe as int / 100),
        );
    }
    let doy: u64 = doe - (365 * yoe + yoe / 4 - yoe / 100);
    let mp: u64 = (5 * doy + 2) / 153;
    proof {
        lemma_month_of_year(doy as int, mp as int);
    }
    let d: u64 = doy - (153 * mp + 2) / 5 + 1;
    let m: u64 = if mp < 10 {
        mp + 3
    } else {
        mp - 9
    };
    let y: u64 = yoe + era * 400 + if m <= 2 {
        1
    } else {
        0
    };
    proof {
        let date = Date { year: y as nat, month: m as nat, day: d as nat };
        lemma_civil(ts as nat / 86_400, era as int, doe as int, yoe as int, doy as int, mp as int, date);
        date_of_is_unique(ts as nat / 86_400, date);
    }
    let mut out = String::new();
    push_zero_padded(&mut out, y, 4);
    out.append("-");
    push_zero_padded(&mut out, m, 2);
    out.append("-");
    push_zero_padded(&mut out, d, 2);
    out.append("T");
    push_zero_padded(&mut out, secs / 3_600, 2);
    out.append(":");
    push_zero_padded(&mut out, (secs % 3_600) / 60, 2);
    out.append(":");
    push_zero_padded(&mut out, secs % 60, 2);
    out.append("Z");
    assert(out@ =~= iso8601_text(ts as nat));
    out
}

proof fn lemma_civil(n: nat, era: int, doe: int, yoe: int, doy: int, mp: int, date: Date)
    requires
        n + 719_468 == 146_097 * era + doe,
        0 <= doe < 146_097,
        0 <= yoe < 400,
        0 <= doy <= 365,
        doy == doe - (365 * yoe + yoe / 4 - yoe / 100),
        doy == 365 ==> (yoe + 1) % 4 == 0 && ((yoe + 1) % 100 != 0 || (yoe + 1) % 400 == 0),
        mp == (5 * doy + 2) / 153,
        date.day == doy - (153 * mp + 2) / 5 + 1,
        date.month == (if mp < 10 {
            mp + 3
        } else {
            mp - 9
        }),
        date.year == yoe + era * 400 + (if date.month <= 2 {
            1int
        } else {
            0int
        }),
    ensures
        date.valid(),
        date.number() == n,
{
    lemma_month_of_year(doy, mp);
    lemma_months(date.year);
    let march_year = yoe + era * 400;
    assert(march_year / 4 == yoe / 4 + 100 * era);
    assert(march_year / 100 == yoe / 100 + 4 * era);
    assert(march_year / 400 == era);
    assert(leaps_through(march_year) == yoe / 4 - yoe / 100 + 97 * era);
    assert(date.year >= 1970);
    lemma_days_before_year(date.year);
    lemma_leap_step(date.year);
}

/// Every number of days from the start of 1970 belongs to a day, and `date_of`
/// gives it.
pub proof fn every_number_has_a_date(n: nat)
    ensures
        date_of(n).valid(),
        date_of(n).number() == n,
{
    let z = n as int + 719_468;
    let era = z / 146_097;
    let doe = z % 146_097;
    let yoe = (doe - doe / 1_460 + doe / 36_524 - doe / 146_096) / 365;
    let doy = doe - (365 * yoe + yoe / 4 - yoe / 100);
    let mp = (5 * doy + 2) / 153;
    lemma_year_of_cycle(doe, yoe, doy);
    lemma_month_of_year(doy, mp);
    let month = if mp < 10 {
        mp + 3
    } else {
        mp - 9
    };
    let year = yoe + era * 400 + (if month <= 2 {
        1int
    } else {
        0int
    });
    let date = Date {
        year: year as nat,
        month: month as nat,
        day: (doy - (153 * mp + 2) / 5 + 1) as nat,
    };
    lemma_civil(n, era, doe, yoe, doy, mp, date);
}

/// The months of a year make up the year, and the calendar repeats itself every
/// four hundred years, in which it has ninety-seven leap days.
pub proof fn the_calendar_repeats_itself(year: nat)
    requires
        year >= 1970,
    ensures
        days_before_month(year, 12) + days_in_month(year, 12) == days_in_year(year),
        days_before_year(year + 400) == days_before_year(year) + 400 * 365 + 97,
        days_in_year(year) == days_in_year(year + 400),
{
    lemma_months(year);
    lemma_days_before_year(year);
    lemma_days_before_year(year + 400);
}

// ---------------------------------------------------------------------------
// Reading dates back
// ---------------------------------------------------------------------------

/// The last second of the year 9999.
pub const LAST: u64 = 253_402_300_799;

/// The number that `n` digits from the place `i` on stand for.
pub open spec fn number_at(text: Seq<char>, i: int, n: int) -> nat {
    crate::text::digits_value(text.subrange(i, i + n))
}

/// Whether a text has the form `YYYY-MM-DDThh:mm:ssZ`.
pub open spec fn is_stamp(text: Seq<char>) -> bool {
    &&& text.len() == 20
    &&& text[4] == '-' && text[7] == '-' && text[10] == 'T'
    &&& text[13] == ':' && text[16] == ':' && text[19] == 'Z'
    &&& forall|i: int|
        0 <= i < 20 && i != 4 && i != 7 && i != 10 && i != 13 && i != 16 && i != 19
            ==> crate::text::is_digit(#[trigger] text[i])
}

/// The day that a text of that form names.
pub open spec fn date_in(text: Seq<char>) -> Date {
    Date { year: number_at(text, 0, 4), month: number_at(text, 5, 2), day: number_at(text, 8, 2) }
}

/// The second of the day that a text of that form names.
pub open spec fn second_in(text: Seq<char>) -> nat {
    number_at(text, 11, 2) * 3_600 + number_at(text, 14, 2) * 60 + number_at(text, 17, 2)
}

/// The Unix time that a text of that form names.
pub open spec fn time_in(text: Seq<char>) -> int {
    date_in(text).number() * 86_400 + second_in(text)
}

proof fn lemma_two_digits(n: nat)
    requires
        n < 100,
    ensures
        crate::text::zero_padded(n, 2) == seq![
            crate::text::digit(n / 10),
            crate::text::digit(n % 10),
        ],
{
    reveal_with_fuel(crate::text::decimal, 2);
    assert(crate::text::zero_padded(n, 2) =~= seq![
        crate::text::digit(n / 10),
        crate::text::digit(n % 10),
    ]);
}

proof fn lemma_four_digits(n: nat)
    requires
        n < 10_000,
    ensures
        crate::text::zero_padded(n, 4) == seq![
            crate::text::digit(n / 1_000),
            crate::text::digit(n / 100 % 10),
            crate::text::digit(n / 10 % 10),
            crate::text::digit(n % 10),
        ],
{
    reveal_with_fuel(crate::text::decimal, 4);
    assert(crate::text::zero_padded(n, 4) =~= seq![
        crate::text::digit(n / 1_000),
        crate::text::digit(n / 100 % 10),
        crate::text::digit(n / 10 % 10),
        crate::text::digit(n % 10),
    ]);
}

/// Whether a text names a day and a second of it.
spec fn spells(text: Seq<char>, date: Date, secs: nat) -> bool {
    let h = secs / 3_600;
    let m = secs % 3_600 / 60;
    let s = secs % 60;
    &&& text.len() == 20
    &&& text[0] == crate::text::digit(date.year / 1_000)
    &&& text[1] == crate::text::digit(date.year / 100 % 10)
    &&& text[2] == crate::text::digit(date.year / 10 % 10)
    &&& text[3] == crate::text::digit(date.year % 10)
    &&& text[4] == '-'
    &&& text[5] == crate::text::digit(date.month / 10)
    &&& text[6] == crate::text::digit(date.month % 10)
    &&& text[7] == '-'
    &&& text[8] == crate::text::digit(date.day / 10)
    &&& text[9] == crate::text::digit(date.day % 10)
    &&& text[10] == 'T'
    &&& text[11] == crate::text::digit(h / 10)
    &&& text[12] == crate::text::digit(h % 10)
    &&& text[13] == ':'
    &&& text[14] == crate::text::digit(m / 10)
    &&& text[15] == crate::text::digit(m % 10)
    &&& text[16] == ':'
    &&& text[17] == crate::text::digit(s / 10)
    &&& text[18] == crate::text::digit(s % 10)
    &&& text[19] == 'Z'
}

proof fn lemma_date_in_range(ts: nat)
    requires
        ts <= LAST,
    ensures
        date_of(ts / 86_400).valid(),
        date_of(ts / 86_400).number() == ts / 86_400,
        date_of(ts / 86_400).year < 10_000,
{
    let date = date_of(ts / 86_400);
    every_number_has_a_date(ts / 86_400);
    if date.year >= 10_000 {
        lemma_days_before_year(10_000);
        if date.year > 10_000 {
            lemma_years_grow(10_000, date.year);
        }
    }
}

#[verifier::rlimit(60)]
proof fn lemma_spells(ts: nat)
    requires
        ts <= LAST,
    ensures
        spells(iso8601_text(ts), date_of(ts / 86_400), ts % 86_400),
{
    let date = date_of(ts / 86_400);
    let secs = ts % 86_400;
    lemma_date_in_range(ts);
    lemma_four_digits(date.year);
    lemma_two_digits(date.month);
    lemma_two_digits(date.day);
    lemma_two_digits(secs / 3_600);
    lemma_two_digits(secs % 3_600 / 60);
    lemma_two_digits(secs % 60);
    reveal_strlit("-");
    reveal_strlit("T");
    reveal_strlit(":");
    reveal_strlit("Z");
}

proof fn lemma_number_at(text: Seq<char>, i: int, n: nat)
    requires
        n < 100,
        0 <= i,
        i + 2 <= text.len(),
        text[i] == crate::text::digit(n / 10),
        text[i + 1] == crate::text::digit(n % 10),
    ensures
        number_at(text, i, 2) == n,
        crate::text::is_digit(text[i]),
        crate::text::is_digit(text[i + 1]),
{
    let t = text.subrange(i, i + 2);
    reveal_with_fuel(crate::text::digits_value, 3);
    assert(t.drop_last().last() == text[i]);
    assert(t.last() == text[i + 1]);
}

proof fn lemma_year_at(text: Seq<char>, n: nat)
    requires
        n < 10_000,
        4 <= text.len(),
        text[0] == crate::text::digit(n / 1_000),
        text[1] == crate::text::digit(n / 100 % 10),
        text[2] == crate::text::digit(n / 10 % 10),
        text[3] == crate::text::digit(n % 10),
    ensures
        number_at(text, 0, 4) == n,
        crate::text::is_digit(text[0]),
        crate::text::is_digit(text[1]),
        crate::text::is_digit(text[2]),
        crate::text::is_digit(text[3]),
{
    let y = text.subrange(0, 4);
    reveal_with_fuel(crate::text::digits_value, 5);
    assert(y.last() == text[3]);
    assert(y.drop_last().last() == text[2]);
    assert(y.drop_last().drop_last().last() == text[1]);
    assert(y.drop_last().drop_last().drop_last().last() == text[0]);
}

#[verifier::rlimit(60)]
proof fn lemma_reads_back(text: Seq<char>, date: Date, secs: nat)
    requires
        spells(text, date, secs),
        date.valid(),
        date.year < 10_000,
        secs < 86_400,
    ensures
        is_stamp(text),
        date_in(text) == date,
        second_in(text) == secs,
        number_at(text, 11, 2) == secs / 3_600,
        number_at(text, 14, 2) == secs % 3_600 / 60,
        number_at(text, 17, 2) == secs % 60,
{
    lemma_year_at(text, date.year);
    lemma_number_at(text, 5, date.month);
    lemma_number_at(text, 8, date.day);
    lemma_number_at(text, 11, secs / 3_600);
    lemma_number_at(text, 14, secs % 3_600 / 60);
    lemma_number_at(text, 17, secs % 60);
}

/// Up to the year 9999 the text of a time has twenty characters, and reads back
/// as that time: it names a day of the calendar and a time of that day.
pub proof fn iso8601_reads_back(ts: u64)
    requires
        ts <= LAST,
    ensures
        is_stamp(iso8601_text(ts as nat)),
        date_in(iso8601_text(ts as nat)).valid(),
        number_at(iso8601_text(ts as nat), 11, 2) < 24,
        number_at(iso8601_text(ts as nat), 14, 2) < 60,
        number_at(iso8601_text(ts as nat), 17, 2) < 60,
        time_in(iso8601_text(ts as nat)) == ts,
{
    let date = date_of(ts as nat / 86_400);
    let secs = ts as nat % 86_400;
    lemma_date_in_range(ts as nat);
    lemma_spells(ts as nat);
    lemma_reads_back(iso8601_text(ts as nat), date, secs);
}

proof fn lemma_first_difference(a: Seq<char>, b: Seq<char>, i: int)
    requires
        0 <= i < a.len(),
        a.len() == b.len(),
        forall|k: int| 0 <= k < i ==> a[k] == b[k],
        a[i] < b[i],
    ensures
        crate::text::comes_before(a, b),
{
    assert(a.take(i) =~= b.take(i));
}

proof fn lemma_pairs_in_order(m: nat, n: nat)
    requires
        m < n < 100,
    ensures
        crate::text::comes_before(crate::text::zero_padded(m, 2), crate::text::zero_padded(n, 2)),
{
    lemma_two_digits(m);
    lemma_two_digits(n);
    let a = crate::text::zero_padded(m, 2);
    let b = crate::text::zero_padded(n, 2);
    lemma_first_difference(
        a,
        b,
        if m / 10 < n / 10 {
            0
        } else {
            1
        },
    );
}

/// Texts of one length keep their order behind one and the same text.
proof fn lemma_order_behind(start: Seq<char>, a: Seq<char>, b: Seq<char>)
    requires
        crate::text::comes_before(a, b),
        a.len() == b.len(),
    ensures
        crate::text::comes_before(start + a, start + b),
{
    let i = choose|i: int|
        0 <= i <= a.len() && i < b.len() && #[trigger] a.take(i) == b.take(i) && (i == a.len() || a[i]
            < b[i]);
    assert forall|k: int| 0 <= k < start.len() + i implies (start + a)[k] == (start + b)[k] by {
        if k >= start.len() {
            assert(a.take(i)[k - start.len()] == b.take(i)[k - start.len()]);
        }
    }
    lemma_first_difference(start + a, start + b, start.len() + i);
}

/// Texts of one length keep their order whatever follows them.
proof fn lemma_order_before(a: Seq<char>, b: Seq<char>, c: Seq<char>, d: Seq<char>)
    requires
        crate::text::comes_before(a, b),
        a.len() == b.len(),
        c.len() == d.len(),
    ensures
        crate::text::comes_before(a + c, b + d),
{
    let i = choose|i: int|
        0 <= i <= a.len() && i < b.len() && #[trigger] a.take(i) == b.take(i) && (i == a.len() || a[i]
            < b[i]);
    assert forall|k: int| 0 <= k < i implies (a + c)[k] == (b + d)[k] by {
        assert(a.take(i)[k] == b.take(i)[k]);
    }
    lemma_first_difference(a + c, b + d, i);
}

proof fn lemma_year_in_pairs(n: nat)
    requires
        n < 10_000,
    ensures
        crate::text::zero_padded(n, 4) == crate::text::zero_padded(n / 100, 2)
            + crate::text::zero_padded(n % 100, 2),
{
    lemma_four_digits(n);
    lemma_two_digits(n / 100);
    lemma_two_digits(n % 100);
    assert(n / 100 / 10 == n / 1_000);
    assert(n % 100 / 10 == n / 10 % 10);
    assert(n % 100 % 10 == n % 10);
    assert(crate::text::zero_padded(n, 4) =~= crate::text::zero_padded(n / 100, 2)
        + crate::text::zero_padded(n % 100, 2));
}

proof fn lemma_years_in_order(m: nat, n: nat)
    requires
        m < n < 10_000,
    ensures
        crate::text::comes_before(crate::text::zero_padded(m, 4), crate::text::zero_padded(n, 4)),
{
    lemma_year_in_pairs(m);
    lemma_year_in_pairs(n);
    let a = crate::text::zero_padded(m / 100, 2);
    let b = crate::text::zero_padded(n / 100, 2);
    let c = crate::text::zero_padded(m % 100, 2);
    let d = crate::text::zero_padded(n % 100, 2);
    lemma_two_digits(m / 100);
    lemma_two_digits(n / 100);
    lemma_two_digits(m % 100);
    lemma_two_digits(n % 100);
    if m / 100 < n / 100 {
        lemma_pairs_in_order(m / 100, n / 100);
        lemma_order_before(a, b, c, d);
    } else {
        lemma_pairs_in_order(m % 100, n % 100);
        lemma_order_behind(a, c, d);
    }
}

/// A number of two digits behind a mark.
spec fn part(mark: Seq<char>, n: nat) -> Seq<char> {
    mark + crate::text::zero_padded(n, 2)
}

/// A text with four numbers of two digits behind it, each behind a mark.
spec fn parts(start: Seq<char>, d: nat, h: nat, m: nat, s: nat) -> Seq<char> {
    start + part("-"@, d) + part("T"@, h) + part(":"@, m) + part(":"@, s) + "Z"@
}

proof fn lemma_parts_in_order(
    a: Seq<char>,
    b: Seq<char>,
    p: (nat, nat, nat, nat),
    q: (nat, nat, nat, nat),
)
    requires
        a.len() == b.len(),
        p.0 < 100 && p.1 < 100 && p.2 < 100 && p.3 < 100,
        q.0 < 100 && q.1 < 100 && q.2 < 100 && q.3 < 100,
        crate::text::comes_before(a, b) || (a == b && (p.0 < q.0 || (p.0 == q.0 && (p.1 < q.1 || (
        p.1 == q.1 && (p.2 < q.2 || (p.2 == q.2 && p.3 < q.3))))))),
    ensures
        crate::text::comes_before(parts(a, p.0, p.1, p.2, p.3), parts(b, q.0, q.1, q.2, q.3)),
{
    lemma_part("-"@, p.0, q.0);
    lemma_part("T"@, p.1, q.1);
    lemma_part(":"@, p.2, q.2);
    lemma_part(":"@, p.3, q.3);
    let a1 = a + part("-"@, p.0);
    let b1 = b + part("-"@, q.0);
    if crate::text::comes_before(a, b) {
        lemma_order_before(a, b, part("-"@, p.0), part("-"@, q.0));
    } else if p.0 < q.0 {
        lemma_order_behind(a, part("-"@, p.0), part("-"@, q.0));
    }
    let a2 = a1 + part("T"@, p.1);
    let b2 = b1 + part("T"@, q.1);
    if crate::text::comes_before(a1, b1) {
        lemma_order_before(a1, b1, part("T"@, p.1), part("T"@, q.1));
    } else if p.1 < q.1 {
        lemma_order_behind(a1, part("T"@, p.1), part("T"@, q.1));
    }
    let a3 = a2 + part(":"@, p.2);
    let b3 = b2 + part(":"@, q.2);
    if crate::text::comes_before(a2, b2) {
        lemma_order_before(a2, b2, part(":"@, p.2), part(":"@, q.2));
    } else if p.2 < q.2 {
        lemma_order_behind(a2, part(":"@, p.2), part(":"@, q.2));
    }
    let a4 = a3 + part(":"@, p.3);
    let b4 = b3 + part(":"@, q.3);
    if crate::text::comes_before(a3, b3) {
        lemma_order_before(a3, b3, part(":"@, p.3), part(":"@, q.3));
    } else {
        lemma_order_behind(a3, part(":"@, p.3), part(":"@, q.3));
    }
    lemma_order_before(a4, b4, "Z"@, "Z"@);
}

proof fn lemma_part(mark: Seq<char>, m: nat, n: nat)
    requires
        m < 100,
        n < 100,
    ensures
        part(mark, m).len() == part(mark, n).len(),
        m < n ==> crate::text::comes_before(part(mark, m), part(mark, n)),
{
    lemma_two_digits(m);
    lemma_two_digits(n);
    if m < n {
        lemma_pairs_in_order(m, n);
        lemma_order_behind(
            mark,
            crate::text::zero_padded(m, 2),
            crate::text::zero_padded(n, 2),
        );
    }
}

/// A year and a month.
spec fn year_and_month(date: Date) -> Seq<char> {
    crate::text::zero_padded(date.year, 4) + part("-"@, date.month)
}

proof fn lemma_months_in_order(a: Date, b: Date)
    requires
        a.year < 10_000 && a.month < 100,
        b.year < 10_000 && b.month < 100,
        a.year < b.year || (a.year == b.year && a.month < b.month),
    ensures
        year_and_month(a).len() == year_and_month(b).len(),
        crate::text::comes_before(year_and_month(a), year_and_month(b)),
{
    lemma_four_digits(a.year);
    lemma_four_digits(b.year);
    lemma_part("-"@, a.month, b.month);
    let x = crate::text::zero_padded(a.year, 4);
    let y = crate::text::zero_padded(b.year, 4);
    if a.year < b.year {
        lemma_years_in_order(a.year, b.year);
        lemma_order_before(x, y, part("-"@, a.month), part("-"@, b.month));
    } else {
        lemma_order_behind(x, part("-"@, a.month), part("-"@, b.month));
    }
}

proof fn lemma_text_in_parts(ts: nat)
    ensures
        ({
            let date = date_of(ts / 86_400);
            let secs = ts % 86_400;
            iso8601_text(ts) == parts(
                year_and_month(date),
                date.day,
                secs / 3_600,
                secs % 3_600 / 60,
                secs % 60,
            )
        }),
{
    let date = date_of(ts / 86_400);
    let secs = ts % 86_400;
    let y = crate::text::zero_padded(date.year, 4);
    let mo = crate::text::zero_padded(date.month, 2);
    let d = crate::text::zero_padded(date.day, 2);
    let h = crate::text::zero_padded(secs / 3_600, 2);
    let m = crate::text::zero_padded((secs % 3_600) / 60, 2);
    let s = crate::text::zero_padded(secs % 60, 2);
    lemma_regroup(y, "-"@, mo);
    lemma_regroup(y + ("-"@ + mo), "-"@, d);
    lemma_regroup(y + ("-"@ + mo) + ("-"@ + d), "T"@, h);
    lemma_regroup(y + ("-"@ + mo) + ("-"@ + d) + ("T"@ + h), ":"@, m);
    lemma_regroup(y + ("-"@ + mo) + ("-"@ + d) + ("T"@ + h) + (":"@ + m), ":"@, s);
}

proof fn lemma_regroup(a: Seq<char>, b: Seq<char>, c: Seq<char>)
    ensures
        a + b + c == a + (b + c),
{
    assert(a + b + c =~= a + (b + c));
}

proof fn lemma_texts_in_order(a: nat, b: nat)
    requires
        a < b <= LAST,
    ensures
        crate::text::comes_before(iso8601_text(a), iso8601_text(b)),
{
    let x = date_of(a / 86_400);
    let y = date_of(b / 86_400);
    let s = a % 86_400;
    let t = b % 86_400;
    lemma_date_in_range(a);
    lemma_date_in_range(b);
    lemma_text_in_parts(a);
    lemma_text_in_parts(b);
    if a / 86_400 < b / 86_400 {
        if y.before(x) {
            dates_are_ordered(y, x);
        }
        assert(x.before(y));
        if x.year < y.year || x.month < y.month {
            lemma_months_in_order(x, y);
        }
    }
    assert(year_and_month(x).len() == year_and_month(y).len()) by {
        lemma_four_digits(x.year);
        lemma_four_digits(y.year);
        lemma_two_digits(x.month);
        lemma_two_digits(y.month);
    }
    lemma_parts_in_order(
        year_and_month(x),
        year_and_month(y),
        (x.day, s / 3_600, s % 3_600 / 60, s % 60),
        (y.day, t / 3_600, t % 3_600 / 60, t % 60),
    );
}

/// Up to the year 9999 the texts of times are in the order of the times.
pub proof fn iso8601_keeps_the_order(a: u64, b: u64)
    requires
        a <= LAST,
        b <= LAST,
    ensures
        a < b <==> crate::text::comes_before(iso8601_text(a as nat), iso8601_text(b as nat)),
{
    let x = iso8601_text(a as nat);
    let y = iso8601_text(b as nat);
    if a < b {
        lemma_texts_in_order(a as nat, b as nat);
    } else {
        if b < a {
            lemma_texts_in_order(b as nat, a as nat);
            crate::text::texts_are_ordered(y, x);
        }
        if crate::text::comes_before(x, y) {
            crate::text::texts_are_ordered(x, y);
        }
    }
}

/// Four hundred years later the text of a time has a year that is greater by as
/// many, and is the same behind the year.
#[verifier::rlimit(60)]
pub proof fn iso8601_repeats_itself(ts: nat)
    ensures
        ({
            let a = iso8601_text(ts);
            let b = iso8601_text(ts + 146_097 * 86_400);
            &&& a.len() >= 20
            &&& b.len() >= 20
            &&& a.skip(a.len() - 16) == b.skip(b.len() - 16)
            &&& crate::text::digits_value(b.take(b.len() - 16)) == crate::text::digits_value(
                a.take(a.len() - 16),
            ) + 400
            &&& b[0] != '0'
        }),
{
    let n = ts / 86_400;
    let x = date_of(n);
    every_number_has_a_date(n);
    let y = Date { year: x.year + 400, ..x };
    the_calendar_repeats_itself(x.year);
    lemma_months(x.year);
    lemma_months(y.year);
    assert(y.number() == n + 146_097);
    date_of_is_unique(n + 146_097, y);
    assert((ts + 146_097 * 86_400) / 86_400 == n + 146_097);
    assert((ts + 146_097 * 86_400) % 86_400 == ts % 86_400);
    let secs = ts % 86_400;
    lemma_year_behind(x, secs);
    lemma_year_behind(y, secs);
    assert(behind_the_year(x, secs) == behind_the_year(y, secs));
    let a = iso8601_text(ts);
    let b = iso8601_text(ts + 146_097 * 86_400);
    let p = crate::text::decimal(x.year);
    let q = crate::text::decimal(y.year);
    crate::text::decimals_stand_for_their_numbers(x.year);
    crate::text::decimals_stand_for_their_numbers(y.year);
    lemma_iso8601_parts(ts);
    lemma_iso8601_parts(ts + 146_097 * 86_400);
    assert(a.take(a.len() - 16) =~= p);
    assert(b.take(b.len() - 16) =~= q);
    assert(a.skip(a.len() - 16) =~= behind_the_year(x, secs));
    assert(b.skip(b.len() - 16) =~= behind_the_year(y, secs));
}

/// The text of a time behind its year.
spec fn behind_the_year(date: Date, secs: nat) -> Seq<char> {
    "-"@ + crate::text::zero_padded(date.month, 2) + "-"@ + crate::text::zero_padded(date.day, 2)
        + "T"@ + crate::text::zero_padded(secs / 3_600, 2) + ":"@ + crate::text::zero_padded(
        (secs % 3_600) / 60,
        2,
    ) + ":"@ + crate::text::zero_padded(secs % 60, 2) + "Z"@
}

proof fn lemma_year_behind(date: Date, secs: nat)
    requires
        date.valid(),
        secs < 86_400,
    ensures
        behind_the_year(date, secs).len() == 16,
{
    lemma_two_digits(date.month);
    lemma_two_digits(date.day);
    lemma_two_digits(secs / 3_600);
    lemma_two_digits((secs % 3_600) / 60);
    lemma_two_digits(secs % 60);
    reveal_strlit("-");
    reveal_strlit("T");
    reveal_strlit(":");
    reveal_strlit("Z");
}

proof fn lemma_iso8601_parts(ts: nat)
    ensures
        iso8601_text(ts) == crate::text::decimal(date_of(ts / 86_400).year) + behind_the_year(
            date_of(ts / 86_400),
            ts % 86_400,
        ),
{
    let date = date_of(ts / 86_400);
    every_number_has_a_date(ts / 86_400);
    crate::text::decimals_stand_for_their_numbers(date.year);
    assert(crate::text::zero_padded(date.year, 4) =~= crate::text::decimal(date.year));
    assert(iso8601_text(ts) =~= crate::text::decimal(date.year) + behind_the_year(
        date,
        ts % 86_400,
    ));
}

// ---------------------------------------------------------------------------
// Durations
// ---------------------------------------------------------------------------

/// A number of minutes as days, hours and minutes, without leading parts that
/// are zero.
pub open spec fn duration_text(minutes: nat) -> Seq<char> {
    let d = minutes / 1_440;
    let h = (minutes % 1_440) / 60;
    let m = minutes % 60;
    let in_minutes = crate::text::decimal(m) + "m"@;
    let in_hours = crate::text::decimal(h) + "h "@ + in_minutes;
    if d > 0 {
        crate::text::decimal(d) + "d "@ + in_hours
    } else if h > 0 {
        in_hours
    } else {
        in_minutes
    }
}

/// Days, hours and minutes are told in this order, each with its number; and of
/// leading parts that are zero nothing is told.
pub proof fn durations_tell_their_parts(d: nat, h: nat, m: nat)
    requires
        h < 24,
        m < 60,
    ensures
        ({
            let text = duration_text(d * 24 * 60 + h * 60 + m);
            let minutes = crate::text::decimal(m) + "m"@;
            &&& d == 0 && h == 0 ==> text == minutes
            &&& d == 0 && h > 0 ==> text == crate::text::decimal(h) + "h "@ + minutes
            &&& d > 0 ==> text == crate::text::decimal(d) + "d "@ + crate::text::decimal(h) + "h "@
                + minutes
        }),
{
    let n = d * 24 * 60 + h * 60 + m;
    assert(n / 1_440 == d);
    assert(n % 1_440 / 60 == h);
    assert(n % 60 == m);
    let minutes = crate::text::decimal(m) + "m"@;
    if d > 0 {
        assert(duration_text(n) =~= crate::text::decimal(d) + "d "@ + crate::text::decimal(h) + "h "@
            + minutes);
    }
}

/// Minutes as "Xd Yh Zm".
pub fn fmt_duration(minutes: u64) -> (r: String)
    ensures
        r@ == duration_text(minutes as nat),
{
    let d: u64 = minutes / 1_440;
    let h: u64 = (minutes % 1_440) / 60;
    let m: u64 = minutes % 60;
    let mut out = String::new();
    if d > 0 {
        push_decimal(&mut out, d);
        out.append("d ");
    }
    if d > 0 || h > 0 {
        push_decimal(&mut out, h);
        out.append("h ");
    }
    push_decimal(&mut out, m);
    out.append("m");
    assert(out@ =~= duration_text(minutes as nat));
    out
}

} // verus!
