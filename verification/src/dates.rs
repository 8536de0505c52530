//! Dates, by which files are named.

use chrono::Datelike;
use vstd::prelude::*;

use crate::text;
use crate::time;

verus! {

/// A day of the Gregorian calendar, in universal time.
#[derive(Clone, Copy, Debug, PartialEq, Eq, Structural)]
pub struct Date {
    pub year: i32,
    pub month: u32,
    pub day: u32,
}

/// How many days the month has.
pub open spec fn days_in_month(year: int, month: int) -> int {
    if month == 2 {
        if year % 4 == 0 && (year % 100 != 0 || year % 400 == 0) {
            29
        } else {
            28
        }
    } else if month == 4 || month == 6 || month == 9 || month == 11 {
        30
    } else {
        31
    }
}

/// How many days the day is after the first of January 1970.
pub open spec fn day_number(year: int, month: int, day: int) -> int {
    let y = if month <= 2 { year - 1 } else { year };
    let m = if month <= 2 { month + 9 } else { month - 3 };
    365 * y + y / 4 - y / 100 + y / 400 + (153 * m + 2) / 5 + day - 719469
}

impl Date {
    /// Whether there is such a day.
    pub open spec fn valid(self) -> bool {
        1 <= self.month <= 12 && 1 <= self.day <= days_in_month(
            self.year as int,
            self.month as int,
        )
    }

    /// How many days the day is after the first of January 1970.
    pub open spec fn number(self) -> int {
        day_number(self.year as int, self.month as int, self.day as int)
    }

    /// The day as text, such as `2023-11-14`. A year with more than four digits, or before the year
    /// zero, has a sign.
    pub open spec fn text_of(self) -> Seq<char> {
        let year = if 0 <= self.year <= 9999 {
            text::padded(self.year as nat, 4)
        } else if self.year < 0 {
            "-"@ + text::padded((-self.year) as nat, 4)
        } else {
            "+"@ + text::padded(self.year as nat, 4)
        };
        year + "-"@ + text::padded(self.month as nat, 2) + "-"@ + text::padded(self.day as nat, 2)
    }

    /// The day as text, such as `2023-11-14`.
    pub fn to_text(&self) -> (r: String)
        ensures
            r@ == self.text_of(),
    {
        let mut out = if 0 <= self.year && self.year <= 9999 {
            text::padded_text(self.year as u64, 4)
        } else if self.year < 0 {
            let mut out = "-".to_owned();
            out.append(text::padded_text((-(self.year as i64)) as u64, 4).as_str());
            out
        } else {
            let mut out = "+".to_owned();
            out.append(text::padded_text(self.year as u64, 4).as_str());
            out
        };
        out.append("-");
        out.append(text::padded_text(self.month as u64, 2).as_str());
        out.append("-");
        out.append(text::padded_text(self.day as u64, 2).as_str());
        out
    }
}

/// `chrono::DateTime::from_timestamp_millis` and the year, month and day of its result: the day that
/// is as many whole days after the first of January 1970 as the milliseconds make, where it is one
/// from the first of January of the year -262143 to the end of the year 262142.
#[verifier::external_body]
fn outside_utc_date(millis: i64) -> (r: Option<(i32, u32, u32)>)
    ensures
        r is Some <==> day_number(-262143, 1, 1) <= millis as int / 86_400_000 <= day_number(
            262142,
            12,
            31,
        ),
        r matches Some((year, month, day)) ==> 1 <= month <= 12 && 1 <= day <= days_in_month(
            year as int,
            month as int,
        ) && day_number(year as int, month as int, day as int) == millis as int / 86_400_000,
{
    chrono::DateTime::<chrono::Utc>::from_timestamp_millis(millis)
        .map(|t| (t.year(), t.month(), t.day()))
}

/// The day on which `millis` milliseconds since the epoch fall; `None` where it is too far off.
pub fn date_of_millis(millis: i64) -> (r: Option<Date>)
    ensures
        r is Some <==> day_number(-262143, 1, 1) <= millis as int / 86_400_000 <= day_number(
            262142,
            12,
            31,
        ),
        r matches Some(date) ==> date.valid() && date.number() == millis as int / 86_400_000,
{
    match outside_utc_date(millis) {
        Some((year, month, day)) => Some(Date { year, month, day }),
        None => None,
    }
}

/// Whether `date` is the day of a time on the wall clock, or `today` where that is too far off.
pub open spec fn is_date_of(wall_ms: u64, today: Date, date: Date) -> bool {
    let number = (wall_ms as i64) as int / 86_400_000;
    if day_number(-262143, 1, 1) <= number <= day_number(262142, 12, 31) {
        date.valid() && date.number() == number
    } else {
        date == today
    }
}

/// The day of a time on the wall clock, in milliseconds since the epoch; `today` where it is too far
/// off.
pub fn wall_ms_to_date_or(wall_ms: u64, today: Date) -> (r: Date)
    ensures
        is_date_of(wall_ms, today, r),
{
    match date_of_millis(wall_ms as i64) {
        Some(date) => date,
        None => today,
    }
}

/// The day of a time on the wall clock, in milliseconds since the epoch; the current day where it is
/// too far off, and the first of January 1970 where that is too far off as well.
pub fn wall_ms_to_date(wall_ms: u64) -> (r: Date)
    ensures
        exists|now_ms: u64, today: Date|
            #[trigger] is_date_of(now_ms, first_day(), today) && #[trigger] is_date_of(
                wall_ms,
                today,
                r,
            ),
{
    let epoch = Date { year: 1970, month: 1, day: 1 };
    let now_ms: u64 = time::now_wall_ms();
    let today = wall_ms_to_date_or(now_ms, epoch);
    assert(is_date_of(now_ms, first_day(), today));
    wall_ms_to_date_or(wall_ms, today)
}

/// The first of January 1970.
pub open spec fn first_day() -> Date {
    Date { year: 1970, month: 1, day: 1 }
}

/// No two days have the same number: a number stands for one day.
pub proof fn law_day_numbers_are_distinct(a: Date, b: Date)
    requires
        a.valid(),
        b.valid(),
        a.number() == b.number(),
    ensures
        a == b,
{
    lemma_year_of(a, b);
    lemma_year_of(b, a);
}

/// The number of the day before the first of March of the year.
#[verifier::opaque]
spec fn before_march(year: int) -> int {
    365 * year + year / 4 - year / 100 + year / 400 - 719469
}

/// 1 in a year with a leap day, 0 in others.
spec fn leap_days(year: int) -> int {
    (if year % 4 == 0 { 1int } else { 0 }) - (if year % 100 == 0 { 1int } else { 0 }) + (if year
        % 400 == 0 { 1int } else { 0 })
}

/// How many months the month is after March.
spec fn month_of_march_year(month: int) -> int {
    if month <= 2 {
        month + 9
    } else {
        month - 3
    }
}

/// The days from the first of March to the first of the month.
spec fn days_before(month: int) -> int {
    (153 * month_of_march_year(month) + 2) / 5
}

/// The year that starts with March in which the day lies.
spec fn march_year(date: Date) -> int {
    if date.month <= 2 {
        date.year - 1
    } else {
        date.year as int
    }
}

proof fn lemma_year_of(a: Date, b: Date)
    requires
        a.valid(),
        b.valid(),
        a.number() == b.number(),
    ensures
        march_year(a) <= march_year(b),
        march_year(a) == march_year(b) ==> a == b,
{
    lemma_within_year(a);
    lemma_within_year(b);
    lemma_number(a);
    lemma_number(b);
    let (y, z) = (march_year(a), march_year(b));
    if y > z {
        lemma_years_grow(z + 1, y);
    }
    if y == z {
        lemma_same_year(a, b);
    }
}

proof fn lemma_same_year(a: Date, b: Date)
    requires
        a.valid(),
        b.valid(),
        march_year(a) == march_year(b),
        days_before(a.month as int) + a.day == days_before(b.month as int) + b.day,
    ensures
        a == b,
{
    lemma_month_ends(a);
    lemma_month_ends(b);
    let (m, n) = (month_of_march_year(a.month as int), month_of_march_year(b.month as int));
    assert(m < n ==> (153 * (m + 1) + 2) / 5 <= (153 * n + 2) / 5);
    assert(n < m ==> (153 * (n + 1) + 2) / 5 <= (153 * m + 2) / 5);
    assert(m == n);
}

proof fn lemma_month_ends(a: Date)
    requires
        a.valid(),
    ensures
        a.month != 2 ==> days_before(a.month as int) + a.day <= (153 * (month_of_march_year(
            a.month as int,
        ) + 1) + 2) / 5,
{
    let month = a.month as int;
    assert(month == 1 || month == 2 || month == 3 || month == 4 || month == 5 || month == 6 || month
        == 7 || month == 8 || month == 9 || month == 10 || month == 11 || month == 12);
}

proof fn lemma_years_grow(y: int, z: int)
    requires
        y <= z,
    ensures
        before_march(y) <= before_march(z),
    decreases z - y,
{
    if y < z {
        lemma_years_grow(y, z - 1);
        lemma_year_length(z - 1);
    }
}

proof fn lemma_year_length(y: int)
    ensures
        before_march(y + 1) - before_march(y) == 365 + leap_days(y + 1),
{
    reveal(before_march);
    let next = y + 1;
    assert(next / 4 - y / 4 == if next % 4 == 0 { 1int } else { 0 });
    assert(next / 100 - y / 100 == if next % 100 == 0 { 1int } else { 0 });
    assert(next / 400 - y / 400 == if next % 400 == 0 { 1int } else { 0 });
}

proof fn lemma_leap_days(year: int)
    ensures
        days_in_month(year, 2) == 28 + leap_days(year),
        0 <= leap_days(year) <= 1,
{
    if year % 100 == 0 {
        assert(year % 4 == 0);
    }
    if year % 400 == 0 {
        assert(year % 100 == 0);
    }
}

proof fn lemma_number(a: Date)
    ensures
        a.number() == before_march(march_year(a)) + days_before(a.month as int) + a.day,
{
    reveal(before_march);
}

proof fn lemma_within_year(a: Date)
    requires
        a.valid(),
    ensures
        before_march(march_year(a)) < a.number() <= before_march(march_year(a) + 1),
{
    let month = a.month as int;
    lemma_number(a);
    lemma_year_length(march_year(a));
    lemma_leap_days(march_year(a) + 1);
    assert(0 <= days_before(month));
    assert(month != 2 ==> days_before(month) + 31 <= 337);
    assert(month == 2 ==> days_before(month) == 337);
}

/// Days are counted from the first of January 1970, one by one: the next day of a month has the next
/// number, and so has the first day of the month that follows on the last day of one.
pub proof fn law_days_follow_on_each_other(date: Date)
    requires
        date.valid(),
    ensures
        first_day().number() == 0,
        day_number(date.year as int, date.month as int, date.day + 1) == date.number() + 1,
        date.day == days_in_month(date.year as int, date.month as int) ==> date.number() + 1
            == if date.month == 12 {
            day_number(date.year + 1, 1, 1)
        } else {
            day_number(date.year as int, date.month + 1, 1)
        },
{
    let (year, month) = (date.year as int, date.month as int);
    assert(1970int - 1 == 1969);
    assert(day_number(1970, 1, 1) == 0) by {
        assert(1969int / 4 == 492 && 1969int / 100 == 19 && 1969int / 400 == 4);
    }
    assert(month == 1 || month == 2 || month == 3 || month == 4 || month == 5 || month == 6 || month
        == 7 || month == 8 || month == 9 || month == 10 || month == 11 || month == 12);
    if month == 2 {
        lemma_year_length(year - 1);
        lemma_leap_days(year);
        reveal(before_march);
    }
}

/// A day lies in the milliseconds of its own number: from midnight to the next midnight.
pub proof fn law_day_holds_its_milliseconds(wall_ms: u64, today: Date, date: Date)
    requires
        wall_ms <= 8_000_000_000_000_000,
        is_date_of(wall_ms, today, date),
    ensures
        date.valid(),
        date.number() * 86_400_000 <= wall_ms < (date.number() + 1) * 86_400_000,
{
    assert(day_number(-262143, 1, 1) <= 0) by {
        assert(-262144int / 4 == -65536 && -262144int / 100 == -2622 && -262144int / 400 == -656);
    }
    assert(day_number(262142, 12, 31) >= 95_000_000) by {
        assert(262142int / 4 == 65535 && 262142int / 100 == 2621 && 262142int / 400 == 655);
    }
    assert((wall_ms as i64) as int == wall_ms);
}

/// The text of a day ends with its month and its day, two digits each, and starts with its year, four
/// digits where they are enough; before the year zero it starts with a minus sign, and with a plus
/// sign where the year has more than four digits.
pub proof fn law_text_tells_the_day(date: Date)
    requires
        date.valid(),
    ensures
        ({
            let t = date.text_of();
            let n = t.len() as int;
            &&& n >= 10
            &&& t[n - 3] == '-' && t[n - 6] == '-'
            &&& text::digits_value(t.subrange(n - 2, n)) == date.day
            &&& text::digits_value(t.subrange(n - 5, n - 3)) == date.month
            &&& 0 <= date.year <= 9999 ==> text::digits_value(t.take(n - 6)) == date.year
            &&& date.year < 0 ==> t[0] == '-' && text::digits_value(t.subrange(1, n - 6))
                == -date.year
            &&& date.year > 9999 ==> t[0] == '+' && text::digits_value(t.subrange(1, n - 6))
                == date.year
        }),
{
    reveal_strlit("-");
    reveal_strlit("+");
    let t = date.text_of();
    let n = t.len() as int;
    let size = if date.year < 0 { (-date.year) as nat } else { date.year as nat };
    let (m, d) = (text::padded(date.month as nat, 2), text::padded(date.day as nat, 2));
    text::law_filling_up_keeps_the_number(size, 4);
    text::law_filling_up_keeps_the_number(date.month as nat, 2);
    text::law_filling_up_keeps_the_number(date.day as nat, 2);
    reveal_with_fuel(text::digits, 3);
    assert(m.len() == 2 && d.len() == 2);
    assert(t.subrange(n - 2, n) =~= d);
    assert(t.subrange(n - 5, n - 3) =~= m);
    let y = text::padded(size, 4);
    if 0 <= date.year <= 9999 {
        assert(t.take(n - 6) =~= y);
    } else {
        assert(t.subrange(1, n - 6) =~= y);
    }
}

} // verus!
