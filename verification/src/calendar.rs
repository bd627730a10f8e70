//! The proleptic Gregorian calendar: which date each day bears, and how dates are written.
use crate::text;
use vstd::prelude::*;

verus! {

/// A date by year, month and day of the month. The year before year 1 is year 0.
pub struct Date {
    pub year: int,
    pub month: int,
    pub day: int,
}

/// Whether the year has a 29th of February.
pub open spec fn leap_year(year: int) -> bool {
    year % 4 == 0 && (year % 100 != 0 || year % 400 == 0)
}

/// The number of days in a month.
pub open spec fn month_days(year: int, month: int) -> int {
    if month == 2 {
        if leap_year(year) {
            29
        } else {
            28
        }
    } else if month == 4 || month == 6 || month == 9 || month == 11 {
        30
    } else {
        31
    }
}

/// The number of days in the months of the year before `month`.
pub open spec fn days_before_month(year: int, month: int) -> int
    decreases month,
{
    if month <= 1 {
        0
    } else {
        days_before_month(year, month - 1) + month_days(year, month - 1)
    }
}

/// The number of the year's first day: 365 days for every year since 1970, and one more for every
/// leap year among them.
pub open spec fn year_start(year: int) -> int {
    365 * (year - 1970) + ((year - 1) / 4 - (year - 1) / 100 + (year - 1) / 400 - 477)
}

impl Date {
    /// Whether the calendar has the date.
    pub open spec fn valid(self) -> bool {
        &&& 1 <= self.month <= 12
        &&& 1 <= self.day <= month_days(self.year, self.month)
    }

    /// The number of days from the first of January 1970 to the date.
    pub open spec fn number(self) -> int {
        year_start(self.year) + days_before_month(self.year, self.month) + self.day - 1
    }

    /// The date in digits: year, month and day between hyphens.
    pub open spec fn written(self) -> Seq<char> {
        year_text(self.year) + seq!['-'] + text::two_digits(self.month as nat) + seq!['-']
            + text::two_digits(self.day as nat)
    }
}

/// The date of the day with that number.
pub open spec fn date_of(number: int) -> Date {
    choose|date: Date| date.valid() && #[trigger] date.number() == number
}

/// A year in at least four digits, with a sign where it is not one of the years 0 to 9999.
pub open spec fn year_text(year: int) -> Seq<char> {
    let sign = if year < 0 {
        seq!['-']
    } else if year > 9999 {
        seq!['+']
    } else {
        seq![]
    };
    let n = if year < 0 {
        -year as nat
    } else {
        year as nat
    };
    sign + if n <= 9999 {
        text::two_digits(n / 100) + text::two_digits(n % 100)
    } else {
        text::decimal(n)
    }
}

proof fn year_length(year: int)
    ensures
        year_start(year + 1) == year_start(year) + if leap_year(year) {
            366int
        } else {
            365int
        },
{
}

proof fn year_starts_grow(first: int, second: int)
    requires
        first <= second,
    ensures
        year_start(first) <= year_start(second),
    decreases second - first,
{
    if first < second {
        year_starts_grow(first, second - 1);
        year_length(second - 1);
    }
}

proof fn month_starts(year: int)
    ensures
        days_before_month(year, 1) == 0,
        forall|m: int|
            1 <= m <= 12 ==> #[trigger] days_before_month(year, m) + month_days(year, m)
                == days_before_month(year, m + 1),
        forall|a: int, b: int|
            1 <= a <= b <= 13 ==> #[trigger] days_before_month(year, a)
                <= #[trigger] days_before_month(year, b),
        days_before_month(year, 13) == if leap_year(year) {
            366int
        } else {
            365int
        },
{
    reveal_with_fuel(days_before_month, 14);
}

proof fn earlier_date_has_smaller_number(first: Date, second: Date)
    requires
        first.valid(),
        second.valid(),
        first.year < second.year || (first.year == second.year && first.month < second.month),
    ensures
        first.number() < second.number(),
{
    month_starts(first.year);
    month_starts(second.year);
    let end = days_before_month(first.year, first.month + 1);
    assert(days_before_month(first.year, first.month) + first.day <= end);
    if first.year < second.year {
        year_length(first.year);
        year_starts_grow(first.year + 1, second.year);
    }
}

/// No two dates are those of the same day.
pub proof fn dates_are_distinct(a: Date, b: Date)
    requires
        a.valid(),
        b.valid(),
        a.number() == b.number(),
    ensures
        a == b,
{
    if a.year < b.year || (a.year == b.year && a.month < b.month) {
        earlier_date_has_smaller_number(a, b);
    } else if b.year < a.year || (a.year == b.year && b.month < a.month) {
        earlier_date_has_smaller_number(b, a);
    }
}

proof fn next_date(date: Date) -> (next: Date)
    requires
        date.valid(),
    ensures
        next.valid(),
        next.number() == date.number() + 1,
{
    month_starts(date.year);
    month_starts(date.year + 1);
    year_length(date.year);
    if date.day < month_days(date.year, date.month) {
        Date { day: date.day + 1, ..date }
    } else if date.month < 12 {
        Date { month: date.month + 1, day: 1, ..date }
    } else {
        Date { year: date.year + 1, month: 1, day: 1 }
    }
}

proof fn date_before(date: Date) -> (before: Date)
    requires
        date.valid(),
    ensures
        before.valid(),
        before.number() == date.number() - 1,
{
    month_starts(date.year);
    month_starts(date.year - 1);
    year_length(date.year - 1);
    if date.day > 1 {
        Date { day: date.day - 1, ..date }
    } else if date.month > 1 {
        let month = date.month - 1;
        Date { month, day: month_days(date.year, month), ..date }
    } else {
        Date { year: date.year - 1, month: 12, day: 31 }
    }
}

proof fn some_date(number: int) -> (date: Date)
    ensures
        date.valid(),
        date.number() == number,
    decreases (if number < 0 {
        -number
    } else {
        number
    }),
{
    if number == 0 {
        Date { year: 1970, month: 1, day: 1 }
    } else if number > 0 {
        let before = some_date(number - 1);
        next_date(before)
    } else {
        let next = some_date(number + 1);
        date_before(next)
    }
}

/// Every day has a date.
pub proof fn every_day_has_a_date(number: int)
    ensures
        date_of(number).valid(),
        date_of(number).number() == number,
{
    let date = some_date(number);
    assert(date.valid() && date.number() == number);
}

/// The date of a date's own day is that date.
pub proof fn dates_and_days_correspond(date: Date)
    requires
        date.valid(),
    ensures
        date_of(date.number()) == date,
{
    every_day_has_a_date(date.number());
    dates_are_distinct(date_of(date.number()), date);
}

/// The years 0 to 9999 are written in ten characters.
pub proof fn written_dates_have_ten_characters(date: Date)
    requires
        date.valid(),
        0 <= date.year <= 9999,
    ensures
        date.written().len() == 10,
        date.written()[4] == '-',
        date.written()[7] == '-',
{
}

} // verus!
