//! Calendar dates of the proleptic Gregorian calendar and the monthly cadence.

use chrono::Datelike;
use vstd::prelude::*;

verus! {

/// First year a [`Date`] can hold.
pub const MIN_YEAR: i32 = -262143;

/// Last year a [`Date`] can hold.
pub const MAX_YEAR: i32 = 262142;

/// A calendar day as plain numbers: what a [`Date`] stands for in contracts.
pub struct Ymd {
    pub year: int,
    pub month: int,
    pub day: int,
}

pub open spec fn is_leap_year(year: int) -> bool {
    (year % 4 == 0 && year % 100 != 0) || year % 400 == 0
}

pub open spec fn days_in_month(year: int, month: int) -> int {
    if month == 2 {
        if is_leap_year(year) {
            29
        } else {
            28
        }
    } else if month == 4 || month == 6 || month == 9 || month == 11 {
        30
    } else {
        31
    }
}

impl Ymd {
    /// The day exists in the calendar and its year is within the supported range.
    pub open spec fn valid(self) -> bool {
        &&& MIN_YEAR <= self.year <= MAX_YEAR
        &&& 1 <= self.month <= 12
        &&& 1 <= self.day <= days_in_month(self.year, self.month)
    }

    /// Chronological order: `self` is the same day as `other` or an earlier one.
    pub open spec fn on_or_before(self, other: Ymd) -> bool {
        self.year < other.year || (self.year == other.year && (self.month < other.month || (
        self.month == other.month && self.day <= other.day)))
    }

    /// Chronological order: `self` is an earlier day than `other`.
    pub open spec fn before(self, other: Ymd) -> bool {
        self.on_or_before(other) && self != other
    }

    /// Months counted from January of year 0.
    pub open spec fn month_index(self) -> int {
        self.year * 12 + self.month - 1
    }

    /// `k` calendar months earlier, on the same day of the month, or on the
    /// last day of the target month where that month is shorter.
    pub open spec fn months_earlier(self, k: nat) -> Ymd {
        let index = self.month_index() - k;
        let year = index / 12;
        let month = index % 12 + 1;
        let last = days_in_month(year, month);
        Ymd { year, month, day: if self.day > last { last } else { self.day } }
    }

    /// The day before.
    pub open spec fn day_before(self) -> Ymd {
        if self.day > 1 {
            Ymd { day: self.day - 1, ..self }
        } else if self.month > 1 {
            Ymd {
                year: self.year,
                month: self.month - 1,
                day: days_in_month(self.year, self.month - 1),
            }
        } else {
            Ymd { year: self.year - 1, month: 12, day: 31 }
        }
    }

    /// The first day of the month of the day.
    pub open spec fn first_of_month(self) -> Ymd {
        Ymd { day: 1, ..self }
    }

    /// One calendar month later, on the same day of the month, or on the last
    /// day of the target month where that month is shorter.
    pub open spec fn month_later(self) -> Ymd {
        let index = self.month_index() + 1;
        let year = index / 12;
        let month = index % 12 + 1;
        let last = days_in_month(year, month);
        Ymd { year, month, day: if self.day > last { last } else { self.day } }
    }
}

/// A valid calendar day.
#[derive(Clone, Copy, Debug, PartialEq, Eq, Structural)]
pub struct Date {
    year: i32,
    month: u32,
    day: u32,
}

impl View for Date {
    type V = Ymd;

    closed spec fn view(&self) -> Ymd {
        if self.numbers().valid() {
            self.numbers()
        } else {
            Ymd { year: 1, month: 1, day: 1 }
        }
    }
}

/// `chrono::NaiveDate::checked_add_months` with one month, on the day given
/// by its three numbers. The contract repeats what the method documents: the
/// month moves forward by one, a day that the target month lacks becomes that
/// month's last day, and there is no result where the year would leave the
/// range of `NaiveDate`.
#[verifier::external_body]
fn add_one_month(year: i32, month: u32, day: u32) -> (r: Option<(i32, u32, u32)>)
    requires
        (Ymd { year: year as int, month: month as int, day: day as int }).valid(),
    ensures
        ({
            let next = (Ymd { year: year as int, month: month as int, day: day as int }).month_later();
            match r {
                Some(t) => next.year <= MAX_YEAR && t.0 == next.year && t.1 == next.month && t.2
                    == next.day,
                None => next.year > MAX_YEAR,
            }
        }),
{
    let date = chrono::NaiveDate::from_ymd_opt(year, month, day)?;
    let next = date.checked_add_months(chrono::Months::new(1))?;
    Some((next.year(), next.month(), next.day()))
}

/// What `chrono::NaiveDate::parse_from_str` returns for a text under the
/// pattern `%Y-%m-%d`, as year, month and day; nothing where it reports an
/// error.
pub uninterp spec fn parsed_ymd(text: Seq<char>) -> Option<(i32, u32, u32)>;

/// What `chrono::NaiveDate::format` writes for a day under a pattern.
pub uninterp spec fn formatted(pattern: Seq<char>, year: int, month: int, day: int) -> Seq<char>;

/// `chrono::NaiveDate::parse_from_str` under the pattern `%Y-%m-%d`. The
/// result is the named one; a `NaiveDate` is always a day of the calendar
/// within the supported years, so the numbers read from it are too.
#[verifier::external_body]
fn parse_ymd(text: &str) -> (r: Option<(i32, u32, u32)>)
    ensures
        r == parsed_ymd(text@),
        r matches Some(t) ==> (Ymd { year: t.0 as int, month: t.1 as int, day: t.2 as int }).valid(),
{
    let date = chrono::NaiveDate::parse_from_str(text, "%Y-%m-%d").ok()?;
    Some((date.year(), date.month(), date.day()))
}

/// `chrono::NaiveDate::format`, collected into a `String`, under one of the
/// two patterns that the library writes days in. The result is the named
/// one.
#[verifier::external_body]
fn format_date(pattern: &'static str, year: i32, month: u32, day: u32) -> (r: String)
    requires
        pattern@ == "%Y-%m-%d"@ || pattern@ == "%Y-%m"@,
        (Ymd { year: year as int, month: month as int, day: day as int }).valid(),
    ensures
        r@ == formatted(pattern@, year as int, month as int, day as int),
{
    match chrono::NaiveDate::from_ymd_opt(year, month, day) {
        Some(date) => date.format(pattern).to_string(),
        None => String::new(),
    }
}

/// `chrono::NaiveDate::checked_sub_months`, on the day given by its three
/// numbers. The contract repeats what the method documents: the month moves
/// back by `months`, a day that the target month lacks becomes that month's
/// last day, and there is no result where the year would leave the range of
/// `NaiveDate`.
#[verifier::external_body]
fn sub_months(year: i32, month: u32, day: u32, months: u32) -> (r: Option<(i32, u32, u32)>)
    requires
        (Ymd { year: year as int, month: month as int, day: day as int }).valid(),
    ensures
        ({
            let target = (Ymd {
                year: year as int,
                month: month as int,
                day: day as int,
            }).months_earlier(months as nat);
            match r {
                Some(t) => target.year >= MIN_YEAR && t.0 == target.year && t.1 == target.month
                    && t.2 == target.day,
                None => target.year < MIN_YEAR,
            }
        }),
{
    let date = chrono::NaiveDate::from_ymd_opt(year, month, day)?;
    let earlier = date.checked_sub_months(chrono::Months::new(months))?;
    Some((earlier.year(), earlier.month(), earlier.day()))
}

/// `chrono::NaiveDate::checked_sub_days` with one day, on the day given by
/// its three numbers: the day before, and no result for the first day of the
/// first supported year.
#[verifier::external_body]
fn sub_one_day(year: i32, month: u32, day: u32) -> (r: Option<(i32, u32, u32)>)
    requires
        (Ymd { year: year as int, month: month as int, day: day as int }).valid(),
    ensures
        ({
            let target = (Ymd {
                year: year as int,
                month: month as int,
                day: day as int,
            }).day_before();
            match r {
                Some(t) => target.year >= MIN_YEAR && t.0 == target.year && t.1 == target.month
                    && t.2 == target.day,
                None => target.year < MIN_YEAR,
            }
        }),
{
    let date = chrono::NaiveDate::from_ymd_opt(year, month, day)?;
    let earlier = date.checked_sub_days(chrono::Days::new(1))?;
    Some((earlier.year(), earlier.month(), earlier.day()))
}

/// `chrono::Local::now` and `chrono::DateTime::date_naive`: the current day
/// of the machine's clock in the machine's time zone, as year, month and
/// day. A `NaiveDate` is always a day of the calendar within the supported
/// years, so the numbers read from it are too; nothing else is claimed.
#[verifier::external_body]
fn local_today() -> (r: (i32, u32, u32))
    ensures
        (Ymd { year: r.0 as int, month: r.1 as int, day: r.2 as int }).valid(),
{
    let date = chrono::Local::now().date_naive();
    (date.year(), date.month(), date.day())
}

impl Date {
    spec fn numbers(self) -> Ymd {
        Ymd { year: self.year as int, month: self.month as int, day: self.day as int }
    }

    #[verifier::type_invariant]
    spec fn well_formed(self) -> bool {
        self.numbers().valid()
    }

    /// Every date stands for a day of the calendar.
    pub proof fn lemma_valid(self)
        ensures
            self@.valid(),
    {
    }

    /// The date with these numbers, if the calendar has such a day.
    pub fn new(year: i32, month: u32, day: u32) -> (r: Option<Date>)
        ensures
            match r {
                Some(d) => d@ == (Ymd { year: year as int, month: month as int, day: day as int })
                    && d@.valid(),
                None => !(Ymd { year: year as int, month: month as int, day: day as int }).valid(),
            },
    {
        if year < MIN_YEAR || year > MAX_YEAR || month < 1 || month > 12 || day < 1 {
            return None;
        }
        let leap = (year % 4 == 0 && year % 100 != 0) || year % 400 == 0;
        let last: u32 = if month == 2 {
            if leap {
                29
            } else {
                28
            }
        } else if month == 4 || month == 6 || month == 9 || month == 11 {
            30
        } else {
            31
        };
        if day > last {
            None
        } else {
            Some(Date { year, month, day })
        }
    }

    /// The current day of the machine's clock.
    pub fn today() -> Date {
        let numbers = local_today();
        Date { year: numbers.0, month: numbers.1, day: numbers.2 }
    }

    pub fn year(&self) -> (y: i32)
        ensures
            y == self@.year,
    {
        proof {
            use_type_invariant(self);
        }
        self.year
    }

    pub fn month(&self) -> (m: u32)
        ensures
            m == self@.month,
    {
        proof {
            use_type_invariant(self);
        }
        self.month
    }

    pub fn day(&self) -> (d: u32)
        ensures
            d == self@.day,
    {
        proof {
            use_type_invariant(self);
        }
        self.day
    }

    /// Whether `self` is the same day as `other` or an earlier one.
    pub fn on_or_before(&self, other: &Date) -> (r: bool)
        ensures
            r == self@.on_or_before(other@),
    {
        proof {
            use_type_invariant(self);
            use_type_invariant(other);
        }
        self.year < other.year || (self.year == other.year && (self.month < other.month || (
        self.month == other.month && self.day <= other.day)))
    }

    /// The day one calendar month later, or nothing where that month lies
    /// beyond the last supported year.
    pub fn next_month(&self) -> (r: Option<Date>)
        ensures
            match r {
                Some(d) => d@ == self@.month_later() && d@.valid(),
                None => self@.month_later().year > MAX_YEAR,
            },
    {
        proof {
            use_type_invariant(self);
        }
        match add_one_month(self.year, self.month, self.day) {
            Some(t) => Some(Date { year: t.0, month: t.1, day: t.2 }),
            None => None,
        }
    }

    /// Whether `self` is an earlier day than `other`.
    pub fn before(&self, other: &Date) -> (r: bool)
        ensures
            r == self@.before(other@),
    {
        proof {
            use_type_invariant(self);
            use_type_invariant(other);
        }
        self.year < other.year || (self.year == other.year && (self.month < other.month || (
        self.month == other.month && self.day < other.day)))
    }

    /// The day `months` calendar months earlier, or nothing where that
    /// month lies before the first supported year.
    pub fn months_before(&self, months: u32) -> (r: Option<Date>)
        ensures
            match r {
                Some(d) => d@ == self@.months_earlier(months as nat) && d@.valid(),
                None => self@.months_earlier(months as nat).year < MIN_YEAR,
            },
    {
        proof {
            use_type_invariant(self);
        }
        match sub_months(self.year, self.month, self.day, months) {
            Some(t) => Some(Date { year: t.0, month: t.1, day: t.2 }),
            None => None,
        }
    }

    /// The day before, or nothing for the first day of the first supported
    /// year.
    pub fn previous_day(&self) -> (r: Option<Date>)
        ensures
            match r {
                Some(d) => d@ == self@.day_before() && d@.valid(),
                None => self@.day_before().year < MIN_YEAR,
            },
    {
        proof {
            use_type_invariant(self);
        }
        match sub_one_day(self.year, self.month, self.day) {
            Some(t) => Some(Date { year: t.0, month: t.1, day: t.2 }),
            None => None,
        }
    }

    /// The first day of the month of the day.
    pub fn first_of_month(&self) -> (r: Date)
        ensures
            r@ == self@.first_of_month(),
    {
        proof {
            use_type_invariant(self);
        }
        Date { year: self.year, month: self.month, day: 1 }
    }

    /// The year and the month of the day, with a hyphen between them.
    pub fn year_month_text(&self) -> (r: String)
        ensures
            r@ == formatted("%Y-%m"@, self@.year, self@.month, self@.day),
    {
        proof {
            use_type_invariant(self);
        }
        format_date("%Y-%m", self.year, self.month, self.day)
    }

    /// Reads a day written as year, month and day with hyphens between them.
    pub fn parse(text: &str) -> (r: Option<Date>)
        ensures
            Date::read(parsed_ymd(text@), r),
            parsed_ymd(text@) is Some ==> r is Some,
    {
        Date::from_parsed(parse_ymd(text))
    }

    /// How the numbers read from a text become a date: the day they name
    /// where the calendar has it, and nothing otherwise.
    pub open spec fn read(parsed: Option<(i32, u32, u32)>, r: Option<Date>) -> bool {
        match parsed {
            Some(t) => {
                let day = Ymd { year: t.0 as int, month: t.1 as int, day: t.2 as int };
                if day.valid() {
                    r matches Some(d) && d@ == day
                } else {
                    r is None
                }
            },
            None => r is None,
        }
    }

    /// The date that the numbers read from a text stand for.
    pub fn from_parsed(parsed: Option<(i32, u32, u32)>) -> (r: Option<Date>)
        ensures
            Date::read(parsed, r),
    {
        match parsed {
            Some(t) => Date::new(t.0, t.1, t.2),
            None => None,
        }
    }

    /// The day written as year, month and day with hyphens between them.
    pub fn to_text(&self) -> (r: String)
        ensures
            r@ == formatted("%Y-%m-%d"@, self@.year, self@.month, self@.day),
    {
        proof {
            use_type_invariant(self);
        }
        format_date("%Y-%m-%d", self.year, self.month, self.day)
    }
}

/// Moving one month later keeps a day within the calendar, moves it to the
/// following month, and makes it a later day.
pub proof fn lemma_month_later(d: Ymd)
    requires
        d.valid(),
        d.month_later().year <= MAX_YEAR,
    ensures
        d.month_later().valid(),
        d.month_later().month_index() == d.month_index() + 1,
        d.before(d.month_later()),
{
}

/// Days in chronological order lie in months in the same order.
pub proof fn lemma_month_index_order(a: Ymd, b: Ymd)
    requires
        a.valid(),
        b.valid(),
        a.on_or_before(b),
    ensures
        a.month_index() <= b.month_index(),
{
}

} // verus!
