//! The moment a record is created, as a calendar date and a time of day in
//! UTC, and the two ways it is written out.

use vstd::prelude::*;

verus! {

/// The format of the stamp in a file name.
pub const STAMP_FORMAT: &'static str = "%Y%m%d%H%M";

/// The format of the date in a record.
pub const DATE_FORMAT: &'static str = "%Y-%m-%d";

/// A date and a time of day, to the minute.
pub struct Civil {
    pub year: int,
    pub month: int,
    pub day: int,
    pub hour: int,
    pub minute: int,
}

/// Whether `year` is a leap year of the Gregorian calendar.
pub open spec fn is_leap_year(year: int) -> bool {
    year % 4 == 0 && (year % 100 != 0 || year % 400 == 0)
}

/// The number of days of `month` in `year`.
pub open spec fn days_in_month(year: int, month: int) -> int {
    if month == 2 {
        if is_leap_year(year) {
            29
        } else {
            28
        }
    } else if month == 4 || month == 6 || month == 9 || month == 11 {
        30
    } else {
        31
    }
}

impl Civil {
    /// Whether `self` is a minute of a day of the calendar, in a year that
    /// four digits can write.
    pub open spec fn valid(self) -> bool {
        &&& 0 <= self.year <= 9999
        &&& 1 <= self.month <= 12
        &&& 1 <= self.day <= days_in_month(self.year, self.month)
        &&& 0 <= self.hour <= 23
        &&& 0 <= self.minute <= 59
    }
}

/// The character that writes the digit `d`.
pub open spec fn digit(d: int) -> char {
    if d <= 0 {
        '0'
    } else if d == 1 {
        '1'
    } else if d == 2 {
        '2'
    } else if d == 3 {
        '3'
    } else if d == 4 {
        '4'
    } else if d == 5 {
        '5'
    } else if d == 6 {
        '6'
    } else if d == 7 {
        '7'
    } else if d == 8 {
        '8'
    } else {
        '9'
    }
}

/// Whether `c` is one of the ten digits.
pub open spec fn is_digit(c: char) -> bool {
    '0' <= c <= '9'
}

/// The last `width` decimal digits of `n`, with zeros in front where `n` has
/// fewer.
pub open spec fn padded(n: int, width: nat) -> Seq<char>
    decreases width,
{
    if width == 0 {
        Seq::empty()
    } else {
        padded(n / 10, (width - 1) as nat).push(digit(n % 10))
    }
}

/// What a directive letter stands for: the year in four digits for `Y`, and
/// in two digits each the month for `m`, the day for `d`, the hour for `H`
/// and the minute for `M`.
pub open spec fn field(letter: char, when: Civil) -> Seq<char> {
    if letter == 'Y' {
        padded(when.year, 4)
    } else if letter == 'm' {
        padded(when.month, 2)
    } else if letter == 'd' {
        padded(when.day, 2)
    } else if letter == 'H' {
        padded(when.hour, 2)
    } else {
        padded(when.minute, 2)
    }
}

/// Whether `letter` is one of the five directive letters.
pub open spec fn is_field(letter: char) -> bool {
    letter == 'Y' || letter == 'm' || letter == 'd' || letter == 'H' || letter == 'M'
}

/// Whether `format` is made of ordinary characters and of directives, each a
/// `%` directly followed by one of the five directive letters.
pub open spec fn plain_format(format: Seq<char>) -> bool
    decreases format.len(),
{
    if format.len() == 0 {
        true
    } else if format[0] == '%' {
        format.len() >= 2 && is_field(format[1]) && plain_format(format.skip(2))
    } else {
        plain_format(format.skip(1))
    }
}

/// `format` with each directive replaced by what it stands for.
pub open spec fn formatted(format: Seq<char>, when: Civil) -> Seq<char>
    decreases format.len(),
{
    if format.len() == 0 {
        Seq::empty()
    } else if format[0] == '%' && format.len() >= 2 {
        field(format[1], when) + formatted(format.skip(2), when)
    } else {
        seq![format[0]] + formatted(format.skip(1), when)
    }
}

/// The minute as twelve digits: year, month, day, hour, minute.
pub open spec fn minute_stamp(when: Civil) -> Seq<char> {
    padded(when.year, 4) + padded(when.month, 2) + padded(when.day, 2) + padded(when.hour, 2)
        + padded(when.minute, 2)
}

/// The date as year, month and day with hyphens between them.
pub open spec fn iso_date(when: Civil) -> Seq<char> {
    padded(when.year, 4) + seq!['-'] + padded(when.month, 2) + seq!['-'] + padded(when.day, 2)
}

/// Padding gives exactly `width` characters, all of them digits.
pub proof fn lemma_padded_digits(n: int, width: nat)
    ensures
        padded(n, width).len() == width,
        forall|i: int| 0 <= i < width ==> is_digit(#[trigger] padded(n, width)[i]),
    decreases width,
{
    if width > 0 {
        lemma_padded_digits(n / 10, (width - 1) as nat);
    }
}

/// The stamp of a minute is twelve digits.
pub proof fn lemma_minute_stamp_digits(when: Civil)
    ensures
        minute_stamp(when).len() == 12,
        forall|i: int| 0 <= i < 12 ==> is_digit(#[trigger] minute_stamp(when)[i]),
{
    lemma_padded_digits(when.year, 4);
    lemma_padded_digits(when.month, 2);
    lemma_padded_digits(when.day, 2);
    lemma_padded_digits(when.hour, 2);
    lemma_padded_digits(when.minute, 2);
}

/// The format of the stamp is plain, and formats to the stamp.
proof fn lemma_stamp_format(when: Civil)
    ensures
        plain_format(STAMP_FORMAT@),
        formatted(STAMP_FORMAT@, when) == minute_stamp(when),
{
    let f = STAMP_FORMAT@;
    reveal_strlit("%Y%m%d%H%M");
    let f2 = f.skip(2);
    let f4 = f2.skip(2);
    let f6 = f4.skip(2);
    let f8 = f6.skip(2);
    let f10 = f8.skip(2);
    assert(f10.len() == 0);
    assert(plain_format(f10));
    assert(plain_format(f8));
    assert(plain_format(f6));
    assert(plain_format(f4));
    assert(plain_format(f2));
    assert(formatted(f10, when) =~= Seq::<char>::empty());
    assert(formatted(f8, when) =~= padded(when.minute, 2));
    assert(formatted(f6, when) =~= padded(when.hour, 2) + padded(when.minute, 2));
    assert(formatted(f4, when) =~= padded(when.day, 2) + padded(when.hour, 2) + padded(
        when.minute,
        2,
    ));
    assert(formatted(f2, when) =~= padded(when.month, 2) + padded(when.day, 2) + padded(
        when.hour,
        2,
    ) + padded(when.minute, 2));
    assert(formatted(f, when) =~= minute_stamp(when));
}

/// The format of the date is plain, and formats to the date.
proof fn lemma_date_format(when: Civil)
    ensures
        plain_format(DATE_FORMAT@),
        formatted(DATE_FORMAT@, when) == iso_date(when),
{
    let f = DATE_FORMAT@;
    reveal_strlit("%Y-%m-%d");
    let f2 = f.skip(2);
    let f3 = f2.skip(1);
    let f5 = f3.skip(2);
    let f6 = f5.skip(1);
    let f8 = f6.skip(2);
    assert(f8.len() == 0);
    assert(plain_format(f8));
    assert(plain_format(f6));
    assert(plain_format(f5));
    assert(plain_format(f3));
    assert(plain_format(f2));
    assert(formatted(f8, when) =~= Seq::<char>::empty());
    assert(formatted(f6, when) =~= padded(when.day, 2));
    assert(formatted(f5, when) =~= seq!['-'] + padded(when.day, 2));
    assert(formatted(f3, when) =~= padded(when.month, 2) + seq!['-'] + padded(when.day, 2));
    assert(formatted(f2, when) =~= seq!['-'] + padded(when.month, 2) + seq!['-'] + padded(
        when.day,
        2,
    ));
    assert(formatted(f, when) =~= iso_date(when));
}

/// The minute a record is created, in UTC.
#[derive(Clone, Copy, Debug)]
pub struct Timestamp {
    year: i16,
    month: i8,
    day: i8,
    hour: i8,
    minute: i8,
}

impl View for Timestamp {
    type V = Civil;

    closed spec fn view(&self) -> Civil {
        Civil {
            year: self.year as int,
            month: self.month as int,
            day: self.day as int,
            hour: self.hour as int,
            minute: self.minute as int,
        }
    }
}

impl Timestamp {
    /// Every minute is one of the calendar.
    #[verifier::type_invariant]
    pub open spec fn calendar(&self) -> bool {
        self@.valid()
    }

    /// The minute with these parts, where they name one: a year from 0 to
    /// 9999, a month, a day of that month, an hour below 24 and a minute
    /// below 60.
    pub fn new(year: i16, month: i8, day: i8, hour: i8, minute: i8) -> (made: Option<Timestamp>)
        ensures
            made is Some <==> (Civil {
                year: year as int,
                month: month as int,
                day: day as int,
                hour: hour as int,
                minute: minute as int,
            }).valid(),
            made is Some ==> made->0@ == (Civil {
                year: year as int,
                month: month as int,
                day: day as int,
                hour: hour as int,
                minute: minute as int,
            }),
    {
        if year < 0 || year > 9999 || month < 1 || month > 12 || day < 1 || hour < 0 || hour > 23
            || minute < 0 || minute > 59 {
            return None;
        }
        let leap = year % 4 == 0 && (year % 100 != 0 || year % 400 == 0);
        let days: i8 = if month == 2 {
            if leap {
                29
            } else {
                28
            }
        } else if month == 4 || month == 6 || month == 9 || month == 11 {
            30
        } else {
            31
        };
        if day > days {
            return None;
        }
        Some(Timestamp { year, month, day, hour, minute })
    }

    /// The year.
    pub fn year(&self) -> (year: i16)
        ensures
            year == self@.year,
    {
        self.year
    }

    /// The month, from 1.
    pub fn month(&self) -> (month: i8)
        ensures
            month == self@.month,
    {
        self.month
    }

    /// The day of the month, from 1.
    pub fn day(&self) -> (day: i8)
        ensures
            day == self@.day,
    {
        self.day
    }

    /// The hour of the day.
    pub fn hour(&self) -> (hour: i8)
        ensures
            hour == self@.hour,
    {
        self.hour
    }

    /// The minute of the hour.
    pub fn minute(&self) -> (minute: i8)
        ensures
            minute == self@.minute,
    {
        self.minute
    }

    /// Writes the minute out by `jiff::civil::DateTime::strftime`, which copies
    /// the ordinary characters of the format and puts, for `%Y`, the year
    /// padded with zeros to four digits, and for `%m`, `%d`, `%H` and `%M` the
    /// month, day, hour and minute padded with zeros to two. The date-time is
    /// made by `DateTime::constant`, which takes every date of the calendar.
    #[verifier::external_body]
    fn strftime(&self, format: &str) -> (text: String)
        requires
            self@.valid(),
            plain_format(format@),
        ensures
            text@ == formatted(format@, self@),
    {
        jiff::civil::DateTime::constant(self.year, self.month, self.day, self.hour, self.minute, 0, 0)
            .strftime(format).to_string()
    }

    /// The minute as twelve digits, as it stands in a file name.
    pub fn stamp(&self) -> (text: String)
        ensures
            text@ == minute_stamp(self@),
    {
        proof {
            use_type_invariant(self);
            lemma_stamp_format(self@);
        }
        self.strftime(STAMP_FORMAT)
    }

    /// The date as `YYYY-MM-DD`, as it stands in a record.
    pub fn date(&self) -> (text: String)
        ensures
            text@ == iso_date(self@),
    {
        proof {
            use_type_invariant(self);
            lemma_date_format(self@);
        }
        self.strftime(DATE_FORMAT)
    }
}

} // verus!
