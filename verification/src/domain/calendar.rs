//! Civil dates of the proleptic Gregorian calendar.
use crate::domain::text::{
    all_digits, chars_of, decimal, is_digit, join, lemma_digits_hold_no, lemma_numeral_reads_back,
    lemma_split_join, lemma_split_next_field, lemma_split_one_field, numeral, pow10, read_decimal,
    split, split_chars, texts,
};
use vstd::prelude::*;

verus! {

/// Leap years of the Gregorian calendar: every fourth year, except the
/// centuries that four hundred does not divide.
pub open spec fn is_leap_year(year: int) -> bool {
    year % 4 == 0 && (year % 100 != 0 || year % 400 == 0)
}

/// Number of days of `month` (1 = January) in `year`; 0 where there is no
/// such month.
pub open spec fn days_in_month(year: int, month: int) -> int {
    if month == 2 {
        if is_leap_year(year) { 29 } else { 28 }
    } else if month == 4 || month == 6 || month == 9 || month == 11 {
        30
    } else if 1 <= month <= 12 {
        31
    } else {
        0
    }
}

/// Whether day `day` of month `month` of year `year` is a day of the
/// calendar, for the years that a date can carry.
pub open spec fn is_civil_date(year: int, month: int, day: int) -> bool {
    &&& -9999 <= year <= 9999
    &&& 1 <= month <= 12
    &&& 1 <= day <= days_in_month(year, month)
}

/// Asks the `time` crate whether the date exists. `time::Month::try_from`
/// turns the number into a month and refuses all but 1 to 12; then
/// `time::Date::from_calendar_date` builds the date, and refuses a year
/// outside -9999..=9999 (the crate is built without its `large-dates`
/// feature) and a day that the month does not have in that year. The
/// contract claims that the two succeed on the days of the calendar and on
/// nothing else.
#[verifier::external_body]
fn calendar_has(year: i32, month: u8, day: u8) -> (known: bool)
    ensures
        known == is_civil_date(year as int, month as int, day as int),
{
    match time::Month::try_from(month) {
        Ok(m) => time::Date::from_calendar_date(year, m, day).is_ok(),
        Err(_) => false,
    }
}

/// A day as the calendar names it: the model of a [`CivilDate`].
pub struct CalendarDay {
    pub year: int,
    pub month: int,
    pub day: int,
}

/// The text of a date: day, month and year with `/` between them.
pub open spec fn date_text(day: Seq<char>, month: Seq<char>, year: Seq<char>) -> Seq<char> {
    day + seq!['/'] + month + seq!['/'] + year
}

/// Whether the three texts are written as the fields of a date are: one or
/// two digits for the day, one or two for the month, four for the year.
pub open spec fn are_date_fields(day: Seq<char>, month: Seq<char>, year: Seq<char>) -> bool {
    &&& 1 <= day.len() <= 2 && all_digits(day)
    &&& 1 <= month.len() <= 2 && all_digits(month)
    &&& year.len() == 4 && all_digits(year)
}

/// The day that the text `s` names, if it names one: `s` is parted at each
/// `/` into exactly three fields, written as `are_date_fields` says, and
/// the numbers they give are a day of the calendar.
pub open spec fn date_of_text(s: Seq<char>) -> Option<CalendarDay> {
    let fields = split(s, '/');
    if fields.len() == 3 && are_date_fields(fields[0], fields[1], fields[2]) && is_civil_date(
        decimal(fields[2]) as int,
        decimal(fields[1]) as int,
        decimal(fields[0]) as int,
    ) {
        Some(
            CalendarDay {
                year: decimal(fields[2]) as int,
                month: decimal(fields[1]) as int,
                day: decimal(fields[0]) as int,
            },
        )
    } else {
        None
    }
}

/// A day of the calendar. Every value of this type is one: there is no
/// 30 February among them.
#[derive(Clone, Copy, Debug)]
pub struct CivilDate {
    year: u16,
    month: u8,
    day: u8,
}

impl View for CivilDate {
    type V = CalendarDay;

    closed spec fn view(&self) -> CalendarDay {
        CalendarDay { year: self.year as int, month: self.month as int, day: self.day as int }
    }
}

impl CivilDate {
    #[verifier::type_invariant]
    spec fn on_calendar(self) -> bool {
        is_civil_date(self.year as int, self.month as int, self.day as int)
    }

    /// Reads a date written as day, month and year with `/` between them,
    /// such as `25/09/2025`. Gives nothing for any other text, and nothing
    /// where the numbers are no day of the calendar.
    pub fn parse(text: &str) -> (date: Option<CivilDate>)
        ensures
            match date {
                Some(d) => date_of_text(text@) == Some(d@),
                None => date_of_text(text@) is None,
            },
    {
        let chars = chars_of(text);
        let fields = split_chars(&chars, '/');
        if fields.len() != 3 {
            return None;
        }
        assert(texts(fields@)[0] == fields@[0]@);
        assert(texts(fields@)[1] == fields@[1]@);
        assert(texts(fields@)[2] == fields@[2]@);
        if fields[0].len() > 2 || fields[1].len() > 2 || fields[2].len() != 4 {
            return None;
        }
        let day = match read_decimal(&fields[0]) {
            Some(n) => n,
            None => { return None; },
        };
        let month = match read_decimal(&fields[1]) {
            Some(n) => n,
            None => { return None; },
        };
        let year = match read_decimal(&fields[2]) {
            Some(n) => n,
            None => { return None; },
        };
        proof {
            lemma_decimal_bound(fields@[0]@);
            lemma_decimal_bound(fields@[1]@);
            lemma_decimal_bound(fields@[2]@);
            reveal_with_fuel(pow10, 3);
            assert(day < 100 && month < 100);
        }
        if calendar_has(year as i32, month as u8, day as u8) {
            Some(CivilDate { year, month: month as u8, day: day as u8 })
        } else {
            None
        }
    }

    /// The year, from 0 to 9999.
    pub fn year(&self) -> (year: u16)
        ensures
            year == self@.year,
            year <= 9999,
    {
        proof {
            use_type_invariant(self);
        }
        self.year
    }

    /// The month, from 1 for January to 12 for December.
    pub fn month(&self) -> (month: u8)
        ensures
            month == self@.month,
            1 <= month <= 12,
    {
        proof {
            use_type_invariant(self);
        }
        self.month
    }

    /// The day of the month, from 1.
    pub fn day(&self) -> (day: u8)
        ensures
            day == self@.day,
            1 <= day <= days_in_month(self@.year, self@.month),
    {
        proof {
            use_type_invariant(self);
        }
        self.day
    }
}

/// A text of `n` digits writes a number below ten to the `n`.
pub proof fn lemma_decimal_bound(s: Seq<char>)
    requires
        all_digits(s),
    ensures
        decimal(s) < pow10(s.len()),
    decreases s.len(),
{
    if s.len() > 0 {
        let front = s.drop_last();
        assert forall|i: int| 0 <= i < front.len() implies is_digit(
            #[trigger] front[i],
        ) by {
            assert(front[i] == s[i]);
        }
        lemma_decimal_bound(front);
        assert(is_digit(s[s.len() - 1]));
    }
}

/// A date text is parted at its two `/` into its three fields.
pub proof fn lemma_fields_of_date_text(day: Seq<char>, month: Seq<char>, year: Seq<char>)
    requires
        are_date_fields(day, month, year),
    ensures
        split(date_text(day, month, year), '/') == seq![day, month, year],
{
    lemma_digits_hold_no(day, '/');
    lemma_digits_hold_no(month, '/');
    lemma_digits_hold_no(year, '/');
    lemma_split_one_field(day, '/');
    lemma_split_next_field(day, month, '/');
    lemma_split_next_field(day + seq!['/'] + month, year, '/');
    assert(seq![day].push(month).push(year) =~= seq![day, month, year]);
}

/// A text written as a date is written is accepted exactly when its
/// numbers are a day of the Gregorian calendar, and then it names that day.
pub proof fn lemma_date_accepted_iff_on_calendar(
    day: Seq<char>,
    month: Seq<char>,
    year: Seq<char>,
)
    requires
        are_date_fields(day, month, year),
    ensures
        date_of_text(date_text(day, month, year)) is Some <==> is_civil_date(
            decimal(year) as int,
            decimal(month) as int,
            decimal(day) as int,
        ),
        date_of_text(date_text(day, month, year)) is Some ==> date_of_text(
            date_text(day, month, year),
        )->0 == (CalendarDay {
            year: decimal(year) as int,
            month: decimal(month) as int,
            day: decimal(day) as int,
        }),
{
    lemma_fields_of_date_text(day, month, year);
}

/// Only a text written as a date is written is accepted: one that is parted
/// into three fields by two `/`, with the digits that `are_date_fields`
/// asks for.
pub proof fn lemma_accepted_is_date_text(s: Seq<char>)
    requires
        date_of_text(s) is Some,
    ensures
        split(s, '/').len() == 3,
        are_date_fields(split(s, '/')[0], split(s, '/')[1], split(s, '/')[2]),
        s == date_text(split(s, '/')[0], split(s, '/')[1], split(s, '/')[2]),
{
    let fields = split(s, '/');
    lemma_split_join(s, '/');
    let two = fields.drop_last();
    assert(two.drop_last() =~= seq![fields[0]]);
    assert(join(two.drop_last(), '/') == fields[0]);
    assert(join(two, '/') == fields[0] + seq!['/'] + fields[1]);
}

/// Of all days, months and years that can be written as a date, those are
/// accepted that are a day of the Gregorian calendar, and no others.
pub proof fn lemma_calendar_days_are_accepted(day: nat, month: nat, year: nat)
    requires
        day < 100,
        month < 100,
        year < 10000,
    ensures
        date_of_text(date_text(numeral(day, 2), numeral(month, 2), numeral(year, 4))) == if is_civil_date(
            year as int,
            month as int,
            day as int,
        ) {
            Some(CalendarDay { year: year as int, month: month as int, day: day as int })
        } else {
            None
        },
{
    reveal_with_fuel(pow10, 5);
    lemma_numeral_reads_back(day, 2);
    lemma_numeral_reads_back(month, 2);
    lemma_numeral_reads_back(year, 4);
    lemma_date_accepted_iff_on_calendar(numeral(day, 2), numeral(month, 2), numeral(year, 4));
}

} // verus!
