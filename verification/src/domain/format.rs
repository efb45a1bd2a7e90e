//! Dates written out in French.
use crate::domain::calendar::{date_of_text, CalendarDay, CivilDate};
use crate::domain::text::{numeral, push_char, push_numeral};
use vstd::prelude::*;

verus! {

/// The French name of a month, from 1 for `janvier` to 12 for `décembre`;
/// the empty text for any other number.
pub open spec fn month_name_fr(month: int) -> Seq<char> {
    if month == 1 {
        "janvier"@
    } else if month == 2 {
        "février"@
    } else if month == 3 {
        "mars"@
    } else if month == 4 {
        "avril"@
    } else if month == 5 {
        "mai"@
    } else if month == 6 {
        "juin"@
    } else if month == 7 {
        "juillet"@
    } else if month == 8 {
        "août"@
    } else if month == 9 {
        "septembre"@
    } else if month == 10 {
        "octobre"@
    } else if month == 11 {
        "novembre"@
    } else if month == 12 {
        "décembre"@
    } else {
        Seq::empty()
    }
}

/// A day written out: the day of the month in two digits, the French name
/// of the month and the year in four digits, with one space between them.
pub open spec fn long_form_fr(date: CalendarDay) -> Seq<char> {
    numeral(date.day as nat, 2)
        + seq![' ']
        + month_name_fr(date.month)
        + seq![' ']
        + numeral(date.year as nat, 4)
}

/// A date text written out for a reader: in long form where the text names
/// a day of the calendar, and unchanged where it does not.
pub open spec fn human_date(s: Seq<char>) -> Seq<char> {
    match date_of_text(s) {
        Some(date) => long_form_fr(date),
        None => s,
    }
}

/// The French name of a month.
pub fn month_name(month: u8) -> (name: &'static str)
    ensures
        name@ == month_name_fr(month as int),
{
    match month {
        1 => "janvier",
        2 => "février",
        3 => "mars",
        4 => "avril",
        5 => "mai",
        6 => "juin",
        7 => "juillet",
        8 => "août",
        9 => "septembre",
        10 => "octobre",
        11 => "novembre",
        12 => "décembre",
        _ => {
            proof {
                reveal_strlit("");
            }
            ""
        },
    }
}

impl CivilDate {
    /// The date written out in French, as in `25 septembre 2025`.
    pub fn to_long_form_fr(&self) -> (text: String)
        ensures
            text@ == long_form_fr(self@),
    {
        let mut text = String::new();
        push_numeral(&mut text, self.day() as u16, 2);
        push_char(&mut text, ' ');
        text.append(month_name(self.month()));
        push_char(&mut text, ' ');
        push_numeral(&mut text, self.year(), 4);
        assert(text@ =~= long_form_fr(self@));
        text
    }
}

/// Writes a date out for a reader, as in `25 septembre 2025` for
/// `25/09/2025`. A text that names no day of the calendar is handed back
/// as it is.
pub fn human_date_fr(jj_mm_aaaa: &str) -> (text: String)
    ensures
        text@ == human_date(jj_mm_aaaa@),
{
    match CivilDate::parse(jj_mm_aaaa) {
        Some(date) => date.to_long_form_fr(),
        None => jj_mm_aaaa.to_owned(),
    }
}

} // verus!
