use autorisation::domain::calendar::CivilDate;
use autorisation::domain::form::{AutorisationForm, ValidationError};
use autorisation::domain::format::{human_date_fr, month_name};

fn accepted(s: &str) -> bool {
    AutorisationForm::check_date_format(s).is_ok()
}

#[test]
fn leap_days() {
    assert!(accepted("29/02/2024"));
    assert!(!accepted("29/02/2025"));
    assert!(!accepted("31/02/2025"));
    assert!(accepted("29/02/2000"));
    assert!(!accepted("29/02/1900"));
    assert!(!accepted("29/02/2100"));
    assert!(accepted("28/02/2100"));
    assert!(!accepted("30/02/2024"));
}

#[test]
fn month_lengths() {
    assert!(accepted("31/01/2025"));
    assert!(accepted("30/04/2025"));
    assert!(!accepted("31/04/2025"));
    assert!(!accepted("31/06/2025"));
    assert!(!accepted("31/09/2025"));
    assert!(!accepted("31/11/2025"));
    assert!(accepted("31/12/2025"));
    assert!(!accepted("32/12/2025"));
}

#[test]
fn no_day_zero_and_no_month_thirteen() {
    assert!(!accepted("00/01/2025"));
    assert!(!accepted("0/1/2025"));
    assert!(!accepted("01/00/2025"));
    assert!(!accepted("01/13/2025"));
    assert!(!accepted("01/99/2025"));
}

#[test]
fn one_digit_day_and_month() {
    assert!(accepted("1/1/2025"));
    assert!(accepted("5/09/2025"));
    assert!(accepted("05/9/2025"));
}

#[test]
fn year_has_four_digits() {
    assert!(accepted("01/01/0000"));
    assert!(accepted("01/01/9999"));
    assert!(accepted("29/02/0000"));
    assert!(!accepted("01/01/25"));
    assert!(!accepted("01/01/025"));
    assert!(!accepted("01/01/02025"));
    assert!(!accepted("01/01/"));
}

#[test]
fn only_digits_and_two_slashes() {
    assert!(!accepted(""));
    assert!(!accepted("25092025"));
    assert!(!accepted("25/09"));
    assert!(!accepted("25/09/2025/"));
    assert!(!accepted("25/09/2025/01"));
    assert!(!accepted("/09/2025"));
    assert!(!accepted("25//2025"));
    assert!(!accepted("025/09/2025"));
    assert!(!accepted("25/009/2025"));
    assert!(!accepted(" 25/09/2025"));
    assert!(!accepted("25/09/2025 "));
    assert!(!accepted("+5/09/2025"));
    assert!(!accepted("25/09/-025"));
    assert!(!accepted("25-09-2025"));
    assert!(!accepted("2a/09/2025"));
    assert!(!accepted("٢٥/09/2025"));
}

#[test]
fn refusal_names_the_date() {
    assert_eq!(
        AutorisationForm::check_date_format("31/02/2025"),
        Err(ValidationError::InvalidDate)
    );
    assert_eq!(AutorisationForm::check_date_format("25/09/2025"), Ok(()));
}

#[test]
fn every_triple_agrees_with_the_calendar() {
    let years = [0, 1, 4, 100, 400, 1582, 1900, 1999, 2000, 2023, 2024, 2025, 2100, 9999];
    for year in years {
        for month in 0u8..=99 {
            for day in 0u8..=99 {
                let text = format!("{:02}/{:02}/{:04}", day, month, year);
                let real = match time::Month::try_from(month) {
                    Ok(m) => time::Date::from_calendar_date(year, m, day).is_ok(),
                    Err(_) => false,
                };
                assert_eq!(accepted(&text), real, "{}", text);
                let expected_days = match month {
                    2 => {
                        if year % 4 == 0 && (year % 100 != 0 || year % 400 == 0) {
                            29
                        } else {
                            28
                        }
                    }
                    4 | 6 | 9 | 11 => 30,
                    1..=12 => 31,
                    _ => 0,
                };
                assert_eq!(real, 1 <= day && day <= expected_days, "{}", text);
            }
        }
    }
}

#[test]
fn parsed_date_has_its_numbers() {
    let d = CivilDate::parse("5/9/2025").expect("a day of the calendar");
    assert_eq!((d.day(), d.month(), d.year()), (5, 9, 2025));
    let d = CivilDate::parse("29/02/0004").expect("a day of the calendar");
    assert_eq!((d.day(), d.month(), d.year()), (29, 2, 4));
    assert!(CivilDate::parse("29/02/0005").is_none());
}

#[test]
fn long_form() {
    assert_eq!(human_date_fr("25/09/2025"), "25 septembre 2025");
    assert_eq!(human_date_fr("5/9/2025"), "05 septembre 2025");
    assert_eq!(human_date_fr("01/01/0044"), "01 janvier 0044");
    assert_eq!(human_date_fr("29/02/2024"), "29 février 2024");
    assert_eq!(human_date_fr("15/08/1999"), "15 août 1999");
    assert_eq!(human_date_fr("31/12/9999"), "31 décembre 9999");
    let d = CivilDate::parse("14/07/1789").expect("a day of the calendar");
    assert_eq!(d.to_long_form_fr(), "14 juillet 1789");
}

#[test]
fn long_form_of_no_date_is_the_text_itself() {
    assert_eq!(human_date_fr("31/02/2025"), "31/02/2025");
    assert_eq!(human_date_fr("demain"), "demain");
    assert_eq!(human_date_fr(""), "");
    assert_eq!(human_date_fr("25/09"), "25/09");
}

#[test]
fn month_names() {
    let names = [
        "janvier",
        "février",
        "mars",
        "avril",
        "mai",
        "juin",
        "juillet",
        "août",
        "septembre",
        "octobre",
        "novembre",
        "décembre",
    ];
    for (i, name) in names.iter().enumerate() {
        assert_eq!(month_name(i as u8 + 1), *name);
    }
    assert_eq!(month_name(0), "");
    assert_eq!(month_name(13), "");
}
