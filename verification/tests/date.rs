use mini_http::utils::date::{current_date, date_at, LAST_SECOND};

const FIRST_DATE: &str = "Thu, 1 Jan 1970 00:00:00 +0000";

fn has_the_form_of_a_date(date: &str) -> bool {
    (date.len() == 30 || date.len() == 31)
        && date.chars().all(|c| c.is_ascii_alphanumeric() || " ,:+".contains(c))
        && date.ends_with(" +0000")
}

#[test]
fn dates_of_given_instants() {
    assert_eq!(date_at(Some(0)), FIRST_DATE);
    assert_eq!(date_at(Some(1)), "Thu, 1 Jan 1970 00:00:01 +0000");
    assert_eq!(date_at(Some(86_399)), "Thu, 1 Jan 1970 23:59:59 +0000");
    assert_eq!(date_at(Some(86_400)), "Fri, 2 Jan 1970 00:00:00 +0000");
    assert_eq!(date_at(Some(1_057_056_757)), "Tue, 1 Jul 2003 10:52:37 +0000");
    assert_eq!(date_at(Some(1_793_149_200)), "Wed, 28 Oct 2026 01:00:00 +0000");
    assert_eq!(date_at(Some(951_782_400)), "Tue, 29 Feb 2000 00:00:00 +0000");
}

#[test]
fn last_date_with_a_year_of_four_digits() {
    assert_eq!(LAST_SECOND, 253_402_300_799);
    assert_eq!(date_at(Some(LAST_SECOND)), "Fri, 31 Dec 9999 23:59:59 +0000");
}

#[test]
fn clock_out_of_range_stamps_the_first_date() {
    assert_eq!(date_at(None), FIRST_DATE);
    assert_eq!(date_at(Some(LAST_SECOND + 1)), FIRST_DATE);
    assert_eq!(date_at(Some(i64::MAX as u64)), FIRST_DATE);
    assert_eq!(date_at(Some(i64::MAX as u64 + 1)), FIRST_DATE);
    assert_eq!(date_at(Some(u64::MAX)), FIRST_DATE);
}

#[test]
fn every_date_has_the_form() {
    let mut seconds: u64 = 0;
    while seconds <= LAST_SECOND {
        let date = date_at(Some(seconds));
        assert!(has_the_form_of_a_date(&date), "{:?} at {}", date, seconds);
        seconds += 40_000_000_019;
    }
    for days in 0..800u64 {
        let date = date_at(Some(days * 86_400 + days));
        assert!(has_the_form_of_a_date(&date), "{:?}", date);
    }
}

#[test]
fn current_date_has_the_form() {
    let date = current_date();
    assert!(has_the_form_of_a_date(&date), "{:?}", date);
    assert_ne!(date, FIRST_DATE);
}
