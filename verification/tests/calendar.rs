use panels::calendar::{leap_year, month_length, CalendarDate};

fn day(year: i32, month: u32, day: u32) -> CalendarDate {
    CalendarDate { year, month, day }
}

#[test]
fn leap_years_follow_the_gregorian_rule() {
    assert!(leap_year(2000));
    assert!(leap_year(2024));
    assert!(!leap_year(1900));
    assert!(!leap_year(2023));
    assert!(leap_year(0));
    assert!(leap_year(-4));
    assert!(!leap_year(-100));
    assert!(leap_year(-400));
}

#[test]
fn months_have_their_lengths() {
    assert_eq!(month_length(2023, 1), 31);
    assert_eq!(month_length(2023, 2), 28);
    assert_eq!(month_length(2024, 2), 29);
    assert_eq!(month_length(2023, 4), 30);
    assert_eq!(month_length(2023, 12), 31);
}

#[test]
fn the_day_after_crosses_months_and_years() {
    assert_eq!(day(2023, 3, 12).succ(), day(2023, 3, 13));
    assert_eq!(day(2023, 2, 28).succ(), day(2023, 3, 1));
    assert_eq!(day(2024, 2, 28).succ(), day(2024, 2, 29));
    assert_eq!(day(2023, 12, 31).succ(), day(2024, 1, 1));
}

#[test]
fn the_day_before_crosses_months_and_years() {
    assert_eq!(day(1989, 4, 16).pred(), day(1989, 4, 15));
    assert_eq!(day(2023, 3, 1).pred(), day(2023, 2, 28));
    assert_eq!(day(2024, 3, 1).pred(), day(2024, 2, 29));
    assert_eq!(day(2024, 1, 1).pred(), day(2023, 12, 31));
}

#[test]
fn days_are_ordered_by_year_month_day() {
    assert!(day(1989, 4, 16).is_before(&day(2023, 3, 12)));
    assert!(day(2023, 2, 28).is_before(&day(2023, 3, 1)));
    assert!(!day(2023, 3, 1).is_before(&day(2023, 3, 1)));
    assert!(day(2000, 1, 1).is_within(&day(1989, 4, 16), &day(2023, 3, 12)));
    assert!(day(1989, 4, 16).is_within(&day(1989, 4, 16), &day(2023, 3, 12)));
    assert!(!day(2023, 3, 13).is_within(&day(1989, 4, 16), &day(2023, 3, 12)));
}

#[test]
fn dates_are_written_with_leading_zeros() {
    assert_eq!(day(2023, 3, 2).iso_text(), "2023-03-02");
    assert_eq!(day(989, 12, 31).iso_text(), "0989-12-31");
    assert_eq!(day(0, 1, 1).iso_text(), "0000-01-01");
    assert_eq!(day(9999, 12, 31).iso_text(), "9999-12-31");
    assert_eq!(day(10000, 1, 1).iso_text(), "+10000-01-01");
    assert_eq!(day(12345, 1, 1).iso_text(), "+12345-01-01");
    assert_eq!(day(-1, 12, 31).iso_text(), "-0001-12-31");
    assert_eq!(day(-12345, 2, 3).iso_text(), "-12345-02-03");
}

#[test]
fn the_run_of_the_strip_counts_12383_days() {
    assert_eq!(day(1989, 4, 16).plus_days(0), day(1989, 4, 16));
    assert_eq!(day(1989, 4, 16).plus_days(12383), day(2023, 3, 12));
    assert_eq!(day(2023, 12, 31).plus_days(366), day(2024, 12, 31));
}

#[test]
fn days_are_counted_back_as_well() {
    assert_eq!(day(2023, 3, 12).minus_days(0), day(2023, 3, 12));
    assert_eq!(day(2023, 3, 12).minus_days(12383), day(1989, 4, 16));
    assert_eq!(day(2024, 3, 1).minus_days(1), day(2024, 2, 29));
    assert_eq!(day(2024, 12, 31).minus_days(366), day(2023, 12, 31));
    assert_eq!(day(1, 1, 1).minus_days(1), day(0, 12, 31));
}
