use greek_wordle::calendar::civil_date;

#[test]
fn four_hundred_years_later_is_the_same_date() {
    assert_eq!(civil_date(146_097), (2370, 1, 1));
    assert_eq!(civil_date(2_932_896), (9999, 12, 31));
}

#[test]
fn century_years_are_leap_only_every_fourth_time() {
    // 2000 is a leap year, 2100 is not.
    assert_eq!(civil_date(11_016), (2000, 2, 29));
    assert_eq!(civil_date(11_017), (2000, 3, 1));
    assert_eq!(civil_date(47_540), (2100, 2, 28));
    assert_eq!(civil_date(47_541), (2100, 3, 1));
}

#[test]
fn consecutive_days_are_consecutive_dates() {
    let mut prev = civil_date(0);
    for day in 1..3_000u64 {
        let (y, m, d) = civil_date(day);
        let (py, pm, pd) = prev;
        assert!(
            (y, m, d) == (py, pm, pd + 1) || (y, m, d) == (py, pm + 1, 1) || (y, m, d) == (py + 1, 1, 1),
            "day {day}"
        );
        prev = (y, m, d);
    }
}
