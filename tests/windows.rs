use monthey::{Date, Day, DayOfMonth, MontheyBuilder};
use monthey::window::get_to_date;

fn date(y: i32, m: u32, d: u32) -> Date {
    Date::new(y, m, d).unwrap()
}

#[test]
fn january_2024_has_five_mondays() {
    let result = MontheyBuilder::from_date(date(2024, 1, 1))
        .check_day(Day::Monday)
        .between_date(DayOfMonth::FirstOfMonth)
        .unwrap()
        .for_months(1);
    assert_eq!(result.months.len(), 1);
    let w = &result.months[0];
    assert_eq!(w.from, date(2024, 1, 1));
    assert_eq!(w.to, date(2024, 1, 31));
    assert_eq!(w.days, vec![(Day::Monday, 5)]);
}

#[test]
fn nth_day_ten_window_from_february() {
    let result = MontheyBuilder::from_date(date(2024, 2, 1))
        .between_date(DayOfMonth::NthDay(10))
        .unwrap()
        .for_months(1);
    assert_eq!(result.months.len(), 1);
    assert_eq!(result.months[0].from, date(2024, 2, 10));
    assert_eq!(result.months[0].to, date(2024, 3, 9));
}

#[test]
fn zero_months_gives_no_windows() {
    let result = MontheyBuilder::from_date(date(2024, 5, 17))
        .check_day(Day::Friday)
        .for_months(0);
    assert!(result.months.is_empty());
}

#[test]
fn no_watched_weekday_gives_empty_tallies() {
    let result = MontheyBuilder::from_date(date(2023, 11, 3)).for_months(4);
    assert_eq!(result.months.len(), 4);
    for w in result.months.iter() {
        assert!(w.days.is_empty());
    }
}

#[test]
fn windows_follow_each_other() {
    let result = MontheyBuilder::from_date(date(2023, 12, 20))
        .check_day(Day::Sunday)
        .check_day(Day::Wednesday)
        .check_day(Day::Sunday)
        .between_date(DayOfMonth::NthDay(15))
        .unwrap()
        .for_months(3);
    let m = &result.months;
    assert_eq!(m.len(), 3);
    assert_eq!((m[0].from, m[0].to), (date(2023, 12, 15), date(2024, 1, 14)));
    assert_eq!((m[1].from, m[1].to), (date(2024, 1, 15), date(2024, 2, 14)));
    assert_eq!((m[2].from, m[2].to), (date(2024, 2, 15), date(2024, 3, 14)));
    // 2023-12-15 .. 2024-01-14: Sundays 17, 24, 31, 7, 14; Wednesdays 20, 27, 3, 10.
    let mut first = m[0].days.clone();
    first.sort();
    assert_eq!(first, vec![(Day::Wednesday, 4), (Day::Sunday, 5)]);
    // 2024-02-15 .. 2024-03-14: Sundays 18, 25, 3, 10; Wednesdays 21, 28, 6, 13.
    let mut third = m[2].days.clone();
    third.sort();
    assert_eq!(third, vec![(Day::Wednesday, 4), (Day::Sunday, 4)]);
}

#[test]
fn calendar_months_across_a_year_end() {
    let result = MontheyBuilder::from_date(date(2024, 11, 23))
        .check_day(Day::Saturday)
        .for_months(3);
    let m = &result.months;
    assert_eq!((m[0].from, m[0].to), (date(2024, 11, 1), date(2024, 11, 30)));
    assert_eq!((m[1].from, m[1].to), (date(2024, 12, 1), date(2024, 12, 31)));
    assert_eq!((m[2].from, m[2].to), (date(2025, 1, 1), date(2025, 1, 31)));
    assert_eq!(m[0].days, vec![(Day::Saturday, 5)]);
    assert_eq!(m[1].days, vec![(Day::Saturday, 4)]);
    assert_eq!(m[2].days, vec![(Day::Saturday, 4)]);
}

#[test]
fn first_of_month_ends_on_month_length() {
    let cases = [
        (2024, 2, 29),
        (2023, 2, 28),
        (1900, 2, 28),
        (2000, 2, 29),
        (2024, 4, 30),
        (2024, 12, 31),
        (2023, 1, 31),
    ];
    for (y, m, len) in cases {
        let end = get_to_date(date(y, m, 1), &DayOfMonth::FirstOfMonth);
        assert_eq!(end, date(y, m, len));
        let end_mid = get_to_date(date(y, m, 13), &DayOfMonth::FirstOfMonth);
        assert_eq!(end_mid, date(y, m, len));
        assert_eq!(date(y, m, 9).last_of_month(), date(y, m, len));
    }
}

#[test]
fn nth_day_end_before_two_months_on() {
    for n in 1..=28u32 {
        for (y, m, d) in [(2024, 1, 31), (2023, 12, 5), (2024, 2, 29), (2023, 6, 28), (2023, 3, 1)] {
            let from = date(y, m, d);
            let to = get_to_date(from, &DayOfMonth::NthDay(n));
            let key = |x: Date| (x.year(), x.month(), x.day());
            assert!(key(to) >= key(from));
            let (y2, m2) = if m + 2 > 12 { (y + 1, m + 2 - 12) } else { (y, m + 2) };
            assert!(key(to) < (y2, m2, 1));
        }
    }
}

#[test]
fn nth_day_one_ends_on_month_end() {
    assert_eq!(get_to_date(date(2024, 2, 1), &DayOfMonth::NthDay(1)), date(2024, 2, 29));
    assert_eq!(get_to_date(date(2023, 12, 1), &DayOfMonth::NthDay(1)), date(2023, 12, 31));
}

#[test]
fn from_this_month_starts_on_the_first() {
    let b = MontheyBuilder::from_this_month();
    assert_eq!(b.start_date().day(), 1);
    let result = b.check_day(Day::Tuesday).for_months(2);
    assert_eq!(result.months.len(), 2);
    assert_eq!(result.months[0].from.day(), 1);
}

#[test]
fn from_month_of_starts_on_that_months_first() {
    let b = MontheyBuilder::from_month_of(date(2024, 7, 19));
    assert_eq!(b.start_date(), date(2024, 7, 1));
    let result = b.check_day(Day::Monday).for_months(1);
    assert_eq!(result.months[0].from, date(2024, 7, 1));
    assert_eq!(result.months[0].to, date(2024, 7, 31));
    assert_eq!(result.months[0].days, vec![(Day::Monday, 5)]);
}

#[test]
fn windows_reach_the_last_supported_year() {
    let result = MontheyBuilder::from_date(date(262142, 12, 3)).for_months(0);
    assert!(result.months.is_empty());
    let result = MontheyBuilder::from_date(date(262142, 10, 3))
        .between_date(DayOfMonth::NthDay(5))
        .unwrap()
        .for_months(2);
    assert_eq!((result.months[0].from, result.months[0].to), (date(262142, 10, 5), date(262142, 11, 4)));
    assert_eq!((result.months[1].from, result.months[1].to), (date(262142, 11, 5), date(262142, 12, 4)));
}
