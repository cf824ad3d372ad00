use monthey::{Date, Day, DayOfMonth, Month, MontheyBuilder, NthDayExtension};

#[test]
fn first_token_parses_and_prints() {
    assert_eq!(DayOfMonth::from_str("first"), Ok(DayOfMonth::FirstOfMonth));
    assert_eq!(DayOfMonth::FirstOfMonth.to_string(), "first");
    assert_eq!(DayOfMonth::NthDay(5).to_string(), "5");
    assert_eq!(DayOfMonth::NthDay(28).to_string(), "28");
}

#[test]
fn numbered_tokens_parse() {
    assert_eq!(DayOfMonth::from_str("5"), Ok(DayOfMonth::NthDay(5)));
    assert_eq!(DayOfMonth::from_str("28"), Ok(DayOfMonth::NthDay(28)));
    assert_eq!(DayOfMonth::from_str("1"), Ok(DayOfMonth::NthDay(1)));
    assert_eq!(DayOfMonth::from_str("+7"), Ok(DayOfMonth::NthDay(7)));
    assert_eq!(DayOfMonth::from_str("007"), Ok(DayOfMonth::NthDay(7)));
    for n in 1..=28u32 {
        let p = DayOfMonth::NthDay(n);
        assert_eq!(DayOfMonth::from_str(&p.to_string()), Ok(p));
    }
}

#[test]
fn out_of_range_days_are_refused() {
    let msg29 = "Cannot go between 29. Highest date is 28th due to Feburary".to_string();
    assert_eq!(DayOfMonth::from_str("29"), Err(msg29.clone()));
    assert!(DayOfMonth::from_str("0").is_err());
    assert!(DayOfMonth::from_str("31").is_err());
    assert_eq!(DayOfMonth::nth_day(29), Err(msg29.clone()));
    assert_eq!(
        DayOfMonth::nth_day(0),
        Err("Cannot go between 0. Highest date is 28th due to Feburary".to_string())
    );
    assert_eq!(DayOfMonth::nth_day(28), Ok(DayOfMonth::NthDay(28)));
    assert_eq!(DayOfMonth::nth_day(1), Ok(DayOfMonth::NthDay(1)));
    let b = MontheyBuilder::from_date(Date::new(2024, 1, 1).unwrap());
    assert!(b.between_date(DayOfMonth::NthDay(29)).is_err());
    let b = MontheyBuilder::from_date(Date::new(2024, 1, 1).unwrap());
    assert!(b.between_date(DayOfMonth::NthDay(0)).is_err());
    let b = MontheyBuilder::from_date(Date::new(2024, 1, 1).unwrap());
    assert!(b.between_date(DayOfMonth::NthDay(28)).is_ok());
}

#[test]
fn bad_numbers_report_the_parse_error() {
    assert_eq!(
        DayOfMonth::from_str("abc"),
        Err("invalid digit found in string".to_string())
    );
    assert_eq!(
        DayOfMonth::from_str(""),
        Err("cannot parse integer from empty string".to_string())
    );
    assert_eq!(
        DayOfMonth::from_str("99999999999"),
        Err("number too large to fit in target type".to_string())
    );
    assert_eq!(
        DayOfMonth::from_str("First"),
        Err("invalid digit found in string".to_string())
    );
    assert!(DayOfMonth::from_str("-3").is_err());
}

#[test]
fn weekday_names_round_trip() {
    let all = [
        Day::Monday,
        Day::Tuesday,
        Day::Wednesday,
        Day::Thursday,
        Day::Friday,
        Day::Saturday,
        Day::Sunday,
    ];
    for d in all {
        assert_eq!(Day::from_str(&d.to_string()), Ok(d));
    }
    assert_eq!(Day::from_str("Wednesday"), Ok(Day::Wednesday));
    assert_eq!(Day::Wednesday.to_string(), "Wednesday");
    assert_eq!(Day::Wednesday.name(), "Wednesday");
}

#[test]
fn other_weekday_names_fail() {
    assert_eq!(
        Day::from_str("wednesday"),
        Err("wednesday is not a valid day".to_string())
    );
    assert!(Day::from_str("Wed").is_err());
    assert!(Day::from_str("").is_err());
    assert!(Day::from_str("Monday ").is_err());
}

#[test]
fn weekdays_are_ordered_from_monday() {
    assert!(Day::Monday < Day::Tuesday);
    assert!(Day::Saturday < Day::Sunday);
}

#[test]
fn month_numbers() {
    assert_eq!(Month::from_month_num(1), Ok(Month::January));
    assert_eq!(Month::from_month_num(2), Ok(Month::Feburary));
    assert_eq!(Month::from_month_num(12), Ok(Month::December));
    assert_eq!(
        Month::from_month_num(13),
        Err("13 is not a valid month number".to_string())
    );
    assert_eq!(
        Month::from_month_num(0),
        Err("0 is not a valid month number".to_string())
    );
    assert_eq!(Month::September.name(), "September");
}

#[test]
fn integers_make_numbered_days() {
    assert_eq!(5usize.nth(), DayOfMonth::NthDay(5));
    assert_eq!(12i32.nth(), DayOfMonth::NthDay(12));
}

#[test]
fn default_policy_is_first_of_month() {
    assert_eq!(DayOfMonth::default(), DayOfMonth::FirstOfMonth);
}

#[test]
fn dates_are_checked() {
    assert!(Date::new(2023, 2, 29).is_none());
    assert!(Date::new(2024, 2, 29).is_some());
    assert!(Date::new(2024, 13, 1).is_none());
    assert!(Date::new(2024, 4, 31).is_none());
    assert!(Date::new(2024, 4, 0).is_none());
    let d = Date::new(2024, 4, 30).unwrap();
    assert_eq!((d.year(), d.month(), d.day()), (2024, 4, 30));
    let e = Date::new(2024, 5, 1).unwrap();
    assert!(d.is_on_or_before(&e));
    assert!(!e.is_on_or_before(&d));
    assert!(d.is_on_or_before(&d));
}
