use httpwm::clock::{format_time, parse_date, parse_time_seconds, weekday_of, day_number, time_in_day};
use httpwm::text::{format_decimal, parse_decimal};
use httpwm::{parse_time, weekday_to_lowercase_str, Strength, TimeOfDay, Weekday, ONE};

#[test]
fn weekday_cycle() {
    assert_eq!(Weekday::Mon.succ(), Weekday::Tue);
    assert_eq!(Weekday::Sun.succ(), Weekday::Mon);
    assert_eq!(Weekday::Mon.pred(), Weekday::Sun);
    assert_eq!(Weekday::Thu.pred(), Weekday::Wed);
    let mut d = Weekday::Wed;
    for _ in 0..7 {
        d = d.succ();
    }
    assert_eq!(d, Weekday::Wed);
    assert_eq!(Weekday::Fri.succ().pred(), Weekday::Fri);
}

#[test]
fn weekday_names() {
    assert_eq!(weekday_to_lowercase_str(&Weekday::Mon), "mon");
    assert_eq!(weekday_to_lowercase_str(&Weekday::Sun), "sun");
    assert_eq!(Weekday::from_name("sat"), Some(Weekday::Sat));
    assert_eq!(Weekday::from_name("Sat"), None);
    assert_eq!(Weekday::from_name("saturday"), None);
    assert_eq!("tue".parse::<Weekday>(), Ok(Weekday::Tue));
    assert_eq!("".parse::<Weekday>(), Err(()));
}

#[test]
fn strength_clamps() {
    assert_eq!(Strength::new_clamped(-5).into_inner(), 0);
    assert_eq!(Strength::new_clamped(2_000_000_000).into_inner(), ONE);
    assert_eq!(Strength::new_clamped(400_000_000).into_inner(), 400_000_000);
    assert_eq!(Strength::new(ONE).into_inner(), ONE);
    assert!(Strength::new(0).is_off());
    assert!(!Strength::new(1).is_off());
}

#[test]
fn times_of_day_read_and_write() {
    let t = parse_time("07:05:09").unwrap();
    assert_eq!((t.hour, t.minute, t.second), (7, 5, 9));
    let t = parse_time("23:59").unwrap();
    assert_eq!((t.hour, t.minute, t.second), (23, 59, 0));
    assert_eq!(parse_time("24:00"), None);
    assert_eq!(parse_time("7:05"), None);
    assert_eq!(parse_time("07:60:00"), None);
    assert_eq!(parse_time("07-05-00"), None);
    assert_eq!(parse_time_seconds("07:05"), None);
    assert_eq!(format_time(&TimeOfDay::from_hms(6, 45, 0).unwrap()), "06:45:00");
    assert_eq!(TimeOfDay::from_hms(24, 0, 0), None);
    assert_eq!(TimeOfDay::from_hms(6, 45, 30).unwrap().millis(), 24_330_000);
}

#[test]
fn moments_split_into_days() {
    assert_eq!(day_number(0), 0);
    assert_eq!(day_number(-1), -1);
    assert_eq!(time_in_day(-1), 86_399_999);
    assert_eq!(weekday_of(0), Weekday::Thu);
    assert_eq!(weekday_of(4 * 86_400_000 + 1), Weekday::Mon);
    assert_eq!(weekday_of(-1), Weekday::Wed);
}

#[test]
fn calendar_dates_read() {
    assert_eq!(parse_date("1970-01-01"), Some(0));
    assert_eq!(parse_date("2024-03-01"), Some(19_783));
    assert_eq!(parse_date("2000-01-01"), Some(10_957));
    assert_eq!(parse_date("2023-02-29"), None);
    assert_eq!(parse_date("2024-02-29"), Some(19_782));
    assert_eq!(parse_date("2024-13-01"), None);
    assert_eq!(parse_date("2024-1-01"), None);
}

#[test]
fn decimals_read_and_write() {
    assert_eq!(parse_decimal("0.5"), Some(500_000));
    assert_eq!(parse_decimal("2"), Some(2_000_000));
    assert_eq!(parse_decimal("12.000001"), Some(12_000_001));
    assert_eq!(parse_decimal("1.2345678"), None);
    assert_eq!(parse_decimal(".5"), None);
    assert_eq!(parse_decimal("5."), None);
    assert_eq!(parse_decimal("12345"), None);
    assert_eq!(format_decimal(500_000), "0.500000");
    assert_eq!(format_decimal(4_294_967_295), "4294.967295");
    assert_eq!(parse_decimal(&format_decimal(1_250_000)), Some(1_250_000));
}
