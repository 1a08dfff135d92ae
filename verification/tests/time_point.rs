use work_tuimer::models::time_point::{
    char_of_digit, digit_of, is_digit_char, FormatError, TimePoint, MINUTES_PER_DAY,
};

#[test]
fn new_accepts_times_of_the_day() {
    assert_eq!(TimePoint::new(0, 0), Ok(TimePoint { hour: 0, minute: 0 }));
    assert_eq!(TimePoint::new(23, 59), Ok(TimePoint { hour: 23, minute: 59 }));
    assert_eq!(TimePoint::new(9, 5), Ok(TimePoint { hour: 9, minute: 5 }));
}

#[test]
fn new_rejects_hour_or_minute_out_of_range() {
    assert_eq!(TimePoint::new(24, 0), Err(FormatError::OutOfRange));
    assert_eq!(TimePoint::new(0, 60), Err(FormatError::OutOfRange));
    assert_eq!(TimePoint::new(255, 255), Err(FormatError::OutOfRange));
}

#[test]
fn minutes_since_midnight_both_ways() {
    assert_eq!(MINUTES_PER_DAY, 1440);
    let t = TimePoint::new(17, 30).unwrap();
    assert_eq!(t.to_minutes_since_midnight(), 1050);
    assert_eq!(TimePoint::from_minutes_since_midnight(1050), Ok(t));
    assert_eq!(
        TimePoint::from_minutes_since_midnight(0),
        Ok(TimePoint { hour: 0, minute: 0 })
    );
    assert_eq!(
        TimePoint::from_minutes_since_midnight(1439),
        Ok(TimePoint { hour: 23, minute: 59 })
    );
    assert_eq!(
        TimePoint::from_minutes_since_midnight(1440),
        Err(FormatError::OutOfRange)
    );
    assert_eq!(
        TimePoint::from_minutes_since_midnight(u32::MAX),
        Err(FormatError::OutOfRange)
    );
}

#[test]
fn every_minute_of_the_day_round_trips() {
    for minutes in 0..MINUTES_PER_DAY {
        let t = TimePoint::from_minutes_since_midnight(minutes).unwrap();
        assert_eq!(t.to_minutes_since_midnight(), minutes);
        assert_eq!(TimePoint::parse(&t.to_string()), Ok(t));
    }
}

#[test]
fn parse_reads_zero_padded_text() {
    assert_eq!(TimePoint::parse("09:00"), Ok(TimePoint { hour: 9, minute: 0 }));
    assert_eq!(TimePoint::parse("10:30"), Ok(TimePoint { hour: 10, minute: 30 }));
    assert_eq!(TimePoint::parse("23:59"), Ok(TimePoint { hour: 23, minute: 59 }));
    assert_eq!(TimePoint::parse("00:00"), Ok(TimePoint { hour: 0, minute: 0 }));
}

#[test]
fn parse_rejects_wrong_length() {
    assert_eq!(TimePoint::parse(""), Err(FormatError::WrongLength));
    assert_eq!(TimePoint::parse("9:00"), Err(FormatError::WrongLength));
    assert_eq!(TimePoint::parse("09:000"), Err(FormatError::WrongLength));
    assert_eq!(TimePoint::parse(" 09:00"), Err(FormatError::WrongLength));
}

#[test]
fn parse_rejects_what_is_not_digits_and_a_colon() {
    assert_eq!(TimePoint::parse("ab:cd"), Err(FormatError::Malformed));
    assert_eq!(TimePoint::parse("09-00"), Err(FormatError::Malformed));
    assert_eq!(TimePoint::parse("09000"), Err(FormatError::Malformed));
    assert_eq!(TimePoint::parse("+9:00"), Err(FormatError::Malformed));
    assert_eq!(TimePoint::parse("0९:00"), Err(FormatError::Malformed));
}

#[test]
fn parse_rejects_out_of_range() {
    assert_eq!(TimePoint::parse("24:00"), Err(FormatError::OutOfRange));
    assert_eq!(TimePoint::parse("99:00"), Err(FormatError::OutOfRange));
    assert_eq!(TimePoint::parse("12:60"), Err(FormatError::OutOfRange));
    assert_eq!(TimePoint::parse("19:99"), Err(FormatError::OutOfRange));
}

#[test]
fn to_string_pads_with_zeros() {
    assert_eq!(TimePoint { hour: 9, minute: 0 }.to_string(), "09:00");
    assert_eq!(TimePoint { hour: 0, minute: 5 }.to_string(), "00:05");
    assert_eq!(TimePoint { hour: 23, minute: 59 }.to_string(), "23:59");
}

#[test]
fn digits_and_their_values() {
    assert!(is_digit_char('0'));
    assert!(is_digit_char('9'));
    assert!(!is_digit_char('a'));
    assert!(!is_digit_char(':'));
    assert!(!is_digit_char('/'));
    assert!(!is_digit_char('٣'));
    for d in 0..10u8 {
        assert_eq!(digit_of(char_of_digit(d)), d);
    }
    assert_eq!(char_of_digit(7), '7');
    assert_eq!(digit_of('3'), 3);
}
