use artichoke_backend::offset::{
    offset_hhmm_from_seconds, Offset, TimeError, MAX_OFFSET_SECONDS, MIN_OFFSET_SECONDS,
};
use tz::timezone::{LocalTimeType, TimeZone, Transition};

fn offset_seconds_from_fixed_offset(input: &str) -> Result<i32, TimeError> {
    let offset = Offset::try_from(input)?;
    let local_time_type = offset.time_zone_ref().local_time_types()[0];
    Ok(local_time_type.ut_offset())
}

fn fixed_offset_name(offset_seconds: i32) -> Result<String, TimeError> {
    let offset = Offset::fixed(offset_seconds)?;
    let local_time_type = offset.time_zone_ref().local_time_types()[0];
    Ok(local_time_type.time_zone_designation().to_string())
}

#[test]
fn fixed_zero_is_not_utc() {
    let offset = Offset::try_from(0).unwrap();
    assert!(!offset.is_utc());
}

#[test]
fn utc_is_utc() {
    let offset = Offset::utc();
    assert!(offset.is_utc());
}

#[test]
fn z_is_utc() {
    let offset = Offset::try_from("Z").unwrap();
    assert!(offset.is_utc());
}

#[test]
fn from_binary_string() {
    let tz: &[u8] = b"Z";
    let offset = Offset::try_from(tz).unwrap();
    assert!(offset.is_utc());
}

#[test]
fn from_str_hh_mm() {
    assert_eq!(Some(0), offset_seconds_from_fixed_offset("+0000").ok());
    assert_eq!(Some(0), offset_seconds_from_fixed_offset("-0000").ok());
    assert_eq!(Some(60), offset_seconds_from_fixed_offset("+0001").ok());
    assert_eq!(Some(-60), offset_seconds_from_fixed_offset("-0001").ok());
    assert_eq!(Some(3600), offset_seconds_from_fixed_offset("+0100").ok());
    assert_eq!(Some(-3600), offset_seconds_from_fixed_offset("-0100").ok());
    assert_eq!(Some(7320), offset_seconds_from_fixed_offset("+0202").ok());
    assert_eq!(Some(-7320), offset_seconds_from_fixed_offset("-0202").ok());

    assert!(matches!(
        offset_seconds_from_fixed_offset("+2400").unwrap_err(),
        TimeError::TzOutOfRangeError(_)
    ));

    assert!(matches!(
        offset_seconds_from_fixed_offset("-2400").unwrap_err(),
        TimeError::TzOutOfRangeError(_)
    ));

    assert!(matches!(
        offset_seconds_from_fixed_offset("+0060").unwrap_err(),
        TimeError::TzOutOfRangeError(_)
    ));

    assert!(matches!(
        offset_seconds_from_fixed_offset("-0060").unwrap_err(),
        TimeError::TzOutOfRangeError(_)
    ));
}

#[test]
fn from_str_hh_colon_mm() {
    assert_eq!(Some(0), offset_seconds_from_fixed_offset("+00:00").ok());
    assert_eq!(Some(0), offset_seconds_from_fixed_offset("-00:00").ok());
    assert_eq!(Some(60), offset_seconds_from_fixed_offset("+00:01").ok());
    assert_eq!(Some(-60), offset_seconds_from_fixed_offset("-00:01").ok());
    assert_eq!(Some(3600), offset_seconds_from_fixed_offset("+01:00").ok());
    assert_eq!(Some(-3600), offset_seconds_from_fixed_offset("-01:00").ok());
    assert_eq!(Some(7320), offset_seconds_from_fixed_offset("+02:02").ok());
    assert_eq!(Some(-7320), offset_seconds_from_fixed_offset("-02:02").ok());

    assert!(matches!(
        offset_seconds_from_fixed_offset("+24:00").unwrap_err(),
        TimeError::TzOutOfRangeError(_)
    ));

    assert!(matches!(
        offset_seconds_from_fixed_offset("-24:00").unwrap_err(),
        TimeError::TzOutOfRangeError(_)
    ));

    assert!(matches!(
        offset_seconds_from_fixed_offset("+00:60").unwrap_err(),
        TimeError::TzOutOfRangeError(_)
    ));

    assert!(matches!(
        offset_seconds_from_fixed_offset("-00:60").unwrap_err(),
        TimeError::TzOutOfRangeError(_)
    ));
}

#[test]
fn from_str_invalid_fixed_strings() {
    let invalid_fixed_strings = [
        "+01:010", "+010:10", "+010:010", "0110", "01:10", "01-10", "+01-10", "+01::10",
    ];

    for invalid_string in invalid_fixed_strings {
        assert!(
            matches!(
                Offset::try_from(invalid_string).unwrap_err(),
                TimeError::TzStringError(_)
            ),
            "Expected TimeError::TzStringError for {}",
            invalid_string,
        );
    }
}

#[test]
fn from_str_non_ascii_numeral_fixed_strings() {
    // `+`, Devanagari 1, Devanagari 0, Kannada 3, and Kannada 6: numerals of
    // the Unicode class `Nd` that are no ASCII digits.
    let offset = "+१०:೩೬";
    assert!(matches!(
        offset_seconds_from_fixed_offset(offset).unwrap_err(),
        TimeError::TzStringError(_)
    ));
}

#[test]
fn from_str_fixed_strings_with_newlines() {
    assert!(matches!(
        offset_seconds_from_fixed_offset("+10:00\n+11:00").unwrap_err(),
        TimeError::TzStringError(_)
    ));
    assert!(matches!(
        offset_seconds_from_fixed_offset("+10:00\n").unwrap_err(),
        TimeError::TzStringError(_)
    ));
    assert!(matches!(
        offset_seconds_from_fixed_offset("\n+10:00").unwrap_err(),
        TimeError::TzStringError(_)
    ));
}

#[test]
fn fixed_time_zone_designation() {
    assert_eq!("+0000", fixed_offset_name(0).unwrap());
    assert_eq!("+0000", fixed_offset_name(59).unwrap());
    assert_eq!("+0001", fixed_offset_name(60).unwrap());
    assert_eq!("-0001", fixed_offset_name(-60).unwrap());
    assert_eq!("+0100", fixed_offset_name(3600).unwrap());
    assert_eq!("-0100", fixed_offset_name(-3600).unwrap());
    assert_eq!("+0202", fixed_offset_name(7320).unwrap());
    assert_eq!("-0202", fixed_offset_name(-7320).unwrap());

    assert_eq!("+2359", fixed_offset_name(MAX_OFFSET_SECONDS).unwrap());
    assert_eq!("-2359", fixed_offset_name(MIN_OFFSET_SECONDS).unwrap());

    assert!(matches!(
        fixed_offset_name(MAX_OFFSET_SECONDS + 1).unwrap_err(),
        TimeError::TzOutOfRangeError(_)
    ));

    assert!(matches!(
        fixed_offset_name(MIN_OFFSET_SECONDS - 1).unwrap_err(),
        TimeError::TzOutOfRangeError(_)
    ));
}

#[test]
fn hhmm_text_of_offsets() {
    assert_eq!(offset_hhmm_from_seconds(0), "+0000");
    assert_eq!(offset_hhmm_from_seconds(-1), "-0000");
    assert_eq!(offset_hhmm_from_seconds(7320), "+0202");
    assert_eq!(offset_hhmm_from_seconds(-7379), "-0202");
    assert_eq!(offset_hhmm_from_seconds(86399), "+2359");
    // Beyond a day the hours take the digits they need.
    assert_eq!(offset_hhmm_from_seconds(360_000), "+10000");
    assert_eq!(offset_hhmm_from_seconds(i32::MAX), "+59652314");
    assert_eq!(offset_hhmm_from_seconds(-i32::MAX), "-59652314");
}

#[test]
fn military_letters() {
    let east = [
        ("A", 1), ("B", 2), ("C", 3), ("D", 4), ("E", 5), ("F", 6), ("G", 7), ("H", 8), ("I", 9),
        ("K", 10), ("L", 11), ("M", 12),
    ];
    for (letter, hours) in east {
        assert_eq!(offset_seconds_from_fixed_offset(letter).ok(), Some(hours * 3600));
    }
    let west = [
        ("N", 1), ("O", 2), ("P", 3), ("Q", 4), ("R", 5), ("S", 6), ("T", 7), ("U", 8), ("V", 9),
        ("W", 10), ("X", 11), ("Y", 12),
    ];
    for (letter, hours) in west {
        assert_eq!(offset_seconds_from_fixed_offset(letter).ok(), Some(-hours * 3600));
    }
    assert!(matches!(Offset::try_from("J").unwrap_err(), TimeError::TzStringError(_)));
    assert!(matches!(Offset::try_from("a").unwrap_err(), TimeError::TzStringError(_)));
    assert!(matches!(Offset::try_from("").unwrap_err(), TimeError::TzStringError(_)));
    assert!(Offset::try_from("UTC").unwrap().is_utc());
    assert!(Offset::try_from(String::from("Z")).unwrap().is_utc());
    assert!(matches!(Offset::try_from("utc").unwrap_err(), TimeError::TzStringError(_)));
}

#[test]
fn fixed_offsets_keep_their_seconds_and_are_not_utc() {
    for seconds in [MIN_OFFSET_SECONDS, -3601, -1, 0, 1, 59, 60, 3599, 45_296, MAX_OFFSET_SECONDS] {
        let offset = Offset::fixed(seconds).unwrap();
        assert!(!offset.is_utc());
        let local = offset.time_zone_ref().local_time_types()[0];
        assert_eq!(local.ut_offset(), seconds);
        assert!(!local.is_dst());
        assert_eq!(local.time_zone_designation(), offset_hhmm_from_seconds(seconds));
    }
    assert!(matches!(Offset::fixed(i32::MIN).unwrap_err(), TimeError::TzOutOfRangeError(_)));
    assert!(matches!(Offset::fixed(i32::MAX).unwrap_err(), TimeError::TzOutOfRangeError(_)));
}

#[test]
fn time_zone_offsets_hand_their_zone_back() {
    let zone = tzdb::time_zone::europe::KYIV;
    let offset = Offset::from(zone);
    assert!(!offset.is_utc());
    assert_eq!(offset.time_zone_ref(), zone);
    assert_eq!(Offset::tz(zone), offset);
    assert_eq!(Offset::utc().time_zone_ref(), tz::timezone::TimeZoneRef::utc());
}

#[test]
fn offset_grammar_agrees_with_the_pattern() {
    let pattern = regex::Regex::new(r"^([\-\+]{1})([[:digit:]]{2}):?([[:digit:]]{2})$").unwrap();
    let alphabet = ['+', '-', '0', '1', '2', '5', '9', ':', ' ', 'a', '\n'];
    let mut inputs = vec![String::new()];
    let mut frontier = vec![String::new()];
    for _ in 0..4 {
        let mut next = Vec::new();
        for prefix in &frontier {
            for c in alphabet {
                let mut s = prefix.clone();
                s.push(c);
                next.push(s);
            }
        }
        inputs.extend(next.iter().cloned());
        frontier = next;
    }
    for head in ["+12", "-05", "+1", "+123", "12", "+0:"] {
        for tail in ["30", ":30", ":3", "3", ":300", "::30", ":60", "99", ":59\n", "5a"] {
            inputs.push(format!("{head}{tail}"));
        }
    }
    for input in inputs {
        if input.len() == 1 || input == "UTC" {
            continue;
        }
        let parsed = Offset::try_from(input.as_str());
        match pattern.captures(&input) {
            None => assert!(
                matches!(parsed, Err(TimeError::TzStringError(_))),
                "{input:?} does not match the pattern"
            ),
            Some(caps) => {
                let sign = if &caps[1] == "+" { 1 } else { -1 };
                let hours = caps[2].parse::<i32>().unwrap();
                let minutes = caps[3].parse::<i32>().unwrap();
                if hours <= 23 && minutes <= 59 {
                    let offset = parsed.unwrap();
                    let local = offset.time_zone_ref().local_time_types()[0];
                    assert_eq!(local.ut_offset(), sign * (hours * 3600 + minutes * 60));
                } else {
                    assert!(matches!(parsed, Err(TimeError::TzOutOfRangeError(_))));
                }
            }
        }
    }
}

#[test]
fn zone_without_a_rule_has_no_local_time_after_its_last_transition() {
    let local_time_types = vec![
        LocalTimeType::new(0, false, None).unwrap(),
        LocalTimeType::new(3600, false, None).unwrap(),
    ];
    let zone = TimeZone::new(
        vec![Transition::new(0, 1), Transition::new(86400, 1)],
        local_time_types,
        vec![],
        None,
    )
    .unwrap();
    let zone: &'static TimeZone = Box::leak(Box::new(zone));
    let offset = Offset::from(zone.as_ref());
    assert!(!offset.is_utc());
    let kept = offset.time_zone_ref();
    assert_eq!(kept, zone.as_ref());
    // Noon of the second day of 1970 lies after the last transition.
    let noon = 86400 + 12 * 3600;
    assert!(kept.find_local_time_type(noon).is_err());
    assert_eq!(kept.find_local_time_type(3600).unwrap().ut_offset(), 3600);
}

#[test]
fn local_offset_falls_back_to_gmt() {
    let fallback = Offset::local_or_gmt(None);
    assert!(!fallback.is_utc());
    assert_eq!(fallback.time_zone_ref(), tzdb::time_zone::etc::GMT);
    assert_eq!(fallback.time_zone_ref().local_time_types()[0].time_zone_designation(), "GMT");
    let zone = tzdb::time_zone::asia::TOKYO;
    assert_eq!(Offset::local_or_gmt(Some(zone)), Offset::tz(zone));
}
