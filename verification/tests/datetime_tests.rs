use chrono::{NaiveDate, NaiveDateTime};
use testfixtures::{coerce, try_str_to_date, Datetime, FixtureValue, SqlParam};

fn dt(year: u16, month: u8, day: u8, hour: u8, minute: u8, second: u8) -> Datetime {
    Datetime { year, month, day, hour, minute, second }
}

#[test]
fn test_try_str_to_date() {
    struct Test {
        argument: String,
        want_err: bool,
    }
    let tests: [Test; 9] = [
        Test { argument: "2020-01-01 01:01:01".to_string(), want_err: false },
        Test { argument: "2020-01-01 01:01".to_string(), want_err: false },
        Test { argument: "2020/01/01 01:01:01".to_string(), want_err: false },
        Test { argument: "2020/01/01 01:01".to_string(), want_err: false },
        Test { argument: "01012020 01:01:01".to_string(), want_err: false },
        Test { argument: "01012020 01:01".to_string(), want_err: false },
        Test { argument: "2020-01-01".to_string(), want_err: true },
        Test { argument: "2020/01/01".to_string(), want_err: true },
        Test { argument: "01012020".to_string(), want_err: true },
    ];
    for t in &tests {
        if t.want_err {
            assert!(try_str_to_date(t.argument.as_str()).is_none());
        } else {
            assert!(try_str_to_date(t.argument.as_str()).is_some());
        }
    }
}

#[test]
fn parsed_fields_match_each_format() {
    assert_eq!(try_str_to_date("2020-01-01 01:01:01"), Some(dt(2020, 1, 1, 1, 1, 1)));
    assert_eq!(try_str_to_date("2020-01-01 01:01"), Some(dt(2020, 1, 1, 1, 1, 0)));
    assert_eq!(try_str_to_date("2020/03/31 23:59:59"), Some(dt(2020, 3, 31, 23, 59, 59)));
    assert_eq!(try_str_to_date("20200101 01:01:01"), Some(dt(2020, 1, 1, 1, 1, 1)));
    assert_eq!(try_str_to_date("31122021 08:30"), Some(dt(2021, 12, 31, 8, 30, 0)));
}

/// The eight-digit compact date prefers the year-first reading and falls
/// back to day-first only when year-first is not calendar-valid.
#[test]
fn compact_date_prefers_year_first() {
    // Valid both ways: year-first wins.
    assert_eq!(try_str_to_date("20011210 00:00"), Some(dt(2001, 12, 10, 0, 0, 0)));
    // Year-first gives month 20: only day-first is valid.
    assert_eq!(try_str_to_date("01012020 00:00"), Some(dt(2020, 1, 1, 0, 0, 0)));
}

#[test]
fn calendar_validity_is_enforced() {
    assert_eq!(try_str_to_date("2020-02-29 12:00"), Some(dt(2020, 2, 29, 12, 0, 0)));
    assert!(try_str_to_date("2019-02-29 12:00").is_none());
    assert!(try_str_to_date("2100-02-29 12:00").is_none());
    assert_eq!(try_str_to_date("2000-02-29 12:00"), Some(dt(2000, 2, 29, 12, 0, 0)));
    assert!(try_str_to_date("2020-13-01 12:00").is_none());
    assert!(try_str_to_date("2020-00-01 12:00").is_none());
    assert!(try_str_to_date("2020-04-31 12:00").is_none());
    assert!(try_str_to_date("2020-01-01 24:00").is_none());
    assert!(try_str_to_date("2020-01-01 12:60").is_none());
    assert!(try_str_to_date("2020-01-01 12:00:60").is_none());
}

#[test]
fn strict_shapes_are_required() {
    assert!(try_str_to_date("2020-1-1 01:01").is_none());
    assert!(try_str_to_date("2020-01/01 01:01").is_none());
    assert!(try_str_to_date("2020-01-01  01:01").is_none());
    assert!(try_str_to_date("2020-01-01 01:01:01:01").is_none());
    assert!(try_str_to_date("").is_none());
    assert!(try_str_to_date("hello world").is_none());
}

/// Every accepted string parses to the same instant a reference datetime
/// parser yields for the matching format, in the same (naive) frame.
#[test]
fn accepted_formats_agree_with_reference_parser() {
    let cases: [(&str, &str); 8] = [
        ("2020-01-01 01:01", "%Y-%m-%d %H:%M"),
        ("2020-01-01 01:01:01", "%Y-%m-%d %H:%M:%S"),
        ("2020/01/01 01:01", "%Y/%m/%d %H:%M"),
        ("2020/01/01 01:01:01", "%Y/%m/%d %H:%M:%S"),
        ("20200101 01:01", "%Y%m%d %H:%M"),
        ("20200101 01:01:01", "%Y%m%d %H:%M:%S"),
        ("01012020 01:01", "%d%m%Y %H:%M"),
        ("01012020 01:01:01", "%d%m%Y %H:%M:%S"),
    ];
    for (s, fmt) in cases.iter() {
        let got = try_str_to_date(s).unwrap();
        let want: NaiveDateTime = NaiveDateTime::parse_from_str(s, fmt).unwrap();
        let got_naive = NaiveDate::from_ymd_opt(
            got.year as i32,
            got.month as u32,
            got.day as u32,
        )
        .unwrap()
        .and_hms_opt(got.hour as u32, got.minute as u32, got.second as u32)
        .unwrap();
        assert_eq!(got_naive, want, "for {}", s);
    }
}

/// The `RAW=` prefix is checked before any other interpretation: a raw
/// value whose suffix would parse as a datetime is still inlined raw.
#[test]
fn raw_prefix_wins_over_datetime() {
    let coerced = coerce(&FixtureValue::Str("RAW=2020-01-01 01:01:01".to_string())).unwrap();
    match coerced {
        SqlParam::Raw(fragment) => assert_eq!(fragment, "2020-01-01 01:01:01"),
        other => panic!("expected a raw fragment, got {:?}", other),
    }
}

/// A string matching none of the accepted formats coerces to a plain
/// string parameter equal to the input.
#[test]
fn unmatched_strings_stay_string_parameters() {
    let inputs = ["2020-01-01", "not a date", "", "31/12/2020 01:01"];
    for s in inputs.iter() {
        let coerced = coerce(&FixtureValue::Str(s.to_string())).unwrap();
        match coerced {
            SqlParam::String(kept) => assert_eq!(kept, *s),
            other => panic!("expected a string parameter for {:?}, got {:?}", s, other),
        }
    }
}
