use ocpi_kit::types::datetime::DateTime;
use ocpi_kit::types::local::{LocalDate, LocalTime};
use ocpi_kit::types::url::{encode_path_segment, Url, UrlPolicy};
use ocpi_kit::types::{Validate, ViolationCode};

#[test]
fn time_of_day_requires_leading_zeros() {
    assert_eq!("08:15".parse::<LocalTime>().unwrap().to_string(), "08:15");
    for bad in ["8:15", "08:5", "24:00", "12:60", "0815", ""] {
        assert!(bad.parse::<LocalTime>().is_err(), "{bad} should not parse");
    }
}

#[test]
fn windows_wrap_around_midnight() {
    let t = |s: &str| s.parse::<LocalTime>().unwrap();
    assert!(t("09:00").is_within(t("09:00"), t("18:00")));
    assert!(!t("18:00").is_within(t("09:00"), t("18:00")), "end is exclusive");
    assert!(!t("08:59").is_within(t("09:00"), t("18:00")));
    assert!(t("23:30").is_within(t("22:00"), t("06:00")));
    assert!(t("05:59").is_within(t("22:00"), t("06:00")));
    assert!(!t("12:00").is_within(t("22:00"), t("06:00")));
    assert!(t("23:59").is_within(t("18:00"), t("00:00")));
    assert!(!t("17:59").is_within(t("18:00"), t("00:00")));
}

#[test]
fn a_window_whose_ends_coincide_is_the_whole_day() {
    let t = |s: &str| s.parse::<LocalTime>().unwrap();
    for probe in ["00:00", "09:30", "23:59"] {
        assert!(t(probe).is_within(t("00:00"), t("00:00")), "{probe} is inside an all-day window");
        assert!(t(probe).is_within(t("09:00"), t("09:00")), "{probe} is inside a wrapped full day");
    }
}

#[test]
fn dates_must_exist() {
    assert_eq!("2015-12-24".parse::<LocalDate>().unwrap().to_string(), "2015-12-24");
    assert!("2015-02-30".parse::<LocalDate>().is_err());
    assert!("2016-02-29".parse::<LocalDate>().is_ok(), "2016 is a leap year");
    assert!("15-02-01".parse::<LocalDate>().is_err());
}

#[test]
fn local_time_errors_and_minutes() {
    let t = LocalTime::new(18, 15).unwrap();
    assert_eq!(t.minutes_since_midnight(), 1095);
    assert_eq!((t.hour(), t.minute()), (18, 15));
    assert!(LocalTime::new(24, 0).is_err());
    let d = LocalDate::new(2016, 2, 29).unwrap();
    assert_eq!((d.year(), d.month(), d.day()), (2016, 2, 29));
    assert_eq!(LocalDate::new(2015, 2, 29).unwrap_err().to_string(), "invalid local date: 2015-02-29 is not a date");
}

#[test]
fn parses_all_six_spec_forms() {
    for (text, expect) in [
        ("2015-06-29T20:39:09Z", "2015-06-29T20:39:09Z"),
        ("2015-06-29T20:39:09", "2015-06-29T20:39:09Z"),
        ("2016-12-29T17:45:09.2Z", "2016-12-29T17:45:09.2Z"),
        ("2016-12-29T17:45:09.2", "2016-12-29T17:45:09.2Z"),
        ("2018-01-01T01:08:01.123Z", "2018-01-01T01:08:01.123Z"),
        ("2018-01-01T01:08:01.123", "2018-01-01T01:08:01.123Z"),
    ] {
        let dt: DateTime = text.parse().unwrap();
        assert!(dt.is_canonical(), "{text} should be canonical");
        assert_eq!(dt.to_string(), expect, "round-trip of {text}");
    }
}

#[test]
fn explicit_offsets_are_converted_and_flagged() {
    let dt: DateTime = "2015-06-29T22:39:09+02:00".parse().unwrap();
    assert_eq!(dt.to_string(), "2015-06-29T20:39:09Z");
    assert!(!dt.is_canonical());
    let violations = dt.validate().unwrap_err();
    assert_eq!(violations.as_slice()[0].code, ViolationCode::Inconsistent);

    let zero: DateTime = "2015-06-29T20:39:09+00:00".parse().unwrap();
    assert_eq!(zero.to_string(), "2015-06-29T20:39:09Z");
    assert!(!zero.is_canonical());
}

#[test]
fn equality_ignores_fractional_digit_count() {
    let a: DateTime = "2016-12-29T17:45:09.2Z".parse().unwrap();
    let b: DateTime = "2016-12-29T17:45:09.200Z".parse().unwrap();
    assert_eq!(a, b);
    assert_ne!(a.to_string(), b.to_string(), "but formatting is preserved");
}

#[test]
fn rejects_nonsense() {
    for bad in [
        "",
        "2015-06-29",
        "not a date",
        "2015-13-01T00:00:00Z",
        "2015-06-29T25:00:00Z",
        "2015-06-29T20:39:09Zjunk",
    ] {
        assert!(bad.parse::<DateTime>().is_err(), "{bad} should not parse");
    }
}

#[test]
fn an_over_long_fraction_is_truncated_and_flagged() {
    let dt: DateTime = "2018-01-01T01:08:01.1234567891234Z".parse().unwrap();
    assert_eq!(dt.fractional_digits(), 9);
    assert!(!dt.is_canonical());
    assert_eq!(dt.to_string(), "2018-01-01T01:08:01.123456789Z");

    let absurd = format!("2018-01-01T01:08:01.{}Z", "1".repeat(300));
    let dt: DateTime = absurd.parse().unwrap();
    assert!(!dt.is_canonical(), "300 fractional digits is not one of the six forms");
}

#[test]
fn from_utc_picks_the_shortest_exact_fraction() {
    assert_eq!(DateTime::from_utc(1_500_000_000, 0).unwrap().fractional_digits(), 0);
    assert_eq!(DateTime::from_utc(1_500_000_000, 120_000_000).unwrap().fractional_digits(), 3);
    assert_eq!(DateTime::from_utc(1_500_000_000, 120_000_100).unwrap().fractional_digits(), 9);
}

#[test]
fn datetime_errors_name_the_reason_and_the_text() {
    let e = DateTime::parse("2015-06-29T20:39").unwrap_err();
    assert_eq!(e.to_string(), "invalid OCPI DateTime: too short for YYYY-MM-DDTHH:MM:SS in \"2015-06-29T20:39\"");
    let e = DateTime::parse("2015-02-30T00:00:00Z").unwrap_err();
    assert_eq!(e.to_string(), "invalid OCPI DateTime: no such calendar date in \"2015-02-30T00:00:00Z\"");
    let e = DateTime::parse("2015-06-29T20:39:09+26:00").unwrap_err();
    assert_eq!(e.to_string(), "invalid OCPI DateTime: offset out of range in \"2015-06-29T20:39:09+26:00\"");
    let e = DateTime::parse("2015-06-29T20:39:09.Z").unwrap_err();
    assert!(e.to_string().contains("fractional separator with no digits"));
}

#[test]
fn tolerated_forms_keep_the_instant() {
    let leap: DateTime = "2016-12-31T23:59:60Z".parse().unwrap();
    assert!(!leap.is_canonical());
    assert_eq!(leap.to_string(), "2016-12-31T23:59:59Z");
    let spaced: DateTime = "2016-12-31 23:59:59,5z".parse().unwrap();
    assert!(!spaced.is_canonical());
    assert_eq!(spaced.to_string(), "2016-12-31T23:59:59.5Z");
    let west: DateTime = "2016-12-31T23:30:00-0130".parse().unwrap();
    assert_eq!(west.to_string(), "2017-01-01T01:00:00Z");
    assert_eq!(west.unix_timestamp(), 1_483_232_400);
}

#[test]
fn written_text_reads_back_to_the_same_instant() {
    for text in ["2015-06-29T20:39:09Z", "2016-12-29T17:45:09.250Z", "0001-01-01T00:00:00.000000001Z"] {
        let d = DateTime::parse(text).unwrap();
        let again = DateTime::parse(&d.to_string()).unwrap();
        assert_eq!(again, d);
        assert!(again.is_canonical());
        assert_eq!(again.fractional_digits(), d.fractional_digits());
    }
    assert_eq!(DateTime::from_unix_timestamp(0).unwrap().to_string(), "1970-01-01T00:00:00Z");
    assert!(DateTime::from_unix_timestamp(253_402_300_800).is_err());
    assert_eq!(
        DateTime::parse("2016-12-29T17:45:09.2Z").unwrap().with_fractional_digits(12).to_string(),
        "2016-12-29T17:45:09.200000000Z"
    );
}

#[test]
fn an_identifier_cannot_change_the_shape_of_a_url() {
    let base = Url::new("https://e.com/ocpi/cpo/2.3.0/tokens").unwrap();
    assert_eq!(
        base.join_segment("../credentials").as_str(),
        "https://e.com/ocpi/cpo/2.3.0/tokens/..%2Fcredentials"
    );
    assert_eq!(base.join_segment("012?limit=1").as_str(), "https://e.com/ocpi/cpo/2.3.0/tokens/012%3Flimit=1");
    assert_eq!(base.join_segment("a#b").as_str(), "https://e.com/ocpi/cpo/2.3.0/tokens/a%23b");
    assert_eq!(base.join_segment("100%").as_str(), "https://e.com/ocpi/cpo/2.3.0/tokens/100%25");
    for id in ["BE*BEC*E041503001", "3256", "LOC1", "NL-TNM-C12345678-X", "a.b~c_d"] {
        assert_eq!(base.join_segment(id).as_str(), format!("https://e.com/ocpi/cpo/2.3.0/tokens/{id}"));
    }
}

#[test]
fn a_query_value_cannot_add_a_parameter() {
    let url = Url::new("https://e.com/ocpi/cpo/2.3.0/tokens/012").unwrap();
    assert_eq!(
        url.with_param("type", "RFID&offset=9").as_str(),
        "https://e.com/ocpi/cpo/2.3.0/tokens/012?type=RFID%26offset%3D9"
    );
}

#[test]
fn text_is_preserved_exactly() {
    let u = Url::new("https://example.com").unwrap();
    assert_eq!(u.as_str(), "https://example.com");
}

#[test]
fn join_handles_trailing_slashes_either_way() {
    for base in ["https://e.com/l", "https://e.com/l/"] {
        let u = Url::new(base).unwrap();
        assert_eq!(u.join("NL").join("TNM").join("14").as_str(), "https://e.com/l/NL/TNM/14");
    }
}

#[test]
fn with_query_picks_the_right_separator() {
    let u = Url::new("https://e.com/cdrs").unwrap();
    assert_eq!(u.with_query("limit=10").as_str(), "https://e.com/cdrs?limit=10");
    assert_eq!(u.with_query("limit=10").with_query("offset=5").as_str(), "https://e.com/cdrs?limit=10&offset=5");
}

#[test]
fn default_policy_blocks_the_ssrf_shapes() {
    let p = UrlPolicy::default();
    assert!(p.check(&Url::new("https://msp.example.com/cb").unwrap()).is_ok());
    for bad in [
        "http://msp.example.com/cb",
        "https://127.0.0.1/cb",
        "https://localhost/cb",
        "https://10.0.0.5/cb",
        "https://192.168.1.1/cb",
        "https://169.254.169.254/latest/meta-data",
        "https://[::1]/cb",
        "https://[fd00::1]/cb",
        "https://[fe80::1]/cb",
        "https://[::ffff:169.254.169.254]/latest/meta-data",
        "https://[::169.254.169.254]/latest/meta-data",
        "https://[64:ff9b::169.254.169.254]/latest/meta-data",
    ] {
        assert!(p.check(&Url::new(bad).unwrap()).is_err(), "{bad} should be refused");
    }
    assert!(p.check(&Url::new("https://[64:ff9b::93.184.216.34]/cb").unwrap()).is_ok());
}

#[test]
fn a_host_name_is_not_resolved_so_the_allow_list_is_the_real_defence() {
    let p = UrlPolicy::default();
    assert!(p.check(&Url::new("https://metadata.example.com/latest").unwrap()).is_ok());
    let strict = p.with_allowed_hosts(&["ptp.example.com"]);
    assert!(strict.check(&Url::new("https://metadata.example.com/latest").unwrap()).is_err());
}

#[test]
fn host_allow_list_matches_subdomains_only_at_a_dot_boundary() {
    let p = UrlPolicy::default().with_allowed_hosts(&["example.com"]);
    assert!(p.check(&Url::new("https://example.com/a").unwrap()).is_ok());
    assert!(p.check(&Url::new("https://ocpi.example.com/a").unwrap()).is_ok());
    assert!(p.check(&Url::new("https://notexample.com/a").unwrap()).is_err());
    assert!(p.check(&Url::new("https://example.com.evil.net/a").unwrap()).is_err());
}

#[test]
fn over_long_urls_are_reported_not_dropped() {
    let long = format!("https://e.com/{}", "x".repeat(300));
    assert!(Url::new(&long).is_err());
    let lenient = Url::new_lenient(&long);
    assert_eq!(lenient.validate().unwrap_err().as_slice()[0].code, ViolationCode::TooLong);
}

#[test]
fn a_path_segment_is_encoded_to_pchars_and_escapes() {
    let encoded = encode_path_segment("a/b?c#d e%");
    assert_eq!(encoded, "a%2Fb%3Fc%23d%20e%25");
    assert!(!encoded.contains('/') && !encoded.contains('?') && !encoded.contains('#'));
    assert_eq!(encode_path_segment("LOC-1_~:@!$&'()*+,;="), "LOC-1_~:@!$&'()*+,;=");
}
