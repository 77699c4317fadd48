use ocpi_kit::tariffs::restrictions::RestrictionContext;
use ocpi_kit::tariffs::{DayOfWeek, PricedPeriod, PricedSession, PricingError, TimeZone};
use ocpi_kit::types::datetime::DateTime;
use ocpi_kit::types::number::Number;

fn n(s: &str) -> Number {
    s.parse().unwrap()
}

fn dt(s: &str) -> DateTime {
    DateTime::parse(s).unwrap()
}

#[test]
fn an_unknown_time_zone_is_an_error_not_a_silent_utc() {
    assert!(matches!(TimeZone::named("Mars/Olympus"), Err(PricingError::TimeZone(_))));
    assert_eq!(TimeZone::named("UTC").unwrap(), TimeZone::utc());
}

#[test]
fn an_unknown_zone_is_named_in_the_error() {
    let e = TimeZone::named("Mars/Olympus").unwrap_err();
    assert_eq!(e, PricingError::TimeZone("unknown IANA time zone \"Mars/Olympus\"".to_owned()));
    assert_eq!(e.to_string(), "time zone: unknown IANA time zone \"Mars/Olympus\"");
    assert_eq!(TimeZone::named("utc").unwrap().name(), "UTC");
}

#[test]
fn local_time_follows_the_zone_rules() {
    // 17:00 in Berlin is 15:00 UTC in summer and 16:00 UTC in winter.
    let berlin = TimeZone::named("Europe/Berlin").unwrap();
    assert_eq!(berlin.name(), "Europe/Berlin");
    assert_eq!(berlin.offset_seconds_at(dt("2024-07-15T15:30:00Z")).unwrap(), 7200);
    assert_eq!(berlin.offset_seconds_at(dt("2024-01-15T15:30:00Z")).unwrap(), 3600);
    assert_eq!(berlin.to_local(dt("2024-07-15T15:30:00Z")).unwrap(), dt("2024-07-15T17:30:00Z"));
    assert_eq!(TimeZone::utc().to_local(dt("2024-07-15T15:30:00Z")).unwrap(), dt("2024-07-15T15:30:00Z"));
    assert_eq!(TimeZone::utc().offset_seconds_at(dt("2024-07-15T15:30:00Z")).unwrap(), 0);
}

#[test]
fn pricing_errors_read_as_sentences() {
    assert_eq!(PricingError::NoTariff.to_string(), "no tariff to price against");
    assert_eq!(
        PricingError::UnknownTariff("nope".to_owned()).to_string(),
        "charging period refers to tariff \"nope\", which was not provided"
    );
    assert_eq!(
        PricingError::NoActiveTariff(dt("2024-01-15T10:00:00Z")).to_string(),
        "no tariff is active at 2024-01-15T10:00:00Z"
    );
}

fn session() -> PricedSession {
    PricedSession::new(dt("2024-01-15T10:00:00Z"), TimeZone::utc())
        .with_period(PricedPeriod { energy_kwh: n("5"), charging_hours: n("0.5"), ..PricedPeriod::new(dt("2024-01-15T10:00:00Z")) })
        .with_period(PricedPeriod {
            energy_kwh: n("1.2"),
            parking_hours: n("0.25"),
            reservation_hours: n("0.1"),
            ..PricedPeriod::new(dt("2024-01-15T10:30:00Z"))
        })
}

#[test]
fn a_session_adds_up_its_periods() {
    let s = session();
    assert_eq!(s.total_energy_kwh(), n("6.2"));
    assert_eq!(s.total_charging_hours(), n("0.5"));
    assert_eq!(s.total_parking_hours(), n("0.25"));
    assert_eq!(s.total_reservation_hours(), n("0.1"));
    assert_eq!(s.energy_before(0), Number::zero());
    assert_eq!(s.energy_before(1), n("5"));
    assert_eq!(s.energy_before(9), n("6.2"), "past the end counts every period");
    assert_eq!(s.duration_before(1), 1800);
    assert_eq!(s.duration_before(5), 0);
}

#[test]
fn a_period_ends_where_the_next_begins_or_with_the_session() {
    let s = session();
    assert_eq!(s.period_end(0), Some(dt("2024-01-15T10:30:00Z")));
    assert_eq!(s.period_end(1), None, "an open session's last period has no end");
    let ended = s.ending(dt("2024-01-15T11:00:00Z"));
    assert_eq!(ended.period_end(1), Some(dt("2024-01-15T11:00:00Z")));
}

#[test]
fn a_context_reads_the_local_clock_and_the_consumption_so_far() {
    let s = PricedSession::new(dt("2024-07-13T15:30:00Z"), TimeZone::named("Europe/Berlin").unwrap())
        .with_period(PricedPeriod { energy_kwh: n("5"), ..PricedPeriod::new(dt("2024-07-13T15:30:00Z")) })
        .with_period(PricedPeriod {
            energy_kwh: n("1"),
            max_power_kw: Some(n("11")),
            ..PricedPeriod::new(dt("2024-07-13T22:30:00Z"))
        })
        .ending(dt("2024-07-13T23:30:00Z"));
    let c = RestrictionContext::build(&s, 1, &s.periods[1]).unwrap();
    assert_eq!(c.local_time.to_string(), "00:30", "half past midnight in Berlin");
    assert_eq!(c.local_date.to_string(), "2024-07-14");
    assert_eq!(c.weekday, DayOfWeek::Sunday);
    assert_eq!(c.energy_so_far, n("5"));
    assert_eq!(c.duration_so_far_seconds, 7 * 3600);
    assert_eq!(c.power_lower, Some(n("11")));
    assert!(!c.is_reservation);
    assert!(c.reserving(true).is_reservation);

    let end = RestrictionContext::build_at_end(&s, 1, &s.periods[1]).unwrap().unwrap();
    assert_eq!(end.local_time.to_string(), "01:29", "one second before the end");
    assert_eq!(end.energy_so_far, n("6"));
    assert_eq!(end.duration_so_far_seconds, 8 * 3600 - 1);
}

#[test]
fn a_period_without_an_end_or_of_a_second_has_no_end_context() {
    let s = PricedSession::new(dt("2024-01-15T10:00:00Z"), TimeZone::utc())
        .with_period(PricedPeriod::new(dt("2024-01-15T10:00:00Z")));
    assert!(RestrictionContext::build_at_end(&s, 0, &s.periods[0]).unwrap().is_none());
    let short = s.clone().ending(dt("2024-01-15T10:00:01Z"));
    assert!(RestrictionContext::build_at_end(&short, 0, &short.periods[0]).unwrap().is_none());
    let c = RestrictionContext::build(&s, 0, &s.periods[0]).unwrap();
    assert_eq!(c.weekday, DayOfWeek::Monday);
    assert_eq!(c.local_time.to_string(), "10:00");
}
