use ocpi_kit::tariffs::{
    DayOfWeek, Price, PriceComponent, PriceLimitApplied, PricedPeriod, PricedSession, PricingEngine, PricingError,
    PricingNoteCode, PricingPolicy, ReservationRestrictionType, Tariff, TariffDimensionType, TariffElement,
    TariffRestrictions, TaxIncluded, TimeZone,
};
use ocpi_kit::tariffs::model::TariffType;
use ocpi_kit::tariffs::ProfileType;
use ocpi_kit::types::cistring::CiString;
use ocpi_kit::types::datetime::DateTime;
use ocpi_kit::types::local::LocalTime;
use ocpi_kit::types::number::Number;

fn n(s: &str) -> Number {
    s.parse().unwrap()
}

fn dt(s: &str) -> DateTime {
    DateTime::parse(s).unwrap()
}

/// Minutes as a fraction of an hour, the unit OCPI measures time in.
fn minutes(count: u32) -> Number {
    Number::from(count) / Number::from(60u32)
}

/// Compares two durations at a precision far beyond what any meter reports.
fn assert_close(actual: Number, expected: Number) {
    assert_eq!(actual.round_dp(9), expected.round_dp(9));
}

fn component(dimension: TariffDimensionType, price: &str, vat: Option<&str>, step_size: u32) -> PriceComponent {
    PriceComponent { component_type: dimension, price: n(price), vat: vat.map(n), step_size }
}

fn tariff(elements: Vec<TariffElement>) -> Tariff {
    Tariff {
        id: CiString::new("1").unwrap(),
        tariff_type: None,
        elements,
        tax_included: TaxIncluded::No,
        min_price: None,
        max_price: None,
        start_date_time: None,
        end_date_time: None,
    }
}

fn element(components: Vec<PriceComponent>) -> TariffElement {
    TariffElement { price_components: components, restrictions: None }
}

fn restricted(components: Vec<PriceComponent>, r: TariffRestrictions) -> TariffElement {
    TariffElement { price_components: components, restrictions: Some(r) }
}

fn until(hh_mm: &str) -> TariffRestrictions {
    TariffRestrictions { end_time: Some(LocalTime::parse(hh_mm).unwrap()), ..Default::default() }
}

fn energy_session(start: &str, kwh: &str) -> PricedSession {
    PricedSession::new(dt(start), TimeZone::utc())
        .with_period(PricedPeriod { energy_kwh: n(kwh), ..PricedPeriod::new(dt(start)) })
}

#[test]
fn spec_example_simple_025_per_kwh() {
    let t = tariff(vec![element(vec![component(TariffDimensionType::Energy, "0.25", Some("10.0"), 1)])]);
    let session = energy_session("2024-01-15T10:00:00Z", "20");
    let b = PricingEngine::new().price(&session, &[t]).unwrap();
    assert_eq!(b.total_excl_vat, n("5.00"));
    assert_eq!(b.total_incl_vat, n("5.50"));
}

#[test]
fn spec_example_energy_plus_start_fee() {
    let t = tariff(vec![element(vec![
        component(TariffDimensionType::Flat, "0.50", Some("20.0"), 1),
        component(TariffDimensionType::Energy, "0.25", Some("10.0"), 1),
    ])]);
    let session = energy_session("2024-01-15T10:00:00Z", "20");
    let b = PricingEngine::new().price(&session, &[t]).unwrap();
    assert_eq!(b.total_excl_vat, n("5.50"));
    assert_eq!(b.total_incl_vat, n("6.10"));
    assert_eq!(b.dimension_total(TariffDimensionType::Flat), n("0.50"));
}

#[test]
fn spec_example_flat_fee_is_charged_once_for_the_whole_session() {
    let t = tariff(vec![element(vec![
        component(TariffDimensionType::Flat, "0.50", None, 1),
        component(TariffDimensionType::Energy, "0.25", None, 1),
    ])]);
    let session = PricedSession::new(dt("2024-01-15T10:00:00Z"), TimeZone::utc())
        .with_period(PricedPeriod { energy_kwh: n("10"), ..PricedPeriod::new(dt("2024-01-15T10:00:00Z")) })
        .with_period(PricedPeriod { energy_kwh: n("10"), ..PricedPeriod::new(dt("2024-01-15T11:00:00Z")) });
    let b = PricingEngine::new().price(&session, &[t]).unwrap();
    assert_eq!(b.dimension_total(TariffDimensionType::Flat), n("0.50"), "not 1.00");
    assert_eq!(b.total_excl_vat, n("5.50"));
}

#[test]
fn spec_example_energy_step_size_rounds_the_session_total_once() {
    let t = tariff(vec![
        restricted(vec![component(TariffDimensionType::Energy, "0.20", None, 500)], until("17:00")),
        element(vec![component(TariffDimensionType::Energy, "0.27", None, 500)]),
    ]);
    let session = PricedSession::new(dt("2024-01-15T15:00:00Z"), TimeZone::utc())
        .with_period(PricedPeriod { energy_kwh: n("4.3"), ..PricedPeriod::new(dt("2024-01-15T15:00:00Z")) })
        .with_period(PricedPeriod { energy_kwh: n("1.1"), ..PricedPeriod::new(dt("2024-01-15T17:30:00Z")) });
    let b = PricingEngine::new().price(&session, &[t]).unwrap();
    let energy = b.dimension(TariffDimensionType::Energy).unwrap();
    assert_eq!(energy.measured, n("5.4"));
    assert_eq!(energy.billed, n("5.5"), "the session total is rounded, once");
    // 4.3 @ 0.20 + 1.2 @ 0.27 = 0.86 + 0.324 = 1.184
    assert_eq!(energy.segments[1].quantity, n("1.2"), "the surplus lands in the last segment");
    assert_eq!(b.total_excl_vat, n("1.18"));
}

#[test]
fn spec_example_parking_absorbs_the_time_rounding() {
    let t = tariff(vec![element(vec![
        component(TariffDimensionType::Time, "1.00", None, 600),
        component(TariffDimensionType::ParkingTime, "2.00", None, 600),
    ])]);
    let session = PricedSession::new(dt("2024-01-15T10:00:00Z"), TimeZone::utc())
        .with_period(PricedPeriod { charging_hours: minutes(21), ..PricedPeriod::new(dt("2024-01-15T10:00:00Z")) })
        .with_period(PricedPeriod { parking_hours: minutes(16), ..PricedPeriod::new(dt("2024-01-15T10:21:00Z")) });
    let b = PricingEngine::new().price(&session, &[t]).unwrap();
    let charging = b.dimension(TariffDimensionType::Time).unwrap();
    let parking = b.dimension(TariffDimensionType::ParkingTime).unwrap();
    assert_eq!(charging.billed, charging.measured, "charging is not rounded");
    assert_close(parking.billed, minutes(20));
    // 21/60 * 1.00 + 20/60 * 2.00 = 0.35 + 0.6667
    assert_eq!(b.total_excl_vat, n("1.02"));
}

#[test]
fn spec_example_time_alone_is_rounded_with_the_last_step_size() {
    let t = tariff(vec![
        restricted(vec![component(TariffDimensionType::Time, "1.20", None, 1800)], until("17:00")),
        element(vec![component(TariffDimensionType::Time, "2.40", None, 900)]),
    ]);
    let session = PricedSession::new(dt("2024-01-15T16:35:00Z"), TimeZone::utc())
        .with_period(PricedPeriod { charging_hours: minutes(25), ..PricedPeriod::new(dt("2024-01-15T16:35:00Z")) })
        .with_period(PricedPeriod { charging_hours: minutes(10), ..PricedPeriod::new(dt("2024-01-15T17:00:00Z")) });
    let b = PricingEngine::new().price(&session, &[t]).unwrap();
    let time = b.dimension(TariffDimensionType::Time).unwrap();
    assert_close(time.measured, minutes(35));
    assert_close(time.billed, minutes(45));
    assert_close(time.segments[1].quantity, minutes(20));
    assert_eq!(b.total_excl_vat, n("1.30"));
}

#[test]
fn spec_example_min_price_raises_a_cheap_session() {
    let mut t = tariff(vec![element(vec![component(TariffDimensionType::Energy, "0.25", Some("10.0"), 1)])]);
    t.min_price = Some(Price { before_taxes: n("0.50"), after_taxes: Some(n("0.55")) });
    let session = energy_session("2024-01-15T10:00:00Z", "1");
    let b = PricingEngine::new().price(&session, &[t.clone()]).unwrap();
    assert_eq!(b.total_excl_vat, n("0.50"));
    assert_eq!(b.total_incl_vat, n("0.55"));
    assert_eq!(b.limit_applied, Some(PriceLimitApplied::Minimum));

    // 20 kWh is above the minimum, so it is billed normally.
    let big = energy_session("2024-01-15T10:00:00Z", "20");
    let b = PricingEngine::new().price(&big, &[t]).unwrap();
    assert_eq!(b.total_excl_vat, n("5.00"));
    assert_eq!(b.limit_applied, None);
}

#[test]
fn spec_example_max_price_caps_an_expensive_session() {
    let mut t = tariff(vec![element(vec![
        component(TariffDimensionType::Flat, "0.50", Some("20.0"), 1),
        component(TariffDimensionType::Energy, "0.25", Some("10.0"), 1),
    ])]);
    t.max_price = Some(Price { before_taxes: n("10.00"), after_taxes: Some(n("11.00")) });
    let session = energy_session("2024-01-15T10:00:00Z", "50");
    let b = PricingEngine::new().price(&session, &[t.clone()]).unwrap();
    assert_eq!(b.total_excl_vat, n("10.00"));
    assert_eq!(b.total_incl_vat, n("11.00"));
    assert_eq!(b.limit_applied, Some(PriceLimitApplied::Maximum));

    let smaller = energy_session("2024-01-15T10:00:00Z", "30");
    let b = PricingEngine::new().price(&smaller, &[t]).unwrap();
    assert_eq!(b.total_excl_vat, n("8.00"));
    assert_eq!(b.total_incl_vat, n("8.85"));
}

#[test]
fn spec_example_max_power_restrictions_switch_the_rate() {
    let t = tariff(vec![
        restricted(
            vec![component(TariffDimensionType::Energy, "0.20", None, 1)],
            TariffRestrictions { max_power: Some(n("16")), ..Default::default() },
        ),
        restricted(
            vec![component(TariffDimensionType::Energy, "0.35", None, 1)],
            TariffRestrictions { max_power: Some(n("32")), ..Default::default() },
        ),
        element(vec![component(TariffDimensionType::Energy, "0.50", None, 1)]),
    ]);
    let period = |start: &str, kwh: &str, power: &str| PricedPeriod {
        energy_kwh: n(kwh),
        max_power_kw: Some(n(power)),
        min_power_kw: Some(n(power)),
        ..PricedPeriod::new(dt(start))
    };
    let session = PricedSession::new(dt("2024-01-15T10:00:00Z"), TimeZone::utc())
        .with_period(period("2024-01-15T10:00:00Z", "1", "6"))
        .with_period(period("2024-01-15T10:10:00Z", "40", "48"))
        .with_period(period("2024-01-15T11:00:00Z", "0.5", "4"));
    let b = PricingEngine::new().price(&session, &[t]).unwrap();
    assert_eq!(b.total_excl_vat, n("20.30"));
}

#[test]
fn spec_example_max_duration_makes_the_first_half_hour_free() {
    let t = tariff(vec![
        restricted(
            vec![component(TariffDimensionType::Energy, "0.00", None, 1)],
            TariffRestrictions { max_duration: Some(1800), ..Default::default() },
        ),
        restricted(
            vec![component(TariffDimensionType::Energy, "0.25", None, 1)],
            TariffRestrictions { max_duration: Some(3600), ..Default::default() },
        ),
        element(vec![component(TariffDimensionType::Energy, "0.40", None, 1)]),
    ]);
    let session = PricedSession::new(dt("2024-01-15T10:00:00Z"), TimeZone::utc())
        .with_period(PricedPeriod { energy_kwh: n("5"), ..PricedPeriod::new(dt("2024-01-15T10:00:00Z")) })
        .with_period(PricedPeriod { energy_kwh: n("1.2"), ..PricedPeriod::new(dt("2024-01-15T10:30:00Z")) });
    let b = PricingEngine::new().price(&session, &[t]).unwrap();
    assert_eq!(b.total_excl_vat, n("0.30"));
}

#[test]
fn a_reservation_is_priced_by_its_own_tariff_element() {
    let t = tariff(vec![
        restricted(
            vec![component(TariffDimensionType::Time, "5.00", Some("20.0"), 60)],
            TariffRestrictions { reservation: Some(ReservationRestrictionType::Reservation), ..Default::default() },
        ),
        element(vec![
            component(TariffDimensionType::Flat, "0.50", Some("20.0"), 1),
            component(TariffDimensionType::Energy, "0.25", Some("10.0"), 1),
        ]),
    ]);
    let session = PricedSession::new(dt("2024-01-15T09:45:00Z"), TimeZone::utc())
        .with_period(PricedPeriod {
            reservation_hours: minutes(15),
            ..PricedPeriod::new(dt("2024-01-15T09:45:00Z"))
        })
        .with_period(PricedPeriod { energy_kwh: n("20"), ..PricedPeriod::new(dt("2024-01-15T10:00:00Z")) });
    let b = PricingEngine::new().price(&session, &[t]).unwrap();
    assert_eq!(b.total_excl_vat, n("6.75"));
    assert_eq!(b.total_incl_vat, n("7.60"));
}

#[test]
fn a_free_of_charge_tariff_costs_nothing() {
    let t = tariff(vec![element(vec![component(TariffDimensionType::Flat, "0.00", None, 0)])]);
    assert!(t.is_free_of_charge());
    let session = energy_session("2024-01-15T10:00:00Z", "20");
    let b = PricingEngine::new().price(&session, &[t]).unwrap();
    assert_eq!(b.total_excl_vat, Number::zero());
    assert!(!b.notes.is_empty(), "the unpriced ENERGY is surfaced as a note");
}

#[test]
fn local_time_restrictions_follow_the_locations_time_zone() {
    // 17:00 in Berlin is 15:00 UTC in summer and 16:00 UTC in winter.
    let t = tariff(vec![
        restricted(vec![component(TariffDimensionType::Energy, "0.20", None, 1)], until("17:00")),
        element(vec![component(TariffDimensionType::Energy, "0.40", None, 1)]),
    ]);
    let price_at = |instant: &str| {
        let berlin = TimeZone::named("Europe/Berlin").unwrap();
        let session = PricedSession::new(dt(instant), berlin)
            .with_period(PricedPeriod { energy_kwh: n("1"), ..PricedPeriod::new(dt(instant)) });
        PricingEngine::new().price(&session, std::slice::from_ref(&t)).unwrap().total_excl_vat
    };
    assert_eq!(price_at("2024-07-15T15:30:00Z"), n("0.40"), "17:30 CEST is after 17:00");
    assert_eq!(price_at("2024-01-15T15:30:00Z"), n("0.20"), "16:30 CET is before 17:00");
}

#[test]
fn day_of_week_restrictions_use_local_days() {
    let t = tariff(vec![
        restricted(
            vec![component(TariffDimensionType::Energy, "0.10", None, 1)],
            TariffRestrictions { day_of_week: vec![DayOfWeek::Saturday, DayOfWeek::Sunday], ..Default::default() },
        ),
        element(vec![component(TariffDimensionType::Energy, "0.30", None, 1)]),
    ]);
    let price_on = |instant: &str| {
        let session = energy_session(instant, "1");
        PricingEngine::new().price(&session, std::slice::from_ref(&t)).unwrap().total_excl_vat
    };
    assert_eq!(price_on("2024-01-13T10:00:00Z"), n("0.10"), "a Saturday");
    assert_eq!(price_on("2024-01-15T10:00:00Z"), n("0.30"), "a Monday");
}

#[test]
fn the_breakdown_names_the_component_that_priced_each_segment() {
    let t = tariff(vec![element(vec![component(TariffDimensionType::Energy, "0.25", None, 1)])]);
    let session = energy_session("2024-01-15T10:00:00Z", "20");
    let b = PricingEngine::new().price(&session, &[t]).unwrap();
    let applied = b.applied_components();
    assert_eq!(applied.len(), 1);
    assert_eq!(applied[0].tariff_id, "1");
    assert_eq!(applied[0].element_index, 0);
    assert_eq!(applied[0].component_index, 0);
    assert!(applied[0].because.contains("local"), "{}", applied[0].because);
}

#[test]
fn a_period_can_name_which_tariff_applies_to_it() {
    let cheap = Tariff {
        id: CiString::new("cheap").unwrap(),
        ..tariff(vec![element(vec![component(TariffDimensionType::Energy, "0.10", None, 1)])])
    };
    let dear = Tariff {
        id: CiString::new("dear").unwrap(),
        ..tariff(vec![element(vec![component(TariffDimensionType::Energy, "0.90", None, 1)])])
    };
    let session = PricedSession::new(dt("2024-01-15T10:00:00Z"), TimeZone::utc()).with_period(PricedPeriod {
        energy_kwh: n("1"),
        tariff_id: Some("dear".to_owned()),
        ..PricedPeriod::new(dt("2024-01-15T10:00:00Z"))
    });
    let b = PricingEngine::new().price(&session, &[cheap.clone(), dear]).unwrap();
    assert_eq!(b.total_excl_vat, n("0.90"));

    let missing = PricedSession::new(dt("2024-01-15T10:00:00Z"), TimeZone::utc()).with_period(PricedPeriod {
        energy_kwh: n("1"),
        tariff_id: Some("nope".to_owned()),
        ..PricedPeriod::new(dt("2024-01-15T10:00:00Z"))
    });
    assert_eq!(
        PricingEngine::new().price(&missing, &[cheap]).unwrap_err(),
        PricingError::UnknownTariff("nope".to_owned())
    );
}

#[test]
fn disabling_step_size_bills_the_measured_quantity() {
    let t = tariff(vec![element(vec![component(TariffDimensionType::Energy, "0.25", None, 500)])]);
    let session = energy_session("2024-01-15T10:00:00Z", "5.4");
    let with_steps = PricingEngine::new().price(&session, std::slice::from_ref(&t)).unwrap();
    assert_eq!(with_steps.dimension(TariffDimensionType::Energy).unwrap().billed, n("5.5"));

    let ocpi_3_style = PricingEngine::with_policy(PricingPolicy::default().without_step_size());
    let exact = ocpi_3_style.price(&session, &[t]).unwrap();
    assert_eq!(exact.dimension(TariffDimensionType::Energy).unwrap().billed, n("5.4"));
    assert_eq!(exact.total_excl_vat, n("1.35"));
}

#[test]
fn no_tariff_is_refused() {
    let session = energy_session("2024-01-15T10:00:00Z", "1");
    assert_eq!(PricingEngine::new().price(&session, &[]).unwrap_err(), PricingError::NoTariff);
}

#[test]
fn a_quantity_beyond_the_limit_is_refused_before_pricing() {
    let t = tariff(vec![element(vec![component(TariffDimensionType::Energy, "0.25", None, 1)])]);
    let session = energy_session("2024-01-15T10:00:00Z", "2000000000000");
    match PricingEngine::new().price(&session, &[t]).unwrap_err() {
        PricingError::OutOfRange { value, limit, .. } => {
            assert_eq!(value, n("2000000000000"));
            assert_eq!(limit, n("1000000000000"));
        },
        other => panic!("unexpected {:?}", other),
    }
}

#[test]
fn a_tariff_not_yet_active_is_not_chosen() {
    let mut later = tariff(vec![element(vec![component(TariffDimensionType::Energy, "0.90", None, 1)])]);
    later.start_date_time = Some(dt("2025-01-01T00:00:00Z"));
    let session = energy_session("2024-01-15T10:00:00Z", "1");
    assert_eq!(
        PricingEngine::new().price(&session, &[later]).unwrap_err(),
        PricingError::NoActiveTariff(dt("2024-01-15T10:00:00Z"))
    );
}

#[test]
fn periods_out_of_order_are_noted() {
    let t = tariff(vec![element(vec![component(TariffDimensionType::Energy, "0.25", None, 1)])]);
    let session = PricedSession::new(dt("2024-01-15T10:00:00Z"), TimeZone::utc())
        .with_period(PricedPeriod { energy_kwh: n("1"), ..PricedPeriod::new(dt("2024-01-15T11:00:00Z")) })
        .with_period(PricedPeriod { energy_kwh: n("1"), ..PricedPeriod::new(dt("2024-01-15T10:00:00Z")) });
    let b = PricingEngine::new().price(&session, &[t]).unwrap();
    assert_eq!(b.notes[0].code, PricingNoteCode::PeriodsOutOfOrder);
    assert_eq!(b.notes[0].at, Some(dt("2024-01-15T10:00:00Z")));
}

#[test]
fn a_period_that_outlasts_its_price_is_noted() {
    let t = tariff(vec![
        restricted(vec![component(TariffDimensionType::Energy, "0.20", None, 1)], until("17:00")),
        element(vec![component(TariffDimensionType::Energy, "0.40", None, 1)]),
    ]);
    let session = energy_session("2024-01-15T16:00:00Z", "2").ending(dt("2024-01-15T18:00:00Z"));
    let b = PricingEngine::new().price(&session, &[t]).unwrap();
    assert_eq!(b.total_excl_vat, n("0.40"), "billed in full at the earlier rate");
    let spans = b.notes_with(PricingNoteCode::PeriodSpansPriceChange);
    assert_eq!(spans.len(), 1);
    assert!(spans[0].message.contains("element 0 applies at the start and element 1"));
}

#[test]
fn the_preferred_tariff_type_is_chosen() {
    let plain = tariff(vec![element(vec![component(TariffDimensionType::Energy, "0.30", None, 1)])]);
    let green = Tariff {
        tariff_type: Some(TariffType::ProfileGreen),
        ..tariff(vec![element(vec![component(TariffDimensionType::Energy, "0.50", None, 1)])])
    };
    let mut session = energy_session("2024-01-15T10:00:00Z", "1");
    session.profile_type = Some(ProfileType::Green);
    let b = PricingEngine::new().price(&session, &[plain.clone(), green.clone()]).unwrap();
    assert_eq!(b.total_excl_vat, n("0.50"));
    session.profile_type = None;
    let b = PricingEngine::new().price(&session, &[green, plain]).unwrap();
    assert_eq!(b.total_excl_vat, n("0.30"), "the untyped tariff is for every session");
}

#[test]
fn a_tariff_id_is_matched_ignoring_case() {
    let dear = Tariff {
        id: CiString::new("Dear").unwrap(),
        ..tariff(vec![element(vec![component(TariffDimensionType::Energy, "0.90", None, 1)])])
    };
    let session = PricedSession::new(dt("2024-01-15T10:00:00Z"), TimeZone::utc()).with_period(PricedPeriod {
        energy_kwh: n("1"),
        tariff_id: Some("DEAR".to_owned()),
        ..PricedPeriod::new(dt("2024-01-15T10:00:00Z"))
    });
    let b = PricingEngine::new().price(&session, &[dear]).unwrap();
    assert_eq!(b.total_excl_vat, n("0.90"));
    assert_eq!(b.applied_components()[0].tariff_id, "Dear");
}

#[test]
fn an_unpriced_quantity_is_noted_in_words() {
    let t = tariff(vec![element(vec![component(TariffDimensionType::Energy, "0.25", None, 1)])]);
    let session = PricedSession::new(dt("2024-01-15T10:00:00Z"), TimeZone::utc()).with_period(PricedPeriod {
        reservation_hours: minutes(15),
        ..PricedPeriod::new(dt("2024-01-15T10:00:00Z"))
    });
    let b = PricingEngine::new().price(&session, &[t]).unwrap();
    let notes = b.notes_with(PricingNoteCode::NoPriceComponent);
    assert_eq!(notes.len(), 1);
    assert_eq!(
        notes[0].message,
        "no TIME Price Component in tariff 1 matched for the reserved time; the specification says there are then no costs for that dimension"
    );
    assert_eq!(b.total_excl_vat, Number::zero());
}
