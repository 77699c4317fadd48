use ocpi_kit::tariffs::lint::lint;
use ocpi_kit::tariffs::{
    DayOfWeek, Price, PriceComponent, ReservationRestrictionType, Tariff, TariffDimensionType, TariffElement,
    TariffLint, TariffLintCode, TariffRestrictions, TaxIncluded,
};
use ocpi_kit::types::datetime::DateTime;
use ocpi_kit::types::local::{LocalDate, LocalTime};
use ocpi_kit::types::number::Number;

fn n(s: &str) -> Number {
    s.parse().unwrap()
}

fn component(dimension: TariffDimensionType, price: &str, step_size: u32) -> PriceComponent {
    PriceComponent { component_type: dimension, price: n(price), vat: None, step_size }
}

fn element(components: Vec<PriceComponent>, restrictions: Option<TariffRestrictions>) -> TariffElement {
    TariffElement { price_components: components, restrictions }
}

fn tariff(elements: Vec<TariffElement>) -> Tariff {
    Tariff {
        id: ocpi_kit::types::cistring::CiString::new("1").unwrap(),
        tariff_type: None,
        elements,
        tax_included: TaxIncluded::No,
        min_price: None,
        max_price: None,
        start_date_time: None,
        end_date_time: None,
    }
}

fn codes(tariff: &Tariff) -> Vec<TariffLintCode> {
    lint(tariff).into_iter().map(|l| l.code).collect()
}

#[test]
fn a_fallback_element_before_a_restricted_one_makes_the_restricted_one_dead() {
    let t = tariff(vec![
        element(vec![component(TariffDimensionType::Energy, "0.25", 1)], None),
        element(
            vec![component(TariffDimensionType::Energy, "0.40", 1)],
            Some(TariffRestrictions { min_kwh: Some(n("10")), ..Default::default() }),
        ),
    ]);
    assert!(codes(&t).contains(&TariffLintCode::UnreachableElement));

    let ordered = tariff(vec![
        element(
            vec![component(TariffDimensionType::Energy, "0.40", 1)],
            Some(TariffRestrictions { min_kwh: Some(n("10")), ..Default::default() }),
        ),
        element(vec![component(TariffDimensionType::Energy, "0.25", 1)], None),
    ]);
    assert_eq!(lint(&ordered), vec![], "{:?}", lint(&ordered));
}

#[test]
fn a_time_step_size_that_parking_will_absorb_is_reported() {
    let t = tariff(vec![element(
        vec![component(TariffDimensionType::Time, "2.00", 300), component(TariffDimensionType::ParkingTime, "1.00", 300)],
        None,
    )]);
    assert!(codes(&t).contains(&TariffLintCode::UnusedTimeStepSize));
}

#[test]
fn impossible_and_empty_restrictions_are_both_found() {
    let t = tariff(vec![
        element(
            vec![component(TariffDimensionType::Energy, "0.25", 1)],
            Some(TariffRestrictions { min_kwh: Some(n("50")), max_kwh: Some(n("10")), ..Default::default() }),
        ),
        element(vec![component(TariffDimensionType::Time, "1.00", 1)], Some(TariffRestrictions::default())),
    ]);
    let found = codes(&t);
    assert!(found.contains(&TariffLintCode::ImpossibleRestriction));
    assert!(found.contains(&TariffLintCode::EmptyRestrictions));
}

#[test]
fn a_reservation_element_that_prices_energy_is_reported() {
    let t = tariff(vec![element(
        vec![component(TariffDimensionType::Energy, "0.25", 1)],
        Some(TariffRestrictions { reservation: Some(ReservationRestrictionType::Reservation), ..Default::default() }),
    )]);
    assert!(codes(&t).contains(&TariffLintCode::ReservationDimension));
}

#[test]
fn a_tariff_that_only_charges_a_flat_fee_says_so() {
    let t = tariff(vec![element(vec![component(TariffDimensionType::Flat, "2.50", 0)], None)]);
    assert!(codes(&t).contains(&TariffLintCode::NothingPricedByUse));
}

#[test]
fn each_finding_names_where_and_why() {
    let t = tariff(vec![
        element(vec![component(TariffDimensionType::Energy, "0.25", 1)], None),
        element(
            vec![component(TariffDimensionType::Energy, "0.40", 1), component(TariffDimensionType::Energy, "0.50", 1)],
            None,
        ),
    ]);
    let found = lint(&t);
    assert_eq!(
        found,
        vec![
            TariffLint {
                code: TariffLintCode::UnreachableElement,
                pointer: "/elements/1/price_components/0".to_string(),
                message: "element 0 prices ENERGY and its restrictions always match, so this Price Component can \
                          never apply. The unrestricted element is the fallback and belongs last"
                    .to_string(),
            },
            TariffLint {
                code: TariffLintCode::DuplicateDimension,
                pointer: "/elements/1/price_components/1".to_string(),
                message: "this element already prices ENERGY; only the first Price Component for a dimension in an \
                          element is ever used"
                    .to_string(),
            },
            TariffLint {
                code: TariffLintCode::UnreachableElement,
                pointer: "/elements/1/price_components/1".to_string(),
                message: "element 0 prices ENERGY and its restrictions always match, so this Price Component can \
                          never apply. The unrestricted element is the fallback and belongs last"
                    .to_string(),
            },
        ]
    );
    assert_eq!(
        found[1].to_string(),
        "[duplicate_dimension] /elements/1/price_components/1: this element already prices ENERGY; only the \
         first Price Component for a dimension in an element is ever used"
    );
}

#[test]
fn step_sizes_are_checked_per_dimension() {
    let t = tariff(vec![element(
        vec![component(TariffDimensionType::Flat, "1.00", 5), component(TariffDimensionType::Energy, "0.25", 0)],
        None,
    )]);
    let found = lint(&t);
    assert_eq!(found[0].code, TariffLintCode::FlatStepSize);
    assert_eq!(found[0].pointer, "/elements/0/price_components/0/step_size");
    assert_eq!(found[0].message, "a FLAT fee has no unit to count in blocks of 5; the value is ignored");
    assert_eq!(found[1].code, TariffLintCode::ZeroStepSize);
    assert_eq!(
        found[1].message,
        "the specification never defines a ENERGY `step_size` of 0; this crate reads it as no quantisation at \
         all. Write 1 for per-unit billing"
    );
    assert_eq!(found.len(), 2);
}

#[test]
fn vat_rates_are_checked_against_the_range_and_the_tax_statement() {
    let mut c = component(TariffDimensionType::Energy, "0.25", 1);
    c.vat = Some(n("120.5"));
    let mut t = tariff(vec![element(vec![c], None)]);
    t.tax_included = TaxIncluded::NotApplicable;
    let found = lint(&t);
    assert_eq!(found[0].code, TariffLintCode::ImplausibleVat);
    assert_eq!(found[0].pointer, "/elements/0/price_components/0/vat");
    assert_eq!(found[0].message, "a VAT percentage of 120.5 is outside 0-100");
    assert_eq!(found[1].code, TariffLintCode::TaxRateWithoutTax);
    assert_eq!(found.len(), 2);

    let mut fine = component(TariffDimensionType::Energy, "0.25", 1);
    fine.vat = Some(n("100.00"));
    assert_eq!(lint(&tariff(vec![element(vec![fine], None)])), vec![]);
    let mut negative = component(TariffDimensionType::Energy, "0.25", 1);
    negative.vat = Some(n("-1"));
    assert_eq!(codes(&tariff(vec![element(vec![negative], None)])), vec![TariffLintCode::ImplausibleVat]);
}

#[test]
fn included_tax_without_a_rate_is_reported_once() {
    let mut t = tariff(vec![element(vec![component(TariffDimensionType::Energy, "0.25", 1)], None)]);
    t.tax_included = TaxIncluded::Yes;
    let found = lint(&t);
    assert_eq!(found.len(), 1);
    assert_eq!(found[0].pointer, "/tax_included");
}

#[test]
fn every_impossible_window_is_reported_with_its_values() {
    let r = TariffRestrictions {
        min_power: Some(n("22")),
        max_power: Some(n("11.0")),
        min_current: Some(n("16")),
        max_current: Some(n("16.00")),
        min_duration: Some(3600),
        max_duration: Some(1800),
        start_date: Some(LocalDate::new(2024, 6, 1).unwrap()),
        end_date: Some(LocalDate::new(2024, 6, 1).unwrap()),
        start_time: Some(LocalTime::new(8, 0).unwrap()),
        end_time: Some(LocalTime::new(8, 0).unwrap()),
        day_of_week: vec![DayOfWeek::Monday],
        ..Default::default()
    };
    let t = tariff(vec![element(vec![component(TariffDimensionType::Time, "1.00", 1)], Some(r))]);
    let found = lint(&t);
    let pointers: Vec<&str> = found.iter().map(|l| l.pointer.as_str()).collect();
    assert_eq!(
        pointers,
        vec![
            "/elements/0/restrictions/min_power",
            "/elements/0/restrictions/min_current",
            "/elements/0/restrictions/min_duration",
            "/elements/0/restrictions/start_date",
            "/elements/0/restrictions/start_time",
        ]
    );
    assert_eq!(found[0].message, "min_power 22 is at or above max_power 11.0");
    assert_eq!(found[1].message, "min_current 16 is at or above max_current 16.00");
    assert_eq!(found[2].message, "min_duration 3600s is at or above max_duration 1800s, which is exclusive");
    assert_eq!(found[3].message, "valid from 2024-06-01 until 2024-06-01, which is not a day");
    assert_eq!(found[4].code, TariffLintCode::WholeDayWindow);
    assert!(found[4].message.starts_with("start_time and end_time are both 08:00;"));
}

#[test]
fn crossing_price_limits_and_an_empty_validity_window_are_reported() {
    let mut t = tariff(vec![element(vec![component(TariffDimensionType::Energy, "0.25", 1)], None)]);
    t.min_price = Some(Price { before_taxes: n("10"), after_taxes: Some(n("12")) });
    t.max_price = Some(Price { before_taxes: n("5"), after_taxes: Some(n("6")) });
    t.start_date_time = Some("2024-02-01T00:00:00Z".parse::<DateTime>().unwrap());
    t.end_date_time = Some("2024-01-01T00:00:00Z".parse::<DateTime>().unwrap());
    let found = lint(&t);
    assert_eq!(found.len(), 3);
    assert_eq!(
        found[0].message,
        "the minimum before taxes (10) is above the maximum (5), so no session can satisfy both and the \
         maximum is applied last"
    );
    assert_eq!(found[1].pointer, "/min_price/after_taxes");
    assert_eq!(found[1].message, "the minimum after taxes (12) is above the maximum (6)");
    assert_eq!(found[2].code, TariffLintCode::NeverActive);
    assert_eq!(
        found[2].message,
        "this Tariff ends at 2024-01-01T00:00:00Z, at or before it starts at 2024-02-01T00:00:00Z"
    );
}

#[test]
fn numbers_compare_by_value_and_print_as_written() {
    assert_eq!(n("0.25"), n("0.2500"));
    assert!(n("0.25") < n("0.3"));
    assert!(n("-1") < Number::zero());
    assert_eq!(n("0.2500").to_string(), "0.2500");
    assert_eq!(n("-0.5").to_string(), "-0.5");
    assert_eq!(n("7").scale(), 0);
    assert_eq!(n("0.010").scale(), 3);
    assert!(n("0.000").is_zero());
    assert!(n("-0.01").is_negative());
    assert!(!n("0").is_negative());
    assert_eq!(Number::from(100u32), n("100.0"));
    assert_eq!(Number::default(), Number::zero());
    assert_eq!(Number::one(), n("1"));
}

#[test]
fn a_value_that_is_not_a_number_is_refused_with_the_text() {
    let err = Number::parse("abc").unwrap_err();
    assert!(err.to_string().starts_with("invalid OCPI number: \"abc\": "), "{}", err.to_string());
    assert!("1.2.3".parse::<Number>().is_err());
}

#[test]
fn a_number_converts_to_and_from_a_decimal() {
    let d = n("12.345").get();
    assert_eq!(d.to_string(), "12.345");
    assert_eq!(Number::new(d), n("12.345"));
    assert_eq!(Number::new(d).scale(), 3);
}

#[test]
fn days_of_the_week_follow_iso_numbering() {
    assert_eq!(DayOfWeek::from_iso_number(1), Some(DayOfWeek::Monday));
    assert_eq!(DayOfWeek::from_iso_number(7), Some(DayOfWeek::Sunday));
    assert_eq!(DayOfWeek::from_iso_number(0), None);
    assert_eq!(TariffDimensionType::ParkingTime.as_str(), "PARKING_TIME");
}

use ocpi_kit::tariffs::restrictions::{self as rules, RestrictionContext, find_component, restrictions_match};

fn context(time: (u8, u8), kwh: &str, seconds: i64) -> RestrictionContext {
    RestrictionContext {
        local_time: LocalTime::new(time.0, time.1).unwrap(),
        local_date: LocalDate::new(2024, 6, 3).unwrap(),
        weekday: DayOfWeek::Monday,
        energy_so_far: n(kwh),
        duration_so_far_seconds: seconds,
        current_lower: None,
        current_upper: None,
        power_lower: Some(n("11")),
        power_upper: Some(n("11")),
        is_reservation: false,
        reservation_expired: false,
    }
}

#[test]
fn restrictions_are_a_logical_and_with_inclusive_starts_and_exclusive_ends() {
    let r = TariffRestrictions {
        min_kwh: Some(n("10")),
        max_kwh: Some(n("20")),
        min_duration: Some(600),
        ..Default::default()
    };
    assert!(rules::matches(&r, &context((12, 0), "10", 600)));
    assert!(!rules::matches(&r, &context((12, 0), "20", 600)), "max_kwh is exclusive");
    assert!(!rules::matches(&r, &context((12, 0), "15", 599)), "min_duration is inclusive");
    let window = TariffRestrictions {
        start_time: Some(LocalTime::new(22, 0).unwrap()),
        end_time: Some(LocalTime::new(6, 0).unwrap()),
        ..Default::default()
    };
    assert!(rules::matches(&window, &context((23, 30), "0", 0)), "a window wraps past midnight");
    assert!(rules::matches(&window, &context((5, 59), "0", 0)));
    assert!(!rules::matches(&window, &context((6, 0), "0", 0)));
    let weekend = TariffRestrictions { day_of_week: vec![DayOfWeek::Saturday, DayOfWeek::Sunday], ..Default::default() };
    assert!(!rules::matches(&weekend, &context((12, 0), "0", 0)));
    let current = TariffRestrictions { min_current: Some(n("16")), ..Default::default() };
    assert!(!rules::matches(&current, &context((12, 0), "0", 0)), "an unknown current meets no bound");
    let power = TariffRestrictions { max_power: Some(n("22")), ..Default::default() };
    assert!(rules::matches(&power, &context((12, 0), "0", 0)));
}

#[test]
fn reservation_costs_are_priced_only_by_elements_that_declare_them() {
    let plain = element(vec![component(TariffDimensionType::Time, "2.00", 1)], None);
    let reservation = element(
        vec![component(TariffDimensionType::Time, "1.00", 1)],
        Some(TariffRestrictions { reservation: Some(ReservationRestrictionType::Reservation), ..Default::default() }),
    );
    let mut reserved = context((12, 0), "0", 0);
    reserved.is_reservation = true;
    assert!(restrictions_match(&plain, &context((12, 0), "0", 0)));
    assert!(!restrictions_match(&plain, &reserved));
    assert!(restrictions_match(&reservation, &reserved));
    reserved.reservation_expired = true;
    assert!(!restrictions_match(&reservation, &reserved));
}

#[test]
fn the_first_matching_element_with_the_dimension_prices_it() {
    let t = tariff(vec![
        element(
            vec![component(TariffDimensionType::Energy, "0.40", 1)],
            Some(TariffRestrictions { min_kwh: Some(n("10")), ..Default::default() }),
        ),
        element(
            vec![component(TariffDimensionType::Flat, "1.00", 1), component(TariffDimensionType::Energy, "0.25", 1)],
            None,
        ),
    ]);
    assert_eq!(find_component(&t, TariffDimensionType::Energy, &context((12, 0), "5", 0)), Some((1, 1)));
    assert_eq!(find_component(&t, TariffDimensionType::Energy, &context((12, 0), "12", 0)), Some((0, 0)));
    assert_eq!(find_component(&t, TariffDimensionType::ParkingTime, &context((12, 0), "12", 0)), None);
}

#[test]
fn an_element_reported_unreachable_is_never_used_for_consumed_time() {
    let t = tariff(vec![
        element(vec![component(TariffDimensionType::Energy, "0.25", 1)], None),
        element(
            vec![component(TariffDimensionType::Energy, "0.40", 1)],
            Some(TariffRestrictions { min_kwh: Some(n("10")), ..Default::default() }),
        ),
    ]);
    assert!(codes(&t).contains(&TariffLintCode::UnreachableElement));
    for kwh in ["0", "10", "1000"] {
        assert_eq!(find_component(&t, TariffDimensionType::Energy, &context((12, 0), kwh, 0)), Some((0, 0)));
    }
}

#[test]
fn a_context_describes_itself_for_the_breakdown() {
    let mut c = context((9, 5), "12.50", 3600);
    assert_eq!(c.describe(), "at 2024-06-03 09:05 local (MONDAY), 12.50 kWh and 3600s into the session");
    c.is_reservation = true;
    assert!(c.describe().starts_with("pricing reserved time at 2024-06-03"));
}

use ocpi_kit::tariffs::input::PricedPeriod;

#[test]
fn a_period_compares_its_measured_extremes_against_the_bounds() {
    let mut p = PricedPeriod::new("2024-01-15T10:00:00Z".parse().unwrap());
    assert!(p.energy_kwh.is_zero() && p.current_for_lower_bound().is_none());
    p.max_current_a = Some(n("32"));
    p.min_current_a = Some(n("6"));
    assert_eq!(p.current_for_lower_bound(), Some(n("32")));
    assert_eq!(p.current_for_upper_bound(), Some(n("6")));
    p.min_power_kw = Some(n("7.4"));
    assert_eq!(p.power_for_lower_bound(), Some(n("7.4")), "only one extreme measured");
    assert_eq!(p.power_for_upper_bound(), Some(n("7.4")));
}
