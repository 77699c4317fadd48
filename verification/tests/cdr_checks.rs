use ocpi_kit::tariffs::{
    verify_cdr, verify_cdr_within, AppliedComponent, CdrClaims, CostBreakdown, DimensionCost, Discrepancy,
    PricedSegment, PricingEngine, Tariff, TariffDimensionType, TaxBasis, TaxIncluded,
};
use ocpi_kit::types::datetime::DateTime;
use ocpi_kit::types::number::Number;

fn n(s: &str) -> Number {
    s.parse().unwrap()
}

fn dt(s: &str) -> DateTime {
    DateTime::parse(s).unwrap()
}

fn segment(cost: &str, reservation: bool) -> PricedSegment {
    PricedSegment {
        start: dt("2024-01-15T10:00:00Z"),
        quantity: n("1"),
        price: n(cost),
        vat_percentage: None,
        cost: n(cost),
        tax: Number::zero(),
        tax_basis: TaxBasis::Excluded,
        applied: AppliedComponent {
            tariff_id: "T1".to_owned(),
            element_index: 0,
            component_index: 0,
            reservation,
            because: String::new(),
        },
    }
}

fn dimension(d: TariffDimensionType, measured: &str, cost: &str, segments: Vec<PricedSegment>) -> DimensionCost {
    DimensionCost { dimension: d, measured: n(measured), billed: n(measured), cost: n(cost), vat: Number::zero(), segments }
}

fn tariff() -> Tariff {
    Tariff {
        id: ocpi_kit::types::cistring::CiString::new("1").unwrap(),
        tariff_type: None,
        elements: Vec::new(),
        tax_included: TaxIncluded::No,
        min_price: None,
        max_price: None,
        start_date_time: None,
        end_date_time: None,
    }
}

/// 20 kWh at 0.25 per kWh, no VAT, as a breakdown.
fn priced(energy: &str) -> CostBreakdown {
    let cost = n(energy).checked_mul(n("0.25")).unwrap().to_string();
    let dims = vec![dimension(TariffDimensionType::Energy, energy, &cost, vec![segment(&cost, false)])];
    PricingEngine::new().finish(dims, &tariff(), Vec::new())
}

/// A one-hour session costing `total`, all of it energy, with `energy` kWh.
fn cdr(total: &str, energy: &str) -> CdrClaims {
    CdrClaims {
        start_date_time: dt("2024-01-15T10:00:00Z"),
        end_date_time: dt("2024-01-15T11:00:00Z"),
        total_cost_before_taxes: n(total),
        total_cost_after_taxes: n(total),
        total_energy: n(energy),
        total_energy_cost: Some(n(total)),
        total_time: Number::one(),
        total_time_cost: None,
        total_parking_time: None,
        total_parking_cost: None,
        total_fixed_cost: None,
        total_reservation_cost: None,
    }
}

#[test]
fn a_matching_cdr_agrees() {
    let breakdown = priced("20");
    let check = verify_cdr(&cdr("5.00", "20"), &breakdown);
    assert!(check.agrees(), "{}", check.to_string());
    assert_eq!(check.to_string(), "the CDR agrees with its own tariff and its own Charging Periods");
}

#[test]
fn a_cost_that_differs_names_the_dimension() {
    let breakdown = priced("20");
    let check = verify_cdr(&cdr("5.50", "20"), &breakdown);
    assert!(!check.agrees());
    assert_eq!(check.divergence(Discrepancy::EnergyCost).unwrap().difference(), n("0.50"));
    assert!(!check.is_self_inconsistent(), "the CDR is consistent with itself, just dearer");
}

#[test]
fn a_cdr_whose_own_total_energy_does_not_match_its_periods_is_self_inconsistent() {
    let breakdown = priced("20");
    let check = verify_cdr(&cdr("5.00", "21"), &breakdown);
    assert!(check.is_self_inconsistent());
    assert_eq!(check.divergence(Discrepancy::EnergyVolume).unwrap().difference(), n("1"));
}

#[test]
fn a_total_time_that_is_not_the_session_duration_is_self_inconsistent() {
    let breakdown = priced("20");
    let mut wrong = cdr("5.00", "20");
    wrong.total_time = n("1.5"); // the session runs for an hour
    let check = verify_cdr(&wrong, &breakdown);
    assert!(check.is_self_inconsistent(), "{}", check.to_string());
    assert_eq!(check.divergence(Discrepancy::TimeVolume).unwrap().difference(), n("0.5"));
    assert!(check.to_string().contains("its own start and end timestamps"), "{}", check.to_string());
}

#[test]
fn an_unattributable_flat_fee_suppresses_the_three_comparisons_that_claim_it() {
    let dims = vec![
        dimension(TariffDimensionType::Flat, "1", "0.50", vec![segment("0.50", false)]),
        dimension(TariffDimensionType::Energy, "20", "5.00", vec![segment("5.00", false)]),
        dimension(TariffDimensionType::ParkingTime, "1", "2.00", vec![segment("2.00", false)]),
    ];
    let breakdown = PricingEngine::new().finish(dims, &tariff(), Vec::new());
    let mut with_claims = cdr("7.50", "20");
    with_claims.total_fixed_cost = Some(n("999"));
    with_claims.total_parking_cost = Some(n("999"));
    let check = verify_cdr(&with_claims, &breakdown);
    assert!(check.divergence(Discrepancy::FixedCost).is_none(), "{}", check.to_string());
    assert!(check.divergence(Discrepancy::ParkingCost).is_none(), "{}", check.to_string());
}

#[test]
fn a_tolerance_absorbs_a_rounding_difference() {
    let breakdown = priced("20");
    let check = verify_cdr_within(&cdr("5.01", "20"), &breakdown, n("0.01"));
    assert!(check.agrees(), "{}", check.to_string());
    assert_eq!(check.tolerance, n("0.01"));
}

#[test]
fn divergences_come_in_the_order_of_the_figures_and_read_as_sentences() {
    let breakdown = priced("20");
    let mut wrong = cdr("5.50", "21");
    wrong.total_time = n("2");
    let check = verify_cdr(&wrong, &breakdown);
    let whats: Vec<Discrepancy> = check.divergences.iter().map(|d| d.what).collect();
    assert_eq!(
        whats,
        vec![
            Discrepancy::TotalBeforeTaxes,
            Discrepancy::TotalAfterTaxes,
            Discrepancy::EnergyCost,
            Discrepancy::EnergyVolume,
            Discrepancy::TimeVolume,
        ]
    );
    assert_eq!(
        check.divergences[3].to_string(),
        "energy_volume: the CDR says 21, its own Charging Periods add up to 20 (difference 1)"
    );
    assert_eq!(
        check.divergences[0].to_string(),
        "total_before_taxes: the CDR says 5.50, pricing its Charging Periods gives 5.00 (difference 0.50)"
    );
    assert_eq!(check.to_string().lines().count(), 5);
}

#[test]
fn reserved_time_is_compared_apart_from_charging_time() {
    let dims = vec![dimension(
        TariffDimensionType::Time,
        "1.25",
        "2.25",
        vec![segment("2.00", false), segment("0.25", true)],
    )];
    let breakdown = PricingEngine::new().finish(dims, &tariff(), Vec::new());
    let mut claims = cdr("2.25", "0");
    claims.total_energy_cost = None;
    claims.total_time_cost = Some(n("2.00"));
    claims.total_reservation_cost = Some(n("0.25"));
    let check = verify_cdr(&claims, &breakdown);
    assert!(check.agrees(), "{}", check.to_string());
}

#[test]
fn a_charging_period_reports_the_first_volume_of_a_dimension() {
    let start: DateTime = "2024-01-15T10:00:00Z".parse().unwrap();
    let period = ocpi_kit::v2_1_1::cdrs::ChargingPeriod {
        start_date_time: start,
        dimensions: vec![
            ocpi_kit::v2_1_1::cdrs::CdrDimension::new(ocpi_kit::v2_1_1::cdrs::CdrDimensionType::Energy, Number::from(12u32)),
            ocpi_kit::v2_1_1::cdrs::CdrDimension::new(ocpi_kit::v2_1_1::cdrs::CdrDimensionType::Time, Number::from(2u32)),
            ocpi_kit::v2_1_1::cdrs::CdrDimension::new(ocpi_kit::v2_1_1::cdrs::CdrDimensionType::Energy, Number::from(5u32)),
        ],
        extensions: ocpi_kit::types::extensions::Extensions::new(),
    };
    assert_eq!(period.volume(ocpi_kit::v2_1_1::cdrs::CdrDimensionType::Energy), Some(Number::from(12u32)));
    assert_eq!(period.volume(ocpi_kit::v2_1_1::cdrs::CdrDimensionType::Time), Some(Number::from(2u32)));
    assert_eq!(period.volume(ocpi_kit::v2_1_1::cdrs::CdrDimensionType::ParkingTime), None);
}

#[test]
fn every_divergence_is_beyond_the_tolerance() {
    let breakdown = priced("20");
    let check = verify_cdr_within(&cdr("5.50", "21"), &breakdown, n("0.10"));
    assert!(!check.divergences.is_empty());
    for d in &check.divergences {
        assert!(n("0.10").is_less_than(&(d.claimed - d.computed).abs()), "{}", check.to_string());
    }
    assert!(check.divergence(Discrepancy::TotalBeforeTaxes).is_some());
    let close = verify_cdr_within(&cdr("5.05", "20"), &breakdown, n("0.10"));
    assert!(close.divergence(Discrepancy::TotalBeforeTaxes).is_none());
}
