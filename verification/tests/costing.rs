use ocpi_kit::tariffs::{
    AppliedComponent, CostBreakdown, DimensionCost, Price, PriceLimitApplied, PricedSegment, PricingEngine,
    PricingNote, PricingNoteCode, PricingPolicy, Tariff, TariffDimensionType, TaxBasis, TaxIncluded, TaxLine,
};
use ocpi_kit::types::datetime::DateTime;
use ocpi_kit::types::number::Number;

fn n(s: &str) -> Number {
    s.parse().unwrap()
}

fn at() -> DateTime {
    DateTime::parse("2024-01-15T10:00:00Z").unwrap()
}

fn applied(element: usize, component: usize) -> AppliedComponent {
    AppliedComponent {
        tariff_id: "1".to_owned(),
        element_index: element,
        component_index: component,
        reservation: false,
        because: "at 2024-01-15 10:00:00 local (MONDAY), 0 kWh and 0s into the session".to_owned(),
    }
}

/// One stretch costing `cost` with `tax` at `vat` percent.
fn segment(quantity: &str, price: &str, vat: Option<&str>, cost: &str, tax: &str, basis: TaxBasis) -> PricedSegment {
    PricedSegment {
        start: at(),
        quantity: n(quantity),
        price: n(price),
        vat_percentage: vat.map(n),
        cost: n(cost),
        tax: n(tax),
        tax_basis: basis,
        applied: applied(0, 0),
    }
}

fn dimension(d: TariffDimensionType, cost: &str, vat: &str, segments: Vec<PricedSegment>) -> DimensionCost {
    DimensionCost { dimension: d, measured: n("1"), billed: n("1"), cost: n(cost), vat: n(vat), segments }
}

fn tariff(min: Option<Price>, max: Option<Price>) -> Tariff {
    Tariff {
        id: ocpi_kit::types::cistring::CiString::new("1").unwrap(),
        tariff_type: None,
        elements: Vec::new(),
        tax_included: TaxIncluded::No,
        min_price: min,
        max_price: max,
        start_date_time: None,
        end_date_time: None,
    }
}

fn codes(b: &CostBreakdown) -> Vec<PricingNoteCode> {
    b.notes.iter().map(|note| note.code).collect()
}

#[test]
fn a_simple_energy_session_is_totalled_with_its_vat() {
    // 20 kWh at 0.25 with 10% VAT: 5.00 before tax, 5.50 after.
    let dims = vec![dimension(
        TariffDimensionType::Energy,
        "5.00",
        "0.50",
        vec![segment("20", "0.25", Some("10.0"), "5.00", "0.500", TaxBasis::Excluded)],
    )];
    let b = PricingEngine::new().finish(dims, &tariff(None, None), Vec::new());
    assert_eq!(b.total_excl_vat, n("5.00"));
    assert_eq!(b.total_incl_vat, n("5.50"));
    assert_eq!(b.taxes.len(), 1);
    assert_eq!(b.taxes[0].percentage, Some(n("10")));
    assert_eq!(b.taxes[0].amount, n("0.50"));
    assert_eq!(b.taxes[0].taxable, n("5.00"));
    assert_eq!(b.tax_basis, TaxBasis::Excluded);
    assert_eq!(b.limit_applied, None);
    assert!(!b.needs_review());
    assert_eq!(b.total_vat(), n("0.50"));
}

#[test]
fn a_start_fee_and_energy_make_two_tax_lines_in_order_of_rate() {
    // Start fee 0.50 at 20%, energy 5.00 at 10%: 5.50 before tax, 6.10 after.
    let dims = vec![
        dimension(
            TariffDimensionType::Flat,
            "0.50",
            "0.10",
            vec![segment("1", "0.50", Some("20.0"), "0.50", "0.1000", TaxBasis::Excluded)],
        ),
        dimension(
            TariffDimensionType::Energy,
            "5.00",
            "0.50",
            vec![segment("20", "0.25", Some("10.0"), "5.00", "0.500", TaxBasis::Excluded)],
        ),
    ];
    let b = PricingEngine::new().finish(dims, &tariff(None, None), Vec::new());
    assert_eq!(b.total_excl_vat, n("5.50"));
    assert_eq!(b.total_incl_vat, n("6.10"));
    assert_eq!(b.taxes.len(), 2);
    assert_eq!(b.taxes[0].percentage, Some(n("10")), "the lower rate comes first");
    assert_eq!(b.taxes[1].percentage, Some(n("20")));
    assert_eq!(b.dimension_total(TariffDimensionType::Flat), n("0.50"));
    assert_eq!(b.dimension_total(TariffDimensionType::Time), Number::zero());
    assert_eq!(b.total_vat(), n("0.60"));
    assert_eq!(b.applied_components().len(), 2);
}

#[test]
fn a_minimum_price_raises_a_cheap_session() {
    // 1 kWh at 0.25 with 10% VAT under a minimum of 0.50 / 0.55.
    let dims = vec![dimension(
        TariffDimensionType::Energy,
        "0.25",
        "0.025",
        vec![segment("1", "0.25", Some("10.0"), "0.25", "0.0250", TaxBasis::Excluded)],
    )];
    let min = Price { before_taxes: n("0.50"), after_taxes: Some(n("0.55")) };
    let b = PricingEngine::new().finish(dims, &tariff(Some(min), None), Vec::new());
    assert_eq!(b.total_excl_vat, n("0.50"));
    assert_eq!(b.total_incl_vat, n("0.55"));
    assert_eq!(b.limit_applied, Some(PriceLimitApplied::Minimum));
    assert_eq!(b.taxes[0].amount, n("0.05"), "the tax lines move with the totals");
    assert_eq!(b.taxes[0].taxable, n("0.50"));
    assert_eq!(codes(&b), vec![PricingNoteCode::TotalClamped]);
    assert_eq!(
        b.notes[0].message,
        "the session metered 0.25 before tax, which the tariff's minimum price limit moved to 0.50; the tax lines \
         were moved in proportion so they still account for the difference between the two totals"
    );
}

#[test]
fn a_maximum_price_caps_an_expensive_session() {
    // 50 kWh at 0.25 (10%) and a 0.50 start fee (20%) under a maximum of 10.00 / 11.00.
    let dims = vec![
        dimension(
            TariffDimensionType::Flat,
            "0.50",
            "0.10",
            vec![segment("1", "0.50", Some("20.0"), "0.50", "0.1000", TaxBasis::Excluded)],
        ),
        dimension(
            TariffDimensionType::Energy,
            "12.50",
            "1.25",
            vec![segment("50", "0.25", Some("10.0"), "12.50", "1.250", TaxBasis::Excluded)],
        ),
    ];
    let max = Price { before_taxes: n("10.00"), after_taxes: Some(n("11.00")) };
    let b = PricingEngine::new().finish(dims, &tariff(None, Some(max)), Vec::new());
    assert_eq!(b.total_excl_vat, n("10.00"));
    assert_eq!(b.total_incl_vat, n("11.00"));
    assert_eq!(b.limit_applied, Some(PriceLimitApplied::Maximum));
    // 1.00 of tax owed, shared 1.25 : 0.10, the last line taking what is left.
    assert_eq!(b.taxes[0].amount, n("0.93"));
    assert_eq!(b.taxes[1].amount, n("0.07"));
    assert_eq!(b.total_vat(), n("1.00"));
}

#[test]
fn a_limit_without_an_after_tax_bound_moves_the_tax_in_proportion() {
    let dims = vec![dimension(
        TariffDimensionType::Energy,
        "0.25",
        "0.025",
        vec![segment("1", "0.25", Some("10.0"), "0.25", "0.0250", TaxBasis::Excluded)],
    )];
    let min = Price { before_taxes: n("0.50"), after_taxes: None };
    let b = PricingEngine::new().finish(dims, &tariff(Some(min), None), Vec::new());
    assert_eq!(b.total_excl_vat, n("0.50"));
    assert_eq!(b.total_incl_vat, n("0.55"), "0.50 plus the tax doubled with the base");
}

#[test]
fn a_negative_vat_is_held_at_the_exclusive_total() {
    let dims = vec![dimension(
        TariffDimensionType::Energy,
        "5.00",
        "-0.50",
        vec![segment("20", "0.25", Some("-10"), "5.00", "-0.500", TaxBasis::Excluded)],
    )];
    let b = PricingEngine::new().finish(dims, &tariff(None, None), Vec::new());
    assert_eq!(b.total_excl_vat, n("5.00"));
    assert_eq!(b.total_incl_vat, n("5.00"));
    assert_eq!(codes(&b), vec![PricingNoteCode::NegativeTax]);
    assert!(b.notes[0].message.starts_with("the price components of this tariff describe -0.50 of tax"));
    assert_eq!(b.total_vat(), Number::zero());
}

#[test]
fn tax_owed_that_no_rate_accounts_for_becomes_one_unattributed_line() {
    let dims = vec![dimension(
        TariffDimensionType::Energy,
        "0.25",
        "0",
        vec![segment("1", "0.25", None, "0.25", "0", TaxBasis::Excluded)],
    )];
    let min = Price { before_taxes: n("0.50"), after_taxes: Some(n("0.60")) };
    let b = PricingEngine::new().finish(dims, &tariff(Some(min), None), Vec::new());
    assert_eq!(b.total_excl_vat, n("0.50"));
    assert_eq!(b.total_incl_vat, n("0.60"));
    assert_eq!(b.taxes.len(), 1);
    assert_eq!(b.taxes[0].percentage, None);
    assert_eq!(b.taxes[0].amount, n("0.10"));
    assert_eq!(b.taxes[0].taxable, n("0.50"));
    assert_eq!(codes(&b), vec![PricingNoteCode::TotalClamped, PricingNoteCode::UnattributedTax]);
    assert!(b.notes[1].message.starts_with("0.10 of tax is owed"));
}

#[test]
fn segments_at_one_rate_share_a_line_and_quiet_ones_make_none() {
    let dims = vec![
        dimension(
            TariffDimensionType::Energy,
            "1.00",
            "0.10",
            vec![
                segment("2", "0.25", Some("10"), "0.50", "0.05", TaxBasis::Excluded),
                segment("2", "0.25", Some("10.0"), "0.50", "0.05", TaxBasis::Excluded),
            ],
        ),
        dimension(
            TariffDimensionType::ParkingTime,
            "0",
            "0",
            vec![segment("1", "0", None, "0", "0", TaxBasis::Excluded)],
        ),
    ];
    let b = PricingEngine::new().finish(dims, &tariff(None, None), Vec::new());
    assert_eq!(b.taxes.len(), 1, "10 and 10.0 are the same rate; the untaxed stretch says nothing");
    assert_eq!(b.taxes[0].taxable, n("1.00"));
    assert_eq!(b.taxes[0].amount, n("0.10"));
    assert_eq!(b.total_incl_vat, n("1.10"));
}

#[test]
fn tariffs_that_disagree_about_tax_make_a_mixed_breakdown() {
    let dims = vec![
        dimension(
            TariffDimensionType::Energy,
            "1.00",
            "0.10",
            vec![segment("4", "0.25", Some("10"), "1.00", "0.10", TaxBasis::Excluded)],
        ),
        dimension(
            TariffDimensionType::Time,
            "1.00",
            "0.20",
            vec![segment("1", "1.20", Some("20"), "1.00", "0.20", TaxBasis::Included)],
        ),
    ];
    let b = PricingEngine::new().finish(dims, &tariff(None, None), Vec::new());
    assert_eq!(b.tax_basis, TaxBasis::Mixed);
    assert_eq!(codes(&b), vec![PricingNoteCode::MixedTaxBasis]);
    assert!(b.needs_review());
    assert_eq!(b.notes_with(PricingNoteCode::MixedTaxBasis).len(), 1);
    assert_eq!(b.notes_with(PricingNoteCode::NegativeTax).len(), 0);
}

#[test]
fn nothing_priced_is_a_zero_breakdown_with_taxes_excluded() {
    let b = PricingEngine::new().finish(Vec::new(), &tariff(None, None), Vec::new());
    assert_eq!(b.total_excl_vat, Number::zero());
    assert_eq!(b.total_incl_vat, Number::zero());
    assert!(b.taxes.is_empty());
    assert_eq!(b.tax_basis, TaxBasis::Excluded);
    assert!(b.dimension(TariffDimensionType::Energy).is_none());
}

#[test]
fn net_prices_get_their_tax_on_top() {
    let engine = PricingEngine::new();
    let mut notes = Vec::new();
    let (net, tax) = engine.split_tax(n("5.00"), Some(n("10")), TaxBasis::Excluded, &mut notes);
    assert_eq!((net, tax), (n("5.00"), n("0.5")));
    let (net, tax) = engine.split_tax(n("5.00"), None, TaxBasis::Excluded, &mut notes);
    assert_eq!((net, tax), (n("5.00"), Number::zero()));
    assert!(notes.is_empty());
}

#[test]
fn gross_prices_have_the_tax_taken_back_out() {
    let engine = PricingEngine::new();
    let mut notes = Vec::new();
    // 1.20 including 20% is 1.00 and 0.20.
    let (net, tax) = engine.split_tax(n("1.20"), Some(n("20")), TaxBasis::Included, &mut notes);
    assert_eq!(net, n("1"));
    assert_eq!(tax, n("0.20"));
    // 1.00 including 21%: the net is rounded and the tax is what is left.
    let (net, tax) = engine.split_tax(n("1.00"), Some(n("21")), TaxBasis::Included, &mut notes);
    assert_eq!(net, n("0.8264"));
    assert_eq!(tax, n("0.1736"));
    assert!(notes.is_empty());
}

#[test]
fn gross_prices_without_a_rate_are_noted_once() {
    let engine = PricingEngine::new();
    let mut notes = Vec::new();
    let (net, tax) = engine.split_tax(n("2.00"), None, TaxBasis::Included, &mut notes);
    assert_eq!((net, tax), (n("2.00"), Number::zero()));
    engine.split_tax(n("3.00"), None, TaxBasis::Included, &mut notes);
    assert_eq!(notes.len(), 1);
    assert_eq!(notes[0].code, PricingNoteCode::TaxIncludedWithoutRate);
}

#[test]
fn a_rate_on_a_tariff_without_tax_is_ignored_and_noted() {
    let engine = PricingEngine::new();
    let mut notes = Vec::new();
    let (net, tax) = engine.split_tax(n("2.00"), Some(n("19")), TaxBasis::NotApplicable, &mut notes);
    assert_eq!((net, tax), (n("2.00"), Number::zero()));
    assert_eq!(notes[0].code, PricingNoteCode::TaxRateIgnored);
    let mut quiet = Vec::new();
    engine.split_tax(n("2.00"), None, TaxBasis::NotApplicable, &mut quiet);
    assert!(quiet.is_empty());
}

#[test]
fn a_minus_100_percent_rate_on_gross_prices_leaves_no_tax() {
    let engine = PricingEngine::new();
    let mut notes = Vec::new();
    let (net, tax) = engine.split_tax(n("2.00"), Some(n("-100")), TaxBasis::Included, &mut notes);
    assert_eq!((net, tax), (n("2.00"), Number::zero()));
}

#[test]
fn presenting_taxes_makes_the_lines_add_up_to_what_is_owed() {
    let engine = PricingEngine::new();
    let mut notes = Vec::new();
    let mut lines = vec![
        TaxLine { percentage: Some(n("10")), taxable: n("1.00"), amount: n("0.10") },
        TaxLine { percentage: Some(n("20")), taxable: n("1.00"), amount: n("0.20") },
    ];
    engine.present_taxes(&mut lines, n("0.31"), Number::one(), n("2.00"), &mut notes);
    assert_eq!(lines[0].amount, n("0.10"));
    assert_eq!(lines[1].amount, n("0.21"), "the last line absorbs the residue");
    let mut nothing = vec![TaxLine { percentage: Some(n("10")), taxable: n("1.005"), amount: Number::zero() }];
    engine.present_taxes(&mut nothing, Number::zero(), Number::one(), n("1"), &mut notes);
    assert_eq!(nothing[0].taxable, n("1.01"));
    assert!(notes.is_empty());
}

#[test]
fn a_note_reads_with_its_code_and_moment() {
    let note = PricingNote::new(PricingNoteCode::NoPriceComponent, Some(at()), "nothing prices ENERGY");
    assert_eq!(note.to_string(), "[no_price_component] at 2024-01-15T10:00:00Z: nothing prices ENERGY");
    let note = PricingNote::new(PricingNoteCode::TotalClamped, None, "moved");
    assert_eq!(note.to_string(), "[total_clamped] moved");
}

#[test]
fn a_dimension_reports_its_cost_with_vat_and_whether_it_was_quantised() {
    let mut d = dimension(TariffDimensionType::Energy, "5.00", "0.50", Vec::new());
    assert_eq!(d.cost_with_vat(), n("5.50"));
    assert!(!d.was_quantised());
    d.billed = n("1.5");
    assert!(d.was_quantised());
    d.billed = n("1.000");
    assert!(!d.was_quantised(), "the same value at another scale is the same quantity");
}

#[test]
fn a_zero_currency_policy_rounds_totals_to_whole_units() {
    let dims = vec![dimension(
        TariffDimensionType::Energy,
        "512.5",
        "0",
        vec![segment("2050", "0.25", None, "512.5", "0", TaxBasis::Excluded)],
    )];
    let b = PricingEngine::with_policy(PricingPolicy::zero_decimal_currency()).finish(dims, &tariff(None, None), Vec::new());
    assert_eq!(b.total_excl_vat, n("513"));
    assert_eq!(PricingEngine::new().policy().currency_decimals, 2);
}

#[test]
fn a_breakdown_renders_its_rows_totals_and_notes() {
    let dims = vec![dimension(
        TariffDimensionType::Energy,
        "0.25",
        "0.025",
        vec![segment("1", "0.25", Some("10.0"), "0.25", "0.0250", TaxBasis::Excluded)],
    )];
    let min = Price { before_taxes: n("0.50"), after_taxes: Some(n("0.55")) };
    let b = PricingEngine::new().finish(dims, &tariff(Some(min), None), Vec::new());
    let mut expected = String::new();
    expected.push_str(&format!(
        "{:<13} {:>10} billed ({:>10} measured)  = {:>10} excl. VAT, {:>10} VAT\n",
        "ENERGY", "1", "1", "0.25", "0.025"
    ));
    expected.push_str(&format!("{:<13} {:>10} on {:>10}\n", "VAT 10.0%", "0.05", "0.50"));
    expected.push_str(&format!("{:<13} the tariff's minimum price limit moved the total\n", "LIMIT"));
    expected.push_str(&format!("{:<13} {:>10} excl. VAT, {:>10} incl. VAT\n", "TOTAL", "0.50", "0.55"));
    expected.push_str(&format!("\n[total_clamped] {}", b.notes[0].message));
    assert_eq!(b.to_string(), expected);
}
