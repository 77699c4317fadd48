use ocpi_kit::tariffs::{PricingPolicy, Quantisation};
use ocpi_kit::types::number::Number;
use ocpi_kit::types::RoundingStrategy;

fn n(s: &str) -> Number {
    s.parse().unwrap()
}

#[test]
fn energy_is_quantised_in_watt_hours() {
    // 115.2 Wh is billed as 116 Wh; with a 25 Wh step as 125 Wh; with a 500 Wh step as 500 Wh.
    assert_eq!(Quantisation::StepSize.apply(n("0.1152"), 1, 1000), n("0.116"));
    assert_eq!(Quantisation::StepSize.apply(n("0.1152"), 25, 1000), n("0.125"));
    assert_eq!(Quantisation::StepSize.apply(n("0.1152"), 500, 1000), n("0.5"));
}

#[test]
fn time_is_quantised_in_seconds() {
    // 8 minutes with a 300-second step is billed as 10 minutes.
    let eight_minutes = n("8") / n("60");
    let billed = Quantisation::StepSize.apply(eight_minutes, 300, 3600);
    assert_eq!(billed, n("10") / n("60"));
    // 5.4 kWh with a 500 Wh step becomes 5.5 kWh.
    assert_eq!(Quantisation::StepSize.apply(n("5.4"), 500, 1000), n("5.5"));
}

#[test]
fn an_exact_multiple_is_left_alone() {
    assert_eq!(Quantisation::StepSize.apply(n("5.5"), 500, 1000), n("5.5"));
    assert_eq!(Quantisation::StepSize.apply(n("2"), 1, 1000), n("2"));
}

#[test]
fn disabling_quantisation_bills_the_measured_amount() {
    assert_eq!(Quantisation::Measured.apply(n("5.4"), 500, 1000), n("5.4"));
    let policy = PricingPolicy::default().without_step_size();
    assert_eq!(policy.quantisation, Quantisation::Measured);
}

#[test]
fn rounding_half_goes_away_from_zero_by_default() {
    let p = PricingPolicy::default();
    assert_eq!(p.round_currency(n("2.005")), n("2.01"));
    assert_eq!(p.round_currency(n("-2.005")), n("-2.01"));
    assert_eq!(p.round_component(n("0.00005")), n("0.0001"));
    assert_eq!(PricingPolicy::zero_decimal_currency().round_currency(n("2.5")), n("3"));
}

#[test]
fn arithmetic_is_exact() {
    let sum: Number = ["0.1", "0.2"].into_iter().map(n).fold(Number::zero(), |a, b| a + b);
    assert_eq!(sum, n("0.3"), "0.1 + 0.2 is exactly 0.3 in decimal");
}

#[test]
fn a_zero_step_size_bills_the_measured_amount() {
    assert_eq!(Quantisation::StepSize.apply(n("0.1152"), 0, 1000), n("0.1152"));
}

#[test]
fn checked_arithmetic_reports_overflow_and_a_zero_divisor() {
    let max = n("79228162514264337593543950335");
    assert!(max.checked_add(Number::one()).is_none());
    assert!(max.checked_mul(n("2")).is_none());
    assert!(Number::one().checked_div(Number::zero()).is_none());
    assert_eq!(n("1.5").checked_sub(n("0.5")), Some(Number::one()));
    assert_eq!(n("1.25").checked_mul(n("4")), Some(n("5")));
    assert_eq!(n("1") / n("4"), n("0.25"));
    assert_eq!(-n("2.5"), n("-2.5"));
}

#[test]
fn ceil_rounds_toward_positive_infinity() {
    assert_eq!(n("3.141").ceil(), n("4"));
    assert_eq!(n("-3.5").ceil(), n("-3"));
    assert_eq!(n("3").ceil(), n("3"));
    assert_eq!(n("3.141").ceil().scale(), 0);
}

#[test]
fn every_rounding_strategy_is_passed_through() {
    let mut p = PricingPolicy::default();
    p.rounding = RoundingStrategy::ToZero;
    assert_eq!(p.round_currency(n("2.009")), n("2.00"));
    p.rounding = RoundingStrategy::MidpointNearestEven;
    assert_eq!(p.round_currency(n("2.005")), n("2.00"));
    assert_eq!(p.round_currency(n("2.015")), n("2.02"));
    assert_eq!(n("2.005").round_dp(2), n("2.01"));
    assert_eq!(n("2.5").round_dp(3), n("2.5"));
}

#[test]
fn a_product_that_fits_is_exact() {
    let a: ocpi_kit::types::number::Number = "1.5".parse().unwrap();
    let b: ocpi_kit::types::number::Number = "2.50".parse().unwrap();
    let p = a.checked_mul(b).unwrap();
    assert_eq!(p.to_string(), "3.750");
    let zero: ocpi_kit::types::number::Number = "0.00".parse().unwrap();
    assert_eq!(zero.checked_mul(a).unwrap().to_string(), "0");
}
