//! The vocabulary of pricing and of checking tariffs: the codes a breakdown, a lint and a CDR
//! check report with.

use vstd::prelude::*;

use crate::strings::{dec_digits, push_decimal, push_str};

verus! {

/// What a note on a cost breakdown says happened.
#[derive(Clone, Copy, Debug, PartialEq, Eq, Hash, Structural)]
pub enum PricingNoteCode {
    /// A dimension was consumed that no Tariff Element prices.
    NoPriceComponent,
    /// A Charging Period outlasted the Price Component that priced it.
    PeriodSpansPriceChange,
    /// The Charging Periods are not in chronological order.
    PeriodsOutOfOrder,
    /// A `min_price` or `max_price` moved the total, and the tax lines were moved with it.
    TotalClamped,
    /// The tax the tariff describes came out negative.
    NegativeTax,
    /// Tax was owed that no rate in the session accounts for.
    UnattributedTax,
    /// The Tariff's prices include tax, and no price component says at what rate.
    TaxIncludedWithoutRate,
    /// A price component names a rate on a Tariff that says no tax applies.
    TaxRateIgnored,
    /// Periods of one session were priced by Tariffs that disagree about whether prices include tax.
    MixedTaxBasis,
}

/// The slug of a [`PricingNoteCode`].
pub open spec fn pricing_note_code_slug(v: PricingNoteCode) -> Seq<char> {
    match v {
        PricingNoteCode::NoPriceComponent => "no_price_component"@,
        PricingNoteCode::PeriodSpansPriceChange => "period_spans_price_change"@,
        PricingNoteCode::PeriodsOutOfOrder => "periods_out_of_order"@,
        PricingNoteCode::TotalClamped => "total_clamped"@,
        PricingNoteCode::NegativeTax => "negative_tax"@,
        PricingNoteCode::UnattributedTax => "unattributed_tax"@,
        PricingNoteCode::TaxIncludedWithoutRate => "tax_included_without_rate"@,
        PricingNoteCode::TaxRateIgnored => "tax_rate_ignored"@,
        PricingNoteCode::MixedTaxBasis => "mixed_tax_basis"@,
    }
}

impl PricingNoteCode {
    /// A short, stable, machine-readable slug.
    pub fn as_str(self) -> (s: &'static str)
        ensures
            s@ == pricing_note_code_slug(self),
    {
        match self {
            PricingNoteCode::NoPriceComponent => "no_price_component",
            PricingNoteCode::PeriodSpansPriceChange => "period_spans_price_change",
            PricingNoteCode::PeriodsOutOfOrder => "periods_out_of_order",
            PricingNoteCode::TotalClamped => "total_clamped",
            PricingNoteCode::NegativeTax => "negative_tax",
            PricingNoteCode::UnattributedTax => "unattributed_tax",
            PricingNoteCode::TaxIncludedWithoutRate => "tax_included_without_rate",
            PricingNoteCode::TaxRateIgnored => "tax_rate_ignored",
            PricingNoteCode::MixedTaxBasis => "mixed_tax_basis",
        }
    }
}

impl PricingNoteCode {
    /// The slug, as `Display` writes it.
    pub fn to_string(self) -> (s: String)
        ensures
            s@ == pricing_note_code_slug(self),
    {
        String::from_str(self.as_str())
    }
}

/// Whether a breakdown's prices included tax.
#[derive(Clone, Copy, Debug, PartialEq, Eq, Hash, Structural)]
pub enum TaxBasis {
    /// The prices are net; the tax each component names is added on top.
    Excluded,
    /// The prices are gross.
    Included,
    /// The Tariff says no tax applies at all.
    NotApplicable,
    /// Different periods of one session were priced by Tariffs that disagree about this.
    Mixed,
}

/// How a tax basis reads.
pub open spec fn tax_basis_text(b: TaxBasis) -> Seq<char> {
    match b {
        TaxBasis::Excluded => "taxes excluded from the tariff's prices"@,
        TaxBasis::Included => "taxes included in the tariff's prices"@,
        TaxBasis::NotApplicable => "no taxes applicable"@,
        TaxBasis::Mixed => "mixed: the tariffs disagree about whether prices include tax"@,
    }
}

impl TaxBasis {
    /// How the basis reads, as `Display` writes it.
    pub fn to_string(self) -> (s: String)
        ensures
            s@ == tax_basis_text(self),
    {
        String::from_str(
            match self {
                TaxBasis::Excluded => "taxes excluded from the tariff's prices",
                TaxBasis::Included => "taxes included in the tariff's prices",
                TaxBasis::NotApplicable => "no taxes applicable",
                TaxBasis::Mixed => "mixed: the tariffs disagree about whether prices include tax",
            },
        )
    }
}

/// The exact Price Component that priced a segment: a Tariff id plus an index into its
/// elements and into that element's price components, which can be quoted back to the CPO.
#[derive(Clone, Debug, PartialEq, Eq)]
pub struct AppliedComponent {
    /// The `Tariff.id` the component came from.
    pub tariff_id: String,
    /// The index of the Tariff Element within that Tariff's `elements`.
    pub element_index: usize,
    /// The index of the Price Component within that element's `price_components`.
    pub component_index: usize,
    /// Whether this segment is reserved time rather than consumed time.
    pub reservation: bool,
    /// Why this element was selected, in words.
    pub because: String,
}

impl AppliedComponent {
    /// `tariff <id> element <e> component <c>`, as `Display` writes it.
    pub fn to_string(&self) -> (s: String)
        ensures
            s@ == "tariff "@ + self.tariff_id@ + " element "@ + dec_digits(self.element_index as nat)
                + " component "@ + dec_digits(self.component_index as nat),
    {
        let mut s = String::new();
        push_str(&mut s, "tariff ");
        push_str(&mut s, self.tariff_id.as_str());
        push_str(&mut s, " element ");
        push_decimal(&mut s, self.element_index as u64);
        push_str(&mut s, " component ");
        push_decimal(&mut s, self.component_index as u64);
        s
    }
}

/// Which price limit a breakdown applied.
#[derive(Clone, Copy, Debug, PartialEq, Eq, Hash, Structural)]
pub enum PriceLimitApplied {
    /// The session cost less than `Tariff.min_price`, so the minimum was charged.
    Minimum,
    /// The session cost more than `Tariff.max_price`, so the maximum was charged.
    Maximum,
}

/// How a measured quantity is turned into the quantity billed.
#[derive(Clone, Copy, Debug, PartialEq, Eq, Hash, Structural)]
#[non_exhaustive]
pub enum Quantisation {
    /// Round up to whole `step_size` blocks, as the specification defines.
    StepSize,
    /// Bill the measured quantity.
    Measured,
}

/// What kind of problem a [`TariffLint`] describes.
#[derive(Clone, Copy, Debug, PartialEq, Eq, Hash, PartialOrd, Ord, Structural)]
pub enum TariffLintCode {
    /// An earlier unrestricted element already prices this dimension, so this Price Component can never apply.
    UnreachableElement,
    /// An element prices the same dimension twice; only the first is used.
    DuplicateDimension,
    /// A restrictions object with nothing set.
    EmptyRestrictions,
    /// A restriction no session can satisfy.
    ImpossibleRestriction,
    /// A time window whose ends coincide.
    WholeDayWindow,
    /// A `step_size` of 0 on a dimension that is not FLAT.
    ZeroStepSize,
    /// A `step_size` above 1 on a FLAT fee, which has no unit to count.
    FlatStepSize,
    /// A TIME `step_size` that parking time absorbs.
    UnusedTimeStepSize,
    /// A reservation element pricing a dimension a reservation cannot have.
    ReservationDimension,
    /// No Price Component prices ENERGY or TIME.
    NothingPricedByUse,
    /// A VAT rate on a Tariff that says no tax applies.
    TaxRateWithoutTax,
    /// Prices include tax and no component says at what rate.
    TaxIncludedWithoutRate,
    /// A VAT percentage outside 0 to 100.
    ImplausibleVat,
    /// The minimum price is above the maximum.
    PriceLimitsCross,
    /// The Tariff ends at or before it starts.
    NeverActive,
}

/// The slug of a [`TariffLintCode`].
pub open spec fn tariff_lint_code_slug(v: TariffLintCode) -> Seq<char> {
    match v {
        TariffLintCode::UnreachableElement => "unreachable_element"@,
        TariffLintCode::DuplicateDimension => "duplicate_dimension"@,
        TariffLintCode::EmptyRestrictions => "empty_restrictions"@,
        TariffLintCode::ImpossibleRestriction => "impossible_restriction"@,
        TariffLintCode::WholeDayWindow => "whole_day_window"@,
        TariffLintCode::ZeroStepSize => "zero_step_size"@,
        TariffLintCode::FlatStepSize => "flat_step_size"@,
        TariffLintCode::UnusedTimeStepSize => "unused_time_step_size"@,
        TariffLintCode::ReservationDimension => "reservation_dimension"@,
        TariffLintCode::NothingPricedByUse => "nothing_priced_by_use"@,
        TariffLintCode::TaxRateWithoutTax => "tax_rate_without_tax"@,
        TariffLintCode::TaxIncludedWithoutRate => "tax_included_without_rate"@,
        TariffLintCode::ImplausibleVat => "implausible_vat"@,
        TariffLintCode::PriceLimitsCross => "price_limits_cross"@,
        TariffLintCode::NeverActive => "never_active"@,
    }
}

impl TariffLintCode {
    /// A short, stable, machine-readable slug.
    pub fn as_str(self) -> (s: &'static str)
        ensures
            s@ == tariff_lint_code_slug(self),
    {
        match self {
            TariffLintCode::UnreachableElement => "unreachable_element",
            TariffLintCode::DuplicateDimension => "duplicate_dimension",
            TariffLintCode::EmptyRestrictions => "empty_restrictions",
            TariffLintCode::ImpossibleRestriction => "impossible_restriction",
            TariffLintCode::WholeDayWindow => "whole_day_window",
            TariffLintCode::ZeroStepSize => "zero_step_size",
            TariffLintCode::FlatStepSize => "flat_step_size",
            TariffLintCode::UnusedTimeStepSize => "unused_time_step_size",
            TariffLintCode::ReservationDimension => "reservation_dimension",
            TariffLintCode::NothingPricedByUse => "nothing_priced_by_use",
            TariffLintCode::TaxRateWithoutTax => "tax_rate_without_tax",
            TariffLintCode::TaxIncludedWithoutRate => "tax_included_without_rate",
            TariffLintCode::ImplausibleVat => "implausible_vat",
            TariffLintCode::PriceLimitsCross => "price_limits_cross",
            TariffLintCode::NeverActive => "never_active",
        }
    }
}

/// One thing about a Tariff worth a second look.
#[derive(Clone, Debug, PartialEq, Eq)]
pub struct TariffLint {
    /// What kind of problem.
    pub code: TariffLintCode,
    /// RFC 6901 JSON Pointer to the value concerned.
    pub pointer: String,
    /// What is wrong, in words.
    pub message: String,
}

/// A lint as text: `[code] pointer: message`.
pub open spec fn lint_text(code: TariffLintCode, pointer: Seq<char>, message: Seq<char>) -> Seq<char> {
    "["@ + tariff_lint_code_slug(code) + "] "@ + pointer + ": "@ + message
}

impl TariffLint {
    /// The lint as text, as `Display` writes it.
    pub fn to_string(&self) -> (s: String)
        ensures
            s@ == lint_text(self.code, self.pointer@, self.message@),
    {
        let mut s = String::new();
        push_str(&mut s, "[");
        push_str(&mut s, self.code.as_str());
        push_str(&mut s, "] ");
        push_str(&mut s, self.pointer.as_str());
        push_str(&mut s, ": ");
        push_str(&mut s, self.message.as_str());
        s
    }
}

/// Where a CDR and the recomputed breakdown disagree.
#[derive(Clone, Copy, Debug, PartialEq, Eq, Hash, Structural)]
pub enum Discrepancy {
    /// The total cost before taxes.
    TotalBeforeTaxes,
    /// The total cost after taxes.
    TotalAfterTaxes,
    /// The cost of the energy.
    EnergyCost,
    /// The cost of the charging time.
    TimeCost,
    /// The cost of the parking time.
    ParkingCost,
    /// The fixed cost.
    FixedCost,
    /// The cost of the reservation.
    ReservationCost,
    /// The CDR's own total energy against its charging periods.
    EnergyVolume,
    /// The CDR's own total time against the session duration.
    TimeVolume,
    /// The CDR's own total parking time against its charging periods.
    ParkingVolume,
}

/// The slug of a [`Discrepancy`].
pub open spec fn discrepancy_slug(v: Discrepancy) -> Seq<char> {
    match v {
        Discrepancy::TotalBeforeTaxes => "total_before_taxes"@,
        Discrepancy::TotalAfterTaxes => "total_after_taxes"@,
        Discrepancy::EnergyCost => "energy_cost"@,
        Discrepancy::TimeCost => "time_cost"@,
        Discrepancy::ParkingCost => "parking_cost"@,
        Discrepancy::FixedCost => "fixed_cost"@,
        Discrepancy::ReservationCost => "reservation_cost"@,
        Discrepancy::EnergyVolume => "energy_volume"@,
        Discrepancy::TimeVolume => "time_volume"@,
        Discrepancy::ParkingVolume => "parking_volume"@,
    }
}

impl Discrepancy {
    /// A short, stable, machine-readable slug.
    pub fn as_str(self) -> (s: &'static str)
        ensures
            s@ == discrepancy_slug(self),
    {
        match self {
            Discrepancy::TotalBeforeTaxes => "total_before_taxes",
            Discrepancy::TotalAfterTaxes => "total_after_taxes",
            Discrepancy::EnergyCost => "energy_cost",
            Discrepancy::TimeCost => "time_cost",
            Discrepancy::ParkingCost => "parking_cost",
            Discrepancy::FixedCost => "fixed_cost",
            Discrepancy::ReservationCost => "reservation_cost",
            Discrepancy::EnergyVolume => "energy_volume",
            Discrepancy::TimeVolume => "time_volume",
            Discrepancy::ParkingVolume => "parking_volume",
        }
    }
}

impl Discrepancy {
    /// Whether this compares the CDR with itself rather than with the tariff: a volume that does
    /// not add up.
    pub fn is_self_inconsistency(self) -> (r: bool)
        ensures
            r == (self == Discrepancy::EnergyVolume || self == Discrepancy::TimeVolume || self
                == Discrepancy::ParkingVolume),
    {
        match self {
            Discrepancy::EnergyVolume | Discrepancy::TimeVolume | Discrepancy::ParkingVolume => true,
            _ => false,
        }
    }
}

} // verus!
