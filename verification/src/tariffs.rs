//! Tariffs: what a session costs and why, the codes pricing and tariff checks report with, and
//! the lints that find tariffs that conform and still bill the wrong amount.

pub mod breakdown;
pub mod codes;
pub mod engine;
pub mod input;
pub mod lint;
pub mod model;
pub mod policy;
pub mod quantise;
pub mod pricing;
pub mod restrictions;
pub mod tax_lines;
pub mod verify;
pub mod zone;

pub use codes::{
    AppliedComponent, Discrepancy, PriceLimitApplied, PricingNoteCode, Quantisation, TariffLint,
    TariffLintCode, TaxBasis,
};
pub use model::{
    DayOfWeek, Price, PriceComponent, ReservationRestrictionType, Tariff, TariffDimensionType,
    TariffElement, TariffRestrictions, TaxIncluded,
};
pub use lint::lint;
pub use policy::PricingPolicy;
pub use breakdown::{CostBreakdown, DimensionCost, PricedSegment, PricingNote, TaxLine};
pub use engine::PricingEngine;
pub use input::{PricedPeriod, PricedSession, ProfileType};
pub use zone::{PricingError, TimeZone};
pub use verify::{verify_cdr, verify_cdr_within, CdrClaims, CdrVerification, Divergence};
