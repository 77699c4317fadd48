//! Checking a CDR against a recomputation of it: which figures disagree, and by how much.
//!
//! The costs a CDR reports are compared with a breakdown priced from its own Charging Periods
//! and Tariff; its volumes are compared with what those periods add up to, and its total time
//! with its own two timestamps.

use vstd::prelude::*;

use crate::strings::push_str;
use crate::tariffs::breakdown::{first_dimension, CostBreakdown, PricedSegment};
use crate::tariffs::codes::{discrepancy_slug, Discrepancy};
use crate::tariffs::model::TariffDimensionType;
use crate::types::datetime::DateTime;
use crate::types::number::{
    decimal_checked_difference, decimal_checked_quotient, decimal_checked_sum, decimal_text, numeric_lt,
    Number,
};

verus! {

/// What a CDR claims, as far as checking it against a recomputation reads it: its timestamps,
/// its totals, and the costs it breaks out, each cost before taxes.
#[derive(Clone, Debug)]
pub struct CdrClaims {
    /// When the session started.
    pub start_date_time: DateTime,
    /// When the session ended.
    pub end_date_time: DateTime,
    /// The total cost before taxes.
    pub total_cost_before_taxes: Number,
    /// The total cost after taxes.
    pub total_cost_after_taxes: Number,
    /// The total energy charged, in kWh.
    pub total_energy: Number,
    /// The cost of the energy, before taxes, when broken out.
    pub total_energy_cost: Option<Number>,
    /// The total duration of the session, in hours.
    pub total_time: Number,
    /// The cost of the charging time, before taxes, when broken out.
    pub total_time_cost: Option<Number>,
    /// The time parked without charging, in hours, when reported.
    pub total_parking_time: Option<Number>,
    /// The cost of the parking time, before taxes, when broken out.
    pub total_parking_cost: Option<Number>,
    /// The fixed cost, before taxes, when broken out.
    pub total_fixed_cost: Option<Number>,
    /// The cost of the reservation, before taxes, when broken out.
    pub total_reservation_cost: Option<Number>,
}

/// One figure the CDR and the recomputation disagree about.
#[derive(Clone, Copy, Debug)]
pub struct Divergence {
    /// Which figure.
    pub what: Discrepancy,
    /// What the CDR says.
    pub claimed: Number,
    /// What the recomputation gives.
    pub computed: Number,
}

/// How `rust_decimal` writes `n`.
pub open spec fn figure_text(n: Number) -> Seq<char> {
    decimal_text(n.spec_mantissa(), n.spec_scale())
}

/// What a divergence compares the claim with, in words.
pub open spec fn subject_text(what: Discrepancy) -> Seq<char> {
    match what {
        Discrepancy::TimeVolume => "its own start and end timestamps give"@,
        Discrepancy::EnergyVolume | Discrepancy::ParkingVolume => "its own Charging Periods add up to"@,
        _ => "pricing its Charging Periods gives"@,
    }
}

/// How a divergence reads: the figure, the claim, what it was compared with, and the
/// difference.
pub open spec fn divergence_text(d: Divergence, difference: Number) -> Seq<char> {
    discrepancy_slug(d.what) + ": the CDR says "@ + figure_text(d.claimed) + ", "@ + subject_text(d.what) + " "@
        + figure_text(d.computed) + " (difference "@ + figure_text(difference) + ")"@
}

impl Divergence {
    /// `claimed - computed`: positive when the CDR asks for more than the recomputation supports.
    pub fn difference(&self) -> (r: Number)
        requires
            decimal_checked_difference(self.claimed, self.computed) is Some,
        ensures
            Some(r) == decimal_checked_difference(self.claimed, self.computed),
    {
        self.claimed - self.computed
    }

    /// How the divergence reads, as `Display` writes it.
    pub fn to_string(&self) -> (s: String)
        requires
            decimal_checked_difference(self.claimed, self.computed) is Some,
        ensures
            s@ == divergence_text(*self, decimal_checked_difference(self.claimed, self.computed)->Some_0),
    {
        let mut s = String::new();
        push_str(&mut s, self.what.as_str());
        push_str(&mut s, ": the CDR says ");
        let claimed = self.claimed.to_string();
        push_str(&mut s, claimed.as_str());
        push_str(&mut s, ", ");
        push_str(
            &mut s,
            match self.what {
                Discrepancy::TimeVolume => "its own start and end timestamps give",
                Discrepancy::EnergyVolume | Discrepancy::ParkingVolume => "its own Charging Periods add up to",
                _ => "pricing its Charging Periods gives",
            },
        );
        push_str(&mut s, " ");
        let computed = self.computed.to_string();
        push_str(&mut s, computed.as_str());
        push_str(&mut s, " (difference ");
        let difference = self.difference().to_string();
        push_str(&mut s, difference.as_str());
        push_str(&mut s, ")");
        s
    }
}

/// The result of checking a CDR against a recomputation of it.
#[derive(Clone, Debug)]
pub struct CdrVerification {
    /// Every figure that differs by more than the tolerance, in the order of [`Discrepancy`].
    pub divergences: Vec<Divergence>,
    /// The tolerance the comparison used.
    pub tolerance: Number,
}

impl CdrVerification {
    /// Whether every figure is within tolerance of the recomputation.
    pub fn agrees(&self) -> (r: bool)
        ensures
            r == (self.divergences@.len() == 0),
    {
        self.divergences.len() == 0
    }

    /// Whether the CDR's own quantities disagree with its own Charging Periods.
    pub fn is_self_inconsistent(&self) -> (r: bool)
        ensures
            r == exists|i: int|
                0 <= i < self.divergences@.len() && #[trigger] is_volume(self.divergences@[i].what),
    {
        let mut i: usize = 0;
        while i < self.divergences.len()
            invariant
                i <= self.divergences.len(),
                forall|j: int| 0 <= j < i ==> !#[trigger] is_volume(self.divergences@[j].what),
            decreases self.divergences.len() - i,
        {
            if self.divergences[i].what.is_self_inconsistency() {
                proof {
                    assert(is_volume(self.divergences@[i as int].what));
                }
                return true;
            }
            i = i + 1;
        }
        false
    }

    /// The divergence for one figure, if there is one.
    pub fn divergence(&self, what: Discrepancy) -> (r: Option<&Divergence>)
        ensures
            r matches Some(d) ==> d.what == what && exists|i: int|
                0 <= i < self.divergences@.len() && self.divergences@[i] == *d,
            r is None ==> forall|i: int| 0 <= i < self.divergences@.len() ==> self.divergences@[i].what != what,
    {
        let mut i: usize = 0;
        while i < self.divergences.len()
            invariant
                i <= self.divergences.len(),
                forall|j: int| 0 <= j < i ==> self.divergences@[j].what != what,
            decreases self.divergences.len() - i,
        {
            if self.divergences[i].what == what {
                return Some(&self.divergences[i]);
            }
            i = i + 1;
        }
        None
    }
}

/// A volume the CDR reports about itself, rather than a cost.
pub open spec fn is_volume(what: Discrepancy) -> bool {
    what == Discrepancy::EnergyVolume || what == Discrepancy::TimeVolume || what == Discrepancy::ParkingVolume
}

/// Whether `claimed` and `computed` differ by more than `tolerance`; `None` where the
/// subtraction overflows.
pub open spec fn beyond(claimed: Number, computed: Number, tolerance: Number) -> Option<bool> {
    match decimal_checked_difference(claimed, computed) {
        Some(d) => Some(numeric_lt(tolerance, d.spec_abs())),
        None => None,
    }
}

/// The divergence about `what`, if `claimed` is beyond `tolerance` of `computed`.
pub open spec fn entry(what: Discrepancy, claimed: Number, computed: Number, tolerance: Number) -> Option<Seq<Divergence>> {
    match beyond(claimed, computed, tolerance) {
        Some(true) => Some(seq![Divergence { what, claimed, computed }]),
        Some(false) => Some(Seq::empty()),
        None => None,
    }
}

/// The divergence about an optional claim: none when the CDR does not make it.
pub open spec fn optional_entry(what: Discrepancy, claimed: Option<Number>, computed: Number, tolerance: Number) -> Option<Seq<Divergence>> {
    match claimed {
        Some(c) => entry(what, c, computed, tolerance),
        None => Some(Seq::empty()),
    }
}

/// The costs of the `TIME` segments of `segs` split into charging time and reserved time,
/// added in order; `None` where an addition overflows.
pub open spec fn time_split(segs: Seq<PricedSegment>) -> Option<(Number, Number)>
    decreases segs.len(),
{
    if segs.len() == 0 {
        Some((Number::from_integer(0), Number::from_integer(0)))
    } else {
        match time_split(segs.drop_last()) {
            None => None,
            Some((charging, reserved)) => if segs.last().applied.reservation {
                match decimal_checked_sum(reserved, segs.last().cost) {
                    Some(r) => Some((charging, r)),
                    None => None,
                }
            } else {
                match decimal_checked_sum(charging, segs.last().cost) {
                    Some(c) => Some((c, reserved)),
                    None => None,
                }
            },
        }
    }
}

/// The `TIME` segments of a breakdown: those of its first `TIME` dimension.
pub open spec fn time_segments(b: CostBreakdown) -> Seq<PricedSegment> {
    match first_dimension(b.dimensions@, TariffDimensionType::Time) {
        Some(i) => b.dimensions@[i].segments@,
        None => Seq::empty(),
    }
}

/// The cost of a dimension in a breakdown: that of its first entry, or zero.
pub open spec fn dimension_cost(b: CostBreakdown, d: TariffDimensionType) -> Number {
    match first_dimension(b.dimensions@, d) {
        Some(i) => b.dimensions@[i].cost,
        None => Number::from_integer(0),
    }
}

/// The measured quantity of a dimension in a breakdown: that of its first entry, or zero.
pub open spec fn dimension_measured(b: CostBreakdown, d: TariffDimensionType) -> Number {
    match first_dimension(b.dimensions@, d) {
        Some(i) => b.dimensions@[i].measured,
        None => Number::from_integer(0),
    }
}

/// The session's duration in hours, from its two timestamps; `None` where the division
/// overflows.
pub open spec fn session_hours_of(cdr: CdrClaims) -> Option<Number> {
    decimal_checked_quotient(
        Number::from_integer(cdr.end_date_time.spec_unix() - cdr.start_date_time.spec_unix()),
        Number::from_integer(3600),
    )
}

/// `a` followed by `b`; `None` where either is.
pub open spec fn cat(a: Option<Seq<Divergence>>, b: Option<Seq<Divergence>>) -> Option<Seq<Divergence>> {
    match (a, b) {
        (Some(x), Some(y)) => Some(x + y),
        _ => None,
    }
}

/// The comparisons of the costs a CDR may break out, against the priced `energy`, `charging`
/// time, `parking`, `flat` fee and `reserved` time: energy and charging time always, and the
/// other three where a flat fee can be attributed, that is where there is none or nothing
/// parked or reserved.
pub open spec fn cost_entries(
    cdr: CdrClaims,
    tolerance: Number,
    energy: Number,
    charging: Number,
    parking: Number,
    flat: Number,
    reserved: Number,
) -> Option<Seq<Divergence>> {
    let attributable = flat.spec_mantissa() == 0 || (parking.spec_mantissa() == 0 && reserved.spec_mantissa() == 0);
    let energy_and_time = cat(
        optional_entry(Discrepancy::EnergyCost, cdr.total_energy_cost, energy, tolerance),
        optional_entry(Discrepancy::TimeCost, cdr.total_time_cost, charging, tolerance),
    );
    if attributable {
        cat(
            cat(
                cat(energy_and_time, optional_entry(Discrepancy::ParkingCost, cdr.total_parking_cost, parking, tolerance)),
                optional_entry(Discrepancy::FixedCost, cdr.total_fixed_cost, flat, tolerance),
            ),
            optional_entry(Discrepancy::ReservationCost, cdr.total_reservation_cost, reserved, tolerance),
        )
    } else {
        energy_and_time
    }
}

/// The comparisons of the volumes a CDR reports about itself.
pub open spec fn volume_entries(cdr: CdrClaims, b: CostBreakdown, tolerance: Number, hours: Number) -> Option<Seq<Divergence>> {
    cat(
        cat(
            entry(Discrepancy::EnergyVolume, cdr.total_energy, dimension_measured(b, TariffDimensionType::Energy), tolerance),
            entry(Discrepancy::TimeVolume, cdr.total_time, hours, tolerance),
        ),
        optional_entry(
            Discrepancy::ParkingVolume,
            cdr.total_parking_time,
            dimension_measured(b, TariffDimensionType::ParkingTime),
            tolerance,
        ),
    )
}

/// The divergences of `cdr` from `breakdown` beyond `tolerance`, in the order of
/// [`Discrepancy`]; `None` where the decimal arithmetic overflows.
///
/// The totals and the broken-out costs are compared with the breakdown, the time cost with its
/// charging time only; a flat fee beside parking or reserved time cannot be attributed to one
/// of the three costs that claim it, so those three are then not compared. The volumes are
/// compared with what the breakdown measured, and the total time with the session's duration.
pub open spec fn divergences_of(cdr: CdrClaims, b: CostBreakdown, tolerance: Number) -> Option<Seq<Divergence>> {
    match (time_split(time_segments(b)), session_hours_of(cdr)) {
        (Some((charging, reserved)), Some(hours)) => cat(
            cat(
                cat(
                    entry(Discrepancy::TotalBeforeTaxes, cdr.total_cost_before_taxes, b.total_excl_vat, tolerance),
                    entry(Discrepancy::TotalAfterTaxes, cdr.total_cost_after_taxes, b.total_incl_vat, tolerance),
                ),
                cost_entries(
                    cdr,
                    tolerance,
                    dimension_cost(b, TariffDimensionType::Energy),
                    charging,
                    dimension_cost(b, TariffDimensionType::ParkingTime),
                    dimension_cost(b, TariffDimensionType::Flat),
                    reserved,
                ),
            ),
            volume_entries(cdr, b, tolerance, hours),
        ),
        _ => None,
    }
}

/// Adds a divergence about `what` to `out` when `claimed` is beyond `tolerance` of `computed`.
fn compare(out: &mut Vec<Divergence>, what: Discrepancy, claimed: Number, computed: Number, tolerance: Number)
    requires
        entry(what, claimed, computed, tolerance) is Some,
    ensures
        final(out)@ == old(out)@ + entry(what, claimed, computed, tolerance)->Some_0,
{
    let difference = claimed - computed;
    if tolerance.is_less_than(&difference.abs()) {
        out.push(Divergence { what, claimed, computed });
        proof {
            assert(final(out)@ =~= old(out)@ + seq![Divergence { what, claimed, computed }]);
        }
    } else {
        proof {
            assert(out@ =~= old(out)@ + Seq::<Divergence>::empty());
        }
    }
}

/// Adds a divergence about an optional claim; nothing when the CDR does not make it.
fn compare_optional(out: &mut Vec<Divergence>, what: Discrepancy, claimed: Option<Number>, computed: Number, tolerance: Number)
    requires
        optional_entry(what, claimed, computed, tolerance) is Some,
    ensures
        final(out)@ == old(out)@ + optional_entry(what, claimed, computed, tolerance)->Some_0,
{
    match claimed {
        Some(c) => compare(out, what, c, computed, tolerance),
        None => {
            proof {
                assert(out@ =~= old(out)@ + Seq::<Divergence>::empty());
            }
        },
    }
}

/// The costs of the `TIME` dimension split into charging time and reserved time.
fn split_time_cost(b: &CostBreakdown) -> (r: (Number, Number))
    requires
        time_split(time_segments(*b)) is Some,
    ensures
        Some(r) == time_split(time_segments(*b)),
{
    let mut charging = Number::zero();
    let mut reserved = Number::zero();
    match b.dimension(TariffDimensionType::Time) {
        None => {
            (charging, reserved)
        },
        Some(d) => {
            let ghost segs = d.segments@;
            let mut i: usize = 0;
            while i < d.segments.len()
                invariant
                    i <= d.segments.len(),
                    segs == d.segments@,
                    segs == time_segments(*b),
                    time_split(segs) is Some,
                    Some((charging, reserved)) == time_split(segs.subrange(0, i as int)),
                decreases d.segments.len() - i,
            {
                proof {
                    lemma_time_split_prefix(segs, i as int + 1);
                    let p = segs.subrange(0, i as int + 1);
                    assert(p.drop_last() =~= segs.subrange(0, i as int));
                }
                let s = &d.segments[i];
                if s.applied.reservation {
                    reserved = reserved + s.cost;
                } else {
                    charging = charging + s.cost;
                }
                i = i + 1;
            }
            proof {
                assert(segs.subrange(0, segs.len() as int) =~= segs);
            }
            (charging, reserved)
        },
    }
}

/// A defined split of all of `segs` has every prefix defined too.
pub proof fn lemma_time_split_prefix(segs: Seq<PricedSegment>, n: int)
    requires
        0 <= n <= segs.len(),
        time_split(segs) is Some,
    ensures
        time_split(segs.subrange(0, n)) is Some,
    decreases segs.len() - n,
{
    if n < segs.len() {
        lemma_time_split_prefix(segs.drop_last(), n);
        assert(segs.drop_last().subrange(0, n) =~= segs.subrange(0, n));
    } else {
        assert(segs.subrange(0, n) =~= segs);
    }
}

/// The measured quantity of a dimension, or zero when it was not priced.
fn measured(b: &CostBreakdown, d: TariffDimensionType) -> (r: Number)
    ensures
        r == dimension_measured(*b, d),
{
    match b.dimension(d) {
        Some(x) => x.measured,
        None => Number::zero(),
    }
}

/// Checks a CDR against a breakdown computed from it, comparing exactly.
pub fn verify_cdr(cdr: &CdrClaims, breakdown: &CostBreakdown) -> (r: CdrVerification)
    requires
        divergences_of(*cdr, *breakdown, Number::from_integer(0)) is Some,
    ensures
        Some(r.divergences@) == divergences_of(*cdr, *breakdown, Number::from_integer(0)),
        r.tolerance == Number::from_integer(0),
{
    verify_cdr_within(cdr, breakdown, Number::zero())
}

/// Adds the comparisons of the costs a CDR may break out.
#[verifier::rlimit(40)]
fn compare_costs(
    out: &mut Vec<Divergence>,
    cdr: &CdrClaims,
    tolerance: Number,
    energy: Number,
    charging: Number,
    parking: Number,
    flat: Number,
    reserved: Number,
)
    requires
        cost_entries(*cdr, tolerance, energy, charging, parking, flat, reserved) is Some,
    ensures
        final(out)@ == old(out)@ + cost_entries(*cdr, tolerance, energy, charging, parking, flat, reserved)->Some_0,
{
    let ghost start = out@;
    let ghost e1 = optional_entry(Discrepancy::EnergyCost, cdr.total_energy_cost, energy, tolerance);
    let ghost e2 = optional_entry(Discrepancy::TimeCost, cdr.total_time_cost, charging, tolerance);
    let ghost e3 = optional_entry(Discrepancy::ParkingCost, cdr.total_parking_cost, parking, tolerance);
    let ghost e4 = optional_entry(Discrepancy::FixedCost, cdr.total_fixed_cost, flat, tolerance);
    let ghost e5 = optional_entry(Discrepancy::ReservationCost, cdr.total_reservation_cost, reserved, tolerance);
    let attributable = flat.is_zero() || (parking.is_zero() && reserved.is_zero());
    assert(e1 is Some && e2 is Some);
    compare_optional(out, Discrepancy::EnergyCost, cdr.total_energy_cost, energy, tolerance);
    compare_optional(out, Discrepancy::TimeCost, cdr.total_time_cost, charging, tolerance);
    let ghost middle = out@;
    assert(middle =~= start + (e1->Some_0 + e2->Some_0));
    if attributable {
        assert(e3 is Some && e4 is Some && e5 is Some);
        compare_optional(out, Discrepancy::ParkingCost, cdr.total_parking_cost, parking, tolerance);
        compare_optional(out, Discrepancy::FixedCost, cdr.total_fixed_cost, flat, tolerance);
        compare_optional(out, Discrepancy::ReservationCost, cdr.total_reservation_cost, reserved, tolerance);
        proof {
            assert(out@ =~= start + (e1->Some_0 + e2->Some_0 + e3->Some_0 + e4->Some_0 + e5->Some_0));
        }
    }
}

/// Adds the comparisons of the volumes a CDR reports about itself.
#[verifier::rlimit(40)]
fn compare_volumes(out: &mut Vec<Divergence>, cdr: &CdrClaims, b: &CostBreakdown, tolerance: Number, hours: Number)
    requires
        volume_entries(*cdr, *b, tolerance, hours) is Some,
    ensures
        final(out)@ == old(out)@ + volume_entries(*cdr, *b, tolerance, hours)->Some_0,
{
    let ghost start = out@;
    let ghost e1 = entry(
        Discrepancy::EnergyVolume,
        cdr.total_energy,
        dimension_measured(*b, TariffDimensionType::Energy),
        tolerance,
    );
    let ghost e2 = entry(Discrepancy::TimeVolume, cdr.total_time, hours, tolerance);
    let ghost e3 = optional_entry(
        Discrepancy::ParkingVolume,
        cdr.total_parking_time,
        dimension_measured(*b, TariffDimensionType::ParkingTime),
        tolerance,
    );
    assert(e1 is Some && e2 is Some && e3 is Some);
    let energy = measured(b, TariffDimensionType::Energy);
    compare(out, Discrepancy::EnergyVolume, cdr.total_energy, energy, tolerance);
    compare(out, Discrepancy::TimeVolume, cdr.total_time, hours, tolerance);
    let parking = measured(b, TariffDimensionType::ParkingTime);
    compare_optional(out, Discrepancy::ParkingVolume, cdr.total_parking_time, parking, tolerance);
    proof {
        assert(out@ =~= start + (e1->Some_0 + e2->Some_0 + e3->Some_0));
    }
}

/// The session's duration in hours, from its two timestamps.
fn session_hours(cdr: &CdrClaims) -> (r: Number)
    requires
        session_hours_of(*cdr) is Some,
    ensures
        Some(r) == session_hours_of(*cdr),
{
    let seconds = cdr.end_date_time.unix_timestamp() - cdr.start_date_time.unix_timestamp();
    Number::from(seconds) / Number::from(3600u32)
}

/// Checks a CDR against a breakdown, ignoring differences at or below `tolerance`.
pub fn verify_cdr_within(cdr: &CdrClaims, breakdown: &CostBreakdown, tolerance: Number) -> (r: CdrVerification)
    requires
        divergences_of(*cdr, *breakdown, tolerance) is Some,
    ensures
        Some(r.divergences@) == divergences_of(*cdr, *breakdown, tolerance),
        r.tolerance == tolerance,
{
    let (charging_time_cost, reservation_cost) = split_time_cost(breakdown);
    let hours = session_hours(cdr);
    let mut divergences: Vec<Divergence> = Vec::new();
    compare(&mut divergences, Discrepancy::TotalBeforeTaxes, cdr.total_cost_before_taxes, breakdown.total_excl_vat, tolerance);
    compare(&mut divergences, Discrepancy::TotalAfterTaxes, cdr.total_cost_after_taxes, breakdown.total_incl_vat, tolerance);
    let energy_cost = breakdown.dimension_total(TariffDimensionType::Energy);
    let parking_cost = breakdown.dimension_total(TariffDimensionType::ParkingTime);
    let flat_cost = breakdown.dimension_total(TariffDimensionType::Flat);
    compare_costs(
        &mut divergences,
        cdr,
        tolerance,
        energy_cost,
        charging_time_cost,
        parking_cost,
        flat_cost,
        reservation_cost,
    );
    compare_volumes(&mut divergences, cdr, breakdown, tolerance, hours);
    proof {
        assert(divergences@ =~= divergences_of(*cdr, *breakdown, tolerance)->Some_0);
    }
    CdrVerification { divergences, tolerance }
}

/// The divergences of `ds`, each as it reads, one per line.
pub open spec fn divergences_text(ds: Seq<Divergence>) -> Seq<char>
    decreases ds.len(),
{
    if ds.len() == 0 {
        Seq::empty()
    } else {
        let last = ds.last();
        let line = divergence_text(last, decimal_checked_difference(last.claimed, last.computed)->Some_0);
        if ds.len() == 1 {
            line
        } else {
            divergences_text(ds.drop_last()) + "\n"@ + line
        }
    }
}

/// How a verification reads: that the CDR agrees, or each divergence on a line of its own.
pub open spec fn verification_text(v: CdrVerification) -> Seq<char> {
    if v.divergences@.len() == 0 {
        "the CDR agrees with its own tariff and its own Charging Periods"@
    } else {
        divergences_text(v.divergences@)
    }
}

impl CdrVerification {
    /// How the verification reads, as `Display` writes it.
    pub fn to_string(&self) -> (s: String)
        requires
            forall|i: int|
                0 <= i < self.divergences@.len() ==> decimal_checked_difference(
                    #[trigger] self.divergences@[i].claimed,
                    self.divergences@[i].computed,
                ) is Some,
        ensures
            s@ == verification_text(*self),
    {
        if self.divergences.len() == 0 {
            return String::from_str("the CDR agrees with its own tariff and its own Charging Periods");
        }
        let mut s = String::new();
        let mut i: usize = 0;
        while i < self.divergences.len()
            invariant
                i <= self.divergences.len(),
                forall|k: int|
                    0 <= k < self.divergences@.len() ==> decimal_checked_difference(
                        #[trigger] self.divergences@[k].claimed,
                        self.divergences@[k].computed,
                    ) is Some,
                s@ == divergences_text(self.divergences@.subrange(0, i as int)),
            decreases self.divergences.len() - i,
        {
            let d = &self.divergences[i];
            if i > 0 {
                push_str(&mut s, "\n");
            }
            let line = d.to_string();
            push_str(&mut s, line.as_str());
            proof {
                let p = self.divergences@.subrange(0, i as int + 1);
                assert(p.drop_last() =~= self.divergences@.subrange(0, i as int));
                assert(p.last() == *d);
                if i == 0 {
                    assert(self.divergences@.subrange(0, 0) =~= Seq::<Divergence>::empty());
                }
            }
            i = i + 1;
        }
        proof {
            assert(self.divergences@.subrange(0, self.divergences.len() as int) =~= self.divergences@);
        }
        s
    }
}

/// Where a kind of divergence stands in the order [`Discrepancy`] declares.
pub open spec fn discrepancy_rank(d: Discrepancy) -> int {
    match d {
        Discrepancy::TotalBeforeTaxes => 0,
        Discrepancy::TotalAfterTaxes => 1,
        Discrepancy::EnergyCost => 2,
        Discrepancy::TimeCost => 3,
        Discrepancy::ParkingCost => 4,
        Discrepancy::FixedCost => 5,
        Discrepancy::ReservationCost => 6,
        Discrepancy::EnergyVolume => 7,
        Discrepancy::TimeVolume => 8,
        Discrepancy::ParkingVolume => 9,
    }
}

/// Whether `s` lists divergences of kinds ranked from `lo` to `hi`, in strictly increasing rank:
/// sorted by kind, with at most one of each.
pub open spec fn ranked_between(s: Seq<Divergence>, lo: int, hi: int) -> bool {
    &&& forall|i: int| 0 <= i < s.len() ==> lo <= #[trigger] discrepancy_rank(s[i].what) <= hi
    &&& forall|i: int, j: int|
        0 <= i < j < s.len() ==> discrepancy_rank(#[trigger] s[i].what) < discrepancy_rank(#[trigger] s[j].what)
}

proof fn lemma_entry_ranked(what: Discrepancy, claimed: Number, computed: Number, tolerance: Number)
    requires
        entry(what, claimed, computed, tolerance) is Some,
    ensures
        ranked_between(
            entry(what, claimed, computed, tolerance)->Some_0,
            discrepancy_rank(what),
            discrepancy_rank(what),
        ),
{
}

proof fn lemma_optional_entry_ranked(what: Discrepancy, claimed: Option<Number>, computed: Number, tolerance: Number)
    requires
        optional_entry(what, claimed, computed, tolerance) is Some,
    ensures
        ranked_between(
            optional_entry(what, claimed, computed, tolerance)->Some_0,
            discrepancy_rank(what),
            discrepancy_rank(what),
        ),
{
}

proof fn lemma_cat_ranked(a: Option<Seq<Divergence>>, b: Option<Seq<Divergence>>, l1: int, h1: int, l2: int, h2: int)
    requires
        a is Some,
        b is Some,
        ranked_between(a->Some_0, l1, h1),
        ranked_between(b->Some_0, l2, h2),
        l1 <= h1 < l2 <= h2,
    ensures
        cat(a, b) is Some,
        ranked_between(cat(a, b)->Some_0, l1, h2),
{
    let x = a->Some_0;
    let y = b->Some_0;
    let z = x + y;
    assert forall|i: int, j: int| 0 <= i < j < z.len() implies discrepancy_rank(#[trigger] z[i].what)
        < discrepancy_rank(#[trigger] z[j].what) by {
        if j < x.len() {
            assert(z[i] == x[i] && z[j] == x[j]);
        } else if i >= x.len() {
            assert(z[i] == y[i - x.len()] && z[j] == y[j - x.len()]);
        } else {
            assert(z[i] == x[i] && z[j] == y[j - x.len()]);
            assert(discrepancy_rank(x[i].what) <= h1);
            assert(discrepancy_rank(y[j - x.len()].what) >= l2);
        }
    }
    assert forall|i: int| 0 <= i < z.len() implies l1 <= #[trigger] discrepancy_rank(z[i].what) <= h2 by {
        if i < x.len() {
            assert(z[i] == x[i]);
        } else {
            assert(z[i] == y[i - x.len()]);
        }
    }
}

/// The divergences a verification reports are sorted by kind, in the order [`Discrepancy`]
/// declares, with at most one of each kind.
pub proof fn lemma_divergences_sorted_by_kind(cdr: CdrClaims, b: CostBreakdown, tolerance: Number)
    requires
        divergences_of(cdr, b, tolerance) is Some,
    ensures
        ranked_between(divergences_of(cdr, b, tolerance)->Some_0, 0, 9),
        forall|i: int, j: int|
            0 <= i < j < divergences_of(cdr, b, tolerance)->Some_0.len() ==> (#[trigger] divergences_of(
                cdr,
                b,
                tolerance,
            )->Some_0[i]).what != (#[trigger] divergences_of(cdr, b, tolerance)->Some_0[j]).what,
{
    let (charging, reserved) = time_split(time_segments(b))->Some_0;
    let hours = session_hours_of(cdr)->Some_0;
    let e0 = entry(Discrepancy::TotalBeforeTaxes, cdr.total_cost_before_taxes, b.total_excl_vat, tolerance);
    let e1 = entry(Discrepancy::TotalAfterTaxes, cdr.total_cost_after_taxes, b.total_incl_vat, tolerance);
    let energy = dimension_cost(b, TariffDimensionType::Energy);
    let parking = dimension_cost(b, TariffDimensionType::ParkingTime);
    let flat = dimension_cost(b, TariffDimensionType::Flat);
    let costs = cost_entries(cdr, tolerance, energy, charging, parking, flat, reserved);
    let vols = volume_entries(cdr, b, tolerance, hours);
    let c01 = cat(e0, e1);
    let c012 = cat(c01, costs);
    assert(c012 is Some && vols is Some);
    assert(e0 is Some && e1 is Some) by {
        assert(c01 is Some);
    }
    lemma_entry_ranked(Discrepancy::TotalBeforeTaxes, cdr.total_cost_before_taxes, b.total_excl_vat, tolerance);
    lemma_entry_ranked(Discrepancy::TotalAfterTaxes, cdr.total_cost_after_taxes, b.total_incl_vat, tolerance);
    lemma_cat_ranked(e0, e1, 0, 0, 1, 1);
    // The costs, ranked from 2 to 6.
    let oe = optional_entry(Discrepancy::EnergyCost, cdr.total_energy_cost, energy, tolerance);
    let ot = optional_entry(Discrepancy::TimeCost, cdr.total_time_cost, charging, tolerance);
    let et = cat(oe, ot);
    assert(et is Some);
    assert(oe is Some && ot is Some);
    lemma_optional_entry_ranked(Discrepancy::EnergyCost, cdr.total_energy_cost, energy, tolerance);
    lemma_optional_entry_ranked(Discrepancy::TimeCost, cdr.total_time_cost, charging, tolerance);
    lemma_cat_ranked(oe, ot, 2, 2, 3, 3);
    let attributable = flat.spec_mantissa() == 0 || (parking.spec_mantissa() == 0 && reserved.spec_mantissa() == 0);
    if attributable {
        let op = optional_entry(Discrepancy::ParkingCost, cdr.total_parking_cost, parking, tolerance);
        let of = optional_entry(Discrepancy::FixedCost, cdr.total_fixed_cost, flat, tolerance);
        let orr = optional_entry(Discrepancy::ReservationCost, cdr.total_reservation_cost, reserved, tolerance);
        let etp = cat(et, op);
        let etpf = cat(etp, of);
        assert(costs == cat(etpf, orr));
        assert(etpf is Some && orr is Some);
        assert(etp is Some && of is Some);
        assert(op is Some);
        lemma_optional_entry_ranked(Discrepancy::ParkingCost, cdr.total_parking_cost, parking, tolerance);
        lemma_optional_entry_ranked(Discrepancy::FixedCost, cdr.total_fixed_cost, flat, tolerance);
        lemma_optional_entry_ranked(Discrepancy::ReservationCost, cdr.total_reservation_cost, reserved, tolerance);
        lemma_cat_ranked(et, op, 2, 3, 4, 4);
        lemma_cat_ranked(etp, of, 2, 4, 5, 5);
        lemma_cat_ranked(etpf, orr, 2, 5, 6, 6);
    } else {
        assert(costs == et);
        assert(ranked_between(costs->Some_0, 2, 6));
    }
    lemma_cat_ranked(c01, costs, 0, 1, 2, 6);
    // The volumes, ranked from 7 to 9.
    let ev = entry(
        Discrepancy::EnergyVolume,
        cdr.total_energy,
        dimension_measured(b, TariffDimensionType::Energy),
        tolerance,
    );
    let tv = entry(Discrepancy::TimeVolume, cdr.total_time, hours, tolerance);
    let pv = optional_entry(
        Discrepancy::ParkingVolume,
        cdr.total_parking_time,
        dimension_measured(b, TariffDimensionType::ParkingTime),
        tolerance,
    );
    let evtv = cat(ev, tv);
    assert(vols == cat(evtv, pv));
    assert(evtv is Some && pv is Some);
    assert(ev is Some && tv is Some);
    lemma_entry_ranked(
        Discrepancy::EnergyVolume,
        cdr.total_energy,
        dimension_measured(b, TariffDimensionType::Energy),
        tolerance,
    );
    lemma_entry_ranked(Discrepancy::TimeVolume, cdr.total_time, hours, tolerance);
    lemma_optional_entry_ranked(
        Discrepancy::ParkingVolume,
        cdr.total_parking_time,
        dimension_measured(b, TariffDimensionType::ParkingTime),
        tolerance,
    );
    lemma_cat_ranked(ev, tv, 7, 7, 8, 8);
    lemma_cat_ranked(evtv, pv, 7, 8, 9, 9);
    lemma_cat_ranked(c012, vols, 0, 6, 7, 9);
    let ds = divergences_of(cdr, b, tolerance)->Some_0;
    assert(ds == cat(c012, vols)->Some_0);
    assert forall|i: int, j: int| 0 <= i < j < ds.len() implies (#[trigger] ds[i]).what != (#[trigger] ds[j]).what by {
        assert(discrepancy_rank(ds[i].what) < discrepancy_rank(ds[j].what));
    }
}


/// Whether `claimed` and `computed` are more than `tolerance` apart: the magnitude of their
/// difference exceeds it, whichever of the two is the larger.
pub open spec fn apart_by_more_than(claimed: Number, computed: Number, tolerance: Number) -> bool {
    decimal_checked_difference(claimed, computed) matches Some(d) && numeric_lt(tolerance, d.spec_abs())
}

/// Whether every divergence of `s` has its two figures more than `tolerance` apart.
pub open spec fn all_beyond(s: Seq<Divergence>, tolerance: Number) -> bool {
    forall|i: int| 0 <= i < s.len() ==> apart_by_more_than((#[trigger] s[i]).claimed, s[i].computed, tolerance)
}

/// Whether no divergence of `s` is about `k`.
pub open spec fn none_about(s: Seq<Divergence>, k: Discrepancy) -> bool {
    forall|i: int| 0 <= i < s.len() ==> (#[trigger] s[i]).what != k
}

/// Whether some divergence of `s` is about `k`.
pub open spec fn some_about(s: Seq<Divergence>, k: Discrepancy) -> bool {
    exists|i: int| 0 <= i < s.len() && (#[trigger] s[i]).what == k
}

/// Two lists of divergences joined keep what holds of both.
proof fn lemma_cat_keeps(a: Option<Seq<Divergence>>, b: Option<Seq<Divergence>>, tolerance: Number, k: Discrepancy)
    requires
        a is Some,
        b is Some,
        all_beyond(a->Some_0, tolerance),
        all_beyond(b->Some_0, tolerance),
    ensures
        cat(a, b) is Some,
        all_beyond(cat(a, b)->Some_0, tolerance),
        none_about(a->Some_0, k) && none_about(b->Some_0, k) ==> none_about(cat(a, b)->Some_0, k),
{
    let x = a->Some_0;
    let y = b->Some_0;
    let z = x + y;
    assert forall|i: int| 0 <= i < z.len() implies apart_by_more_than((#[trigger] z[i]).claimed, z[i].computed, tolerance)
        by {
        if i >= x.len() {
            assert(z[i] == y[i - x.len()]);
        }
    }
    if none_about(x, k) && none_about(y, k) {
        assert forall|i: int| 0 <= i < z.len() implies (#[trigger] z[i]).what != k by {
            if i >= x.len() {
                assert(z[i] == y[i - x.len()]);
            }
        }
    }
}

/// A figure compared is reported exactly when the two are more than the tolerance apart, and
/// the report is about that figure only.
proof fn lemma_entry_keeps(what: Discrepancy, claimed: Number, computed: Number, tolerance: Number)
    requires
        entry(what, claimed, computed, tolerance) is Some,
    ensures
        all_beyond(entry(what, claimed, computed, tolerance)->Some_0, tolerance),
        forall|k: Discrepancy| k != what ==> none_about(entry(what, claimed, computed, tolerance)->Some_0, k),
        some_about(entry(what, claimed, computed, tolerance)->Some_0, what) <==> apart_by_more_than(
            claimed,
            computed,
            tolerance,
        ),
        entry(what, claimed, computed, tolerance)->Some_0.len() <= 1,
{
    let e = entry(what, claimed, computed, tolerance)->Some_0;
    if apart_by_more_than(claimed, computed, tolerance) {
        assert(e[0].what == what);
    }
}

/// A figure the CDR may claim, compared, is beyond the tolerance wherever it diverges, and is
/// about nothing else.
proof fn lemma_optional_keeps(what: Discrepancy, claimed: Option<Number>, computed: Number, tolerance: Number)
    requires
        optional_entry(what, claimed, computed, tolerance) is Some,
    ensures
        all_beyond(optional_entry(what, claimed, computed, tolerance)->Some_0, tolerance),
        forall|k: Discrepancy| k != what ==> none_about(optional_entry(what, claimed, computed, tolerance)->Some_0, k),
{
    if let Some(c) = claimed {
        lemma_entry_keeps(what, c, computed, tolerance);
    }
}

/// The costs compared are each beyond the tolerance, and none is about a total.
proof fn lemma_costs_keep(
    cdr: CdrClaims,
    tolerance: Number,
    energy: Number,
    charging: Number,
    parking: Number,
    flat: Number,
    reserved: Number,
    k: Discrepancy,
)
    requires
        cost_entries(cdr, tolerance, energy, charging, parking, flat, reserved) is Some,
        k == Discrepancy::TotalBeforeTaxes || k == Discrepancy::TotalAfterTaxes,
    ensures
        all_beyond(cost_entries(cdr, tolerance, energy, charging, parking, flat, reserved)->Some_0, tolerance),
        none_about(cost_entries(cdr, tolerance, energy, charging, parking, flat, reserved)->Some_0, k),
{
    let oe = optional_entry(Discrepancy::EnergyCost, cdr.total_energy_cost, energy, tolerance);
    let ot = optional_entry(Discrepancy::TimeCost, cdr.total_time_cost, charging, tolerance);
    let op = optional_entry(Discrepancy::ParkingCost, cdr.total_parking_cost, parking, tolerance);
    let of = optional_entry(Discrepancy::FixedCost, cdr.total_fixed_cost, flat, tolerance);
    let orr = optional_entry(Discrepancy::ReservationCost, cdr.total_reservation_cost, reserved, tolerance);
    let et = cat(oe, ot);
    assert(et is Some);
    assert(oe is Some && ot is Some);
    lemma_optional_keeps(Discrepancy::EnergyCost, cdr.total_energy_cost, energy, tolerance);
    lemma_optional_keeps(Discrepancy::TimeCost, cdr.total_time_cost, charging, tolerance);
    lemma_cat_keeps(oe, ot, tolerance, k);
    let attributable = flat.spec_mantissa() == 0 || (parking.spec_mantissa() == 0 && reserved.spec_mantissa() == 0);
    if attributable {
        assert(cat(cat(et, op), of) is Some && orr is Some);
        assert(cat(et, op) is Some && of is Some);
        assert(op is Some);
        lemma_optional_keeps(Discrepancy::ParkingCost, cdr.total_parking_cost, parking, tolerance);
        lemma_optional_keeps(Discrepancy::FixedCost, cdr.total_fixed_cost, flat, tolerance);
        lemma_optional_keeps(Discrepancy::ReservationCost, cdr.total_reservation_cost, reserved, tolerance);
        lemma_cat_keeps(et, op, tolerance, k);
        lemma_cat_keeps(cat(et, op), of, tolerance, k);
        lemma_cat_keeps(cat(cat(et, op), of), orr, tolerance, k);
    }
}

/// The volumes compared are each beyond the tolerance, and none is about a total.
proof fn lemma_volumes_keep(cdr: CdrClaims, b: CostBreakdown, tolerance: Number, hours: Number, k: Discrepancy)
    requires
        volume_entries(cdr, b, tolerance, hours) is Some,
        k == Discrepancy::TotalBeforeTaxes || k == Discrepancy::TotalAfterTaxes,
    ensures
        all_beyond(volume_entries(cdr, b, tolerance, hours)->Some_0, tolerance),
        none_about(volume_entries(cdr, b, tolerance, hours)->Some_0, k),
{
    let parked = dimension_measured(b, TariffDimensionType::ParkingTime);
    let used = dimension_measured(b, TariffDimensionType::Energy);
    let ve = entry(Discrepancy::EnergyVolume, cdr.total_energy, used, tolerance);
    let vt = entry(Discrepancy::TimeVolume, cdr.total_time, hours, tolerance);
    let vp = optional_entry(Discrepancy::ParkingVolume, cdr.total_parking_time, parked, tolerance);
    assert(cat(ve, vt) is Some && vp is Some);
    assert(ve is Some && vt is Some);
    lemma_entry_keeps(Discrepancy::EnergyVolume, cdr.total_energy, used, tolerance);
    lemma_entry_keeps(Discrepancy::TimeVolume, cdr.total_time, hours, tolerance);
    lemma_optional_keeps(Discrepancy::ParkingVolume, cdr.total_parking_time, parked, tolerance);
    lemma_cat_keeps(ve, vt, tolerance, k);
    lemma_cat_keeps(cat(ve, vt), vp, tolerance, k);
}

/// The divergences a verification reports each have their figures more than the tolerance
/// apart, whichever is the larger; and each total is reported exactly when the CDR's figure and
/// the breakdown's are more than the tolerance apart, an undercharge as much as an overcharge.
pub proof fn lemma_divergences_beyond_tolerance(cdr: CdrClaims, b: CostBreakdown, tolerance: Number)
    requires
        divergences_of(cdr, b, tolerance) is Some,
    ensures
        all_beyond(divergences_of(cdr, b, tolerance)->Some_0, tolerance),
        some_about(divergences_of(cdr, b, tolerance)->Some_0, Discrepancy::TotalBeforeTaxes) <==> apart_by_more_than(
            cdr.total_cost_before_taxes,
            b.total_excl_vat,
            tolerance,
        ),
        some_about(divergences_of(cdr, b, tolerance)->Some_0, Discrepancy::TotalAfterTaxes) <==> apart_by_more_than(
            cdr.total_cost_after_taxes,
            b.total_incl_vat,
            tolerance,
        ),
{
    let kb = Discrepancy::TotalBeforeTaxes;
    let ka = Discrepancy::TotalAfterTaxes;
    let (charging, reserved) = time_split(time_segments(b))->Some_0;
    let hours = session_hours_of(cdr)->Some_0;
    let e0 = entry(kb, cdr.total_cost_before_taxes, b.total_excl_vat, tolerance);
    let e1 = entry(ka, cdr.total_cost_after_taxes, b.total_incl_vat, tolerance);
    let energy = dimension_cost(b, TariffDimensionType::Energy);
    let parking = dimension_cost(b, TariffDimensionType::ParkingTime);
    let flat = dimension_cost(b, TariffDimensionType::Flat);
    let costs = cost_entries(cdr, tolerance, energy, charging, parking, flat, reserved);
    let vols = volume_entries(cdr, b, tolerance, hours);
    let c01 = cat(e0, e1);
    let c012 = cat(c01, costs);
    assert(c012 is Some && vols is Some);
    assert(e0 is Some && e1 is Some) by {
        assert(c01 is Some);
    }
    lemma_entry_keeps(kb, cdr.total_cost_before_taxes, b.total_excl_vat, tolerance);
    lemma_entry_keeps(ka, cdr.total_cost_after_taxes, b.total_incl_vat, tolerance);
    lemma_costs_keep(cdr, tolerance, energy, charging, parking, flat, reserved, kb);
    lemma_costs_keep(cdr, tolerance, energy, charging, parking, flat, reserved, ka);
    lemma_volumes_keep(cdr, b, tolerance, hours, kb);
    lemma_volumes_keep(cdr, b, tolerance, hours, ka);
    lemma_cat_keeps(e0, e1, tolerance, kb);
    lemma_cat_keeps(c01, costs, tolerance, kb);
    lemma_cat_keeps(c012, vols, tolerance, kb);
    let all = divergences_of(cdr, b, tolerance)->Some_0;
    let x0 = e0->Some_0;
    let x1 = e1->Some_0;
    let y = costs->Some_0;
    let z = vols->Some_0;
    let rest = y + z;
    assert(all =~= x0 + x1 + rest);
    assert(none_about(rest, kb) && none_about(rest, ka)) by {
        assert forall|i: int| 0 <= i < rest.len() implies (#[trigger] rest[i]).what != kb && rest[i].what != ka by {
            if i < y.len() {
                assert(rest[i] == y[i]);
            } else {
                assert(rest[i] == z[i - y.len()]);
            }
        }
    }
    // Where each total stands among the reports.
    assert forall|i: int| 0 <= i < all.len() implies {
        &&& i < x0.len() ==> all[i] == x0[i]
        &&& x0.len() <= i < x0.len() + x1.len() ==> all[i] == x1[i - x0.len()]
        &&& x0.len() + x1.len() <= i ==> all[i] == rest[i - x0.len() - x1.len()]
    } by {}
    if some_about(x0, kb) {
        let w = choose|w: int| 0 <= w < x0.len() && (#[trigger] x0[w]).what == kb;
        assert(all[w] == x0[w]);
    }
    if some_about(all, kb) {
        let i = choose|i: int| 0 <= i < all.len() && (#[trigger] all[i]).what == kb;
        if i >= x0.len() && i < x0.len() + x1.len() {
            assert(x1[i - x0.len()].what == kb);
        }
        if i >= x0.len() + x1.len() {
            assert(rest[i - x0.len() - x1.len()].what == kb);
        }
        assert(x0[i].what == kb);
    }
    if some_about(x1, ka) {
        let w = choose|w: int| 0 <= w < x1.len() && (#[trigger] x1[w]).what == ka;
        assert(all[w + x0.len()] == x1[w]);
    }
    if some_about(all, ka) {
        let i = choose|i: int| 0 <= i < all.len() && (#[trigger] all[i]).what == ka;
        if i < x0.len() {
            assert(x0[i].what == ka);
        }
        if i >= x0.len() + x1.len() {
            assert(rest[i - x0.len() - x1.len()].what == ka);
        }
        assert(x1[i - x0.len()].what == ka);
    }
}


/// A divergence about `k` is in two lists joined exactly when it is in one of them.
proof fn lemma_some_about_joined(a: Seq<Divergence>, b: Seq<Divergence>, k: Discrepancy)
    ensures
        some_about(a + b, k) <==> (some_about(a, k) || some_about(b, k)),
{
    let z = a + b;
    if some_about(a, k) {
        let w = choose|w: int| 0 <= w < a.len() && (#[trigger] a[w]).what == k;
        assert(z[w] == a[w]);
    }
    if some_about(b, k) {
        let w = choose|w: int| 0 <= w < b.len() && (#[trigger] b[w]).what == k;
        assert(z[w + a.len()] == b[w]);
    }
    if some_about(z, k) {
        let w = choose|w: int| 0 <= w < z.len() && (#[trigger] z[w]).what == k;
        if w < a.len() {
            assert(a[w] == z[w]);
        } else {
            assert(b[w - a.len()] == z[w]);
        }
    }
}

/// A claim the CDR may make is reported exactly when it is made and is more than the
/// tolerance away from the computed figure.
proof fn lemma_optional_reported(what: Discrepancy, claimed: Option<Number>, computed: Number, tolerance: Number)
    requires
        optional_entry(what, claimed, computed, tolerance) is Some,
    ensures
        some_about(optional_entry(what, claimed, computed, tolerance)->Some_0, what) <==> (claimed matches Some(c)
            && apart_by_more_than(c, computed, tolerance)),
        forall|k: Discrepancy| k != what ==> !some_about(optional_entry(what, claimed, computed, tolerance)->Some_0, k),
{
    lemma_optional_keeps(what, claimed, computed, tolerance);
    if let Some(c) = claimed {
        lemma_entry_keeps(what, c, computed, tolerance);
    }
    assert forall|k: Discrepancy| k != what implies !some_about(
        optional_entry(what, claimed, computed, tolerance)->Some_0,
        k,
    ) by {
        assert(none_about(optional_entry(what, claimed, computed, tolerance)->Some_0, k));
    }
}

/// Among the costs, the energy cost is reported exactly when the CDR states one more than the
/// tolerance away from `energy`, and no volume is reported.
proof fn lemma_costs_report(
    cdr: CdrClaims,
    tolerance: Number,
    energy: Number,
    charging: Number,
    parking: Number,
    flat: Number,
    reserved: Number,
)
    requires
        cost_entries(cdr, tolerance, energy, charging, parking, flat, reserved) is Some,
    ensures
        ({
            let y = cost_entries(cdr, tolerance, energy, charging, parking, flat, reserved)->Some_0;
            &&& some_about(y, Discrepancy::EnergyCost) <==> (cdr.total_energy_cost matches Some(c) && apart_by_more_than(
                c,
                energy,
                tolerance,
            ))
            &&& !some_about(y, Discrepancy::EnergyVolume)
            &&& !some_about(y, Discrepancy::TimeVolume)
        }),
{
    let y = cost_entries(cdr, tolerance, energy, charging, parking, flat, reserved)->Some_0;
    let oe = optional_entry(Discrepancy::EnergyCost, cdr.total_energy_cost, energy, tolerance);
    let ot = optional_entry(Discrepancy::TimeCost, cdr.total_time_cost, charging, tolerance);
    let op = optional_entry(Discrepancy::ParkingCost, cdr.total_parking_cost, parking, tolerance);
    let of = optional_entry(Discrepancy::FixedCost, cdr.total_fixed_cost, flat, tolerance);
    let orr = optional_entry(Discrepancy::ReservationCost, cdr.total_reservation_cost, reserved, tolerance);
    assert(cat(oe, ot) is Some);
    assert(oe is Some && ot is Some);
    lemma_optional_reported(Discrepancy::EnergyCost, cdr.total_energy_cost, energy, tolerance);
    lemma_optional_reported(Discrepancy::TimeCost, cdr.total_time_cost, charging, tolerance);
    let attributable = flat.spec_mantissa() == 0 || (parking.spec_mantissa() == 0 && reserved.spec_mantissa() == 0);
    let et = oe->Some_0 + ot->Some_0;
    let ks = seq![Discrepancy::EnergyCost, Discrepancy::EnergyVolume, Discrepancy::TimeVolume];
    assert forall|i: int| 0 <= i < 3 implies some_about(et, #[trigger] ks[i]) == some_about(oe->Some_0, ks[i]) by {
        lemma_some_about_joined(oe->Some_0, ot->Some_0, ks[i]);
    }
    if attributable {
        assert(cat(cat(cat(oe, ot), op), of) is Some && orr is Some);
        assert(cat(cat(oe, ot), op) is Some && of is Some);
        assert(op is Some);
        lemma_optional_reported(Discrepancy::ParkingCost, cdr.total_parking_cost, parking, tolerance);
        lemma_optional_reported(Discrepancy::FixedCost, cdr.total_fixed_cost, flat, tolerance);
        lemma_optional_reported(Discrepancy::ReservationCost, cdr.total_reservation_cost, reserved, tolerance);
        let a = op->Some_0;
        let f = of->Some_0;
        let o = orr->Some_0;
        assert(y =~= et + (a + f + o));
        assert forall|i: int| 0 <= i < 3 implies some_about(y, #[trigger] ks[i]) == some_about(et, ks[i]) by {
            let k = ks[i];
            lemma_some_about_joined(a, f, k);
            lemma_some_about_joined(a + f, o, k);
            lemma_some_about_joined(et, a + f + o, k);
        }
    } else {
        assert(y == et);
    }
    assert(some_about(y, ks[0]) == some_about(oe->Some_0, ks[0]));
    assert(some_about(y, ks[1]) == some_about(oe->Some_0, ks[1]));
    assert(some_about(y, ks[2]) == some_about(oe->Some_0, ks[2]));
}

/// Among the volumes, the energy volume and the total time are each reported exactly when the
/// CDR's figure is more than the tolerance away from the breakdown's, and no cost is reported.
proof fn lemma_volumes_report(cdr: CdrClaims, b: CostBreakdown, tolerance: Number, hours: Number)
    requires
        volume_entries(cdr, b, tolerance, hours) is Some,
    ensures
        ({
            let z = volume_entries(cdr, b, tolerance, hours)->Some_0;
            &&& some_about(z, Discrepancy::EnergyVolume) <==> apart_by_more_than(
                cdr.total_energy,
                dimension_measured(b, TariffDimensionType::Energy),
                tolerance,
            )
            &&& some_about(z, Discrepancy::TimeVolume) <==> apart_by_more_than(cdr.total_time, hours, tolerance)
            &&& !some_about(z, Discrepancy::EnergyCost)
        }),
{
    let z = volume_entries(cdr, b, tolerance, hours)->Some_0;
    let used = dimension_measured(b, TariffDimensionType::Energy);
    let parked = dimension_measured(b, TariffDimensionType::ParkingTime);
    let ve = entry(Discrepancy::EnergyVolume, cdr.total_energy, used, tolerance);
    let vt = entry(Discrepancy::TimeVolume, cdr.total_time, hours, tolerance);
    let vp = optional_entry(Discrepancy::ParkingVolume, cdr.total_parking_time, parked, tolerance);
    assert(cat(ve, vt) is Some && vp is Some);
    assert(ve is Some && vt is Some);
    lemma_entry_keeps(Discrepancy::EnergyVolume, cdr.total_energy, used, tolerance);
    lemma_entry_keeps(Discrepancy::TimeVolume, cdr.total_time, hours, tolerance);
    lemma_optional_reported(Discrepancy::ParkingVolume, cdr.total_parking_time, parked, tolerance);
    let a = ve->Some_0;
    let t = vt->Some_0;
    let p = vp->Some_0;
    assert(z == a + t + p);
    let ks = seq![Discrepancy::EnergyVolume, Discrepancy::TimeVolume, Discrepancy::EnergyCost];
    assert forall|i: int| 0 <= i < 3 implies some_about(z, #[trigger] ks[i]) == (some_about(a, ks[i]) || some_about(
        t,
        ks[i],
    )) by {
        let k = ks[i];
        lemma_some_about_joined(a, t, k);
        lemma_some_about_joined(a + t, p, k);
    }
    assert(!some_about(a, Discrepancy::TimeVolume) && !some_about(a, Discrepancy::EnergyCost)) by {
        assert(none_about(a, Discrepancy::TimeVolume) && none_about(a, Discrepancy::EnergyCost));
    }
    assert(!some_about(t, Discrepancy::EnergyVolume) && !some_about(t, Discrepancy::EnergyCost)) by {
        assert(none_about(t, Discrepancy::EnergyVolume) && none_about(t, Discrepancy::EnergyCost));
    }
    assert(some_about(z, ks[0]) == some_about(z, Discrepancy::EnergyVolume));
    assert(some_about(z, ks[1]) == some_about(z, Discrepancy::TimeVolume));
    assert(some_about(z, ks[2]) == some_about(z, Discrepancy::EnergyCost));
}

/// The volumes and the energy cost are each reported exactly when the CDR's figure and the
/// breakdown's are more than the tolerance apart, whichever is the larger: the energy volume
/// against the energy measured, the total time against the session's duration, and the energy
/// cost, when the CDR states one, against the cost of the energy.

pub proof fn lemma_figures_reported_exactly_when_apart(cdr: CdrClaims, b: CostBreakdown, tolerance: Number)
    requires
        divergences_of(cdr, b, tolerance) is Some,
    ensures
        some_about(divergences_of(cdr, b, tolerance)->Some_0, Discrepancy::EnergyVolume) <==> apart_by_more_than(
            cdr.total_energy,
            dimension_measured(b, TariffDimensionType::Energy),
            tolerance,
        ),
        some_about(divergences_of(cdr, b, tolerance)->Some_0, Discrepancy::TimeVolume) <==> (session_hours_of(cdr)
            matches Some(h) && apart_by_more_than(cdr.total_time, h, tolerance)),
        some_about(divergences_of(cdr, b, tolerance)->Some_0, Discrepancy::EnergyCost) <==> (cdr.total_energy_cost
            matches Some(c) && apart_by_more_than(c, dimension_cost(b, TariffDimensionType::Energy), tolerance)),
{
    let (charging, reserved) = time_split(time_segments(b))->Some_0;
    let hours = session_hours_of(cdr)->Some_0;
    let energy = dimension_cost(b, TariffDimensionType::Energy);
    let parking = dimension_cost(b, TariffDimensionType::ParkingTime);
    let flat = dimension_cost(b, TariffDimensionType::Flat);
    lemma_divergence_parts(cdr, b, tolerance, charging, reserved, hours);
    lemma_split_reports(
        cdr,
        b,
        tolerance,
        divergences_of(cdr, b, tolerance)->Some_0,
        entry(Discrepancy::TotalBeforeTaxes, cdr.total_cost_before_taxes, b.total_excl_vat, tolerance)->Some_0,
        entry(Discrepancy::TotalAfterTaxes, cdr.total_cost_after_taxes, b.total_incl_vat, tolerance)->Some_0,
        cost_entries(cdr, tolerance, energy, charging, parking, flat, reserved)->Some_0,
        volume_entries(cdr, b, tolerance, hours)->Some_0,
        energy,
        charging,
        parking,
        flat,
        reserved,
        hours,
    );
}

/// A verification's reports are the totals', then the costs', then the volumes'.
proof fn lemma_divergence_parts(
    cdr: CdrClaims,
    b: CostBreakdown,
    tolerance: Number,
    charging: Number,
    reserved: Number,
    hours: Number,
)
    requires
        divergences_of(cdr, b, tolerance) is Some,
        time_split(time_segments(b)) == Some((charging, reserved)),
        session_hours_of(cdr) == Some(hours),
    ensures
        entry(Discrepancy::TotalBeforeTaxes, cdr.total_cost_before_taxes, b.total_excl_vat, tolerance) is Some,
        entry(Discrepancy::TotalAfterTaxes, cdr.total_cost_after_taxes, b.total_incl_vat, tolerance) is Some,
        cost_entries(
            cdr,
            tolerance,
            dimension_cost(b, TariffDimensionType::Energy),
            charging,
            dimension_cost(b, TariffDimensionType::ParkingTime),
            dimension_cost(b, TariffDimensionType::Flat),
            reserved,
        ) is Some,
        volume_entries(cdr, b, tolerance, hours) is Some,
        divergences_of(cdr, b, tolerance)->Some_0 == entry(
            Discrepancy::TotalBeforeTaxes,
            cdr.total_cost_before_taxes,
            b.total_excl_vat,
            tolerance,
        )->Some_0 + entry(Discrepancy::TotalAfterTaxes, cdr.total_cost_after_taxes, b.total_incl_vat, tolerance)->Some_0
            + (cost_entries(
            cdr,
            tolerance,
            dimension_cost(b, TariffDimensionType::Energy),
            charging,
            dimension_cost(b, TariffDimensionType::ParkingTime),
            dimension_cost(b, TariffDimensionType::Flat),
            reserved,
        )->Some_0 + volume_entries(cdr, b, tolerance, hours)->Some_0),
{
    let e0 = entry(Discrepancy::TotalBeforeTaxes, cdr.total_cost_before_taxes, b.total_excl_vat, tolerance);
    let e1 = entry(Discrepancy::TotalAfterTaxes, cdr.total_cost_after_taxes, b.total_incl_vat, tolerance);
    let energy = dimension_cost(b, TariffDimensionType::Energy);
    let parking = dimension_cost(b, TariffDimensionType::ParkingTime);
    let flat = dimension_cost(b, TariffDimensionType::Flat);
    let costs = cost_entries(cdr, tolerance, energy, charging, parking, flat, reserved);
    let vols = volume_entries(cdr, b, tolerance, hours);
    let c01 = cat(e0, e1);
    let c012 = cat(c01, costs);
    assert(c012 is Some && vols is Some);
    assert(e0 is Some && e1 is Some) by {
        assert(c01 is Some);
    }
    assert(divergences_of(cdr, b, tolerance) == cat(c012, vols));
    let x01 = e0->Some_0 + e1->Some_0;
    assert(c012 == Some(x01 + costs->Some_0));
    let all = x01 + costs->Some_0 + vols->Some_0;
    assert(divergences_of(cdr, b, tolerance)->Some_0 == all);
    assert(all =~= x01 + (costs->Some_0 + vols->Some_0));
}

/// The reports about the volumes and the energy cost, from the four parts of a verification.
proof fn lemma_split_reports(
    cdr: CdrClaims,
    b: CostBreakdown,
    tolerance: Number,
    all: Seq<Divergence>,
    x0: Seq<Divergence>,
    x1: Seq<Divergence>,
    y: Seq<Divergence>,
    z: Seq<Divergence>,
    energy: Number,
    charging: Number,
    parking: Number,
    flat: Number,
    reserved: Number,
    hours: Number,
)
    requires
        all == x0 + x1 + (y + z),
        entry(Discrepancy::TotalBeforeTaxes, cdr.total_cost_before_taxes, b.total_excl_vat, tolerance) == Some(x0),
        entry(Discrepancy::TotalAfterTaxes, cdr.total_cost_after_taxes, b.total_incl_vat, tolerance) == Some(x1),
        cost_entries(cdr, tolerance, energy, charging, parking, flat, reserved) == Some(y),
        volume_entries(cdr, b, tolerance, hours) == Some(z),
    ensures
        some_about(all, Discrepancy::EnergyVolume) <==> apart_by_more_than(
            cdr.total_energy,
            dimension_measured(b, TariffDimensionType::Energy),
            tolerance,
        ),
        some_about(all, Discrepancy::TimeVolume) <==> apart_by_more_than(cdr.total_time, hours, tolerance),
        some_about(all, Discrepancy::EnergyCost) <==> (cdr.total_energy_cost matches Some(c) && apart_by_more_than(
            c,
            energy,
            tolerance,
        )),
{
    lemma_entry_keeps(Discrepancy::TotalBeforeTaxes, cdr.total_cost_before_taxes, b.total_excl_vat, tolerance);
    lemma_entry_keeps(Discrepancy::TotalAfterTaxes, cdr.total_cost_after_taxes, b.total_incl_vat, tolerance);
    lemma_costs_report(cdr, tolerance, energy, charging, parking, flat, reserved);
    lemma_volumes_report(cdr, b, tolerance, hours);
    assert(all =~= x0 + x1 + y + z);
    lemma_joined_four(x0, x1, y, z, Discrepancy::EnergyVolume);
    lemma_joined_four(x0, x1, y, z, Discrepancy::TimeVolume);
    lemma_joined_four(x0, x1, y, z, Discrepancy::EnergyCost);
}

/// A divergence about `k` is in four lists joined, the first two about neither volume nor
/// energy cost, exactly when it is in the last two.
proof fn lemma_joined_four(x0: Seq<Divergence>, x1: Seq<Divergence>, y: Seq<Divergence>, z: Seq<Divergence>, k: Discrepancy)
    requires
        none_about(x0, k),
        none_about(x1, k),
    ensures
        some_about(x0 + x1 + y + z, k) <==> (some_about(y, k) || some_about(z, k)),
{
    lemma_some_about_joined(x0, x1, k);
    lemma_some_about_joined(x0 + x1, y, k);
    lemma_some_about_joined(x0 + x1 + y, z, k);
}

} // verus!
