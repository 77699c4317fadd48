//! `step_size` applied once per dimension of a session, and every priced stretch costed.
//!
//! Energy is always rounded up to whole steps; of the time-based dimensions only one is, the
//! parking time wherever there is any, else the charging time. The step of the last stretch of
//! a dimension is the one used, and what rounding adds is billed at the last stretch's rate.

use vstd::prelude::*;

use crate::tariffs::breakdown::{lemma_prefix_defined, DimensionCost, PricedSegment, PricingNote};
use crate::tariffs::codes::{AppliedComponent, TaxBasis};
use crate::tariffs::engine::{note_views, split_amounts, split_notes, NoteView, PricingEngine};
use crate::tariffs::model::TariffDimensionType;
use crate::tariffs::policy::{quantised, PricingPolicy};
use crate::types::datetime::DateTime;
use crate::types::number::{
    checked_total, checked_total_prefix, decimal_checked_difference, decimal_checked_product,
    decimal_checked_sum, decimal_rounded, numeric_eq, Number,
};

verus! {

/// The component that priced a stretch, as the contracts see it: the tariff id, the element
/// and component indices, whether it priced reserved time, and why the element was chosen.
pub type AppliedView = (Seq<char>, usize, usize, bool, Seq<char>);

/// The view of an applied component.
pub open spec fn applied_view(a: AppliedComponent) -> AppliedView {
    (a.tariff_id@, a.element_index, a.component_index, a.reservation, a.because@)
}

/// A priced stretch as the contracts see it: its start, quantity, price, VAT percentage, cost,
/// tax, tax basis and the component that priced it.
pub type SegView = (DateTime, Number, Number, Option<Number>, Number, Number, TaxBasis, AppliedView);

/// The view of a priced stretch.
pub open spec fn seg_view(s: PricedSegment) -> SegView {
    (s.start, s.quantity, s.price, s.vat_percentage, s.cost, s.tax, s.tax_basis, applied_view(s.applied))
}

/// The views of priced stretches, in order.
pub open spec fn seg_views(s: Seq<PricedSegment>) -> Seq<SegView> {
    s.map_values(|x: PricedSegment| seg_view(x))
}

/// One stretch of one dimension, with the `step_size` of the Price Component that priced it.
pub struct Segment {
    /// The dimension priced.
    pub dimension: TariffDimensionType,
    /// The `step_size` of the Price Component, in the dimension's own unit.
    pub step_size: u32,
    /// The stretch, not yet costed.
    pub priced: PricedSegment,
}

/// A stretch waiting to be costed, as the contracts see it.
pub type SegmentView = (TariffDimensionType, u32, SegView);

/// The view of a stretch waiting to be costed.
pub open spec fn segment_view(s: Segment) -> SegmentView {
    (s.dimension, s.step_size, seg_view(s.priced))
}

/// The views of stretches waiting to be costed, in order.
pub open spec fn segment_views(s: Seq<Segment>) -> Seq<SegmentView> {
    s.map_values(|x: Segment| segment_view(x))
}

/// What a dimension cost, as the contracts see it: the dimension, the quantity measured and
/// billed, the cost and the tax, and the costed stretches.
pub type DimView = (TariffDimensionType, Number, Number, Number, Number, Seq<SegView>);

/// The view of what a dimension cost.
pub open spec fn dim_view(d: DimensionCost) -> DimView {
    (d.dimension, d.measured, d.billed, d.cost, d.vat, seg_views(d.segments@))
}

/// The views of what the dimensions cost, in order.
pub open spec fn dim_views(d: Seq<DimensionCost>) -> Seq<DimView> {
    d.map_values(|x: DimensionCost| dim_view(x))
}

/// Whether some stretch of `segs` is of dimension `d`.
pub open spec fn has_dimension(segs: Seq<SegmentView>, d: TariffDimensionType) -> bool {
    exists|i: int| 0 <= i < segs.len() && (#[trigger] segs[i]).0 == d
}

/// The one time-based dimension whose `step_size` is applied: PARKING_TIME wherever it
/// appears, else TIME where it appears.
pub open spec fn quantised_time(segs: Seq<SegmentView>) -> Option<TariffDimensionType> {
    if has_dimension(segs, TariffDimensionType::ParkingTime) {
        Some(TariffDimensionType::ParkingTime)
    } else if has_dimension(segs, TariffDimensionType::Time) {
        Some(TariffDimensionType::Time)
    } else {
        None
    }
}

/// The dimensions of `segs`, each once, in the order they first appear.
pub open spec fn dimension_order(segs: Seq<SegmentView>) -> Seq<TariffDimensionType>
    decreases segs.len(),
{
    if segs.len() == 0 {
        Seq::empty()
    } else {
        let before = dimension_order(segs.drop_last());
        if before.contains(segs.last().0) {
            before
        } else {
            before.push(segs.last().0)
        }
    }
}

/// The stretches of `segs` of dimension `d`, in order.
pub open spec fn of_dimension(segs: Seq<SegmentView>, d: TariffDimensionType) -> Seq<SegmentView>
    decreases segs.len(),
{
    if segs.len() == 0 {
        Seq::empty()
    } else {
        let before = of_dimension(segs.drop_last(), d);
        if segs.last().0 == d {
            before.push(segs.last())
        } else {
            before
        }
    }
}

/// The quantities of `list`, in order.
pub open spec fn quantities_of(list: Seq<SegmentView>) -> Seq<Number> {
    list.map_values(|s: SegmentView| s.2.1)
}

/// How many of the counted units make one unit of `d`: Wh to the kWh, seconds to the hour.
pub open spec fn unit_scale(d: TariffDimensionType) -> u32 {
    if d == TariffDimensionType::Energy {
        1000
    } else {
        3600
    }
}

/// Whether `step_size` applies to `d`, given the time-based dimension it applies to.
pub open spec fn quantises(d: TariffDimensionType, time: Option<TariffDimensionType>) -> bool {
    match d {
        TariffDimensionType::Energy => true,
        TariffDimensionType::Flat => false,
        _ => time == Some(d),
    }
}

/// `list` with what `billed` adds to `measured` added to the quantity of its last stretch.
/// `None` where the decimal arithmetic overflows.
pub open spec fn surplus_added(list: Seq<SegmentView>, measured: Number, billed: Number) -> Option<Seq<SegmentView>> {
    if numeric_eq(billed, measured) || list.len() == 0 {
        Some(list)
    } else {
        match decimal_checked_difference(billed, measured) {
            None => None,
            Some(extra) => match decimal_checked_sum(list.last().2.1, extra) {
                None => None,
                Some(q) => {
                    let l = list.last();
                    Some(
                        list.update(
                            list.len() - 1,
                            (l.0, l.1, (l.2.0, q, l.2.2, l.2.3, l.2.4, l.2.5, l.2.6, l.2.7)),
                        ),
                    )
                },
            },
        }
    }
}

/// The first `n` stretches of `list` costed: each amount is the quantity times the price,
/// rounded as a component, split into cost and tax; with the sums of the costs and of the taxes
/// and the notes the splitting leaves. `None` where the decimal arithmetic overflows.
pub open spec fn costed_prefix(
    policy: PricingPolicy,
    list: Seq<SegmentView>,
    n: int,
    notes: Seq<NoteView>,
) -> Option<(Seq<SegView>, Number, Number, Seq<NoteView>)>
    decreases n,
{
    if n <= 0 {
        Some((Seq::empty(), Number::from_integer(0), Number::from_integer(0), notes))
    } else {
        match costed_prefix(policy, list, n - 1, notes) {
            None => None,
            Some((done, cost, vat, ns)) => {
                let s = list[n - 1].2;
                match decimal_checked_product(s.1, s.2) {
                    None => None,
                    Some(amount) => {
                        let stated = decimal_rounded(amount, policy.component_decimals, policy.rounding);
                        match split_amounts(policy, stated, s.3, s.6) {
                            None => None,
                            Some((net, tax)) => match (decimal_checked_sum(cost, net), decimal_checked_sum(vat, tax)) {
                                (Some(c), Some(v)) => Some(
                                    (
                                        done.push((s.0, s.1, s.2, s.3, net, tax, s.6, s.7)),
                                        c,
                                        v,
                                        split_notes(ns, s.3, s.6),
                                    ),
                                ),
                                _ => None,
                            },
                        }
                    },
                }
            },
        }
    }
}

/// What the stretches `list` of dimension `d` cost: the quantity measured is their sum; the
/// quantity billed is that sum rounded up to the step of the last stretch where `step_size`
/// applies to `d`; the surplus is added to the last stretch; each stretch is costed; and the
/// cost and tax are the sums, rounded as a component. `None` where the arithmetic overflows.
pub open spec fn dimension_costed(
    policy: PricingPolicy,
    list: Seq<SegmentView>,
    d: TariffDimensionType,
    time: Option<TariffDimensionType>,
    notes: Seq<NoteView>,
) -> Option<(DimView, Seq<NoteView>)> {
    match checked_total(quantities_of(list)) {
        None => None,
        Some(measured) => {
            let billed = if quantises(d, time) {
                let step: u32 = if list.len() == 0 {
                    1
                } else {
                    list.last().1
                };
                quantised(policy.quantisation, measured, step, unit_scale(d))
            } else {
                Some(measured)
            };
            match billed {
                None => None,
                Some(b) => match surplus_added(list, measured, b) {
                    None => None,
                    Some(l) => match costed_prefix(policy, l, l.len() as int, notes) {
                        None => None,
                        Some((segs, cost, vat, ns)) => Some(
                            (
                                (
                                    d,
                                    measured,
                                    b,
                                    decimal_rounded(cost, policy.component_decimals, policy.rounding),
                                    decimal_rounded(vat, policy.component_decimals, policy.rounding),
                                    segs,
                                ),
                                ns,
                            ),
                        ),
                    },
                },
            }
        },
    }
}

/// The first `n` dimensions of `order` costed, each from its stretches in `segs`.
pub open spec fn costs_prefix(
    policy: PricingPolicy,
    segs: Seq<SegmentView>,
    order: Seq<TariffDimensionType>,
    n: int,
    notes: Seq<NoteView>,
) -> Option<(Seq<DimView>, Seq<NoteView>)>
    decreases n,
{
    if n <= 0 {
        Some((Seq::empty(), notes))
    } else {
        match costs_prefix(policy, segs, order, n - 1, notes) {
            None => None,
            Some((ds, ns)) => match dimension_costed(
                policy,
                of_dimension(segs, order[n - 1]),
                order[n - 1],
                quantised_time(segs),
                ns,
            ) {
                None => None,
                Some((dv, ns2)) => Some((ds.push(dv), ns2)),
            },
        }
    }
}

/// What every dimension of `segs` cost, in the order the dimensions first appear, and the
/// notes costing leaves after `notes`. `None` where the decimal arithmetic overflows.
pub open spec fn quantised_costs(policy: PricingPolicy, segs: Seq<SegmentView>, notes: Seq<NoteView>) -> Option<
    (Seq<DimView>, Seq<NoteView>),
> {
    costs_prefix(policy, segs, dimension_order(segs), dimension_order(segs).len() as int, notes)
}

/// A defined costing of `b` stretches has a defined costing of the first `a`.
proof fn lemma_costed_defined(policy: PricingPolicy, list: Seq<SegmentView>, a: int, b: int, notes: Seq<NoteView>)
    requires
        0 <= a <= b,
        costed_prefix(policy, list, b, notes) is Some,
    ensures
        costed_prefix(policy, list, a, notes) is Some,
    decreases b - a,
{
    if a < b {
        lemma_costed_defined(policy, list, a, b - 1, notes);
    }
}

/// A defined costing of `b` dimensions has a defined costing of the first `a`.
proof fn lemma_costs_defined(
    policy: PricingPolicy,
    segs: Seq<SegmentView>,
    order: Seq<TariffDimensionType>,
    a: int,
    b: int,
    notes: Seq<NoteView>,
)
    requires
        0 <= a <= b,
        costs_prefix(policy, segs, order, b, notes) is Some,
    ensures
        costs_prefix(policy, segs, order, a, notes) is Some,
    decreases b - a,
{
    if a < b {
        lemma_costs_defined(policy, segs, order, a, b - 1, notes);
    }
}

/// Each dimension occurs once in the order of first appearance.
proof fn lemma_order_distinct(segs: Seq<SegmentView>)
    ensures
        dimension_order(segs).no_duplicates(),
    decreases segs.len(),
{
    if segs.len() > 0 {
        lemma_order_distinct(segs.drop_last());
    }
}

/// A dimension is in the order of first appearance exactly when some stretch has it.
proof fn lemma_order_has(segs: Seq<SegmentView>, d: TariffDimensionType)
    ensures
        dimension_order(segs).contains(d) <==> of_dimension(segs, d).len() > 0,
    decreases segs.len(),
{
    if segs.len() > 0 {
        lemma_order_has(segs.drop_last(), d);
        lemma_order_has(segs.drop_last(), segs.last().0);
        let before = dimension_order(segs.drop_last());
        if !before.contains(segs.last().0) {
            assert(before.push(segs.last().0)[before.len() as int] == segs.last().0);
            assert(before.push(segs.last().0).contains(segs.last().0));
            assert(before.push(segs.last().0).contains(d) ==> before.contains(d) || d == segs.last().0) by {
                if before.push(segs.last().0).contains(d) {
                    let w = choose|w: int| 0 <= w < before.len() + 1 && before.push(segs.last().0)[w] == d;
                    if w < before.len() {
                        assert(before[w] == d);
                    }
                }
            }
            assert(before.contains(d) ==> before.push(segs.last().0).contains(d)) by {
                if before.contains(d) {
                    let w = choose|w: int| 0 <= w < before.len() && before[w] == d;
                    assert(before.push(segs.last().0)[w] == d);
                }
            }
        }
    }
}

impl PricingEngine {
    /// Costs the stretches `list` of dimension `d`: sums them, applies `step_size` where
    /// `time` says it applies to `d`, adds the surplus to the last stretch, and costs each.
    fn cost_dimension(
        &self,
        d: TariffDimensionType,
        list: Vec<Segment>,
        time: Option<TariffDimensionType>,
        notes: &mut Vec<PricingNote>,
    ) -> (r: DimensionCost)
        requires
            dimension_costed(self.spec_policy(), segment_views(list@), d, time, note_views(old(notes)@)) is Some,
        ensures
            Some((dim_view(r), note_views(final(notes)@))) == dimension_costed(
                self.spec_policy(),
                segment_views(list@),
                d,
                time,
                note_views(old(notes)@),
            ),
    {
        let ghost policy = self.spec_policy();
        let ghost views = segment_views(list@);
        let mut list = list;
        let n = list.len();
        let mut measured = Number::zero();
        let mut i: usize = 0;
        while i < n
            invariant
                i <= n,
                n == list@.len(),
                views == segment_views(list@),
                checked_total(quantities_of(views)) is Some,
                Some(measured) == checked_total_prefix(quantities_of(views), i as int),
            decreases n - i,
        {
            proof {
                lemma_prefix_defined(quantities_of(views), i as int + 1, n as int);
            }
            measured = measured + list[i].priced.quantity;
            i = i + 1;
        }
        assert(quantities_of(views).len() == n);
        let quantise = match d {
            TariffDimensionType::Energy => true,
            TariffDimensionType::Flat => false,
            _ => match time {
                Some(t) => t == d,
                None => false,
            },
        };
        let billed = if quantise {
            let step: u32 = if n == 0 {
                1
            } else {
                list[n - 1].step_size
            };
            let scale: u32 = if d == TariffDimensionType::Energy {
                1000
            } else {
                3600
            };
            self.policy().quantisation.apply(measured, step, scale)
        } else {
            measured
        };
        if billed != measured && n > 0 {
            let mut last = match list.pop() {
                Some(s) => s,
                None => {
                    proof {
                        assert(false);
                    }
                    return DimensionCost {
                        dimension: d,
                        measured,
                        billed,
                        cost: Number::zero(),
                        vat: Number::zero(),
                        segments: Vec::new(),
                    };
                },
            };
            last.priced.quantity = last.priced.quantity + (billed - measured);
            list.push(last);
            proof {
                assert(segment_views(list@) =~= surplus_added(views, measured, billed)->Some_0);
            }
        }
        let ghost adjusted = segment_views(list@);
        assert(adjusted == surplus_added(views, measured, billed)->Some_0);
        let ghost first_notes = note_views(notes@);
        let mut cost = Number::zero();
        let mut vat = Number::zero();
        let mut costed: Vec<PricedSegment> = Vec::new();
        let mut k: usize = 0;
        while k < n
            invariant
                k <= n,
                n == adjusted.len(),
                segment_views(list@) == adjusted.subrange(k as int, n as int),
                list@.len() == n - k,
                costed_prefix(policy, adjusted, n as int, first_notes) is Some,
                costed_prefix(policy, adjusted, k as int, first_notes) == Some(
                    (seg_views(costed@), cost, vat, note_views(notes@)),
                ),
                policy == self.spec_policy(),
            decreases n - k,
        {
            proof {
                lemma_costed_defined(policy, adjusted, k as int + 1, n as int, first_notes);
            }
            assert(segment_views(list@)[0] == adjusted[k as int]);
            let ghost before = list@;
            let seg = list.remove(0);
            assert(segment_view(seg) == adjusted[k as int]);
            let mut priced = seg.priced;
            let stated = self.policy().round_component(priced.quantity * priced.price);
            let (net, tax) = self.split_tax(stated, priced.vat_percentage, priced.tax_basis, notes);
            priced.cost = net;
            priced.tax = tax;
            cost = cost + net;
            vat = vat + tax;
            costed.push(priced);
            proof {
                assert(seg_views(costed@) =~= seg_views(costed@.drop_last()).push(seg_view(priced)));
                assert forall|j: int| 0 <= j < list@.len() implies segment_views(list@)[j] == adjusted.subrange(
                    k as int + 1,
                    n as int,
                )[j] by {
                    assert(list@[j] == before[j + 1]);
                    assert(segment_views(before)[j + 1] == adjusted[k + 1 + j]);
                }
                assert(segment_views(list@) =~= adjusted.subrange(k as int + 1, n as int));
            }
            k = k + 1;
        }
        DimensionCost {
            dimension: d,
            measured,
            billed,
            cost: self.policy().round_component(cost),
            vat: self.policy().round_component(vat),
            segments: costed,
        }
    }

    /// Applies `step_size` once per dimension of the session and costs every stretch: the
    /// dimensions come out in the order they first appear among `segments`.
    pub(crate) fn quantise_and_cost(&self, segments: Vec<Segment>, notes: &mut Vec<PricingNote>) -> (r: Vec<
        DimensionCost,
    >)
        requires
            quantised_costs(self.spec_policy(), segment_views(segments@), note_views(old(notes)@)) is Some,
        ensures
            Some((dim_views(r@), note_views(final(notes)@))) == quantised_costs(
                self.spec_policy(),
                segment_views(segments@),
                note_views(old(notes)@),
            ),
    {
        let ghost policy = self.spec_policy();
        let ghost all = segment_views(segments@);
        let total = segments.len();
        let mut has_parking = false;
        let mut has_time = false;
        let mut i: usize = 0;
        while i < total
            invariant
                i <= total,
                total == segments@.len(),
                all == segment_views(segments@),
                has_parking == (exists|j: int| 0 <= j < i && (#[trigger] all[j]).0 == TariffDimensionType::ParkingTime),
                has_time == (exists|j: int| 0 <= j < i && (#[trigger] all[j]).0 == TariffDimensionType::Time),
            decreases total - i,
        {
            let d = segments[i].dimension;
            assert(all[i as int].0 == d);
            if d == TariffDimensionType::ParkingTime {
                has_parking = true;
            }
            if d == TariffDimensionType::Time {
                has_time = true;
            }
            i = i + 1;
        }
        let time = if has_parking {
            Some(TariffDimensionType::ParkingTime)
        } else if has_time {
            Some(TariffDimensionType::Time)
        } else {
            None
        };
        assert(time == quantised_time(all));
        let mut rest = segments;
        let mut energy: Vec<Segment> = Vec::new();
        let mut charging: Vec<Segment> = Vec::new();
        let mut parking: Vec<Segment> = Vec::new();
        let mut flat: Vec<Segment> = Vec::new();
        let mut order: Vec<TariffDimensionType> = Vec::new();
        let mut k: usize = 0;
        proof {
            assert(all.take(0) =~= Seq::<SegmentView>::empty());
        }
        while k < total
            invariant
                k <= total,
                total == all.len(),
                segment_views(rest@) == all.subrange(k as int, total as int),
                rest@.len() == total - k,
                order@ == dimension_order(all.take(k as int)),
                segment_views(energy@) == of_dimension(all.take(k as int), TariffDimensionType::Energy),
                segment_views(charging@) == of_dimension(all.take(k as int), TariffDimensionType::Time),
                segment_views(parking@) == of_dimension(all.take(k as int), TariffDimensionType::ParkingTime),
                segment_views(flat@) == of_dimension(all.take(k as int), TariffDimensionType::Flat),
            decreases total - k,
        {
            assert(segment_views(rest@)[0] == all[k as int]);
            let ghost before = rest@;
            let seg = rest.remove(0);
            let d = seg.dimension;
            proof {
                lemma_order_has(all.take(k as int), d);
            }
            let seen = match d {
                TariffDimensionType::Energy => energy.len() > 0,
                TariffDimensionType::Time => charging.len() > 0,
                TariffDimensionType::ParkingTime => parking.len() > 0,
                TariffDimensionType::Flat => flat.len() > 0,
            };
            let ghost e0 = energy@;
            let ghost c0 = charging@;
            let ghost p0 = parking@;
            let ghost f0 = flat@;
            match d {
                TariffDimensionType::Energy => energy.push(seg),
                TariffDimensionType::Time => charging.push(seg),
                TariffDimensionType::ParkingTime => parking.push(seg),
                TariffDimensionType::Flat => flat.push(seg),
            }
            if !seen {
                order.push(d);
            }
            proof {
                let next = all.take(k as int + 1);
                assert(next.drop_last() =~= all.take(k as int));
                assert(next.last() == all[k as int]);
                assert(segment_view(seg) == all[k as int]);
                assert(segment_views(e0.push(seg)) =~= segment_views(e0).push(segment_view(seg)));
                assert(segment_views(c0.push(seg)) =~= segment_views(c0).push(segment_view(seg)));
                assert(segment_views(p0.push(seg)) =~= segment_views(p0).push(segment_view(seg)));
                assert(segment_views(f0.push(seg)) =~= segment_views(f0).push(segment_view(seg)));
                assert forall|j: int| 0 <= j < rest@.len() implies segment_views(rest@)[j] == all.subrange(
                    k as int + 1,
                    total as int,
                )[j] by {
                    assert(rest@[j] == before[j + 1]);
                    assert(segment_views(before)[j + 1] == all[k + 1 + j]);
                }
                assert(segment_views(rest@) =~= all.subrange(k as int + 1, total as int));
            }
            k = k + 1;
        }
        proof {
            assert(all.take(total as int) =~= all);
            lemma_order_distinct(all);
        }
        let ghost first = note_views(notes@);
        let mut out: Vec<DimensionCost> = Vec::new();
        let m = order.len();
        let mut j: usize = 0;
        proof {
            assert(order@.take(0) =~= Seq::<TariffDimensionType>::empty());
        }
        while j < m
            invariant
                j <= m,
                m == order@.len(),
                order@ == dimension_order(all),
                order@.no_duplicates(),
                time == quantised_time(all),
                policy == self.spec_policy(),
                costs_prefix(policy, all, order@, m as int, first) is Some,
                costs_prefix(policy, all, order@, j as int, first) == Some((dim_views(out@), note_views(notes@))),
                !order@.take(j as int).contains(TariffDimensionType::Energy) ==> segment_views(energy@)
                    == of_dimension(all, TariffDimensionType::Energy),
                !order@.take(j as int).contains(TariffDimensionType::Time) ==> segment_views(charging@)
                    == of_dimension(all, TariffDimensionType::Time),
                !order@.take(j as int).contains(TariffDimensionType::ParkingTime) ==> segment_views(parking@)
                    == of_dimension(all, TariffDimensionType::ParkingTime),
                !order@.take(j as int).contains(TariffDimensionType::Flat) ==> segment_views(flat@)
                    == of_dimension(all, TariffDimensionType::Flat),
            decreases m - j,
        {
            proof {
                lemma_costs_defined(policy, all, order@, j as int + 1, m as int, first);
            }
            let d = order[j];
            proof {
                if order@.take(j as int).contains(d) {
                    let w = choose|w: int| 0 <= w < j && order@.take(j as int)[w] == d;
                    assert(order@[w] == order@[j as int]);
                }
                assert(order@.take(j as int + 1) =~= order@.take(j as int).push(d));
                assert forall|x: TariffDimensionType| x != d implies (order@.take(j as int + 1).contains(x)
                    <==> order@.take(j as int).contains(x)) by {
                    let bigger = order@.take(j as int + 1);
                    let smaller = order@.take(j as int);
                    if bigger.contains(x) {
                        let w = choose|w: int| 0 <= w < bigger.len() && bigger[w] == x;
                        assert(smaller[w] == x);
                    }
                    if smaller.contains(x) {
                        let w = choose|w: int| 0 <= w < smaller.len() && smaller[w] == x;
                        assert(bigger[w] == x);
                    }
                }
                assert(order@.take(j as int + 1)[j as int] == d);
                assert(order@.take(j as int + 1).contains(d));
                assert(TariffDimensionType::Energy != d ==> (order@.take(j as int + 1).contains(
                    TariffDimensionType::Energy,
                ) <==> order@.take(j as int).contains(TariffDimensionType::Energy)));
                assert(TariffDimensionType::Time != d ==> (order@.take(j as int + 1).contains(TariffDimensionType::Time)
                    <==> order@.take(j as int).contains(TariffDimensionType::Time)));
                assert(TariffDimensionType::ParkingTime != d ==> (order@.take(j as int + 1).contains(
                    TariffDimensionType::ParkingTime,
                ) <==> order@.take(j as int).contains(TariffDimensionType::ParkingTime)));
                assert(TariffDimensionType::Flat != d ==> (order@.take(j as int + 1).contains(TariffDimensionType::Flat)
                    <==> order@.take(j as int).contains(TariffDimensionType::Flat)));
            }
            let mut list: Vec<Segment> = Vec::new();
            match d {
                TariffDimensionType::Energy => std::mem::swap(&mut energy, &mut list),
                TariffDimensionType::Time => std::mem::swap(&mut charging, &mut list),
                TariffDimensionType::ParkingTime => std::mem::swap(&mut parking, &mut list),
                TariffDimensionType::Flat => std::mem::swap(&mut flat, &mut list),
            }
            let cost = self.cost_dimension(d, list, time, notes);
            out.push(cost);
            proof {
                assert(dim_views(out@) =~= dim_views(out@.drop_last()).push(dim_view(cost)));
            }
            j = j + 1;
        }
        out
    }
}

} // verus!
