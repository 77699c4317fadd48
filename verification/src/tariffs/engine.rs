//! Costing: from priced dimensions to an auditable breakdown, under a [`PricingPolicy`].
//!
//! The tax of each priced stretch is split off according to whether its Tariff's prices
//! include tax; the stretches are grouped into tax lines per VAT percentage; the totals are
//! rounded to the currency and held within the Tariff's `min_price` and `max_price`, the tax
//! lines moving with the total; and every defect found on the way becomes a note.

use vstd::prelude::*;

use crate::strings::push_str;
use crate::tariffs::breakdown::{lemma_prefix_defined, tax_amounts, PricingNote, TaxLine};
use crate::tariffs::breakdown::{CostBreakdown, DimensionCost};
use crate::tariffs::codes::{PriceLimitApplied, PricingNoteCode, TaxBasis};
use crate::tariffs::model::{Price, Tariff, TaxIncluded};
use crate::tariffs::tax_lines::{
    all_segments, dimension_costs, drop_empty_unrated, group_tax_lines, grouped_lines, kept_lines,
    segment_bases, sort_by_rate, sorted_lines, summarise_basis, total,
};
use crate::tariffs::policy::PricingPolicy;
use crate::types::datetime::DateTime;
use crate::types::number::{
    checked_total, checked_total_prefix, decimal_checked_difference, decimal_checked_product,
    decimal_checked_quotient, decimal_checked_sum, decimal_rounded, decimal_text, fits_exactly,
    lemma_difference_added_back, lemma_zero_plus, lemma_zeros_total, numeric_eq, numeric_lt, Number,
};

verus! {

/// What a note records: its code, the moment it concerns, and its message.
pub type NoteView = (PricingNoteCode, Option<DateTime>, Seq<char>);

/// The views of `notes`, in order.
pub open spec fn note_views(notes: Seq<PricingNote>) -> Seq<NoteView> {
    notes.map_values(|n: PricingNote| (n.code, n.at, n.message@))
}

/// `notes` with a note `code` saying `message` added, unless one with that code is there already.
pub open spec fn noted_once(notes: Seq<NoteView>, code: PricingNoteCode, message: Seq<char>) -> Seq<NoteView> {
    if exists|i: int| 0 <= i < notes.len() && notes[i].0 == code {
        notes
    } else {
        notes.push((code, None, message))
    }
}

/// The message of a [`PricingNoteCode::TaxIncludedWithoutRate`] note.
pub open spec fn included_without_rate_message() -> Seq<char> {
    "this Tariff's prices include tax and no Price Component says at what rate, so the two totals cannot be told apart: both are reported as the amount the Tariff states, which is the gross one. This is the ordinary North American shape, where the CPO does not know the rate when it publishes the Tariff"@
}

/// The message of a [`PricingNoteCode::TaxRateIgnored`] note.
pub open spec fn rate_ignored_message() -> Seq<char> {
    "this Tariff says no taxes are applicable and a Price Component names a VAT percentage anyway; the Tariff-level statement governs and the percentage is ignored"@
}

/// The message of a [`PricingNoteCode::MixedTaxBasis`] note.
pub open spec fn mixed_basis_message() -> Seq<char> {
    "the Charging Periods of this session were priced by Tariffs that disagree about whether their prices include tax, so the two totals mean something different for different parts of it"@
}

/// Records a note unless one with the same code is already there: a tariff-level fact is one
/// finding about the session, not one per priced stretch.
pub fn note_once(notes: &mut Vec<PricingNote>, code: PricingNoteCode, message: &str)
    ensures
        note_views(final(notes)@) == noted_once(note_views(old(notes)@), code, message@),
{
    let ghost before = note_views(notes@);
    let mut i: usize = 0;
    while i < notes.len()
        invariant
            i <= notes.len(),
            before == note_views(notes@),
            forall|j: int| 0 <= j < i ==> notes@[j].code != code,
        decreases notes.len() - i,
    {
        if notes[i].code == code {
            proof {
                assert(before[i as int].0 == code);
            }
            return;
        }
        i = i + 1;
    }
    proof {
        assert forall|j: int| 0 <= j < before.len() implies before[j].0 != code by {
            assert(before[j].0 == notes@[j].code);
        }
    }
    notes.push(PricingNote::new(code, None, message));
    proof {
        assert(note_views(notes@) =~= before.push((code, None, message@)));
    }
}

/// The tax basis a Tariff states.
pub open spec fn tariff_basis(t: TaxIncluded) -> TaxBasis {
    match t {
        TaxIncluded::No => TaxBasis::Excluded,
        TaxIncluded::Yes => TaxBasis::Included,
        TaxIncluded::NotApplicable => TaxBasis::NotApplicable,
    }
}

/// The tax basis `tariff` states.
pub fn basis_of(tariff: &Tariff) -> (b: TaxBasis)
    ensures
        b == tariff_basis(tariff.tax_included),
{
    match tariff.tax_included {
        TaxIncluded::No => TaxBasis::Excluded,
        TaxIncluded::Yes => TaxBasis::Included,
        TaxIncluded::NotApplicable => TaxBasis::NotApplicable,
    }
}

/// The basis of a whole breakdown from the bases of its stretches, in order: the one they all
/// share, [`TaxBasis::Mixed`] when two differ, and [`TaxBasis::Excluded`] when there are none.
pub open spec fn summarised_basis(bases: Seq<TaxBasis>) -> TaxBasis {
    if bases.len() == 0 {
        TaxBasis::Excluded
    } else if forall|i: int| 0 <= i < bases.len() ==> #[trigger] bases[i] == bases[0] {
        bases[0]
    } else {
        TaxBasis::Mixed
    }
}

/// The hundred a percentage is divided by.
pub open spec fn hundred() -> Number {
    Number::from_integer(100)
}

/// What [`PricingEngine::split_tax`] makes of an amount `stated` under `policy`: the amount
/// before tax and the tax on it. `None` where the decimal arithmetic overflows.
///
/// On net prices the tax is the rate applied on top, rounded as a component; on gross prices
/// with a rate the net amount is the gross one divided by `1 + rate/100`, rounded, and the tax
/// is what is left, so the two add up to the stated amount; otherwise there is no tax.
pub open spec fn split_amounts(policy: PricingPolicy, stated: Number, percentage: Option<Number>, basis: TaxBasis) -> Option<(Number, Number)> {
    let zero = Number::from_integer(0);
    match (basis, percentage) {
        (TaxBasis::Excluded, Some(rate)) | (TaxBasis::Mixed, Some(rate)) => match decimal_checked_product(stated, rate) {
            Some(p) => match decimal_checked_quotient(p, hundred()) {
                Some(q) => Some((stated, decimal_rounded(q, policy.component_decimals, policy.rounding))),
                None => None,
            },
            None => None,
        },
        (TaxBasis::Included, Some(rate)) => match decimal_checked_quotient(rate, hundred()) {
            Some(fraction) => match decimal_checked_sum(Number::from_integer(1), fraction) {
                Some(divisor) => if divisor.spec_mantissa() == 0 {
                    Some((stated, zero))
                } else {
                    match decimal_checked_quotient(stated, divisor) {
                        Some(n) => {
                            let net = decimal_rounded(n, policy.component_decimals, policy.rounding);
                            match decimal_checked_difference(stated, net) {
                                Some(tax) => Some((net, tax)),
                                None => None,
                            }
                        },
                        None => None,
                    }
                },
                None => None,
            },
            None => None,
        },
        _ => Some((stated, zero)),
    }
}

/// The notes [`PricingEngine::split_tax`] leaves: one saying gross prices had no rate, or one
/// saying a rate was ignored, each at most once.
pub open spec fn split_notes(notes: Seq<NoteView>, percentage: Option<Number>, basis: TaxBasis) -> Seq<NoteView> {
    match basis {
        TaxBasis::Included => if percentage is None {
            noted_once(notes, PricingNoteCode::TaxIncludedWithoutRate, included_without_rate_message())
        } else {
            notes
        },
        TaxBasis::NotApplicable => if percentage is Some {
            noted_once(notes, PricingNoteCode::TaxRateIgnored, rate_ignored_message())
        } else {
            notes
        },
        _ => notes,
    }
}

/// Prices sessions' costs into breakdowns under a [`PricingPolicy`].
#[derive(Clone, Debug)]
pub struct PricingEngine {
    policy: PricingPolicy,
}

impl Default for PricingEngine {
    fn default() -> (e: Self)
        ensures
            e.spec_policy() == (PricingPolicy {
                component_decimals: 4,
                currency_decimals: 2,
                rounding: crate::types::number::RoundingStrategy::MidpointAwayFromZero,
                quantisation: crate::tariffs::codes::Quantisation::StepSize,
            }),
    {
        PricingEngine { policy: PricingPolicy::default() }
    }
}

impl PricingEngine {
    /// The policy in use.
    pub closed spec fn spec_policy(&self) -> PricingPolicy {
        self.policy
    }

    /// An engine with the default [`PricingPolicy`].
    pub fn new() -> (e: Self)
        ensures
            e.spec_policy() == (PricingPolicy {
                component_decimals: 4,
                currency_decimals: 2,
                rounding: crate::types::number::RoundingStrategy::MidpointAwayFromZero,
                quantisation: crate::tariffs::codes::Quantisation::StepSize,
            }),
    {
        Self::default()
    }

    /// An engine with a specific policy.
    pub fn with_policy(policy: PricingPolicy) -> (e: Self)
        ensures
            e.spec_policy() == policy,
    {
        PricingEngine { policy }
    }

    /// The policy in use.
    pub fn policy(&self) -> (p: &PricingPolicy)
        ensures
            *p == self.spec_policy(),
    {
        &self.policy
    }

    /// Splits one component's amount into what is owed before tax and the tax on top of it,
    /// according to whether the Tariff's prices include tax.
    pub fn split_tax(
        &self,
        stated: Number,
        percentage: Option<Number>,
        basis: TaxBasis,
        notes: &mut Vec<PricingNote>,
    ) -> (r: (Number, Number))
        requires
            split_amounts(self.spec_policy(), stated, percentage, basis) is Some,
        ensures
            Some(r) == split_amounts(self.spec_policy(), stated, percentage, basis),
            note_views(final(notes)@) == split_notes(note_views(old(notes)@), percentage, basis),
    {
        let zero = Number::zero();
        let hundred = Number::from(100u32);
        match (basis, percentage) {
            (TaxBasis::Excluded, Some(rate)) | (TaxBasis::Mixed, Some(rate)) => {
                (stated, self.policy.round_component(stated * rate / hundred))
            },
            (TaxBasis::Excluded, None) | (TaxBasis::Mixed, None) => (stated, zero),
            (TaxBasis::Included, Some(rate)) => {
                let divisor = Number::one() + rate / hundred;
                if divisor.is_zero() {
                    return (stated, zero);
                }
                let net = self.policy.round_component(stated / divisor);
                (net, stated - net)
            },
            (TaxBasis::Included, None) => {
                note_once(
                    notes,
                    PricingNoteCode::TaxIncludedWithoutRate,
                    "this Tariff's prices include tax and no Price Component says at what rate, so the two totals cannot be told apart: both are reported as the amount the Tariff states, which is the gross one. This is the ordinary North American shape, where the CPO does not know the rate when it publishes the Tariff",
                );
                (stated, zero)
            },
            (TaxBasis::NotApplicable, rate) => {
                if rate.is_some() {
                    note_once(
                        notes,
                        PricingNoteCode::TaxRateIgnored,
                        "this Tariff says no taxes are applicable and a Price Component names a VAT percentage anyway; the Tariff-level statement governs and the percentage is ignored",
                    );
                }
                (stated, zero)
            },
        }
    }
}

/// How `rust_decimal` writes `n`.
pub open spec fn number_text(n: Number) -> Seq<char> {
    decimal_text(n.spec_mantissa(), n.spec_scale())
}

/// The message of a [`PricingNoteCode::UnattributedTax`] note about `owed`.
pub open spec fn unattributed_message(owed: Number) -> Seq<char> {
    number_text(owed)
        + " of tax is owed that no price component in this session accounts for; it comes from a price limit's `after_taxes` bound, which names an amount but not a rate"@
}

/// A tax line's taxable base moved by `ratio` (left as it is where that overflows) and rounded
/// to the currency.
pub open spec fn rescaled_taxable(policy: PricingPolicy, line: TaxLine, ratio: Number) -> Number {
    let scaled = match decimal_checked_product(line.taxable, ratio) {
        Some(v) => v,
        None => line.taxable,
    };
    decimal_rounded(scaled, policy.currency_decimals, policy.rounding)
}

/// A tax line's share of `owed`, in proportion to its `amount` out of `current` (all of `owed`
/// where that overflows), rounded to the currency.
pub open spec fn owed_share(policy: PricingPolicy, amount: Number, owed: Number, current: Number) -> Number {
    let v = match decimal_checked_product(amount, owed) {
        Some(p) => match decimal_checked_quotient(p, current) {
            Some(q) => q,
            None => owed,
        },
        None => owed,
    };
    decimal_rounded(v, policy.currency_decimals, policy.rounding)
}

/// The shares of `owed` of the first `n` of `lines`, added from zero: `None` once an addition
/// overflows.
pub open spec fn shares_total(policy: PricingPolicy, lines: Seq<TaxLine>, owed: Number, current: Number, n: int) -> Option<Number>
    decreases n,
{
    if n <= 0 {
        Some(Number::from_integer(0))
    } else {
        match shares_total(policy, lines, owed, current, n - 1) {
            Some(acc) => decimal_checked_sum(acc, owed_share(policy, lines[n - 1].amount, owed, current)),
            None => None,
        }
    }
}

/// What [`PricingEngine::present_taxes`] makes of `lines` and `notes`, where `owed` is the tax the
/// totals leave, `ratio` how far a price limit moved the base, and `base` the taxable total.
///
/// With no tax on the lines, nothing owed leaves the lines with their bases moved and no
/// tax, and something owed becomes a single line at no percentage with a note saying so.
/// Otherwise every line's base is moved, every line but the last takes its proportional share
/// of `owed` rounded to the currency, and the last takes what is left, so that the lines add
/// up to `owed`. `None` where the decimal arithmetic overflows.
pub open spec fn presented(
    policy: PricingPolicy,
    lines: Seq<TaxLine>,
    owed: Number,
    ratio: Number,
    base: Number,
    notes: Seq<NoteView>,
) -> Option<(Seq<TaxLine>, Seq<NoteView>)> {
    let zero = Number::from_integer(0);
    match checked_total(tax_amounts(lines)) {
        None => None,
        Some(current) => if lines.len() == 0 || current.spec_mantissa() == 0 {
            if owed.spec_mantissa() == 0 {
                Some((
                    lines.map_values(
                        |t: TaxLine|
                            TaxLine {
                                percentage: t.percentage,
                                taxable: rescaled_taxable(policy, t, ratio),
                                amount: zero,
                            },
                    ),
                    notes,
                ))
            } else {
                Some((
                    seq![TaxLine { percentage: None, taxable: base, amount: owed }],
                    notes.push((PricingNoteCode::UnattributedTax, None, unattributed_message(owed))),
                ))
            }
        } else {
            let last = lines.len() - 1;
            match shares_total(policy, lines, owed, current, last) {
                None => None,
                Some(running) => match decimal_checked_difference(owed, running) {
                    None => None,
                    Some(rest) => Some((
                        Seq::new(
                            lines.len(),
                            |i: int|
                                TaxLine {
                                    percentage: lines[i].percentage,
                                    taxable: rescaled_taxable(policy, lines[i], ratio),
                                    amount: if i == last {
                                        rest
                                    } else {
                                        owed_share(policy, lines[i].amount, owed, current)
                                    },
                                },
                        ),
                        notes,
                    )),
                },
            }
        },
    }
}

/// A defined running total of shares has every shorter one defined too.
pub proof fn lemma_shares_prefix(policy: PricingPolicy, lines: Seq<TaxLine>, owed: Number, current: Number, n: int, m: int)
    requires
        0 <= n <= m,
        shares_total(policy, lines, owed, current, m) is Some,
    ensures
        shares_total(policy, lines, owed, current, n) is Some,
    decreases m - n,
{
    if n < m {
        lemma_shares_prefix(policy, lines, owed, current, n, m - 1);
    }
}

impl PricingEngine {
    /// A tax line's base moved by `ratio` and rounded to the currency.
    fn rescale_taxable(&self, line: &TaxLine, ratio: Number) -> (r: Number)
        ensures
            r == rescaled_taxable(self.spec_policy(), *line, ratio),
    {
        let scaled = match line.taxable.checked_mul(ratio) {
            Some(v) => v,
            None => line.taxable,
        };
        self.policy.round_currency(scaled)
    }

    /// A tax line's proportional share of `owed`, rounded to the currency.
    fn share_of(&self, amount: Number, owed: Number, current: Number) -> (r: Number)
        ensures
            r == owed_share(self.spec_policy(), amount, owed, current),
    {
        let v = match amount.checked_mul(owed) {
            Some(p) => match p.checked_div(current) {
                Some(q) => q,
                None => owed,
            },
            None => owed,
        };
        self.policy.round_currency(v)
    }

    /// Puts the tax lines into the shape a breakdown publishes them in: rounded to the currency
    /// like the totals, with bases moved by any price limit, and adding up to exactly `owed`.
    pub fn present_taxes(
        &self,
        taxes: &mut Vec<TaxLine>,
        owed: Number,
        base_ratio: Number,
        taxable_base: Number,
        notes: &mut Vec<PricingNote>,
    )
        requires
            presented(self.spec_policy(), old(taxes)@, owed, base_ratio, taxable_base, note_views(old(notes)@)) is Some,
        ensures
            Some((final(taxes)@, note_views(final(notes)@))) == presented(
                self.spec_policy(),
                old(taxes)@,
                owed,
                base_ratio,
                taxable_base,
                note_views(old(notes)@),
            ),
    {
        let ghost lines = taxes@;
        let ghost policy = self.spec_policy();
        let ghost amounts = tax_amounts(lines);
        let mut current = Number::zero();
        let mut i: usize = 0;
        while i < taxes.len()
            invariant
                i <= taxes.len(),
                taxes@ == lines,
                amounts == tax_amounts(lines),
                checked_total(amounts) is Some,
                Some(current) == checked_total_prefix(amounts, i as int),
            decreases taxes.len() - i,
        {
            proof {
                lemma_prefix_defined(amounts, i as int + 1, amounts.len() as int);
            }
            current = current + taxes[i].amount;
            i = i + 1;
        }
        if taxes.len() == 0 || current.is_zero() {
            if owed.is_zero() {
                let mut j: usize = 0;
                while j < taxes.len()
                    invariant
                        j <= taxes.len(),
                        taxes@.len() == lines.len(),
                        policy == self.spec_policy(),
                        forall|k: int| j <= k < lines.len() ==> #[trigger] taxes@[k] == lines[k],
                        forall|k: int|
                            0 <= k < j ==> #[trigger] taxes@[k] == (TaxLine {
                                percentage: lines[k].percentage,
                                taxable: rescaled_taxable(policy, lines[k], base_ratio),
                                amount: Number::from_integer(0),
                            }),
                    decreases taxes.len() - j,
                {
                    let line = taxes[j];
                    let taxable = self.rescale_taxable(&line, base_ratio);
                    taxes.set(j, TaxLine { percentage: line.percentage, taxable, amount: Number::zero() });
                    j = j + 1;
                }
                proof {
                    assert(taxes@ =~= lines.map_values(
                        |t: TaxLine|
                            TaxLine {
                                percentage: t.percentage,
                                taxable: rescaled_taxable(policy, t, base_ratio),
                                amount: Number::from_integer(0),
                            },
                    ));
                }
                return;
            }
            let mut message = owed.to_string();
            push_str(
                &mut message,
                " of tax is owed that no price component in this session accounts for; it comes from a price limit's `after_taxes` bound, which names an amount but not a rate",
            );
            let ghost before = note_views(notes@);
            notes.push(PricingNote { code: PricingNoteCode::UnattributedTax, at: None, message });
            proof {
                assert(note_views(notes@) =~= before.push(
                    (PricingNoteCode::UnattributedTax, None, unattributed_message(owed)),
                ));
            }
            taxes.clear();
            taxes.push(TaxLine { percentage: None, taxable: taxable_base, amount: owed });
            proof {
                assert(taxes@ =~= seq![TaxLine { percentage: None, taxable: taxable_base, amount: owed }]);
            }
            return;
        }
        let last = taxes.len() - 1;
        proof {
            let total_shares = shares_total(policy, lines, owed, current, last as int);
            assert(total_shares is Some);
        }
        let mut running = Number::zero();
        let mut j: usize = 0;
        while j < taxes.len()
            invariant
                j <= taxes.len(),
                taxes@.len() == lines.len(),
                last == lines.len() - 1,
                policy == self.spec_policy(),
                current.spec_mantissa() != 0,
                Some(current) == checked_total(tax_amounts(lines)),
                shares_total(policy, lines, owed, current, last as int) is Some,
                j <= last ==> Some(running) == shares_total(policy, lines, owed, current, j as int),
                j > last ==> decimal_checked_difference(owed, shares_total(policy, lines, owed, current, last as int)->Some_0) is Some,
                presented(policy, lines, owed, base_ratio, taxable_base, note_views(notes@)) is Some,
                forall|k: int| j <= k < lines.len() ==> #[trigger] taxes@[k] == lines[k],
                forall|k: int|
                    0 <= k < j ==> #[trigger] taxes@[k] == (TaxLine {
                        percentage: lines[k].percentage,
                        taxable: rescaled_taxable(policy, lines[k], base_ratio),
                        amount: if k == last {
                            decimal_checked_difference(owed, shares_total(policy, lines, owed, current, last as int)->Some_0)->Some_0
                        } else {
                            owed_share(policy, lines[k].amount, owed, current)
                        },
                    }),
            decreases taxes.len() - j,
        {
            let line = taxes[j];
            let taxable = self.rescale_taxable(&line, base_ratio);
            if j == last {
                let amount = owed - running;
                taxes.set(j, TaxLine { percentage: line.percentage, taxable, amount });
            } else {
                let amount = self.share_of(line.amount, owed, current);
                proof {
                    lemma_shares_prefix(policy, lines, owed, current, j as int + 1, last as int);
                }
                running = running + amount;
                taxes.set(j, TaxLine { percentage: line.percentage, taxable, amount });
            }
            j = j + 1;
        }
        proof {
            let rest = decimal_checked_difference(owed, shares_total(policy, lines, owed, current, last as int)->Some_0)->Some_0;
            assert(taxes@ =~= Seq::new(
                lines.len(),
                |k: int|
                    TaxLine {
                        percentage: lines[k].percentage,
                        taxable: rescaled_taxable(policy, lines[k], base_ratio),
                        amount: if k == last {
                            rest
                        } else {
                            owed_share(policy, lines[k].amount, owed, current)
                        },
                    },
            ));
        }
    }
}

/// The word for a price limit in a note.
pub open spec fn limit_word(l: PriceLimitApplied) -> Seq<char> {
    match l {
        PriceLimitApplied::Minimum => "minimum"@,
        PriceLimitApplied::Maximum => "maximum"@,
    }
}

/// The message of a [`PricingNoteCode::TotalClamped`] note.
pub open spec fn clamped_message(raw_excl: Number, applied: PriceLimitApplied, total_excl: Number) -> Seq<char> {
    "the session metered "@ + number_text(raw_excl) + " before tax, which the tariff's "@ + limit_word(applied)
        + " price limit moved to "@ + number_text(total_excl)
        + "; the tax lines were moved in proportion so they still account for the difference between the two totals"@
}

/// The message of a [`PricingNoteCode::NegativeTax`] note about a tax of `tax`.
pub open spec fn negative_message(tax: Number) -> Seq<char> {
    "the price components of this tariff describe "@ + number_text(tax)
        + " of tax, which no tariff can mean; the inclusive total is held at the exclusive one. A VAT percentage below zero is what causes this, and `Tariff::validate` names the component"@
}

/// The totals held within `min` and `max`, each bound rounded to the currency where it moves a
/// total, and which limit moved them last.
pub open spec fn limited_totals(
    policy: PricingPolicy,
    min: Option<Price>,
    max: Option<Price>,
    excl: Number,
    incl: Number,
) -> (Number, Number, Option<PriceLimitApplied>) {
    let cur = |v: Number| decimal_rounded(v, policy.currency_decimals, policy.rounding);
    let (e1, i1, l1) = match min {
        Some(p) => {
            let (e, l) = if numeric_lt(excl, p.before_taxes) {
                (cur(p.before_taxes), Some(PriceLimitApplied::Minimum))
            } else {
                (excl, None)
            };
            match p.after_taxes {
                Some(a) => if numeric_lt(incl, a) {
                    (e, cur(a), Some(PriceLimitApplied::Minimum))
                } else {
                    (e, incl, l)
                },
                None => (e, incl, l),
            }
        },
        None => (excl, incl, None),
    };
    match max {
        Some(p) => {
            let (e, l) = if numeric_lt(p.before_taxes, e1) {
                (cur(p.before_taxes), Some(PriceLimitApplied::Maximum))
            } else {
                (e1, l1)
            };
            match p.after_taxes {
                Some(a) => if numeric_lt(a, i1) {
                    (e, cur(a), Some(PriceLimitApplied::Maximum))
                } else {
                    (e, i1, l)
                },
                None => (e, i1, l),
            }
        },
        None => (e1, i1, l1),
    }
}

/// The after-tax bound of the limit that was applied.
pub open spec fn bounded_after_tax(min: Option<Price>, max: Option<Price>, applied: PriceLimitApplied) -> Option<Number> {
    match applied {
        PriceLimitApplied::Minimum => match min {
            Some(p) => p.after_taxes,
            None => None,
        },
        PriceLimitApplied::Maximum => match max {
            Some(p) => p.after_taxes,
            None => None,
        },
    }
}

/// After a price limit moved the totals: the ratio the base moved by (one where nothing was
/// metered or the division overflows), the inclusive total (the exclusive one plus the tax
/// moved in proportion, unless the limit bound the inclusive total itself, and never below
/// the exclusive one), and a note saying what happened. `None` where an addition overflows.
pub open spec fn clamp_stage(
    policy: PricingPolicy,
    min: Option<Price>,
    max: Option<Price>,
    raw_excl: Number,
    raw_vat: Number,
    excl: Number,
    incl: Number,
    applied: PriceLimitApplied,
    notes: Seq<NoteView>,
) -> Option<(Number, Number, Seq<NoteView>)> {
    let one = Number::from_integer(1);
    let ratio = if raw_excl.spec_mantissa() == 0 {
        one
    } else {
        match decimal_checked_quotient(excl, raw_excl) {
            Some(q) => q,
            None => one,
        }
    };
    let moved = if bounded_after_tax(min, max, applied) is None {
        let scaled = if raw_excl.spec_mantissa() == 0 {
            Number::from_integer(0)
        } else {
            match decimal_checked_product(raw_vat, ratio) {
                Some(p) => p,
                None => raw_vat,
            }
        };
        match decimal_checked_sum(excl, scaled) {
            Some(v) => Some(decimal_rounded(v, policy.currency_decimals, policy.rounding)),
            None => None,
        }
    } else {
        Some(incl)
    };
    match moved {
        None => None,
        Some(i) => Some((
            ratio,
            if numeric_lt(excl, i) {
                i
            } else {
                excl
            },
            notes.push((PricingNoteCode::TotalClamped, None, clamped_message(raw_excl, applied, excl))),
        )),
    }
}

/// What [`PricingEngine::finish`] makes of priced dimensions under `policy`, for a Tariff with
/// price limits `min` and `max`: the tax lines, the totals before and after tax, the basis, the
/// limit applied, and the notes. `None` where the decimal arithmetic overflows.
///
/// The stretches are grouped into tax lines, the lines with nothing to say dropped and the rest
/// ordered by percentage; the totals are the sums rounded to the currency, held within the
/// limits; a limit that moved them moves the tax with them; an inclusive total below the
/// exclusive one is held at it, with a note; and the tax lines are presented to add up to the
/// difference.
pub open spec fn finished(
    policy: PricingPolicy,
    dims: Seq<DimensionCost>,
    min: Option<Price>,
    max: Option<Price>,
    notes: Seq<NoteView>,
) -> Option<(Seq<TaxLine>, Number, Number, TaxBasis, Option<PriceLimitApplied>, Seq<NoteView>)> {
    let cur = |v: Number| decimal_rounded(v, policy.currency_decimals, policy.rounding);
    match grouped_lines(all_segments(dims)) {
        None => None,
        Some(grouped) => {
            let taxes = sorted_lines(kept_lines(grouped));
            let basis = summarised_basis(segment_bases(dims));
            let notes1 = if basis == TaxBasis::Mixed {
                noted_once(notes, PricingNoteCode::MixedTaxBasis, mixed_basis_message())
            } else {
                notes
            };
            match (checked_total(dimension_costs(dims)), checked_total(tax_amounts(taxes))) {
                (Some(raw_excl), Some(raw_vat)) => match decimal_checked_sum(raw_excl, raw_vat) {
                    None => None,
                    Some(gross) => {
                        let (excl, incl0, limit) = limited_totals(policy, min, max, cur(raw_excl), cur(gross));
                        let staged = match limit {
                            None => Some((Number::from_integer(1), incl0, notes1)),
                            Some(applied) => clamp_stage(
                                policy,
                                min,
                                max,
                                raw_excl,
                                raw_vat,
                                excl,
                                incl0,
                                applied,
                                notes1,
                            ),
                        };
                        match staged {
                            None => None,
                            Some((ratio, incl1, notes2)) => {
                                let held = if numeric_lt(incl1, excl) {
                                    match decimal_checked_difference(incl1, excl) {
                                        Some(d) => Some(
                                            (excl, notes2.push((PricingNoteCode::NegativeTax, None, negative_message(d)))),
                                        ),
                                        None => None,
                                    }
                                } else {
                                    Some((incl1, notes2))
                                };
                                match held {
                                    None => None,
                                    Some((incl, notes3)) => match decimal_checked_difference(incl, excl) {
                                        None => None,
                                        Some(owed) => match presented(policy, taxes, owed, ratio, excl, notes3) {
                                            None => None,
                                            Some((lines, notes4)) => Some((lines, excl, incl, basis, limit, notes4)),
                                        },
                                    },
                                }
                            },
                        }
                    },
                },
                _ => None,
            }
        },
    }
}

/// The costs of `dims`, in order.
fn costs_of(dims: &Vec<DimensionCost>) -> (r: Vec<Number>)
    ensures
        r@ == dimension_costs(dims@),
{
    let mut costs: Vec<Number> = Vec::new();
    let mut i: usize = 0;
    while i < dims.len()
        invariant
            i <= dims.len(),
            costs@ == dimension_costs(dims@.subrange(0, i as int)),
        decreases dims.len() - i,
    {
        costs.push(dims[i].cost);
        i = i + 1;
        proof {
            assert(dimension_costs(dims@.subrange(0, i as int)) =~= dimension_costs(
                dims@.subrange(0, i as int - 1),
            ).push(dims@[i as int - 1].cost));
        }
    }
    proof {
        assert(dims@.subrange(0, dims.len() as int) =~= dims@);
    }
    costs
}

/// The tax amounts of `lines`, in order.
fn amounts_of(lines: &Vec<TaxLine>) -> (r: Vec<Number>)
    ensures
        r@ == tax_amounts(lines@),
{
    let mut amounts: Vec<Number> = Vec::new();
    let mut k: usize = 0;
    while k < lines.len()
        invariant
            k <= lines.len(),
            amounts@ == tax_amounts(lines@.subrange(0, k as int)),
        decreases lines.len() - k,
    {
        amounts.push(lines[k].amount);
        k = k + 1;
        proof {
            assert(tax_amounts(lines@.subrange(0, k as int)) =~= tax_amounts(
                lines@.subrange(0, k as int - 1),
            ).push(lines@[k as int - 1].amount));
        }
    }
    proof {
        assert(lines@.subrange(0, lines.len() as int) =~= lines@);
    }
    amounts
}

impl PricingEngine {
    /// The totals held within the tariff's `min_price` and `max_price`, and which limit moved
    /// them last.
    fn limit_totals(&self, tariff: &Tariff, excl: Number, incl: Number) -> (r: (Number, Number, Option<PriceLimitApplied>))
        ensures
            r == limited_totals(self.spec_policy(), tariff.min_price, tariff.max_price, excl, incl),
    {
        let mut total_excl = excl;
        let mut total_incl = incl;
        let mut limit_applied: Option<PriceLimitApplied> = None;
        if let Some(min) = &tariff.min_price {
            if total_excl < min.before_taxes {
                total_excl = self.policy.round_currency(min.before_taxes);
                limit_applied = Some(PriceLimitApplied::Minimum);
            }
            if let Some(after) = min.after_taxes {
                if total_incl < after {
                    total_incl = self.policy.round_currency(after);
                    limit_applied = Some(PriceLimitApplied::Minimum);
                }
            }
        }
        if let Some(max) = &tariff.max_price {
            if total_excl > max.before_taxes {
                total_excl = self.policy.round_currency(max.before_taxes);
                limit_applied = Some(PriceLimitApplied::Maximum);
            }
            if let Some(after) = max.after_taxes {
                if total_incl > after {
                    total_incl = self.policy.round_currency(after);
                    limit_applied = Some(PriceLimitApplied::Maximum);
                }
            }
        }
        (total_excl, total_incl, limit_applied)
    }

    /// After a price limit moved the totals: the ratio the base moved by and the inclusive
    /// total, with a note saying what happened.
    fn clamp(
        &self,
        tariff: &Tariff,
        raw_excl: Number,
        raw_vat: Number,
        total_excl: Number,
        total_incl: Number,
        applied: PriceLimitApplied,
        notes: &mut Vec<PricingNote>,
    ) -> (r: (Number, Number))
        requires
            clamp_stage(
                self.spec_policy(),
                tariff.min_price,
                tariff.max_price,
                raw_excl,
                raw_vat,
                total_excl,
                total_incl,
                applied,
                note_views(old(notes)@),
            ) is Some,
        ensures
            clamp_stage(
                self.spec_policy(),
                tariff.min_price,
                tariff.max_price,
                raw_excl,
                raw_vat,
                total_excl,
                total_incl,
                applied,
                note_views(old(notes)@),
            ) == Some((r.0, r.1, note_views(final(notes)@))),
    {
        let base_ratio = if raw_excl.is_zero() {
            Number::one()
        } else {
            match total_excl.checked_div(raw_excl) {
                Some(q) => q,
                None => Number::one(),
            }
        };
        let bounded_after_tax = match applied {
            PriceLimitApplied::Minimum => match &tariff.min_price {
                Some(p) => p.after_taxes,
                None => None,
            },
            PriceLimitApplied::Maximum => match &tariff.max_price {
                Some(p) => p.after_taxes,
                None => None,
            },
        };
        let mut incl = total_incl;
        if bounded_after_tax.is_none() {
            let scaled_vat = if raw_excl.is_zero() {
                Number::zero()
            } else {
                match raw_vat.checked_mul(base_ratio) {
                    Some(p) => p,
                    None => raw_vat,
                }
            };
            incl = self.policy.round_currency(total_excl + scaled_vat);
        }
        if !(total_excl < incl) {
            incl = total_excl;
        }
        let mut message = String::new();
        push_str(&mut message, "the session metered ");
        let text = raw_excl.to_string();
        push_str(&mut message, text.as_str());
        push_str(&mut message, " before tax, which the tariff's ");
        push_str(
            &mut message,
            match applied {
                PriceLimitApplied::Minimum => "minimum",
                PriceLimitApplied::Maximum => "maximum",
            },
        );
        push_str(&mut message, " price limit moved to ");
        let text = total_excl.to_string();
        push_str(&mut message, text.as_str());
        push_str(
            &mut message,
            "; the tax lines were moved in proportion so they still account for the difference between the two totals",
        );
        let ghost before = note_views(notes@);
        notes.push(PricingNote { code: PricingNoteCode::TotalClamped, at: None, message });
        proof {
            assert(note_views(notes@) =~= before.push(
                (PricingNoteCode::TotalClamped, None, clamped_message(raw_excl, applied, total_excl)),
            ));
        }
        (base_ratio, incl)
    }

    /// Holds an inclusive total below the exclusive one at it, with a note saying so.
    fn hold_at_exclusive(total_excl: Number, total_incl: Number, notes: &mut Vec<PricingNote>) -> (r: Number)
        requires
            numeric_lt(total_incl, total_excl) ==> decimal_checked_difference(total_incl, total_excl) is Some,
        ensures
            numeric_lt(total_incl, total_excl) ==> r == total_excl && note_views(final(notes)@) == note_views(
                old(notes)@,
            ).push(
                (PricingNoteCode::NegativeTax, None, negative_message(
                    decimal_checked_difference(total_incl, total_excl)->Some_0,
                )),
            ),
            !numeric_lt(total_incl, total_excl) ==> r == total_incl && final(notes)@ == old(notes)@,
    {
        if total_incl < total_excl {
            let diff = total_incl - total_excl;
            let mut message = String::new();
            push_str(&mut message, "the price components of this tariff describe ");
            let text = diff.to_string();
            push_str(&mut message, text.as_str());
            push_str(
                &mut message,
                " of tax, which no tariff can mean; the inclusive total is held at the exclusive one. A VAT percentage below zero is what causes this, and `Tariff::validate` names the component",
            );
            let ghost before = note_views(notes@);
            notes.push(PricingNote { code: PricingNoteCode::NegativeTax, at: None, message });
            proof {
                assert(note_views(notes@) =~= before.push((PricingNoteCode::NegativeTax, None, negative_message(diff))));
            }
            total_excl
        } else {
            total_incl
        }
    }

    /// Totals the dimensions, groups the tax and applies `min_price` and `max_price`.
    ///
    /// A price limit moves the tax with the base, in proportion, so that the tax lines still add
    /// up to the difference between the two totals; the tariff's after-tax bound, where the
    /// limit has one, decides the inclusive total instead.
    #[verifier::rlimit(40)]
    pub fn finish(&self, dimensions: Vec<DimensionCost>, tariff: &Tariff, notes: Vec<PricingNote>) -> (r: CostBreakdown)
        requires
            finished(self.spec_policy(), dimensions@, tariff.min_price, tariff.max_price, note_views(notes@)) is Some,
        ensures
            r.dimensions@ == dimensions@,
            finished(self.spec_policy(), dimensions@, tariff.min_price, tariff.max_price, note_views(notes@)) == Some(
                (r.taxes@, r.total_excl_vat, r.total_incl_vat, r.tax_basis, r.limit_applied, note_views(r.notes@)),
            ),
    {
        let ghost policy = self.spec_policy();
        let ghost first_notes = note_views(notes@);
        let mut notes = notes;
        let grouped = group_tax_lines(&dimensions);
        let kept = drop_empty_unrated(grouped);
        let mut taxes = sort_by_rate(kept);

        let tax_basis = summarise_basis(&dimensions);
        if tax_basis == TaxBasis::Mixed {
            note_once(
                &mut notes,
                PricingNoteCode::MixedTaxBasis,
                "the Charging Periods of this session were priced by Tariffs that disagree about whether their prices include tax, so the two totals mean something different for different parts of it",
            );
        }

        let costs = costs_of(&dimensions);
        let amounts = amounts_of(&taxes);
        let raw_excl = total(&costs);
        let raw_vat = total(&amounts);
        let rounded_excl = self.policy.round_currency(raw_excl);
        let rounded_incl = self.policy.round_currency(raw_excl + raw_vat);
        let (total_excl, limited_incl, limit_applied) = self.limit_totals(tariff, rounded_excl, rounded_incl);

        let (base_ratio, clamped_incl) = match limit_applied {
            Some(applied) => self.clamp(tariff, raw_excl, raw_vat, total_excl, limited_incl, applied, &mut notes),
            None => (Number::one(), limited_incl),
        };
        let total_incl = Self::hold_at_exclusive(total_excl, clamped_incl, &mut notes);

        self.present_taxes(&mut taxes, total_incl - total_excl, base_ratio, total_excl, &mut notes);

        CostBreakdown {
            dimensions,
            total_excl_vat: total_excl,
            total_incl_vat: total_incl,
            taxes,
            tax_basis,
            limit_applied,
            notes,
        }
    }
}

/// A breakdown never costs less with tax than without: whatever the dimensions, limits and
/// notes, the inclusive total `finish` gives is not below the exclusive one.
pub proof fn lemma_inclusive_total_not_below_exclusive(
    policy: PricingPolicy,
    dims: Seq<DimensionCost>,
    min: Option<Price>,
    max: Option<Price>,
    notes: Seq<NoteView>,
)
    requires
        finished(policy, dims, min, max, notes) is Some,
    ensures
        !numeric_lt(finished(policy, dims, min, max, notes)->Some_0.2, finished(policy, dims, min, max, notes)->Some_0.1),
{
}

/// Whether adding up `lines` rounds nothing away at the last line: with `running` the sum of the
/// amounts of every line but the last, `owed - running` and `running` plus the last amount both
/// fit in the 96 bits of a decimal's mantissa at their common scale.
pub open spec fn last_line_exact(lines: Seq<TaxLine>, owed: Number) -> bool {
    lines.len() > 0 ==> match checked_total_prefix(tax_amounts(lines), lines.len() - 1) {
        Some(running) => fits_exactly(owed, running, true) && fits_exactly(
            running,
            lines.last().amount,
            false,
        ),
        None => true,
    }
}

/// The amounts of the presented lines before the last are the running shares.
proof fn lemma_presented_prefix(
    policy: PricingPolicy,
    lines: Seq<TaxLine>,
    out: Seq<TaxLine>,
    owed: Number,
    current: Number,
    k: int,
)
    requires
        0 <= k < lines.len(),
        out.len() == lines.len(),
        forall|i: int| 0 <= i < lines.len() - 1 ==> #[trigger] out[i].amount == owed_share(
            policy,
            lines[i].amount,
            owed,
            current,
        ),
    ensures
        checked_total_prefix(tax_amounts(out), k) == shares_total(policy, lines, owed, current, k),
    decreases k,
{
    if k > 0 {
        lemma_presented_prefix(policy, lines, out, owed, current, k - 1);
        assert(tax_amounts(out)[k - 1] == out[k - 1].amount);
    }
}

/// The lines [`presented`] makes add up to exactly `owed`, wherever the last step rounds nothing
/// away.
proof fn lemma_presented_adds_up(
    policy: PricingPolicy,
    lines: Seq<TaxLine>,
    owed: Number,
    ratio: Number,
    base: Number,
    notes: Seq<NoteView>,
)
    requires
        presented(policy, lines, owed, ratio, base, notes) is Some,
        last_line_exact(presented(policy, lines, owed, ratio, base, notes)->Some_0.0, owed),
    ensures
        checked_total(tax_amounts(presented(policy, lines, owed, ratio, base, notes)->Some_0.0)) matches Some(
            t,
        ) && numeric_eq(t, owed),
{
    let out = presented(policy, lines, owed, ratio, base, notes)->Some_0.0;
    let zero = Number::from_integer(0);
    Number::lemma_integer(0);
    let current = checked_total(tax_amounts(lines))->Some_0;
    if lines.len() == 0 || current.spec_mantissa() == 0 {
        if owed.spec_mantissa() == 0 {
            assert forall|i: int| 0 <= i < tax_amounts(out).len() implies #[trigger] tax_amounts(out)[i]
                == zero by {
                assert(out[i].amount == zero);
            }
            lemma_zeros_total(tax_amounts(out), tax_amounts(out).len() as int);
            assert(numeric_eq(zero, owed)) by (nonlinear_arith)
                requires
                    zero.spec_mantissa() == 0,
                    owed.spec_mantissa() == 0,
            ;
        } else {
            assert(tax_amounts(out) =~= seq![owed]);
            lemma_zero_plus(owed);
            assert(checked_total(tax_amounts(out)) == Some(owed));
        }
    } else {
        let last = lines.len() - 1;
        let running = shares_total(policy, lines, owed, current, last)->Some_0;
        let rest = decimal_checked_difference(owed, running)->Some_0;
        assert(out.len() == lines.len());
        assert forall|i: int| 0 <= i < lines.len() - 1 implies #[trigger] out[i].amount == owed_share(
            policy,
            lines[i].amount,
            owed,
            current,
        ) by {}
        lemma_presented_prefix(policy, lines, out, owed, current, last);
        assert(out.last().amount == rest);
        assert(tax_amounts(out)[last] == rest);
        lemma_difference_added_back(owed, running);
    }
}

/// The tax lines of a breakdown add up to exactly the difference between its two totals,
/// whether or not a price limit moved them, wherever `rust_decimal` rounds nothing away in
/// adding up the last line.
pub proof fn lemma_tax_lines_add_up_to_the_tax(
    policy: PricingPolicy,
    dims: Seq<DimensionCost>,
    min: Option<Price>,
    max: Option<Price>,
    notes: Seq<NoteView>,
)
    requires
        finished(policy, dims, min, max, notes) is Some,
        last_line_exact(
            finished(policy, dims, min, max, notes)->Some_0.0,
            decimal_checked_difference(
                finished(policy, dims, min, max, notes)->Some_0.2,
                finished(policy, dims, min, max, notes)->Some_0.1,
            )->Some_0,
        ),
    ensures
        ({
            let f = finished(policy, dims, min, max, notes)->Some_0;
            &&& decimal_checked_difference(f.2, f.1) matches Some(owed)
            &&& checked_total(tax_amounts(f.0)) matches Some(t)
            &&& numeric_eq(t, owed)
        }),
{
    assert forall|l: Seq<TaxLine>, o: Number, r: Number, b: Number, n: Seq<NoteView>|
        #[trigger] presented(policy, l, o, r, b, n) is Some && last_line_exact(presented(policy, l, o, r, b, n)->Some_0.0, o)
        implies checked_total(tax_amounts(presented(policy, l, o, r, b, n)->Some_0.0)) matches Some(t)
            && numeric_eq(t, o) by {
        lemma_presented_adds_up(policy, l, o, r, b, n);
    }
}

} // verus!
