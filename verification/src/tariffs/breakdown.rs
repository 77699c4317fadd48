//! The auditable output of pricing: what each dimension cost, which Price Component priced each
//! stretch, the tax lines, the totals, and the notes a reader has to act on.

use vstd::prelude::*;

use crate::strings::{padded_left, padded_right, push_padded_left, push_padded_right, push_str};
use crate::tariffs::codes::{AppliedComponent, PriceLimitApplied, PricingNoteCode, TaxBasis, pricing_note_code_slug};
use crate::tariffs::engine::limit_word;
use crate::tariffs::model::{dimension_wire, TariffDimensionType};
use crate::types::datetime::DateTime;
use crate::types::number::{
    checked_total, checked_total_prefix, decimal_checked_sum, decimal_text, numeric_eq, Number,
};

verus! {

/// One stretch of a session priced at a single rate.
#[derive(Clone, Debug)]
pub struct PricedSegment {
    /// When this stretch began.
    pub start: DateTime,
    /// The quantity billed in this stretch.
    pub quantity: Number,
    /// The unit price applied.
    pub price: Number,
    /// The VAT percentage applied, if the price component named one.
    pub vat_percentage: Option<Number>,
    /// The cost of this stretch, excluding tax.
    pub cost: Number,
    /// The tax owed on `cost`.
    pub tax: Number,
    /// Whether the price component stated a gross or a net amount.
    pub tax_basis: TaxBasis,
    /// Which Tariff Element priced it.
    pub applied: AppliedComponent,
}

/// What one dimension of a session cost, and how that was arrived at.
#[derive(Clone, Debug)]
pub struct DimensionCost {
    /// The dimension priced.
    pub dimension: TariffDimensionType,
    /// The quantity measured, before `step_size` was applied.
    pub measured: Number,
    /// The quantity billed, after `step_size` was applied.
    pub billed: Number,
    /// The cost, excluding VAT.
    pub cost: Number,
    /// The VAT owed on that cost.
    pub vat: Number,
    /// Each stretch of the session that was priced at one rate.
    pub segments: Vec<PricedSegment>,
}

impl DimensionCost {
    /// The cost including VAT.
    pub fn cost_with_vat(&self) -> (r: Number)
        requires
            decimal_checked_sum(self.cost, self.vat) is Some,
        ensures
            Some(r) == decimal_checked_sum(self.cost, self.vat),
    {
        self.cost + self.vat
    }

    /// Whether `step_size` changed the billed quantity.
    pub fn was_quantised(&self) -> (r: bool)
        ensures
            r == !numeric_eq(self.billed, self.measured),
    {
        self.billed != self.measured
    }
}

/// One tax line of a breakdown.
#[derive(Clone, Copy, Debug)]
pub struct TaxLine {
    /// The VAT percentage this line covers; `None` for tax no rate accounts for.
    pub percentage: Option<Number>,
    /// The amount the percentage was applied to.
    pub taxable: Number,
    /// The tax owed.
    pub amount: Number,
}

/// Something the reader of a breakdown should know.
#[derive(Clone, Debug)]
pub struct PricingNote {
    /// What kind of note this is.
    pub code: PricingNoteCode,
    /// The moment in the session it concerns, when it concerns one.
    pub at: Option<DateTime>,
    /// The same thing in words.
    pub message: String,
}

/// How a note reads: its code in brackets, the moment it concerns, and its message.
pub open spec fn note_text(code: PricingNoteCode, at: Option<DateTime>, message: Seq<char>) -> Seq<char> {
    match at {
        Some(t) => "["@ + pricing_note_code_slug(code) + "] at "@ + t.text() + ": "@ + message,
        None => "["@ + pricing_note_code_slug(code) + "] "@ + message,
    }
}

impl PricingNote {
    /// A note with `code`, about `at`, saying `message`.
    pub fn new(code: PricingNoteCode, at: Option<DateTime>, message: &str) -> (n: Self)
        ensures
            n.code == code,
            n.at == at,
            n.message@ == message@,
    {
        PricingNote { code, at, message: String::from_str(message) }
    }

    /// How the note reads, as `Display` writes it.
    pub fn to_string(&self) -> (s: String)
        ensures
            s@ == note_text(self.code, self.at, self.message@),
    {
        let mut s = String::new();
        push_str(&mut s, "[");
        push_str(&mut s, self.code.as_str());
        match self.at {
            Some(t) => {
                push_str(&mut s, "] at ");
                let text = t.to_string();
                push_str(&mut s, text.as_str());
                push_str(&mut s, ": ");
            },
            None => {
                push_str(&mut s, "] ");
            },
        }
        push_str(&mut s, self.message.as_str());
        s
    }
}

/// The complete, auditable result of pricing a session.
#[derive(Clone, Debug)]
pub struct CostBreakdown {
    /// What each dimension cost.
    pub dimensions: Vec<DimensionCost>,
    /// The total excluding VAT, after any `min_price`/`max_price` clamp.
    pub total_excl_vat: Number,
    /// The total including VAT, after any clamp.
    pub total_incl_vat: Number,
    /// The VAT owed, grouped by percentage.
    pub taxes: Vec<TaxLine>,
    /// Whether the tariff's prices already contained the tax.
    pub tax_basis: TaxBasis,
    /// Whether a `min_price` or `max_price` changed the total.
    pub limit_applied: Option<PriceLimitApplied>,
    /// Anything the reader of this breakdown should know.
    pub notes: Vec<PricingNote>,
}

/// The index of the first of `dims` with dimension `d`, if any.
pub open spec fn first_dimension(dims: Seq<DimensionCost>, d: TariffDimensionType) -> Option<int> {
    if exists|i: int| 0 <= i < dims.len() && dims[i].dimension == d {
        Some(choose|i: int| 0 <= i < dims.len() && dims[i].dimension == d
            && forall|j: int| 0 <= j < i ==> dims[j].dimension != d)
    } else {
        None
    }
}

/// The tax amounts of `lines`, in order.
pub open spec fn tax_amounts(lines: Seq<TaxLine>) -> Seq<Number> {
    lines.map_values(|t: TaxLine| t.amount)
}

/// The applied components of the segments of `dims`, dimension by dimension, in order.
pub open spec fn applied_of(dims: Seq<DimensionCost>) -> Seq<AppliedComponent>
    decreases dims.len(),
{
    if dims.len() == 0 {
        Seq::empty()
    } else {
        applied_of(dims.drop_last()) + dims.last().segments@.map_values(|s: PricedSegment| s.applied)
    }
}

impl CostBreakdown {
    /// The cost of one dimension, if it was priced: the first entry for that dimension.
    pub fn dimension(&self, dimension: TariffDimensionType) -> (r: Option<&DimensionCost>)
        ensures
            match first_dimension(self.dimensions@, dimension) {
                Some(i) => r == Some(&self.dimensions@[i]),
                None => r is None,
            },
    {
        let mut i: usize = 0;
        while i < self.dimensions.len()
            invariant
                i <= self.dimensions.len(),
                forall|j: int| 0 <= j < i ==> self.dimensions@[j].dimension != dimension,
            decreases self.dimensions.len() - i,
        {
            if self.dimensions[i].dimension == dimension {
                let ghost k = i as int;
                proof {
                    let dims = self.dimensions@;
                    assert(0 <= k < dims.len() && dims[k].dimension == dimension);
                    let c = choose|x: int| 0 <= x < dims.len() && dims[x].dimension == dimension
                        && forall|j: int| 0 <= j < x ==> dims[j].dimension != dimension;
                    assert(c == k) by {
                        if c < k {
                            assert(dims[c].dimension != dimension);
                        } else if c > k {
                            assert(dims[k].dimension != dimension);
                        }
                    }
                }
                return Some(&self.dimensions[i]);
            }
            i = i + 1;
        }
        None
    }

    /// The total for one dimension, or zero if it was not priced.
    pub fn dimension_total(&self, dimension: TariffDimensionType) -> (r: Number)
        ensures
            match first_dimension(self.dimensions@, dimension) {
                Some(i) => r == self.dimensions@[i].cost,
                None => r == Number::from_integer(0),
            },
    {
        match self.dimension(dimension) {
            Some(d) => d.cost,
            None => Number::zero(),
        }
    }

    /// The total VAT across the tax lines, added in order.
    pub fn total_vat(&self) -> (r: Number)
        requires
            checked_total(tax_amounts(self.taxes@)) is Some,
        ensures
            Some(r) == checked_total(tax_amounts(self.taxes@)),
    {
        let ghost amounts = tax_amounts(self.taxes@);
        let mut total = Number::zero();
        let mut i: usize = 0;
        while i < self.taxes.len()
            invariant
                i <= self.taxes.len(),
                amounts == tax_amounts(self.taxes@),
                checked_total(amounts) is Some,
                Some(total) == checked_total_prefix(amounts, i as int),
            decreases self.taxes.len() - i,
        {
            proof {
                lemma_prefix_defined(amounts, i as int + 1, amounts.len() as int);
            }
            total = total + self.taxes[i].amount;
            i = i + 1;
        }
        total
    }

    /// The notes carrying `code`, in order.
    pub fn notes_with(&self, code: PricingNoteCode) -> (r: Vec<&PricingNote>)
        ensures
            r@.map_values(|n: &PricingNote| *n) == self.notes@.filter(|n: PricingNote| n.code == code),
    {
        let mut out: Vec<&PricingNote> = Vec::new();
        let mut i: usize = 0;
        while i < self.notes.len()
            invariant
                i <= self.notes.len(),
                out@.map_values(|n: &PricingNote| *n) == self.notes@.subrange(0, i as int).filter(
                    |n: PricingNote| n.code == code,
                ),
            decreases self.notes.len() - i,
        {
            proof {
                let s = self.notes@.subrange(0, i as int + 1);
                assert(self.notes@.subrange(0, i as int) == s.drop_last());
                s.filter_lemma(|n: PricingNote| n.code == code);
                reveal(Seq::filter);
            }
            if self.notes[i].code == code {
                out.push(&self.notes[i]);
            }
            i = i + 1;
        }
        proof {
            assert(self.notes@.subrange(0, self.notes.len() as int) == self.notes@);
        }
        out
    }

    /// Whether anything about this session needs a human's attention: any note at all.
    pub fn needs_review(&self) -> (r: bool)
        ensures
            r == (self.notes@.len() > 0),
    {
        self.notes.len() > 0
    }

    /// Every Price Component that contributed, in the order they were applied.
    pub fn applied_components(&self) -> (r: Vec<&AppliedComponent>)
        ensures
            r@.map_values(|a: &AppliedComponent| *a) == applied_of(self.dimensions@),
    {
        let mut out: Vec<&AppliedComponent> = Vec::new();
        let mut i: usize = 0;
        while i < self.dimensions.len()
            invariant
                i <= self.dimensions.len(),
                out@.map_values(|a: &AppliedComponent| *a) == applied_of(self.dimensions@.subrange(0, i as int)),
            decreases self.dimensions.len() - i,
        {
            let d = &self.dimensions[i];
            let ghost before = out@.map_values(|a: &AppliedComponent| *a);
            let mut j: usize = 0;
            while j < d.segments.len()
                invariant
                    j <= d.segments.len(),
                    out@.map_values(|a: &AppliedComponent| *a) == before + d.segments@.subrange(0, j as int).map_values(
                        |s: PricedSegment| s.applied,
                    ),
                decreases d.segments.len() - j,
            {
                let ghost old_out = out@;
                out.push(&d.segments[j].applied);
                proof {
                    let f = |a: &AppliedComponent| *a;
                    let g = |s: PricedSegment| s.applied;
                    assert(out@.map_values(f) =~= old_out.map_values(f).push(d.segments@[j as int].applied));
                    assert(d.segments@.subrange(0, j as int + 1).map_values(g) =~= d.segments@.subrange(
                        0,
                        j as int,
                    ).map_values(g).push(d.segments@[j as int].applied));
                    assert(out@.map_values(f) =~= before + d.segments@.subrange(0, j as int + 1).map_values(g));
                }
                j = j + 1;
            }
            proof {
                let prefix = self.dimensions@.subrange(0, i as int + 1);
                assert(prefix.drop_last() == self.dimensions@.subrange(0, i as int));
                assert(d.segments@.subrange(0, j as int) == d.segments@);
            }
            i = i + 1;
        }
        proof {
            assert(self.dimensions@.subrange(0, self.dimensions.len() as int) == self.dimensions@);
        }
        out
    }
}

/// A defined sum of all of `values` has every shorter prefix defined too.
pub proof fn lemma_prefix_defined(values: Seq<Number>, n: int, m: int)
    requires
        0 <= n <= m,
        checked_total_prefix(values, m) is Some,
    ensures
        checked_total_prefix(values, n) is Some,
    decreases m - n,
{
    if n < m {
        lemma_prefix_defined(values, n, m - 1);
    }
}

/// How `rust_decimal` writes `n`.
pub open spec fn amount_text(n: Number) -> Seq<char> {
    decimal_text(n.spec_mantissa(), n.spec_scale())
}

/// The line a dimension takes in a rendered breakdown.
pub open spec fn dimension_row(d: DimensionCost) -> Seq<char> {
    padded_right(dimension_wire(d.dimension), 13) + " "@ + padded_left(amount_text(d.billed), 10) + " billed ("@
        + padded_left(amount_text(d.measured), 10) + " measured)  = "@ + padded_left(amount_text(d.cost), 10)
        + " excl. VAT, "@ + padded_left(amount_text(d.vat), 10) + " VAT\n"@
}

/// How a tax line's rate reads: the percentage with a `%`, or `unattributed`.
pub open spec fn rate_text(p: Option<Number>) -> Seq<char> {
    match p {
        Some(r) => amount_text(r) + "%"@,
        None => "unattributed"@,
    }
}

/// The line a tax line takes in a rendered breakdown.
pub open spec fn tax_row(t: TaxLine) -> Seq<char> {
    padded_right("VAT "@ + rate_text(t.percentage), 13) + " "@ + padded_left(amount_text(t.amount), 10) + " on "@
        + padded_left(amount_text(t.taxable), 10) + "\n"@
}

/// The line saying a price limit moved the total, if one did.
pub open spec fn limit_row(l: Option<PriceLimitApplied>) -> Seq<char> {
    match l {
        Some(x) => padded_right("LIMIT"@, 13) + " the tariff's "@ + limit_word(x) + " price limit moved the total\n"@,
        None => Seq::empty(),
    }
}

/// The line with the two totals.
pub open spec fn total_row(excl: Number, incl: Number) -> Seq<char> {
    padded_right("TOTAL"@, 13) + " "@ + padded_left(amount_text(excl), 10) + " excl. VAT, "@
        + padded_left(amount_text(incl), 10) + " incl. VAT\n"@
}

/// The paragraph a note takes at the end of a rendered breakdown.
pub open spec fn note_row(n: PricingNote) -> Seq<char> {
    "\n["@ + pricing_note_code_slug(n.code) + "] "@ + n.message@ + match n.at {
        Some(t) => " (at "@ + t.text() + ")"@,
        None => Seq::empty(),
    }
}

/// The rows of `dims`, in order.
pub open spec fn dimension_rows(dims: Seq<DimensionCost>) -> Seq<char>
    decreases dims.len(),
{
    if dims.len() == 0 {
        Seq::empty()
    } else {
        dimension_rows(dims.drop_last()) + dimension_row(dims.last())
    }
}

/// The rows of `lines`, in order.
pub open spec fn tax_rows(lines: Seq<TaxLine>) -> Seq<char>
    decreases lines.len(),
{
    if lines.len() == 0 {
        Seq::empty()
    } else {
        tax_rows(lines.drop_last()) + tax_row(lines.last())
    }
}

/// The paragraphs of `notes`, in order.
pub open spec fn note_rows(notes: Seq<PricingNote>) -> Seq<char>
    decreases notes.len(),
{
    if notes.len() == 0 {
        Seq::empty()
    } else {
        note_rows(notes.drop_last()) + note_row(notes.last())
    }
}

/// The whole breakdown as text: a row per dimension and per tax line, the limit, the totals,
/// and then every note.
pub open spec fn breakdown_text(b: CostBreakdown) -> Seq<char> {
    dimension_rows(b.dimensions@) + tax_rows(b.taxes@) + limit_row(b.limit_applied)
        + total_row(b.total_excl_vat, b.total_incl_vat) + note_rows(b.notes@)
}

/// Appends `n` right-aligned in a field of ten, as `{:>10}` writes a number.
fn push_amount(s: &mut String, n: Number)
    ensures
        final(s)@ == old(s)@ + padded_left(amount_text(n), 10),
{
    let t = n.to_string();
    push_padded_left(s, t.as_str(), 10);
}

/// Appends the row of dimension `d`.
fn push_dimension_row(s: &mut String, d: &DimensionCost)
    ensures
        final(s)@ == old(s)@ + dimension_row(*d),
{
    let ghost start = s@;
    push_padded_right(s, d.dimension.as_str(), 13);
    push_str(s, " ");
    push_amount(s, d.billed);
    push_str(s, " billed (");
    push_amount(s, d.measured);
    push_str(s, " measured)  = ");
    push_amount(s, d.cost);
    push_str(s, " excl. VAT, ");
    push_amount(s, d.vat);
    push_str(s, " VAT\n");
    proof {
        assert(s@ =~= start + dimension_row(*d));
    }
}

/// Appends the row of tax line `t`.
fn push_tax_row(s: &mut String, t: TaxLine)
    ensures
        final(s)@ == old(s)@ + tax_row(t),
{
    let ghost start = s@;
    let mut label = String::new();
    push_str(&mut label, "VAT ");
    match t.percentage {
        Some(p) => {
            let text = p.to_string();
            push_str(&mut label, text.as_str());
            push_str(&mut label, "%");
        },
        None => {
            push_str(&mut label, "unattributed");
        },
    }
    proof {
        assert(label@ =~= "VAT "@ + rate_text(t.percentage));
    }
    push_padded_right(s, label.as_str(), 13);
    push_str(s, " ");
    push_amount(s, t.amount);
    push_str(s, " on ");
    push_amount(s, t.taxable);
    push_str(s, "\n");
    proof {
        assert(s@ =~= start + tax_row(t));
    }
}

/// Appends the paragraph of `note`.
fn push_note_row(s: &mut String, note: &PricingNote)
    ensures
        final(s)@ == old(s)@ + note_row(*note),
{
    let ghost start = s@;
    push_str(s, "\n[");
    push_str(s, note.code.as_str());
    push_str(s, "] ");
    push_str(s, note.message.as_str());
    if let Some(at) = note.at {
        push_str(s, " (at ");
        let text = at.to_string();
        push_str(s, text.as_str());
        push_str(s, ")");
    }
    proof {
        assert(s@ =~= start + note_row(*note));
    }
}

/// Appends the row with the two totals.
fn push_total_row(s: &mut String, excl: Number, incl: Number)
    ensures
        final(s)@ == old(s)@ + total_row(excl, incl),
{
    let ghost start = s@;
    push_padded_right(s, "TOTAL", 13);
    push_str(s, " ");
    push_amount(s, excl);
    push_str(s, " excl. VAT, ");
    push_amount(s, incl);
    push_str(s, " incl. VAT\n");
    proof {
        assert(s@ =~= start + total_row(excl, incl));
    }
}

/// Appends the row saying a price limit moved the total, if one did.
fn push_limit_row(s: &mut String, limit: Option<PriceLimitApplied>)
    ensures
        final(s)@ == old(s)@ + limit_row(limit),
{
    let ghost start = s@;
    if let Some(l) = limit {
        push_padded_right(s, "LIMIT", 13);
        push_str(s, " the tariff's ");
        push_str(
            s,
            match l {
                PriceLimitApplied::Minimum => "minimum",
                PriceLimitApplied::Maximum => "maximum",
            },
        );
        push_str(s, " price limit moved the total\n");
    }
    proof {
        assert(s@ =~= start + limit_row(limit));
    }
}

impl CostBreakdown {
    /// The whole breakdown, notes included, as `Display` writes it.
    pub fn to_string(&self) -> (s: String)
        ensures
            s@ == breakdown_text(*self),
    {
        let mut s = String::new();
        let mut i: usize = 0;
        while i < self.dimensions.len()
            invariant
                i <= self.dimensions.len(),
                s@ == dimension_rows(self.dimensions@.subrange(0, i as int)),
            decreases self.dimensions.len() - i,
        {
            push_dimension_row(&mut s, &self.dimensions[i]);
            proof {
                let p = self.dimensions@.subrange(0, i as int + 1);
                assert(p.drop_last() =~= self.dimensions@.subrange(0, i as int));
            }
            i = i + 1;
        }
        proof {
            assert(self.dimensions@.subrange(0, self.dimensions.len() as int) =~= self.dimensions@);
        }
        let ghost after_dims = s@;
        let mut k: usize = 0;
        while k < self.taxes.len()
            invariant
                k <= self.taxes.len(),
                s@ == after_dims + tax_rows(self.taxes@.subrange(0, k as int)),
            decreases self.taxes.len() - k,
        {
            push_tax_row(&mut s, self.taxes[k]);
            proof {
                let p = self.taxes@.subrange(0, k as int + 1);
                assert(p.drop_last() =~= self.taxes@.subrange(0, k as int));
                assert(s@ =~= after_dims + tax_rows(p));
            }
            k = k + 1;
        }
        proof {
            assert(self.taxes@.subrange(0, self.taxes.len() as int) =~= self.taxes@);
        }
        push_limit_row(&mut s, self.limit_applied);
        push_total_row(&mut s, self.total_excl_vat, self.total_incl_vat);
        let ghost after_total = s@;
        let mut j: usize = 0;
        while j < self.notes.len()
            invariant
                j <= self.notes.len(),
                s@ == after_total + note_rows(self.notes@.subrange(0, j as int)),
            decreases self.notes.len() - j,
        {
            push_note_row(&mut s, &self.notes[j]);
            proof {
                let p = self.notes@.subrange(0, j as int + 1);
                assert(p.drop_last() =~= self.notes@.subrange(0, j as int));
                assert(s@ =~= after_total + note_rows(p));
            }
            j = j + 1;
        }
        proof {
            assert(self.notes@.subrange(0, self.notes.len() as int) =~= self.notes@);
            assert(s@ =~= breakdown_text(*self));
        }
        s
    }
}

} // verus!
