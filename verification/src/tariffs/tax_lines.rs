//! Tax lines: the priced stretches of a session grouped per VAT percentage, the lines that say
//! nothing dropped, and the rest ordered by percentage.

use vstd::prelude::*;

use crate::tariffs::breakdown::{DimensionCost, PricedSegment, TaxLine};
use crate::tariffs::codes::TaxBasis;
use crate::types::number::{checked_total, checked_total_prefix, decimal_checked_sum, numeric_eq, numeric_lt, Number};

verus! {

/// The priced stretches of `dims`, dimension by dimension, in order.
pub open spec fn all_segments(dims: Seq<DimensionCost>) -> Seq<PricedSegment>
    decreases dims.len(),
{
    if dims.len() == 0 {
        Seq::empty()
    } else {
        all_segments(dims.drop_last()) + dims.last().segments@
    }
}

/// The tax bases of the priced stretches of `dims`, in order.
pub open spec fn segment_bases(dims: Seq<DimensionCost>) -> Seq<TaxBasis> {
    all_segments(dims).map_values(|s: PricedSegment| s.tax_basis)
}

/// The costs of `dims`, in order.
pub open spec fn dimension_costs(dims: Seq<DimensionCost>) -> Seq<Number> {
    dims.map_values(|d: DimensionCost| d.cost)
}

/// A stretch that says nothing about tax: none is owed, and either no rate was named or the
/// Tariff says no tax applies.
pub open spec fn is_quiet(s: PricedSegment) -> bool {
    s.tax.spec_mantissa() == 0 && (s.vat_percentage is None || s.tax_basis == TaxBasis::NotApplicable)
}

/// Whether two optional percentages are the same: both absent, or equal in value.
pub open spec fn same_rate(a: Option<Number>, b: Option<Number>) -> bool {
    match (a, b) {
        (None, None) => true,
        (Some(x), Some(y)) => numeric_eq(x, y),
        _ => false,
    }
}

/// Whether percentage `a` comes before `b`: no percentage before any, and smaller values first.
pub open spec fn rate_before(a: Option<Number>, b: Option<Number>) -> bool {
    match (a, b) {
        (None, Some(_)) => true,
        (Some(x), Some(y)) => numeric_lt(x, y),
        _ => false,
    }
}

/// The index of the first of `lines` at percentage `p`, if any.
pub open spec fn line_at_rate(lines: Seq<TaxLine>, p: Option<Number>) -> Option<int> {
    if exists|i: int| 0 <= i < lines.len() && same_rate(lines[i].percentage, p) {
        Some(choose|i: int| 0 <= i < lines.len() && same_rate(lines[i].percentage, p)
            && forall|j: int| 0 <= j < i ==> !same_rate(#[trigger] lines[j].percentage, p))
    } else {
        None
    }
}

/// `lines` with stretch `s` counted in: a quiet stretch changes nothing; otherwise its cost
/// and tax are added to the line at its percentage, or start a new line at the end. `None`
/// where an addition overflows.
pub open spec fn with_segment(lines: Seq<TaxLine>, s: PricedSegment) -> Option<Seq<TaxLine>> {
    if is_quiet(s) {
        Some(lines)
    } else {
        match line_at_rate(lines, s.vat_percentage) {
            Some(i) => match (
                decimal_checked_sum(lines[i].taxable, s.cost),
                decimal_checked_sum(lines[i].amount, s.tax),
            ) {
                (Some(t), Some(a)) => Some(
                    lines.update(i, TaxLine { percentage: lines[i].percentage, taxable: t, amount: a }),
                ),
                _ => None,
            },
            None => Some(lines.push(TaxLine { percentage: s.vat_percentage, taxable: s.cost, amount: s.tax })),
        }
    }
}

/// The tax lines of `segs`, counted in order from none.
pub open spec fn grouped_lines(segs: Seq<PricedSegment>) -> Option<Seq<TaxLine>>
    decreases segs.len(),
{
    if segs.len() == 0 {
        Some(Seq::empty())
    } else {
        match grouped_lines(segs.drop_last()) {
            Some(lines) => with_segment(lines, segs.last()),
            None => None,
        }
    }
}

/// A line that says nothing: no tax, at no percentage.
pub open spec fn is_empty_unrated(t: TaxLine) -> bool {
    t.amount.spec_mantissa() == 0 && t.percentage is None
}

/// `lines` without the lines that say nothing.
pub open spec fn kept_lines(lines: Seq<TaxLine>) -> Seq<TaxLine> {
    lines.filter(|t: TaxLine| !is_empty_unrated(t))
}

/// Where `x` goes in `sorted`: before the first line whose percentage comes after its own.
pub open spec fn insert_position(sorted: Seq<TaxLine>, x: TaxLine) -> int {
    if exists|k: int| 0 <= k < sorted.len() && rate_before(x.percentage, sorted[k].percentage) {
        choose|k: int| 0 <= k < sorted.len() && rate_before(x.percentage, sorted[k].percentage)
            && forall|j: int| 0 <= j < k ==> !rate_before(x.percentage, #[trigger] sorted[j].percentage)
    } else {
        sorted.len() as int
    }
}

/// `lines` in order of percentage, lines at the same percentage keeping their order.
pub open spec fn sorted_lines(lines: Seq<TaxLine>) -> Seq<TaxLine>
    decreases lines.len(),
{
    if lines.len() == 0 {
        Seq::empty()
    } else {
        let s = sorted_lines(lines.drop_last());
        s.insert(insert_position(s, lines.last()), lines.last())
    }
}

/// Splitting the dimensions after `i` adds that dimension's stretches at the end.
pub proof fn lemma_all_segments_step(dims: Seq<DimensionCost>, i: int)
    requires
        0 <= i < dims.len(),
    ensures
        all_segments(dims.subrange(0, i + 1)) == all_segments(dims.subrange(0, i)) + dims[i].segments@,
{
    assert(dims.subrange(0, i + 1).drop_last() =~= dims.subrange(0, i));
}

/// A defined grouping of all of `segs` has every prefix defined too.
pub proof fn lemma_grouped_prefix(segs: Seq<PricedSegment>, n: int)
    requires
        0 <= n <= segs.len(),
        grouped_lines(segs) is Some,
    ensures
        grouped_lines(segs.subrange(0, n)) is Some,
    decreases segs.len() - n,
{
    if n < segs.len() {
        lemma_grouped_prefix(segs.drop_last(), n);
        assert(segs.drop_last().subrange(0, n) =~= segs.subrange(0, n));
    } else {
        assert(segs.subrange(0, n) =~= segs);
    }
}

/// Whether two optional percentages are the same: both absent, or equal in value.
pub fn same_rate_exec(a: &Option<Number>, b: &Option<Number>) -> (r: bool)
    ensures
        r == same_rate(*a, *b),
{
    match (a, b) {
        (None, None) => true,
        (Some(x), Some(y)) => *x == *y,
        _ => false,
    }
}

/// Whether percentage `a` comes before `b`.
pub fn rate_before_exec(a: &Option<Number>, b: &Option<Number>) -> (r: bool)
    ensures
        r == rate_before(*a, *b),
{
    match (a, b) {
        (None, Some(_)) => true,
        (Some(x), Some(y)) => x.is_less_than(y),
        _ => false,
    }
}

/// Counts stretch `s` into `lines`.
fn add_segment(lines: &mut Vec<TaxLine>, s: &PricedSegment)
    requires
        with_segment(old(lines)@, *s) is Some,
    ensures
        Some(final(lines)@) == with_segment(old(lines)@, *s),
{
    if s.tax.is_zero() && (s.vat_percentage.is_none() || s.tax_basis == TaxBasis::NotApplicable) {
        return;
    }
    let ghost before = lines@;
    let mut i: usize = 0;
    while i < lines.len()
        invariant
            i <= lines.len(),
            lines@ == before,
            before == old(lines)@,
            !is_quiet(*s),
            with_segment(before, *s) is Some,
            forall|j: int| 0 <= j < i ==> !same_rate(#[trigger] before[j].percentage, s.vat_percentage),
        decreases lines.len() - i,
    {
        if same_rate_exec(&lines[i].percentage, &s.vat_percentage) {
            proof {
                let k = i as int;
                let c = choose|x: int| 0 <= x < before.len() && same_rate(before[x].percentage, s.vat_percentage)
                    && forall|j: int| 0 <= j < x ==> !same_rate(#[trigger] before[j].percentage, s.vat_percentage);
                assert(0 <= k < before.len() && same_rate(before[k].percentage, s.vat_percentage));
                assert(c == k) by {
                    if c < k {
                        assert(!same_rate(before[c].percentage, s.vat_percentage));
                    } else if c > k {
                        assert(!same_rate(before[k].percentage, s.vat_percentage));
                    }
                }
            }
            let line = lines[i];
            proof {
                assert(line == before[i as int]);
                assert(line_at_rate(before, s.vat_percentage) == Some(i as int));
            }
            let taxable = line.taxable + s.cost;
            let amount = line.amount + s.tax;
            let updated = TaxLine { percentage: line.percentage, taxable, amount };
            proof {
                assert(Some(taxable) == decimal_checked_sum(before[i as int].taxable, s.cost));
                assert(Some(amount) == decimal_checked_sum(before[i as int].amount, s.tax));
            }
            lines.set(i, updated);
            proof {
                assert(lines@ == before.update(i as int, updated));
            }
            return;
        }
        i = i + 1;
    }
    lines.push(TaxLine { percentage: s.vat_percentage, taxable: s.cost, amount: s.tax });
}

/// The tax lines of the stretches of `dims`: one per percentage, in the order the percentages
/// first appear, each adding up the cost and tax of its stretches; quiet stretches are left out.
pub fn group_tax_lines(dims: &Vec<DimensionCost>) -> (r: Vec<TaxLine>)
    requires
        grouped_lines(all_segments(dims@)) is Some,
    ensures
        Some(r@) == grouped_lines(all_segments(dims@)),
{
    let mut lines: Vec<TaxLine> = Vec::new();
    let mut i: usize = 0;
    proof {
        assert(dims@.subrange(0, 0) =~= Seq::<DimensionCost>::empty());
    }
    while i < dims.len()
        invariant
            i <= dims.len(),
            grouped_lines(all_segments(dims@)) is Some,
            Some(lines@) == grouped_lines(all_segments(dims@.subrange(0, i as int))),
        decreases dims.len() - i,
    {
        let d = &dims[i];
        let ghost done = all_segments(dims@.subrange(0, i as int));
        let mut j: usize = 0;
        proof {
            lemma_all_segments_step(dims@, i as int);
            assert(done + d.segments@.subrange(0, 0) =~= done);
        }
        while j < d.segments.len()
            invariant
                j <= d.segments.len(),
                i < dims.len(),
                d == &dims@[i as int],
                done == all_segments(dims@.subrange(0, i as int)),
                all_segments(dims@.subrange(0, i as int + 1)) == done + d.segments@,
                grouped_lines(all_segments(dims@)) is Some,
                Some(lines@) == grouped_lines(done + d.segments@.subrange(0, j as int)),
            decreases d.segments.len() - j,
        {
            proof {
                let upto = done + d.segments@.subrange(0, j as int + 1);
                assert(upto.drop_last() =~= done + d.segments@.subrange(0, j as int));
                assert(upto.last() == d.segments@[j as int]);
                lemma_all_segments_prefix(dims@, i as int + 1);
                let whole = all_segments(dims@.subrange(0, i as int + 1));
                assert(upto =~= whole.subrange(0, done.len() + j + 1));
                lemma_grouped_prefix(whole, done.len() + j + 1);
            }
            add_segment(&mut lines, &d.segments[j]);
            j = j + 1;
        }
        proof {
            assert(d.segments@.subrange(0, j as int) =~= d.segments@);
        }
        i = i + 1;
    }
    proof {
        assert(dims@.subrange(0, dims.len() as int) =~= dims@);
    }
    lines
}

/// The stretches of a prefix of the dimensions can be grouped when all of them can.
pub proof fn lemma_all_segments_prefix(dims: Seq<DimensionCost>, n: int)
    requires
        0 <= n <= dims.len(),
        grouped_lines(all_segments(dims)) is Some,
    ensures
        grouped_lines(all_segments(dims.subrange(0, n))) is Some,
    decreases dims.len() - n,
{
    if n < dims.len() {
        let shorter = dims.drop_last();
        assert(all_segments(dims) == all_segments(shorter) + dims.last().segments@);
        assert(all_segments(shorter) =~= all_segments(dims).subrange(0, all_segments(shorter).len() as int));
        lemma_grouped_prefix(all_segments(dims), all_segments(shorter).len() as int);
        lemma_all_segments_prefix(shorter, n);
        assert(shorter.subrange(0, n) =~= dims.subrange(0, n));
    } else {
        assert(dims.subrange(0, n) =~= dims);
    }
}

/// `lines` without the lines that carry no tax at no percentage.
pub fn drop_empty_unrated(lines: Vec<TaxLine>) -> (r: Vec<TaxLine>)
    ensures
        r@ == kept_lines(lines@),
{
    let mut out: Vec<TaxLine> = Vec::new();
    let mut i: usize = 0;
    while i < lines.len()
        invariant
            i <= lines.len(),
            out@ == lines@.subrange(0, i as int).filter(|t: TaxLine| !is_empty_unrated(t)),
        decreases lines.len() - i,
    {
        proof {
            let s = lines@.subrange(0, i as int + 1);
            assert(lines@.subrange(0, i as int) == s.drop_last());
            reveal(Seq::filter);
        }
        let t = lines[i];
        if !(t.amount.is_zero() && t.percentage.is_none()) {
            out.push(t);
        }
        i = i + 1;
    }
    proof {
        assert(lines@.subrange(0, lines.len() as int) == lines@);
    }
    out
}

/// `lines` in order of percentage, lines at the same percentage keeping their order.
pub fn sort_by_rate(lines: Vec<TaxLine>) -> (r: Vec<TaxLine>)
    ensures
        r@ == sorted_lines(lines@),
{
    let mut out: Vec<TaxLine> = Vec::new();
    let mut i: usize = 0;
    while i < lines.len()
        invariant
            i <= lines.len(),
            out@ == sorted_lines(lines@.subrange(0, i as int)),
        decreases lines.len() - i,
    {
        let x = lines[i];
        let mut k: usize = 0;
        while k < out.len()
            invariant
                k <= out.len(),
                forall|j: int| 0 <= j < k ==> !rate_before(x.percentage, #[trigger] out@[j].percentage),
            ensures
                k <= out.len(),
                k < out.len() ==> rate_before(x.percentage, out@[k as int].percentage),
                forall|j: int| 0 <= j < k ==> !rate_before(x.percentage, #[trigger] out@[j].percentage),
            decreases out.len() - k,
        {
            if rate_before_exec(&x.percentage, &out[k].percentage) {
                break;
            }
            k = k + 1;
        }
        proof {
            let s = out@;
            if k < out.len() {
                assert(rate_before(x.percentage, s[k as int].percentage));
                let c = choose|m: int| 0 <= m < s.len() && rate_before(x.percentage, s[m].percentage)
                    && forall|j: int| 0 <= j < m ==> !rate_before(x.percentage, #[trigger] s[j].percentage);
                assert(c == k as int) by {
                    if c < k as int {
                        assert(!rate_before(x.percentage, s[c].percentage));
                    } else if c > k as int {
                        assert(!rate_before(x.percentage, s[k as int].percentage));
                    }
                }
            } else {
                assert(!exists|m: int| 0 <= m < s.len() && rate_before(x.percentage, s[m].percentage));
            }
            assert(insert_position(s, x) == k as int);
            let prefix = lines@.subrange(0, i as int + 1);
            assert(prefix.drop_last() =~= lines@.subrange(0, i as int));
            assert(prefix.last() == x);
        }
        out.insert(k, x);
        i = i + 1;
    }
    proof {
        assert(lines@.subrange(0, lines.len() as int) =~= lines@);
    }
    out
}

/// The sum of `values`, added left to right from zero.
pub fn total(values: &Vec<Number>) -> (r: Number)
    requires
        checked_total(values@) is Some,
    ensures
        Some(r) == checked_total(values@),
{
    let mut sum = Number::zero();
    let mut i: usize = 0;
    while i < values.len()
        invariant
            i <= values.len(),
            checked_total(values@) is Some,
            Some(sum) == checked_total_prefix(values@, i as int),
        decreases values.len() - i,
    {
        proof {
            crate::tariffs::breakdown::lemma_prefix_defined(values@, i as int + 1, values.len() as int);
        }
        sum = sum + values[i];
        i = i + 1;
    }
    sum
}

/// The bases of the stretches of a prefix of the dimensions, extended by one dimension.
pub proof fn lemma_bases_step(dims: Seq<DimensionCost>, i: int)
    requires
        0 <= i < dims.len(),
    ensures
        segment_bases(dims.subrange(0, i + 1)) == segment_bases(dims.subrange(0, i))
            + dims[i].segments@.map_values(|s: PricedSegment| s.tax_basis),
{
    lemma_all_segments_step(dims, i);
    let f = |s: PricedSegment| s.tax_basis;
    assert((all_segments(dims.subrange(0, i)) + dims[i].segments@).map_values(f) =~= all_segments(
        dims.subrange(0, i),
    ).map_values(f) + dims[i].segments@.map_values(f));
}

/// The basis of a whole breakdown: the one every priced stretch shares, `Mixed` when two
/// disagree, and `Excluded` when nothing was priced.
pub fn summarise_basis(dims: &Vec<DimensionCost>) -> (b: TaxBasis)
    ensures
        b == crate::tariffs::engine::summarised_basis(segment_bases(dims@)),
{
    let mut seen: Option<TaxBasis> = None;
    let mut i: usize = 0;
    proof {
        assert(dims@.subrange(0, 0) =~= Seq::<DimensionCost>::empty());
        assert(segment_bases(dims@.subrange(0, 0)) =~= Seq::<TaxBasis>::empty());
    }
    while i < dims.len()
        invariant
            i <= dims.len(),
            ({
                let done = segment_bases(dims@.subrange(0, i as int));
                match seen {
                    None => done.len() == 0,
                    Some(first) => done.len() > 0 && done[0] == first
                        && forall|k: int| 0 <= k < done.len() ==> #[trigger] done[k] == first,
                }
            }),
        decreases dims.len() - i,
    {
        let d = &dims[i];
        let ghost done = segment_bases(dims@.subrange(0, i as int));
        let ghost these = d.segments@.map_values(|s: PricedSegment| s.tax_basis);
        proof {
            lemma_bases_step(dims@, i as int);
        }
        let mut j: usize = 0;
        while j < d.segments.len()
            invariant
                j <= d.segments.len(),
                i < dims.len(),
                d == &dims@[i as int],
                done == segment_bases(dims@.subrange(0, i as int)),
                these == d.segments@.map_values(|s: PricedSegment| s.tax_basis),
                segment_bases(dims@.subrange(0, i as int + 1)) == done + these,
                ({
                    let upto = done + these.subrange(0, j as int);
                    match seen {
                        None => upto.len() == 0,
                        Some(first) => upto.len() > 0 && upto[0] == first
                            && forall|k: int| 0 <= k < upto.len() ==> #[trigger] upto[k] == first,
                    }
                }),
            decreases d.segments.len() - j,
        {
            let basis = d.segments[j].tax_basis;
            proof {
                assert(these[j as int] == basis);
            }
            match seen {
                None => {
                    seen = Some(basis);
                    proof {
                        let upto = done + these.subrange(0, j as int + 1);
                        assert(upto.len() == 1);
                        assert(upto[0] == basis);
                    }
                },
                Some(first) => {
                    if first != basis {
                        proof {
                            let all = segment_bases(dims@);
                            lemma_bases_prefix(dims@, i as int + 1);
                            let k = done.len() + j;
                            assert(all[k] == basis);
                            assert(all[0] == first);
                        }
                        return TaxBasis::Mixed;
                    }
                    proof {
                        let upto = done + these.subrange(0, j as int + 1);
                        assert forall|k: int| 0 <= k < upto.len() implies #[trigger] upto[k] == first by {
                            if k < done.len() + j {
                                assert(upto[k] == (done + these.subrange(0, j as int))[k]);
                            }
                        }
                    }
                },
            }
            j = j + 1;
        }
        proof {
            assert(these.subrange(0, j as int) =~= these);
        }
        i = i + 1;
    }
    proof {
        assert(dims@.subrange(0, dims.len() as int) =~= dims@);
    }
    match seen {
        Some(first) => first,
        None => TaxBasis::Excluded,
    }
}

/// The bases of a prefix of the dimensions start the bases of all of them.
pub proof fn lemma_bases_prefix(dims: Seq<DimensionCost>, n: int)
    requires
        0 <= n <= dims.len(),
    ensures
        segment_bases(dims.subrange(0, n)).len() <= segment_bases(dims).len(),
        forall|k: int| 0 <= k < segment_bases(dims.subrange(0, n)).len()
            ==> #[trigger] segment_bases(dims)[k] == segment_bases(dims.subrange(0, n))[k],
    decreases dims.len() - n,
{
    if n < dims.len() {
        let shorter = dims.drop_last();
        lemma_bases_prefix(shorter, n);
        assert(shorter.subrange(0, n) =~= dims.subrange(0, n));
        assert(dims.subrange(0, dims.len() - 1) =~= shorter);
        lemma_bases_step(dims, dims.len() - 1);
        assert(dims.subrange(0, dims.len() as int) =~= dims);
    } else {
        assert(dims.subrange(0, n) =~= dims);
    }
}

} // verus!
