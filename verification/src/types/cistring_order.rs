//! The order of case-insensitive strings: their bytes compared after ASCII lower-casing, as
//! equality compares them.

use core::cmp::Ordering;

use vstd::prelude::*;
use vstd::utf8::encode_utf8;

use crate::strings::{ascii_lower, bytes_eq_ignore_case, str_eq_ignore_case, to_ascii_lower};

use super::cistring::CiString;

verus! {

/// Whether `a` comes strictly before `b`, comparing lower-cased bytes from the start: at the first
/// difference, or by being a proper prefix.
pub open spec fn folded_before(a: Seq<u8>, b: Seq<u8>) -> bool
    decreases a.len(),
{
    if a.len() == 0 {
        b.len() > 0
    } else if b.len() == 0 {
        false
    } else if ascii_lower(a[0]) != ascii_lower(b[0]) {
        ascii_lower(a[0]) < ascii_lower(b[0])
    } else {
        folded_before(a.drop_first(), b.drop_first())
    }
}

/// The order two case-insensitive strings compare in.
pub open spec fn ci_order(a: Seq<char>, b: Seq<char>) -> Ordering {
    if folded_before(encode_utf8(a), encode_utf8(b)) {
        Ordering::Less
    } else if folded_before(encode_utf8(b), encode_utf8(a)) {
        Ordering::Greater
    } else {
        Ordering::Equal
    }
}

/// Which of two byte strings comes first after lower-casing: -1 for the first, 1 for the second,
/// 0 when neither.
fn folded_rank(x: &[u8], y: &[u8]) -> (r: i8)
    ensures
        r == (if folded_before(x@, y@) {
            -1i8
        } else if folded_before(y@, x@) {
            1i8
        } else {
            0i8
        }),
{
    let mut i: usize = 0;
    assert(x@.skip(0) =~= x@);
    assert(y@.skip(0) =~= y@);
    while i < x.len() && i < y.len()
        invariant
            i <= x@.len(),
            i <= y@.len(),
            folded_before(x@, y@) == folded_before(x@.skip(i as int), y@.skip(i as int)),
            folded_before(y@, x@) == folded_before(y@.skip(i as int), x@.skip(i as int)),
        decreases x@.len() - i,
    {
        let a = to_ascii_lower(x[i]);
        let b = to_ascii_lower(y[i]);
        assert(x@.skip(i as int)[0] == x@[i as int]);
        assert(y@.skip(i as int)[0] == y@[i as int]);
        if a < b {
            return -1;
        }
        if b < a {
            return 1;
        }
        assert(x@.skip(i as int).drop_first() =~= x@.skip(i + 1));
        assert(y@.skip(i as int).drop_first() =~= y@.skip(i + 1));
        i = i + 1;
    }
    if x.len() < y.len() {
        -1
    } else if y.len() < x.len() {
        1
    } else {
        0
    }
}

/// Neither before the other means equal ignoring case.
pub proof fn lemma_folded_order_agrees_with_equality(a: Seq<u8>, b: Seq<u8>)
    ensures
        (!folded_before(a, b) && !folded_before(b, a)) == bytes_eq_ignore_case(a, b),
        !(folded_before(a, b) && folded_before(b, a)),
    decreases a.len(),
{
    if a.len() > 0 && b.len() > 0 && ascii_lower(a[0]) == ascii_lower(b[0]) {
        lemma_folded_order_agrees_with_equality(a.drop_first(), b.drop_first());
        if bytes_eq_ignore_case(a.drop_first(), b.drop_first()) {
            assert forall|i: int| 0 <= i < a.len() implies ascii_lower(#[trigger] a[i]) == ascii_lower(b[i]) by {
                if i > 0 {
                    assert(a[i] == a.drop_first()[i - 1]);
                    assert(b[i] == b.drop_first()[i - 1]);
                }
            }
        }
        if bytes_eq_ignore_case(a, b) {
            assert forall|i: int| 0 <= i < a.drop_first().len() implies ascii_lower(#[trigger] a.drop_first()[i])
                == ascii_lower(b.drop_first()[i]) by {
                assert(ascii_lower(a[i + 1]) == ascii_lower(b[i + 1]));
            }
        }
    } else if a.len() > 0 && b.len() > 0 {
        assert(!bytes_eq_ignore_case(a, b)) by {
            if bytes_eq_ignore_case(a, b) {
                assert(ascii_lower(a[0]) == ascii_lower(b[0]));
            }
        }
    }
}

/// Case-insensitive strings order consistently with their equality: two compare equal exactly when
/// they are equal ignoring ASCII case, and no two are each before the other.
pub proof fn lemma_ci_order_agrees_with_equality(a: Seq<char>, b: Seq<char>)
    ensures
        (ci_order(a, b) == Ordering::Equal) == str_eq_ignore_case(a, b),
        ci_order(a, b) == Ordering::Less <==> ci_order(b, a) == Ordering::Greater,
{
    lemma_folded_order_agrees_with_equality(encode_utf8(a), encode_utf8(b));
}

/// Coming before is transitive.
pub proof fn lemma_folded_before_transitive(a: Seq<u8>, b: Seq<u8>, c: Seq<u8>)
    requires
        folded_before(a, b),
        folded_before(b, c),
    ensures
        folded_before(a, c),
    decreases a.len(),
{
    if a.len() > 0 {
        let la = ascii_lower(a[0]);
        let lb = ascii_lower(b[0]);
        let lc = ascii_lower(c[0]);
        if la == lb && lb == lc {
            lemma_folded_before_transitive(a.drop_first(), b.drop_first(), c.drop_first());
        }
    }
}

/// The order of case-insensitive strings is transitive: what comes before something that comes
/// before a third comes before the third.
pub proof fn lemma_ci_order_transitive(a: Seq<char>, b: Seq<char>, c: Seq<char>)
    requires
        ci_order(a, b) == Ordering::Less,
        ci_order(b, c) == Ordering::Less,
    ensures
        ci_order(a, c) == Ordering::Less,
{
    lemma_folded_before_transitive(encode_utf8(a), encode_utf8(b), encode_utf8(c));
}

impl<const N: usize> PartialOrd for CiString<N> {
    fn partial_cmp(&self, other: &Self) -> (r: Option<Ordering>) {
        let rank = folded_rank(self.as_str().as_bytes(), other.as_str().as_bytes());
        if rank < 0 {
            Some(Ordering::Less)
        } else if rank > 0 {
            Some(Ordering::Greater)
        } else {
            Some(Ordering::Equal)
        }
    }
}

impl<const N: usize> vstd::std_specs::cmp::PartialOrdSpecImpl for CiString<N> {
    open spec fn obeys_partial_cmp_spec() -> bool {
        true
    }

    open spec fn partial_cmp_spec(&self, other: &Self) -> Option<Ordering> {
        Some(ci_order(self@, other@))
    }
}

} // verus!
