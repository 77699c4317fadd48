//! The order of numbers: by value, whatever their scales.

use core::cmp::Ordering;

use vstd::prelude::*;

use super::number::{Number, numeric_lt};

verus! {

impl PartialOrd for Number {
    fn partial_cmp(&self, other: &Self) -> (r: Option<Ordering>) {
        if self.is_less_than(other) {
            Some(Ordering::Less)
        } else if other.is_less_than(self) {
            Some(Ordering::Greater)
        } else {
            Some(Ordering::Equal)
        }
    }
}

impl vstd::std_specs::cmp::PartialOrdSpecImpl for Number {
    open spec fn obeys_partial_cmp_spec() -> bool {
        true
    }

    open spec fn partial_cmp_spec(&self, other: &Self) -> Option<Ordering> {
        if numeric_lt(*self, *other) {
            Some(Ordering::Less)
        } else if numeric_lt(*other, *self) {
            Some(Ordering::Greater)
        } else {
            Some(Ordering::Equal)
        }
    }
}

} // verus!
