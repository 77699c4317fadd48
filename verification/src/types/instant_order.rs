//! The order of timestamps: by instant, as equality is.

use core::cmp::Ordering;

use vstd::prelude::*;

use super::datetime::DateTime;

verus! {

impl PartialOrd for DateTime {
    fn partial_cmp(&self, other: &Self) -> (r: Option<Ordering>) {
        if self.is_before(other) {
            Some(Ordering::Less)
        } else if other.is_before(self) {
            Some(Ordering::Greater)
        } else {
            Some(Ordering::Equal)
        }
    }
}

impl vstd::std_specs::cmp::PartialOrdSpecImpl for DateTime {
    open spec fn obeys_partial_cmp_spec() -> bool {
        true
    }

    open spec fn partial_cmp_spec(&self, other: &Self) -> Option<Ordering> {
        if self.instant() < other.instant() {
            Some(Ordering::Less)
        } else if other.instant() < self.instant() {
            Some(Ordering::Greater)
        } else {
            Some(Ordering::Equal)
        }
    }
}

} // verus!
