//! Equality and order of nibbles and of pairs, among themselves and with plain
//! bytes.
//!
//! Two nibbles are equal when they stand for the same number, whatever half of
//! a byte each is kept in, and they are ordered as those numbers are. Pairs are
//! equal and ordered as their bytes are.
use vstd::prelude::*;
use vstd::std_specs::cmp::{PartialEqSpecImpl, PartialOrdSpecImpl};
use core::cmp::Ordering;
use crate::base::{u4, u4hi, u4lo};
use crate::pair::u4x2;

verus! {

/// How two numbers are ordered.
pub open spec fn order_of(lhs: u8, rhs: u8) -> Option<Ordering> {
    if lhs < rhs {
        Some(Ordering::Less)
    } else if lhs == rhs {
        Some(Ordering::Equal)
    } else {
        Some(Ordering::Greater)
    }
}

impl PartialEq<u4hi> for u4hi {
    fn eq(&self, rhs: &u4hi) -> (r: bool) {
        self.to_lo() == rhs.to_lo()
    }
}

impl PartialEqSpecImpl<u4hi> for u4hi {
    open spec fn obeys_eq_spec() -> bool {
        true
    }

    open spec fn eq_spec(&self, rhs: &u4hi) -> bool {
        self@ == rhs@
    }
}

impl Eq for u4hi {

}

impl PartialEq<u4lo> for u4hi {
    fn eq(&self, rhs: &u4lo) -> (r: bool) {
        self.to_lo() == rhs.to_lo()
    }
}

impl PartialEqSpecImpl<u4lo> for u4hi {
    open spec fn obeys_eq_spec() -> bool {
        true
    }

    open spec fn eq_spec(&self, rhs: &u4lo) -> bool {
        self@ == rhs@
    }
}

impl PartialEq<u8> for u4hi {
    fn eq(&self, rhs: &u8) -> (r: bool) {
        self.to_lo() == *rhs
    }
}

impl PartialEqSpecImpl<u8> for u4hi {
    open spec fn obeys_eq_spec() -> bool {
        true
    }

    open spec fn eq_spec(&self, rhs: &u8) -> bool {
        self@ == *rhs
    }
}

impl PartialEq<u4lo> for u4lo {
    fn eq(&self, rhs: &u4lo) -> (r: bool) {
        self.to_lo() == rhs.to_lo()
    }
}

impl PartialEqSpecImpl<u4lo> for u4lo {
    open spec fn obeys_eq_spec() -> bool {
        true
    }

    open spec fn eq_spec(&self, rhs: &u4lo) -> bool {
        self@ == rhs@
    }
}

impl Eq for u4lo {

}

impl PartialEq<u4hi> for u4lo {
    fn eq(&self, rhs: &u4hi) -> (r: bool) {
        self.to_lo() == rhs.to_lo()
    }
}

impl PartialEqSpecImpl<u4hi> for u4lo {
    open spec fn obeys_eq_spec() -> bool {
        true
    }

    open spec fn eq_spec(&self, rhs: &u4hi) -> bool {
        self@ == rhs@
    }
}

impl PartialEq<u8> for u4lo {
    fn eq(&self, rhs: &u8) -> (r: bool) {
        self.to_lo() == *rhs
    }
}

impl PartialEqSpecImpl<u8> for u4lo {
    open spec fn obeys_eq_spec() -> bool {
        true
    }

    open spec fn eq_spec(&self, rhs: &u8) -> bool {
        self@ == *rhs
    }
}

impl PartialEq<u4x2> for u4x2 {
    fn eq(&self, rhs: &u4x2) -> (r: bool) {
        self.byte() == rhs.byte()
    }
}

impl PartialEqSpecImpl<u4x2> for u4x2 {
    open spec fn obeys_eq_spec() -> bool {
        true
    }

    open spec fn eq_spec(&self, rhs: &u4x2) -> bool {
        self@ == rhs@
    }
}

impl Eq for u4x2 {

}

impl PartialEq<u8> for u4x2 {
    fn eq(&self, rhs: &u8) -> (r: bool) {
        self.byte() == *rhs
    }
}

impl PartialEqSpecImpl<u8> for u4x2 {
    open spec fn obeys_eq_spec() -> bool {
        true
    }

    open spec fn eq_spec(&self, rhs: &u8) -> bool {
        self@ == *rhs
    }
}

impl PartialOrd<u4hi> for u4hi {
    fn partial_cmp(&self, rhs: &u4hi) -> (r: Option<Ordering>) {
        self.to_lo().partial_cmp(&rhs.to_lo())
    }
}

impl PartialOrdSpecImpl<u4hi> for u4hi {
    open spec fn obeys_partial_cmp_spec() -> bool {
        true
    }

    open spec fn partial_cmp_spec(&self, rhs: &u4hi) -> Option<Ordering> {
        order_of(self@, rhs@)
    }
}

impl PartialOrd<u4lo> for u4hi {
    fn partial_cmp(&self, rhs: &u4lo) -> (r: Option<Ordering>) {
        self.to_lo().partial_cmp(&rhs.to_lo())
    }
}

impl PartialOrdSpecImpl<u4lo> for u4hi {
    open spec fn obeys_partial_cmp_spec() -> bool {
        true
    }

    open spec fn partial_cmp_spec(&self, rhs: &u4lo) -> Option<Ordering> {
        order_of(self@, rhs@)
    }
}

impl PartialOrd<u8> for u4hi {
    fn partial_cmp(&self, rhs: &u8) -> (r: Option<Ordering>) {
        self.to_lo().partial_cmp(&*rhs)
    }
}

impl PartialOrdSpecImpl<u8> for u4hi {
    open spec fn obeys_partial_cmp_spec() -> bool {
        true
    }

    open spec fn partial_cmp_spec(&self, rhs: &u8) -> Option<Ordering> {
        order_of(self@, *rhs)
    }
}

impl PartialOrd<u4hi> for u4lo {
    fn partial_cmp(&self, rhs: &u4hi) -> (r: Option<Ordering>) {
        self.to_lo().partial_cmp(&rhs.to_lo())
    }
}

impl PartialOrdSpecImpl<u4hi> for u4lo {
    open spec fn obeys_partial_cmp_spec() -> bool {
        true
    }

    open spec fn partial_cmp_spec(&self, rhs: &u4hi) -> Option<Ordering> {
        order_of(self@, rhs@)
    }
}

impl PartialOrd<u4lo> for u4lo {
    fn partial_cmp(&self, rhs: &u4lo) -> (r: Option<Ordering>) {
        self.to_lo().partial_cmp(&rhs.to_lo())
    }
}

impl PartialOrdSpecImpl<u4lo> for u4lo {
    open spec fn obeys_partial_cmp_spec() -> bool {
        true
    }

    open spec fn partial_cmp_spec(&self, rhs: &u4lo) -> Option<Ordering> {
        order_of(self@, rhs@)
    }
}

impl PartialOrd<u8> for u4lo {
    fn partial_cmp(&self, rhs: &u8) -> (r: Option<Ordering>) {
        self.to_lo().partial_cmp(&*rhs)
    }
}

impl PartialOrdSpecImpl<u8> for u4lo {
    open spec fn obeys_partial_cmp_spec() -> bool {
        true
    }

    open spec fn partial_cmp_spec(&self, rhs: &u8) -> Option<Ordering> {
        order_of(self@, *rhs)
    }
}

impl PartialOrd<u4x2> for u4x2 {
    fn partial_cmp(&self, rhs: &u4x2) -> (r: Option<Ordering>) {
        self.byte().partial_cmp(&rhs.byte())
    }
}

impl PartialOrdSpecImpl<u4x2> for u4x2 {
    open spec fn obeys_partial_cmp_spec() -> bool {
        true
    }

    open spec fn partial_cmp_spec(&self, rhs: &u4x2) -> Option<Ordering> {
        order_of(self@, rhs@)
    }
}

impl PartialOrd<u8> for u4x2 {
    fn partial_cmp(&self, rhs: &u8) -> (r: Option<Ordering>) {
        self.byte().partial_cmp(&*rhs)
    }
}

impl PartialOrdSpecImpl<u8> for u4x2 {
    open spec fn obeys_partial_cmp_spec() -> bool {
        true
    }

    open spec fn partial_cmp_spec(&self, rhs: &u8) -> Option<Ordering> {
        order_of(self@, *rhs)
    }
}

/// Whether two nibbles stand for the same number. This is what `==` decides.
pub fn same_nibble<A: u4, B: u4>(lhs: &A, rhs: &B) -> (r: bool)
    ensures
        r == (lhs.value() == rhs.value()),
{
    lhs.to_lo() == rhs.to_lo()
}

} // verus!
