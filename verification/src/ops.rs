//! Arithmetic and bit operators on nibbles.
//!
//! An operator on two nibbles of one kind gives a nibble of that kind. Its
//! result has to be a nibble: a sum of 16 or more, a difference below zero, a
//! division by zero and the like are left out by what the operator requires.
//! `|` on a high-order and a low-order nibble packs the two into a pair.
use vstd::prelude::*;
use vstd::std_specs::ops::{AddSpecImpl, BitAndSpecImpl, BitOrSpecImpl, BitXorSpecImpl};
use vstd::std_specs::ops::{DivSpecImpl, MulSpecImpl, NotSpecImpl, RemSpecImpl, ShlSpecImpl};
use vstd::std_specs::ops::{ShrSpecImpl, SubSpecImpl};
use core::ops::{Add, BitAnd, BitOr, BitXor, Div, Mul, Not, Rem, Shl, Shr, Sub};
use crate::base::{u4, u4hi, u4lo};
use crate::common::{join_nibs, lo_nib};
use crate::pair::u4x2;

verus! {

/// The bits of a nibble that are set in both of two nibbles.
pub open spec fn nib_and(a: u8, b: u8) -> u8 {
    a & b
}

/// The bits of a nibble that are set in either of two nibbles.
pub open spec fn nib_or(a: u8, b: u8) -> u8 {
    a | b
}

/// The bits of a nibble that are set in just one of two nibbles.
pub open spec fn nib_xor(a: u8, b: u8) -> u8 {
    a ^ b
}

/// The nibble with just the bits set that are clear in `a`.
pub open spec fn nib_not(a: u8) -> u8 {
    (15 - a) as u8
}

/// A nibble moved `by` bits towards the high end.
pub open spec fn nib_shl(a: u8, by: u8) -> u8 {
    a << by
}

/// A nibble moved `by` bits towards the low end.
pub open spec fn nib_shr(a: u8, by: u8) -> u8 {
    a >> by
}

/// Bit operators on nibbles give nibbles.
pub proof fn lemma_bit_ops(a: u8, b: u8)
    requires
        a < 16,
        b < 16,
    ensures
        nib_and(a, b) < 16,
        nib_or(a, b) < 16,
        nib_xor(a, b) < 16,
        nib_not(a) < 16,
        nib_not(a) == lo_nib(!a),
        nib_not(nib_not(a)) == a,
        forall|by: u8| by < 8 ==> #[trigger] nib_shr(a, by) < 16,
{
    assert(a < 16 && b < 16 ==> a & b < 16) by (bit_vector);
    assert(a < 16 && b < 16 ==> a | b < 16) by (bit_vector);
    assert(a < 16 && b < 16 ==> a ^ b < 16) by (bit_vector);
    assert(a < 16 ==> (15 - a) as u8 == (!a) % 16) by (bit_vector);
    assert forall|by: u8| by < 8 implies #[trigger] nib_shr(a, by) < 16 by {
        assert(a < 16 && by < 8 ==> a >> by < 16) by (bit_vector);
    }
}

impl Add<u4hi> for u4hi {
    type Output = u4hi;

    fn add(self, rhs: u4hi) -> (r: u4hi) {
        proof {
            self.lemma_value_range();
            rhs.lemma_value_range();
        }
        u4hi::new(self.to_lo() + rhs.to_lo())
    }
}

impl AddSpecImpl<u4hi> for u4hi {
    open spec fn obeys_add_spec() -> bool {
        true
    }

    open spec fn add_req(self, rhs: u4hi) -> bool {
        self@ + rhs@ < 16
    }

    open spec fn add_spec(self, rhs: u4hi) -> u4hi {
        u4hi::spec_new((self@ + rhs@) as u8)
    }
}

impl Sub<u4hi> for u4hi {
    type Output = u4hi;

    fn sub(self, rhs: u4hi) -> (r: u4hi) {
        proof {
            self.lemma_value_range();
            rhs.lemma_value_range();
        }
        u4hi::new(self.to_lo() - rhs.to_lo())
    }
}

impl SubSpecImpl<u4hi> for u4hi {
    open spec fn obeys_sub_spec() -> bool {
        true
    }

    open spec fn sub_req(self, rhs: u4hi) -> bool {
        self@ >= rhs@
    }

    open spec fn sub_spec(self, rhs: u4hi) -> u4hi {
        u4hi::spec_new((self@ - rhs@) as u8)
    }
}

impl Mul<u4hi> for u4hi {
    type Output = u4hi;

    fn mul(self, rhs: u4hi) -> (r: u4hi) {
        proof {
            self.lemma_value_range();
            rhs.lemma_value_range();
        }
        u4hi::new(self.to_lo() * rhs.to_lo())
    }
}

impl MulSpecImpl<u4hi> for u4hi {
    open spec fn obeys_mul_spec() -> bool {
        true
    }

    open spec fn mul_req(self, rhs: u4hi) -> bool {
        self@ * rhs@ < 16
    }

    open spec fn mul_spec(self, rhs: u4hi) -> u4hi {
        u4hi::spec_new((self@ * rhs@) as u8)
    }
}

impl Div<u4hi> for u4hi {
    type Output = u4hi;

    fn div(self, rhs: u4hi) -> (r: u4hi) {
        proof {
            self.lemma_value_range();
            rhs.lemma_value_range();
        }
        u4hi::new(self.to_lo() / rhs.to_lo())
    }
}

impl DivSpecImpl<u4hi> for u4hi {
    open spec fn obeys_div_spec() -> bool {
        true
    }

    open spec fn div_req(self, rhs: u4hi) -> bool {
        rhs@ != 0
    }

    open spec fn div_spec(self, rhs: u4hi) -> u4hi {
        u4hi::spec_new(self@ / rhs@)
    }
}

impl Rem<u4hi> for u4hi {
    type Output = u4hi;

    fn rem(self, rhs: u4hi) -> (r: u4hi) {
        proof {
            self.lemma_value_range();
            rhs.lemma_value_range();
        }
        u4hi::new(self.to_lo() % rhs.to_lo())
    }
}

impl RemSpecImpl<u4hi> for u4hi {
    open spec fn obeys_rem_spec() -> bool {
        true
    }

    open spec fn rem_req(self, rhs: u4hi) -> bool {
        rhs@ != 0
    }

    open spec fn rem_spec(self, rhs: u4hi) -> u4hi {
        u4hi::spec_new(self@ % rhs@)
    }
}

impl BitAnd<u4hi> for u4hi {
    type Output = u4hi;

    fn bitand(self, rhs: u4hi) -> (r: u4hi) {
        proof {
            self.lemma_value_range();
            rhs.lemma_value_range();
            lemma_bit_ops(self@, rhs@);
        }
        u4hi::new(self.to_lo() & rhs.to_lo())
    }
}

impl BitAndSpecImpl<u4hi> for u4hi {
    open spec fn obeys_bitand_spec() -> bool {
        true
    }

    open spec fn bitand_req(self, rhs: u4hi) -> bool {
        true
    }

    open spec fn bitand_spec(self, rhs: u4hi) -> u4hi {
        u4hi::spec_new(nib_and(self@, rhs@))
    }
}

impl BitOr<u4hi> for u4hi {
    type Output = u4hi;

    fn bitor(self, rhs: u4hi) -> (r: u4hi) {
        proof {
            self.lemma_value_range();
            rhs.lemma_value_range();
            lemma_bit_ops(self@, rhs@);
        }
        u4hi::new(self.to_lo() | rhs.to_lo())
    }
}

impl BitOrSpecImpl<u4hi> for u4hi {
    open spec fn obeys_bitor_spec() -> bool {
        true
    }

    open spec fn bitor_req(self, rhs: u4hi) -> bool {
        true
    }

    open spec fn bitor_spec(self, rhs: u4hi) -> u4hi {
        u4hi::spec_new(nib_or(self@, rhs@))
    }
}

impl BitXor<u4hi> for u4hi {
    type Output = u4hi;

    fn bitxor(self, rhs: u4hi) -> (r: u4hi) {
        proof {
            self.lemma_value_range();
            rhs.lemma_value_range();
            lemma_bit_ops(self@, rhs@);
        }
        u4hi::new(self.to_lo() ^ rhs.to_lo())
    }
}

impl BitXorSpecImpl<u4hi> for u4hi {
    open spec fn obeys_bitxor_spec() -> bool {
        true
    }

    open spec fn bitxor_req(self, rhs: u4hi) -> bool {
        true
    }

    open spec fn bitxor_spec(self, rhs: u4hi) -> u4hi {
        u4hi::spec_new(nib_xor(self@, rhs@))
    }
}

impl Not for u4hi {
    type Output = u4hi;

    fn not(self) -> (r: u4hi) {
        proof {
            self.lemma_value_range();
        }
        u4hi::new(15 - self.to_lo())
    }
}

impl NotSpecImpl for u4hi {
    open spec fn obeys_not_spec() -> bool {
        true
    }

    open spec fn not_req(self) -> bool {
        true
    }

    open spec fn not_spec(self) -> u4hi {
        u4hi::spec_new(nib_not(self@))
    }
}

impl Shl<u8> for u4hi {
    type Output = u4hi;

    fn shl(self, rhs: u8) -> (r: u4hi) {
        proof {
            self.lemma_value_range();
        }
        u4hi::new(self.to_lo() << rhs)
    }
}

impl ShlSpecImpl<u8> for u4hi {
    open spec fn obeys_shl_spec() -> bool {
        true
    }

    open spec fn shl_req(self, rhs: u8) -> bool {
        rhs < 8 && nib_shl(self@, rhs) < 16
    }

    open spec fn shl_spec(self, rhs: u8) -> u4hi {
        u4hi::spec_new(nib_shl(self@, rhs))
    }
}

impl Shr<u8> for u4hi {
    type Output = u4hi;

    fn shr(self, rhs: u8) -> (r: u4hi) {
        proof {
            self.lemma_value_range();
            lemma_bit_ops(self@, 0);
        }
        u4hi::new(self.to_lo() >> rhs)
    }
}

impl ShrSpecImpl<u8> for u4hi {
    open spec fn obeys_shr_spec() -> bool {
        true
    }

    open spec fn shr_req(self, rhs: u8) -> bool {
        rhs < 8
    }

    open spec fn shr_spec(self, rhs: u8) -> u4hi {
        u4hi::spec_new(nib_shr(self@, rhs))
    }
}

impl Add<u4lo> for u4lo {
    type Output = u4lo;

    fn add(self, rhs: u4lo) -> (r: u4lo) {
        proof {
            self.lemma_value_range();
            rhs.lemma_value_range();
        }
        u4lo::new(self.to_lo() + rhs.to_lo())
    }
}

impl AddSpecImpl<u4lo> for u4lo {
    open spec fn obeys_add_spec() -> bool {
        true
    }

    open spec fn add_req(self, rhs: u4lo) -> bool {
        self@ + rhs@ < 16
    }

    open spec fn add_spec(self, rhs: u4lo) -> u4lo {
        u4lo::spec_new((self@ + rhs@) as u8)
    }
}

impl Sub<u4lo> for u4lo {
    type Output = u4lo;

    fn sub(self, rhs: u4lo) -> (r: u4lo) {
        proof {
            self.lemma_value_range();
            rhs.lemma_value_range();
        }
        u4lo::new(self.to_lo() - rhs.to_lo())
    }
}

impl SubSpecImpl<u4lo> for u4lo {
    open spec fn obeys_sub_spec() -> bool {
        true
    }

    open spec fn sub_req(self, rhs: u4lo) -> bool {
        self@ >= rhs@
    }

    open spec fn sub_spec(self, rhs: u4lo) -> u4lo {
        u4lo::spec_new((self@ - rhs@) as u8)
    }
}

impl Mul<u4lo> for u4lo {
    type Output = u4lo;

    fn mul(self, rhs: u4lo) -> (r: u4lo) {
        proof {
            self.lemma_value_range();
            rhs.lemma_value_range();
        }
        u4lo::new(self.to_lo() * rhs.to_lo())
    }
}

impl MulSpecImpl<u4lo> for u4lo {
    open spec fn obeys_mul_spec() -> bool {
        true
    }

    open spec fn mul_req(self, rhs: u4lo) -> bool {
        self@ * rhs@ < 16
    }

    open spec fn mul_spec(self, rhs: u4lo) -> u4lo {
        u4lo::spec_new((self@ * rhs@) as u8)
    }
}

impl Div<u4lo> for u4lo {
    type Output = u4lo;

    fn div(self, rhs: u4lo) -> (r: u4lo) {
        proof {
            self.lemma_value_range();
            rhs.lemma_value_range();
        }
        u4lo::new(self.to_lo() / rhs.to_lo())
    }
}

impl DivSpecImpl<u4lo> for u4lo {
    open spec fn obeys_div_spec() -> bool {
        true
    }

    open spec fn div_req(self, rhs: u4lo) -> bool {
        rhs@ != 0
    }

    open spec fn div_spec(self, rhs: u4lo) -> u4lo {
        u4lo::spec_new(self@ / rhs@)
    }
}

impl Rem<u4lo> for u4lo {
    type Output = u4lo;

    fn rem(self, rhs: u4lo) -> (r: u4lo) {
        proof {
            self.lemma_value_range();
            rhs.lemma_value_range();
        }
        u4lo::new(self.to_lo() % rhs.to_lo())
    }
}

impl RemSpecImpl<u4lo> for u4lo {
    open spec fn obeys_rem_spec() -> bool {
        true
    }

    open spec fn rem_req(self, rhs: u4lo) -> bool {
        rhs@ != 0
    }

    open spec fn rem_spec(self, rhs: u4lo) -> u4lo {
        u4lo::spec_new(self@ % rhs@)
    }
}

impl BitAnd<u4lo> for u4lo {
    type Output = u4lo;

    fn bitand(self, rhs: u4lo) -> (r: u4lo) {
        proof {
            self.lemma_value_range();
            rhs.lemma_value_range();
            lemma_bit_ops(self@, rhs@);
        }
        u4lo::new(self.to_lo() & rhs.to_lo())
    }
}

impl BitAndSpecImpl<u4lo> for u4lo {
    open spec fn obeys_bitand_spec() -> bool {
        true
    }

    open spec fn bitand_req(self, rhs: u4lo) -> bool {
        true
    }

    open spec fn bitand_spec(self, rhs: u4lo) -> u4lo {
        u4lo::spec_new(nib_and(self@, rhs@))
    }
}

impl BitOr<u4lo> for u4lo {
    type Output = u4lo;

    fn bitor(self, rhs: u4lo) -> (r: u4lo) {
        proof {
            self.lemma_value_range();
            rhs.lemma_value_range();
            lemma_bit_ops(self@, rhs@);
        }
        u4lo::new(self.to_lo() | rhs.to_lo())
    }
}

impl BitOrSpecImpl<u4lo> for u4lo {
    open spec fn obeys_bitor_spec() -> bool {
        true
    }

    open spec fn bitor_req(self, rhs: u4lo) -> bool {
        true
    }

    open spec fn bitor_spec(self, rhs: u4lo) -> u4lo {
        u4lo::spec_new(nib_or(self@, rhs@))
    }
}

impl BitXor<u4lo> for u4lo {
    type Output = u4lo;

    fn bitxor(self, rhs: u4lo) -> (r: u4lo) {
        proof {
            self.lemma_value_range();
            rhs.lemma_value_range();
            lemma_bit_ops(self@, rhs@);
        }
        u4lo::new(self.to_lo() ^ rhs.to_lo())
    }
}

impl BitXorSpecImpl<u4lo> for u4lo {
    open spec fn obeys_bitxor_spec() -> bool {
        true
    }

    open spec fn bitxor_req(self, rhs: u4lo) -> bool {
        true
    }

    open spec fn bitxor_spec(self, rhs: u4lo) -> u4lo {
        u4lo::spec_new(nib_xor(self@, rhs@))
    }
}

impl Not for u4lo {
    type Output = u4lo;

    fn not(self) -> (r: u4lo) {
        proof {
            self.lemma_value_range();
        }
        u4lo::new(15 - self.to_lo())
    }
}

impl NotSpecImpl for u4lo {
    open spec fn obeys_not_spec() -> bool {
        true
    }

    open spec fn not_req(self) -> bool {
        true
    }

    open spec fn not_spec(self) -> u4lo {
        u4lo::spec_new(nib_not(self@))
    }
}

impl Shl<u8> for u4lo {
    type Output = u4lo;

    fn shl(self, rhs: u8) -> (r: u4lo) {
        proof {
            self.lemma_value_range();
        }
        u4lo::new(self.to_lo() << rhs)
    }
}

impl ShlSpecImpl<u8> for u4lo {
    open spec fn obeys_shl_spec() -> bool {
        true
    }

    open spec fn shl_req(self, rhs: u8) -> bool {
        rhs < 8 && nib_shl(self@, rhs) < 16
    }

    open spec fn shl_spec(self, rhs: u8) -> u4lo {
        u4lo::spec_new(nib_shl(self@, rhs))
    }
}

impl Shr<u8> for u4lo {
    type Output = u4lo;

    fn shr(self, rhs: u8) -> (r: u4lo) {
        proof {
            self.lemma_value_range();
            lemma_bit_ops(self@, 0);
        }
        u4lo::new(self.to_lo() >> rhs)
    }
}

impl ShrSpecImpl<u8> for u4lo {
    open spec fn obeys_shr_spec() -> bool {
        true
    }

    open spec fn shr_req(self, rhs: u8) -> bool {
        rhs < 8
    }

    open spec fn shr_spec(self, rhs: u8) -> u4lo {
        u4lo::spec_new(nib_shr(self@, rhs))
    }
}

impl BitOr<u4lo> for u4hi {
    type Output = u4x2;

    fn bitor(self, rhs: u4lo) -> (r: u4x2) {
        let r = u4x2::from_both(self, rhs);
        proof {
            r.lemma_view_is_all(r);
        }
        r
    }
}

impl BitOrSpecImpl<u4lo> for u4hi {
    open spec fn obeys_bitor_spec() -> bool {
        true
    }

    open spec fn bitor_req(self, rhs: u4lo) -> bool {
        true
    }

    open spec fn bitor_spec(self, rhs: u4lo) -> u4x2 {
        u4x2::spec_from_byte(join_nibs(self@, rhs@))
    }
}

impl BitOr<u4hi> for u4lo {
    type Output = u4x2;

    fn bitor(self, rhs: u4hi) -> (r: u4x2) {
        let r = u4x2::from_both(rhs, self);
        proof {
            r.lemma_view_is_all(r);
        }
        r
    }
}

impl BitOrSpecImpl<u4hi> for u4lo {
    open spec fn obeys_bitor_spec() -> bool {
        true
    }

    open spec fn bitor_req(self, rhs: u4hi) -> bool {
        true
    }

    open spec fn bitor_spec(self, rhs: u4hi) -> u4x2 {
        u4x2::spec_from_byte(join_nibs(rhs@, self@))
    }
}

} // verus!
