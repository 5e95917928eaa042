//! Equality and order of views.
//!
//! Two views are equal when they stand for the same nibbles, whatever bytes the
//! nibbles are packed in: a run of three nibbles that begins at a byte is equal
//! to the same three nibbles that begin in the middle of one. Views are ordered
//! as their nibbles are, the first nibble that differs deciding, and a view that
//! is the beginning of another coming before it.
use vstd::prelude::*;
use vstd::std_specs::cmp::{PartialEqSpecImpl, PartialOrdSpecImpl};
use core::cmp::Ordering;
use crate::base::u4;
use crate::common::{flatten, lemma_flatten_injective, nibble_count, nibbles_of};
use crate::iter::Nibbles;
use crate::pair::u4x2;
use crate::slice::{lemma_decompose_reassembles, left_of, middle_of, nibbles_in};
use crate::array::{NibArray, NibArrayEven, NibArrayOdd, NibArrayVec};
use crate::slice::{right_of, value_of, NibSlice, NibSliceAligned, NibSliceEven, NibSliceExt};
use crate::slice::{NibSliceFull, NibSliceNoBoth, NibSliceNoL, NibSliceNoR, NibSliceOdd};
use crate::slice::{NibSliceUnaligned, Sealed};
use crate::vec::NibVec;

verus! {

/// Two views of one shape stand for the same nibbles just when their three
/// parts are the same: the nibble at the left, the whole pairs in the middle,
/// and the nibble at the right.
pub proof fn lemma_same_parts(a: Seq<u4x2>, b: Seq<u4x2>, has_left_hi: bool, has_right_lo: bool)
    ensures
        nibbles_of(a, has_left_hi, has_right_lo) == nibbles_of(b, has_left_hi, has_right_lo) <==> {
            &&& left_of(a, has_left_hi, has_right_lo) == left_of(b, has_left_hi, has_right_lo)
            &&& middle_of(a, has_left_hi, has_right_lo) == middle_of(b, has_left_hi, has_right_lo)
            &&& right_of(a, has_left_hi, has_right_lo) == right_of(b, has_left_hi, has_right_lo)
        },
{
    lemma_decompose_reassembles(a, has_left_hi, has_right_lo);
    lemma_decompose_reassembles(b, has_left_hi, has_right_lo);
    let na = nibbles_of(a, has_left_hi, has_right_lo);
    let nb = nibbles_of(b, has_left_hi, has_right_lo);
    if na == nb {
        let ma = middle_of(a, has_left_hi, has_right_lo);
        let mb = middle_of(b, has_left_hi, has_right_lo);
        let count = nibble_count(a.len(), has_left_hi, has_right_lo);
        assert(na.len() == count);
        assert(nb.len() == nibble_count(b.len(), has_left_hi, has_right_lo));
        if count > 0 {
            let first: int = if has_left_hi { 0 } else { 1 };
            let last: int = if has_right_lo { 0 } else { 1 };
            assert(a.len() == b.len());
            assert(flatten(ma).len() == flatten(mb).len());
            assert forall|j: int| 0 <= j < flatten(ma).len() implies flatten(ma)[j] == flatten(
                mb,
            )[j] by {
                assert(ma[j / 2] == a[j / 2 + first]);
                assert(mb[j / 2] == b[j / 2 + first]);
                assert(na[j + first] == flatten(a)[j + 2 * first]);
                assert(nb[j + first] == flatten(b)[j + 2 * first]);
            }
            assert(flatten(ma) =~= flatten(mb));
            lemma_flatten_injective(ma, mb);
            if !has_left_hi {
                assert(na[0] == flatten(a)[1]);
                assert(nb[0] == flatten(b)[1]);
            }
            if !has_right_lo {
                assert(na[count - 1] == flatten(a)[2 * a.len() - 2]);
                assert(nb[count - 1] == flatten(b)[2 * b.len() - 2]);
            }
        }
    }
}

/// Whether two runs of pairs are the same, pair by pair.
pub fn pairs_eq(lhs: &[u4x2], rhs: &[u4x2]) -> (r: bool)
    ensures
        r == (lhs@ == rhs@),
{
    if lhs.len() != rhs.len() {
        return false;
    }
    let mut i: usize = 0;
    while i < lhs.len()
        invariant
            i <= lhs@.len(),
            lhs@.len() == rhs@.len(),
            forall|k: int| 0 <= k < i ==> lhs@[k] == rhs@[k],
        decreases lhs@.len() - i,
    {
        if lhs[i].byte() != rhs[i].byte() {
            proof {
                lhs@[i as int].lemma_view_is_all(rhs@[i as int]);
            }
            return false;
        }
        proof {
            lhs@[i as int].lemma_view_is_all(rhs@[i as int]);
        }
        i += 1;
    }
    assert(lhs@ =~= rhs@);
    true
}

/// Whether two nibbles that may be missing are the same: both missing, or both
/// there and of one value.
pub fn option_eq<A: u4, B: u4>(lhs: &Option<A>, rhs: &Option<B>) -> (r: bool)
    ensures
        r == (value_of(*lhs) == value_of(*rhs)),
{
    match (lhs, rhs) {
        (Some(a), Some(b)) => a.to_lo() == b.to_lo(),
        (None, None) => true,
        _ => false,
    }
}

/// Whether two iterators still hold the same nibbles. This compares nibble by
/// nibble and asks nothing of how the nibbles are packed.
pub fn nibbles_eq(lhs: Nibbles<'_>, rhs: Nibbles<'_>) -> (r: bool)
    ensures
        r == (lhs@ == rhs@),
{
    let mut left = lhs;
    let mut right = rhs;
    let ghost mut seen: int = 0;
    loop
        invariant
            0 <= seen <= lhs@.len(),
            seen <= rhs@.len(),
            left@ == lhs@.skip(seen),
            right@ == rhs@.skip(seen),
            lhs@.take(seen) == rhs@.take(seen),
        decreases lhs@.len() - seen,
    {
        let a = left.next();
        let b = right.next();
        match (a, b) {
            (None, None) => {
                proof {
                    assert(lhs@ =~= lhs@.take(seen));
                    assert(rhs@ =~= rhs@.take(seen));
                }
                return true;
            },
            (Some(a), Some(b)) => {
                proof {
                    assert(lhs@[seen] == lhs@.skip(seen)[0]);
                    assert(rhs@[seen] == rhs@.skip(seen)[0]);
                }
                if a.to_lo() != b.to_lo() {
                    return false;
                }
                proof {
                    assert(lhs@.skip(seen).drop_first() =~= lhs@.skip(seen + 1));
                    assert(rhs@.skip(seen).drop_first() =~= rhs@.skip(seen + 1));
                    assert(lhs@.take(seen + 1) =~= lhs@.take(seen).push(lhs@[seen]));
                    assert(rhs@.take(seen + 1) =~= rhs@.take(seen).push(rhs@[seen]));
                    seen = seen + 1;
                }
            },
            _ => {
                proof {
                    assert(lhs@.len() != rhs@.len());
                }
                return false;
            },
        }
    }
}

/// Whether two views stand for the same nibbles.
///
/// Views of one shape are compared part by part, byte for byte in the middle.
/// Views of different shapes pack the same nibbles in different bytes, so they
/// are compared nibble by nibble. Either way the answer is that of the nibbles.
pub fn eq<A: NibSliceExt, B: NibSliceExt>(lhs: &A, rhs: &B) -> (r: bool)
    ensures
        r == (nibbles_in(lhs) == nibbles_in(rhs)),
{
    let same_shape = lhs.has_left_hi() == rhs.has_left_hi() && lhs.has_right_lo()
        == rhs.has_right_lo();
    if same_shape {
        let (lhs_left, lhs_middle, lhs_right) = lhs.decompose();
        let (rhs_left, rhs_middle, rhs_right) = rhs.decompose();
        proof {
            lemma_same_parts(
                lhs.pairs(),
                rhs.pairs(),
                lhs.spec_has_left_hi(),
                lhs.spec_has_right_lo(),
            );
        }
        option_eq(&lhs_left, &rhs_left) && pairs_eq(lhs_middle, rhs_middle) && option_eq(
            &lhs_right,
            &rhs_right,
        )
    } else {
        nibbles_eq(lhs.nibbles(), rhs.nibbles())
    }
}

/// Whether two views differ in a nibble or in their length.
pub fn ne<A: NibSliceExt, B: NibSliceExt>(lhs: &A, rhs: &B) -> (r: bool)
    ensures
        r == (nibbles_in(lhs) != nibbles_in(rhs)),
{
    !eq(lhs, rhs)
}

/// Whether one run of nibbles comes before another: at the first place where
/// they differ the one has the lesser nibble, or the one ends there and the
/// other goes on.
pub open spec fn comes_before(lhs: Seq<u8>, rhs: Seq<u8>) -> bool
    decreases lhs.len(),
{
    if rhs.len() == 0 {
        false
    } else if lhs.len() == 0 {
        true
    } else if lhs[0] != rhs[0] {
        lhs[0] < rhs[0]
    } else {
        comes_before(lhs.drop_first(), rhs.drop_first())
    }
}

/// Of two runs of nibbles that differ, just one comes before the other, and no
/// run comes before itself.
pub proof fn lemma_comes_before(lhs: Seq<u8>, rhs: Seq<u8>)
    ensures
        lhs == rhs ==> !comes_before(lhs, rhs) && !comes_before(rhs, lhs),
        lhs != rhs ==> comes_before(lhs, rhs) != comes_before(rhs, lhs),
    decreases lhs.len(),
{
    if lhs.len() > 0 && rhs.len() > 0 && lhs[0] == rhs[0] {
        lemma_comes_before(lhs.drop_first(), rhs.drop_first());
        if lhs.drop_first() == rhs.drop_first() {
            assert(lhs =~= seq![lhs[0]] + lhs.drop_first());
            assert(rhs =~= seq![rhs[0]] + rhs.drop_first());
        }
    } else if lhs.len() == 0 && rhs.len() == 0 {
        assert(lhs =~= rhs);
    }
}

/// Whether the nibbles that one iterator still holds come before those of
/// another.
pub fn nibbles_lt(lhs: Nibbles<'_>, rhs: Nibbles<'_>) -> (r: bool)
    ensures
        r == comes_before(lhs@, rhs@),
{
    let mut left = lhs;
    let mut right = rhs;
    loop
        invariant
            comes_before(lhs@, rhs@) == comes_before(left@, right@),
        decreases left@.len(),
    {
        let a = left.next();
        let b = right.next();
        match (a, b) {
            (_, None) => {
                return false;
            },
            (None, Some(_)) => {
                return true;
            },
            (Some(a), Some(b)) => {
                if a.to_lo() != b.to_lo() {
                    return a.to_lo() < b.to_lo();
                }
            },
        }
    }
}

/// Whether one view comes before another.
pub fn lt<A: NibSliceExt, B: NibSliceExt>(lhs: &A, rhs: &B) -> (r: bool)
    ensures
        r == comes_before(nibbles_in(lhs), nibbles_in(rhs)),
{
    nibbles_lt(lhs.nibbles(), rhs.nibbles())
}

/// Whether one view comes after another.
pub fn gt<A: NibSliceExt, B: NibSliceExt>(lhs: &A, rhs: &B) -> (r: bool)
    ensures
        r == comes_before(nibbles_in(rhs), nibbles_in(lhs)),
{
    nibbles_lt(rhs.nibbles(), lhs.nibbles())
}

/// Whether one view comes before another or is equal to it.
pub fn le<A: NibSliceExt, B: NibSliceExt>(lhs: &A, rhs: &B) -> (r: bool)
    ensures
        r == !comes_before(nibbles_in(rhs), nibbles_in(lhs)),
        r == (comes_before(nibbles_in(lhs), nibbles_in(rhs)) || nibbles_in(lhs) == nibbles_in(
            rhs,
        )),
{
    proof {
        lemma_comes_before(nibbles_in(lhs), nibbles_in(rhs));
    }
    !gt(lhs, rhs)
}

/// Whether one view comes after another or is equal to it.
pub fn ge<A: NibSliceExt, B: NibSliceExt>(lhs: &A, rhs: &B) -> (r: bool)
    ensures
        r == !comes_before(nibbles_in(lhs), nibbles_in(rhs)),
        r == (comes_before(nibbles_in(rhs), nibbles_in(lhs)) || nibbles_in(lhs) == nibbles_in(
            rhs,
        )),
{
    proof {
        lemma_comes_before(nibbles_in(lhs), nibbles_in(rhs));
    }
    !lt(lhs, rhs)
}

/// How the nibbles of two views are ordered.
pub open spec fn order_of_nibbles(lhs: Seq<u8>, rhs: Seq<u8>) -> Ordering {
    if lhs == rhs {
        Ordering::Equal
    } else if comes_before(lhs, rhs) {
        Ordering::Less
    } else {
        Ordering::Greater
    }
}

/// How two views are ordered.
pub fn cmp<A: NibSliceExt, B: NibSliceExt>(lhs: &A, rhs: &B) -> (r: Ordering)
    ensures
        r == order_of_nibbles(nibbles_in(lhs), nibbles_in(rhs)),
{
    if eq(lhs, rhs) {
        Ordering::Equal
    } else if lt(lhs, rhs) {
        Ordering::Less
    } else {
        Ordering::Greater
    }
}

/// How two views are ordered. Any two views are.
pub fn partial_cmp<A: NibSliceExt, B: NibSliceExt>(lhs: &A, rhs: &B) -> (r: Option<Ordering>)
    ensures
        r == Some(order_of_nibbles(nibbles_in(lhs), nibbles_in(rhs))),
{
    Some(cmp(lhs, rhs))
}

impl<'a, Rhs: NibSliceExt> PartialEq<Rhs> for NibSliceFull<'a> {
    fn eq(&self, rhs: &Rhs) -> (r: bool) {
        self::eq(self, rhs)
    }
}

impl<'a, Rhs: NibSliceExt> PartialEqSpecImpl<Rhs> for NibSliceFull<'a> {
    open spec fn obeys_eq_spec() -> bool {
        true
    }

    open spec fn eq_spec(&self, rhs: &Rhs) -> bool {
        nibbles_in(self) == nibbles_in(rhs)
    }
}

impl<'a> Eq for NibSliceFull<'a> {

}

impl<'a, Rhs: NibSliceExt> PartialEq<Rhs> for NibSliceNoL<'a> {
    fn eq(&self, rhs: &Rhs) -> (r: bool) {
        self::eq(self, rhs)
    }
}

impl<'a, Rhs: NibSliceExt> PartialEqSpecImpl<Rhs> for NibSliceNoL<'a> {
    open spec fn obeys_eq_spec() -> bool {
        true
    }

    open spec fn eq_spec(&self, rhs: &Rhs) -> bool {
        nibbles_in(self) == nibbles_in(rhs)
    }
}

impl<'a> Eq for NibSliceNoL<'a> {

}

impl<'a, Rhs: NibSliceExt> PartialEq<Rhs> for NibSliceNoR<'a> {
    fn eq(&self, rhs: &Rhs) -> (r: bool) {
        self::eq(self, rhs)
    }
}

impl<'a, Rhs: NibSliceExt> PartialEqSpecImpl<Rhs> for NibSliceNoR<'a> {
    open spec fn obeys_eq_spec() -> bool {
        true
    }

    open spec fn eq_spec(&self, rhs: &Rhs) -> bool {
        nibbles_in(self) == nibbles_in(rhs)
    }
}

impl<'a> Eq for NibSliceNoR<'a> {

}

impl<'a, Rhs: NibSliceExt> PartialEq<Rhs> for NibSliceNoBoth<'a> {
    fn eq(&self, rhs: &Rhs) -> (r: bool) {
        self::eq(self, rhs)
    }
}

impl<'a, Rhs: NibSliceExt> PartialEqSpecImpl<Rhs> for NibSliceNoBoth<'a> {
    open spec fn obeys_eq_spec() -> bool {
        true
    }

    open spec fn eq_spec(&self, rhs: &Rhs) -> bool {
        nibbles_in(self) == nibbles_in(rhs)
    }
}

impl<'a> Eq for NibSliceNoBoth<'a> {

}

impl<'a, Rhs: NibSliceExt> PartialEq<Rhs> for NibSlice<'a> {
    fn eq(&self, rhs: &Rhs) -> (r: bool) {
        self::eq(self, rhs)
    }
}

impl<'a, Rhs: NibSliceExt> PartialEqSpecImpl<Rhs> for NibSlice<'a> {
    open spec fn obeys_eq_spec() -> bool {
        true
    }

    open spec fn eq_spec(&self, rhs: &Rhs) -> bool {
        nibbles_in(self) == nibbles_in(rhs)
    }
}

impl<'a> Eq for NibSlice<'a> {

}

impl<'a, Rhs: NibSliceExt> PartialEq<Rhs> for NibSliceAligned<'a> {
    fn eq(&self, rhs: &Rhs) -> (r: bool) {
        self::eq(self, rhs)
    }
}

impl<'a, Rhs: NibSliceExt> PartialEqSpecImpl<Rhs> for NibSliceAligned<'a> {
    open spec fn obeys_eq_spec() -> bool {
        true
    }

    open spec fn eq_spec(&self, rhs: &Rhs) -> bool {
        nibbles_in(self) == nibbles_in(rhs)
    }
}

impl<'a> Eq for NibSliceAligned<'a> {

}

impl<'a, Rhs: NibSliceExt> PartialEq<Rhs> for NibSliceUnaligned<'a> {
    fn eq(&self, rhs: &Rhs) -> (r: bool) {
        self::eq(self, rhs)
    }
}

impl<'a, Rhs: NibSliceExt> PartialEqSpecImpl<Rhs> for NibSliceUnaligned<'a> {
    open spec fn obeys_eq_spec() -> bool {
        true
    }

    open spec fn eq_spec(&self, rhs: &Rhs) -> bool {
        nibbles_in(self) == nibbles_in(rhs)
    }
}

impl<'a> Eq for NibSliceUnaligned<'a> {

}

impl<'a, Rhs: NibSliceExt> PartialEq<Rhs> for NibSliceEven<'a> {
    fn eq(&self, rhs: &Rhs) -> (r: bool) {
        self::eq(self, rhs)
    }
}

impl<'a, Rhs: NibSliceExt> PartialEqSpecImpl<Rhs> for NibSliceEven<'a> {
    open spec fn obeys_eq_spec() -> bool {
        true
    }

    open spec fn eq_spec(&self, rhs: &Rhs) -> bool {
        nibbles_in(self) == nibbles_in(rhs)
    }
}

impl<'a> Eq for NibSliceEven<'a> {

}

impl<'a, Rhs: NibSliceExt> PartialEq<Rhs> for NibSliceOdd<'a> {
    fn eq(&self, rhs: &Rhs) -> (r: bool) {
        self::eq(self, rhs)
    }
}

impl<'a, Rhs: NibSliceExt> PartialEqSpecImpl<Rhs> for NibSliceOdd<'a> {
    open spec fn obeys_eq_spec() -> bool {
        true
    }

    open spec fn eq_spec(&self, rhs: &Rhs) -> bool {
        nibbles_in(self) == nibbles_in(rhs)
    }
}

impl<'a> Eq for NibSliceOdd<'a> {

}

impl<Rhs: NibSliceExt> PartialEq<Rhs> for NibVec {
    fn eq(&self, rhs: &Rhs) -> (r: bool) {
        self::eq(self, rhs)
    }
}

impl<Rhs: NibSliceExt> PartialEqSpecImpl<Rhs> for NibVec {
    open spec fn obeys_eq_spec() -> bool {
        true
    }

    open spec fn eq_spec(&self, rhs: &Rhs) -> bool {
        nibbles_in(self) == nibbles_in(rhs)
    }
}

impl Eq for NibVec {

}

impl<const CAP: usize, Rhs: NibSliceExt> PartialEq<Rhs> for NibArrayVec<CAP> {
    fn eq(&self, rhs: &Rhs) -> (r: bool) {
        self::eq(self, rhs)
    }
}

impl<const CAP: usize, Rhs: NibSliceExt> PartialEqSpecImpl<Rhs> for NibArrayVec<CAP> {
    open spec fn obeys_eq_spec() -> bool {
        true
    }

    open spec fn eq_spec(&self, rhs: &Rhs) -> bool {
        nibbles_in(self) == nibbles_in(rhs)
    }
}

impl<const CAP: usize> Eq for NibArrayVec<CAP> {

}

impl<const CAP: usize, Rhs: NibSliceExt> PartialEq<Rhs> for NibArrayEven<CAP> {
    fn eq(&self, rhs: &Rhs) -> (r: bool) {
        self::eq(self, rhs)
    }
}

impl<const CAP: usize, Rhs: NibSliceExt> PartialEqSpecImpl<Rhs> for NibArrayEven<CAP> {
    open spec fn obeys_eq_spec() -> bool {
        true
    }

    open spec fn eq_spec(&self, rhs: &Rhs) -> bool {
        nibbles_in(self) == nibbles_in(rhs)
    }
}

impl<const CAP: usize> Eq for NibArrayEven<CAP> {

}

impl<const CAP: usize, Rhs: NibSliceExt> PartialEq<Rhs> for NibArrayOdd<CAP> {
    fn eq(&self, rhs: &Rhs) -> (r: bool) {
        self::eq(self, rhs)
    }
}

impl<const CAP: usize, Rhs: NibSliceExt> PartialEqSpecImpl<Rhs> for NibArrayOdd<CAP> {
    open spec fn obeys_eq_spec() -> bool {
        true
    }

    open spec fn eq_spec(&self, rhs: &Rhs) -> bool {
        nibbles_in(self) == nibbles_in(rhs)
    }
}

impl<const CAP: usize> Eq for NibArrayOdd<CAP> {

}

impl<const CAP: usize, Rhs: NibSliceExt> PartialEq<Rhs> for NibArray<CAP> {
    fn eq(&self, rhs: &Rhs) -> (r: bool) {
        self::eq(self, rhs)
    }
}

impl<const CAP: usize, Rhs: NibSliceExt> PartialEqSpecImpl<Rhs> for NibArray<CAP> {
    open spec fn obeys_eq_spec() -> bool {
        true
    }

    open spec fn eq_spec(&self, rhs: &Rhs) -> bool {
        nibbles_in(self) == nibbles_in(rhs)
    }
}

impl<const CAP: usize> Eq for NibArray<CAP> {

}

impl<'a, Rhs: NibSliceExt> PartialOrd<Rhs> for NibSliceFull<'a> {
    fn partial_cmp(&self, rhs: &Rhs) -> (r: Option<Ordering>) {
        self::partial_cmp(self, rhs)
    }
}

impl<'a, Rhs: NibSliceExt> PartialOrdSpecImpl<Rhs> for NibSliceFull<'a> {
    open spec fn obeys_partial_cmp_spec() -> bool {
        true
    }

    open spec fn partial_cmp_spec(&self, rhs: &Rhs) -> Option<Ordering> {
        Some(order_of_nibbles(nibbles_in(self), nibbles_in(rhs)))
    }
}

impl<'a, Rhs: NibSliceExt> PartialOrd<Rhs> for NibSliceNoL<'a> {
    fn partial_cmp(&self, rhs: &Rhs) -> (r: Option<Ordering>) {
        self::partial_cmp(self, rhs)
    }
}

impl<'a, Rhs: NibSliceExt> PartialOrdSpecImpl<Rhs> for NibSliceNoL<'a> {
    open spec fn obeys_partial_cmp_spec() -> bool {
        true
    }

    open spec fn partial_cmp_spec(&self, rhs: &Rhs) -> Option<Ordering> {
        Some(order_of_nibbles(nibbles_in(self), nibbles_in(rhs)))
    }
}

impl<'a, Rhs: NibSliceExt> PartialOrd<Rhs> for NibSliceNoR<'a> {
    fn partial_cmp(&self, rhs: &Rhs) -> (r: Option<Ordering>) {
        self::partial_cmp(self, rhs)
    }
}

impl<'a, Rhs: NibSliceExt> PartialOrdSpecImpl<Rhs> for NibSliceNoR<'a> {
    open spec fn obeys_partial_cmp_spec() -> bool {
        true
    }

    open spec fn partial_cmp_spec(&self, rhs: &Rhs) -> Option<Ordering> {
        Some(order_of_nibbles(nibbles_in(self), nibbles_in(rhs)))
    }
}

impl<'a, Rhs: NibSliceExt> PartialOrd<Rhs> for NibSliceNoBoth<'a> {
    fn partial_cmp(&self, rhs: &Rhs) -> (r: Option<Ordering>) {
        self::partial_cmp(self, rhs)
    }
}

impl<'a, Rhs: NibSliceExt> PartialOrdSpecImpl<Rhs> for NibSliceNoBoth<'a> {
    open spec fn obeys_partial_cmp_spec() -> bool {
        true
    }

    open spec fn partial_cmp_spec(&self, rhs: &Rhs) -> Option<Ordering> {
        Some(order_of_nibbles(nibbles_in(self), nibbles_in(rhs)))
    }
}

impl<'a, Rhs: NibSliceExt> PartialOrd<Rhs> for NibSlice<'a> {
    fn partial_cmp(&self, rhs: &Rhs) -> (r: Option<Ordering>) {
        self::partial_cmp(self, rhs)
    }
}

impl<'a, Rhs: NibSliceExt> PartialOrdSpecImpl<Rhs> for NibSlice<'a> {
    open spec fn obeys_partial_cmp_spec() -> bool {
        true
    }

    open spec fn partial_cmp_spec(&self, rhs: &Rhs) -> Option<Ordering> {
        Some(order_of_nibbles(nibbles_in(self), nibbles_in(rhs)))
    }
}

impl<'a, Rhs: NibSliceExt> PartialOrd<Rhs> for NibSliceAligned<'a> {
    fn partial_cmp(&self, rhs: &Rhs) -> (r: Option<Ordering>) {
        self::partial_cmp(self, rhs)
    }
}

impl<'a, Rhs: NibSliceExt> PartialOrdSpecImpl<Rhs> for NibSliceAligned<'a> {
    open spec fn obeys_partial_cmp_spec() -> bool {
        true
    }

    open spec fn partial_cmp_spec(&self, rhs: &Rhs) -> Option<Ordering> {
        Some(order_of_nibbles(nibbles_in(self), nibbles_in(rhs)))
    }
}

impl<'a, Rhs: NibSliceExt> PartialOrd<Rhs> for NibSliceUnaligned<'a> {
    fn partial_cmp(&self, rhs: &Rhs) -> (r: Option<Ordering>) {
        self::partial_cmp(self, rhs)
    }
}

impl<'a, Rhs: NibSliceExt> PartialOrdSpecImpl<Rhs> for NibSliceUnaligned<'a> {
    open spec fn obeys_partial_cmp_spec() -> bool {
        true
    }

    open spec fn partial_cmp_spec(&self, rhs: &Rhs) -> Option<Ordering> {
        Some(order_of_nibbles(nibbles_in(self), nibbles_in(rhs)))
    }
}

impl<'a, Rhs: NibSliceExt> PartialOrd<Rhs> for NibSliceEven<'a> {
    fn partial_cmp(&self, rhs: &Rhs) -> (r: Option<Ordering>) {
        self::partial_cmp(self, rhs)
    }
}

impl<'a, Rhs: NibSliceExt> PartialOrdSpecImpl<Rhs> for NibSliceEven<'a> {
    open spec fn obeys_partial_cmp_spec() -> bool {
        true
    }

    open spec fn partial_cmp_spec(&self, rhs: &Rhs) -> Option<Ordering> {
        Some(order_of_nibbles(nibbles_in(self), nibbles_in(rhs)))
    }
}

impl<'a, Rhs: NibSliceExt> PartialOrd<Rhs> for NibSliceOdd<'a> {
    fn partial_cmp(&self, rhs: &Rhs) -> (r: Option<Ordering>) {
        self::partial_cmp(self, rhs)
    }
}

impl<'a, Rhs: NibSliceExt> PartialOrdSpecImpl<Rhs> for NibSliceOdd<'a> {
    open spec fn obeys_partial_cmp_spec() -> bool {
        true
    }

    open spec fn partial_cmp_spec(&self, rhs: &Rhs) -> Option<Ordering> {
        Some(order_of_nibbles(nibbles_in(self), nibbles_in(rhs)))
    }
}

impl<Rhs: NibSliceExt> PartialOrd<Rhs> for NibVec {
    fn partial_cmp(&self, rhs: &Rhs) -> (r: Option<Ordering>) {
        self::partial_cmp(self, rhs)
    }
}

impl<Rhs: NibSliceExt> PartialOrdSpecImpl<Rhs> for NibVec {
    open spec fn obeys_partial_cmp_spec() -> bool {
        true
    }

    open spec fn partial_cmp_spec(&self, rhs: &Rhs) -> Option<Ordering> {
        Some(order_of_nibbles(nibbles_in(self), nibbles_in(rhs)))
    }
}

impl<const CAP: usize, Rhs: NibSliceExt> PartialOrd<Rhs> for NibArrayVec<CAP> {
    fn partial_cmp(&self, rhs: &Rhs) -> (r: Option<Ordering>) {
        self::partial_cmp(self, rhs)
    }
}

impl<const CAP: usize, Rhs: NibSliceExt> PartialOrdSpecImpl<Rhs> for NibArrayVec<CAP> {
    open spec fn obeys_partial_cmp_spec() -> bool {
        true
    }

    open spec fn partial_cmp_spec(&self, rhs: &Rhs) -> Option<Ordering> {
        Some(order_of_nibbles(nibbles_in(self), nibbles_in(rhs)))
    }
}

impl<const CAP: usize, Rhs: NibSliceExt> PartialOrd<Rhs> for NibArrayEven<CAP> {
    fn partial_cmp(&self, rhs: &Rhs) -> (r: Option<Ordering>) {
        self::partial_cmp(self, rhs)
    }
}

impl<const CAP: usize, Rhs: NibSliceExt> PartialOrdSpecImpl<Rhs> for NibArrayEven<CAP> {
    open spec fn obeys_partial_cmp_spec() -> bool {
        true
    }

    open spec fn partial_cmp_spec(&self, rhs: &Rhs) -> Option<Ordering> {
        Some(order_of_nibbles(nibbles_in(self), nibbles_in(rhs)))
    }
}

impl<const CAP: usize, Rhs: NibSliceExt> PartialOrd<Rhs> for NibArrayOdd<CAP> {
    fn partial_cmp(&self, rhs: &Rhs) -> (r: Option<Ordering>) {
        self::partial_cmp(self, rhs)
    }
}

impl<const CAP: usize, Rhs: NibSliceExt> PartialOrdSpecImpl<Rhs> for NibArrayOdd<CAP> {
    open spec fn obeys_partial_cmp_spec() -> bool {
        true
    }

    open spec fn partial_cmp_spec(&self, rhs: &Rhs) -> Option<Ordering> {
        Some(order_of_nibbles(nibbles_in(self), nibbles_in(rhs)))
    }
}

impl<const CAP: usize, Rhs: NibSliceExt> PartialOrd<Rhs> for NibArray<CAP> {
    fn partial_cmp(&self, rhs: &Rhs) -> (r: Option<Ordering>) {
        self::partial_cmp(self, rhs)
    }
}

impl<const CAP: usize, Rhs: NibSliceExt> PartialOrdSpecImpl<Rhs> for NibArray<CAP> {
    open spec fn obeys_partial_cmp_spec() -> bool {
        true
    }

    open spec fn partial_cmp_spec(&self, rhs: &Rhs) -> Option<Ordering> {
        Some(order_of_nibbles(nibbles_in(self), nibbles_in(rhs)))
    }
}

} // verus!
