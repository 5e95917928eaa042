//! Views over runs of packed nibbles.
//!
//! A view is a run of pairs together with two facts: whether the high half of
//! its first pair belongs to it, and whether the low half of its last pair does.
//! That gives four shapes, each with a type of its own, and enums that gather
//! the shapes by what they share.
use vstd::prelude::*;
use core::cell::Cell;
use vstd::std_specs::convert::FromSpecImpl;
use crate::base::{u4, u4hi, u4lo};
use crate::common::{flatten, get_nib, hi_nib, lo_nib, nibble_at, nibble_count, nibbles_of};
use crate::iter::{NibblePairs, NibblePairsMut, Nibbles, NibblesMut};
use crate::pair::{halves_of, u4x2, Half, U4Cell, U4HalfCell, U4HiCell, U4LoCell};

verus! {

/// What every view is made of: its two alignment flags and its pairs.
pub trait Sealed: Sized {
    /// Whether the high half of the first pair belongs to the view.
    spec fn spec_has_left_hi(&self) -> bool;

    /// Whether the low half of the last pair belongs to the view.
    spec fn spec_has_right_lo(&self) -> bool;

    /// The pairs that the view runs over, the halves that are left out included.
    spec fn pairs(&self) -> Seq<u4x2>;

    /// Whether the high half of the first pair belongs to the view.
    fn has_left_hi(&self) -> (r: bool)
        ensures
            r == self.spec_has_left_hi(),
    ;

    /// Whether the low half of the last pair belongs to the view.
    fn has_right_lo(&self) -> (r: bool)
        ensures
            r == self.spec_has_right_lo(),
    ;

    /// Iterator over the pairs that the view runs over.
    fn iter(&self) -> (r: NibblePairs<'_>)
        ensures
            r@ == self.pairs(),
    ;
}

/// The nibbles that a view stands for, in order.
pub open spec fn nibbles_in<S: Sealed>(view: &S) -> Seq<u8> {
    nibbles_of(view.pairs(), view.spec_has_left_hi(), view.spec_has_right_lo())
}

/// The nibble that a view holds from the low half of its first pair, where the
/// high half of that pair is left out and the view is not empty.
pub open spec fn left_of(pairs: Seq<u4x2>, has_left_hi: bool, has_right_lo: bool) -> Option<u8> {
    if !has_left_hi && nibble_count(pairs.len(), has_left_hi, has_right_lo) > 0 {
        Some(lo_nib(pairs.first()@))
    } else {
        None
    }
}

/// The nibble that a view holds from the high half of its last pair, where the
/// low half of that pair is left out and the view is not empty.
pub open spec fn right_of(pairs: Seq<u4x2>, has_left_hi: bool, has_right_lo: bool) -> Option<u8> {
    if !has_right_lo && nibble_count(pairs.len(), has_left_hi, has_right_lo) > 0 {
        Some(hi_nib(pairs.last()@))
    } else {
        None
    }
}

/// The pairs of a view that belong to it with both halves.
pub open spec fn middle_of<T>(pairs: Seq<T>, has_left_hi: bool, has_right_lo: bool) -> Seq<T> {
    if nibble_count(pairs.len(), has_left_hi, has_right_lo) == 0 {
        Seq::empty()
    } else {
        pairs.subrange(
            if has_left_hi { 0 } else { 1 },
            pairs.len() - if has_right_lo { 0int } else { 1int },
        )
    }
}

/// The value of a nibble that may be missing.
pub open spec fn value_of<T: u4>(nib: Option<T>) -> Option<u8> {
    match nib {
        Some(nib) => Some(nib.value()),
        None => None,
    }
}

/// The nibbles that the three parts of a decomposed view stand for together.
pub open spec fn reassemble(left: Option<u8>, middle: Seq<u4x2>, right: Option<u8>) -> Seq<u8> {
    let left = match left {
        Some(nib) => seq![nib],
        None => Seq::empty(),
    };
    let right = match right {
        Some(nib) => seq![nib],
        None => Seq::empty(),
    };
    left + flatten(middle) + right
}

/// Taking a view apart and putting the parts together again gives the nibbles
/// of the view, for each of the four shapes and for any number of pairs: the
/// view of one pair without both of its outer halves holds no nibble.
pub proof fn lemma_decompose_reassembles(pairs: Seq<u4x2>, has_left_hi: bool, has_right_lo: bool)
    ensures
        reassemble(
            left_of(pairs, has_left_hi, has_right_lo),
            middle_of(pairs, has_left_hi, has_right_lo),
            right_of(pairs, has_left_hi, has_right_lo),
        ) == nibbles_of(pairs, has_left_hi, has_right_lo),
        pairs.len() == 1 && !has_left_hi && !has_right_lo ==> nibbles_of(
            pairs,
            has_left_hi,
            has_right_lo,
        ) == Seq::<u8>::empty() && left_of(pairs, has_left_hi, has_right_lo).is_none() && right_of(
            pairs,
            has_left_hi,
            has_right_lo,
        ).is_none() && middle_of(pairs, has_left_hi, has_right_lo) == Seq::<u4x2>::empty(),
{
    let middle = middle_of(pairs, has_left_hi, has_right_lo);
    let got = reassemble(
        left_of(pairs, has_left_hi, has_right_lo),
        middle,
        right_of(pairs, has_left_hi, has_right_lo),
    );
    let want = nibbles_of(pairs, has_left_hi, has_right_lo);
    let first: int = if has_left_hi { 0 } else { 1 };
    if nibble_count(pairs.len(), has_left_hi, has_right_lo) > 0 {
        assert(got.len() == want.len());
        assert forall|j: int| 0 <= j < want.len() implies got[j] == want[j] by {
            let at = j + first;
            assert(want[j] == nibble_at(pairs, at));
            if !has_left_hi && j == 0 {
            } else if !has_right_lo && j == want.len() - 1 {
            } else {
                let k = j - first;
                assert(got[j] == flatten(middle)[k]);
                assert(middle[k / 2] == pairs[k / 2 + first]);
            }
        }
    }
    assert(got =~= want);
}

/// A slice of nibbles: what can be asked of every view.
pub trait NibSliceExt: Sealed {
    /// Iterator over the nibble pairs in this slice.
    ///
    /// This may include nibbles that are omitted.
    fn nibble_pairs(&self) -> (r: NibblePairs<'_>)
        ensures
            r@ == self.pairs(),
    {
        self.iter()
    }

    /// Iterator over nibbles in a slice.
    fn nibbles(&self) -> (r: Nibbles<'_>)
        ensures
            r@ == nibbles_in(self),
    {
        let has_left_hi = self.has_left_hi();
        let has_right_lo = self.has_right_lo();
        Nibbles::new(self.nibble_pairs(), has_left_hi, has_right_lo)
    }

    /// Decomposes this slice into its parts: the low nibble of the first pair
    /// where its high nibble is left out, the pairs that belong to the slice
    /// whole, and the high nibble of the last pair where its low nibble is left
    /// out. Put together in that order they are the nibbles of the slice.
    fn decompose(&self) -> (r: (Option<u4lo>, &[u4x2], Option<u4hi>))
        ensures
            value_of(r.0) == left_of(self.pairs(), self.spec_has_left_hi(), self.spec_has_right_lo()),
            r.1@ == middle_of(self.pairs(), self.spec_has_left_hi(), self.spec_has_right_lo()),
            value_of(r.2) == right_of(
                self.pairs(),
                self.spec_has_left_hi(),
                self.spec_has_right_lo(),
            ),
            reassemble(value_of(r.0), r.1@, value_of(r.2)) == nibbles_in(self),
    {
        let has_left_hi = self.has_left_hi();
        let has_right_lo = self.has_right_lo();
        let slice = self.nibble_pairs().as_slice();
        let len: usize = slice.len();
        proof {
            lemma_decompose_reassembles(self.pairs(), has_left_hi, has_right_lo);
        }
        if len == 0 {
            assert(slice@ =~= Seq::<u4x2>::empty());
            (None, slice, None)
        } else if len == 1 && !has_left_hi && !has_right_lo {
            (None, &slice[1..1], None)
        } else {
            let left: Option<u4lo> = if has_left_hi {
                None
            } else {
                Some(slice[0].lo())
            };
            let start: usize = if has_left_hi { 0 } else { 1 };
            let right: Option<u4hi> = if has_right_lo {
                None
            } else {
                Some(slice[len - 1].hi())
            };
            let end: usize = if has_right_lo { len } else { len - 1 };
            (left, &slice[start..end], right)
        }
    }

    /// Gets a nibble at the given index.
    ///
    /// Where the high half of the first pair is left out, the nibble at index 0
    /// is the low half of that pair, and so on.
    fn get(&self, idx: usize) -> (r: u4lo)
        requires
            idx < nibbles_in(self).len(),
        ensures
            r@ == nibbles_in(self)[idx as int],
    {
        let slice = self.nibble_pairs().as_slice();
        if self.has_left_hi() {
            get_nib(slice, idx)
        } else if idx % 2 == 0 {
            slice[idx / 2].lo()
        } else {
            slice[idx / 2 + 1].hi().to_u4lo()
        }
    }

    /// Gets the length of the slice: the number of nibbles that belong to it.
    fn len(&self) -> (r: usize)
        requires
            2 * self.pairs().len() <= usize::MAX,
        ensures
            r == nibbles_in(self).len(),
            r == nibble_count(
                self.pairs().len(),
                self.spec_has_left_hi(),
                self.spec_has_right_lo(),
            ),
    {
        let left_out: usize = if self.has_left_hi() { 0 } else { 1 };
        let right_out: usize = if self.has_right_lo() { 0 } else { 1 };
        let all: usize = self.nibble_pairs().len() * 2;
        if all >= left_out + right_out {
            all - left_out - right_out
        } else {
            0
        }
    }

    /// Checks if the slice is empty, that is, if no nibble belongs to it.
    fn is_empty(&self) -> (r: bool)
        ensures
            r == (nibbles_in(self).len() == 0),
    {
        let pairs: usize = self.nibble_pairs().len();
        pairs == 0 || (pairs == 1 && !self.has_left_hi() && !self.has_right_lo())
    }

    /// Converts this slice into a `NibSlice`: the same pairs under the tag that
    /// says which of the outer halves belong to them.
    fn into_generic(&self) -> (r: NibSlice<'_>)
        ensures
            r.pairs() == self.pairs(),
            r.spec_has_left_hi() == self.spec_has_left_hi(),
            r.spec_has_right_lo() == self.spec_has_right_lo(),
    {
        if self.has_left_hi() {
            if self.has_right_lo() {
                NibSlice::Full(NibSliceFull::from_slice(self.iter().as_slice()))
            } else {
                NibSlice::NoR(NibSliceNoR::from_slice(self.iter().as_slice()))
            }
        } else {
            if self.has_right_lo() {
                NibSlice::NoL(NibSliceNoL::from_slice(self.iter().as_slice()))
            } else {
                NibSlice::NoBoth(NibSliceNoBoth::from_slice(self.iter().as_slice()))
            }
        }
    }

    /// Checks whether this slice is aligned to a byte boundary.
    fn is_aligned(&self) -> (r: bool)
        ensures
            r == self.spec_has_left_hi(),
    {
        self.has_left_hi()
    }

    /// Checks whether this slice has an even number of nibbles.
    fn is_even(&self) -> (r: bool)
        ensures
            r == (self.spec_has_left_hi() == self.spec_has_right_lo()),
            self.pairs().len() > 0 ==> r == (nibbles_in(self).len() % 2 == 0),
    {
        self.has_left_hi() == self.has_right_lo()
    }

    /// Checks whether this slice has an odd number of nibbles.
    fn is_odd(&self) -> (r: bool)
        ensures
            r == (self.spec_has_left_hi() != self.spec_has_right_lo()),
            self.pairs().len() > 0 ==> r == (nibbles_in(self).len() % 2 == 1),
    {
        self.has_left_hi() != self.has_right_lo()
    }
}

/// Nibble slice which only contains complete pairs.
#[derive(Clone, Copy)]
pub struct NibSliceFull<'a> {
    inner: &'a [u4x2],
}

impl<'a> NibSliceFull<'a> {
    /// The view of all the nibbles of `slice`.
    pub fn from_slice(slice: &'a [u4x2]) -> (r: Self)
        ensures
            r.pairs() == slice@,
    {
        NibSliceFull { inner: slice }
    }
}

impl<'a> Sealed for NibSliceFull<'a> {
    open spec fn spec_has_left_hi(&self) -> bool {
        true
    }

    open spec fn spec_has_right_lo(&self) -> bool {
        true
    }

    closed spec fn pairs(&self) -> Seq<u4x2> {
        self.inner@
    }

    #[inline(always)]
    fn has_left_hi(&self) -> (r: bool) {
        true
    }

    #[inline(always)]
    fn has_right_lo(&self) -> (r: bool) {
        true
    }

    #[inline(always)]
    fn iter(&self) -> (r: NibblePairs<'_>) {
        NibblePairs::new(self.inner)
    }
}

impl<'a> NibSliceExt for NibSliceFull<'a> {

}

/// Nibble slice which is missing the rightmost, low-order nibble.
#[derive(Clone, Copy)]
pub struct NibSliceNoR<'a> {
    inner: &'a [u4x2],
}

impl<'a> NibSliceNoR<'a> {
    /// The view of the nibbles of `slice` but the last.
    pub fn from_slice(slice: &'a [u4x2]) -> (r: Self)
        ensures
            r.pairs() == slice@,
    {
        NibSliceNoR { inner: slice }
    }
}

impl<'a> Sealed for NibSliceNoR<'a> {
    open spec fn spec_has_left_hi(&self) -> bool {
        true
    }

    open spec fn spec_has_right_lo(&self) -> bool {
        false
    }

    closed spec fn pairs(&self) -> Seq<u4x2> {
        self.inner@
    }

    #[inline(always)]
    fn has_left_hi(&self) -> (r: bool) {
        true
    }

    #[inline(always)]
    fn has_right_lo(&self) -> (r: bool) {
        false
    }

    #[inline(always)]
    fn iter(&self) -> (r: NibblePairs<'_>) {
        NibblePairs::new(self.inner)
    }
}

impl<'a> NibSliceExt for NibSliceNoR<'a> {

}

/// Nibble slice which is missing the leftmost, high-order nibble.
#[derive(Clone, Copy)]
pub struct NibSliceNoL<'a> {
    inner: &'a [u4x2],
}

impl<'a> NibSliceNoL<'a> {
    /// The view of the nibbles of `slice` but the first.
    pub fn from_slice(slice: &'a [u4x2]) -> (r: Self)
        ensures
            r.pairs() == slice@,
    {
        NibSliceNoL { inner: slice }
    }
}

impl<'a> Sealed for NibSliceNoL<'a> {
    open spec fn spec_has_left_hi(&self) -> bool {
        false
    }

    open spec fn spec_has_right_lo(&self) -> bool {
        true
    }

    closed spec fn pairs(&self) -> Seq<u4x2> {
        self.inner@
    }

    #[inline(always)]
    fn has_left_hi(&self) -> (r: bool) {
        false
    }

    #[inline(always)]
    fn has_right_lo(&self) -> (r: bool) {
        true
    }

    #[inline(always)]
    fn iter(&self) -> (r: NibblePairs<'_>) {
        NibblePairs::new(self.inner)
    }
}

impl<'a> NibSliceExt for NibSliceNoL<'a> {

}

/// Nibble slice which is missing the leftmost, high-order and the rightmost,
/// low-order nibbles.
#[derive(Clone, Copy)]
pub struct NibSliceNoBoth<'a> {
    inner: &'a [u4x2],
}

impl<'a> NibSliceNoBoth<'a> {
    /// The view of the nibbles of `slice` but the first and the last.
    pub fn from_slice(slice: &'a [u4x2]) -> (r: Self)
        ensures
            r.pairs() == slice@,
    {
        NibSliceNoBoth { inner: slice }
    }
}

impl<'a> Sealed for NibSliceNoBoth<'a> {
    open spec fn spec_has_left_hi(&self) -> bool {
        false
    }

    open spec fn spec_has_right_lo(&self) -> bool {
        false
    }

    closed spec fn pairs(&self) -> Seq<u4x2> {
        self.inner@
    }

    #[inline(always)]
    fn has_left_hi(&self) -> (r: bool) {
        false
    }

    #[inline(always)]
    fn has_right_lo(&self) -> (r: bool) {
        false
    }

    #[inline(always)]
    fn iter(&self) -> (r: NibblePairs<'_>) {
        NibblePairs::new(self.inner)
    }
}

impl<'a> NibSliceExt for NibSliceNoBoth<'a> {

}

/// Reference to a nibble slice.
#[derive(Clone, Copy)]
pub enum NibSlice<'a> {
    /// A slice with both sides.
    Full(NibSliceFull<'a>),
    /// A slice without the left side.
    NoL(NibSliceNoL<'a>),
    /// A slice without the right side.
    NoR(NibSliceNoR<'a>),
    /// A slice without both sides.
    NoBoth(NibSliceNoBoth<'a>),
}

impl<'a> Sealed for NibSlice<'a> {
    open spec fn spec_has_left_hi(&self) -> bool {
        match *self {
            NibSlice::Full(_) => true,
            NibSlice::NoL(_) => false,
            NibSlice::NoR(_) => true,
            NibSlice::NoBoth(_) => false,
        }
    }

    open spec fn spec_has_right_lo(&self) -> bool {
        match *self {
            NibSlice::Full(_) => true,
            NibSlice::NoL(_) => true,
            NibSlice::NoR(_) => false,
            NibSlice::NoBoth(_) => false,
        }
    }

    open spec fn pairs(&self) -> Seq<u4x2> {
        match *self {
            NibSlice::Full(s) => s.pairs(),
            NibSlice::NoL(s) => s.pairs(),
            NibSlice::NoR(s) => s.pairs(),
            NibSlice::NoBoth(s) => s.pairs(),
        }
    }

    #[inline]
    fn has_left_hi(&self) -> (r: bool) {
        match *self {
            NibSlice::Full(_) => true,
            NibSlice::NoL(_) => false,
            NibSlice::NoR(_) => true,
            NibSlice::NoBoth(_) => false,
        }
    }

    #[inline]
    fn has_right_lo(&self) -> (r: bool) {
        match *self {
            NibSlice::Full(_) => true,
            NibSlice::NoL(_) => true,
            NibSlice::NoR(_) => false,
            NibSlice::NoBoth(_) => false,
        }
    }

    #[inline]
    fn iter(&self) -> (r: NibblePairs<'_>) {
        match self {
            NibSlice::Full(s) => s.iter(),
            NibSlice::NoL(s) => s.iter(),
            NibSlice::NoR(s) => s.iter(),
            NibSlice::NoBoth(s) => s.iter(),
        }
    }
}

impl<'a> NibSliceExt for NibSlice<'a> {

}

/// Reference to a nibble slice that's aligned to a byte boundary.
#[derive(Clone, Copy)]
pub enum NibSliceAligned<'a> {
    /// An aligned slice with an even number of nibbles.
    Even(NibSliceFull<'a>),
    /// An aligned slice with an odd number of nibbles.
    Odd(NibSliceNoR<'a>),
}

impl<'a> From<NibSliceFull<'a>> for NibSliceAligned<'a> {
    fn from(slice: NibSliceFull<'a>) -> (r: Self) {
        NibSliceAligned::Even(slice)
    }
}

impl<'a> FromSpecImpl<NibSliceFull<'a>> for NibSliceAligned<'a> {
    open spec fn obeys_from_spec() -> bool {
        true
    }

    open spec fn from_spec(slice: NibSliceFull<'a>) -> Self {
        NibSliceAligned::Even(slice)
    }
}

impl<'a> From<NibSliceNoR<'a>> for NibSliceAligned<'a> {
    fn from(slice: NibSliceNoR<'a>) -> (r: Self) {
        NibSliceAligned::Odd(slice)
    }
}

impl<'a> FromSpecImpl<NibSliceNoR<'a>> for NibSliceAligned<'a> {
    open spec fn obeys_from_spec() -> bool {
        true
    }

    open spec fn from_spec(slice: NibSliceNoR<'a>) -> Self {
        NibSliceAligned::Odd(slice)
    }
}

impl<'a> Sealed for NibSliceAligned<'a> {
    open spec fn spec_has_left_hi(&self) -> bool {
        true
    }

    open spec fn spec_has_right_lo(&self) -> bool {
        match *self {
            NibSliceAligned::Even(_) => true,
            NibSliceAligned::Odd(_) => false,
        }
    }

    open spec fn pairs(&self) -> Seq<u4x2> {
        match *self {
            NibSliceAligned::Even(s) => s.pairs(),
            NibSliceAligned::Odd(s) => s.pairs(),
        }
    }

    #[inline]
    fn has_left_hi(&self) -> (r: bool) {
        true
    }

    #[inline]
    fn has_right_lo(&self) -> (r: bool) {
        match *self {
            NibSliceAligned::Even(_) => true,
            NibSliceAligned::Odd(_) => false,
        }
    }

    #[inline]
    fn iter(&self) -> (r: NibblePairs<'_>) {
        match self {
            NibSliceAligned::Even(s) => s.iter(),
            NibSliceAligned::Odd(s) => s.iter(),
        }
    }
}

impl<'a> NibSliceExt for NibSliceAligned<'a> {

}

/// Reference to a nibble slice that's not aligned to a byte boundary.
#[derive(Clone, Copy)]
pub enum NibSliceUnaligned<'a> {
    /// An unaligned slice with an even number of nibbles.
    Even(NibSliceNoBoth<'a>),
    /// An unaligned slice with an odd number of nibbles.
    Odd(NibSliceNoL<'a>),
}

impl<'a> From<NibSliceNoBoth<'a>> for NibSliceUnaligned<'a> {
    fn from(slice: NibSliceNoBoth<'a>) -> (r: Self) {
        NibSliceUnaligned::Even(slice)
    }
}

impl<'a> FromSpecImpl<NibSliceNoBoth<'a>> for NibSliceUnaligned<'a> {
    open spec fn obeys_from_spec() -> bool {
        true
    }

    open spec fn from_spec(slice: NibSliceNoBoth<'a>) -> Self {
        NibSliceUnaligned::Even(slice)
    }
}

impl<'a> From<NibSliceNoL<'a>> for NibSliceUnaligned<'a> {
    fn from(slice: NibSliceNoL<'a>) -> (r: Self) {
        NibSliceUnaligned::Odd(slice)
    }
}

impl<'a> FromSpecImpl<NibSliceNoL<'a>> for NibSliceUnaligned<'a> {
    open spec fn obeys_from_spec() -> bool {
        true
    }

    open spec fn from_spec(slice: NibSliceNoL<'a>) -> Self {
        NibSliceUnaligned::Odd(slice)
    }
}

impl<'a> Sealed for NibSliceUnaligned<'a> {
    open spec fn spec_has_left_hi(&self) -> bool {
        false
    }

    open spec fn spec_has_right_lo(&self) -> bool {
        match *self {
            NibSliceUnaligned::Even(_) => false,
            NibSliceUnaligned::Odd(_) => true,
        }
    }

    open spec fn pairs(&self) -> Seq<u4x2> {
        match *self {
            NibSliceUnaligned::Even(s) => s.pairs(),
            NibSliceUnaligned::Odd(s) => s.pairs(),
        }
    }

    #[inline]
    fn has_left_hi(&self) -> (r: bool) {
        false
    }

    #[inline]
    fn has_right_lo(&self) -> (r: bool) {
        match *self {
            NibSliceUnaligned::Even(_) => false,
            NibSliceUnaligned::Odd(_) => true,
        }
    }

    #[inline]
    fn iter(&self) -> (r: NibblePairs<'_>) {
        match self {
            NibSliceUnaligned::Even(s) => s.iter(),
            NibSliceUnaligned::Odd(s) => s.iter(),
        }
    }
}

impl<'a> NibSliceExt for NibSliceUnaligned<'a> {

}

/// Reference to a nibble slice with an even number of nibbles.
#[derive(Clone, Copy)]
pub enum NibSliceEven<'a> {
    /// An aligned slice with an even number of nibbles.
    Aligned(NibSliceFull<'a>),
    /// An unaligned slice with an even number of nibbles.
    Unaligned(NibSliceNoBoth<'a>),
}

impl<'a> From<NibSliceFull<'a>> for NibSliceEven<'a> {
    fn from(slice: NibSliceFull<'a>) -> (r: Self) {
        NibSliceEven::Aligned(slice)
    }
}

impl<'a> FromSpecImpl<NibSliceFull<'a>> for NibSliceEven<'a> {
    open spec fn obeys_from_spec() -> bool {
        true
    }

    open spec fn from_spec(slice: NibSliceFull<'a>) -> Self {
        NibSliceEven::Aligned(slice)
    }
}

impl<'a> From<NibSliceNoBoth<'a>> for NibSliceEven<'a> {
    fn from(slice: NibSliceNoBoth<'a>) -> (r: Self) {
        NibSliceEven::Unaligned(slice)
    }
}

impl<'a> FromSpecImpl<NibSliceNoBoth<'a>> for NibSliceEven<'a> {
    open spec fn obeys_from_spec() -> bool {
        true
    }

    open spec fn from_spec(slice: NibSliceNoBoth<'a>) -> Self {
        NibSliceEven::Unaligned(slice)
    }
}

impl<'a> Sealed for NibSliceEven<'a> {
    open spec fn spec_has_left_hi(&self) -> bool {
        match *self {
            NibSliceEven::Aligned(_) => true,
            NibSliceEven::Unaligned(_) => false,
        }
    }

    open spec fn spec_has_right_lo(&self) -> bool {
        match *self {
            NibSliceEven::Aligned(_) => true,
            NibSliceEven::Unaligned(_) => false,
        }
    }

    open spec fn pairs(&self) -> Seq<u4x2> {
        match *self {
            NibSliceEven::Aligned(s) => s.pairs(),
            NibSliceEven::Unaligned(s) => s.pairs(),
        }
    }

    #[inline]
    fn has_left_hi(&self) -> (r: bool) {
        match *self {
            NibSliceEven::Aligned(_) => true,
            NibSliceEven::Unaligned(_) => false,
        }
    }

    #[inline]
    fn has_right_lo(&self) -> (r: bool) {
        match *self {
            NibSliceEven::Aligned(_) => true,
            NibSliceEven::Unaligned(_) => false,
        }
    }

    #[inline]
    fn iter(&self) -> (r: NibblePairs<'_>) {
        match self {
            NibSliceEven::Aligned(s) => s.iter(),
            NibSliceEven::Unaligned(s) => s.iter(),
        }
    }
}

impl<'a> NibSliceExt for NibSliceEven<'a> {

}

/// Reference to a nibble slice with an odd number of nibbles.
#[derive(Clone, Copy)]
pub enum NibSliceOdd<'a> {
    /// An aligned slice with an odd number of nibbles.
    Aligned(NibSliceNoR<'a>),
    /// An unaligned slice with an odd number of nibbles.
    Unaligned(NibSliceNoL<'a>),
}

impl<'a> From<NibSliceNoR<'a>> for NibSliceOdd<'a> {
    fn from(slice: NibSliceNoR<'a>) -> (r: Self) {
        NibSliceOdd::Aligned(slice)
    }
}

impl<'a> FromSpecImpl<NibSliceNoR<'a>> for NibSliceOdd<'a> {
    open spec fn obeys_from_spec() -> bool {
        true
    }

    open spec fn from_spec(slice: NibSliceNoR<'a>) -> Self {
        NibSliceOdd::Aligned(slice)
    }
}

impl<'a> From<NibSliceNoL<'a>> for NibSliceOdd<'a> {
    fn from(slice: NibSliceNoL<'a>) -> (r: Self) {
        NibSliceOdd::Unaligned(slice)
    }
}

impl<'a> FromSpecImpl<NibSliceNoL<'a>> for NibSliceOdd<'a> {
    open spec fn obeys_from_spec() -> bool {
        true
    }

    open spec fn from_spec(slice: NibSliceNoL<'a>) -> Self {
        NibSliceOdd::Unaligned(slice)
    }
}

impl<'a> Sealed for NibSliceOdd<'a> {
    open spec fn spec_has_left_hi(&self) -> bool {
        match *self {
            NibSliceOdd::Aligned(_) => true,
            NibSliceOdd::Unaligned(_) => false,
        }
    }

    open spec fn spec_has_right_lo(&self) -> bool {
        match *self {
            NibSliceOdd::Aligned(_) => false,
            NibSliceOdd::Unaligned(_) => true,
        }
    }

    open spec fn pairs(&self) -> Seq<u4x2> {
        match *self {
            NibSliceOdd::Aligned(s) => s.pairs(),
            NibSliceOdd::Unaligned(s) => s.pairs(),
        }
    }

    #[inline]
    fn has_left_hi(&self) -> (r: bool) {
        match *self {
            NibSliceOdd::Aligned(_) => true,
            NibSliceOdd::Unaligned(_) => false,
        }
    }

    #[inline]
    fn has_right_lo(&self) -> (r: bool) {
        match *self {
            NibSliceOdd::Aligned(_) => false,
            NibSliceOdd::Unaligned(_) => true,
        }
    }

    #[inline]
    fn iter(&self) -> (r: NibblePairs<'_>) {
        match self {
            NibSliceOdd::Aligned(s) => s.iter(),
            NibSliceOdd::Unaligned(s) => s.iter(),
        }
    }
}

impl<'a> NibSliceExt for NibSliceOdd<'a> {

}

impl<'a> From<NibSliceFull<'a>> for NibSlice<'a> {
    fn from(slice: NibSliceFull<'a>) -> (r: Self) {
        NibSlice::Full(slice)
    }
}

impl<'a> FromSpecImpl<NibSliceFull<'a>> for NibSlice<'a> {
    open spec fn obeys_from_spec() -> bool {
        true
    }

    open spec fn from_spec(slice: NibSliceFull<'a>) -> Self {
        NibSlice::Full(slice)
    }
}

impl<'a> From<NibSliceNoL<'a>> for NibSlice<'a> {
    fn from(slice: NibSliceNoL<'a>) -> (r: Self) {
        NibSlice::NoL(slice)
    }
}

impl<'a> FromSpecImpl<NibSliceNoL<'a>> for NibSlice<'a> {
    open spec fn obeys_from_spec() -> bool {
        true
    }

    open spec fn from_spec(slice: NibSliceNoL<'a>) -> Self {
        NibSlice::NoL(slice)
    }
}

impl<'a> From<NibSliceNoR<'a>> for NibSlice<'a> {
    fn from(slice: NibSliceNoR<'a>) -> (r: Self) {
        NibSlice::NoR(slice)
    }
}

impl<'a> FromSpecImpl<NibSliceNoR<'a>> for NibSlice<'a> {
    open spec fn obeys_from_spec() -> bool {
        true
    }

    open spec fn from_spec(slice: NibSliceNoR<'a>) -> Self {
        NibSlice::NoR(slice)
    }
}

impl<'a> From<NibSliceNoBoth<'a>> for NibSlice<'a> {
    fn from(slice: NibSliceNoBoth<'a>) -> (r: Self) {
        NibSlice::NoBoth(slice)
    }
}

impl<'a> FromSpecImpl<NibSliceNoBoth<'a>> for NibSlice<'a> {
    open spec fn obeys_from_spec() -> bool {
        true
    }

    open spec fn from_spec(slice: NibSliceNoBoth<'a>) -> Self {
        NibSlice::NoBoth(slice)
    }
}

impl<'a> From<NibSliceAligned<'a>> for NibSlice<'a> {
    fn from(slice: NibSliceAligned<'a>) -> (r: Self) {
        match slice {
            NibSliceAligned::Even(s) => NibSlice::Full(s),
            NibSliceAligned::Odd(s) => NibSlice::NoR(s),
        }
    }
}

impl<'a> FromSpecImpl<NibSliceAligned<'a>> for NibSlice<'a> {
    open spec fn obeys_from_spec() -> bool {
        true
    }

    open spec fn from_spec(slice: NibSliceAligned<'a>) -> Self {
        match slice {
            NibSliceAligned::Even(s) => NibSlice::Full(s),
            NibSliceAligned::Odd(s) => NibSlice::NoR(s),
        }
    }
}

impl<'a> From<NibSliceUnaligned<'a>> for NibSlice<'a> {
    fn from(slice: NibSliceUnaligned<'a>) -> (r: Self) {
        match slice {
            NibSliceUnaligned::Even(s) => NibSlice::NoBoth(s),
            NibSliceUnaligned::Odd(s) => NibSlice::NoL(s),
        }
    }
}

impl<'a> FromSpecImpl<NibSliceUnaligned<'a>> for NibSlice<'a> {
    open spec fn obeys_from_spec() -> bool {
        true
    }

    open spec fn from_spec(slice: NibSliceUnaligned<'a>) -> Self {
        match slice {
            NibSliceUnaligned::Even(s) => NibSlice::NoBoth(s),
            NibSliceUnaligned::Odd(s) => NibSlice::NoL(s),
        }
    }
}

impl<'a> From<NibSliceEven<'a>> for NibSlice<'a> {
    fn from(slice: NibSliceEven<'a>) -> (r: Self) {
        match slice {
            NibSliceEven::Aligned(s) => NibSlice::Full(s),
            NibSliceEven::Unaligned(s) => NibSlice::NoBoth(s),
        }
    }
}

impl<'a> FromSpecImpl<NibSliceEven<'a>> for NibSlice<'a> {
    open spec fn obeys_from_spec() -> bool {
        true
    }

    open spec fn from_spec(slice: NibSliceEven<'a>) -> Self {
        match slice {
            NibSliceEven::Aligned(s) => NibSlice::Full(s),
            NibSliceEven::Unaligned(s) => NibSlice::NoBoth(s),
        }
    }
}

impl<'a> From<NibSliceOdd<'a>> for NibSlice<'a> {
    fn from(slice: NibSliceOdd<'a>) -> (r: Self) {
        match slice {
            NibSliceOdd::Aligned(s) => NibSlice::NoR(s),
            NibSliceOdd::Unaligned(s) => NibSlice::NoL(s),
        }
    }
}

impl<'a> FromSpecImpl<NibSliceOdd<'a>> for NibSlice<'a> {
    open spec fn obeys_from_spec() -> bool {
        true
    }

    open spec fn from_spec(slice: NibSliceOdd<'a>) -> Self {
        match slice {
            NibSliceOdd::Aligned(s) => NibSlice::NoR(s),
            NibSliceOdd::Unaligned(s) => NibSlice::NoL(s),
        }
    }
}

impl<'a> NibSlice<'a> {
    /// Converts this slice into an aligned version: the same pairs, when the high half
    /// of the first of them belongs to the slice.
    pub fn as_aligned(&self) -> (r: Option<NibSliceAligned<'a>>)
        ensures
            r.is_some() <==> self.spec_has_left_hi(),
            r == (match *self {
                NibSlice::Full(s) => Some(NibSliceAligned::Even(s)),
                NibSlice::NoL(_) => None,
                NibSlice::NoR(s) => Some(NibSliceAligned::Odd(s)),
                NibSlice::NoBoth(_) => None,
            }),
            r.is_some() ==> r.unwrap().pairs() == self.pairs(),
    {
        match *self {
            NibSlice::Full(s) => Some(NibSliceAligned::Even(s)),
            NibSlice::NoL(_) => None,
            NibSlice::NoR(s) => Some(NibSliceAligned::Odd(s)),
            NibSlice::NoBoth(_) => None,
        }
    }

    /// Converts this slice into an unaligned version: the same pairs, when the high
    /// half of the first of them is left out.
    pub fn as_unaligned(&self) -> (r: Option<NibSliceUnaligned<'a>>)
        ensures
            r.is_some() <==> !self.spec_has_left_hi(),
            r == (match *self {
                NibSlice::Full(_) => None,
                NibSlice::NoL(s) => Some(NibSliceUnaligned::Odd(s)),
                NibSlice::NoR(_) => None,
                NibSlice::NoBoth(s) => Some(NibSliceUnaligned::Even(s)),
            }),
            r.is_some() ==> r.unwrap().pairs() == self.pairs(),
    {
        match *self {
            NibSlice::Full(_) => None,
            NibSlice::NoL(s) => Some(NibSliceUnaligned::Odd(s)),
            NibSlice::NoR(_) => None,
            NibSlice::NoBoth(s) => Some(NibSliceUnaligned::Even(s)),
        }
    }

    /// Converts this slice into an even version: the same pairs, when both outer halves
    /// belong to the slice or neither does.
    pub fn as_even(&self) -> (r: Option<NibSliceEven<'a>>)
        ensures
            r.is_some() <==> self.spec_has_left_hi() == self.spec_has_right_lo(),
            r == (match *self {
                NibSlice::Full(s) => Some(NibSliceEven::Aligned(s)),
                NibSlice::NoL(_) => None,
                NibSlice::NoR(_) => None,
                NibSlice::NoBoth(s) => Some(NibSliceEven::Unaligned(s)),
            }),
            r.is_some() ==> r.unwrap().pairs() == self.pairs(),
    {
        match *self {
            NibSlice::Full(s) => Some(NibSliceEven::Aligned(s)),
            NibSlice::NoL(_) => None,
            NibSlice::NoR(_) => None,
            NibSlice::NoBoth(s) => Some(NibSliceEven::Unaligned(s)),
        }
    }

    /// Converts this slice into an odd version: the same pairs, when just one of the
    /// outer halves belongs to the slice.
    pub fn as_odd(&self) -> (r: Option<NibSliceOdd<'a>>)
        ensures
            r.is_some() <==> self.spec_has_left_hi() != self.spec_has_right_lo(),
            r == (match *self {
                NibSlice::Full(_) => None,
                NibSlice::NoL(s) => Some(NibSliceOdd::Unaligned(s)),
                NibSlice::NoR(s) => Some(NibSliceOdd::Aligned(s)),
                NibSlice::NoBoth(_) => None,
            }),
            r.is_some() ==> r.unwrap().pairs() == self.pairs(),
    {
        match *self {
            NibSlice::Full(_) => None,
            NibSlice::NoL(s) => Some(NibSliceOdd::Unaligned(s)),
            NibSlice::NoR(s) => Some(NibSliceOdd::Aligned(s)),
            NibSlice::NoBoth(_) => None,
        }
    }
}

/// What every mutable view is made of: its two alignment flags and the cells of
/// its pairs.
///
/// A mutable view does not hold its pairs by an exclusive reference. It holds
/// one cell for each pair, so that the two halves of a pair can be handed out
/// at once and written one without the other.
pub trait SealedMut: Sized {
    /// Whether the high half of the first pair belongs to the view.
    spec fn spec_has_left_hi(&self) -> bool;

    /// Whether the low half of the last pair belongs to the view.
    spec fn spec_has_right_lo(&self) -> bool;

    /// The cells of the pairs that the view runs over.
    spec fn cells(&self) -> Seq<Cell<u4x2>>;

    /// Whether the high half of the first pair belongs to the view.
    fn has_left_hi(&self) -> (r: bool)
        ensures
            r == self.spec_has_left_hi(),
    ;

    /// Whether the low half of the last pair belongs to the view.
    fn has_right_lo(&self) -> (r: bool)
        ensures
            r == self.spec_has_right_lo(),
    ;

    /// Mutable iterator over the pairs that the view runs over.
    fn iter_mut(&self) -> (r: NibblePairsMut<'_>)
        ensures
            r@ == self.cells(),
    ;
}

/// The halves that a mutable view gives access to, in order.
pub open spec fn halves_in<S: SealedMut>(view: &S) -> Seq<Half> {
    halves_of(view.cells(), view.spec_has_left_hi(), view.spec_has_right_lo())
}

/// A mutable slice of nibbles: what can be asked of every mutable view.
pub trait NibSliceMutExt: SealedMut {
    /// Mutable iterator over the nibble pairs in this slice.
    ///
    /// This may include nibbles that are omitted.
    fn nibble_pairs_mut(&self) -> (r: NibblePairsMut<'_>)
        ensures
            r@ == self.cells(),
    {
        self.iter_mut()
    }

    /// Mutable iterator over nibbles in a slice.
    fn nibbles_mut(&self) -> (r: NibblesMut<'_>)
        ensures
            r@ == halves_in(self),
    {
        let has_left_hi = self.has_left_hi();
        let has_right_lo = self.has_right_lo();
        NibblesMut::new(self.nibble_pairs_mut(), has_left_hi, has_right_lo)
    }

    /// Mutably decomposes this slice into its parts: a cell for the low nibble of
    /// the first pair where its high nibble is left out, the pairs that belong
    /// to the slice whole, and a cell for the high nibble of the last pair where
    /// its low nibble is left out.
    fn decompose_mut(&self) -> (r: (Option<U4LoCell<'_>>, NibblePairsMut<'_>, Option<U4HiCell<'_>>))
        ensures
            r.0.is_some() <==> !self.spec_has_left_hi() && halves_in(self).len() > 0,
            r.0.is_some() ==> r.0.unwrap().half() == (Half {
                cell: self.cells().first(),
                high: false,
            }),
            r.1@ == middle_of(self.cells(), self.spec_has_left_hi(), self.spec_has_right_lo()),
            r.2.is_some() <==> !self.spec_has_right_lo() && halves_in(self).len() > 0,
            r.2.is_some() ==> r.2.unwrap().half() == (Half {
                cell: self.cells().last(),
                high: true,
            }),
    {
        let has_left_hi = self.has_left_hi();
        let has_right_lo = self.has_right_lo();
        let slice = self.nibble_pairs_mut().into_slice();
        let len: usize = slice.len();
        proof {
            crate::pair::lemma_halves_of_drops(self.cells(), has_left_hi, has_right_lo);
        }
        if len == 0 {
            assert(slice@ =~= Seq::<Cell<u4x2>>::empty());
            (None, NibblePairsMut::new(slice), None)
        } else if len == 1 && !has_left_hi && !has_right_lo {
            (None, NibblePairsMut::new(&slice[1..1]), None)
        } else {
            let left: Option<U4LoCell<'_>> = if has_left_hi {
                None
            } else {
                Some(U4LoCell::new(&slice[0]))
            };
            let start: usize = if has_left_hi { 0 } else { 1 };
            let right: Option<U4HiCell<'_>> = if has_right_lo {
                None
            } else {
                Some(U4HiCell::new(&slice[len - 1]))
            };
            let end: usize = if has_right_lo { len } else { len - 1 };
            (left, NibblePairsMut::new(&slice[start..end]), right)
        }
    }

    /// Mutably gets a nibble at the given index: the cell for its half.
    ///
    /// Where the high half of the first pair is left out, the nibble at index 0
    /// is the low half of that pair, and so on.
    fn get_mut(&self, idx: usize) -> (r: U4HalfCell<'_>)
        requires
            idx < halves_in(self).len(),
        ensures
            r.half() == halves_in(self)[idx as int],
    {
        let slice = self.nibble_pairs_mut().into_slice();
        if self.has_left_hi() {
            if idx % 2 == 0 {
                U4HalfCell::Hi(U4HiCell::new(&slice[idx / 2]))
            } else {
                U4HalfCell::Lo(U4LoCell::new(&slice[idx / 2]))
            }
        } else if idx % 2 == 0 {
            U4HalfCell::Lo(U4LoCell::new(&slice[idx / 2]))
        } else {
            U4HalfCell::Hi(U4HiCell::new(&slice[idx / 2 + 1]))
        }
    }

    /// Gets the length of the slice: the number of nibbles that belong to it.
    fn len(&self) -> (r: usize)
        requires
            2 * self.cells().len() <= usize::MAX,
        ensures
            r == halves_in(self).len(),
            r == nibble_count(
                self.cells().len(),
                self.spec_has_left_hi(),
                self.spec_has_right_lo(),
            ),
    {
        let left_out: usize = if self.has_left_hi() { 0 } else { 1 };
        let right_out: usize = if self.has_right_lo() { 0 } else { 1 };
        let all: usize = self.nibble_pairs_mut().len() * 2;
        if all >= left_out + right_out {
            all - left_out - right_out
        } else {
            0
        }
    }

    /// Checks if the slice is empty, that is, if no nibble belongs to it.
    fn is_empty(&self) -> (r: bool)
        ensures
            r == (halves_in(self).len() == 0),
    {
        let pairs: usize = self.nibble_pairs_mut().len();
        pairs == 0 || (pairs == 1 && !self.has_left_hi() && !self.has_right_lo())
    }

    /// Converts this slice into a `NibSliceMut`: the same cells under the tag that
    /// says which of the outer halves belong to them.
    fn into_generic_mut(&self) -> (r: NibSliceMut<'_>)
        ensures
            r.cells() == self.cells(),
            r.spec_has_left_hi() == self.spec_has_left_hi(),
            r.spec_has_right_lo() == self.spec_has_right_lo(),
    {
        if self.has_left_hi() {
            if self.has_right_lo() {
                NibSliceMut::Full(self.iter_mut().into_slice())
            } else {
                NibSliceMut::NoR(self.iter_mut().into_slice())
            }
        } else {
            if self.has_right_lo() {
                NibSliceMut::NoL(self.iter_mut().into_slice())
            } else {
                NibSliceMut::NoBoth(self.iter_mut().into_slice())
            }
        }
    }

    /// Checks whether this slice is aligned to a byte boundary.
    fn is_aligned(&self) -> (r: bool)
        ensures
            r == self.spec_has_left_hi(),
    {
        self.has_left_hi()
    }

    /// Checks whether this slice has an even number of nibbles.
    fn is_even(&self) -> (r: bool)
        ensures
            r == (self.spec_has_left_hi() == self.spec_has_right_lo()),
            self.cells().len() > 0 ==> r == (halves_in(self).len() % 2 == 0),
    {
        self.has_left_hi() == self.has_right_lo()
    }

    /// Checks whether this slice has an odd number of nibbles.
    fn is_odd(&self) -> (r: bool)
        ensures
            r == (self.spec_has_left_hi() != self.spec_has_right_lo()),
            self.cells().len() > 0 ==> r == (halves_in(self).len() % 2 == 1),
    {
        self.has_left_hi() != self.has_right_lo()
    }
}

/// Mutable reference to a nibble slice that's aligned to a byte boundary.
#[derive(Clone, Copy)]
pub enum NibSliceAlignedMut<'a> {
    /// An aligned slice with an even number of nibbles.
    Even(&'a [Cell<u4x2>]),
    /// An aligned slice with an odd number of nibbles.
    Odd(&'a [Cell<u4x2>]),
}

impl<'a> SealedMut for NibSliceAlignedMut<'a> {
    open spec fn spec_has_left_hi(&self) -> bool {
        true
    }

    open spec fn spec_has_right_lo(&self) -> bool {
        match *self {
            NibSliceAlignedMut::Even(_) => true,
            NibSliceAlignedMut::Odd(_) => false,
        }
    }

    open spec fn cells(&self) -> Seq<Cell<u4x2>> {
        match *self {
            NibSliceAlignedMut::Even(s) => s@,
            NibSliceAlignedMut::Odd(s) => s@,
        }
    }

    #[inline]
    fn has_left_hi(&self) -> (r: bool) {
        true
    }

    #[inline]
    fn has_right_lo(&self) -> (r: bool) {
        match *self {
            NibSliceAlignedMut::Even(_) => true,
            NibSliceAlignedMut::Odd(_) => false,
        }
    }

    #[inline]
    fn iter_mut(&self) -> (r: NibblePairsMut<'_>) {
        match *self {
            NibSliceAlignedMut::Even(s) => NibblePairsMut::new(s),
            NibSliceAlignedMut::Odd(s) => NibblePairsMut::new(s),
        }
    }
}

impl<'a> NibSliceMutExt for NibSliceAlignedMut<'a> {

}

/// Mutable reference to a nibble slice that's not aligned to a byte boundary.
#[derive(Clone, Copy)]
pub enum NibSliceUnalignedMut<'a> {
    /// An unaligned slice with an even number of nibbles.
    Even(&'a [Cell<u4x2>]),
    /// An unaligned slice with an odd number of nibbles.
    Odd(&'a [Cell<u4x2>]),
}

impl<'a> SealedMut for NibSliceUnalignedMut<'a> {
    open spec fn spec_has_left_hi(&self) -> bool {
        false
    }

    open spec fn spec_has_right_lo(&self) -> bool {
        match *self {
            NibSliceUnalignedMut::Even(_) => false,
            NibSliceUnalignedMut::Odd(_) => true,
        }
    }

    open spec fn cells(&self) -> Seq<Cell<u4x2>> {
        match *self {
            NibSliceUnalignedMut::Even(s) => s@,
            NibSliceUnalignedMut::Odd(s) => s@,
        }
    }

    #[inline]
    fn has_left_hi(&self) -> (r: bool) {
        false
    }

    #[inline]
    fn has_right_lo(&self) -> (r: bool) {
        match *self {
            NibSliceUnalignedMut::Even(_) => false,
            NibSliceUnalignedMut::Odd(_) => true,
        }
    }

    #[inline]
    fn iter_mut(&self) -> (r: NibblePairsMut<'_>) {
        match *self {
            NibSliceUnalignedMut::Even(s) => NibblePairsMut::new(s),
            NibSliceUnalignedMut::Odd(s) => NibblePairsMut::new(s),
        }
    }
}

impl<'a> NibSliceMutExt for NibSliceUnalignedMut<'a> {

}

/// Mutable reference to a nibble slice with an even number of nibbles.
#[derive(Clone, Copy)]
pub enum NibSliceEvenMut<'a> {
    /// An aligned slice with an even number of nibbles.
    Aligned(&'a [Cell<u4x2>]),
    /// An unaligned slice with an even number of nibbles.
    Unaligned(&'a [Cell<u4x2>]),
}

impl<'a> SealedMut for NibSliceEvenMut<'a> {
    open spec fn spec_has_left_hi(&self) -> bool {
        match *self {
            NibSliceEvenMut::Aligned(_) => true,
            NibSliceEvenMut::Unaligned(_) => false,
        }
    }

    open spec fn spec_has_right_lo(&self) -> bool {
        match *self {
            NibSliceEvenMut::Aligned(_) => true,
            NibSliceEvenMut::Unaligned(_) => false,
        }
    }

    open spec fn cells(&self) -> Seq<Cell<u4x2>> {
        match *self {
            NibSliceEvenMut::Aligned(s) => s@,
            NibSliceEvenMut::Unaligned(s) => s@,
        }
    }

    #[inline]
    fn has_left_hi(&self) -> (r: bool) {
        match *self {
            NibSliceEvenMut::Aligned(_) => true,
            NibSliceEvenMut::Unaligned(_) => false,
        }
    }

    #[inline]
    fn has_right_lo(&self) -> (r: bool) {
        match *self {
            NibSliceEvenMut::Aligned(_) => true,
            NibSliceEvenMut::Unaligned(_) => false,
        }
    }

    #[inline]
    fn iter_mut(&self) -> (r: NibblePairsMut<'_>) {
        match *self {
            NibSliceEvenMut::Aligned(s) => NibblePairsMut::new(s),
            NibSliceEvenMut::Unaligned(s) => NibblePairsMut::new(s),
        }
    }
}

impl<'a> NibSliceMutExt for NibSliceEvenMut<'a> {

}

/// Mutable reference to a nibble slice with an odd number of nibbles.
#[derive(Clone, Copy)]
pub enum NibSliceOddMut<'a> {
    /// An aligned slice with an odd number of nibbles.
    Aligned(&'a [Cell<u4x2>]),
    /// An unaligned slice with an odd number of nibbles.
    Unaligned(&'a [Cell<u4x2>]),
}

impl<'a> SealedMut for NibSliceOddMut<'a> {
    open spec fn spec_has_left_hi(&self) -> bool {
        match *self {
            NibSliceOddMut::Aligned(_) => true,
            NibSliceOddMut::Unaligned(_) => false,
        }
    }

    open spec fn spec_has_right_lo(&self) -> bool {
        match *self {
            NibSliceOddMut::Aligned(_) => false,
            NibSliceOddMut::Unaligned(_) => true,
        }
    }

    open spec fn cells(&self) -> Seq<Cell<u4x2>> {
        match *self {
            NibSliceOddMut::Aligned(s) => s@,
            NibSliceOddMut::Unaligned(s) => s@,
        }
    }

    #[inline]
    fn has_left_hi(&self) -> (r: bool) {
        match *self {
            NibSliceOddMut::Aligned(_) => true,
            NibSliceOddMut::Unaligned(_) => false,
        }
    }

    #[inline]
    fn has_right_lo(&self) -> (r: bool) {
        match *self {
            NibSliceOddMut::Aligned(_) => false,
            NibSliceOddMut::Unaligned(_) => true,
        }
    }

    #[inline]
    fn iter_mut(&self) -> (r: NibblePairsMut<'_>) {
        match *self {
            NibSliceOddMut::Aligned(s) => NibblePairsMut::new(s),
            NibSliceOddMut::Unaligned(s) => NibblePairsMut::new(s),
        }
    }
}

impl<'a> NibSliceMutExt for NibSliceOddMut<'a> {

}

/// Mutable reference to a nibble slice.
#[derive(Clone, Copy)]
pub enum NibSliceMut<'a> {
    /// A slice with both sides.
    Full(&'a [Cell<u4x2>]),
    /// A slice without the left side.
    NoL(&'a [Cell<u4x2>]),
    /// A slice without the right side.
    NoR(&'a [Cell<u4x2>]),
    /// A slice without both sides.
    NoBoth(&'a [Cell<u4x2>]),
}

impl<'a> SealedMut for NibSliceMut<'a> {
    open spec fn spec_has_left_hi(&self) -> bool {
        match *self {
            NibSliceMut::Full(_) => true,
            NibSliceMut::NoL(_) => false,
            NibSliceMut::NoR(_) => true,
            NibSliceMut::NoBoth(_) => false,
        }
    }

    open spec fn spec_has_right_lo(&self) -> bool {
        match *self {
            NibSliceMut::Full(_) => true,
            NibSliceMut::NoL(_) => true,
            NibSliceMut::NoR(_) => false,
            NibSliceMut::NoBoth(_) => false,
        }
    }

    open spec fn cells(&self) -> Seq<Cell<u4x2>> {
        match *self {
            NibSliceMut::Full(s) => s@,
            NibSliceMut::NoL(s) => s@,
            NibSliceMut::NoR(s) => s@,
            NibSliceMut::NoBoth(s) => s@,
        }
    }

    #[inline]
    fn has_left_hi(&self) -> (r: bool) {
        match *self {
            NibSliceMut::Full(_) => true,
            NibSliceMut::NoL(_) => false,
            NibSliceMut::NoR(_) => true,
            NibSliceMut::NoBoth(_) => false,
        }
    }

    #[inline]
    fn has_right_lo(&self) -> (r: bool) {
        match *self {
            NibSliceMut::Full(_) => true,
            NibSliceMut::NoL(_) => true,
            NibSliceMut::NoR(_) => false,
            NibSliceMut::NoBoth(_) => false,
        }
    }

    #[inline]
    fn iter_mut(&self) -> (r: NibblePairsMut<'_>) {
        match *self {
            NibSliceMut::Full(s) => NibblePairsMut::new(s),
            NibSliceMut::NoL(s) => NibblePairsMut::new(s),
            NibSliceMut::NoR(s) => NibblePairsMut::new(s),
            NibSliceMut::NoBoth(s) => NibblePairsMut::new(s),
        }
    }
}

impl<'a> NibSliceMutExt for NibSliceMut<'a> {

}

impl<'a> From<NibSliceAlignedMut<'a>> for NibSliceMut<'a> {
    fn from(slice: NibSliceAlignedMut<'a>) -> (r: Self) {
        match slice {
            NibSliceAlignedMut::Even(s) => NibSliceMut::Full(s),
            NibSliceAlignedMut::Odd(s) => NibSliceMut::NoR(s),
        }
    }
}

impl<'a> FromSpecImpl<NibSliceAlignedMut<'a>> for NibSliceMut<'a> {
    open spec fn obeys_from_spec() -> bool {
        true
    }

    open spec fn from_spec(slice: NibSliceAlignedMut<'a>) -> Self {
        match slice {
            NibSliceAlignedMut::Even(s) => NibSliceMut::Full(s),
            NibSliceAlignedMut::Odd(s) => NibSliceMut::NoR(s),
        }
    }
}

impl<'a> From<NibSliceUnalignedMut<'a>> for NibSliceMut<'a> {
    fn from(slice: NibSliceUnalignedMut<'a>) -> (r: Self) {
        match slice {
            NibSliceUnalignedMut::Even(s) => NibSliceMut::NoBoth(s),
            NibSliceUnalignedMut::Odd(s) => NibSliceMut::NoL(s),
        }
    }
}

impl<'a> FromSpecImpl<NibSliceUnalignedMut<'a>> for NibSliceMut<'a> {
    open spec fn obeys_from_spec() -> bool {
        true
    }

    open spec fn from_spec(slice: NibSliceUnalignedMut<'a>) -> Self {
        match slice {
            NibSliceUnalignedMut::Even(s) => NibSliceMut::NoBoth(s),
            NibSliceUnalignedMut::Odd(s) => NibSliceMut::NoL(s),
        }
    }
}

impl<'a> From<NibSliceEvenMut<'a>> for NibSliceMut<'a> {
    fn from(slice: NibSliceEvenMut<'a>) -> (r: Self) {
        match slice {
            NibSliceEvenMut::Aligned(s) => NibSliceMut::Full(s),
            NibSliceEvenMut::Unaligned(s) => NibSliceMut::NoBoth(s),
        }
    }
}

impl<'a> FromSpecImpl<NibSliceEvenMut<'a>> for NibSliceMut<'a> {
    open spec fn obeys_from_spec() -> bool {
        true
    }

    open spec fn from_spec(slice: NibSliceEvenMut<'a>) -> Self {
        match slice {
            NibSliceEvenMut::Aligned(s) => NibSliceMut::Full(s),
            NibSliceEvenMut::Unaligned(s) => NibSliceMut::NoBoth(s),
        }
    }
}

impl<'a> From<NibSliceOddMut<'a>> for NibSliceMut<'a> {
    fn from(slice: NibSliceOddMut<'a>) -> (r: Self) {
        match slice {
            NibSliceOddMut::Aligned(s) => NibSliceMut::NoR(s),
            NibSliceOddMut::Unaligned(s) => NibSliceMut::NoL(s),
        }
    }
}

impl<'a> FromSpecImpl<NibSliceOddMut<'a>> for NibSliceMut<'a> {
    open spec fn obeys_from_spec() -> bool {
        true
    }

    open spec fn from_spec(slice: NibSliceOddMut<'a>) -> Self {
        match slice {
            NibSliceOddMut::Aligned(s) => NibSliceMut::NoR(s),
            NibSliceOddMut::Unaligned(s) => NibSliceMut::NoL(s),
        }
    }
}

impl<'a> NibSliceMut<'a> {
    /// Converts this slice into an aligned version: the same cells, when the high half
    /// of the first pair belongs to the slice.
    pub fn into_aligned(self) -> (r: Option<NibSliceAlignedMut<'a>>)
        ensures
            r.is_some() <==> self.spec_has_left_hi(),
            r == (match self {
                NibSliceMut::Full(s) => Some(NibSliceAlignedMut::Even(s)),
                NibSliceMut::NoL(_) => None,
                NibSliceMut::NoR(s) => Some(NibSliceAlignedMut::Odd(s)),
                NibSliceMut::NoBoth(_) => None,
            }),
            r.is_some() ==> r.unwrap().cells() == self.cells(),
    {
        match self {
            NibSliceMut::Full(s) => Some(NibSliceAlignedMut::Even(s)),
            NibSliceMut::NoL(_) => None,
            NibSliceMut::NoR(s) => Some(NibSliceAlignedMut::Odd(s)),
            NibSliceMut::NoBoth(_) => None,
        }
    }

    /// Converts this slice into an unaligned version: the same cells, when the high
    /// half of the first pair is left out.
    pub fn into_unaligned(self) -> (r: Option<NibSliceUnalignedMut<'a>>)
        ensures
            r.is_some() <==> !self.spec_has_left_hi(),
            r == (match self {
                NibSliceMut::Full(_) => None,
                NibSliceMut::NoL(s) => Some(NibSliceUnalignedMut::Odd(s)),
                NibSliceMut::NoR(_) => None,
                NibSliceMut::NoBoth(s) => Some(NibSliceUnalignedMut::Even(s)),
            }),
            r.is_some() ==> r.unwrap().cells() == self.cells(),
    {
        match self {
            NibSliceMut::Full(_) => None,
            NibSliceMut::NoL(s) => Some(NibSliceUnalignedMut::Odd(s)),
            NibSliceMut::NoR(_) => None,
            NibSliceMut::NoBoth(s) => Some(NibSliceUnalignedMut::Even(s)),
        }
    }

    /// Converts this slice into an even version: the same cells, when both outer halves
    /// belong to the slice or neither does.
    pub fn into_even(self) -> (r: Option<NibSliceEvenMut<'a>>)
        ensures
            r.is_some() <==> self.spec_has_left_hi() == self.spec_has_right_lo(),
            r == (match self {
                NibSliceMut::Full(s) => Some(NibSliceEvenMut::Aligned(s)),
                NibSliceMut::NoL(_) => None,
                NibSliceMut::NoR(_) => None,
                NibSliceMut::NoBoth(s) => Some(NibSliceEvenMut::Unaligned(s)),
            }),
            r.is_some() ==> r.unwrap().cells() == self.cells(),
    {
        match self {
            NibSliceMut::Full(s) => Some(NibSliceEvenMut::Aligned(s)),
            NibSliceMut::NoL(_) => None,
            NibSliceMut::NoR(_) => None,
            NibSliceMut::NoBoth(s) => Some(NibSliceEvenMut::Unaligned(s)),
        }
    }

    /// Converts this slice into an odd version: the same cells, when just one of the
    /// outer halves belongs to the slice.
    pub fn into_odd(self) -> (r: Option<NibSliceOddMut<'a>>)
        ensures
            r.is_some() <==> self.spec_has_left_hi() != self.spec_has_right_lo(),
            r == (match self {
                NibSliceMut::Full(_) => None,
                NibSliceMut::NoL(s) => Some(NibSliceOddMut::Unaligned(s)),
                NibSliceMut::NoR(s) => Some(NibSliceOddMut::Aligned(s)),
                NibSliceMut::NoBoth(_) => None,
            }),
            r.is_some() ==> r.unwrap().cells() == self.cells(),
    {
        match self {
            NibSliceMut::Full(_) => None,
            NibSliceMut::NoL(s) => Some(NibSliceOddMut::Unaligned(s)),
            NibSliceMut::NoR(s) => Some(NibSliceOddMut::Aligned(s)),
            NibSliceMut::NoBoth(_) => None,
        }
    }
}

} // verus!
