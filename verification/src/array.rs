//! Types for arrays of nibbles.
use vstd::prelude::*;
use vstd::string::StringSliceAdditionalSpecFns;
use vstd::std_specs::convert::FromSpecImpl;
use arrayvec::CapacityError;
use crate::base::{ascii_digit_value, hex_values, is_hex, u4, u4lo, ParseNibbleError};
use crate::common::nibbles_of;
use crate::iter::NibblePairs;
use crate::pair::{cell_of_slice, cells_of, u4x2};
use crate::slice::{nibbles_in, NibSliceAligned, NibSliceAlignedMut, NibSliceExt, NibSliceFull};
use crate::slice::{NibSliceNoR, Sealed, SealedMut};
use crate::vec::{nibble_capacity, NibVec};

verus! {

/// `arrayvec::CapacityError`: the error of a push that found no room. It keeps
/// the element that was not pushed.
#[verifier::external_type_specification]
#[verifier::external_body]
#[verifier::reject_recursive_types(T)]
pub struct ExCapacityError<T>(CapacityError<T>);

/// `CapacityError::new`: the error that keeps `element`.
#[verifier::external_body]
fn capacity_error<T>(element: T) -> (r: CapacityError<T>) {
    CapacityError::new(element)
}

/// A vector of nibbles with room for `CAP` pairs and no more.
///
/// The nibbles are packed two to a byte. When their number is odd, the low half
/// of the last byte is not part of the vector: it is pending, and the next nibble
/// that is pushed goes there.
#[derive(Clone, Debug)]
pub struct NibArrayVec<const CAP: usize> {
    inner: NibVec,
}

impl<const CAP: usize> View for NibArrayVec<CAP> {
    type V = Seq<u8>;

    /// The nibbles of the vector, in order: those of its pairs, without the low
    /// half of the last pair where that half is pending.
    open spec fn view(&self) -> Seq<u8> {
        nibbles_in(self)
    }
}

impl<const CAP: usize> Sealed for NibArrayVec<CAP> {
    /// A vector begins with the high half of its first pair.
    open spec fn spec_has_left_hi(&self) -> bool {
        true
    }

    /// Whether the low half of the last pair belongs to the vector. Where it
    /// does not, that half is pending.
    closed spec fn spec_has_right_lo(&self) -> bool {
        self.inner.spec_has_right_lo()
    }

    /// The packed pairs that the vector is stored in.
    closed spec fn pairs(&self) -> Seq<u4x2> {
        self.inner.pairs()
    }

    #[inline(always)]
    fn has_left_hi(&self) -> (r: bool) {
        true
    }

    #[inline(always)]
    fn has_right_lo(&self) -> (r: bool) {
        self.inner.has_right_lo()
    }

    #[inline(always)]
    fn iter(&self) -> (r: NibblePairs<'_>) {
        self.inner.iter()
    }
}

impl<const CAP: usize> NibSliceExt for NibArrayVec<CAP> {

}

impl<const CAP: usize> NibArrayVec<CAP> {
    /// What every vector upholds: a pending half lies in a pair that exists, the
    /// number of nibbles fits in a `usize`, and there are `CAP` pairs at most.
    pub closed spec fn wf(&self) -> bool {
        &&& self.inner.wf()
        &&& self.inner.pairs().len() <= CAP
    }

    /// The view of a vector is what its pairs and its pending half stand for, and
    /// a vector never holds more than its capacity.
    pub proof fn lemma_view(&self)
        ensures
            self@ == nibbles_of(self.pairs(), true, self.spec_has_right_lo()),
            self@ == nibbles_in(self),
            self.wf() ==> self.pairs().len() <= CAP,
            self.wf() ==> self@.len() <= 2 * CAP,
            self.wf() ==> self@.len() <= usize::MAX,
            self.wf() ==> (self.spec_has_right_lo() || self.pairs().len() > 0),
    {
        self.inner.lemma_view();
    }

    /// Creates an empty `NibArrayVec`.
    pub fn new() -> (r: Self)
        ensures
            r.wf(),
            r@ == Seq::<u8>::empty(),
            r.pairs() == Seq::<u4x2>::empty(),
            r.spec_has_right_lo(),
    {
        NibArrayVec { inner: NibVec::new() }
    }

    /// Creates a vector from a string of ASCII hex digits, one nibble for each
    /// digit.
    ///
    /// The digits are read in order. A byte that is no hex digit is an error, and
    /// so is a digit that the vector has no room for; the error is that of the
    /// byte that comes first.
    pub fn from_ascii(s: &[u8]) -> (r: Result<Self, ParseNibbleError>)
        requires
            s@.len() < usize::MAX - 1,
        ensures
            r.is_ok() <==> is_hex(s@) && s@.len() <= 2 * CAP,
            r.is_ok() ==> r.unwrap().wf() && r.unwrap()@ == hex_values(s@),
            r == Err::<Self, ParseNibbleError>(ParseNibbleError::TooLarge) <==> s@.len() > 2 * CAP
                && is_hex(s@.take(2 * CAP + 1)),
            r.is_err() ==> r == Err::<Self, ParseNibbleError>(ParseNibbleError::TooLarge) || r
                == Err::<Self, ParseNibbleError>(ParseNibbleError::BadFormat),
    {
        let mut ret: Self = NibArrayVec::new();
        let mut i: usize = 0;
        while i < s.len()
            invariant
                i <= s@.len(),
                i <= 2 * CAP,
                s@.len() < usize::MAX - 1,
                ret.wf(),
                is_hex(s@.take(i as int)),
                ret@ == hex_values(s@.take(i as int)),
            decreases s@.len() - i,
        {
            let nib: u4lo = match u4lo::from_ascii_digit(s[i]) {
                Some(nib) => nib,
                None => {
                    proof {
                        if s@.len() > 2 * CAP {
                            assert(s@.take(2 * CAP + 1)[i as int] == s@[i as int]);
                            assert(ascii_digit_value(s@.take(2 * CAP + 1)[i as int]).is_none());
                        }
                    }
                    return Err(ParseNibbleError::BadFormat);
                },
            };
            if ret.checked_push(nib).is_err() {
                proof {
                    assert(s@.take(2 * CAP + 1) =~= s@.take(i as int).push(s@[i as int]));
                }
                return Err(ParseNibbleError::TooLarge);
            }
            proof {
                assert(s@.take(i + 1) =~= s@.take(i as int).push(s@[i as int]));
                assert(ret@ =~= hex_values(s@.take(i + 1)));
            }
            i += 1;
        }
        proof {
            assert(s@.take(i as int) =~= s@);
        }
        Ok(ret)
    }

    /// Creates a vector from a string of hex digits, one nibble for each digit.
    pub fn from_str(s: &str) -> (r: Result<Self, ParseNibbleError>)
        requires
            s.spec_bytes().len() < usize::MAX - 1,
        ensures
            r.is_ok() <==> is_hex(s.spec_bytes()) && s.spec_bytes().len() <= 2 * CAP,
            r.is_ok() ==> r.unwrap().wf() && r.unwrap()@ == hex_values(s.spec_bytes()),
            r == Err::<Self, ParseNibbleError>(ParseNibbleError::TooLarge) <==> s.spec_bytes().len()
                > 2 * CAP && is_hex(s.spec_bytes().take(2 * CAP + 1)),
            r.is_err() ==> r == Err::<Self, ParseNibbleError>(ParseNibbleError::TooLarge) || r
                == Err::<Self, ParseNibbleError>(ParseNibbleError::BadFormat),
    {
        Self::from_ascii(s.as_bytes())
    }

    /// Number of nibbles in the vector.
    pub fn len(&self) -> (r: usize)
        requires
            self.wf(),
        ensures
            r == self@.len(),
    {
        self.inner.len()
    }

    /// Whether the vector is empty.
    pub fn is_empty(&self) -> (r: bool)
        requires
            self.wf(),
        ensures
            r == (self@.len() == 0),
    {
        self.inner.is_empty()
    }

    /// How many nibbles can be stored in the vector: two for each pair, as far as
    /// a `usize` can say it.
    pub fn capacity(&self) -> (r: usize)
        ensures
            2 * CAP <= usize::MAX ==> r == 2 * CAP,
            2 * CAP > usize::MAX ==> r == usize::MAX,
    {
        nibble_capacity(CAP)
    }

    /// Whether the vector is full: it holds `CAP` pairs and no half is pending.
    pub fn is_full(&self) -> (r: bool)
        requires
            self.wf(),
        ensures
            r == (self@.len() == 2 * CAP),
    {
        proof {
            self.inner.lemma_view();
        }
        self.inner.as_pairs().len() == CAP && self.inner.has_right_lo()
    }

    /// Whether the vector has room for one more nibble.
    fn has_room(&self) -> (r: bool)
        requires
            self.wf(),
        ensures
            r == (self@.len() < 2 * CAP),
    {
        proof {
            self.inner.lemma_view();
        }
        !self.inner.has_right_lo() || self.inner.as_pairs().len() < CAP
    }

    /// Pushes a nibble onto the vector. The vector must not be full.
    pub fn push<T: u4>(&mut self, nib: T)
        requires
            old(self).wf(),
            old(self)@.len() < 2 * CAP,
            old(self)@.len() < usize::MAX - 1,
        ensures
            final(self).wf(),
            final(self)@ == old(self)@.push(nib.value()),
            final(self).spec_has_right_lo() != old(self).spec_has_right_lo(),
    {
        proof {
            self.inner.lemma_view();
        }
        self.inner.push(nib);
        proof {
            self.inner.lemma_view();
        }
    }

    /// Pushes a nibble onto the vector if there is room for it, and gives it back
    /// if there is none.
    pub fn checked_push<T: u4>(&mut self, nib: T) -> (r: Result<(), T>)
        requires
            old(self).wf(),
            old(self)@.len() < usize::MAX - 1,
        ensures
            final(self).wf(),
            r.is_ok() <==> old(self)@.len() < 2 * CAP,
            r.is_ok() ==> final(self)@ == old(self)@.push(nib.value()),
            r.is_err() ==> r == Err::<(), T>(nib) && *final(self) == *old(self),
    {
        if self.has_room() {
            self.push(nib);
            Ok(())
        } else {
            Err(nib)
        }
    }

    /// Pushes a nibble onto the vector if possible. Where the vector is full, it
    /// stays as it is and the error keeps the nibble.
    pub fn try_push<T: u4>(&mut self, nib: T) -> (r: Result<(), CapacityError<T>>)
        requires
            old(self).wf(),
            old(self)@.len() < usize::MAX - 1,
        ensures
            final(self).wf(),
            r.is_ok() <==> old(self)@.len() < 2 * CAP,
            r.is_ok() ==> final(self)@ == old(self)@.push(nib.value()),
            r.is_err() ==> *final(self) == *old(self),
    {
        match self.checked_push(nib) {
            Ok(()) => Ok(()),
            Err(nib) => Err(capacity_error(nib)),
        }
    }

    /// Pushes a nibble onto the vector without checking if it's full. That there
    /// is room is for the caller to know.
    pub fn push_unchecked<T: u4>(&mut self, nib: T)
        requires
            old(self).wf(),
            old(self)@.len() < 2 * CAP,
            old(self)@.len() < usize::MAX - 1,
        ensures
            final(self).wf(),
            final(self)@ == old(self)@.push(nib.value()),
            final(self).spec_has_right_lo() != old(self).spec_has_right_lo(),
    {
        self.push(nib)
    }

    /// Pushes the nibbles of `nibs` onto the vector, one after another.
    pub fn extend<T: u4 + Copy>(&mut self, nibs: &[T])
        requires
            old(self).wf(),
            old(self)@.len() + nibs@.len() <= 2 * CAP,
            old(self)@.len() + nibs@.len() < usize::MAX,
        ensures
            final(self).wf(),
            final(self)@ == old(self)@ + nibs@.map_values(|nib: T| nib.value()),
    {
        let ghost values = nibs@.map_values(|nib: T| nib.value());
        let mut i: usize = 0;
        while i < nibs.len()
            invariant
                i <= nibs@.len(),
                self.wf(),
                values == nibs@.map_values(|nib: T| nib.value()),
                old(self)@.len() + nibs@.len() <= 2 * CAP,
                old(self)@.len() + nibs@.len() < usize::MAX,
                self@ == old(self)@ + values.subrange(0, i as int),
            decreases nibs@.len() - i,
        {
            let ghost before = self@;
            self.push(nibs[i]);
            proof {
                assert(values[i as int] == nibs@[i as int].value());
                assert(self@ =~= old(self)@ + values.subrange(0, i + 1));
            }
            i += 1;
        }
        proof {
            assert(values.subrange(0, i as int) =~= values);
        }
    }

    /// Inserts a nibble into the vector at the given index. The nibbles from that
    /// index on move one place towards the end. The vector must not be full.
    pub fn insert<T: u4>(&mut self, index: usize, nib: T)
        requires
            old(self).wf(),
            old(self)@.len() < 2 * CAP,
            old(self)@.len() < usize::MAX - 1,
            index <= old(self)@.len(),
        ensures
            final(self).wf(),
            final(self)@ == old(self)@.insert(index as int, nib.value()),
            final(self).spec_has_right_lo() != old(self).spec_has_right_lo(),
    {
        proof {
            self.inner.lemma_view();
        }
        self.inner.insert(index, nib);
        proof {
            self.inner.lemma_view();
        }
    }

    /// Inserts a nibble into the vector at the given index if there is room for
    /// it, and gives it back if there is none.
    pub fn checked_insert<T: u4>(&mut self, index: usize, nib: T) -> (r: Result<(), T>)
        requires
            old(self).wf(),
            old(self)@.len() < usize::MAX - 1,
            index <= old(self)@.len(),
        ensures
            final(self).wf(),
            r.is_ok() <==> old(self)@.len() < 2 * CAP,
            r.is_ok() ==> final(self)@ == old(self)@.insert(index as int, nib.value()),
            r.is_err() ==> r == Err::<(), T>(nib) && *final(self) == *old(self),
    {
        if self.has_room() {
            self.insert(index, nib);
            Ok(())
        } else {
            Err(nib)
        }
    }

    /// Inserts a nibble into the vector at the given index if possible. Where the
    /// vector is full, it stays as it is and the error keeps the nibble.
    pub fn try_insert<T: u4>(&mut self, index: usize, nib: T) -> (r: Result<(), CapacityError<T>>)
        requires
            old(self).wf(),
            old(self)@.len() < usize::MAX - 1,
            index <= old(self)@.len(),
        ensures
            final(self).wf(),
            r.is_ok() <==> old(self)@.len() < 2 * CAP,
            r.is_ok() ==> final(self)@ == old(self)@.insert(index as int, nib.value()),
            r.is_err() ==> *final(self) == *old(self),
    {
        match self.checked_insert(index, nib) {
            Ok(()) => Ok(()),
            Err(nib) => Err(capacity_error(nib)),
        }
    }

    /// Removes a nibble from the vector at the given index and returns it.
    pub fn remove<T: u4>(&mut self, index: usize) -> (r: T)
        requires
            old(self).wf(),
            index < old(self)@.len(),
        ensures
            final(self).wf(),
            r.value() == old(self)@[index as int],
            final(self)@ == old(self)@.remove(index as int),
            final(self).spec_has_right_lo() != old(self).spec_has_right_lo(),
    {
        proof {
            self.inner.lemma_view();
        }
        let ret: T = self.inner.remove(index);
        proof {
            self.inner.lemma_view();
        }
        ret
    }

    /// Removes a nibble from the vector at the given index, if there is one.
    pub fn pop_at<T: u4>(&mut self, index: usize) -> (r: Option<T>)
        requires
            old(self).wf(),
        ensures
            final(self).wf(),
            r.is_some() <==> index < old(self)@.len(),
            r.is_some() ==> r.unwrap().value() == old(self)@[index as int] && final(self)@ == old(self)@.remove(index as int),
            r.is_none() ==> *final(self) == *old(self),
    {
        if index >= self.len() {
            None
        } else {
            Some(self.remove(index))
        }
    }

    /// Removes the last nibble from the vector and returns it, or returns `None`
    /// when the vector is empty.
    pub fn pop<T: u4>(&mut self) -> (r: Option<T>)
        requires
            old(self).wf(),
        ensures
            final(self).wf(),
            r.is_some() <==> old(self)@.len() > 0,
            r.is_some() ==> r.unwrap().value() == old(self)@.last() && final(self)@ == old(self)@.drop_last(),
            r.is_none() ==> *final(self) == *old(self),
            r.is_some() ==> final(self).spec_has_right_lo() != old(self).spec_has_right_lo(),
    {
        proof {
            self.inner.lemma_view();
        }
        let ret: Option<T> = self.inner.pop();
        proof {
            self.inner.lemma_view();
        }
        ret
    }

    /// Clears the vector, removing all nibbles.
    pub fn clear(&mut self)
        ensures
            final(self).wf(),
            final(self)@ == Seq::<u8>::empty(),
            final(self).pairs() == Seq::<u4x2>::empty(),
            final(self).spec_has_right_lo(),
    {
        self.inner.clear();
    }

    /// The pairs of the vector as an array. The vector must hold `CAP` pairs.
    fn to_array(&self) -> (r: [u4x2; CAP])
        requires
            self.pairs().len() == CAP,
        ensures
            r@ == self.pairs(),
    {
        let pairs: &[u4x2] = self.inner.as_pairs();
        let mut array: [u4x2; CAP] = [u4x2::from_byte(0);CAP];
        let mut i: usize = 0;
        while i < CAP
            invariant
                i <= CAP,
                pairs@.len() == CAP,
                forall|k: int| 0 <= k < i ==> array@[k] == pairs@[k],
            decreases CAP - i,
        {
            array[i] = pairs[i];
            i += 1;
        }
        assert(array@ =~= pairs@);
        array
    }

    /// Converts the vector into an odd array, if it's full to one less than
    /// capacity. Otherwise the vector comes back as it is.
    pub fn into_odd_array(self) -> (r: Result<NibArrayOdd<CAP>, Self>)
        requires
            self.wf(),
        ensures
            r.is_ok() <==> self@.len() == 2 * CAP - 1,
            r.is_ok() ==> r.unwrap().pairs() == self.pairs() && nibbles_in(&r.unwrap()) == self@,
            r.is_err() ==> r == Err::<NibArrayOdd<CAP>, Self>(self),
    {
        proof {
            self.inner.lemma_view();
        }
        if self.inner.as_pairs().len() == CAP && !self.inner.has_right_lo() {
            Ok(NibArrayOdd { inner: self.to_array() })
        } else {
            Err(self)
        }
    }

    /// Converts the vector into an even array, if it's full to capacity.
    /// Otherwise the vector comes back as it is.
    pub fn into_even_array(self) -> (r: Result<NibArrayEven<CAP>, Self>)
        requires
            self.wf(),
        ensures
            r.is_ok() <==> self@.len() == 2 * CAP,
            r.is_ok() ==> r.unwrap().pairs() == self.pairs() && nibbles_in(&r.unwrap()) == self@,
            r.is_err() ==> r == Err::<NibArrayEven<CAP>, Self>(self),
    {
        proof {
            self.inner.lemma_view();
        }
        if self.inner.as_pairs().len() == CAP && self.inner.has_right_lo() {
            Ok(NibArrayEven { inner: self.to_array() })
        } else {
            Err(self)
        }
    }

    /// Interprets this array as a slice.
    pub fn as_slice(&self) -> (r: NibSliceAligned<'_>)
        ensures
            r.pairs() == self.pairs(),
            r.spec_has_right_lo() == self.spec_has_right_lo(),
            nibbles_in(&r) == self@,
    {
        self.inner.as_slice()
    }

    /// Interprets this array as a mutable slice: one cell for each of its pairs.
    ///
    /// What is written through the cells stays in the vector. The number of its
    /// nibbles does not change.
    pub fn as_mut_slice(&mut self) -> (r: NibSliceAlignedMut<'_>)
        ensures
            r.cells().len() == old(self).pairs().len(),
            r.spec_has_right_lo() == old(self).spec_has_right_lo(),
            final(self).spec_has_right_lo() == old(self).spec_has_right_lo(),
            final(self).pairs().len() == old(self).pairs().len(),
            final(self)@.len() == old(self)@.len(),
            old(self).wf() ==> final(self).wf(),
    {
        self.inner.as_mut_slice()
    }
}

impl<const CAP: usize> Default for NibArrayVec<CAP> {
    fn default() -> (r: Self)
        ensures
            r.wf(),
            r@ == Seq::<u8>::empty(),
    {
        NibArrayVec::new()
    }
}

/// An array with an even number of nibbles: `CAP` pairs, each with both halves.
#[derive(Clone, Copy, Debug)]
pub struct NibArrayEven<const CAP: usize> {
    inner: [u4x2; CAP],
}

impl<const CAP: usize> From<[u4x2; CAP]> for NibArrayEven<CAP> {
    fn from(inner: [u4x2; CAP]) -> (r: Self) {
        NibArrayEven { inner }
    }
}

impl<const CAP: usize> FromSpecImpl<[u4x2; CAP]> for NibArrayEven<CAP> {
    open spec fn obeys_from_spec() -> bool {
        true
    }

    closed spec fn from_spec(inner: [u4x2; CAP]) -> Self {
        NibArrayEven { inner }
    }
}

impl<const CAP: usize> Sealed for NibArrayEven<CAP> {
    open spec fn spec_has_left_hi(&self) -> bool {
        true
    }

    open spec fn spec_has_right_lo(&self) -> bool {
        true
    }

    closed spec fn pairs(&self) -> Seq<u4x2> {
        self.inner@
    }

    #[inline(always)]
    fn has_left_hi(&self) -> (r: bool) {
        true
    }

    #[inline(always)]
    fn has_right_lo(&self) -> (r: bool) {
        true
    }

    #[inline(always)]
    fn iter(&self) -> (r: NibblePairs<'_>) {
        NibblePairs::new(self.inner.as_slice())
    }
}

impl<const CAP: usize> NibSliceExt for NibArrayEven<CAP> {

}

impl<const CAP: usize> NibArrayEven<CAP> {
    /// An array holds `CAP` pairs, and the array made from pairs holds those.
    pub proof fn lemma_pairs(&self, inner: [u4x2; CAP])
        ensures
            self.pairs().len() == CAP,
            <Self as vstd::std_specs::convert::FromSpec<[u4x2; CAP]>>::from_spec(inner).pairs()
                == inner@,
    {
    }

    /// The array as a slice of nibbles.
    pub fn as_slice(&self) -> (r: NibSliceFull<'_>)
        ensures
            r.pairs() == self.pairs(),
    {
        NibSliceFull::from_slice(self.inner.as_slice())
    }

    /// The array as a mutable slice of nibbles: one cell for each of its pairs.
    pub fn as_mut_slice(&mut self) -> (r: NibSliceAlignedMut<'_>)
        ensures
            r.cells().len() == CAP,
            r.spec_has_right_lo(),
    {
        NibSliceAlignedMut::Even(cells_of(cell_of_slice(&mut self.inner)))
    }
}

/// An array with an odd number of nibbles: `CAP` pairs, without the low half of
/// the last.
#[derive(Clone, Copy, Debug)]
pub struct NibArrayOdd<const CAP: usize> {
    inner: [u4x2; CAP],
}

impl<const CAP: usize> From<[u4x2; CAP]> for NibArrayOdd<CAP> {
    fn from(inner: [u4x2; CAP]) -> (r: Self) {
        NibArrayOdd { inner }
    }
}

impl<const CAP: usize> FromSpecImpl<[u4x2; CAP]> for NibArrayOdd<CAP> {
    open spec fn obeys_from_spec() -> bool {
        true
    }

    closed spec fn from_spec(inner: [u4x2; CAP]) -> Self {
        NibArrayOdd { inner }
    }
}

impl<const CAP: usize> Sealed for NibArrayOdd<CAP> {
    open spec fn spec_has_left_hi(&self) -> bool {
        true
    }

    open spec fn spec_has_right_lo(&self) -> bool {
        false
    }

    closed spec fn pairs(&self) -> Seq<u4x2> {
        self.inner@
    }

    #[inline(always)]
    fn has_left_hi(&self) -> (r: bool) {
        true
    }

    #[inline(always)]
    fn has_right_lo(&self) -> (r: bool) {
        false
    }

    #[inline(always)]
    fn iter(&self) -> (r: NibblePairs<'_>) {
        NibblePairs::new(self.inner.as_slice())
    }
}

impl<const CAP: usize> NibSliceExt for NibArrayOdd<CAP> {

}

impl<const CAP: usize> NibArrayOdd<CAP> {
    /// An array holds `CAP` pairs, and the array made from pairs holds those.
    pub proof fn lemma_pairs(&self, inner: [u4x2; CAP])
        ensures
            self.pairs().len() == CAP,
            <Self as vstd::std_specs::convert::FromSpec<[u4x2; CAP]>>::from_spec(inner).pairs()
                == inner@,
    {
    }

    /// The array as a slice of nibbles.
    pub fn as_slice(&self) -> (r: NibSliceNoR<'_>)
        ensures
            r.pairs() == self.pairs(),
    {
        NibSliceNoR::from_slice(self.inner.as_slice())
    }

    /// The array as a mutable slice of nibbles: one cell for each of its pairs.
    pub fn as_mut_slice(&mut self) -> (r: NibSliceAlignedMut<'_>)
        ensures
            r.cells().len() == CAP,
            !r.spec_has_right_lo(),
    {
        NibSliceAlignedMut::Odd(cells_of(cell_of_slice(&mut self.inner)))
    }
}

/// An array of nibbles.
#[derive(Clone, Copy, Debug)]
pub enum NibArray<const CAP: usize> {
    /// An array with an even number of nibbles.
    Even(NibArrayEven<CAP>),
    /// An array with an odd number of nibbles.
    Odd(NibArrayOdd<CAP>),
}

impl<const CAP: usize> NibArray<CAP> {
    /// Interprets this array as a slice.
    pub fn as_slice(&self) -> (r: NibSliceAligned<'_>)
        ensures
            r.pairs() == self.pairs(),
            r.spec_has_right_lo() == self.spec_has_right_lo(),
    {
        match self {
            NibArray::Even(e) => NibSliceAligned::Even(e.as_slice()),
            NibArray::Odd(e) => NibSliceAligned::Odd(e.as_slice()),
        }
    }

    /// Interprets this array as a mutable slice.
    pub fn as_mut_slice(&mut self) -> (r: NibSliceAlignedMut<'_>)
        ensures
            r.cells().len() == CAP,
            r.spec_has_right_lo() == old(self).spec_has_right_lo(),
    {
        match self {
            NibArray::Even(e) => e.as_mut_slice(),
            NibArray::Odd(e) => e.as_mut_slice(),
        }
    }
}

impl<const CAP: usize> Sealed for NibArray<CAP> {
    open spec fn spec_has_left_hi(&self) -> bool {
        true
    }

    open spec fn spec_has_right_lo(&self) -> bool {
        match *self {
            NibArray::Even(_) => true,
            NibArray::Odd(_) => false,
        }
    }

    open spec fn pairs(&self) -> Seq<u4x2> {
        match *self {
            NibArray::Even(s) => s.pairs(),
            NibArray::Odd(s) => s.pairs(),
        }
    }

    #[inline(always)]
    fn has_left_hi(&self) -> (r: bool) {
        true
    }

    fn has_right_lo(&self) -> (r: bool) {
        match *self {
            NibArray::Even(_) => true,
            NibArray::Odd(_) => false,
        }
    }

    fn iter(&self) -> (r: NibblePairs<'_>) {
        match self {
            NibArray::Even(s) => s.iter(),
            NibArray::Odd(s) => s.iter(),
        }
    }
}

impl<const CAP: usize> NibSliceExt for NibArray<CAP> {

}

} // verus!
