//! A growable vector of nibbles.
use vstd::prelude::*;
use vstd::string::StringSliceAdditionalSpecFns;
use crate::base::{hex_values, is_hex, u4, u4lo, ParseNibbleError};
use crate::common::{flatten, get_nib, nibble_count, nibbles_of, set_nib, shift_left, shift_right};
use crate::common::{lemma_flatten_drop_last, lemma_flatten_push, lemma_flatten_range};
use crate::iter::NibblePairs;
use crate::pair::{cell_of_slice, cells_of, u4x2};
use crate::slice::{nibbles_in, NibSliceAligned, NibSliceAlignedMut, NibSliceExt, NibSliceFull};
use crate::slice::{NibSliceNoR, Sealed, SealedMut};

verus! {

/// A `Vec` of nibbles.
///
/// The nibbles are packed two to a byte. When their number is odd, the low half
/// of the last byte is not part of the vector: it is pending, and the next nibble
/// that is pushed goes there.
#[derive(Clone, Debug)]
pub struct NibVec {
    inner: Vec<u4x2>,
    has_right_lo: bool,
}

impl View for NibVec {
    type V = Seq<u8>;

    /// The nibbles of the vector, in order: those of its pairs, without the low
    /// half of the last pair where that half is pending.
    open spec fn view(&self) -> Seq<u8> {
        nibbles_in(self)
    }
}

/// The nibbles of a container after the nibbles of `values` were pushed onto it
/// one by one.
pub open spec fn after_pushes(nibbles: Seq<u8>, values: Seq<u8>) -> Seq<u8>
    decreases values.len(),
{
    if values.len() == 0 {
        nibbles
    } else {
        after_pushes(nibbles, values.drop_last()).push(values.last())
    }
}

/// The nibbles of a container after `count` pops.
pub open spec fn after_pops(nibbles: Seq<u8>, count: nat) -> Seq<u8>
    decreases count,
{
    if count == 0 || nibbles.len() == 0 {
        nibbles
    } else {
        after_pops(nibbles.drop_last(), (count - 1) as nat)
    }
}

/// What a pop returns from a container that holds `nibbles`.
pub open spec fn popped(nibbles: Seq<u8>) -> Option<u8> {
    if nibbles.len() == 0 {
        None
    } else {
        Some(nibbles.last())
    }
}

/// Pushing puts the values behind what was there, in their order.
pub proof fn lemma_after_pushes(nibbles: Seq<u8>, values: Seq<u8>)
    ensures
        after_pushes(nibbles, values) == nibbles + values,
    decreases values.len(),
{
    if values.len() > 0 {
        lemma_after_pushes(nibbles, values.drop_last());
        assert(values.drop_last().push(values.last()) =~= values);
        assert((nibbles + values.drop_last()).push(values.last()) =~= nibbles + values);
    } else {
        assert(nibbles + values =~= nibbles);
    }
}

/// Popping takes nibbles from the end, as many as were asked for and there are.
pub proof fn lemma_after_pops(nibbles: Seq<u8>, count: nat)
    ensures
        count <= nibbles.len() ==> after_pops(nibbles, count) == nibbles.take(
            nibbles.len() - count,
        ),
        count > nibbles.len() ==> after_pops(nibbles, count) == Seq::<u8>::empty(),
    decreases count,
{
    if count == 0 || nibbles.len() == 0 {
        assert(nibbles.take(nibbles.len() as int) =~= nibbles);
        if nibbles.len() == 0 {
            assert(nibbles =~= Seq::<u8>::empty());
        }
    } else {
        lemma_after_pops(nibbles.drop_last(), (count - 1) as nat);
        if count <= nibbles.len() {
            assert(nibbles.drop_last().take(nibbles.len() - count) =~= nibbles.take(
                nibbles.len() - count,
            ));
        }
    }
}

/// After `values` were pushed onto an empty container it holds as many nibbles
/// as were pushed. As many pops then return the values in reverse order, and
/// leave the container empty. On a container that held nibbles before, the same
/// pops leave those.
pub proof fn lemma_pushes_then_pops(nibbles: Seq<u8>, values: Seq<u8>)
    ensures
        after_pushes(Seq::<u8>::empty(), values).len() == values.len(),
        after_pushes(nibbles, values).len() == nibbles.len() + values.len(),
        forall|k: nat|
            k < values.len() ==> popped(#[trigger] after_pops(after_pushes(nibbles, values), k))
                == Some(values[values.len() - 1 - k]),
        after_pops(after_pushes(nibbles, values), values.len()) == nibbles,
        after_pops(after_pushes(Seq::<u8>::empty(), values), values.len()) == Seq::<u8>::empty(),
{
    lemma_after_pushes(nibbles, values);
    lemma_after_pushes(Seq::<u8>::empty(), values);
    let all = nibbles + values;
    assert forall|k: nat| k < values.len() implies popped(#[trigger] after_pops(all, k)) == Some(
        values[values.len() - 1 - k],
    ) by {
        lemma_after_pops(all, k);
    }
    lemma_after_pops(all, values.len());
    assert(all.take(nibbles.len() as int) =~= nibbles);
    lemma_after_pops(Seq::<u8>::empty() + values, values.len());
    assert((Seq::<u8>::empty() + values).take(0) =~= Seq::<u8>::empty());
}

/// A nibble that was inserted at an index is the one that a removal at that
/// index returns, and the removal leaves the nibbles that were there before the
/// insertion.
pub proof fn lemma_insert_then_remove(nibbles: Seq<u8>, index: int, value: u8)
    requires
        0 <= index <= nibbles.len(),
    ensures
        nibbles.insert(index, value).len() == nibbles.len() + 1,
        nibbles.insert(index, value)[index] == value,
        nibbles.insert(index, value).remove(index) == nibbles,
{
    assert(nibbles.insert(index, value).remove(index) =~= nibbles);
}

/// The number of nibbles that `pairs` pairs of storage can hold: two for each
/// pair, or `usize::MAX` where that is more than a `usize` can say.
pub open spec fn nibbles_for(pairs: usize) -> usize {
    if 2 * pairs <= usize::MAX {
        (2 * pairs) as usize
    } else {
        usize::MAX
    }
}

/// The number of nibbles that `pairs` pairs of storage can hold, as far as a
/// `usize` can say it.
pub fn nibble_capacity(pairs: usize) -> (r: usize)
    ensures
        r == nibbles_for(pairs),
        2 * pairs <= usize::MAX ==> r == 2 * pairs,
        2 * pairs > usize::MAX ==> r == usize::MAX,
{
    if pairs > usize::MAX / 2 {
        usize::MAX
    } else {
        pairs * 2
    }
}

/// `Vec::capacity`: the number of pairs that the vector has room for. The number
/// depends on the allocator, so nothing is claimed of it.
#[verifier::external_body]
fn pair_capacity(pairs: &Vec<u4x2>) -> (r: usize) {
    pairs.capacity()
}

impl Sealed for NibVec {
    /// A vector begins with the high half of its first pair.
    open spec fn spec_has_left_hi(&self) -> bool {
        true
    }

    /// Whether the low half of the last pair belongs to the vector. Where it
    /// does not, that half is pending.
    closed spec fn spec_has_right_lo(&self) -> bool {
        self.has_right_lo
    }

    /// The packed pairs that the vector is stored in.
    closed spec fn pairs(&self) -> Seq<u4x2> {
        self.inner@
    }

    #[inline(always)]
    fn has_left_hi(&self) -> (r: bool) {
        true
    }

    #[inline(always)]
    fn has_right_lo(&self) -> (r: bool) {
        self.has_right_lo
    }

    #[inline(always)]
    fn iter(&self) -> (r: NibblePairs<'_>) {
        NibblePairs::new(self.inner.as_slice())
    }
}

impl NibSliceExt for NibVec {

}

impl NibVec {
    /// What every vector upholds: a pending half lies in a pair that exists, and
    /// the number of nibbles fits in a `usize`.
    pub closed spec fn wf(&self) -> bool {
        &&& self.has_right_lo || self.inner@.len() > 0
        &&& 2 * self.inner@.len() <= usize::MAX
    }

    /// The view of a vector is what its pairs and its pending half stand for.
    pub proof fn lemma_view(&self)
        ensures
            self@ == nibbles_of(self.pairs(), true, self.spec_has_right_lo()),
            self@ == nibbles_in(self),
            self@.len() == nibble_count(self.pairs().len(), true, self.spec_has_right_lo()),
            self.wf() ==> (self.spec_has_right_lo() || self.pairs().len() > 0),
            self.wf() ==> 2 * self.pairs().len() <= usize::MAX,
            forall|i: int| 0 <= i < self@.len() ==> #[trigger] self@[i] < 16,
    {
        lemma_flatten_range(self.pairs());
    }

    /// Creates an empty vector.
    pub fn new() -> (r: Self)
        ensures
            r.wf(),
            r@ == Seq::<u8>::empty(),
            r.pairs() == Seq::<u4x2>::empty(),
            r.spec_has_right_lo(),
    {
        NibVec { inner: Vec::new(), has_right_lo: true }
    }

    /// Creates a vector from a vector of pairs. Every pair gives two nibbles.
    pub fn from_pair_vec(inner: Vec<u4x2>) -> (r: Self)
        requires
            2 * inner@.len() <= usize::MAX,
        ensures
            r.wf(),
            r.pairs() == inner@,
            r.spec_has_right_lo(),
            r@ == flatten(inner@),
    {
        proof {
            assert(nibbles_of(inner@, true, true) =~= flatten(inner@));
        }
        NibVec { inner, has_right_lo: true }
    }

    /// Creates a vector from a vector of bytes. Every byte gives two nibbles, the
    /// high-order one first.
    pub fn from_byte_vec(inner: Vec<u8>) -> (r: Self)
        requires
            2 * inner@.len() <= usize::MAX,
        ensures
            r.wf(),
            r.spec_has_right_lo(),
            r.pairs().len() == inner@.len(),
            forall|i: int| 0 <= i < inner@.len() ==> (#[trigger] r.pairs()[i])@ == inner@[i],
            r@ == flatten(r.pairs()),
    {
        let mut pairs: Vec<u4x2> = Vec::new();
        let mut i: usize = 0;
        while i < inner.len()
            invariant
                i <= inner@.len(),
                pairs@.len() == i,
                forall|k: int| 0 <= k < i ==> (#[trigger] pairs@[k])@ == inner@[k],
            decreases inner@.len() - i,
        {
            pairs.push(u4x2::from_byte(inner[i]));
            i += 1;
        }
        NibVec::from_pair_vec(pairs)
    }

    /// Number of nibbles in the vector.
    pub fn len(&self) -> (r: usize)
        requires
            self.wf(),
        ensures
            r == self@.len(),
    {
        if self.has_right_lo {
            self.inner.len() * 2
        } else {
            self.inner.len() * 2 - 1
        }
    }

    /// Whether the vector is empty.
    pub fn is_empty(&self) -> (r: bool)
        requires
            self.wf(),
        ensures
            r == (self@.len() == 0),
    {
        self.inner.is_empty()
    }

    /// How many nibbles can be stored in the vector before it has to grow: twice
    /// the number of pairs that its storage has room for.
    ///
    /// How many pairs the storage has room for is up to the allocator. Whatever
    /// that number is, the result is the number of nibbles for it.
    pub fn capacity(&self) -> (r: usize)
        ensures
            exists|pairs: usize| r == #[trigger] nibbles_for(pairs),
    {
        nibble_capacity(pair_capacity(&self.inner))
    }

    /// Creates a vector from a string of ASCII hex digits, one nibble for each
    /// digit. A byte that is no hex digit is an error.
    pub fn from_ascii(s: &[u8]) -> (r: Result<Self, ParseNibbleError>)
        requires
            s@.len() < usize::MAX - 1,
        ensures
            r.is_ok() <==> is_hex(s@),
            r.is_ok() ==> r.unwrap().wf() && r.unwrap()@ == hex_values(s@),
            r.is_err() ==> r == Err::<Self, ParseNibbleError>(ParseNibbleError::BadFormat),
    {
        let mut ret = NibVec::new();
        let mut i: usize = 0;
        while i < s.len()
            invariant
                i <= s@.len(),
                s@.len() < usize::MAX - 1,
                ret.wf(),
                is_hex(s@.take(i as int)),
                ret@ == hex_values(s@.take(i as int)),
            decreases s@.len() - i,
        {
            let nib: u4lo = match u4lo::from_ascii_digit(s[i]) {
                Some(nib) => nib,
                None => {
                    return Err(ParseNibbleError::BadFormat);
                },
            };
            ret.push(nib);
            proof {
                assert(s@.take(i + 1) =~= s@.take(i as int).push(s@[i as int]));
                assert(ret@ =~= hex_values(s@.take(i + 1)));
            }
            i += 1;
        }
        proof {
            assert(s@.take(i as int) =~= s@);
        }
        Ok(ret)
    }

    /// Creates a vector from a string of hex digits, one nibble for each digit.
    /// A character that is no hex digit is an error.
    pub fn from_str(s: &str) -> (r: Result<Self, ParseNibbleError>)
        requires
            s.spec_bytes().len() < usize::MAX - 1,
        ensures
            r.is_ok() <==> is_hex(s.spec_bytes()),
            r.is_ok() ==> r.unwrap().wf() && r.unwrap()@ == hex_values(s.spec_bytes()),
            r.is_err() ==> r == Err::<Self, ParseNibbleError>(ParseNibbleError::BadFormat),
    {
        NibVec::from_ascii(s.as_bytes())
    }

    /// Pushes a nibble onto the vector, which always has room for it.
    pub fn try_push<T: u4>(&mut self, nib: T) -> (r: Result<(), ParseNibbleError>)
        requires
            old(self).wf(),
            old(self)@.len() < usize::MAX - 1,
        ensures
            r.is_ok(),
            final(self).wf(),
            final(self)@ == old(self)@.push(nib.value()),
    {
        self.push(nib);
        Ok(())
    }

    /// Pushes a nibble onto the vector.
    ///
    /// A pending half takes the nibble. Where there is none, a new pair is added
    /// with the nibble in its high half, and its low half is pending.
    pub fn push<T: u4>(&mut self, nib: T)
        requires
            old(self).wf(),
            old(self)@.len() < usize::MAX - 1,
        ensures
            final(self).wf(),
            final(self)@ == old(self)@.push(nib.value()),
            final(self).spec_has_right_lo() != old(self).spec_has_right_lo(),
    {
        let ghost before = self.inner@;
        if self.has_right_lo {
            let pair: u4x2 = u4x2::from_hi(nib.to_u4hi());
            self.inner.push(pair);
            self.has_right_lo = false;
            proof {
                nib.lemma_value_range();
                lemma_flatten_push(before, pair);
                assert(self@ =~= nibbles_of(before, true, true).push(nib.value()));
            }
        } else {
            let i: usize = self.inner.len() - 1;
            let mut pair: u4x2 = self.inner[i];
            pair.set_lo(nib);
            self.inner[i] = pair;
            self.has_right_lo = true;
            proof {
                let want = nibbles_of(before, true, false).push(nib.value());
                assert forall|j: int| 0 <= j < want.len() implies self@[j] == want[j] by {
                    if j / 2 != i {
                        assert(self.inner@[j / 2] == before[j / 2]);
                    }
                }
                assert(self@ =~= want);
            }
        }
    }

    /// Inserts a nibble into the vector at the given index. The nibbles from that
    /// index on move one place towards the end.
    ///
    /// A placeholder zero is pushed first, which fills the pending half or, where
    /// none is pending, begins a new pair. Then the nibbles move, the placeholder
    /// leaves at the end, and the nibble is written into the place that was made.
    pub fn insert<T: u4>(&mut self, index: usize, nib: T)
        requires
            old(self).wf(),
            old(self)@.len() < usize::MAX - 1,
            index <= old(self)@.len(),
        ensures
            final(self).wf(),
            final(self)@ == old(self)@.insert(index as int, nib.value()),
            final(self).spec_has_right_lo() != old(self).spec_has_right_lo(),
    {
        let ghost before = self@;
        // a placeholder takes the place that the nibbles will move into
        self.push(u4lo::from_lo(0));
        let ghost grown = self.inner@;
        proof {
            self.lemma_view();
            assert(self@ == before.push(0u8));
            assert(index < 2 * grown.len());
        }
        shift_right(self.inner.as_mut_slice(), index);
        let ghost shifted = self.inner@;
        set_nib(self.inner.as_mut_slice(), index, nib);
        proof {
            let want = before.insert(index as int, nib.value());
            assert forall|j: int| 0 <= j < want.len() implies self@[j] == want[j] by {
                assert(flatten(self.inner@)[j] == flatten(shifted).update(
                    index as int,
                    nib.value(),
                )[j]);
                if j > index {
                    assert(flatten(shifted)[j] == flatten(grown)[j - 1]);
                    assert(flatten(grown)[j - 1] == before.push(0u8)[j - 1]);
                } else if j < index {
                    assert(flatten(shifted)[j] == flatten(grown)[j]);
                    assert(flatten(grown)[j] == before.push(0u8)[j]);
                }
            }
            assert(self@ =~= want);
        }
    }

    /// Drops the nibble at the given index. The nibbles after it move one place
    /// towards the start.
    pub fn discard_at(&mut self, index: usize)
        requires
            old(self).wf(),
            index < old(self)@.len(),
        ensures
            final(self).wf(),
            final(self)@ == old(self)@.remove(index as int),
            final(self).spec_has_right_lo() != old(self).spec_has_right_lo(),
    {
        let ghost before = self@;
        let ghost stored = self.inner@;
        shift_left(self.inner.as_mut_slice(), index);
        let ghost shifted = self.inner@;
        self.has_right_lo = !self.has_right_lo;
        if self.has_right_lo {
            self.inner.pop();
            proof {
                lemma_flatten_drop_last(shifted);
            }
        }
        proof {
            let want = before.remove(index as int);
            assert forall|j: int| 0 <= j < want.len() implies self@[j] == want[j] by {
                assert(self@[j] == flatten(shifted)[j]);
                assert(flatten(shifted)[j] == flatten(stored).remove(index as int).push(0u8)[j]);
            }
            assert(self@ =~= want);
        }
    }

    /// Removes a nibble from the vector at the given index and returns it.
    pub fn remove<T: u4>(&mut self, index: usize) -> (r: T)
        requires
            old(self).wf(),
            index < old(self)@.len(),
        ensures
            final(self).wf(),
            r.value() == old(self)@[index as int],
            final(self)@ == old(self)@.remove(index as int),
            final(self).spec_has_right_lo() != old(self).spec_has_right_lo(),
    {
        let ret: T = get_nib(self.inner.as_slice(), index);
        self.discard_at(index);
        ret
    }

    /// Removes a nibble from the vector at the given index, if there is one.
    pub fn pop_at<T: u4>(&mut self, index: usize) -> (r: Option<T>)
        requires
            old(self).wf(),
        ensures
            final(self).wf(),
            r.is_some() <==> index < old(self)@.len(),
            r.is_some() ==> r.unwrap().value() == old(self)@[index as int] && final(self)@ == old(self)@.remove(index as int),
            r.is_none() ==> *final(self) == *old(self),
    {
        if index >= self.len() {
            None
        } else {
            Some(self.remove(index))
        }
    }

    /// Removes the last nibble from the vector and returns it, or returns `None`
    /// when the vector is empty.
    ///
    /// When the last nibble is the low half of a pair, the pair stays where it is
    /// with its bits as they are, and that half is pending from then on. When it
    /// is the high half, the pair leaves the storage.
    pub fn pop<T: u4>(&mut self) -> (r: Option<T>)
        requires
            old(self).wf(),
        ensures
            final(self).wf(),
            r.is_some() <==> old(self)@.len() > 0,
            r.is_some() ==> r.unwrap().value() == old(self)@.last() && final(self)@ == old(self)@.drop_last(),
            r.is_none() ==> *final(self) == *old(self),
            r.is_some() ==> final(self).spec_has_right_lo() != old(self).spec_has_right_lo(),
            r.is_some() && old(self).spec_has_right_lo() ==> final(self).pairs() == old(self).pairs(),
            r.is_some() && !old(self).spec_has_right_lo() ==> final(self).pairs() == old(self).pairs().drop_last(),
    {
        let ghost before = self@;
        let ghost stored = self.inner@;
        if self.inner.len() == 0 {
            None
        } else if self.has_right_lo {
            self.has_right_lo = false;
            let last: u4x2 = self.inner[self.inner.len() - 1];
            proof {
                assert(self@ =~= before.drop_last());
            }
            Some(T::from_lo(last.lo().to_lo()))
        } else {
            self.has_right_lo = true;
            let last: u4x2 = self.inner.pop().unwrap();
            proof {
                lemma_flatten_drop_last(stored);
                assert(self@ =~= before.drop_last());
            }
            Some(T::from_hi(last.hi().to_hi()))
        }
    }

    /// Interprets this vector as a slice: the view over its pairs, without the low
    /// half of the last pair where that half is pending.
    pub fn as_slice(&self) -> (r: NibSliceAligned<'_>)
        ensures
            r.pairs() == self.pairs(),
            r.spec_has_right_lo() == self.spec_has_right_lo(),
            nibbles_in(&r) == self@,
    {
        if self.has_right_lo {
            NibSliceAligned::Even(NibSliceFull::from_slice(self.inner.as_slice()))
        } else {
            NibSliceAligned::Odd(NibSliceNoR::from_slice(self.inner.as_slice()))
        }
    }

    /// Interprets this vector as a mutable slice: one cell for each of its pairs,
    /// without the low half of the last pair where that half is pending.
    ///
    /// What is written through the cells stays in the vector. The number of its
    /// nibbles does not change.
    pub fn as_mut_slice(&mut self) -> (r: NibSliceAlignedMut<'_>)
        ensures
            r.cells().len() == old(self).pairs().len(),
            r.spec_has_right_lo() == old(self).spec_has_right_lo(),
            final(self).spec_has_right_lo() == old(self).spec_has_right_lo(),
            final(self).pairs().len() == old(self).pairs().len(),
            final(self)@.len() == old(self)@.len(),
            old(self).wf() ==> final(self).wf(),
    {
        let even: bool = self.has_right_lo;
        let cells = cells_of(cell_of_slice(self.inner.as_mut_slice()));
        if even {
            NibSliceAlignedMut::Even(cells)
        } else {
            NibSliceAlignedMut::Odd(cells)
        }
    }

    /// The pairs that the vector is stored in.
    pub fn as_pairs(&self) -> (r: &[u4x2])
        ensures
            r@ == self.pairs(),
    {
        self.inner.as_slice()
    }

    /// Clears the vector, removing all nibbles.
    pub fn clear(&mut self)
        ensures
            final(self).wf(),
            final(self)@ == Seq::<u8>::empty(),
            final(self).pairs() == Seq::<u4x2>::empty(),
            final(self).spec_has_right_lo(),
    {
        self.inner.clear();
        self.has_right_lo = true;
    }
}

impl Default for NibVec {
    fn default() -> (r: Self)
        ensures
            r.wf(),
            r@ == Seq::<u8>::empty(),
    {
        NibVec::new()
    }
}

} // verus!
