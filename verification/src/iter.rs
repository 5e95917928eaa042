//! Various iterators for slices of nibbles.
use vstd::prelude::*;
use core::cell::Cell;
use crate::base::{u4, u4lo};
use crate::common::{flatten, hi_nib, lo_nib, nibbles_of};
use crate::pair::{all_halves, halves_of, lemma_all_halves_first, lemma_all_halves_last};
use crate::pair::{lemma_halves_of_drops, u4x2, Half, Iter, IterMut, U4HalfCell, U4HiCell, U4LoCell};

verus! {

/// Iterator over pairs of nibbles in a slice. Its view is the pairs that are
/// still to come.
#[derive(Clone, Copy)]
pub struct NibblePairs<'a> {
    inner: &'a [u4x2],
}

impl<'a> View for NibblePairs<'a> {
    type V = Seq<u4x2>;

    closed spec fn view(&self) -> Seq<u4x2> {
        self.inner@
    }
}

impl<'a> NibblePairs<'a> {
    /// An iterator over all the pairs of `inner`.
    pub fn new(inner: &'a [u4x2]) -> (r: Self)
        ensures
            r@ == inner@,
    {
        NibblePairs { inner }
    }

    /// The pairs that are still to come, as a slice.
    pub fn as_slice(&self) -> (r: &'a [u4x2])
        ensures
            r@ == self@,
    {
        self.inner
    }

    /// The next pair from the front, if any is left.
    pub fn next(&mut self) -> (r: Option<&'a u4x2>)
        ensures
            old(self)@.len() == 0 ==> r.is_none() && final(self)@ == old(self)@,
            old(self)@.len() > 0 ==> r == Some(&old(self)@.first()) && final(self)@ == old(self)@.drop_first(),
    {
        let all: &'a [u4x2] = self.inner;
        if all.len() == 0 {
            None
        } else {
            self.inner = &all[1..all.len()];
            Some(&all[0])
        }
    }

    /// The next pair from the back, if any is left.
    pub fn next_back(&mut self) -> (r: Option<&'a u4x2>)
        ensures
            old(self)@.len() == 0 ==> r.is_none() && final(self)@ == old(self)@,
            old(self)@.len() > 0 ==> r == Some(&old(self)@.last()) && final(self)@ == old(self)@.drop_last(),
    {
        let all: &'a [u4x2] = self.inner;
        if all.len() == 0 {
            None
        } else {
            self.inner = &all[0..all.len() - 1];
            Some(&all[all.len() - 1])
        }
    }

    /// The number of pairs that are left.
    pub fn len(&self) -> (r: usize)
        ensures
            r == self@.len(),
    {
        self.inner.len()
    }

    /// The bounds on the number of pairs that are left, which are both exact.
    pub fn size_hint(&self) -> (r: (usize, Option<usize>))
        ensures
            r.0 == self@.len(),
            r.1 == Some(r.0),
    {
        let len: usize = self.len();
        (len, Some(len))
    }

    /// Uses the iterator up and says how many pairs were left.
    pub fn count(self) -> (r: usize)
        ensures
            r == self@.len(),
    {
        self.inner.len()
    }

    /// Skips `n` pairs and returns the one after them. When fewer than `n + 1`
    /// pairs are left, none is returned and none stays.
    pub fn nth(&mut self, n: usize) -> (r: Option<&'a u4x2>)
        ensures
            n < old(self)@.len() ==> r == Some(&old(self)@[n as int]) && final(self)@ == old(self)@.skip(n + 1),
            n >= old(self)@.len() ==> r.is_none() && final(self)@ == Seq::<u4x2>::empty(),
    {
        let all: &'a [u4x2] = self.inner;
        if n < all.len() {
            self.inner = &all[n + 1..all.len()];
            Some(&all[n])
        } else {
            self.inner = &all[0..0];
            assert(self@ =~= Seq::<u4x2>::empty());
            None
        }
    }

    /// Takes pairs from the front up to the first for which `predicate` answers
    /// `wanted`, and returns that pair with the number of pairs before it. Where
    /// there is no such pair, every pair is taken.
    pub fn seek<F: Fn(&u4x2) -> bool>(&mut self, predicate: &F, wanted: bool) -> (r: Option<
        (usize, &'a u4x2),
    >)
        requires
            forall|k: int|
                0 <= k < old(self)@.len() ==> call_requires(*predicate, (&#[trigger] old(self)@[k],)),
        ensures
            match r {
                Some((at, pair)) => {
                    &&& at < old(self)@.len()
                    &&& *pair == old(self)@[at as int]
                    &&& call_ensures(*predicate, (&old(self)@[at as int],), wanted)
                    &&& forall|j: int|
                        0 <= j < at ==> call_ensures(
                            *predicate,
                            (&#[trigger] old(self)@[j],),
                            !wanted,
                        )
                    &&& final(self)@ == old(self)@.skip(at + 1)
                },
                None => {
                    &&& forall|j: int|
                        0 <= j < old(self)@.len() ==> call_ensures(
                            *predicate,
                            (&#[trigger] old(self)@[j],),
                            !wanted,
                        )
                    &&& final(self)@ == Seq::<u4x2>::empty()
                },
            },
    {
        let total: usize = self.len();
        let mut at: usize = 0;
        loop
            invariant
                at <= old(self)@.len(),
                total == old(self)@.len(),
                self@ == old(self)@.skip(at as int),
                forall|k: int|
                    0 <= k < old(self)@.len() ==> call_requires(
                        *predicate,
                        (&#[trigger] old(self)@[k],),
                    ),
                forall|j: int|
                    0 <= j < at ==> call_ensures(*predicate, (&#[trigger] old(self)@[j],), !wanted),
            decreases old(self)@.len() - at,
        {
            match self.next() {
                None => {
                    assert(self@ =~= Seq::<u4x2>::empty());
                    return None;
                },
                Some(pair) => {
                    assert(*pair == old(self)@[at as int]);
                    assert(self@ =~= old(self)@.skip(at + 1));
                    if predicate(pair) == wanted {
                        return Some((at, pair));
                    }
                    at += 1;
                },
            }
        }
    }

    /// Tests whether `predicate` holds of every pair that is left. The pairs are
    /// taken up to the first of which it does not hold.
    pub fn all<F: Fn(&u4x2) -> bool>(&mut self, predicate: F) -> (r: bool)
        requires
            forall|k: int|
                0 <= k < old(self)@.len() ==> call_requires(predicate, (&#[trigger] old(self)@[k],)),
        ensures
            r ==> final(self)@ == Seq::<u4x2>::empty() && forall|j: int|
                0 <= j < old(self)@.len() ==> call_ensures(
                    predicate,
                    (&#[trigger] old(self)@[j],),
                    true,
                ),
            !r ==> exists|at: int|
                0 <= at < old(self)@.len() && call_ensures(
                    predicate,
                    (&#[trigger] old(self)@[at],),
                    false,
                ) && final(self)@ == old(self)@.skip(at + 1),
    {
        self.seek(&predicate, false).is_none()
    }

    /// Tests whether `predicate` holds of any pair that is left. The pairs are
    /// taken up to the first of which it holds.
    pub fn any<F: Fn(&u4x2) -> bool>(&mut self, predicate: F) -> (r: bool)
        requires
            forall|k: int|
                0 <= k < old(self)@.len() ==> call_requires(predicate, (&#[trigger] old(self)@[k],)),
        ensures
            !r ==> final(self)@ == Seq::<u4x2>::empty() && forall|j: int|
                0 <= j < old(self)@.len() ==> call_ensures(
                    predicate,
                    (&#[trigger] old(self)@[j],),
                    false,
                ),
            r ==> exists|at: int|
                0 <= at < old(self)@.len() && call_ensures(
                    predicate,
                    (&#[trigger] old(self)@[at],),
                    true,
                ) && final(self)@ == old(self)@.skip(at + 1),
    {
        self.seek(&predicate, true).is_some()
    }

    /// The first pair of which `predicate` holds. The pairs are taken up to it.
    pub fn find<F: Fn(&u4x2) -> bool>(&mut self, predicate: F) -> (r: Option<&'a u4x2>)
        requires
            forall|k: int|
                0 <= k < old(self)@.len() ==> call_requires(predicate, (&#[trigger] old(self)@[k],)),
        ensures
            r.is_none() ==> final(self)@ == Seq::<u4x2>::empty() && forall|j: int|
                0 <= j < old(self)@.len() ==> call_ensures(
                    predicate,
                    (&#[trigger] old(self)@[j],),
                    false,
                ),
            r.is_some() ==> exists|at: int|
                0 <= at < old(self)@.len() && *r.unwrap() == #[trigger] old(self)@[at]
                    && call_ensures(predicate, (&old(self)@[at],), true) && final(self)@ == old(self)@.skip(at + 1) && forall|j: int|
                    0 <= j < at ==> call_ensures(predicate, (&#[trigger] old(self)@[j],), false),
    {
        match self.seek(&predicate, true) {
            Some((_, pair)) => Some(pair),
            None => None,
        }
    }

    /// The number of pairs before the first of which `predicate` holds. The
    /// pairs are taken up to that one.
    pub fn position<F: Fn(&u4x2) -> bool>(&mut self, predicate: F) -> (r: Option<usize>)
        requires
            forall|k: int|
                0 <= k < old(self)@.len() ==> call_requires(predicate, (&#[trigger] old(self)@[k],)),
        ensures
            r.is_none() ==> final(self)@ == Seq::<u4x2>::empty() && forall|j: int|
                0 <= j < old(self)@.len() ==> call_ensures(
                    predicate,
                    (&#[trigger] old(self)@[j],),
                    false,
                ),
            r.is_some() ==> r.unwrap() < old(self)@.len() && call_ensures(
                predicate,
                (&old(self)@[r.unwrap() as int],),
                true,
            ) && final(self)@ == old(self)@.skip(r.unwrap() + 1) && forall|j: int|
                0 <= j < r.unwrap() ==> call_ensures(
                    predicate,
                    (&#[trigger] old(self)@[j],),
                    false,
                ),
    {
        match self.seek(&predicate, true) {
            Some((at, _)) => Some(at),
            None => None,
        }
    }

    /// The number of pairs before the last of which `predicate` holds. The pairs
    /// are taken from the back down to that one.
    pub fn rposition<F: Fn(&u4x2) -> bool>(&mut self, predicate: F) -> (r: Option<usize>)
        requires
            forall|k: int|
                0 <= k < old(self)@.len() ==> call_requires(predicate, (&#[trigger] old(self)@[k],)),
        ensures
            r.is_none() ==> final(self)@ == Seq::<u4x2>::empty() && forall|j: int|
                0 <= j < old(self)@.len() ==> call_ensures(
                    predicate,
                    (&#[trigger] old(self)@[j],),
                    false,
                ),
            r.is_some() ==> r.unwrap() < old(self)@.len() && call_ensures(
                predicate,
                (&old(self)@[r.unwrap() as int],),
                true,
            ) && final(self)@ == old(self)@.take(r.unwrap() as int) && forall|j: int|
                r.unwrap() < j < old(self)@.len() ==> call_ensures(
                    predicate,
                    (&#[trigger] old(self)@[j],),
                    false,
                ),
    {
        let mut left: usize = self.len();
        loop
            invariant
                left <= old(self)@.len(),
                self@ == old(self)@.take(left as int),
                forall|k: int|
                    0 <= k < old(self)@.len() ==> call_requires(
                        predicate,
                        (&#[trigger] old(self)@[k],),
                    ),
                forall|j: int|
                    left <= j < old(self)@.len() ==> call_ensures(
                        predicate,
                        (&#[trigger] old(self)@[j],),
                        false,
                    ),
            decreases left,
        {
            match self.next_back() {
                None => {
                    assert(self@ =~= Seq::<u4x2>::empty());
                    return None;
                },
                Some(pair) => {
                    assert(*pair == old(self)@[left - 1]);
                    assert(self@ =~= old(self)@.take(left - 1));
                    left -= 1;
                    if predicate(pair) {
                        return Some(left);
                    }
                },
            }
        }
    }

    /// Uses the iterator up and returns the last pair, if any was left.
    pub fn last(self) -> (r: Option<&'a u4x2>)
        ensures
            self@.len() == 0 ==> r.is_none(),
            self@.len() > 0 ==> r == Some(&self@.last()),
    {
        let all: &'a [u4x2] = self.inner;
        if all.len() == 0 {
            None
        } else {
            Some(&all[all.len() - 1])
        }
    }
}

/// The nibbles that an iterator over a pair still holds, or none where there is
/// no such iterator.
pub open spec fn held(part: Option<Iter>) -> Seq<u8> {
    match part {
        Some(iter) => iter@,
        None => Seq::empty(),
    }
}

/// Iterator over nibbles in a slice, from both ends. Its view is the nibbles
/// that are still to come, in order.
#[derive(Clone, Copy)]
pub struct Nibbles<'a> {
    pairs: NibblePairs<'a>,
    front: Option<Iter>,
    back: Option<Iter>,
}

impl<'a> View for Nibbles<'a> {
    type V = Seq<u8>;

    /// What is left of the pair that was begun at the front, then the whole
    /// pairs in the middle, then what is left of the pair that was begun at the
    /// back.
    closed spec fn view(&self) -> Seq<u8> {
        held(self.front) + flatten(self.pairs@) + held(self.back)
    }
}

/// The nibbles of a run of pairs without its first pair.
pub proof fn lemma_flatten_drop_first(pairs: Seq<u4x2>)
    requires
        pairs.len() > 0,
    ensures
        flatten(pairs) == seq![hi_nib(pairs[0]@), lo_nib(pairs[0]@)] + flatten(pairs.drop_first()),
{
    let rest = pairs.drop_first();
    let want = seq![hi_nib(pairs[0]@), lo_nib(pairs[0]@)] + flatten(rest);
    assert forall|j: int| 0 <= j < flatten(pairs).len() implies flatten(pairs)[j] == want[j] by {
        if j >= 2 {
            assert(rest[(j - 2) / 2] == pairs[j / 2]);
            assert(flatten(rest)[j - 2] == crate::common::nibble_at(rest, j - 2));
        }
    }
    assert(flatten(pairs) =~= want);
}

/// The nibbles of a run of pairs, seen from its last pair.
pub proof fn lemma_flatten_last(pairs: Seq<u4x2>)
    requires
        pairs.len() > 0,
    ensures
        flatten(pairs) == flatten(pairs.drop_last()) + seq![
            hi_nib(pairs.last()@),
            lo_nib(pairs.last()@),
        ],
{
    crate::common::lemma_flatten_push(pairs.drop_last(), pairs.last());
    assert(pairs.drop_last().push(pairs.last()) =~= pairs);
    assert(flatten(pairs.drop_last()).push(hi_nib(pairs.last()@)).push(lo_nib(pairs.last()@))
        =~= flatten(pairs.drop_last()) + seq![hi_nib(pairs.last()@), lo_nib(pairs.last()@)]);
}

impl<'a> Nibbles<'a> {
    /// An iterator over the nibbles of `pairs`, without the first of them when
    /// `has_left_hi` is false and without the last when `has_right_lo` is false.
    #[inline]
    pub fn new(pairs: NibblePairs<'a>, has_left_hi: bool, has_right_lo: bool) -> (r: Self)
        ensures
            r@ == nibbles_of(pairs@, has_left_hi, has_right_lo),
    {
        let mut iter = Nibbles { pairs, front: None, back: None };
        assert(iter@ =~= flatten(pairs@));
        if !has_left_hi {
            iter.next();
        }
        if !has_right_lo {
            iter.next_back();
        }
        proof {
            crate::common::lemma_nibbles_of_drops(pairs@, has_left_hi, has_right_lo);
        }
        iter
    }

    /// The next nibble from the front, if any is left.
    pub fn next(&mut self) -> (r: Option<u4lo>)
        ensures
            old(self)@.len() == 0 ==> r.is_none() && final(self)@ == old(self)@,
            old(self)@.len() > 0 ==> r.is_some() && r.unwrap()@ == old(self)@.first() && final(self)@ == old(self)@.drop_first(),
    {
        let ghost before = self@;
        if let Some(mut inner) = self.front {
            let ghost was = inner@;
            if let Some(x) = inner.next() {
                self.front = Some(inner);
                assert(self@ =~= before.drop_first());
                return Some(x);
            }
        }
        match self.pairs.next() {
            None => {
                match self.back {
                    Some(mut inner) => {
                        let x = inner.next();
                        self.back = Some(inner);
                        assert(before =~= old(self).back.unwrap()@);
                        assert(self@ =~= inner@);
                        x
                    },
                    None => {
                        assert(before =~= Seq::<u8>::empty());
                        None
                    },
                }
            },
            Some(pair) => {
                let mut inner = pair.iter();
                let x = inner.next();
                self.front = Some(inner);
                proof {
                    lemma_flatten_drop_first(old(self).pairs@);
                    assert(before =~= seq![hi_nib(pair@), lo_nib(pair@)] + flatten(self.pairs@)
                        + held(self.back));
                    assert(self@ =~= before.drop_first());
                }
                x
            },
        }
    }

    /// The next nibble from the back, if any is left.
    pub fn next_back(&mut self) -> (r: Option<u4lo>)
        ensures
            old(self)@.len() == 0 ==> r.is_none() && final(self)@ == old(self)@,
            old(self)@.len() > 0 ==> r.is_some() && r.unwrap()@ == old(self)@.last() && final(self)@ == old(self)@.drop_last(),
    {
        let ghost before = self@;
        if let Some(mut inner) = self.back {
            if let Some(x) = inner.next_back() {
                self.back = Some(inner);
                assert(self@ =~= before.drop_last());
                return Some(x);
            }
        }
        match self.pairs.next_back() {
            None => {
                match self.front {
                    Some(mut inner) => {
                        let x = inner.next_back();
                        self.front = Some(inner);
                        assert(before =~= old(self).front.unwrap()@);
                        assert(self@ =~= inner@);
                        x
                    },
                    None => {
                        assert(before =~= Seq::<u8>::empty());
                        None
                    },
                }
            },
            Some(pair) => {
                let mut inner = pair.iter();
                let x = inner.next_back();
                self.back = Some(inner);
                proof {
                    lemma_flatten_last(old(self).pairs@);
                    assert(before =~= held(self.front) + flatten(self.pairs@) + seq![
                        hi_nib(pair@),
                        lo_nib(pair@),
                    ]);
                    assert(self@ =~= before.drop_last());
                }
                x
            },
        }
    }

    /// The number of nibbles that are left: those of the pair begun at the front,
    /// two for each pair in the middle, and those of the pair begun at the back.
    pub fn len(&self) -> (r: usize)
        requires
            self@.len() <= usize::MAX,
        ensures
            r == self@.len(),
    {
        proof {
            if self.front.is_some() {
                self.front.unwrap().lemma_len();
            }
            if self.back.is_some() {
                self.back.unwrap().lemma_len();
            }
        }
        let front: usize = match self.front {
            Some(inner) => inner.len(),
            None => 0,
        };
        let back: usize = match self.back {
            Some(inner) => inner.len(),
            None => 0,
        };
        let middle: usize = self.pairs.len() * 2;
        front + middle + back
    }

    /// The bounds on the number of nibbles that are left, which are both exact.
    pub fn size_hint(&self) -> (r: (usize, Option<usize>))
        requires
            self@.len() <= usize::MAX,
        ensures
            r.0 == self@.len(),
            r.1 == Some(r.0),
    {
        let len: usize = self.len();
        (len, Some(len))
    }
}

/// Mutable iterator over pairs of nibbles in a slice. Each pair is handed out as
/// the two cells for its halves. The view of the iterator is the cells of the
/// pairs that are still to come.
#[derive(Clone, Copy)]
pub struct NibblePairsMut<'a> {
    inner: &'a [Cell<u4x2>],
}

impl<'a> View for NibblePairsMut<'a> {
    type V = Seq<Cell<u4x2>>;

    closed spec fn view(&self) -> Seq<Cell<u4x2>> {
        self.inner@
    }
}

/// The two cells for the halves of the pair in `cell`.
pub open spec fn both_halves(cells: (U4HiCell<'_>, U4LoCell<'_>), cell: Cell<u4x2>) -> bool {
    &&& crate::pair::U4Cell::half(&cells.0) == (Half { cell, high: true })
    &&& crate::pair::U4Cell::half(&cells.1) == (Half { cell, high: false })
}

impl<'a> NibblePairsMut<'a> {
    /// An iterator over all the pairs of `inner`.
    pub fn new(inner: &'a [Cell<u4x2>]) -> (r: Self)
        ensures
            r@ == inner@,
    {
        NibblePairsMut { inner }
    }

    /// The pairs that are still to come, as a slice of cells.
    pub fn into_slice(self) -> (r: &'a [Cell<u4x2>])
        ensures
            r@ == self@,
    {
        self.inner
    }

    /// The cells for the next pair from the front, if any is left.
    pub fn next(&mut self) -> (r: Option<(U4HiCell<'a>, U4LoCell<'a>)>)
        ensures
            old(self)@.len() == 0 ==> r.is_none() && final(self)@ == old(self)@,
            old(self)@.len() > 0 ==> r.is_some() && both_halves(r.unwrap(), old(self)@.first())
                && final(self)@ == old(self)@.drop_first(),
    {
        let all: &'a [Cell<u4x2>] = self.inner;
        if all.len() == 0 {
            None
        } else {
            self.inner = &all[1..all.len()];
            Some((U4HiCell::new(&all[0]), U4LoCell::new(&all[0])))
        }
    }

    /// The cells for the next pair from the back, if any is left.
    pub fn next_back(&mut self) -> (r: Option<(U4HiCell<'a>, U4LoCell<'a>)>)
        ensures
            old(self)@.len() == 0 ==> r.is_none() && final(self)@ == old(self)@,
            old(self)@.len() > 0 ==> r.is_some() && both_halves(r.unwrap(), old(self)@.last())
                && final(self)@ == old(self)@.drop_last(),
    {
        let all: &'a [Cell<u4x2>] = self.inner;
        if all.len() == 0 {
            None
        } else {
            self.inner = &all[0..all.len() - 1];
            Some((U4HiCell::new(&all[all.len() - 1]), U4LoCell::new(&all[all.len() - 1])))
        }
    }

    /// The number of pairs that are left.
    pub fn len(&self) -> (r: usize)
        ensures
            r == self@.len(),
    {
        self.inner.len()
    }

    /// The bounds on the number of pairs that are left, which are both exact.
    pub fn size_hint(&self) -> (r: (usize, Option<usize>))
        ensures
            r.0 == self@.len(),
            r.1 == Some(r.0),
    {
        let len: usize = self.len();
        (len, Some(len))
    }

    /// Uses the iterator up and says how many pairs were left.
    pub fn count(self) -> (r: usize)
        ensures
            r == self@.len(),
    {
        self.inner.len()
    }

    /// Skips `n` pairs and returns the cells for the one after them. When fewer
    /// than `n + 1` pairs are left, none is returned and none stays.
    pub fn nth(&mut self, n: usize) -> (r: Option<(U4HiCell<'a>, U4LoCell<'a>)>)
        ensures
            n < old(self)@.len() ==> r.is_some() && both_halves(r.unwrap(), old(self)@[n as int])
                && final(self)@ == old(self)@.skip(n + 1),
            n >= old(self)@.len() ==> r.is_none() && final(self)@ == Seq::<Cell<u4x2>>::empty(),
    {
        let all: &'a [Cell<u4x2>] = self.inner;
        if n < all.len() {
            self.inner = &all[n + 1..all.len()];
            Some((U4HiCell::new(&all[n]), U4LoCell::new(&all[n])))
        } else {
            self.inner = &all[0..0];
            assert(self@ =~= Seq::<Cell<u4x2>>::empty());
            None
        }
    }

    /// Uses the iterator up and returns the cells for the last pair, if any was
    /// left.
    pub fn last(self) -> (r: Option<(U4HiCell<'a>, U4LoCell<'a>)>)
        ensures
            self@.len() == 0 ==> r.is_none(),
            self@.len() > 0 ==> r.is_some() && both_halves(r.unwrap(), self@.last()),
    {
        let all: &'a [Cell<u4x2>] = self.inner;
        if all.len() == 0 {
            None
        } else {
            Some((U4HiCell::new(&all[all.len() - 1]), U4LoCell::new(&all[all.len() - 1])))
        }
    }
}

/// The halves that a mutable iterator over a pair still holds, or none where
/// there is no such iterator.
pub open spec fn held_mut(part: Option<IterMut<'_>>) -> Seq<Half> {
    match part {
        Some(iter) => iter@,
        None => Seq::empty(),
    }
}

/// Mutable iterator over nibbles in a slice, from both ends.
///
/// To ensure that nibbles from the same byte do not overwrite each other, this
/// iterator hands out cells instead of mutable references. Its view is the
/// halves that are still to come, in order.
#[derive(Clone, Copy)]
pub struct NibblesMut<'a> {
    pairs: NibblePairsMut<'a>,
    front: Option<IterMut<'a>>,
    back: Option<IterMut<'a>>,
}

impl<'a> View for NibblesMut<'a> {
    type V = Seq<Half>;

    /// What is left of the pair that was begun at the front, then the whole
    /// pairs in the middle, then what is left of the pair that was begun at the
    /// back.
    closed spec fn view(&self) -> Seq<Half> {
        held_mut(self.front) + all_halves(self.pairs@) + held_mut(self.back)
    }
}

impl<'a> NibblesMut<'a> {
    /// An iterator over the halves of `pairs`, without the first of them when
    /// `has_left_hi` is false and without the last when `has_right_lo` is false.
    #[inline]
    pub fn new(pairs: NibblePairsMut<'a>, has_left_hi: bool, has_right_lo: bool) -> (r: Self)
        ensures
            r@ == halves_of(pairs@, has_left_hi, has_right_lo),
    {
        let mut iter = NibblesMut { pairs, front: None, back: None };
        assert(iter@ =~= all_halves(pairs@));
        if !has_left_hi {
            iter.next();
        }
        if !has_right_lo {
            iter.next_back();
        }
        proof {
            lemma_halves_of_drops(pairs@, has_left_hi, has_right_lo);
        }
        iter
    }

    /// The cell for the next nibble from the front, if any is left.
    pub fn next(&mut self) -> (r: Option<U4HalfCell<'a>>)
        ensures
            old(self)@.len() == 0 ==> r.is_none() && final(self)@ == old(self)@,
            old(self)@.len() > 0 ==> r.is_some() && crate::pair::U4Cell::half(&r.unwrap()) == old(self)@.first() && final(self)@ == old(self)@.drop_first(),
    {
        let ghost before = self@;
        if let Some(mut inner) = self.front {
            if let Some(x) = inner.next() {
                self.front = Some(inner);
                assert(self@ =~= before.drop_first());
                return Some(x);
            }
        }
        let all: &'a [Cell<u4x2>] = self.pairs.into_slice();
        if all.len() == 0 {
            match self.back {
                Some(mut inner) => {
                    let x = inner.next();
                    self.back = Some(inner);
                    assert(before =~= old(self).back.unwrap()@);
                    assert(self@ =~= inner@);
                    x
                },
                None => {
                    assert(before =~= Seq::<Half>::empty());
                    None
                },
            }
        } else {
            self.pairs = NibblePairsMut::new(&all[1..all.len()]);
            let mut inner = IterMut::new(&all[0]);
            let x = inner.next();
            self.front = Some(inner);
            proof {
                lemma_all_halves_first(old(self).pairs@);
                assert(self.pairs@ =~= old(self).pairs@.drop_first());
                assert(before =~= seq![
                    Half { cell: all@[0], high: true },
                    Half { cell: all@[0], high: false },
                ] + all_halves(self.pairs@) + held_mut(self.back));
                assert(self@ =~= before.drop_first());
            }
            x
        }
    }

    /// The cell for the next nibble from the back, if any is left.
    pub fn next_back(&mut self) -> (r: Option<U4HalfCell<'a>>)
        ensures
            old(self)@.len() == 0 ==> r.is_none() && final(self)@ == old(self)@,
            old(self)@.len() > 0 ==> r.is_some() && crate::pair::U4Cell::half(&r.unwrap()) == old(self)@.last() && final(self)@ == old(self)@.drop_last(),
    {
        let ghost before = self@;
        if let Some(mut inner) = self.back {
            if let Some(x) = inner.next_back() {
                self.back = Some(inner);
                assert(self@ =~= before.drop_last());
                return Some(x);
            }
        }
        let all: &'a [Cell<u4x2>] = self.pairs.into_slice();
        if all.len() == 0 {
            match self.front {
                Some(mut inner) => {
                    let x = inner.next_back();
                    self.front = Some(inner);
                    assert(before =~= old(self).front.unwrap()@);
                    assert(self@ =~= inner@);
                    x
                },
                None => {
                    assert(before =~= Seq::<Half>::empty());
                    None
                },
            }
        } else {
            self.pairs = NibblePairsMut::new(&all[0..all.len() - 1]);
            let mut inner = IterMut::new(&all[all.len() - 1]);
            let x = inner.next_back();
            self.back = Some(inner);
            proof {
                lemma_all_halves_last(old(self).pairs@);
                assert(self.pairs@ =~= old(self).pairs@.drop_last());
                assert(before =~= held_mut(self.front) + all_halves(self.pairs@) + seq![
                    Half { cell: all@[all.len() - 1], high: true },
                    Half { cell: all@[all.len() - 1], high: false },
                ]);
                assert(self@ =~= before.drop_last());
            }
            x
        }
    }

    /// The number of cells that are left: those of the pair begun at the front,
    /// two for each pair in the middle, and those of the pair begun at the back.
    pub fn len(&self) -> (r: usize)
        requires
            self@.len() <= usize::MAX,
        ensures
            r == self@.len(),
    {
        proof {
            if self.front.is_some() {
                self.front.unwrap().lemma_len();
            }
            if self.back.is_some() {
                self.back.unwrap().lemma_len();
            }
        }
        let front: usize = match self.front {
            Some(inner) => inner.len(),
            None => 0,
        };
        let back: usize = match self.back {
            Some(inner) => inner.len(),
            None => 0,
        };
        let middle: usize = self.pairs.len() * 2;
        front + middle + back
    }

    /// The bounds on the number of cells that are left, which are both exact.
    pub fn size_hint(&self) -> (r: (usize, Option<usize>))
        requires
            self@.len() <= usize::MAX,
        ensures
            r.0 == self@.len(),
            r.1 == Some(r.0),
    {
        let len: usize = self.len();
        (len, Some(len))
    }
}

} // verus!
