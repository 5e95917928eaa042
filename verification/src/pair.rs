//! Types for manipulating pairs of nibbles in a single byte.
use vstd::prelude::*;
use vstd::std_specs::convert::FromSpecImpl;
use arrayvec::ArrayString;
use core::cell::Cell;
use crate::base::{ascii_digit_value, digit_value, lower_ascii_digit, upper_ascii_digit};
use crate::base::{u4, u4hi, u4lo};
use crate::common::{bits, bits_of, combine, hi_nib, join_nibs, lo_nib, nibble_count};
use crate::text::{ascii_of, new2, new8, push2, push8, text2, text8};
use crate::common::{higher_to_higher, higher_to_lower, lower_to_higher, lower_to_lower};

verus! {

/// A `u8` split into its component nibbles.
#[derive(Clone, Copy, Debug, Hash, Ord)]
#[allow(non_camel_case_types)]
pub struct u4x2 {
    byte: u8,
}

impl View for u4x2 {
    type V = u8;

    closed spec fn view(&self) -> u8 {
        self.byte
    }
}

impl u4x2 {
    /// The pair that holds `byte`.
    pub closed spec fn spec_from_byte(byte: u8) -> u4x2 {
        u4x2 { byte }
    }

    /// A pair is the byte it holds and nothing more.
    pub proof fn lemma_view_is_all(self, other: u4x2)
        ensures
            self@ == other@ <==> self == other,
            self == u4x2::spec_from_byte(self@),
            u4x2::spec_from_byte(self@)@ == self@,
    {
    }

    /// The pair that holds a byte is seen as that byte. The operators and
    /// conversions say what they return by `spec_from_byte`.
    pub proof fn lemma_spec_from_byte(byte: u8)
        ensures
            u4x2::spec_from_byte(byte)@ == byte,
    {
    }

    /// Creates a pair with an empty low-order nibble.
    pub fn from_hi(hi: u4hi) -> (r: Self)
        ensures
            r@ == join_nibs(hi@, 0),
    {
        u4x2 { byte: hi.to_hi() }
    }

    /// Creates a pair with an empty high-order nibble.
    pub fn from_lo(lo: u4lo) -> (r: Self)
        ensures
            r@ == lo@,
    {
        u4x2 { byte: lo.to_lo() }
    }

    /// Creates a pair from its components.
    #[inline(always)]
    pub fn from_both(hi: u4hi, lo: u4lo) -> (r: Self)
        ensures
            r@ == join_nibs(hi@, lo@),
    {
        proof {
            hi.lemma_value_range();
            lo.lemma_value_range();
        }
        u4x2 { byte: combine(hi.to_hi(), lo.to_lo()) }
    }

    /// Creates a pair from an already-combined byte.
    #[inline(always)]
    pub fn from_byte(byte: u8) -> (r: u4x2)
        ensures
            r@ == byte,
            r == u4x2::spec_from_byte(byte),
    {
        u4x2 { byte }
    }

    /// The high-order nibble.
    #[inline(always)]
    pub fn hi(&self) -> (r: u4hi)
        ensures
            r@ == hi_nib(self@),
    {
        u4hi::from_hi(self.byte)
    }

    /// The low-order nibble.
    #[inline(always)]
    pub fn lo(&self) -> (r: u4lo)
        ensures
            r@ == lo_nib(self@),
    {
        u4lo::from_lo(self.byte)
    }

    /// Both nibbles.
    #[inline(always)]
    pub fn both(&self) -> (r: (u4hi, u4lo))
        ensures
            r.0@ == hi_nib(self@),
            r.1@ == lo_nib(self@),
    {
        (self.hi(), self.lo())
    }

    /// Both nibbles as a byte.
    #[inline(always)]
    pub fn byte(&self) -> (r: u8)
        ensures
            r == self@,
    {
        self.byte
    }

    /// Mutable access to the whole byte.
    #[inline(always)]
    pub fn byte_mut(&mut self) -> (r: &mut u8)
        ensures
            *r == old(self)@,
            final(self)@ == *final(r),
    {
        &mut self.byte
    }

    /// Sets the low-order nibble and leaves the high-order one as it is.
    pub fn set_lo<T: u4>(&mut self, lo: T)
        ensures
            final(self)@ == join_nibs(hi_nib(old(self)@), lo.value()),
            hi_nib(final(self)@) == hi_nib(old(self)@),
            lo_nib(final(self)@) == lo.value(),
    {
        proof {
            lo.lemma_value_range();
        }
        self.byte = combine(higher_to_higher(self.byte), lo.to_lo());
    }

    /// Sets the high-order nibble and leaves the low-order one as it is.
    pub fn set_hi<T: u4>(&mut self, hi: T)
        ensures
            final(self)@ == join_nibs(hi.value(), lo_nib(old(self)@)),
            hi_nib(final(self)@) == hi.value(),
            lo_nib(final(self)@) == lo_nib(old(self)@),
    {
        proof {
            hi.lemma_value_range();
        }
        self.byte = combine(hi.to_hi(), lower_to_lower(self.byte));
    }

    /// Swaps the nibbles in the pair.
    pub fn swap_pairs(&mut self)
        ensures
            final(self)@ == join_nibs(lo_nib(old(self)@), hi_nib(old(self)@)),
            hi_nib(final(self)@) == lo_nib(old(self)@),
            lo_nib(final(self)@) == hi_nib(old(self)@),
    {
        self.byte = combine(lower_to_higher(self.byte), higher_to_lower(self.byte));
    }
}

impl u4x2 {
    /// Converts two ASCII hex digits into a pair, the low-order one given first.
    pub fn from_ascii_digits(lo: u8, hi: u8) -> (r: Option<u4x2>)
        ensures
            r.is_some() <==> ascii_digit_value(hi).is_some() && ascii_digit_value(lo).is_some(),
            r.is_some() ==> r.unwrap()@ == join_nibs(
                ascii_digit_value(hi).unwrap(),
                ascii_digit_value(lo).unwrap(),
            ),
    {
        if let Some(hi) = u4hi::from_ascii_digit(hi) {
            if let Some(lo) = u4lo::from_ascii_digit(lo) {
                return Some(u4x2::from_both(hi, lo));
            }
        }
        None
    }

    /// Converts a pair into two lowercase ASCII hex digits, the high-order one first.
    pub fn to_lower_ascii_digits(&self) -> (r: (u8, u8))
        ensures
            r.0 == lower_ascii_digit(hi_nib(self@)),
            r.1 == lower_ascii_digit(lo_nib(self@)),
    {
        (self.hi().to_lower_ascii_digit(), self.lo().to_lower_ascii_digit())
    }

    /// Converts a pair into two uppercase ASCII hex digits, the high-order one first.
    pub fn to_upper_ascii_digit(&self) -> (r: (u8, u8))
        ensures
            r.0 == upper_ascii_digit(hi_nib(self@)),
            r.1 == upper_ascii_digit(lo_nib(self@)),
    {
        (self.hi().to_upper_ascii_digit(), self.lo().to_upper_ascii_digit())
    }

    /// Converts two hex digits into a pair, the low-order one given first.
    pub fn from_digits(lo: char, hi: char) -> (r: Option<u4x2>)
        ensures
            r.is_some() <==> digit_value(hi).is_some() && digit_value(lo).is_some(),
            r.is_some() ==> r.unwrap()@ == join_nibs(
                digit_value(hi).unwrap(),
                digit_value(lo).unwrap(),
            ),
    {
        if let Some(hi) = u4hi::from_digit(hi) {
            if let Some(lo) = u4lo::from_digit(lo) {
                return Some(u4x2::from_both(hi, lo));
            }
        }
        None
    }

    /// Converts a pair into two lowercase hex digits, the high-order one first.
    pub fn to_lower_digits(&self) -> (r: (char, char))
        ensures
            r.0 == lower_ascii_digit(hi_nib(self@)) as char,
            r.1 == lower_ascii_digit(lo_nib(self@)) as char,
    {
        (self.hi().to_lower_digit(), self.lo().to_lower_digit())
    }

    /// Converts a pair into two uppercase hex digits, the high-order one first.
    pub fn to_upper_digits(&self) -> (r: (char, char))
        ensures
            r.0 == upper_ascii_digit(hi_nib(self@)) as char,
            r.1 == upper_ascii_digit(lo_nib(self@)) as char,
    {
        (self.hi().to_upper_digit(), self.lo().to_upper_digit())
    }

    /// Converts a pair into a lowercase hex string of two digits.
    pub fn to_padded_lower_hex(&self) -> (r: ArrayString<2>)
        ensures
            text2(r) == seq![
                lower_ascii_digit(hi_nib(self@)),
                lower_ascii_digit(lo_nib(self@)),
            ],
    {
        let mut s = new2();
        push2(&mut s, self.hi().to_lower_ascii_digit());
        push2(&mut s, self.lo().to_lower_ascii_digit());
        assert(text2(s) =~= seq![
            lower_ascii_digit(hi_nib(self@)),
            lower_ascii_digit(lo_nib(self@)),
        ]);
        s
    }

    /// Converts a pair into an uppercase hex string of two digits.
    pub fn to_padded_upper_hex(&self) -> (r: ArrayString<2>)
        ensures
            text2(r) == seq![
                upper_ascii_digit(hi_nib(self@)),
                upper_ascii_digit(lo_nib(self@)),
            ],
    {
        let mut s = new2();
        push2(&mut s, self.hi().to_upper_ascii_digit());
        push2(&mut s, self.lo().to_upper_ascii_digit());
        assert(text2(s) =~= seq![
            upper_ascii_digit(hi_nib(self@)),
            upper_ascii_digit(lo_nib(self@)),
        ]);
        s
    }

    /// Converts a pair into a binary string of eight digits.
    pub fn to_padded_binary(&self) -> (r: ArrayString<8>)
        ensures
            text8(r) == ascii_of(bits_of(hi_nib(self@)) + bits_of(lo_nib(self@))),
    {
        let hi: [u8; 4] = bits(self.hi().to_lo());
        let lo: [u8; 4] = bits(self.lo().to_lo());
        let ghost all = bits_of(hi_nib(self@)) + bits_of(lo_nib(self@));
        let mut s = new8();
        let mut i: usize = 0;
        while i < 8
            invariant
                i <= 8,
                hi@ == bits_of(hi_nib(self@)),
                lo@ == bits_of(lo_nib(self@)),
                all == hi@ + lo@,
                text8(s) == ascii_of(all.take(i as int)),
            decreases 8 - i,
        {
            let bit: u8 = if i < 4 { hi[i] } else { lo[i - 4] };
            assert(bit == all[i as int]);
            assert(bit < 2);
            push8(&mut s, 0x30 + bit);
            proof {
                assert(all.take(i + 1) =~= all.take(i as int).push(all[i as int]));
                assert(text8(s) =~= ascii_of(all.take(i + 1)));
            }
            i += 1;
        }
        proof {
            assert(all.take(8) =~= all);
        }
        s
    }

    /// The pair that a byte holds.
    #[inline(always)]
    pub fn from_ref(byte: &u8) -> (r: u4x2)
        ensures
            r@ == *byte,
    {
        u4x2 { byte: *byte }
    }

    /// Iterator over the nibble pair: the high-order nibble, then the low-order one.
    #[inline]
    pub fn iter(&self) -> (r: Iter)
        ensures
            r@ == seq![hi_nib(self@), lo_nib(self@)],
    {
        let r = Iter { hi: Some(self.hi()), lo: Some(self.lo()) };
        assert(r@ =~= seq![hi_nib(self@), lo_nib(self@)]);
        r
    }
}

impl From<u4hi> for u4x2 {
    fn from(hi: u4hi) -> (r: u4x2) {
        Self::from_hi(hi)
    }
}

impl FromSpecImpl<u4hi> for u4x2 {
    open spec fn obeys_from_spec() -> bool {
        true
    }

    open spec fn from_spec(hi: u4hi) -> u4x2 {
        u4x2::spec_from_byte(join_nibs(hi@, 0))
    }
}

impl From<u4lo> for u4x2 {
    fn from(lo: u4lo) -> (r: u4x2) {
        Self::from_lo(lo)
    }
}

impl FromSpecImpl<u4lo> for u4x2 {
    open spec fn obeys_from_spec() -> bool {
        true
    }

    open spec fn from_spec(lo: u4lo) -> u4x2 {
        u4x2::spec_from_byte(lo@)
    }
}

impl From<u8> for u4x2 {
    fn from(byte: u8) -> (r: u4x2) {
        Self::from_byte(byte)
    }
}

impl FromSpecImpl<u8> for u4x2 {
    open spec fn obeys_from_spec() -> bool {
        true
    }

    open spec fn from_spec(byte: u8) -> u4x2 {
        u4x2::spec_from_byte(byte)
    }
}

impl From<u4x2> for u4hi {
    fn from(pair: u4x2) -> (r: u4hi) {
        u4hi::new(higher_to_lower(pair.byte))
    }
}

impl FromSpecImpl<u4x2> for u4hi {
    open spec fn obeys_from_spec() -> bool {
        true
    }

    open spec fn from_spec(pair: u4x2) -> u4hi {
        u4hi::spec_new(hi_nib(pair@))
    }
}

impl From<u4x2> for u4lo {
    fn from(pair: u4x2) -> (r: u4lo) {
        u4lo::new(lower_to_lower(pair.byte))
    }
}

impl FromSpecImpl<u4x2> for u4lo {
    open spec fn obeys_from_spec() -> bool {
        true
    }

    open spec fn from_spec(pair: u4x2) -> u4lo {
        u4lo::spec_new(lo_nib(pair@))
    }
}

impl From<u4x2> for u8 {
    fn from(pair: u4x2) -> (r: u8) {
        pair.byte()
    }
}

impl FromSpecImpl<u4x2> for u8 {
    open spec fn obeys_from_spec() -> bool {
        true
    }

    open spec fn from_spec(pair: u4x2) -> u8 {
        pair@
    }
}

/// Iterator over the nibbles in a pair. Its view is what is still to come.
#[derive(Clone, Copy)]
pub struct Iter {
    hi: Option<u4hi>,
    lo: Option<u4lo>,
}

impl View for Iter {
    type V = Seq<u8>;

    closed spec fn view(&self) -> Seq<u8> {
        let hi = match self.hi {
            Some(nib) => seq![nib@],
            None => Seq::empty(),
        };
        let lo = match self.lo {
            Some(nib) => seq![nib@],
            None => Seq::empty(),
        };
        hi + lo
    }
}

impl Iter {
    /// An iterator over a pair yields two nibbles at most.
    pub proof fn lemma_len(&self)
        ensures
            self@.len() <= 2,
    {
    }

    /// The next nibble from the front, if any is left.
    pub fn next(&mut self) -> (r: Option<u4lo>)
        ensures
            old(self)@.len() == 0 ==> r.is_none() && final(self)@ == old(self)@,
            old(self)@.len() > 0 ==> r.is_some() && r.unwrap()@ == old(self)@.first() && final(self)@ == old(self)@.drop_first(),
    {
        match self.hi {
            Some(nib) => {
                self.hi = None;
                assert(self@ =~= old(self)@.drop_first());
                Some(nib.to_u4lo())
            },
            None => match self.lo {
                Some(nib) => {
                    self.lo = None;
                    assert(self@ =~= old(self)@.drop_first());
                    Some(nib)
                },
                None => None,
            },
        }
    }

    /// The next nibble from the back, if any is left.
    pub fn next_back(&mut self) -> (r: Option<u4lo>)
        ensures
            old(self)@.len() == 0 ==> r.is_none() && final(self)@ == old(self)@,
            old(self)@.len() > 0 ==> r.is_some() && r.unwrap()@ == old(self)@.last() && final(self)@ == old(self)@.drop_last(),
    {
        match self.lo {
            Some(nib) => {
                self.lo = None;
                assert(self@ =~= old(self)@.drop_last());
                Some(nib)
            },
            None => match self.hi {
                Some(nib) => {
                    self.hi = None;
                    assert(self@ =~= old(self)@.drop_last());
                    Some(nib.to_u4lo())
                },
                None => None,
            },
        }
    }

    /// The number of nibbles that are left.
    pub fn len(&self) -> (r: usize)
        ensures
            r == self@.len(),
    {
        let hi: usize = if self.hi.is_some() { 1 } else { 0 };
        let lo: usize = if self.lo.is_some() { 1 } else { 0 };
        hi + lo
    }

    /// The bounds on the number of nibbles that are left, which are both exact.
    pub fn size_hint(&self) -> (r: (usize, Option<usize>))
        ensures
            r.0 == self@.len(),
            r.1 == Some(r.0),
    {
        let len: usize = self.len();
        (len, Some(len))
    }
}

/// `core::cell::Cell`: a place whose content can be replaced through a shared
/// reference. Nothing is known of what such a place holds at any moment.
#[verifier::external_type_specification]
#[verifier::external_body]
#[verifier::reject_recursive_types(T)]
pub struct ExCell<T: ?Sized>(Cell<T>);

/// `Cell::get`: a copy of the pair that the cell holds now. Any handle on the
/// cell may have written it, so nothing is claimed of the pair.
#[verifier::external_body]
pub(crate) fn load(cell: &Cell<u4x2>) -> (r: u4x2) {
    cell.get()
}

/// `Cell::set`: replaces the pair that the cell holds.
#[verifier::external_body]
pub(crate) fn store(cell: &Cell<u4x2>, pair: u4x2) {
    cell.set(pair)
}

/// `Cell::from_mut`: the cell that shares the place of `pair` for as long as the
/// borrow lasts. What the pair is when the borrow ends is whatever was written
/// last, so nothing is claimed of it.
#[verifier::external_body]
pub(crate) fn cell_of<'a>(pair: &'a mut u4x2) -> (r: &'a Cell<u4x2>) {
    Cell::from_mut(pair)
}

/// The number of pairs in a slice of pairs that is kept in one cell.
pub uninterp spec fn cell_len(cell: &Cell<[u4x2]>) -> nat;

/// `Cell::from_mut` on a slice: the cell that shares the place of `pairs` for as
/// long as the borrow lasts. It holds as many pairs as the slice, and the slice
/// has as many when the borrow ends; what they are then is whatever was written
/// last.
#[verifier::external_body]
pub(crate) fn cell_of_slice<'a>(pairs: &'a mut [u4x2]) -> (r: &'a Cell<[u4x2]>)
    ensures
        cell_len(r) == old(pairs)@.len(),
        final(pairs)@.len() == old(pairs)@.len(),
{
    Cell::from_mut(pairs)
}

/// `Cell::as_slice_of_cells`: one cell for each pair of the slice in `cell`.
#[verifier::external_body]
pub(crate) fn cells_of<'a>(cell: &'a Cell<[u4x2]>) -> (r: &'a [Cell<u4x2>])
    ensures
        r@.len() == cell_len(cell),
{
    cell.as_slice_of_cells()
}

/// One half of a pair that is kept in a cell: the cell, and whether the half is
/// the high-order one.
pub struct Half {
    pub cell: Cell<u4x2>,
    pub high: bool,
}

/// The half at position `i` of a run of cells: it lies in cell `i / 2`, and it is
/// the high-order half when `i` is even.
pub open spec fn half_at(cells: Seq<Cell<u4x2>>, i: int) -> Half {
    Half { cell: cells[i / 2], high: i % 2 == 0 }
}

/// All the halves of a run of cells, in order: two for each cell, high before low.
pub open spec fn all_halves(cells: Seq<Cell<u4x2>>) -> Seq<Half> {
    Seq::new(2 * cells.len(), |i: int| half_at(cells, i))
}

/// The halves that a run of cells stands for: all of its halves, without the
/// first when `has_left_hi` is false and without the last when `has_right_lo` is
/// false.
pub open spec fn halves_of(cells: Seq<Cell<u4x2>>, has_left_hi: bool, has_right_lo: bool) -> Seq<
    Half,
> {
    let first: int = if has_left_hi { 0 } else { 1 };
    let count = nibble_count(cells.len(), has_left_hi, has_right_lo);
    if count == 0 {
        Seq::empty()
    } else {
        all_halves(cells).subrange(first, first + count)
    }
}

/// The halves of a run are all its halves once the first of them is dropped,
/// where it is left out, and then the last, where that is left out.
pub proof fn lemma_halves_of_drops(cells: Seq<Cell<u4x2>>, has_left_hi: bool, has_right_lo: bool)
    ensures
        halves_of(cells, has_left_hi, has_right_lo).len() == nibble_count(
            cells.len(),
            has_left_hi,
            has_right_lo,
        ),
        halves_of(cells, has_left_hi, has_right_lo) == ({
            let all = all_halves(cells);
            let left = if has_left_hi || all.len() == 0 { all } else { all.drop_first() };
            if has_right_lo || left.len() == 0 { left } else { left.drop_last() }
        }),
{
    let all = all_halves(cells);
    let left = if has_left_hi || all.len() == 0 { all } else { all.drop_first() };
    let both = if has_right_lo || left.len() == 0 { left } else { left.drop_last() };
    assert(halves_of(cells, has_left_hi, has_right_lo) =~= both);
}

/// The halves of a run of cells, seen from its first cell.
pub proof fn lemma_all_halves_first(cells: Seq<Cell<u4x2>>)
    requires
        cells.len() > 0,
    ensures
        all_halves(cells) == seq![
            Half { cell: cells.first(), high: true },
            Half { cell: cells.first(), high: false },
        ] + all_halves(cells.drop_first()),
{
    let rest = cells.drop_first();
    let want = seq![
        Half { cell: cells.first(), high: true },
        Half { cell: cells.first(), high: false },
    ] + all_halves(rest);
    assert forall|j: int| 0 <= j < all_halves(cells).len() implies all_halves(cells)[j]
        == want[j] by {
        if j >= 2 {
            assert(rest[(j - 2) / 2] == cells[j / 2]);
            assert(all_halves(rest)[j - 2] == half_at(rest, j - 2));
        }
    }
    assert(all_halves(cells) =~= want);
}

/// The halves of a run of cells, seen from its last cell.
pub proof fn lemma_all_halves_last(cells: Seq<Cell<u4x2>>)
    requires
        cells.len() > 0,
    ensures
        all_halves(cells) == all_halves(cells.drop_last()) + seq![
            Half { cell: cells.last(), high: true },
            Half { cell: cells.last(), high: false },
        ],
{
    let rest = cells.drop_last();
    let want = all_halves(rest) + seq![
        Half { cell: cells.last(), high: true },
        Half { cell: cells.last(), high: false },
    ];
    assert forall|j: int| 0 <= j < all_halves(cells).len() implies all_halves(cells)[j]
        == want[j] by {
        if j < 2 * rest.len() {
            assert(rest[j / 2] == cells[j / 2]);
            assert(all_halves(rest)[j] == half_at(rest, j));
        }
    }
    assert(all_halves(cells) =~= want);
}

/// A generic cell which contains a nibble.
///
/// A cell is a handle on one half of a pair that other handles may share. It
/// reads the pair as it is at that moment, and it writes by reading the pair,
/// replacing its own half and writing the pair back, so that a write never
/// disturbs the other half.
pub trait U4Cell: Sized {
    /// The half that this handle reads and writes.
    spec fn half(&self) -> Half;

    /// Gets a high-order version of the nibble in this cell.
    fn get_hi(&self) -> u4hi;

    /// Gets a low-order version of the nibble in this cell.
    fn get_lo(&self) -> u4lo;

    /// Sets the value of the nibble in this cell, given a high-order nibble.
    fn set_from_hi(&self, hi: u4hi);

    /// Sets the value of the nibble in this cell, given a low-order nibble.
    fn set_from_lo(&self, lo: u4lo);

    /// Sets the value of the nibble in this cell, given a generic nibble.
    fn set<T: u4>(&self, nib: T);
}

/// A cell for mutating a high-order nibble.
#[derive(Clone, Copy)]
pub struct U4HiCell<'a> {
    inner: &'a Cell<u4x2>,
}

impl<'a> U4HiCell<'a> {
    /// The handle on the high half of the pair in `cell`.
    pub fn new(cell: &'a Cell<u4x2>) -> (r: Self)
        ensures
            r.half() == (Half { cell: *cell, high: true }),
    {
        U4HiCell { inner: cell }
    }

    /// Swaps the nibble with the value of another nibble.
    #[inline]
    pub fn swap<C: U4Cell>(&self, nib: &C) {
        let hi = self.get_hi();
        self.set_from_hi(nib.get_hi());
        nib.set_from_hi(hi);
    }
}

impl<'a> U4Cell for U4HiCell<'a> {
    closed spec fn half(&self) -> Half {
        Half { cell: *self.inner, high: true }
    }

    #[inline]
    fn get_hi(&self) -> u4hi {
        load(self.inner).hi()
    }

    #[inline]
    fn get_lo(&self) -> u4lo {
        load(self.inner).hi().to_u4lo()
    }

    #[inline]
    fn set_from_hi(&self, hi: u4hi) {
        self.set(hi)
    }

    #[inline]
    fn set_from_lo(&self, lo: u4lo) {
        self.set(lo)
    }

    #[inline]
    fn set<T: u4>(&self, nib: T) {
        let mut pair: u4x2 = load(self.inner);
        pair.set_hi(nib);
        store(self.inner, pair)
    }
}

/// A cell for mutating a low-order nibble.
#[derive(Clone, Copy)]
pub struct U4LoCell<'a> {
    inner: &'a Cell<u4x2>,
}

impl<'a> U4LoCell<'a> {
    /// The handle on the low half of the pair in `cell`.
    pub fn new(cell: &'a Cell<u4x2>) -> (r: Self)
        ensures
            r.half() == (Half { cell: *cell, high: false }),
    {
        U4LoCell { inner: cell }
    }

    /// Swaps the nibble with the value of another nibble.
    #[inline]
    pub fn swap<C: U4Cell>(&self, nib: &C) {
        let lo = self.get_lo();
        self.set_from_lo(nib.get_lo());
        nib.set_from_lo(lo);
    }
}

impl<'a> U4Cell for U4LoCell<'a> {
    closed spec fn half(&self) -> Half {
        Half { cell: *self.inner, high: false }
    }

    #[inline]
    fn get_hi(&self) -> u4hi {
        load(self.inner).lo().to_u4hi()
    }

    #[inline]
    fn get_lo(&self) -> u4lo {
        load(self.inner).lo()
    }

    #[inline]
    fn set_from_hi(&self, hi: u4hi) {
        self.set(hi)
    }

    #[inline]
    fn set_from_lo(&self, lo: u4lo) {
        self.set(lo)
    }

    #[inline]
    fn set<T: u4>(&self, nib: T) {
        let mut pair: u4x2 = load(self.inner);
        pair.set_lo(nib);
        store(self.inner, pair)
    }
}

/// A cell for either half of a pair.
#[derive(Clone, Copy)]
pub enum U4HalfCell<'a> {
    /// A cell for a high-order nibble.
    Hi(U4HiCell<'a>),
    /// A cell for a low-order nibble.
    Lo(U4LoCell<'a>),
}

impl<'a> U4Cell for U4HalfCell<'a> {
    open spec fn half(&self) -> Half {
        match *self {
            U4HalfCell::Hi(cell) => cell.half(),
            U4HalfCell::Lo(cell) => cell.half(),
        }
    }

    fn get_hi(&self) -> u4hi {
        match self {
            U4HalfCell::Hi(cell) => cell.get_hi(),
            U4HalfCell::Lo(cell) => cell.get_hi(),
        }
    }

    fn get_lo(&self) -> u4lo {
        match self {
            U4HalfCell::Hi(cell) => cell.get_lo(),
            U4HalfCell::Lo(cell) => cell.get_lo(),
        }
    }

    fn set_from_hi(&self, hi: u4hi) {
        self.set(hi)
    }

    fn set_from_lo(&self, lo: u4lo) {
        self.set(lo)
    }

    fn set<T: u4>(&self, nib: T) {
        match self {
            U4HalfCell::Hi(cell) => cell.set(nib),
            U4HalfCell::Lo(cell) => cell.set(nib),
        }
    }
}

impl<'a> U4HalfCell<'a> {
    /// Swaps the nibble with the value of another nibble.
    pub fn swap<C: U4Cell>(&self, nib: &C) {
        match self {
            U4HalfCell::Hi(cell) => cell.swap(nib),
            U4HalfCell::Lo(cell) => cell.swap(nib),
        }
    }
}

impl u4x2 {
    /// Mutable access to the high-order nibble in a cell.
    #[inline(always)]
    pub fn hi_mut(&mut self) -> (r: U4HiCell<'_>)
        ensures
            r.half().high,
    {
        U4HiCell::new(cell_of(self))
    }

    /// Mutable access to the low-order nibble in a cell.
    #[inline(always)]
    pub fn lo_mut(&mut self) -> (r: U4LoCell<'_>)
        ensures
            !r.half().high,
    {
        U4LoCell::new(cell_of(self))
    }

    /// Mutable access to both nibbles in cells that share the pair.
    #[inline(always)]
    pub fn both_mut(&mut self) -> (r: (U4HiCell<'_>, U4LoCell<'_>))
        ensures
            r.0.half().high,
            !r.1.half().high,
            r.0.half().cell == r.1.half().cell,
    {
        let cell = cell_of(self);
        (U4HiCell::new(cell), U4LoCell::new(cell))
    }

    /// Mutable iterator over the nibble pair: a cell for the high-order nibble,
    /// then one for the low-order nibble.
    #[inline]
    pub fn iter_mut(&mut self) -> (r: IterMut<'_>)
        ensures
            r@.len() == 2,
            r@[0].high,
            !r@[1].high,
            r@[0].cell == r@[1].cell,
    {
        let (hi, lo) = self.both_mut();
        IterMut { hi: Some(hi), lo: Some(lo) }
    }
}

/// Mutable iterator over the nibbles in a pair. Its view is the halves that are
/// still to come.
#[derive(Clone, Copy)]
pub struct IterMut<'a> {
    hi: Option<U4HiCell<'a>>,
    lo: Option<U4LoCell<'a>>,
}

impl<'a> View for IterMut<'a> {
    type V = Seq<Half>;

    closed spec fn view(&self) -> Seq<Half> {
        let hi = match self.hi {
            Some(cell) => seq![cell.half()],
            None => Seq::empty(),
        };
        let lo = match self.lo {
            Some(cell) => seq![cell.half()],
            None => Seq::empty(),
        };
        hi + lo
    }
}

impl<'a> IterMut<'a> {
    /// An iterator over both halves of the pair in `cell`.
    pub fn new(cell: &'a Cell<u4x2>) -> (r: Self)
        ensures
            r@ == seq![Half { cell: *cell, high: true }, Half { cell: *cell, high: false }],
    {
        let r = IterMut { hi: Some(U4HiCell::new(cell)), lo: Some(U4LoCell::new(cell)) };
        assert(r@ =~= seq![Half { cell: *cell, high: true }, Half { cell: *cell, high: false }]);
        r
    }

    /// An iterator over a pair yields two cells at most.
    pub proof fn lemma_len(&self)
        ensures
            self@.len() <= 2,
    {
    }

    /// The cell for the next half from the front, if any is left.
    pub fn next(&mut self) -> (r: Option<U4HalfCell<'a>>)
        ensures
            old(self)@.len() == 0 ==> r.is_none() && final(self)@ == old(self)@,
            old(self)@.len() > 0 ==> r.is_some() && r.unwrap().half() == old(self)@.first()
                && final(self)@ == old(self)@.drop_first(),
    {
        match self.hi {
            Some(cell) => {
                self.hi = None;
                assert(self@ =~= old(self)@.drop_first());
                Some(U4HalfCell::Hi(cell))
            },
            None => match self.lo {
                Some(cell) => {
                    self.lo = None;
                    assert(self@ =~= old(self)@.drop_first());
                    Some(U4HalfCell::Lo(cell))
                },
                None => None,
            },
        }
    }

    /// The cell for the next half from the back, if any is left.
    pub fn next_back(&mut self) -> (r: Option<U4HalfCell<'a>>)
        ensures
            old(self)@.len() == 0 ==> r.is_none() && final(self)@ == old(self)@,
            old(self)@.len() > 0 ==> r.is_some() && r.unwrap().half() == old(self)@.last()
                && final(self)@ == old(self)@.drop_last(),
    {
        match self.lo {
            Some(cell) => {
                self.lo = None;
                assert(self@ =~= old(self)@.drop_last());
                Some(U4HalfCell::Lo(cell))
            },
            None => match self.hi {
                Some(cell) => {
                    self.hi = None;
                    assert(self@ =~= old(self)@.drop_last());
                    Some(U4HalfCell::Hi(cell))
                },
                None => None,
            },
        }
    }

    /// The number of cells that are left.
    pub fn len(&self) -> (r: usize)
        ensures
            r == self@.len(),
    {
        let hi: usize = if self.hi.is_some() { 1 } else { 0 };
        let lo: usize = if self.lo.is_some() { 1 } else { 0 };
        hi + lo
    }

    /// The bounds on the number of cells that are left, which are both exact.
    pub fn size_hint(&self) -> (r: (usize, Option<usize>))
        ensures
            r.0 == self@.len(),
            r.1 == Some(r.0),
    {
        let len: usize = self.len();
        (len, Some(len))
    }
}

} // verus!
