//! What the nibble types share: the two halves of a byte, the nibbles of a run of
//! packed pairs, and the moves that make room for a nibble in such a run or
//! close the gap that one leaves.
use vstd::prelude::*;
use core::cell::Cell;
use crate::base::u4;
use crate::pair::{half_at, u4x2, U4Cell, U4HalfCell, U4HiCell, U4LoCell};

verus! {

/// The value of the high-order nibble of `byte`.
pub open spec fn hi_nib(byte: u8) -> u8 {
    byte / 16
}

/// The value of the low-order nibble of `byte`.
pub open spec fn lo_nib(byte: u8) -> u8 {
    byte % 16
}

/// The byte whose high-order nibble is `hi` and whose low-order nibble is `lo`.
pub open spec fn join_nibs(hi: u8, lo: u8) -> u8
    recommends
        hi < 16,
        lo < 16,
{
    (hi * 16 + lo) as u8
}

/// A byte is the join of its two nibbles, and the join gives both nibbles back.
pub proof fn lemma_join_nibs(hi: u8, lo: u8)
    requires
        hi < 16,
        lo < 16,
    ensures
        hi_nib(join_nibs(hi, lo)) == hi,
        lo_nib(join_nibs(hi, lo)) == lo,
        join_nibs(hi, lo) == hi * 16 + lo,
{
}

/// Every byte is the join of its own nibbles.
pub proof fn lemma_split_byte(byte: u8)
    ensures
        join_nibs(hi_nib(byte), lo_nib(byte)) == byte,
        hi_nib(byte) * 16 + lo_nib(byte) == byte,
        hi_nib(byte) < 16,
        lo_nib(byte) < 16,
{
}

/// Whether the low-order nibble of `byte` is nonzero.
#[inline(always)]
pub fn has_lower(byte: u8) -> (r: bool)
    ensures
        r == (lo_nib(byte) != 0),
{
    assert(byte & 0x0F == byte % 16) by (bit_vector);
    byte & 0x0F != 0
}

/// Whether the high-order nibble of `byte` is nonzero.
#[inline(always)]
pub fn has_higher(byte: u8) -> (r: bool)
    ensures
        r == (hi_nib(byte) != 0),
        r == (byte >= 16),
{
    assert(byte & 0xF0 == (byte / 16) * 16) by (bit_vector);
    byte & 0xF0 != 0
}

/// Keeps the low-order nibble of `byte` and clears the high-order one.
#[inline(always)]
pub fn lower_to_lower(byte: u8) -> (r: u8)
    ensures
        r == lo_nib(byte),
{
    assert(byte & 0x0F == byte % 16) by (bit_vector);
    byte & 0x0F
}

/// Moves the low-order nibble of `byte` to the high-order position.
#[inline(always)]
pub fn lower_to_higher(byte: u8) -> (r: u8)
    ensures
        r == join_nibs(lo_nib(byte), 0),
{
    assert(byte << 4 == (byte % 16) * 16) by (bit_vector);
    byte << 4
}

/// Moves the high-order nibble of `byte` to the low-order position.
#[inline(always)]
pub fn higher_to_lower(byte: u8) -> (r: u8)
    ensures
        r == hi_nib(byte),
{
    assert(byte >> 4 == byte / 16) by (bit_vector);
    byte >> 4
}

/// Keeps the high-order nibble of `byte` and clears the low-order one.
#[inline(always)]
pub fn higher_to_higher(byte: u8) -> (r: u8)
    ensures
        r == join_nibs(hi_nib(byte), 0),
{
    assert(byte & 0xF0 == (byte / 16) * 16) by (bit_vector);
    byte & 0xF0
}

/// Combines a byte that holds only a high-order nibble with one that holds only
/// a low-order nibble.
#[inline(always)]
pub fn combine(hi_only: u8, lo_only: u8) -> (r: u8)
    requires
        lo_nib(hi_only) == 0,
        hi_nib(lo_only) == 0,
    ensures
        r == join_nibs(hi_nib(hi_only), lo_nib(lo_only)),
        r == hi_only + lo_only,
{
    assert(hi_only % 16 == 0 && lo_only / 16 == 0 ==> hi_only | lo_only == hi_only + lo_only)
        by (bit_vector);
    hi_only | lo_only
}

/// The four binary digits of a nibble, most significant first.
pub open spec fn bits_of(lo: u8) -> Seq<u8> {
    seq![(lo / 8) % 2, (lo / 4) % 2, (lo / 2) % 2, lo % 2]
}

/// The two octal digits of a nibble, most significant first.
pub open spec fn octal_digits_of(lo: u8) -> Seq<u8> {
    seq![lo / 8, lo % 8]
}

/// The two decimal digits of a nibble, most significant first.
pub open spec fn decimal_digits_of(lo: u8) -> Seq<u8> {
    seq![lo / 10, lo % 10]
}

/// The four binary digits of a nibble, most significant first.
pub fn bits(lo: u8) -> (r: [u8; 4])
    ensures
        r@ == bits_of(lo),
        r@ == seq![(lo / 8) % 2, (lo / 4) % 2, (lo / 2) % 2, lo % 2],
{
    assert((lo & 0b1000) >> 3 == (lo / 8) % 2) by (bit_vector);
    assert((lo & 0b0100) >> 2 == (lo / 4) % 2) by (bit_vector);
    assert((lo & 0b0010) >> 1 == (lo / 2) % 2) by (bit_vector);
    assert(lo & 0b0001 == lo % 2) by (bit_vector);
    let r: [u8; 4] = [(lo & 0b1000) >> 3, (lo & 0b0100) >> 2, (lo & 0b0010) >> 1, lo & 0b0001];
    assert(r@ =~= seq![(lo / 8) % 2, (lo / 4) % 2, (lo / 2) % 2, lo % 2]);
    r
}

/// The two octal digits of a nibble, most significant first.
pub fn octal_digits(lo: u8) -> (r: [u8; 2])
    ensures
        r@ == octal_digits_of(lo),
        r@ == seq![lo / 8, lo % 8],
{
    assert(lo >> 3 == lo / 8) by (bit_vector);
    assert(lo & 0b111 == lo % 8) by (bit_vector);
    let r: [u8; 2] = [lo >> 3, lo & 0b111];
    assert(r@ =~= seq![lo / 8, lo % 8]);
    r
}

/// The two decimal digits of a nibble, most significant first.
pub fn decimal_digits(lo: u8) -> (r: [u8; 2])
    ensures
        r@ == decimal_digits_of(lo),
        r@ == seq![lo / 10, lo % 10],
{
    let r: [u8; 2] = [lo / 10, lo % 10];
    assert(r@ =~= seq![lo / 10, lo % 10]);
    r
}

/// The nibble at position `i` of a run of pairs: it lies in pair `i / 2`, in the
/// high-order half when `i` is even and in the low-order half when `i` is odd.
pub open spec fn nibble_at(pairs: Seq<u4x2>, i: int) -> u8 {
    if i % 2 == 0 {
        hi_nib(pairs[i / 2]@)
    } else {
        lo_nib(pairs[i / 2]@)
    }
}

/// All the nibbles of a run of pairs, in order: two for each pair, high before low.
pub open spec fn flatten(pairs: Seq<u4x2>) -> Seq<u8> {
    Seq::new(2 * pairs.len(), |i: int| nibble_at(pairs, i))
}

/// How many nibbles a run of `pairs` pairs holds when the high half of its first
/// pair and the low half of its last pair may be left out.
pub open spec fn nibble_count(pairs: nat, has_left_hi: bool, has_right_lo: bool) -> nat {
    let left_out: nat = if has_left_hi { 0nat } else { 1nat };
    let right_out: nat = if has_right_lo { 0nat } else { 1nat };
    if 2 * pairs >= left_out + right_out {
        (2 * pairs - left_out - right_out) as nat
    } else {
        0
    }
}

/// The nibbles that a run of pairs stands for: all of its nibbles, without the
/// first when `has_left_hi` is false and without the last when `has_right_lo` is
/// false.
pub open spec fn nibbles_of(pairs: Seq<u4x2>, has_left_hi: bool, has_right_lo: bool) -> Seq<u8> {
    let first: int = if has_left_hi { 0 } else { 1 };
    let count = nibble_count(pairs.len(), has_left_hi, has_right_lo);
    if count == 0 {
        Seq::empty()
    } else {
        flatten(pairs).subrange(first, first + count)
    }
}

/// The nibbles of a run are its flattened pairs once the first of them is
/// dropped, where it is left out, and then the last, where that is left out.
pub proof fn lemma_nibbles_of_drops(pairs: Seq<u4x2>, has_left_hi: bool, has_right_lo: bool)
    ensures
        nibbles_of(pairs, has_left_hi, has_right_lo).len() == nibble_count(
            pairs.len(),
            has_left_hi,
            has_right_lo,
        ),
        nibbles_of(pairs, has_left_hi, has_right_lo) == ({
            let all = flatten(pairs);
            let left = if has_left_hi || all.len() == 0 { all } else { all.drop_first() };
            if has_right_lo || left.len() == 0 { left } else { left.drop_last() }
        }),
{
    let all = flatten(pairs);
    let left = if has_left_hi || all.len() == 0 { all } else { all.drop_first() };
    let both = if has_right_lo || left.len() == 0 { left } else { left.drop_last() };
    assert(nibbles_of(pairs, has_left_hi, has_right_lo) =~= both);
}

/// The nibbles of a run with one more pair at its end.
pub proof fn lemma_flatten_push(pairs: Seq<u4x2>, pair: u4x2)
    ensures
        flatten(pairs.push(pair)) == flatten(pairs).push(hi_nib(pair@)).push(lo_nib(pair@)),
{
    let longer = pairs.push(pair);
    let want = flatten(pairs).push(hi_nib(pair@)).push(lo_nib(pair@));
    assert forall|j: int| 0 <= j < flatten(longer).len() implies flatten(longer)[j] == want[j] by {
        if j / 2 < pairs.len() {
            assert(longer[j / 2] == pairs[j / 2]);
        }
    }
    assert(flatten(longer) =~= want);
}

/// The nibbles of a run without its last pair.
pub proof fn lemma_flatten_drop_last(pairs: Seq<u4x2>)
    requires
        pairs.len() > 0,
    ensures
        flatten(pairs.drop_last()) == flatten(pairs).subrange(0, 2 * pairs.len() - 2),
{
    let shorter = pairs.drop_last();
    let want = flatten(pairs).subrange(0, 2 * pairs.len() - 2);
    assert forall|j: int| 0 <= j < flatten(shorter).len() implies flatten(shorter)[j] == want[j] by {
        assert(shorter[j / 2] == pairs[j / 2]);
    }
    assert(flatten(shorter) =~= want);
}

/// Every nibble of a run of pairs is less than 16.
pub proof fn lemma_flatten_range(pairs: Seq<u4x2>)
    ensures
        forall|i: int| 0 <= i < flatten(pairs).len() ==> #[trigger] flatten(pairs)[i] < 16,
{
}

/// Two runs of pairs with the same nibbles are the same run.
pub proof fn lemma_flatten_injective(a: Seq<u4x2>, b: Seq<u4x2>)
    requires
        flatten(a) == flatten(b),
    ensures
        a == b,
{
    assert(flatten(a).len() == 2 * a.len());
    assert(flatten(b).len() == 2 * b.len());
    assert(a.len() == b.len());
    assert forall|k: int| 0 <= k < a.len() implies a[k] == b[k] by {
        lemma_split_byte(a[k]@);
        lemma_split_byte(b[k]@);
        assert(flatten(a)[2 * k] == nibble_at(a, 2 * k));
        assert(flatten(b)[2 * k] == nibble_at(b, 2 * k));
        assert(flatten(a)[2 * k + 1] == nibble_at(a, 2 * k + 1));
        assert(flatten(b)[2 * k + 1] == nibble_at(b, 2 * k + 1));
        assert(hi_nib(a[k]@) == hi_nib(b[k]@));
        assert(lo_nib(a[k]@) == lo_nib(b[k]@));
        assert(a[k]@ == b[k]@);
        a[k].lemma_view_is_all(b[k]);
    }
    assert(a =~= b);
}

/// Makes room for one nibble at position `nibidx`: every nibble from that position
/// on moves one place towards the end, the last nibble of the run is dropped, and
/// the place that was made holds zero. The caller writes the new nibble there.
///
/// With `nibidx` equal to the number of nibbles nothing moves.
pub fn shift_right(slice: &mut [u4x2], nibidx: usize)
    requires
        nibidx <= 2 * old(slice)@.len(),
    ensures
        final(slice)@.len() == old(slice)@.len(),
        flatten(final(slice)@) == flatten(old(slice)@).insert(nibidx as int, 0u8).drop_last(),
{
    let ghost orig = slice@;
    let bytelen: usize = slice.len();
    let byteidx: usize = nibidx / 2;
    if byteidx == bytelen {
        assert(flatten(slice@) =~= flatten(orig).insert(nibidx as int, 0u8).drop_last());
        return ;
    }
    let mut i: usize = bytelen - 1;
    while i > byteidx
        invariant
            byteidx <= i < bytelen,
            slice@.len() == bytelen,
            orig.len() == bytelen,
            forall|k: int| 0 <= k <= i ==> slice@[k] == orig[k],
            forall|j: int|
                2 * (i + 1) <= j < 2 * bytelen ==> nibble_at(slice@, j) == nibble_at(orig, j - 1),
        decreases i,
    {
        let prev: u4x2 = slice[i - 1];
        let cur: u4x2 = slice[i];
        let ghost before = slice@;
        slice[i] = u4x2::from_both(prev.lo().to_u4hi(), cur.hi().to_u4lo());
        proof {
            lemma_join_nibs(lo_nib(prev@), hi_nib(cur@));
            assert forall|j: int| 2 * i <= j < 2 * bytelen implies nibble_at(slice@, j)
                == nibble_at(orig, j - 1) by {
                if j >= 2 * (i + 1) {
                    assert(slice@[j / 2] == before[j / 2]);
                    assert(nibble_at(before, j) == nibble_at(orig, j - 1));
                }
            }
        }
        i -= 1;
    }
    let target: u4x2 = slice[byteidx];
    let ghost before = slice@;
    if nibidx % 2 == 0 {
        // an even position is a high half: the pair's own high nibble moves down
        slice[byteidx] = u4x2::from_byte(higher_to_lower(target.byte()));
    } else {
        // an odd position is a low half: it is cleared, the high nibble stays
        slice[byteidx] = u4x2::from_byte(higher_to_higher(target.byte()));
    }
    proof {
        lemma_join_nibs(hi_nib(target@), 0);
        let want = flatten(orig).insert(nibidx as int, 0u8).drop_last();
        assert forall|j: int| 0 <= j < 2 * bytelen implies flatten(slice@)[j] == want[j] by {
            if j / 2 < byteidx {
                assert(slice@[j / 2] == orig[j / 2]);
            } else if j / 2 == byteidx {
            } else {
                assert(slice@[j / 2] == before[j / 2]);
                assert(nibble_at(before, j) == nibble_at(orig, j - 1));
            }
        }
        assert(flatten(slice@) =~= want);
    }
}

/// Removes the nibble at position `nibidx`: every nibble after that position moves
/// one place towards the start, and the last place of the run holds zero.
pub fn shift_left(slice: &mut [u4x2], nibidx: usize)
    requires
        nibidx < 2 * old(slice)@.len(),
    ensures
        final(slice)@.len() == old(slice)@.len(),
        flatten(final(slice)@) == flatten(old(slice)@).remove(nibidx as int).push(0u8),
{
    let ghost orig = slice@;
    let bytelen: usize = slice.len();
    let byteidx: usize = nibidx / 2;
    let start: usize = if nibidx % 2 == 0 {
        // an even position is a high half: the whole pair moves
        byteidx
    } else {
        // an odd position is a low half: it is replaced, the high nibble stays
        let target: u4x2 = slice[byteidx];
        if byteidx + 1 < bytelen {
            let next: u4x2 = slice[byteidx + 1];
            slice[byteidx] = u4x2::from_both(target.hi(), next.hi().to_u4lo());
            proof {
                lemma_join_nibs(hi_nib(target@), hi_nib(next@));
            }
        } else {
            slice[byteidx] = u4x2::from_byte(higher_to_higher(target.byte()));
            proof {
                lemma_join_nibs(hi_nib(target@), 0);
            }
        }
        byteidx + 1
    };
    let mut i: usize = start;
    while i < bytelen - 1
        invariant
            start <= i <= bytelen,
            start < bytelen ==> i < bytelen,
            byteidx <= start <= byteidx + 1,
            start == byteidx + 1 <==> nibidx % 2 == 1,
            byteidx == nibidx / 2,
            byteidx < bytelen,
            slice@.len() == bytelen,
            orig.len() == bytelen,
            forall|k: int| i <= k < bytelen ==> slice@[k] == orig[k],
            forall|j: int| 0 <= j < nibidx ==> nibble_at(slice@, j) == nibble_at(orig, j),
            forall|j: int|
                nibidx <= j < 2 * i && j + 1 < 2 * bytelen ==> nibble_at(slice@, j) == nibble_at(
                    orig,
                    j + 1,
                ),
            start == bytelen ==> nibble_at(slice@, 2 * bytelen - 1) == 0,
        decreases bytelen - i,
    {
        let cur: u4x2 = slice[i];
        let next: u4x2 = slice[i + 1];
        let ghost before = slice@;
        slice[i] = u4x2::from_both(cur.lo().to_u4hi(), next.hi().to_u4lo());
        proof {
            lemma_join_nibs(lo_nib(cur@), hi_nib(next@));
            assert forall|j: int| 0 <= j < nibidx implies nibble_at(slice@, j) == nibble_at(
                orig,
                j,
            ) by {
                assert(j / 2 != i ==> slice@[j / 2] == before[j / 2]);
                assert(nibble_at(before, j) == nibble_at(orig, j));
            }
            assert forall|j: int| nibidx <= j < 2 * (i + 1) && j + 1 < 2 * bytelen implies nibble_at(
                slice@,
                j,
            ) == nibble_at(orig, j + 1) by {
                if j < 2 * i {
                    assert(slice@[j / 2] == before[j / 2]);
                    assert(nibble_at(before, j) == nibble_at(orig, j + 1));
                }
            }
        }
        i += 1;
    }
    if start < bytelen {
        // the last pair has nothing to take from: its low nibble moves up
        let last: u4x2 = slice[bytelen - 1];
        let ghost before = slice@;
        slice[bytelen - 1] = u4x2::from_byte(lower_to_higher(last.byte()));
        proof {
            lemma_join_nibs(lo_nib(last@), 0);
            assert forall|j: int| 0 <= j < nibidx implies nibble_at(slice@, j) == nibble_at(
                orig,
                j,
            ) by {
                assert(j / 2 != bytelen - 1 ==> slice@[j / 2] == before[j / 2]);
                assert(nibble_at(before, j) == nibble_at(orig, j));
            }
            assert forall|j: int| nibidx <= j < 2 * bytelen - 1 implies nibble_at(slice@, j)
                == nibble_at(orig, j + 1) by {
                if j < 2 * (bytelen - 1) {
                    assert(slice@[j / 2] == before[j / 2]);
                    assert(nibble_at(before, j) == nibble_at(orig, j + 1));
                }
            }
        }
    }
    proof {
        let want = flatten(orig).remove(nibidx as int).push(0u8);
        assert forall|j: int| 0 <= j < 2 * bytelen implies flatten(slice@)[j] == want[j] by {
            if j < nibidx {
                assert(nibble_at(slice@, j) == nibble_at(orig, j));
            } else if j < 2 * bytelen - 1 {
                assert(nibble_at(slice@, j) == nibble_at(orig, j + 1));
            } else {
            }
        }
        assert(flatten(slice@) =~= want);
    }
}

/// Writes `nib` at position `nibidx` and leaves every other nibble as it is.
pub fn set_nib<T: u4>(slice: &mut [u4x2], nibidx: usize, nib: T)
    requires
        nibidx < 2 * old(slice)@.len(),
    ensures
        final(slice)@.len() == old(slice)@.len(),
        flatten(final(slice)@) == flatten(old(slice)@).update(nibidx as int, nib.value()),
{
    let ghost orig = slice@;
    let idx: usize = nibidx / 2;
    let mut pair: u4x2 = slice[idx];
    if nibidx % 2 == 0 {
        pair.set_hi(nib);
    } else {
        pair.set_lo(nib);
    }
    slice[idx] = pair;
    proof {
        let want = flatten(orig).update(nibidx as int, nib.value());
        assert forall|j: int| 0 <= j < 2 * orig.len() implies flatten(slice@)[j] == want[j] by {
            if j / 2 != idx {
                assert(slice@[j / 2] == orig[j / 2]);
            }
        }
        assert(flatten(slice@) =~= want);
    }
}

/// Reads the nibble at position `nibidx`.
pub fn get_nib<T: u4>(slice: &[u4x2], nibidx: usize) -> (r: T)
    requires
        nibidx < 2 * slice@.len(),
    ensures
        r.value() == flatten(slice@)[nibidx as int],
{
    let idx: usize = nibidx / 2;
    if nibidx % 2 == 0 {
        T::from_hi(slice[idx].hi().to_hi())
    } else {
        T::from_lo(slice[idx].lo().to_lo())
    }
}

/// The cell for the nibble at position `nibidx`.
pub fn get_nib_mut(slice: &[Cell<u4x2>], nibidx: usize) -> (r: U4HalfCell<'_>)
    requires
        nibidx < 2 * slice@.len(),
    ensures
        r.half() == half_at(slice@, nibidx as int),
{
    let idx: usize = nibidx / 2;
    if nibidx % 2 == 0 {
        U4HalfCell::Hi(U4HiCell::new(&slice[idx]))
    } else {
        U4HalfCell::Lo(U4LoCell::new(&slice[idx]))
    }
}

} // verus!
