use core::cell::Cell;
use nibble::base::u4;
use nibble::pair::{U4Cell, U4HalfCell};
use nibble::slice::{NibSliceAligned, NibSliceAlignedMut, NibSliceEven, NibSliceEvenMut};
use nibble::slice::{NibSliceExt, NibSliceFull, NibSliceMutExt, NibSliceNoBoth, NibSliceNoL};
use nibble::slice::{NibSliceNoR, NibSliceOdd, NibSliceOddMut, NibSliceUnaligned};
use nibble::slice::{NibSliceUnalignedMut, Sealed, SealedMut};
use nibble::{u4lo, u4x2, NibSlice, NibSliceMut};

fn pairs(bytes: &[u8]) -> Vec<u4x2> {
    bytes.iter().map(|&b| u4x2::from_byte(b)).collect()
}

fn cells(bytes: &[u8]) -> Vec<Cell<u4x2>> {
    bytes.iter().map(|&b| Cell::new(u4x2::from_byte(b))).collect()
}

fn nibbles<S: NibSliceExt>(slice: &S) -> Vec<u8> {
    let mut iter = slice.nibbles();
    let mut out = Vec::new();
    while let Some(nib) = iter.next() {
        out.push(nib.to_lo());
    }
    out
}

fn reassembled<S: NibSliceExt>(slice: &S) -> Vec<u8> {
    let (left, middle, right) = slice.decompose();
    let mut out = Vec::new();
    if let Some(nib) = left {
        out.push(nib.to_lo());
    }
    for pair in middle {
        out.push(pair.hi().to_lo());
        out.push(pair.lo().to_lo());
    }
    if let Some(nib) = right {
        out.push(nib.to_lo());
    }
    out
}

fn flat(bytes: &[u8]) -> Vec<u8> {
    bytes.iter().flat_map(|&b| [b >> 4, b & 0x0F]).collect()
}

#[test]
fn the_four_shapes_hold_the_right_nibbles() {
    let buf = pairs(&[0x12, 0x34, 0x56]);
    assert_eq!(nibbles(&NibSliceFull::from_slice(&buf)), vec![1, 2, 3, 4, 5, 6]);
    assert_eq!(nibbles(&NibSliceNoL::from_slice(&buf)), vec![2, 3, 4, 5, 6]);
    assert_eq!(nibbles(&NibSliceNoR::from_slice(&buf)), vec![1, 2, 3, 4, 5]);
    assert_eq!(nibbles(&NibSliceNoBoth::from_slice(&buf)), vec![2, 3, 4, 5]);
    assert_eq!(NibSliceFull::from_slice(&buf).len(), 6);
    assert_eq!(NibSliceNoL::from_slice(&buf).len(), 5);
    assert_eq!(NibSliceNoR::from_slice(&buf).len(), 5);
    assert_eq!(NibSliceNoBoth::from_slice(&buf).len(), 4);
}

#[test]
fn decompose_gives_the_three_parts() {
    let buf = pairs(&[0x12, 0x34, 0x56]);
    let view1 = NibSliceFull::from_slice(&buf);
    let (left, middle, right) = view1.decompose();
    assert!(left.is_none() && right.is_none());
    assert_eq!(middle, &buf[..]);
    let view2 = NibSliceNoL::from_slice(&buf);
    let (left, middle, right) = view2.decompose();
    assert_eq!(left, Some(u4lo::from_lo(2)));
    assert_eq!(middle, &buf[1..]);
    assert!(right.is_none());
    let view3 = NibSliceNoR::from_slice(&buf);
    let (left, middle, right) = view3.decompose();
    assert!(left.is_none());
    assert_eq!(middle, &buf[..2]);
    assert_eq!(right.map(|n| n.to_lo()), Some(5));
    let view4 = NibSliceNoBoth::from_slice(&buf);
    let (left, middle, right) = view4.decompose();
    assert_eq!(left, Some(u4lo::from_lo(2)));
    assert_eq!(middle, &buf[1..2]);
    assert_eq!(right.map(|n| n.to_lo()), Some(5));
}

#[test]
fn one_pair_without_both_halves_holds_nothing() {
    let buf = pairs(&[0xab]);
    let slice = NibSliceNoBoth::from_slice(&buf);
    let (left, middle, right) = slice.decompose();
    assert!(left.is_none());
    assert!(middle.is_empty());
    assert!(right.is_none());
    assert_eq!(slice.len(), 0);
    assert!(slice.is_empty());
    assert_eq!(nibbles(&slice), Vec::<u8>::new());
    assert!(slice.nibbles().next().is_none());
}

#[test]
fn decompose_then_reassemble_gives_the_nibbles() {
    for n in 0..5usize {
        let bytes: Vec<u8> = (0..n).map(|i| (0x1f + 0x35 * i) as u8).collect();
        let buf = pairs(&bytes);
        let all = flat(&bytes);
        let full = NibSliceFull::from_slice(&buf);
        assert_eq!(reassembled(&full), all);
        assert_eq!(nibbles(&full), all);
        let no_l = NibSliceNoL::from_slice(&buf);
        let want: Vec<u8> = all.iter().skip(1).cloned().collect();
        assert_eq!(reassembled(&no_l), want);
        assert_eq!(nibbles(&no_l), want);
        assert_eq!(no_l.len(), want.len());
        let no_r = NibSliceNoR::from_slice(&buf);
        let want: Vec<u8> = all.iter().take(all.len().saturating_sub(1)).cloned().collect();
        assert_eq!(reassembled(&no_r), want);
        assert_eq!(nibbles(&no_r), want);
        assert_eq!(no_r.len(), want.len());
        let none = NibSliceNoBoth::from_slice(&buf);
        let want: Vec<u8> =
            all.iter().skip(1).take(all.len().saturating_sub(2)).cloned().collect();
        assert_eq!(reassembled(&none), want);
        assert_eq!(nibbles(&none), want);
        assert_eq!(none.len(), want.len());
        assert_eq!(none.is_empty(), want.is_empty());
    }
}

#[test]
fn get_counts_from_the_first_nibble_of_the_slice() {
    let buf = pairs(&[0x12, 0x34, 0x56]);
    let full = NibSliceFull::from_slice(&buf);
    let no_l = NibSliceNoL::from_slice(&buf);
    let none = NibSliceNoBoth::from_slice(&buf);
    for i in 0..6 {
        assert_eq!(full.get(i), (i + 1) as u8);
    }
    for i in 0..5 {
        assert_eq!(no_l.get(i), (i + 2) as u8);
    }
    for i in 0..4 {
        assert_eq!(none.get(i), (i + 2) as u8);
    }
}

#[test]
fn classification_follows_the_flags() {
    let buf = pairs(&[0x12, 0x34]);
    let full = NibSliceFull::from_slice(&buf);
    let no_l = NibSliceNoL::from_slice(&buf);
    let no_r = NibSliceNoR::from_slice(&buf);
    let none = NibSliceNoBoth::from_slice(&buf);
    assert!(full.has_left_hi() && full.has_right_lo());
    assert!(!no_l.has_left_hi() && no_l.has_right_lo());
    assert!(no_r.has_left_hi() && !no_r.has_right_lo());
    assert!(!none.has_left_hi() && !none.has_right_lo());
    assert!(full.is_aligned() && full.is_even() && !full.is_odd());
    assert!(!no_l.is_aligned() && !no_l.is_even() && no_l.is_odd());
    assert!(no_r.is_aligned() && !no_r.is_even() && no_r.is_odd());
    assert!(!none.is_aligned() && none.is_even() && !none.is_odd());
    assert!(matches!(full.into_generic(), NibSlice::Full(_)));
    assert!(matches!(no_l.into_generic(), NibSlice::NoL(_)));
    assert!(matches!(no_r.into_generic(), NibSlice::NoR(_)));
    assert!(matches!(none.into_generic(), NibSlice::NoBoth(_)));
    assert_eq!(nibbles(&no_l.into_generic()), vec![2, 3, 4]);
    assert_eq!(no_l.nibble_pairs().len(), 2);
}

#[test]
fn a_slice_turns_into_the_narrower_kinds_that_fit() {
    let buf = pairs(&[0x12, 0x34]);
    let full = NibSlice::from(NibSliceFull::from_slice(&buf));
    let no_l = NibSlice::from(NibSliceNoL::from_slice(&buf));
    let no_r = NibSlice::from(NibSliceNoR::from_slice(&buf));
    let none = NibSlice::from(NibSliceNoBoth::from_slice(&buf));
    assert!(matches!(full.as_aligned(), Some(NibSliceAligned::Even(_))));
    assert!(matches!(no_r.as_aligned(), Some(NibSliceAligned::Odd(_))));
    assert!(no_l.as_aligned().is_none() && none.as_aligned().is_none());
    assert!(matches!(no_l.as_unaligned(), Some(NibSliceUnaligned::Odd(_))));
    assert!(matches!(none.as_unaligned(), Some(NibSliceUnaligned::Even(_))));
    assert!(full.as_unaligned().is_none() && no_r.as_unaligned().is_none());
    assert!(matches!(full.as_even(), Some(NibSliceEven::Aligned(_))));
    assert!(matches!(none.as_even(), Some(NibSliceEven::Unaligned(_))));
    assert!(no_l.as_even().is_none() && no_r.as_even().is_none());
    assert!(matches!(no_r.as_odd(), Some(NibSliceOdd::Aligned(_))));
    assert!(matches!(no_l.as_odd(), Some(NibSliceOdd::Unaligned(_))));
    assert!(full.as_odd().is_none() && none.as_odd().is_none());
    assert_eq!(nibbles(&no_l.as_odd().unwrap()), vec![2, 3, 4]);
    assert_eq!(nibbles(&NibSlice::from(no_l.as_unaligned().unwrap())), vec![2, 3, 4]);
    assert_eq!(nibbles(&NibSlice::from(no_r.as_aligned().unwrap())), vec![1, 2, 3]);
    assert_eq!(nibbles(&NibSlice::from(none.as_even().unwrap())), vec![2, 3]);
    assert_eq!(nibbles(&NibSlice::from(no_r.as_odd().unwrap())), vec![1, 2, 3]);
    let aligned = NibSliceAligned::from(NibSliceNoR::from_slice(&buf));
    assert!(aligned.has_left_hi() && !aligned.has_right_lo());
    let unaligned = NibSliceUnaligned::from(NibSliceNoBoth::from_slice(&buf));
    assert!(!unaligned.has_left_hi() && !unaligned.has_right_lo());
    let even = NibSliceEven::from(NibSliceNoBoth::from_slice(&buf));
    assert!(!even.has_left_hi() && !even.has_right_lo());
    let odd = NibSliceOdd::from(NibSliceNoL::from_slice(&buf));
    assert!(!odd.has_left_hi() && odd.has_right_lo());
}

#[test]
fn a_mutable_slice_writes_one_half_at_a_time() {
    let buf = cells(&[0x12, 0x34, 0x56]);
    let slice = NibSliceMut::NoBoth(&buf);
    assert_eq!(slice.len(), 4);
    assert!(!slice.has_left_hi() && !slice.has_right_lo());
    slice.get_mut(0).set(u4lo::from_lo(0xa));
    slice.get_mut(1).set(u4lo::from_lo(0xb));
    slice.get_mut(3).set(u4lo::from_lo(0xc));
    assert_eq!(slice.get_mut(2).get_lo(), 4);
    assert!(matches!(slice.get_mut(0), U4HalfCell::Lo(_)));
    assert!(matches!(slice.get_mut(1), U4HalfCell::Hi(_)));
    let bytes: Vec<u8> = buf.iter().map(|c| c.get().byte()).collect();
    assert_eq!(bytes, vec![0x1a, 0xb4, 0xc6]);
}

#[test]
fn a_mutable_slice_decomposes_into_cells() {
    let buf = cells(&[0x12, 0x34, 0x56]);
    let slice = NibSliceMut::NoBoth(&buf);
    let (left, mut middle, right) = slice.decompose_mut();
    left.unwrap().set(u4lo::from_lo(0xe));
    right.unwrap().set(u4lo::from_lo(0xf));
    assert_eq!(middle.len(), 1);
    let (hi, lo) = middle.next().unwrap();
    hi.swap(&lo);
    assert!(middle.next().is_none());
    let bytes: Vec<u8> = buf.iter().map(|c| c.get().byte()).collect();
    assert_eq!(bytes, vec![0x1e, 0x43, 0xf6]);
    let one = cells(&[0xab]);
    let view5 = NibSliceMut::NoBoth(&one);
    let (left, middle, right) = view5.decompose_mut();
    assert!(left.is_none() && right.is_none());
    assert_eq!(middle.len(), 0);
    assert!(NibSliceMut::NoBoth(&one).is_empty());
    let view6 = NibSliceMut::Full(&one);
    let (left, middle, right) = view6.decompose_mut();
    assert!(left.is_none() && right.is_none());
    assert_eq!(middle.len(), 1);
}

#[test]
fn nibbles_mut_walks_the_cells_from_both_ends() {
    let buf = cells(&[0x12, 0x34, 0x56]);
    let slice = NibSliceMut::NoL(&buf);
    let mut iter = slice.nibbles_mut();
    assert_eq!(iter.len(), 5);
    let mut seen = Vec::new();
    while let Some(cell) = iter.next() {
        seen.push(cell.get_lo().to_lo());
        cell.set(u4lo::from_lo(0xf - cell.get_lo().to_lo()));
        if let Some(cell) = iter.next_back() {
            seen.push(cell.get_lo().to_lo());
        }
    }
    assert_eq!(seen, vec![2, 6, 3, 5, 4]);
    assert_eq!(iter.len(), 0);
    let bytes: Vec<u8> = buf.iter().map(|c| c.get().byte()).collect();
    assert_eq!(bytes, vec![0x1d, 0xcb, 0x56]);
}

#[test]
fn a_mutable_slice_turns_into_the_narrower_kinds_that_fit() {
    let buf = cells(&[0x12, 0x34]);
    assert!(matches!(NibSliceMut::Full(&buf).into_aligned(), Some(NibSliceAlignedMut::Even(_))));
    assert!(matches!(NibSliceMut::NoR(&buf).into_aligned(), Some(NibSliceAlignedMut::Odd(_))));
    assert!(NibSliceMut::NoL(&buf).into_aligned().is_none());
    assert!(NibSliceMut::NoBoth(&buf).into_aligned().is_none());
    assert!(matches!(NibSliceMut::NoL(&buf).into_unaligned(), Some(NibSliceUnalignedMut::Odd(_))));
    assert!(matches!(
        NibSliceMut::NoBoth(&buf).into_unaligned(),
        Some(NibSliceUnalignedMut::Even(_))
    ));
    assert!(NibSliceMut::Full(&buf).into_unaligned().is_none());
    assert!(NibSliceMut::NoR(&buf).into_unaligned().is_none());
    assert!(matches!(NibSliceMut::Full(&buf).into_even(), Some(NibSliceEvenMut::Aligned(_))));
    assert!(matches!(NibSliceMut::NoBoth(&buf).into_even(), Some(NibSliceEvenMut::Unaligned(_))));
    assert!(NibSliceMut::NoL(&buf).into_even().is_none());
    assert!(NibSliceMut::NoR(&buf).into_even().is_none());
    assert!(matches!(NibSliceMut::NoR(&buf).into_odd(), Some(NibSliceOddMut::Aligned(_))));
    assert!(matches!(NibSliceMut::NoL(&buf).into_odd(), Some(NibSliceOddMut::Unaligned(_))));
    assert!(NibSliceMut::Full(&buf).into_odd().is_none());
    assert!(NibSliceMut::NoBoth(&buf).into_odd().is_none());
    let odd = NibSliceMut::NoL(&buf).into_odd().unwrap();
    assert!(odd.is_odd() && !odd.is_aligned());
    assert_eq!(odd.len(), 3);
    assert!(matches!(odd.into_generic_mut(), NibSliceMut::NoL(_)));
    assert!(matches!(NibSliceMut::from(odd), NibSliceMut::NoL(_)));
    let even = NibSliceMut::NoBoth(&buf).into_even().unwrap();
    assert!(matches!(NibSliceMut::from(even), NibSliceMut::NoBoth(_)));
    let aligned = NibSliceMut::NoR(&buf).into_aligned().unwrap();
    assert!(matches!(NibSliceMut::from(aligned), NibSliceMut::NoR(_)));
    let unaligned = NibSliceMut::NoBoth(&buf).into_unaligned().unwrap();
    assert_eq!(unaligned.nibble_pairs_mut().len(), 2);
    assert_eq!(unaligned.iter_mut().len(), 2);
    assert!(matches!(NibSliceMut::from(unaligned), NibSliceMut::NoBoth(_)));
}
