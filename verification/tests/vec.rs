use nibble::base::{u4, ParseNibbleError};
use nibble::slice::{NibSliceAligned, NibSliceAlignedMut, NibSliceExt, NibSliceMutExt, Sealed};
use nibble::pair::U4Cell;
use nibble::vec::nibble_capacity;
use nibble::{u4hi, u4lo, u4x2, NibVec};

fn nibbles(vec: &NibVec) -> Vec<u8> {
    let mut iter = vec.nibbles();
    let mut out = Vec::new();
    while let Some(nib) = iter.next() {
        out.push(nib.to_lo());
    }
    out
}

fn bytes(vec: &NibVec) -> Vec<u8> {
    vec.as_pairs().iter().map(|pair| pair.byte()).collect()
}

fn filled(values: &[u8]) -> NibVec {
    let mut vec = NibVec::new();
    for &v in values {
        vec.push(u4lo::from_lo(v));
    }
    vec
}

#[test]
fn a_new_vector_is_empty() {
    let vec = NibVec::new();
    assert_eq!(vec.len(), 0);
    assert!(vec.is_empty());
    assert!(vec.has_right_lo());
    assert!(vec.has_left_hi());
    assert_eq!(bytes(&vec), Vec::<u8>::new());
    let vec = NibVec::default();
    assert_eq!(vec.len(), 0);
}

#[test]
fn push_three_then_insert() {
    let mut vec = NibVec::new();
    vec.push(u4lo::from_lo(0xA));
    vec.push(u4lo::from_lo(0xB));
    vec.push(u4lo::from_lo(0xC));
    assert_eq!(vec.len(), 3);
    assert_eq!(bytes(&vec).len(), 2);
    assert_eq!(bytes(&vec)[0], 0xAB);
    assert_eq!(bytes(&vec)[1] & 0xF0, 0xC0);
    assert!(!vec.has_right_lo());
    vec.insert(1, u4lo::from_lo(0xF));
    assert_eq!(nibbles(&vec), vec![0xA, 0xF, 0xB, 0xC]);
    assert_eq!(vec.len(), 4);
    assert_eq!(bytes(&vec), vec![0xAF, 0xBC]);
    assert!(vec.has_right_lo());
}

#[test]
fn remove_from_five() {
    let mut vec = filled(&[1, 2, 3, 4, 5]);
    assert_eq!(bytes(&vec).len(), 3);
    assert_eq!(bytes(&vec)[..2], [0x12, 0x34]);
    assert_eq!(bytes(&vec)[2] & 0xF0, 0x50);
    assert!(!vec.has_right_lo());
    let removed: u4lo = vec.remove(2);
    assert_eq!(removed, 3);
    assert_eq!(nibbles(&vec), vec![1, 2, 4, 5]);
    assert_eq!(bytes(&vec), vec![0x12, 0x45]);
    assert!(vec.has_right_lo());
}

#[test]
fn pushes_count_and_pops_return_in_reverse() {
    for n in 0..40usize {
        let values: Vec<u8> = (0..n).map(|i| ((i * 7 + 3) % 16) as u8).collect();
        let mut vec = NibVec::new();
        for (i, &v) in values.iter().enumerate() {
            assert_eq!(vec.len(), i);
            vec.push(u4hi::from_lo(v));
        }
        assert_eq!(vec.len(), n);
        assert_eq!(nibbles(&vec), values);
        for &v in values.iter().rev() {
            let got: Option<u4lo> = vec.pop();
            assert_eq!(got, Some(u4lo::from_lo(v)));
        }
        assert!(vec.is_empty());
        assert_eq!(vec.len(), 0);
        assert_eq!(vec.pop::<u4lo>(), None);
        assert!(vec.is_empty());
    }
}

#[test]
fn insert_then_remove_restores_the_vector() {
    for n in 0..9usize {
        let values: Vec<u8> = (0..n).map(|i| ((i * 5 + 1) % 16) as u8).collect();
        for index in 0..=n {
            let mut vec = filled(&values);
            vec.insert(index, u4lo::from_lo(0xE));
            assert_eq!(vec.len(), n + 1);
            let mut want = values.clone();
            want.insert(index, 0xE);
            assert_eq!(nibbles(&vec), want);
            let back: u4hi = vec.remove(index);
            assert_eq!(back, 0xE);
            assert_eq!(nibbles(&vec), values);
            assert_eq!(vec.len(), n);
        }
    }
}

#[test]
fn insert_into_an_even_vector_adds_a_pair() {
    let mut vec = filled(&[1, 2, 3, 4]);
    vec.insert(0, u4lo::from_lo(9));
    assert_eq!(nibbles(&vec), vec![9, 1, 2, 3, 4]);
    assert_eq!(bytes(&vec), vec![0x91, 0x23, 0x40]);
    assert!(!vec.has_right_lo());
    vec.insert(5, u4lo::from_lo(7));
    assert_eq!(bytes(&vec), vec![0x91, 0x23, 0x47]);
    let mut vec = NibVec::new();
    vec.insert(0, u4lo::from_lo(6));
    assert_eq!(nibbles(&vec), vec![6]);
    assert_eq!(bytes(&vec), vec![0x60]);
}

#[test]
fn pop_keeps_the_pair_of_a_half_that_turns_pending() {
    let mut vec = filled(&[1, 2, 3, 4]);
    let got: Option<u4lo> = vec.pop();
    assert_eq!(got, Some(u4lo::from_lo(4)));
    assert_eq!(vec.len(), 3);
    assert_eq!(bytes(&vec), vec![0x12, 0x34]);
    assert!(!vec.has_right_lo());
    vec.push(u4lo::from_lo(9));
    assert_eq!(bytes(&vec), vec![0x12, 0x39]);
    let got: Option<u4hi> = vec.pop();
    assert_eq!(got, Some(u4hi::from_lo(9)));
    let got: Option<u4hi> = vec.pop();
    assert_eq!(got, Some(u4hi::from_lo(3)));
    assert_eq!(bytes(&vec), vec![0x12]);
    assert!(vec.has_right_lo());
}

#[test]
fn pop_at_answers_for_every_index() {
    let mut vec = filled(&[1, 2, 3]);
    assert_eq!(vec.pop_at::<u4lo>(3), None);
    assert_eq!(vec.pop_at::<u4lo>(usize::MAX), None);
    assert_eq!(nibbles(&vec), vec![1, 2, 3]);
    assert_eq!(vec.pop_at::<u4lo>(0), Some(u4lo::from_lo(1)));
    assert_eq!(nibbles(&vec), vec![2, 3]);
    assert_eq!(vec.pop_at::<u4lo>(1), Some(u4lo::from_lo(3)));
    assert_eq!(vec.pop_at::<u4lo>(0), Some(u4lo::from_lo(2)));
    assert_eq!(vec.pop_at::<u4lo>(0), None);
    assert!(vec.is_empty());
}

#[test]
fn discard_and_clear() {
    let mut vec = filled(&[1, 2, 3, 4, 5, 6]);
    vec.discard_at(5);
    assert_eq!(nibbles(&vec), vec![1, 2, 3, 4, 5]);
    assert_eq!(bytes(&vec), vec![0x12, 0x34, 0x50]);
    vec.discard_at(0);
    assert_eq!(nibbles(&vec), vec![2, 3, 4, 5]);
    assert_eq!(bytes(&vec), vec![0x23, 0x45]);
    vec.clear();
    assert!(vec.is_empty());
    assert!(vec.has_right_lo());
    assert_eq!(bytes(&vec), Vec::<u8>::new());
}

#[test]
fn from_pairs_and_bytes() {
    let vec = NibVec::from_pair_vec(vec![u4x2::from_byte(0x12), u4x2::from_byte(0x34)]);
    assert_eq!(vec.len(), 4);
    assert_eq!(nibbles(&vec), vec![1, 2, 3, 4]);
    let vec = NibVec::from_byte_vec(vec![0xde, 0xad, 0xbe]);
    assert_eq!(vec.len(), 6);
    assert_eq!(nibbles(&vec), vec![0xd, 0xe, 0xa, 0xd, 0xb, 0xe]);
    assert_eq!(bytes(&vec), vec![0xde, 0xad, 0xbe]);
}

#[test]
fn from_hex_digits() {
    let vec = NibVec::from_ascii(b"0aF9c").unwrap();
    assert_eq!(nibbles(&vec), vec![0, 0xa, 0xf, 9, 0xc]);
    let vec = NibVec::from_str("beef").unwrap();
    assert_eq!(bytes(&vec), vec![0xbe, 0xef]);
    assert!(NibVec::from_ascii(b"").unwrap().is_empty());
    assert_eq!(NibVec::from_ascii(b"12x4").unwrap_err(), ParseNibbleError::BadFormat);
    assert_eq!(NibVec::from_str("12é4").unwrap_err(), ParseNibbleError::BadFormat);
    let mut vec = NibVec::new();
    assert_eq!(vec.try_push(u4lo::from_lo(3)), Ok(()));
    assert_eq!(nibbles(&vec), vec![3]);
}

#[test]
fn capacity_counts_nibbles() {
    assert_eq!(nibble_capacity(0), 0);
    assert_eq!(nibble_capacity(21), 42);
    assert_eq!(nibble_capacity(usize::MAX / 2), usize::MAX - 1);
    assert_eq!(nibble_capacity(usize::MAX / 2 + 1), usize::MAX);
    assert_eq!(nibble_capacity(usize::MAX), usize::MAX);
    let vec = NibVec::from_byte_vec(Vec::with_capacity(8));
    assert_eq!(vec.capacity() % 2, 0);
    let vec = filled(&[1, 2, 3, 4, 5]);
    assert!(vec.capacity() >= 6);
}

#[test]
fn a_vector_is_an_aligned_slice() {
    let vec = filled(&[1, 2, 3]);
    let slice = vec.as_slice();
    assert!(matches!(slice, NibSliceAligned::Odd(_)));
    assert_eq!(slice.len(), 3);
    assert_eq!(slice.get(2), 3);
    let vec = filled(&[1, 2, 3, 4]);
    let slice = vec.as_slice();
    assert!(matches!(slice, NibSliceAligned::Even(_)));
    assert_eq!(slice.len(), 4);
    assert_eq!(NibSliceExt::len(&vec), 4);
    assert_eq!(vec.get(3), 4);
    assert!(vec.is_aligned());
    assert!(vec.is_even());
}

#[test]
fn writes_through_a_mutable_slice_stay() {
    let mut vec = filled(&[1, 2, 3]);
    {
        let slice = vec.as_mut_slice();
        assert!(matches!(slice, NibSliceAlignedMut::Odd(_)));
        assert_eq!(slice.len(), 3);
        slice.get_mut(0).set(u4lo::from_lo(7));
        slice.get_mut(2).set(u4lo::from_lo(9));
        assert_eq!(slice.get_mut(1).get_lo(), 2);
    }
    assert_eq!(nibbles(&vec), vec![7, 2, 9]);
    assert_eq!(vec.len(), 3);
    vec.push(u4lo::from_lo(4));
    assert_eq!(bytes(&vec), vec![0x72, 0x94]);
}
