use nibble::array::{NibArrayEven, NibArrayOdd};
use nibble::base::{u4, ParseNibbleError};
use nibble::pair::U4Cell;
use nibble::slice::{NibSliceAligned, NibSliceExt, NibSliceMutExt, Sealed};
use nibble::{u4hi, u4lo, u4x2, NibArray, NibArrayVec};

fn nibbles<S: NibSliceExt>(slice: &S) -> Vec<u8> {
    let mut iter = slice.nibbles();
    let mut out = Vec::new();
    while let Some(nib) = iter.next() {
        out.push(nib.to_lo());
    }
    out
}

fn bytes<S: NibSliceExt>(slice: &S) -> Vec<u8> {
    slice.nibble_pairs().as_slice().iter().map(|pair| pair.byte()).collect()
}

fn filled<const CAP: usize>(values: &[u8]) -> NibArrayVec<CAP> {
    let mut vec = NibArrayVec::new();
    for &v in values {
        vec.push(u4lo::from_lo(v));
    }
    vec
}

#[test]
fn a_new_array_vector_is_empty() {
    let vec: NibArrayVec<2> = NibArrayVec::new();
    assert_eq!(vec.len(), 0);
    assert!(vec.is_empty());
    assert!(!vec.is_full());
    assert_eq!(vec.capacity(), 4);
    let none: NibArrayVec<0> = NibArrayVec::default();
    assert!(none.is_full());
    assert!(none.is_empty());
    assert_eq!(none.capacity(), 0);
}

#[test]
fn pushes_fill_the_vector() {
    let mut vec: NibArrayVec<2> = NibArrayVec::new();
    for v in 1..=4u8 {
        assert!(!vec.is_full());
        assert_eq!(vec.try_push(u4lo::from_lo(v)).map_err(|e| e.element().to_lo()), Ok(()));
        assert_eq!(vec.len(), v as usize);
    }
    assert!(vec.is_full());
    assert_eq!(nibbles(&vec), vec![1, 2, 3, 4]);
    assert_eq!(bytes(&vec), vec![0x12, 0x34]);
    let refused = vec.try_push(u4lo::from_lo(9)).unwrap_err();
    assert_eq!(refused.element(), 9);
    assert_eq!(vec.checked_push(u4hi::from_lo(8)), Err(u4hi::from_lo(8)));
    assert_eq!(nibbles(&vec), vec![1, 2, 3, 4]);
    for v in (1..=4u8).rev() {
        assert_eq!(vec.pop::<u4lo>(), Some(u4lo::from_lo(v)));
    }
    assert_eq!(vec.pop::<u4lo>(), None);
    assert!(vec.is_empty());
}

#[test]
fn unchecked_pushes_and_extend() {
    let mut vec: NibArrayVec<3> = NibArrayVec::new();
    vec.push_unchecked(u4lo::from_lo(1));
    vec.push(u4hi::from_lo(2));
    vec.extend(&[u4lo::from_lo(3), u4lo::from_lo(4), u4lo::from_lo(5)]);
    assert_eq!(nibbles(&vec), vec![1, 2, 3, 4, 5]);
    assert_eq!(bytes(&vec)[..2], [0x12, 0x34]);
    assert!(!vec.has_right_lo());
    assert!(vec.has_left_hi());
    assert_eq!(vec.checked_push(u4lo::from_lo(6)), Ok(()));
    assert!(vec.is_full());
}

#[test]
fn insert_needs_room_for_one_nibble() {
    let mut vec: NibArrayVec<2> = filled(&[0xA, 0xB, 0xC]);
    assert!(vec.try_insert(1, u4lo::from_lo(0xF)).is_ok());
    assert_eq!(nibbles(&vec), vec![0xA, 0xF, 0xB, 0xC]);
    assert_eq!(bytes(&vec), vec![0xAF, 0xBC]);
    let refused = vec.try_insert(0, u4lo::from_lo(1)).unwrap_err();
    assert_eq!(refused.element(), 1);
    assert_eq!(vec.checked_insert(4, u4lo::from_lo(2)), Err(u4lo::from_lo(2)));
    assert_eq!(nibbles(&vec), vec![0xA, 0xF, 0xB, 0xC]);
    let removed: u4lo = vec.remove(1);
    assert_eq!(removed, 0xF);
    assert_eq!(nibbles(&vec), vec![0xA, 0xB, 0xC]);
    vec.insert(3, u4lo::from_lo(0xD));
    assert_eq!(bytes(&vec), vec![0xAB, 0xCD]);
    assert_eq!(vec.pop_at::<u4lo>(4), None);
    assert_eq!(vec.pop_at::<u4lo>(0), Some(u4lo::from_lo(0xA)));
    assert_eq!(nibbles(&vec), vec![0xB, 0xC, 0xD]);
    vec.clear();
    assert!(vec.is_empty());
    assert_eq!(vec.checked_insert(0, u4lo::from_lo(2)), Ok(()));
}

#[test]
fn a_full_vector_turns_into_an_array() {
    let vec: NibArrayVec<2> = filled(&[1, 2, 3, 4]);
    let vec = vec.into_odd_array().unwrap_err();
    assert_eq!(nibbles(&vec), vec![1, 2, 3, 4]);
    let even = vec.into_even_array().unwrap();
    assert_eq!(nibbles(&even), vec![1, 2, 3, 4]);
    assert_eq!(nibbles(&even.as_slice()), vec![1, 2, 3, 4]);
    let vec: NibArrayVec<2> = filled(&[1, 2, 3]);
    let vec = vec.into_even_array().unwrap_err();
    assert_eq!(nibbles(&vec), vec![1, 2, 3]);
    assert_eq!(vec.len(), 3);
    let odd = vec.into_odd_array().unwrap();
    assert_eq!(nibbles(&odd), vec![1, 2, 3]);
    assert_eq!(odd.len(), 3);
    assert_eq!(nibbles(&odd.as_slice()), vec![1, 2, 3]);
    let vec: NibArrayVec<2> = filled(&[1, 2]);
    let vec = vec.into_even_array().unwrap_err();
    let vec = vec.into_odd_array().unwrap_err();
    assert_eq!(nibbles(&vec), vec![1, 2]);
    let none: NibArrayVec<0> = NibArrayVec::new();
    assert!(none.into_even_array().is_ok());
    let none: NibArrayVec<0> = NibArrayVec::new();
    assert!(none.into_odd_array().is_err());
}

#[test]
fn arrays_are_slices() {
    let pairs = [u4x2::from_byte(0x12), u4x2::from_byte(0x34)];
    let mut even = NibArrayEven::from(pairs);
    let mut odd = NibArrayOdd::from(pairs);
    assert_eq!(NibSliceExt::len(&even), 4);
    assert_eq!(NibSliceExt::len(&odd), 3);
    assert_eq!(odd.get(2), 3);
    even.as_mut_slice().get_mut(3).set(u4lo::from_lo(9));
    odd.as_mut_slice().get_mut(2).set(u4lo::from_lo(8));
    assert_eq!(nibbles(&even), vec![1, 2, 3, 9]);
    assert_eq!(nibbles(&odd), vec![1, 2, 8]);
    let mut array = NibArray::Odd(odd);
    assert!(matches!(array.as_slice(), NibSliceAligned::Odd(_)));
    assert!(!array.has_right_lo());
    assert!(array.has_left_hi());
    assert_eq!(array.as_mut_slice().len(), 3);
    array.as_mut_slice().get_mut(0).set(u4lo::from_lo(7));
    assert_eq!(nibbles(&array), vec![7, 2, 8]);
    let array = NibArray::Even(even);
    assert!(matches!(array.as_slice(), NibSliceAligned::Even(_)));
    assert!(array.has_right_lo());
    assert_eq!(nibbles(&array.as_slice()), vec![1, 2, 3, 9]);
}

#[test]
fn array_vectors_are_slices() {
    let mut vec: NibArrayVec<4> = filled(&[1, 2, 3]);
    assert!(matches!(vec.as_slice(), NibSliceAligned::Odd(_)));
    assert_eq!(nibbles(&vec.as_slice()), vec![1, 2, 3]);
    vec.as_mut_slice().get_mut(1).set(u4lo::from_lo(0xe));
    assert_eq!(nibbles(&vec), vec![1, 0xe, 3]);
    assert_eq!(vec.len(), 3);
}

#[test]
fn hex_digits_must_fit() {
    let vec: NibArrayVec<2> = NibArrayVec::from_ascii(b"1a2B").unwrap();
    assert_eq!(bytes(&vec), vec![0x1a, 0x2b]);
    let vec: NibArrayVec<2> = NibArrayVec::from_str("1a2").unwrap();
    assert_eq!(nibbles(&vec), vec![1, 0xa, 2]);
    assert_eq!(
        NibArrayVec::<2>::from_ascii(b"1a2b3").unwrap_err(),
        ParseNibbleError::TooLarge
    );
    assert_eq!(
        NibArrayVec::<2>::from_ascii(b"1a2bx").unwrap_err(),
        ParseNibbleError::BadFormat
    );
    assert_eq!(
        NibArrayVec::<2>::from_ascii(b"1a2b3x").unwrap_err(),
        ParseNibbleError::TooLarge
    );
    assert_eq!(
        NibArrayVec::<2>::from_ascii(b"1x2b3").unwrap_err(),
        ParseNibbleError::BadFormat
    );
    assert_eq!(NibArrayVec::<2>::from_str("x").unwrap_err(), ParseNibbleError::BadFormat);
    assert_eq!(NibArrayVec::<0>::from_str("1").unwrap_err(), ParseNibbleError::TooLarge);
    assert!(NibArrayVec::<0>::from_str("").is_ok());
}
