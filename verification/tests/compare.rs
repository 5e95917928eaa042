use core::cmp::Ordering;
use nibble::compare::{cmp, eq, ge, gt, le, lt, ne, nibbles_eq, nibbles_lt, option_eq};
use nibble::compare::{pairs_eq, partial_cmp};
use nibble::NibArrayVec;
use nibble::slice::{NibSliceExt, NibSliceFull, NibSliceNoBoth, NibSliceNoL, NibSliceNoR};
use nibble::base::u4;
use nibble::{u4hi, u4lo, u4x2, NibVec};

fn pairs(bytes: &[u8]) -> Vec<u4x2> {
    bytes.iter().map(|&b| u4x2::from_byte(b)).collect()
}

#[test]
fn the_same_nibbles_in_different_bytes_are_equal() {
    let at_start = pairs(&[0x12, 0x3f]);
    let in_middle = pairs(&[0xe1, 0x23]);
    let lhs = NibSliceNoR::from_slice(&at_start);
    let rhs = NibSliceNoL::from_slice(&in_middle);
    assert!(eq(&lhs, &rhs));
    assert!(eq(&rhs, &lhs));
    assert!(!ne(&lhs, &rhs));
    assert!(nibbles_eq(lhs.nibbles(), rhs.nibbles()));
    let both = pairs(&[0x01, 0x23, 0x4f]);
    let whole = pairs(&[0x12, 0x34]);
    assert!(eq(&NibSliceNoBoth::from_slice(&both), &NibSliceFull::from_slice(&whole)));
    assert!(eq(&NibSliceFull::from_slice(&whole).into_generic(), &NibSliceNoBoth::from_slice(&both)));
    assert!(!eq(&NibSliceFull::from_slice(&whole), &lhs));
    assert!(!eq(&NibSliceNoBoth::from_slice(&both), &lhs.into_generic()));
    let mut vec = NibVec::new();
    vec.push(u4lo::from_lo(1));
    vec.push(u4lo::from_lo(2));
    vec.push(u4lo::from_lo(3));
    assert!(eq(&vec, &rhs));
    assert!(eq(&vec.as_slice(), &lhs));
}

#[test]
fn views_of_one_shape_ignore_the_halves_they_leave_out() {
    let a = pairs(&[0x12, 0x34, 0x5a]);
    let b = pairs(&[0x12, 0x34, 0x5b]);
    assert!(eq(&NibSliceNoR::from_slice(&a), &NibSliceNoR::from_slice(&b)));
    assert!(!eq(&NibSliceFull::from_slice(&a), &NibSliceFull::from_slice(&b)));
    let c = pairs(&[0xf2, 0x34, 0x5c]);
    assert!(eq(&NibSliceNoBoth::from_slice(&a), &NibSliceNoBoth::from_slice(&c)));
    assert!(!eq(&NibSliceNoL::from_slice(&a), &NibSliceNoL::from_slice(&c)));
    let d = pairs(&[0x12, 0x44, 0x5a]);
    assert!(ne(&NibSliceNoR::from_slice(&a), &NibSliceNoR::from_slice(&d)));
    assert!(ne(&NibSliceNoR::from_slice(&a), &NibSliceNoR::from_slice(&a[..2])));
}

#[test]
fn views_that_differ_are_not_equal() {
    let a = pairs(&[0x12, 0x34]);
    let b = pairs(&[0x01, 0x23, 0x50]);
    assert!(!eq(&NibSliceFull::from_slice(&a), &NibSliceNoBoth::from_slice(&b)));
    assert!(!eq(&NibSliceFull::from_slice(&a), &NibSliceNoL::from_slice(&a)));
    let none: Vec<u4x2> = Vec::new();
    let one = pairs(&[0x77]);
    assert!(eq(&NibSliceFull::from_slice(&none), &NibSliceNoBoth::from_slice(&one)));
    assert!(eq(&NibSliceNoL::from_slice(&none), &NibSliceNoBoth::from_slice(&none)));
    assert!(eq(&NibSliceNoBoth::from_slice(&none), &NibSliceNoBoth::from_slice(&one)));
    assert!(!eq(&NibSliceNoL::from_slice(&one), &NibSliceNoBoth::from_slice(&one)));
}

#[test]
fn parts_compare_by_value() {
    assert!(pairs_eq(&pairs(&[1, 2, 3]), &pairs(&[1, 2, 3])));
    assert!(!pairs_eq(&pairs(&[1, 2, 3]), &pairs(&[1, 2, 4])));
    assert!(!pairs_eq(&pairs(&[1, 2, 3]), &pairs(&[1, 2])));
    assert!(pairs_eq(&pairs(&[]), &pairs(&[])));
    assert!(option_eq(&Some(u4hi::from_lo(3)), &Some(u4lo::from_lo(3))));
    assert!(!option_eq(&Some(u4hi::from_lo(3)), &Some(u4lo::from_lo(4))));
    assert!(!option_eq(&Some(u4hi::from_lo(0)), &None::<u4lo>));
    assert!(option_eq(&None::<u4hi>, &None::<u4lo>));
    assert_eq!(u4hi::from_lo(3).to_lo(), 3);
}

#[test]
fn views_are_ordered_by_their_nibbles() {
    let a = pairs(&[0x12, 0x30]);
    let b = pairs(&[0x01, 0x24]);
    let short = NibSliceNoR::from_slice(&a);
    let long = NibSliceNoL::from_slice(&b);
    assert_eq!(cmp(&short, &long), Ordering::Less);
    assert_eq!(cmp(&long, &short), Ordering::Greater);
    assert_eq!(partial_cmp(&short, &short), Some(Ordering::Equal));
    assert!(lt(&short, &long) && le(&short, &long));
    assert!(gt(&long, &short) && ge(&long, &short));
    assert!(!lt(&long, &short) && !le(&long, &short));
    assert!(le(&short, &short) && ge(&short, &short));
    assert!(!lt(&short, &short) && !gt(&short, &short));
    let c = pairs(&[0x12, 0x25, 0x67]);
    let d = pairs(&[0x12, 0x90]);
    let left = NibSliceNoR::from_slice(&c);
    let right = NibSliceNoR::from_slice(&d);
    assert_eq!(cmp(&left, &right), Ordering::Less);
    assert!(nibbles_lt(left.nibbles(), right.nibbles()));
    assert!(!nibbles_lt(right.nibbles(), left.nibbles()));
    let none: Vec<u4x2> = Vec::new();
    let empty = NibSliceFull::from_slice(&none);
    assert_eq!(cmp(&empty, &left), Ordering::Less);
    assert_eq!(cmp(&empty, &empty), Ordering::Equal);
    assert_eq!(cmp(&left, &empty), Ordering::Greater);
}

#[test]
fn the_operators_compare_nibbles() {
    let at_start = pairs(&[0x12, 0x3f]);
    let in_middle = pairs(&[0xe1, 0x23]);
    let lhs = NibSliceNoR::from_slice(&at_start);
    let rhs = NibSliceNoL::from_slice(&in_middle);
    assert!(lhs == rhs);
    assert!(rhs == lhs.into_generic());
    assert!(!(lhs != rhs));
    assert!(lhs <= rhs && lhs >= rhs);
    assert!(!(lhs < rhs) && !(lhs > rhs));
    assert!(NibSliceFull::from_slice(&at_start) > lhs);
    assert!(lhs < NibSliceFull::from_slice(&at_start));
    assert!(NibSliceFull::from_slice(&at_start) != lhs);
    let mut vec = NibVec::new();
    let mut array: NibArrayVec<2> = NibArrayVec::new();
    for v in 1..=3u8 {
        vec.push(u4lo::from_lo(v));
        array.push(u4lo::from_lo(v));
    }
    assert!(vec == array);
    assert!(array == rhs);
    assert!(vec == vec.as_slice());
    vec.push(u4lo::from_lo(0));
    assert!(vec != array);
    assert!(array < vec);
    assert_eq!(array.partial_cmp(&vec), Some(Ordering::Less));
    let odd = array.into_odd_array().unwrap();
    assert!(odd == rhs);
    assert!(odd < vec);
}
