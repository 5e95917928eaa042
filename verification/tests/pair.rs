use nibble::base::u4;
use nibble::pair::{U4Cell, U4HalfCell};
use nibble::{u4hi, u4lo, u4x2};

fn is_cell<C: U4Cell>(_: &C) {}

#[test]
fn u4cell_works() {
    let mut byte = u4x2::from_byte(0x13);
    is_cell(&byte.lo_mut());
    is_cell(&byte.hi_mut());
}

#[test]
fn set() {
    let mut byte = u4x2::from_byte(0x13);
    assert_eq!(byte.hi(), 1);
    assert_eq!(byte.lo(), 3);
    byte.set_lo(u4lo::from_lo(2));
    assert_eq!(byte.hi(), 1);
    assert_eq!(byte.lo(), 2);
    byte.set_hi(u4hi::from_lo(4));
    assert_eq!(byte.hi(), 4);
    assert_eq!(byte.lo(), 2);
}

#[test]
fn cell_set() {
    let mut byte = u4x2::from_byte(0x13);
    let (hi, lo) = byte.both_mut();
    assert_eq!(hi.get_hi(), 1);
    assert_eq!(lo.get_lo(), 3);
    lo.set(u4lo::from_lo(2));
    assert_eq!(hi.get_hi(), 1);
    assert_eq!(lo.get_lo(), 2);
    hi.set(u4hi::from_lo(4));
    assert_eq!(hi.get_hi(), 4);
    assert_eq!(lo.get_lo(), 2);
}

#[test]
fn cell_writes_reach_the_pair() {
    let mut byte = u4x2::from_byte(0x13);
    {
        let (hi, lo) = byte.both_mut();
        lo.set(u4hi::from_lo(0xC));
        hi.set_from_lo(u4lo::from_lo(0xA));
        assert_eq!(hi.get_lo(), 0xA);
        assert_eq!(lo.get_hi(), 0xC);
    }
    assert_eq!(byte.byte(), 0xAC);
    byte.hi_mut().set_from_hi(u4hi::from_lo(0x5));
    assert_eq!(byte.byte(), 0x5C);
    byte.lo_mut().set(u4lo::from_lo(0x7));
    assert_eq!(byte.byte(), 0x57);
}

#[test]
fn cells_swap_their_nibbles() {
    let mut first = u4x2::from_byte(0x12);
    let mut second = u4x2::from_byte(0x34);
    {
        let hi = first.hi_mut();
        let lo = second.lo_mut();
        hi.swap(&lo);
    }
    assert_eq!(first.byte(), 0x42);
    assert_eq!(second.byte(), 0x31);
    {
        let (hi, lo) = first.both_mut();
        lo.swap(&hi);
    }
    assert_eq!(first.byte(), 0x24);
}

#[test]
fn set_hi_keeps_lo_and_set_lo_keeps_hi_for_every_pair() {
    for byte in 0..=255u8 {
        for nib in 0..16u8 {
            let mut pair = u4x2::from_byte(byte);
            pair.set_hi(u4lo::from_lo(nib));
            assert_eq!(pair.lo(), byte & 0x0F);
            assert_eq!(pair.hi(), nib);
            let mut pair = u4x2::from_byte(byte);
            pair.set_lo(u4hi::from_lo(nib));
            assert_eq!(pair.hi(), byte >> 4);
            assert_eq!(pair.lo(), nib);
        }
    }
}

#[test]
fn from_both_joins_the_halves() {
    let pair = u4x2::from_both(u4hi::from_lo(0xA), u4lo::from_lo(0x5));
    assert_eq!(pair.byte(), 0xA5);
    assert_eq!(pair, 0xA5);
    assert_eq!(u4x2::from_hi(u4hi::from_lo(0xA)).byte(), 0xA0);
    assert_eq!(u4x2::from_lo(u4lo::from_lo(0x5)).byte(), 0x05);
    let (hi, lo) = pair.both();
    assert_eq!(hi, 0xA);
    assert_eq!(lo, 0x5);
}

#[test]
fn byte_mut_writes_the_whole_pair() {
    let mut pair = u4x2::from_byte(0x13);
    *pair.byte_mut() = 0x7e;
    assert_eq!(pair.hi(), 7);
    assert_eq!(pair.lo(), 0xe);
}

#[test]
fn swap_pairs_exchanges_the_halves() {
    let mut pair = u4x2::from_byte(0x1e);
    pair.swap_pairs();
    assert_eq!(pair.byte(), 0xe1);
}

#[test]
fn pair_digits() {
    let pair = u4x2::from_byte(0x3c);
    assert_eq!(pair.to_lower_ascii_digits(), (b'3', b'c'));
    assert_eq!(pair.to_upper_ascii_digit(), (b'3', b'C'));
    assert_eq!(pair.to_lower_digits(), ('3', 'c'));
    assert_eq!(pair.to_upper_digits(), ('3', 'C'));
    assert_eq!(u4x2::from_ascii_digits(b'c', b'3').map(|p| p.byte()), Some(0x3c));
    assert_eq!(u4x2::from_ascii_digits(b'C', b'3').map(|p| p.byte()), Some(0x3c));
    assert_eq!(u4x2::from_digits('f', '0').map(|p| p.byte()), Some(0x0f));
    assert!(u4x2::from_ascii_digits(b'g', b'3').is_none());
    assert!(u4x2::from_ascii_digits(b'3', b' ').is_none());
    assert!(u4x2::from_digits('3', 'é').is_none());
}

#[test]
fn pair_iter_goes_from_both_ends() {
    let pair = u4x2::from_byte(0x5a);
    let mut iter = pair.iter();
    assert_eq!(iter.len(), 2);
    assert_eq!(iter.size_hint(), (2, Some(2)));
    assert_eq!(iter.next(), Some(u4lo::from_lo(5)));
    assert_eq!(iter.len(), 1);
    assert_eq!(iter.next_back(), Some(u4lo::from_lo(0xa)));
    assert_eq!(iter.next(), None);
    assert_eq!(iter.next_back(), None);
    assert_eq!(iter.len(), 0);
    let mut iter = pair.iter();
    assert_eq!(iter.next_back(), Some(u4lo::from_lo(0xa)));
    assert_eq!(iter.next_back(), Some(u4lo::from_lo(5)));
    assert_eq!(iter.next_back(), None);
}

#[test]
fn pair_iter_mut_hands_out_both_cells() {
    let mut pair = u4x2::from_byte(0x5a);
    {
        let mut iter = pair.iter_mut();
        assert_eq!(iter.len(), 2);
        let first = iter.next().unwrap();
        assert!(matches!(first, U4HalfCell::Hi(_)));
        assert_eq!(first.get_lo(), 5);
        let second = iter.next_back().unwrap();
        assert!(matches!(second, U4HalfCell::Lo(_)));
        assert_eq!(second.get_lo(), 0xa);
        assert!(iter.next().is_none());
        first.set(u4lo::from_lo(1));
        second.set(u4lo::from_lo(2));
        first.swap(&second);
    }
    assert_eq!(pair.byte(), 0x21);
}
