use nibble::base::u4;
use nibble::num::{checked_add, checked_div, checked_mul, checked_sub, count_ones, count_zeros};
use nibble::num::{from_be, from_i64, from_le, from_u64, is_zero, leading_zeros, max_value};
use nibble::num::{min_value, one, pow, rotate_left, rotate_right, saturating_add};
use nibble::num::{saturating_sub, signed_shl, signed_shr, swap_bytes, to_be, to_i64, to_le};
use nibble::num::{to_u64, trailing_zeros, unsigned_shl, unsigned_shr, wrapping_add};
use nibble::num::{wrapping_mul, wrapping_sub, zero};
use nibble::{u4hi, u4lo, u4x2};

fn lo(v: u8) -> u4lo {
    u4lo::from_lo(v)
}

fn hi(v: u8) -> u4hi {
    u4hi::from_lo(v)
}

#[test]
fn arithmetic_that_checks() {
    for a in 0..16u8 {
        for b in 0..16u8 {
            assert_eq!(checked_add(&lo(a), &lo(b)), a.checked_add(b).filter(|&x| x < 16).map(lo));
            assert_eq!(checked_sub(&hi(a), &hi(b)), a.checked_sub(b).map(hi));
            assert_eq!(checked_mul(&lo(a), &lo(b)), a.checked_mul(b).filter(|&x| x < 16).map(lo));
            assert_eq!(checked_div(&hi(a), &hi(b)), a.checked_div(b).map(hi));
            assert_eq!(wrapping_add(&lo(a), &lo(b)), (a + b) % 16);
            assert_eq!(wrapping_sub(&lo(a), &lo(b)), a.wrapping_sub(b) % 16);
            assert_eq!(wrapping_mul(&hi(a), &hi(b)), (a * b) % 16);
            assert_eq!(saturating_add(lo(a), lo(b)), (a + b).min(15));
            assert_eq!(saturating_sub(hi(a), hi(b)), a.saturating_sub(b));
        }
    }
}

#[test]
fn bounds_and_conversions() {
    assert_eq!(min_value::<u4lo>(), 0);
    assert_eq!(max_value::<u4hi>(), 15);
    assert_eq!(zero::<u4hi>(), 0);
    assert_eq!(one::<u4lo>(), 1);
    assert!(is_zero(&lo(0)));
    assert!(!is_zero(&hi(1)));
    assert_eq!(from_i64::<u4lo>(15), Some(lo(15)));
    assert_eq!(from_i64::<u4lo>(16), None);
    assert_eq!(from_i64::<u4lo>(-1), None);
    assert_eq!(from_i64::<u4lo>(256), None);
    assert_eq!(from_u64::<u4hi>(0), Some(hi(0)));
    assert_eq!(from_u64::<u4hi>(272), None);
    assert_eq!(to_i64(&lo(9)), Some(9));
    assert_eq!(to_u64(&hi(9)), Some(9));
    assert_eq!(swap_bytes(lo(9)), 9);
    assert_eq!(from_be(lo(9)), 9);
    assert_eq!(from_le(lo(9)), 9);
    assert_eq!(to_be(hi(9)), 9);
    assert_eq!(to_le(hi(9)), 9);
}

#[test]
fn bits_are_counted_and_moved() {
    for v in 0..16u8 {
        assert_eq!(count_ones(lo(v)), v.count_ones());
        assert_eq!(count_zeros(hi(v)), 4 - v.count_ones());
        assert_eq!(leading_zeros(lo(v)), v.leading_zeros() - 4);
        assert_eq!(trailing_zeros(hi(v)), v.trailing_zeros().min(4));
        for n in 0..9u32 {
            let twice = v | (v << 4);
            assert_eq!(rotate_left(lo(v), n), twice.rotate_left(n) & 0x0F);
            assert_eq!(rotate_right(hi(v), n), twice.rotate_right(n) & 0x0F);
        }
        for n in 0..8u32 {
            assert_eq!(unsigned_shl(lo(v), n), (v << n) & 0x0F);
            assert_eq!(signed_shl(hi(v), n), (v << n) & 0x0F);
            assert_eq!(unsigned_shr(lo(v), n), v >> n);
            assert_eq!(signed_shr(hi(v), n), v >> n);
        }
    }
}

#[test]
fn powers() {
    assert_eq!(pow(lo(0), 0), 1);
    assert_eq!(pow(lo(0), 5), 0);
    assert_eq!(pow(lo(1), u32::MAX), 1);
    assert_eq!(pow(lo(2), 3), 8);
    assert_eq!(pow(hi(3), 2), 9);
    assert_eq!(pow(hi(15), 1), 15);
    assert_eq!(pow(hi(15), 0), 1);
}

#[test]
fn operators() {
    assert_eq!(lo(7) + lo(8), 15);
    assert_eq!(hi(9) - hi(4), 5);
    assert_eq!(lo(3) * lo(5), 15);
    assert_eq!(hi(14) / hi(4), 3);
    assert_eq!(lo(14) % lo(4), 2);
    assert_eq!(lo(0b1100) & lo(0b1010), 0b1000);
    assert_eq!(hi(0b1100) | hi(0b1010), 0b1110);
    assert_eq!(lo(0b1100) ^ lo(0b1010), 0b0110);
    assert_eq!(!lo(0b1100), 0b0011);
    assert_eq!(!hi(0), 15);
    assert_eq!(lo(0b0011) << 2, 0b1100);
    assert_eq!(hi(0b1100) >> 3, 0b0001);
    assert_eq!(hi(0xA) | lo(0x5), u4x2::from_byte(0xA5));
    assert_eq!(lo(0x5) | hi(0xA), u4x2::from_byte(0xA5));
}

#[test]
fn nibbles_and_pairs_are_ordered() {
    assert!(lo(3) < lo(4));
    assert!(hi(3) < lo(4));
    assert!(lo(4) > hi(3));
    assert!(hi(4) >= hi(4));
    assert!(lo(4) <= 4u8);
    assert!(hi(5) > 4u8);
    assert!(u4x2::from_byte(0x12) < u4x2::from_byte(0x21));
    assert!(u4x2::from_byte(0x12) < 0x13u8);
    let mut sorted = vec![lo(9), lo(1), lo(15), lo(0)];
    sorted.sort();
    assert_eq!(sorted, vec![lo(0), lo(1), lo(9), lo(15)]);
    assert_eq!(hi(3).max(hi(7)), 7);
}

#[test]
fn conversions_between_the_types() {
    assert_eq!(u4hi::from(lo(7)).to_hi(), 0x70);
    assert_eq!(u4lo::from(hi(7)).to_lo(), 0x07);
    assert_eq!(u4x2::from(hi(7)).byte(), 0x70);
    assert_eq!(u4x2::from(lo(7)).byte(), 0x07);
    assert_eq!(u4x2::from(0x7eu8).byte(), 0x7e);
    assert_eq!(u4hi::from(u4x2::from_byte(0x7e)), 7);
    assert_eq!(u4lo::from(u4x2::from_byte(0x7e)), 0xe);
    assert_eq!(u8::from(u4x2::from_byte(0x7e)), 0x7e);
    assert_eq!(u4x2::from_ref(&0x7e).byte(), 0x7e);
}
