use nibble::base::{u4, ParseNibbleError};
use nibble::cmp::same_nibble;
use nibble::common::{bits, decimal_digits, has_higher, has_lower, octal_digits};
use nibble::common::{higher_to_higher, higher_to_lower, lower_to_higher, lower_to_lower};
use nibble::{u4hi, u4lo};

fn is_u4<T: u4>(_: &T) {}

#[test]
fn u4_works() {
    let lo = u4lo::from_lo(3);
    let hi = u4hi::from_lo(5);
    is_u4(&lo);
    is_u4(&hi);
}

#[test]
fn every_nibble_survives_the_round_trip() {
    for v in 0..16u8 {
        assert_eq!(u4hi::from_lo(v).to_lo(), v);
        assert_eq!(u4lo::from_lo(v).to_lo(), v);
        assert_eq!(u4hi::from_hi(v << 4).to_hi(), v << 4);
        assert_eq!(u4lo::from_hi(v << 4).to_hi(), v << 4);
        assert_eq!(u4hi::from_hi(u4lo::from_lo(v).to_hi()).to_lo(), v);
        assert_eq!(u4lo::from_lo(u4hi::from_lo(v).to_lo()).to_hi(), v << 4);
        assert_eq!(u4lo::from_lo(v).to_u4hi().to_u4lo(), v);
        assert_eq!(u4hi::from_lo(v).to_u4lo().to_u4hi(), v);
    }
}

#[test]
fn a_nibble_ignores_the_other_half() {
    assert_eq!(u4hi::from_hi(0xA7).to_hi(), 0xA0);
    assert_eq!(u4hi::from_hi(0xA7).to_lo(), 0x0A);
    assert_eq!(u4lo::from_lo(0xA7).to_lo(), 0x07);
    assert_eq!(u4lo::from_lo(0xA7).to_hi(), 0x70);
    assert_eq!(u4hi::from_lo(0xA7).to_lo(), 0x07);
    assert_eq!(u4lo::from_hi(0xA7).to_lo(), 0x0A);
    assert_eq!(u4hi::new(0x1f), 0xf);
    assert_eq!(u4lo::new(0x1f), 0xf);
}

#[test]
fn repeated_bytes() {
    assert_eq!(u4hi::from_repeated(0x77).to_lo(), 7);
    assert_eq!(u4lo::from_repeated(0x77).to_lo(), 7);
    assert_eq!(u4hi::from_lo(7).to_repeated(), 0x77);
    assert_eq!(u4lo::from_lo(0xc).to_repeated(), 0xcc);
}

#[test]
fn checked_constructors_refuse_stray_bits() {
    assert_eq!(u4hi::try_from_hi(0xA0).map(|n| n.to_lo()), Some(0xA));
    assert!(u4hi::try_from_hi(0xA1).is_none());
    assert_eq!(u4lo::try_from_lo(0x0A).map(|n| n.to_lo()), Some(0xA));
    assert!(u4lo::try_from_lo(0x1A).is_none());
    assert_eq!(u4lo::try_from_hi(0x00).map(|n| n.to_lo()), Some(0));
    assert_eq!(u4hi::try_from_lo(0x0F).map(|n| n.to_lo()), Some(0xF));
    assert!(u4hi::try_from_lo(0x10).is_none());
}

#[test]
fn nibbles_compare_by_value() {
    assert_eq!(u4hi::from_lo(5), u4lo::from_lo(5));
    assert_eq!(u4lo::from_lo(5), u4hi::from_lo(5));
    assert_ne!(u4hi::from_lo(5), u4hi::from_lo(6));
    assert_eq!(u4hi::from_hi(0x5f), u4hi::from_hi(0x50));
    assert_eq!(u4lo::from_lo(9), 9u8);
    assert!(same_nibble(&u4hi::from_lo(3), &u4lo::from_lo(3)));
    assert!(!same_nibble(&u4hi::from_lo(3), &u4hi::from_lo(4)));
}

#[test]
fn ascii_digits() {
    let digits = b"0123456789abcdef";
    let upper = b"0123456789ABCDEF";
    for v in 0..16u8 {
        let nib = u4lo::from_lo(v);
        assert_eq!(nib.to_lower_ascii_digit(), digits[v as usize]);
        assert_eq!(nib.to_upper_ascii_digit(), upper[v as usize]);
        assert_eq!(nib.to_lower_digit(), digits[v as usize] as char);
        assert_eq!(nib.to_upper_digit(), upper[v as usize] as char);
        assert_eq!(u4hi::from_ascii_digit(digits[v as usize]).map(|n| n.to_lo()), Some(v));
        assert_eq!(u4hi::from_ascii_digit(upper[v as usize]).map(|n| n.to_lo()), Some(v));
        assert_eq!(u4lo::from_digit(upper[v as usize] as char).map(|n| n.to_lo()), Some(v));
    }
    assert!(u4lo::from_ascii_digit(b'g').is_none());
    assert!(u4lo::from_ascii_digit(b'G').is_none());
    assert!(u4lo::from_ascii_digit(b'/').is_none());
    assert!(u4lo::from_ascii_digit(b':').is_none());
    assert!(u4lo::from_ascii_digit(b'@').is_none());
    assert!(u4lo::from_ascii_digit(b'`').is_none());
    assert!(u4lo::from_digit('\u{ff11}').is_none());
    assert!(u4lo::from_digit('\u{131}').is_none());
}

#[test]
fn error_descriptions() {
    assert_eq!(ParseNibbleError::Empty.description(), "string was empty");
    assert_eq!(ParseNibbleError::TooLarge.description(), "number was too large");
    assert_eq!(ParseNibbleError::BadFormat.description(), "string was not a valid number");
}

#[test]
fn byte_halves() {
    assert!(has_lower(0x01));
    assert!(!has_lower(0xf0));
    assert!(has_higher(0x10));
    assert!(!has_higher(0x0f));
    assert_eq!(lower_to_lower(0xab), 0x0b);
    assert_eq!(lower_to_higher(0xab), 0xb0);
    assert_eq!(higher_to_lower(0xab), 0x0a);
    assert_eq!(higher_to_higher(0xab), 0xa0);
}

#[test]
fn digits_of_a_nibble() {
    assert_eq!(bits(0b1010), [1, 0, 1, 0]);
    assert_eq!(bits(0b0111), [0, 1, 1, 1]);
    assert_eq!(octal_digits(0o17), [1, 7]);
    assert_eq!(octal_digits(5), [0, 5]);
    assert_eq!(decimal_digits(15), [1, 5]);
    assert_eq!(decimal_digits(9), [0, 9]);
}
