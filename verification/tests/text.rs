use arrayvec::{ArrayString, ArrayVec};
use nibble::base::{digit, parse_binary, u4, ParseNibbleError};
use nibble::text::{four_digits, two_digits};
use nibble::{u4hi, u4lo, u4x2};

#[test]
fn hex_strings() {
    let lower = "0123456789abcdef";
    let upper = "0123456789ABCDEF";
    for v in 0..16u8 {
        assert_eq!(u4lo::from_lo(v).to_lower_hex().as_str(), &lower[v as usize..v as usize + 1]);
        assert_eq!(u4hi::from_lo(v).to_upper_hex().as_str(), &upper[v as usize..v as usize + 1]);
    }
    assert_eq!(u4x2::from_byte(0x3c).to_padded_lower_hex().as_str(), "3c");
    assert_eq!(u4x2::from_byte(0x3c).to_padded_upper_hex().as_str(), "3C");
    assert_eq!(u4x2::from_byte(0x0a).to_padded_lower_hex().as_str(), "0a");
    assert_eq!(u4x2::from_byte(0x00).to_padded_upper_hex().as_str(), "00");
}

#[test]
fn binary_strings() {
    assert_eq!(u4lo::from_lo(0b0101).to_padded_binary().as_str(), "0101");
    assert_eq!(u4lo::from_lo(0b0101).to_binary().as_str(), "101");
    assert_eq!(u4hi::from_lo(0b1000).to_binary().as_str(), "1000");
    assert_eq!(u4hi::from_lo(0b0001).to_binary().as_str(), "1");
    assert_eq!(u4hi::from_lo(0).to_binary().as_str(), "0");
    assert_eq!(u4hi::from_lo(0).to_padded_binary().as_str(), "0000");
    assert_eq!(u4hi::from_lo(15).to_padded_binary().as_str(), "1111");
    assert_eq!(u4x2::from_byte(0xa5).to_padded_binary().as_str(), "10100101");
    assert_eq!(u4x2::from_byte(0x01).to_padded_binary().as_str(), "00000001");
}

#[test]
fn octal_and_decimal_strings() {
    assert_eq!(u4lo::from_lo(0).to_octal().as_str(), "0");
    assert_eq!(u4lo::from_lo(7).to_octal().as_str(), "7");
    assert_eq!(u4lo::from_lo(8).to_octal().as_str(), "10");
    assert_eq!(u4lo::from_lo(15).to_octal().as_str(), "17");
    assert_eq!(u4hi::from_lo(0).to_decimal().as_str(), "0");
    assert_eq!(u4hi::from_lo(9).to_decimal().as_str(), "9");
    assert_eq!(u4hi::from_lo(10).to_decimal().as_str(), "10");
    assert_eq!(u4hi::from_lo(15).to_decimal().as_str(), "15");
}

#[test]
fn digits_are_written_as_given() {
    assert_eq!(two_digits([0, 0]).as_str(), "0");
    assert_eq!(two_digits([0, 5]).as_str(), "5");
    assert_eq!(two_digits([4, 0]).as_str(), "40");
    assert_eq!(four_digits([0, 0, 0, 0], false).as_str(), "0");
    assert_eq!(four_digits([0, 0, 2, 0], false).as_str(), "20");
    assert_eq!(four_digits([0, 1, 0, 3], false).as_str(), "103");
    assert_eq!(four_digits([9, 0, 0, 0], false).as_str(), "9000");
    assert_eq!(four_digits([0, 0, 2, 0], true).as_str(), "0020");
}

#[test]
fn binary_strings_are_read() {
    let read = |s: &str| u4lo::from_binary(ArrayString::from(s).unwrap()).map(|n| n.to_lo());
    assert_eq!(read("1010"), Some(0b1010));
    assert_eq!(read("1"), Some(1));
    assert_eq!(read("0011"), Some(3));
    assert_eq!(read(""), Some(0));
    assert_eq!(read("1111"), Some(15));
    assert_eq!(read("102"), None);
    assert_eq!(read("é1"), None);
    let read = |s: &[u8]| {
        let mut v: ArrayVec<u8, 4> = ArrayVec::new();
        v.try_extend_from_slice(s).unwrap();
        u4hi::from_ascii_binary(v).map(|n| n.to_lo())
    };
    assert_eq!(read(b"1010"), Some(0b1010));
    assert_eq!(read(b"01"), Some(1));
    assert_eq!(read(b""), Some(0));
    assert_eq!(read(b"1 1"), None);
    assert_eq!(parse_binary(b"110"), Some(6));
    assert_eq!(parse_binary(b"11a"), None);
}

#[test]
fn digits_of_a_radix() {
    assert_eq!(digit(b'7', 10), Ok(7));
    assert_eq!(digit(b'7', 7), Err(ParseNibbleError::BadFormat));
    assert_eq!(digit(b'a', 16), Ok(10));
    assert_eq!(digit(b'F', 16), Ok(15));
    assert_eq!(digit(b'g', 16), Err(ParseNibbleError::BadFormat));
    assert_eq!(digit(b'g', 17), Err(ParseNibbleError::TooLarge));
    assert_eq!(digit(b'z', 36), Err(ParseNibbleError::TooLarge));
    assert_eq!(digit(b'Z', 35), Err(ParseNibbleError::BadFormat));
    assert_eq!(digit(b'-', 36), Err(ParseNibbleError::BadFormat));
    assert_eq!(digit(b'0', 0), Err(ParseNibbleError::BadFormat));
    assert_eq!(digit(b'0', 1), Ok(0));
}

#[test]
fn numbers_of_a_radix() {
    let read = |s: &str, radix: u32| u4lo::from_str_radix(s, radix).map(|n| n.to_lo());
    assert_eq!(read("15", 10), Ok(15));
    assert_eq!(read("16", 10), Err(ParseNibbleError::TooLarge));
    assert_eq!(read("0015", 10), Ok(15));
    assert_eq!(read("f", 16), Ok(15));
    assert_eq!(read("F", 16), Ok(15));
    assert_eq!(read("10", 16), Err(ParseNibbleError::TooLarge));
    assert_eq!(read("1111", 2), Ok(15));
    assert_eq!(read("10000", 2), Err(ParseNibbleError::TooLarge));
    assert_eq!(read("17", 8), Ok(15));
    assert_eq!(read("", 10), Err(ParseNibbleError::Empty));
    assert_eq!(read("1x", 10), Err(ParseNibbleError::BadFormat));
    assert_eq!(read("x1", 10), Err(ParseNibbleError::BadFormat));
    assert_eq!(read("99x", 10), Err(ParseNibbleError::TooLarge));
    assert_eq!(read("9x9", 10), Err(ParseNibbleError::BadFormat));
    assert_eq!(read("g", 36), Err(ParseNibbleError::TooLarge));
    assert_eq!(read("0", 1), Ok(0));
    assert_eq!(read("000", 1), Ok(0));
    assert_eq!(u4hi::from_ascii_radix(b"12", 10).map(|n| n.to_lo()), Ok(12));
    assert_eq!(u4hi::from_ascii_radix(b"12", 3).map(|n| n.to_lo()), Ok(5));
    assert_eq!(
        u4hi::from_ascii_radix(b"\xc3\xa9", 10).map(|n| n.to_lo()),
        Err(ParseNibbleError::BadFormat)
    );
}

#[test]
fn a_nibble_is_parsed_as_hex_or_decimal() {
    assert_eq!("f".parse::<u4lo>(), Ok(u4lo::from_lo(15)));
    assert_eq!("9".parse::<u4hi>(), Ok(u4hi::from_lo(9)));
    assert_eq!("15".parse::<u4lo>(), Ok(u4lo::from_lo(15)));
    assert_eq!("10".parse::<u4hi>(), Ok(u4hi::from_lo(10)));
    assert_eq!("16".parse::<u4lo>(), Err(ParseNibbleError::TooLarge));
    assert_eq!("1f".parse::<u4lo>(), Err(ParseNibbleError::BadFormat));
    assert_eq!("g".parse::<u4lo>(), Err(ParseNibbleError::BadFormat));
    assert_eq!("".parse::<u4lo>(), Err(ParseNibbleError::Empty));
    assert_eq!("é".parse::<u4lo>(), Err(ParseNibbleError::BadFormat));
    assert_eq!(nibble::base::parse::<u4lo>("007"), Ok(u4lo::from_lo(7)));
}
