use nibble::base::u4;
use core::cell::Cell;
use nibble::common::{get_nib, get_nib_mut, set_nib, shift_left, shift_right};
use nibble::pair::U4Cell;
use nibble::{u4lo, u4x2};

fn bytes(pairs: &[u4x2]) -> Vec<u8> {
    pairs.iter().map(|pair| pair.byte()).collect()
}

#[test]
fn shift_right_at_an_odd_index() {
    let mut buf = [u4x2::from_byte(0xAB), u4x2::from_byte(0xC0)];
    shift_right(&mut buf, 1);
    assert_eq!(bytes(&buf), vec![0xA0, 0xBC]);
}

#[test]
fn shift_right_at_an_even_index() {
    let mut buf = [u4x2::from_byte(0x12), u4x2::from_byte(0x34), u4x2::from_byte(0x56)];
    shift_right(&mut buf, 2);
    assert_eq!(bytes(&buf), vec![0x12, 0x03, 0x45]);
}

#[test]
fn shift_right_at_the_end_moves_nothing() {
    let mut buf = [u4x2::from_byte(0x12), u4x2::from_byte(0x34)];
    shift_right(&mut buf, 4);
    assert_eq!(bytes(&buf), vec![0x12, 0x34]);
    let mut none: [u4x2; 0] = [];
    shift_right(&mut none, 0);
}

#[test]
fn shift_left_at_an_even_index() {
    let mut buf = [u4x2::from_byte(0x12), u4x2::from_byte(0x34), u4x2::from_byte(0x50)];
    shift_left(&mut buf, 2);
    assert_eq!(bytes(&buf), vec![0x12, 0x45, 0x00]);
}

#[test]
fn shift_left_at_an_odd_index() {
    let mut buf = [u4x2::from_byte(0x12), u4x2::from_byte(0x34), u4x2::from_byte(0x56)];
    shift_left(&mut buf, 1);
    assert_eq!(bytes(&buf), vec![0x13, 0x45, 0x60]);
}

#[test]
fn shift_left_at_the_last_nibble() {
    let mut buf = [u4x2::from_byte(0x12), u4x2::from_byte(0x34)];
    shift_left(&mut buf, 3);
    assert_eq!(bytes(&buf), vec![0x12, 0x30]);
    let mut one = [u4x2::from_byte(0x9f)];
    shift_left(&mut one, 1);
    assert_eq!(bytes(&one), vec![0x90]);
    shift_left(&mut one, 0);
    assert_eq!(bytes(&one), vec![0x00]);
}

#[test]
fn set_and_get_a_nibble() {
    let mut buf = [u4x2::from_byte(0x12), u4x2::from_byte(0x34)];
    set_nib(&mut buf, 2, u4lo::from_lo(0xF));
    assert_eq!(bytes(&buf), vec![0x12, 0xF4]);
    set_nib(&mut buf, 1, u4lo::from_lo(0xE));
    assert_eq!(bytes(&buf), vec![0x1E, 0xF4]);
    let got: u4lo = get_nib(&buf, 3);
    assert_eq!(got, 4);
    let got: u4lo = get_nib(&buf, 0);
    assert_eq!(got, 1);
}

#[test]
fn a_cell_for_a_nibble() {
    let cells = [Cell::new(u4x2::from_byte(0x12)), Cell::new(u4x2::from_byte(0x34))];
    get_nib_mut(&cells, 0).set(u4lo::from_lo(9));
    get_nib_mut(&cells, 3).set(u4lo::from_lo(8));
    assert_eq!(get_nib_mut(&cells, 1).get_lo(), 2);
    assert_eq!(get_nib_mut(&cells, 2).get_hi(), 3);
    assert_eq!(cells[0].get().byte(), 0x92);
    assert_eq!(cells[1].get().byte(), 0x38);
}
