//! Short strings and vectors of fixed capacity, as the nibble types write and read
//! them.
//!
//! The strings are `arrayvec::ArrayString`s. What such a string holds is named
//! here by its bytes, one name for each capacity in use, and so is what an
//! `arrayvec::ArrayVec` of four bytes holds.
use vstd::prelude::*;
use vstd::string::StringSliceAdditionalSpecFns;
use arrayvec::{ArrayString, ArrayVec};

verus! {

/// `arrayvec::ArrayString`: a string in an array of `CAP` bytes.
#[verifier::external_type_specification]
#[verifier::external_body]
pub struct ExArrayString<const CAP: usize>(ArrayString<CAP>);

/// `arrayvec::ArrayVec`: a vector in an array of `CAP` elements.
#[verifier::external_type_specification]
#[verifier::external_body]
#[verifier::reject_recursive_types(T)]
pub struct ExArrayVec<T, const CAP: usize>(ArrayVec<T, CAP>);

/// The bytes of a string of one byte at most.
pub uninterp spec fn text1(s: ArrayString<1>) -> Seq<u8>;

/// The bytes of a string of two bytes at most.
pub uninterp spec fn text2(s: ArrayString<2>) -> Seq<u8>;

/// The bytes of a string of four bytes at most.
pub uninterp spec fn text4(s: ArrayString<4>) -> Seq<u8>;

/// The bytes of a string of eight bytes at most.
pub uninterp spec fn text8(s: ArrayString<8>) -> Seq<u8>;

/// The bytes of a vector of four bytes at most.
pub uninterp spec fn held4(v: ArrayVec<u8, 4>) -> Seq<u8>;

/// `ArrayString::new`: the empty string.
#[verifier::external_body]
pub(crate) fn new1() -> (r: ArrayString<1>)
    ensures
        text1(r) == Seq::<u8>::empty(),
{
    ArrayString::new()
}

/// `ArrayString::new`: the empty string.
#[verifier::external_body]
pub(crate) fn new2() -> (r: ArrayString<2>)
    ensures
        text2(r) == Seq::<u8>::empty(),
{
    ArrayString::new()
}

/// `ArrayString::new`: the empty string.
#[verifier::external_body]
pub(crate) fn new4() -> (r: ArrayString<4>)
    ensures
        text4(r) == Seq::<u8>::empty(),
{
    ArrayString::new()
}

/// `ArrayString::new`: the empty string.
#[verifier::external_body]
pub(crate) fn new8() -> (r: ArrayString<8>)
    ensures
        text8(r) == Seq::<u8>::empty(),
{
    ArrayString::new()
}

/// `ArrayString::push`: adds a char to the end of the string. An ASCII char takes
/// one byte, its code. The string must have room for it.
#[verifier::external_body]
pub(crate) fn push1(s: &mut ArrayString<1>, c: u8)
    requires
        c < 128,
        text1(*old(s)).len() < 1,
    ensures
        text1(*final(s)) == text1(*old(s)).push(c),
{
    s.push(char::from(c))
}

/// `ArrayString::push`: adds a char to the end of the string. An ASCII char takes
/// one byte, its code. The string must have room for it.
#[verifier::external_body]
pub(crate) fn push2(s: &mut ArrayString<2>, c: u8)
    requires
        c < 128,
        text2(*old(s)).len() < 2,
    ensures
        text2(*final(s)) == text2(*old(s)).push(c),
{
    s.push(char::from(c))
}

/// `ArrayString::push`: adds a char to the end of the string. An ASCII char takes
/// one byte, its code. The string must have room for it.
#[verifier::external_body]
pub(crate) fn push4(s: &mut ArrayString<4>, c: u8)
    requires
        c < 128,
        text4(*old(s)).len() < 4,
    ensures
        text4(*final(s)) == text4(*old(s)).push(c),
{
    s.push(char::from(c))
}

/// `ArrayString::push`: adds a char to the end of the string. An ASCII char takes
/// one byte, its code. The string must have room for it.
#[verifier::external_body]
pub(crate) fn push8(s: &mut ArrayString<8>, c: u8)
    requires
        c < 128,
        text8(*old(s)).len() < 8,
    ensures
        text8(*final(s)) == text8(*old(s)).push(c),
{
    s.push(char::from(c))
}

/// `ArrayString::as_str`: the string as a slice, which has the bytes of the
/// string and so no more of them than the capacity.
#[verifier::external_body]
pub(crate) fn as_str4(s: &ArrayString<4>) -> (r: &str)
    ensures
        r.spec_bytes() == text4(*s),
        r.spec_bytes().len() <= 4,
{
    s.as_str()
}

/// `ArrayVec::as_slice`: the elements of the vector as a slice, of which there
/// are no more than the capacity.
#[verifier::external_body]
pub(crate) fn as_slice4(v: &ArrayVec<u8, 4>) -> (r: &[u8])
    ensures
        r@ == held4(*v),
        r@.len() <= 4,
{
    v.as_slice()
}

/// The ASCII digits for a run of digits that are each less than ten.
pub open spec fn ascii_of(digits: Seq<u8>) -> Seq<u8> {
    Seq::new(digits.len(), |i: int| (0x30 + digits[i]) as u8)
}

/// A run of digits without the zeros at its start. The last digit stays even
/// when it is a zero, so that zero is written as one digit.
pub open spec fn significant(digits: Seq<u8>) -> Seq<u8>
    decreases digits.len(),
{
    if digits.len() <= 1 {
        digits
    } else if digits[0] == 0 {
        significant(digits.drop_first())
    } else {
        digits
    }
}

/// Writes two digits without a zero at the start.
pub fn two_digits(digits: [u8; 2]) -> (r: ArrayString<2>)
    requires
        digits@[0] < 10,
        digits@[1] < 10,
    ensures
        text2(r) == ascii_of(significant(digits@)),
{
    let mut s = new2();
    if digits[0] != 0 {
        push2(&mut s, 0x30 + digits[0]);
    }
    push2(&mut s, 0x30 + digits[1]);
    proof {
        assert(digits@.drop_first() =~= seq![digits@[1]]);
        assert(significant(digits@.drop_first()) =~= seq![digits@[1]]);
        assert(text2(s) =~= ascii_of(significant(digits@)));
    }
    s
}

/// Writes four digits, all of them when `padded` is set and else without the
/// zeros at the start.
pub fn four_digits(digits: [u8; 4], padded: bool) -> (r: ArrayString<4>)
    requires
        forall|i: int| 0 <= i < 4 ==> digits@[i] < 10,
    ensures
        padded ==> text4(r) == ascii_of(digits@),
        !padded ==> text4(r) == ascii_of(significant(digits@)),
{
    let mut s = new4();
    let mut started: bool = padded;
    let mut i: usize = 0;
    proof {
        assert(digits@.skip(0) =~= digits@);
        assert(text4(s) =~= ascii_of(digits@.take(0)));
    }
    while i < 4
        invariant
            i <= 4,
            forall|k: int| 0 <= k < 4 ==> digits@[k] < 10,
            text4(s).len() <= i,
            padded ==> started && text4(s) == ascii_of(digits@.take(i as int)),
            !padded && started ==> text4(s) == ascii_of(digits@.skip(i - text4(s).len()).take(
                text4(s).len() as int,
            )) && text4(s).len() > 0 && significant(digits@) == digits@.skip(i - text4(s).len()),
            !padded && !started ==> text4(s).len() == 0 && i < 4 && significant(digits@)
                == significant(digits@.skip(i as int)),
        decreases 4 - i,
    {
        let ghost before = text4(s);
        if !started && (digits[i] != 0 || i == 3) {
            started = true;
        }
        if started {
            push4(&mut s, 0x30 + digits[i]);
        }
        proof {
            if padded {
                assert(digits@.take(i + 1) =~= digits@.take(i as int).push(digits@[i as int]));
                assert(text4(s) =~= ascii_of(digits@.take(i + 1)));
            } else if started {
                let len = text4(s).len();
                if before.len() == 0 {
                    let rest = digits@.skip(i as int);
                    assert(rest[0] == digits@[i as int]);
                    assert(significant(rest) == rest);
                } else {
                    assert(digits@.skip(i + 1 - len) =~= digits@.skip(i - before.len()));
                }
                assert(text4(s) =~= ascii_of(digits@.skip(i + 1 - len).take(len as int)));
            } else {
                let rest = digits@.skip(i as int);
                assert(rest[0] == 0);
                assert(rest.drop_first() =~= digits@.skip(i + 1));
            }
        }
        i += 1;
    }
    proof {
        assert(digits@.take(4) =~= digits@);
        if !padded {
            let len = text4(s).len();
            assert(digits@.skip(4 - len).take(len as int) =~= digits@.skip(4 - len));
        }
    }
    s
}

} // verus!
