//! Basic nibble types.
use vstd::prelude::*;
use vstd::std_specs::convert::FromSpecImpl;
use vstd::string::StringSliceAdditionalSpecFns;
use arrayvec::{ArrayString, ArrayVec};
use crate::common::{bits, bits_of, decimal_digits, decimal_digits_of, octal_digits, octal_digits_of};
use crate::text::{as_slice4, as_str4, ascii_of, four_digits, held4, new1, push1, significant};
use crate::text::{text1, text2, text4, two_digits};
use crate::common::{has_higher, has_lower, hi_nib, join_nibs, lo_nib};
use crate::common::{higher_to_higher, higher_to_lower, lower_to_higher, lower_to_lower};

verus! {

/// The ASCII digit `0`.
pub const DIGIT_0: u8 = 0x30;

/// The ASCII digit `9`.
pub const DIGIT_9: u8 = 0x39;

/// The ASCII letter `A`.
pub const UPPER_A: u8 = 0x41;

/// The ASCII letter `F`.
pub const UPPER_F: u8 = 0x46;

/// The ASCII letter `a`.
pub const LOWER_A: u8 = 0x61;

/// The ASCII letter `f`.
pub const LOWER_F: u8 = 0x66;

/// The number that an ASCII hex digit stands for, of either case.
pub open spec fn ascii_digit_value(b: u8) -> Option<u8> {
    if DIGIT_0 <= b <= DIGIT_9 {
        Some((b - DIGIT_0) as u8)
    } else if UPPER_A <= b <= UPPER_F {
        Some((b - UPPER_A + 0xA) as u8)
    } else if LOWER_A <= b <= LOWER_F {
        Some((b - LOWER_A + 0xa) as u8)
    } else {
        None
    }
}

/// The lowercase ASCII hex digit of a nibble.
pub open spec fn lower_ascii_digit(value: u8) -> u8
    recommends
        value < 16,
{
    if value < 10 {
        (DIGIT_0 + value) as u8
    } else {
        (LOWER_A + value - 10) as u8
    }
}

/// The uppercase ASCII hex digit of a nibble.
pub open spec fn upper_ascii_digit(value: u8) -> u8
    recommends
        value < 16,
{
    if value < 10 {
        (DIGIT_0 + value) as u8
    } else {
        (UPPER_A + value - 10) as u8
    }
}

/// The number that a hex digit stands for, of either case.
pub open spec fn digit_value(c: char) -> Option<u8> {
    if (c as u32) < 128 {
        ascii_digit_value((c as u32) as u8)
    } else {
        None
    }
}

/// Reading a digit that was written gives the nibble back, in either case.
pub proof fn lemma_digit_round_trip(value: u8)
    requires
        value < 16,
    ensures
        ascii_digit_value(lower_ascii_digit(value)) == Some(value),
        ascii_digit_value(upper_ascii_digit(value)) == Some(value),
        digit_value(lower_ascii_digit(value) as char) == Some(value),
        digit_value(upper_ascii_digit(value) as char) == Some(value),
{
}

/// Whether every byte of `s` is an ASCII hex digit.
pub open spec fn is_hex(s: Seq<u8>) -> bool {
    forall|k: int| 0 <= k < s.len() ==> (#[trigger] ascii_digit_value(s[k])).is_some()
}

/// The nibbles that a run of ASCII hex digits stands for, digit by digit.
pub open spec fn hex_values(s: Seq<u8>) -> Seq<u8>
    recommends
        is_hex(s),
{
    Seq::new(s.len(), |k: int| ascii_digit_value(s[k]).unwrap())
}

/// Whether `b` is one of the ASCII digits `0` and `1`.
pub open spec fn is_bit(b: u8) -> bool {
    b == DIGIT_0 || b == DIGIT_0 + 1
}

/// Whether every byte of `s` is one of the ASCII digits `0` and `1`.
pub open spec fn is_binary(s: Seq<u8>) -> bool {
    forall|k: int| 0 <= k < s.len() ==> #[trigger] is_bit(s[k])
}

/// The number that a run of the ASCII digits `0` and `1` stands for in base two.
pub open spec fn binary_value(s: Seq<u8>) -> nat
    decreases s.len(),
{
    if s.len() == 0 {
        0
    } else {
        2 * binary_value(s.drop_last()) + if s.last() == DIGIT_0 { 0nat } else { 1nat }
    }
}

/// The digit that an ASCII byte stands for in the given radix: `0` to `9` stand
/// for themselves and the letters, of either case, for ten and up. A byte that
/// stands for `radix` or more is no digit.
pub open spec fn radix_digit(b: u8, radix: u32) -> Option<u8> {
    let value: int = if DIGIT_0 <= b <= DIGIT_9 {
        b - DIGIT_0
    } else if LOWER_A <= b <= 0x7a {
        b - LOWER_A + 10
    } else if UPPER_A <= b <= 0x5a {
        b - UPPER_A + 10
    } else {
        36
    };
    if value < radix {
        Some(value as u8)
    } else {
        None
    }
}

/// Whether every byte of `s` is a digit in the given radix.
pub open spec fn is_radix(s: Seq<u8>, radix: u32) -> bool {
    forall|k: int| 0 <= k < s.len() ==> (#[trigger] radix_digit(s[k], radix)).is_some()
}

/// The number that a run of digits stands for in the given radix.
pub open spec fn radix_value(s: Seq<u8>, radix: u32) -> nat
    decreases s.len(),
{
    if s.len() == 0 {
        0
    } else {
        radix_value(s.drop_last(), radix) * (radix as nat) + match radix_digit(s.last(), radix) {
            Some(d) => d as nat,
            None => 0nat,
        }
    }
}

/// Whether the first `n` digits of `s`, and every shorter beginning of `s`,
/// stand for a number that a nibble can hold.
pub open spec fn fits(s: Seq<u8>, radix: u32, n: int) -> bool {
    forall|k: int| 0 <= k <= n ==> #[trigger] radix_value(s.take(k), radix) < 16
}

/// A run of digits stands for no less than any of its beginnings. So a run that
/// a nibble can hold has no beginning that is too large.
pub proof fn lemma_radix_value_grows(s: Seq<u8>, radix: u32, k: int)
    requires
        radix >= 1,
        0 <= k <= s.len(),
    ensures
        radix_value(s.take(k), radix) <= radix_value(s, radix),
    decreases s.len() - k,
{
    if k == s.len() {
        assert(s.take(k) =~= s);
    } else {
        lemma_radix_value_grows(s.drop_last(), radix, k);
        assert(s.drop_last().take(k) =~= s.take(k));
        let shorter = radix_value(s.drop_last(), radix);
        assert(shorter <= shorter * (radix as nat)) by (nonlinear_arith)
            requires
                radix >= 1,
        ;
    }
}

/// A run of digits fits a nibble, beginning by beginning, just when the whole
/// run stands for less than sixteen.
pub proof fn lemma_fits(s: Seq<u8>, radix: u32)
    requires
        s.len() > 0,
        is_radix(s, radix),
    ensures
        fits(s, radix, s.len() as int) <==> radix_value(s, radix) < 16,
{
    assert(radix_digit(s[0], radix).is_some());
    assert(s.take(s.len() as int) =~= s);
    if radix_value(s, radix) < 16 {
        assert forall|k: int| 0 <= k <= s.len() implies #[trigger] radix_value(s.take(k), radix)
            < 16 by {
            lemma_radix_value_grows(s, radix, k);
        }
    }
}

/// A nibble keeps its value on the way into either half of a byte and back:
/// what `to_hi` writes `from_hi` reads, and what `to_lo` writes `from_lo` reads.
pub proof fn lemma_round_trip<T: u4>(nib: T)
    ensures
        nib.value() < 16,
        hi_nib(join_nibs(nib.value(), 0)) == nib.value(),
        lo_nib(join_nibs(nib.value(), 0)) == 0,
        lo_nib(nib.value()) == nib.value(),
        hi_nib(nib.value()) == 0,
{
    nib.lemma_value_range();
}

/// A nibble: a number from 0 to 15, whatever half of a byte it is kept in.
#[allow(non_camel_case_types)]
pub trait u4: Sized {
    /// The number that this nibble stands for.
    spec fn value(&self) -> u8;

    /// A nibble is less than 16.
    proof fn lemma_value_range(&self)
        ensures
            self.value() < 16,
    ;

    /// Constructs a nibble from the high-order bits of a given byte.
    fn from_hi(lo_and_hi: u8) -> (r: Self)
        ensures
            r.value() == hi_nib(lo_and_hi),
    ;

    /// Constructs a nibble from the low-order bits of a given byte.
    fn from_lo(lo_and_hi: u8) -> (r: Self)
        ensures
            r.value() == lo_nib(lo_and_hi),
    ;

    /// Constructs a nibble from a byte with the same data in the high- and low-order bits.
    fn from_repeated(lo_and_hi: u8) -> (r: Self)
        ensures
            r.value() == hi_nib(lo_and_hi) || r.value() == lo_nib(lo_and_hi),
    ;

    /// Converts this nibble into a byte with its high-order bits set and low-order bits zero.
    fn to_hi(&self) -> (r: u8)
        ensures
            r == join_nibs(self.value(), 0),
            hi_nib(r) == self.value(),
            lo_nib(r) == 0,
    ;

    /// Converts this nibble into a byte with its low-order bits set and high-order bits zero.
    fn to_lo(&self) -> (r: u8)
        ensures
            r == self.value(),
            r < 16,
    ;

    /// Tries to construct a nibble from the high-order bits of a given byte.
    ///
    /// Fails if the low-order bits are nonzero.
    fn try_from_hi(lo_and_hi: u8) -> (r: Option<Self>)
        ensures
            r.is_some() <==> lo_nib(lo_and_hi) == 0,
            r.is_some() ==> r.unwrap().value() == hi_nib(lo_and_hi),
    {
        if has_lower(lo_and_hi) {
            None
        } else {
            Some(Self::from_hi(lo_and_hi))
        }
    }

    /// Tries to construct a nibble from the low-order bits of a given byte.
    ///
    /// Fails if the high-order bits are nonzero.
    fn try_from_lo(lo_and_hi: u8) -> (r: Option<Self>)
        ensures
            r.is_some() <==> lo_and_hi < 16,
            r.is_some() ==> r.unwrap().value() == lo_and_hi,
    {
        if has_higher(lo_and_hi) {
            None
        } else {
            Some(Self::from_lo(lo_and_hi))
        }
    }

    /// Converts this nibble into a byte with the same data in the high- and low-order bits.
    fn to_repeated(&self) -> (r: u8)
        ensures
            r == join_nibs(self.value(), self.value()),
    {
        crate::common::combine(self.to_hi(), self.to_lo())
    }

    /// Converts this nibble into a high-order version.
    fn to_u4hi(&self) -> (r: u4hi)
        ensures
            r@ == self.value(),
    {
        u4hi::new(self.to_lo())
    }

    /// Converts this nibble into a low-order version.
    fn to_u4lo(&self) -> (r: u4lo)
        ensures
            r@ == self.value(),
    {
        u4lo::new(self.to_lo())
    }

    /// Converts an ASCII hex digit into a nibble.
    fn from_ascii_digit(b: u8) -> (r: Option<Self>)
        ensures
            r.is_some() <==> ascii_digit_value(b).is_some(),
            r.is_some() ==> Some(r.unwrap().value()) == ascii_digit_value(b),
    {
        if DIGIT_0 <= b && b <= DIGIT_9 {
            Some(Self::from_lo(b - DIGIT_0))
        } else if UPPER_A <= b && b <= UPPER_F {
            Some(Self::from_lo(b - UPPER_A + 0xA))
        } else if LOWER_A <= b && b <= LOWER_F {
            Some(Self::from_lo(b - LOWER_A + 0xa))
        } else {
            None
        }
    }

    /// Converts a nibble into a lowercase ASCII hex digit.
    fn to_lower_ascii_digit(&self) -> (r: u8)
        ensures
            r == lower_ascii_digit(self.value()),
    {
        let val: u8 = self.to_lo();
        if val < 0xa {
            DIGIT_0 + val
        } else {
            LOWER_A + (val - 0xa)
        }
    }

    /// Converts a nibble into an uppercase ASCII hex digit.
    fn to_upper_ascii_digit(&self) -> (r: u8)
        ensures
            r == upper_ascii_digit(self.value()),
    {
        let val: u8 = self.to_lo();
        if val < 0xA {
            DIGIT_0 + val
        } else {
            UPPER_A + (val - 0xA)
        }
    }

    /// Converts a hex digit into a nibble.
    fn from_digit(c: char) -> (r: Option<Self>)
        ensures
            r.is_some() <==> digit_value(c).is_some(),
            r.is_some() ==> Some(r.unwrap().value()) == digit_value(c),
    {
        let code: u32 = c as u32;
        if code < 128 {
            Self::from_ascii_digit(code as u8)
        } else {
            None
        }
    }

    /// Converts a nibble into a lowercase hex digit.
    fn to_lower_digit(&self) -> (r: char)
        ensures
            r == lower_ascii_digit(self.value()) as char,
    {
        self.to_lower_ascii_digit() as char
    }

    /// Converts a nibble into an uppercase hex digit.
    fn to_upper_digit(&self) -> (r: char)
        ensures
            r == upper_ascii_digit(self.value()) as char,
    {
        self.to_upper_ascii_digit() as char
    }

    /// Converts a nibble into a lowercase hex string.
    fn to_lower_hex(&self) -> (r: ArrayString<1>)
        ensures
            text1(r) == seq![lower_ascii_digit(self.value())],
    {
        proof {
            self.lemma_value_range();
        }
        let mut s = new1();
        push1(&mut s, self.to_lower_ascii_digit());
        assert(text1(s) =~= seq![lower_ascii_digit(self.value())]);
        s
    }

    /// Converts a nibble into an uppercase hex string.
    fn to_upper_hex(&self) -> (r: ArrayString<1>)
        ensures
            text1(r) == seq![upper_ascii_digit(self.value())],
    {
        proof {
            self.lemma_value_range();
        }
        let mut s = new1();
        push1(&mut s, self.to_upper_ascii_digit());
        assert(text1(s) =~= seq![upper_ascii_digit(self.value())]);
        s
    }

    /// Converts an ASCII binary string into a nibble.
    fn from_ascii_binary(s: ArrayVec<u8, 4>) -> (r: Option<Self>)
        ensures
            r.is_some() <==> is_binary(held4(s)),
            r.is_some() ==> r.unwrap().value() == binary_value(held4(s)),
    {
        match parse_binary(as_slice4(&s)) {
            Some(nib) => Some(Self::from_lo(nib)),
            None => None,
        }
    }

    /// Converts a binary string into a nibble.
    fn from_binary(s: ArrayString<4>) -> (r: Option<Self>)
        ensures
            r.is_some() <==> is_binary(text4(s)),
            r.is_some() ==> r.unwrap().value() == binary_value(text4(s)),
    {
        match parse_binary(as_str4(&s).as_bytes()) {
            Some(nib) => Some(Self::from_lo(nib)),
            None => None,
        }
    }

    /// Converts a nibble into a 4-digit binary string.
    fn to_padded_binary(&self) -> (r: ArrayString<4>)
        ensures
            text4(r) == ascii_of(bits_of(self.value())),
    {
        four_digits(bits(self.to_lo()), true)
    }

    /// Converts a nibble into a binary string.
    fn to_binary(&self) -> (r: ArrayString<4>)
        ensures
            text4(r) == ascii_of(significant(bits_of(self.value()))),
    {
        four_digits(bits(self.to_lo()), false)
    }

    /// Converts a nibble into an octal string.
    fn to_octal(&self) -> (r: ArrayString<2>)
        ensures
            text2(r) == ascii_of(significant(octal_digits_of(self.value()))),
    {
        two_digits(octal_digits(self.to_lo()))
    }

    /// Converts a nibble into a decimal string.
    fn to_decimal(&self) -> (r: ArrayString<2>)
        ensures
            text2(r) == ascii_of(significant(decimal_digits_of(self.value()))),
    {
        two_digits(decimal_digits(self.to_lo()))
    }

    /// Converts an ASCII string of the given radix into a nibble.
    ///
    /// The digits are read from the first on. The string is refused as empty when
    /// it has no byte, as badly formed at the first byte that is no digit of the
    /// radix, and as too large at the first digit with which the number read so
    /// far no longer fits a nibble, whichever byte comes first.
    fn from_ascii_radix(s: &[u8], radix: u32) -> (r: Result<Self, ParseNibbleError>)
        requires
            radix <= 36,
        ensures
            r.is_ok() <==> s@.len() > 0 && is_radix(s@, radix) && radix_value(s@, radix) < 16,
            r.is_ok() ==> r.unwrap().value() == radix_value(s@, radix),
            r == Err::<Self, ParseNibbleError>(ParseNibbleError::Empty) <==> s@.len() == 0,
            r == Err::<Self, ParseNibbleError>(ParseNibbleError::BadFormat) <==> exists|b: int|
                0 <= b < s@.len() && #[trigger] radix_digit(s@[b], radix).is_none() && is_radix(
                    s@.take(b),
                    radix,
                ) && fits(s@, radix, b),
            r == Err::<Self, ParseNibbleError>(ParseNibbleError::TooLarge) <==> exists|t: int|
                0 <= t < s@.len() && is_radix(s@.take(t + 1), radix) && #[trigger] radix_value(
                    s@.take(t + 1),
                    radix,
                ) >= 16,
    {
        if s.len() == 0 {
            assert forall|t: int| 0 <= t < s@.len() implies !(#[trigger] radix_value(
                s@.take(t + 1),
                radix,
            ) >= 16) by {}
            return Err(ParseNibbleError::Empty);
        }
        let mut nib: u8 = 0;
        let mut i: usize = 0;
        proof {
            assert(s@.take(0) =~= Seq::<u8>::empty());
        }
        while i < s.len()
            invariant
                i <= s@.len(),
                s@.len() > 0,
                radix <= 36,
                nib < 16,
                nib == radix_value(s@.take(i as int), radix),
                is_radix(s@.take(i as int), radix),
                fits(s@, radix, i as int),
            decreases s@.len() - i,
        {
            proof {
                assert(s@.take(i + 1).drop_last() =~= s@.take(i as int));
                assert(s@.take(i + 1).last() == s@[i as int]);
            }
            let d: u8 = match digit(s[i], radix) {
                Ok(d) => d,
                Err(e) => {
                    proof {
                        lemma_refused(s@, radix, i as int);
                    }
                    return Err(e);
                },
            };
            assert(nib * radix <= 15 * 36) by (nonlinear_arith)
                requires
                    nib <= 15,
                    radix <= 36,
            ;
            let next: u32 = (nib as u32) * radix + (d as u32);
            if next >= 16 {
                proof {
                    lemma_refused(s@, radix, i as int);
                }
                return Err(ParseNibbleError::TooLarge);
            }
            nib = next as u8;
            proof {
                assert forall|k: int| 0 <= k < i + 1 implies (#[trigger] radix_digit(
                    s@.take(i + 1)[k],
                    radix,
                )).is_some() by {
                    if k < i {
                        assert(s@.take(i + 1)[k] == s@.take(i as int)[k]);
                    }
                }
            }
            i += 1;
        }
        proof {
            assert(s@.take(i as int) =~= s@);
            lemma_accepted(s@, radix);
            lemma_fits(s@, radix);
        }
        Ok(Self::from_lo(nib))
    }

    /// Converts a string of the given radix into a nibble. The string is read
    /// byte by byte, as `from_ascii_radix` reads it.
    fn from_str_radix(s: &str, radix: u32) -> (r: Result<Self, ParseNibbleError>)
        requires
            radix <= 36,
        ensures
            r.is_ok() <==> s.spec_bytes().len() > 0 && is_radix(s.spec_bytes(), radix)
                && radix_value(s.spec_bytes(), radix) < 16,
            r.is_ok() ==> r.unwrap().value() == radix_value(s.spec_bytes(), radix),
            r == Err::<Self, ParseNibbleError>(ParseNibbleError::Empty) <==> s.spec_bytes().len()
                == 0,
            r == Err::<Self, ParseNibbleError>(ParseNibbleError::BadFormat) <==> exists|b: int|
                0 <= b < s.spec_bytes().len() && #[trigger] radix_digit(
                    s.spec_bytes()[b],
                    radix,
                ).is_none() && is_radix(s.spec_bytes().take(b), radix) && fits(
                    s.spec_bytes(),
                    radix,
                    b,
                ),
            r == Err::<Self, ParseNibbleError>(ParseNibbleError::TooLarge) <==> exists|t: int|
                0 <= t < s.spec_bytes().len() && is_radix(s.spec_bytes().take(t + 1), radix)
                    && #[trigger] radix_value(s.spec_bytes().take(t + 1), radix) >= 16,
    {
        Self::from_ascii_radix(s.as_bytes(), radix)
    }
}

/// Reads the value of a nibble from binary digits, of which there are four at
/// most.
pub fn parse_binary(s: &[u8]) -> (r: Option<u8>)
    requires
        s@.len() <= 4,
    ensures
        r.is_some() <==> is_binary(s@),
        r.is_some() ==> r.unwrap() == binary_value(s@) && r.unwrap() < 16,
{
    let mut nib: u8 = 0;
    let mut i: usize = 0;
    proof {
        assert(s@.take(0) =~= Seq::<u8>::empty());
    }
    while i < s.len()
        invariant
            i <= s@.len(),
            s@.len() <= 4,
            is_binary(s@.take(i as int)),
            nib == binary_value(s@.take(i as int)),
            i == 0 ==> nib == 0,
            i == 1 ==> nib < 2,
            i == 2 ==> nib < 4,
            i == 3 ==> nib < 8,
            i == 4 ==> nib < 16,
        decreases s@.len() - i,
    {
        proof {
            assert(s@.take(i + 1).drop_last() =~= s@.take(i as int));
            assert(s@.take(i + 1).last() == s@[i as int]);
        }
        nib = nib * 2;
        if s[i] == DIGIT_0 {
        } else if s[i] == DIGIT_0 + 1 {
            nib = nib + 1;
        } else {
            proof {
                assert(!is_bit(s@[i as int]));
            }
            return None;
        }
        proof {
            assert forall|k: int| 0 <= k < i + 1 implies #[trigger] is_bit(s@.take(i + 1)[k]) by {
                if k < i {
                    assert(s@.take(i + 1)[k] == s@.take(i as int)[k]);
                    assert(is_bit(s@.take(i as int)[k]));
                }
            }
        }
        i += 1;
    }
    proof {
        assert(s@.take(i as int) =~= s@);
    }
    Some(nib)
}

/// Reads one digit of a number in the given radix.
///
/// A byte that is no digit of the radix is badly formed, and a digit that no
/// nibble can hold is too large.
pub fn digit(b: u8, radix: u32) -> (r: Result<u8, ParseNibbleError>)
    requires
        radix <= 36,
    ensures
        r.is_ok() <==> radix_digit(b, radix).is_some() && radix_digit(b, radix).unwrap() < 16,
        r.is_ok() ==> Some(r.unwrap()) == radix_digit(b, radix),
        r.is_err() ==> (r.unwrap_err() == ParseNibbleError::BadFormat <==> radix_digit(
            b,
            radix,
        ).is_none()),
        r.is_err() ==> (r.unwrap_err() == ParseNibbleError::TooLarge <==> radix_digit(
            b,
            radix,
        ).is_some()),
{
    let value: u8 = if DIGIT_0 <= b && b <= DIGIT_9 {
        b - DIGIT_0
    } else if LOWER_A <= b && b <= 0x7a {
        b - LOWER_A + 10
    } else if UPPER_A <= b && b <= 0x5a {
        b - UPPER_A + 10
    } else {
        36
    };
    if value as u32 >= radix {
        Err(ParseNibbleError::BadFormat)
    } else if has_higher(value) {
        Err(ParseNibbleError::TooLarge)
    } else {
        Ok(value)
    }
}

/// Parses a string into a nibble.
///
/// This assumes that single digits are in hexadecimal, and larger strings are in
/// decimal. For more control, use `from_str_radix` instead.
pub fn parse<T: u4>(s: &str) -> (r: Result<T, ParseNibbleError>)
    ensures
        r.is_ok() <==> s.spec_bytes().len() > 0 && is_radix(s.spec_bytes(), radix_for(s.spec_bytes()))
            && radix_value(s.spec_bytes(), radix_for(s.spec_bytes())) < 16,
        r.is_ok() ==> r.unwrap().value() == radix_value(
            s.spec_bytes(),
            radix_for(s.spec_bytes()),
        ),
        r == Err::<T, ParseNibbleError>(ParseNibbleError::Empty) <==> s.spec_bytes().len() == 0,
        r == Err::<T, ParseNibbleError>(ParseNibbleError::BadFormat) <==> exists|b: int|
            0 <= b < s.spec_bytes().len() && #[trigger] radix_digit(
                s.spec_bytes()[b],
                radix_for(s.spec_bytes()),
            ).is_none() && is_radix(s.spec_bytes().take(b), radix_for(s.spec_bytes())) && fits(
                s.spec_bytes(),
                radix_for(s.spec_bytes()),
                b,
            ),
        r == Err::<T, ParseNibbleError>(ParseNibbleError::TooLarge) <==> exists|t: int|
            0 <= t < s.spec_bytes().len() && is_radix(
                s.spec_bytes().take(t + 1),
                radix_for(s.spec_bytes()),
            ) && #[trigger] radix_value(s.spec_bytes().take(t + 1), radix_for(s.spec_bytes()))
                >= 16,
{
    if s.as_bytes().len() >= 2 {
        T::from_str_radix(s, 10)
    } else {
        T::from_str_radix(s, 16)
    }
}

/// The radix that a string is read in where none is given: sixteen for a single
/// digit, ten for more.
pub open spec fn radix_for(s: Seq<u8>) -> u32 {
    if s.len() >= 2 {
        10
    } else {
        16
    }
}

impl core::str::FromStr for u4hi {
    type Err = ParseNibbleError;

    /// Parses a string into a nibble: a single digit as hexadecimal, a longer
    /// string as decimal.
    fn from_str(s: &str) -> (r: Result<Self, ParseNibbleError>)
        ensures
            r.is_ok() <==> s.spec_bytes().len() > 0 && is_radix(
                s.spec_bytes(),
                radix_for(s.spec_bytes()),
            ) && radix_value(s.spec_bytes(), radix_for(s.spec_bytes())) < 16,
            r.is_ok() ==> r.unwrap()@ == radix_value(s.spec_bytes(), radix_for(s.spec_bytes())),
            r == Err::<u4hi, ParseNibbleError>(ParseNibbleError::Empty) <==> s.spec_bytes().len()
                == 0,
            r == Err::<u4hi, ParseNibbleError>(ParseNibbleError::BadFormat) <==> exists|b: int|
                0 <= b < s.spec_bytes().len() && #[trigger] radix_digit(
                    s.spec_bytes()[b],
                    radix_for(s.spec_bytes()),
                ).is_none() && is_radix(s.spec_bytes().take(b), radix_for(s.spec_bytes()))
                    && fits(s.spec_bytes(), radix_for(s.spec_bytes()), b),
            r == Err::<u4hi, ParseNibbleError>(ParseNibbleError::TooLarge) <==> exists|t: int|
                0 <= t < s.spec_bytes().len() && is_radix(
                    s.spec_bytes().take(t + 1),
                    radix_for(s.spec_bytes()),
                ) && #[trigger] radix_value(
                    s.spec_bytes().take(t + 1),
                    radix_for(s.spec_bytes()),
                ) >= 16,
    {
        parse(s)
    }
}

impl core::str::FromStr for u4lo {
    type Err = ParseNibbleError;

    /// Parses a string into a nibble: a single digit as hexadecimal, a longer
    /// string as decimal.
    fn from_str(s: &str) -> (r: Result<Self, ParseNibbleError>)
        ensures
            r.is_ok() <==> s.spec_bytes().len() > 0 && is_radix(
                s.spec_bytes(),
                radix_for(s.spec_bytes()),
            ) && radix_value(s.spec_bytes(), radix_for(s.spec_bytes())) < 16,
            r.is_ok() ==> r.unwrap()@ == radix_value(s.spec_bytes(), radix_for(s.spec_bytes())),
            r == Err::<u4lo, ParseNibbleError>(ParseNibbleError::Empty) <==> s.spec_bytes().len()
                == 0,
            r == Err::<u4lo, ParseNibbleError>(ParseNibbleError::BadFormat) <==> exists|b: int|
                0 <= b < s.spec_bytes().len() && #[trigger] radix_digit(
                    s.spec_bytes()[b],
                    radix_for(s.spec_bytes()),
                ).is_none() && is_radix(s.spec_bytes().take(b), radix_for(s.spec_bytes()))
                    && fits(s.spec_bytes(), radix_for(s.spec_bytes()), b),
            r == Err::<u4lo, ParseNibbleError>(ParseNibbleError::TooLarge) <==> exists|t: int|
                0 <= t < s.spec_bytes().len() && is_radix(
                    s.spec_bytes().take(t + 1),
                    radix_for(s.spec_bytes()),
                ) && #[trigger] radix_value(
                    s.spec_bytes().take(t + 1),
                    radix_for(s.spec_bytes()),
                ) >= 16,
    {
        parse(s)
    }
}

/// Where reading stops at the byte at `i`, with every beginning before it read
/// and fitting: no earlier byte is to blame, neither as no digit nor as too large.
proof fn lemma_refused(s: Seq<u8>, radix: u32, i: int)
    requires
        0 <= i < s.len(),
        is_radix(s.take(i), radix),
        fits(s, radix, i),
    ensures
        radix_digit(s[i], radix).is_none() ==> (exists|b: int|
            0 <= b < s.len() && #[trigger] radix_digit(s[b], radix).is_none() && is_radix(
                s.take(b),
                radix,
            ) && fits(s, radix, b)) && !(exists|t: int|
            0 <= t < s.len() && is_radix(s.take(t + 1), radix) && #[trigger] radix_value(
                s.take(t + 1),
                radix,
            ) >= 16),
        radix_digit(s[i], radix).is_some() && radix_value(s.take(i + 1), radix) >= 16 ==> (exists|
            t: int,
        |
            0 <= t < s.len() && is_radix(s.take(t + 1), radix) && #[trigger] radix_value(
                s.take(t + 1),
                radix,
            ) >= 16) && !(exists|b: int|
            0 <= b < s.len() && #[trigger] radix_digit(s[b], radix).is_none() && is_radix(
                s.take(b),
                radix,
            ) && fits(s, radix, b)) && !fits(s, radix, s.len() as int) && (is_radix(s, radix)
            ==> radix_value(s, radix) >= 16),
{
    if radix_digit(s[i], radix).is_none() {
        assert forall|t: int|
            0 <= t < s.len() && is_radix(s.take(t + 1), radix) implies !(#[trigger] radix_value(
            s.take(t + 1),
            radix,
        ) >= 16) by {
            if t >= i {
                assert(s.take(t + 1)[i] == s[i]);
            }
        }
    } else if radix_value(s.take(i + 1), radix) >= 16 {
        assert forall|k: int| 0 <= k < i + 1 implies (#[trigger] radix_digit(
            s.take(i + 1)[k],
            radix,
        )).is_some() by {
            if k < i {
                assert(s.take(i + 1)[k] == s.take(i)[k]);
            }
        }
        assert(is_radix(s.take(i + 1), radix));
        assert forall|b: int|
            0 <= b < s.len() && #[trigger] radix_digit(s[b], radix).is_none() && is_radix(
                s.take(b),
                radix,
            ) implies !fits(s, radix, b) by {
            if b <= i {
                assert(s.take(i + 1)[b] == s[b]);
            }
        }
        if is_radix(s, radix) {
            lemma_fits(s, radix);
        }
    }
}

/// Where every byte was read and every beginning fits, no byte is to blame.
proof fn lemma_accepted(s: Seq<u8>, radix: u32)
    requires
        is_radix(s, radix),
        fits(s, radix, s.len() as int),
    ensures
        !(exists|b: int|
            0 <= b < s.len() && #[trigger] radix_digit(s[b], radix).is_none() && is_radix(
                s.take(b),
                radix,
            ) && fits(s, radix, b)),
        !(exists|t: int|
            0 <= t < s.len() && is_radix(s.take(t + 1), radix) && #[trigger] radix_value(
                s.take(t + 1),
                radix,
            ) >= 16),
{
}

/// A nibble stored in the most significant bits of a byte.
#[derive(Copy, Clone, Debug, Hash, Ord)]
#[allow(non_camel_case_types)]
pub struct u4hi {
    hi_and_lo: u8,
}

impl View for u4hi {
    type V = u8;

    closed spec fn view(&self) -> u8 {
        hi_nib(self.hi_and_lo)
    }
}

impl u4hi {
    /// A high-order nibble never has a bit set in the low half of its byte.
    #[verifier::type_invariant]
    closed spec fn in_its_half(self) -> bool {
        lo_nib(self.hi_and_lo) == 0
    }

    /// The high-order nibble that stands for `value`, of which only the low
    /// four bits count.
    pub closed spec fn spec_new(value: u8) -> u4hi {
        u4hi { hi_and_lo: join_nibs(lo_nib(value), 0) }
    }

    /// What `spec_new` gives stands for the low four bits of `value`. The
    /// operators and conversions say what they return by `spec_new`.
    pub proof fn lemma_spec_new(self, value: u8)
        ensures
            u4hi::spec_new(value)@ == lo_nib(value),
    {
    }

    /// The high-order nibble that stands for `value`, of which only the low
    /// four bits count.
    pub fn new(value: u8) -> (r: u4hi)
        ensures
            r@ == lo_nib(value),
            r == u4hi::spec_new(value),
    {
        u4hi { hi_and_lo: lower_to_higher(value) }
    }
}

impl From<u4lo> for u4hi {
    fn from(lo: u4lo) -> (r: u4hi) {
        proof {
            lo.lemma_value_range();
        }
        u4hi { hi_and_lo: lo.to_hi() }
    }
}

impl FromSpecImpl<u4lo> for u4hi {
    open spec fn obeys_from_spec() -> bool {
        true
    }

    open spec fn from_spec(lo: u4lo) -> u4hi {
        u4hi::spec_new(lo@)
    }
}

impl u4 for u4hi {
    open spec fn value(&self) -> u8 {
        self@
    }

    proof fn lemma_value_range(&self) {
    }

    #[inline(always)]
    fn from_hi(hi_and_lo: u8) -> (r: Self) {
        u4hi { hi_and_lo: higher_to_higher(hi_and_lo) }
    }

    #[inline(always)]
    fn from_lo(hi_and_lo: u8) -> (r: Self) {
        u4hi { hi_and_lo: lower_to_higher(hi_and_lo) }
    }

    #[inline(always)]
    fn from_repeated(hi_and_lo: u8) -> (r: Self)
        ensures
            r@ == hi_nib(hi_and_lo),
    {
        Self::from_hi(hi_and_lo)
    }

    #[inline(always)]
    fn to_hi(&self) -> (r: u8) {
        higher_to_higher(self.hi_and_lo)
    }

    #[inline(always)]
    fn to_lo(&self) -> (r: u8) {
        higher_to_lower(self.hi_and_lo)
    }
}

/// A nibble stored in the low-order bits of a byte.
#[derive(Copy, Clone, Debug, Hash, Ord)]
#[allow(non_camel_case_types)]
pub struct u4lo {
    hi_and_lo: u8,
}

impl View for u4lo {
    type V = u8;

    closed spec fn view(&self) -> u8 {
        lo_nib(self.hi_and_lo)
    }
}

impl u4lo {
    /// A low-order nibble never has a bit set in the high half of its byte.
    #[verifier::type_invariant]
    closed spec fn in_its_half(self) -> bool {
        hi_nib(self.hi_and_lo) == 0
    }

    /// The low-order nibble that stands for `value`, of which only the low four
    /// bits count.
    pub closed spec fn spec_new(value: u8) -> u4lo {
        u4lo { hi_and_lo: lo_nib(value) }
    }

    /// What `spec_new` gives stands for the low four bits of `value`. The
    /// operators and conversions say what they return by `spec_new`.
    pub proof fn lemma_spec_new(self, value: u8)
        ensures
            u4lo::spec_new(value)@ == lo_nib(value),
    {
    }

    /// The low-order nibble that stands for `value`, of which only the low
    /// four bits count.
    pub fn new(value: u8) -> (r: u4lo)
        ensures
            r@ == lo_nib(value),
            r == u4lo::spec_new(value),
    {
        u4lo { hi_and_lo: lower_to_lower(value) }
    }
}

impl From<u4hi> for u4lo {
    fn from(hi: u4hi) -> (r: u4lo) {
        proof {
            hi.lemma_value_range();
        }
        u4lo { hi_and_lo: hi.to_lo() }
    }
}

impl FromSpecImpl<u4hi> for u4lo {
    open spec fn obeys_from_spec() -> bool {
        true
    }

    open spec fn from_spec(hi: u4hi) -> u4lo {
        u4lo::spec_new(hi@)
    }
}

impl u4 for u4lo {
    open spec fn value(&self) -> u8 {
        self@
    }

    proof fn lemma_value_range(&self) {
    }

    #[inline(always)]
    fn from_hi(hi_and_lo: u8) -> (r: Self) {
        u4lo { hi_and_lo: higher_to_lower(hi_and_lo) }
    }

    #[inline(always)]
    fn from_lo(hi_and_lo: u8) -> (r: Self) {
        let r = u4lo { hi_and_lo: lower_to_lower(hi_and_lo) };
        assert(r.value() == lo_nib(lo_nib(hi_and_lo)));
        r
    }

    #[inline(always)]
    fn from_repeated(hi_and_lo: u8) -> (r: Self)
        ensures
            r@ == lo_nib(hi_and_lo),
    {
        Self::from_lo(hi_and_lo)
    }

    #[inline(always)]
    fn to_hi(&self) -> (r: u8) {
        lower_to_higher(self.hi_and_lo)
    }

    #[inline(always)]
    fn to_lo(&self) -> (r: u8) {
        lower_to_lower(self.hi_and_lo)
    }
}

/// An error that occurs when parsing a nibble.
#[derive(Clone, Copy, Debug, Eq, Hash, PartialEq, Structural)]
pub enum ParseNibbleError {
    /// Given string was empty.
    Empty,
    /// Given number was larger than a nibble, or larger than the slice could hold.
    TooLarge,
    /// Given string was not a valid number.
    BadFormat,
}

impl ParseNibbleError {
    /// User-friendly description of the error.
    pub fn description(&self) -> (r: &'static str)
        ensures
            *self == ParseNibbleError::Empty ==> r@ == "string was empty"@,
            *self == ParseNibbleError::TooLarge ==> r@ == "number was too large"@,
            *self == ParseNibbleError::BadFormat ==> r@ == "string was not a valid number"@,
    {
        match *self {
            ParseNibbleError::Empty => "string was empty",
            ParseNibbleError::TooLarge => "number was too large",
            ParseNibbleError::BadFormat => "string was not a valid number",
        }
    }
}

} // verus!
