//! Numbers on nibbles: arithmetic that checks, wraps or saturates, the bounds,
//! conversions from and to wider integers, and counts and moves of bits.
//!
//! Every function here works on the number that a nibble stands for, so it is
//! the same for the two kinds of nibble.
use vstd::prelude::*;
use crate::base::u4;
use crate::common::{bits, bits_of, lo_nib};

verus! {

/// The sum of two nibbles, where it is a nibble.
pub fn checked_add<T: u4>(lhs: &T, rhs: &T) -> (r: Option<T>)
    ensures
        r.is_some() <==> lhs.value() + rhs.value() < 16,
        r.is_some() ==> r.unwrap().value() == lhs.value() + rhs.value(),
{
    let sum: u8 = lhs.to_lo() + rhs.to_lo();
    if sum < 16 {
        Some(T::from_lo(sum))
    } else {
        None
    }
}

/// The difference of two nibbles, where it is not below zero.
pub fn checked_sub<T: u4>(lhs: &T, rhs: &T) -> (r: Option<T>)
    ensures
        r.is_some() <==> lhs.value() >= rhs.value(),
        r.is_some() ==> r.unwrap().value() == lhs.value() - rhs.value(),
{
    let a: u8 = lhs.to_lo();
    let b: u8 = rhs.to_lo();
    if a >= b {
        Some(T::from_lo(a - b))
    } else {
        None
    }
}

/// The product of two nibbles, where it is a nibble.
pub fn checked_mul<T: u4>(lhs: &T, rhs: &T) -> (r: Option<T>)
    ensures
        r.is_some() <==> lhs.value() * rhs.value() < 16,
        r.is_some() ==> r.unwrap().value() == lhs.value() * rhs.value(),
{
    let a: u8 = lhs.to_lo();
    let b: u8 = rhs.to_lo();
    assert(a * b <= 15 * 15) by (nonlinear_arith)
        requires
            a <= 15,
            b <= 15,
    ;
    let product: u8 = a * b;
    if product < 16 {
        Some(T::from_lo(product))
    } else {
        None
    }
}

/// The quotient of two nibbles, where the divisor is not zero.
pub fn checked_div<T: u4>(lhs: &T, rhs: &T) -> (r: Option<T>)
    ensures
        r.is_some() <==> rhs.value() != 0,
        r.is_some() ==> r.unwrap().value() == lhs.value() / rhs.value(),
{
    let a: u8 = lhs.to_lo();
    let b: u8 = rhs.to_lo();
    if b != 0 {
        Some(T::from_lo(a / b))
    } else {
        None
    }
}

/// The sum of two nibbles, counted round from 15 to 0.
pub fn wrapping_add<T: u4>(lhs: &T, rhs: &T) -> (r: T)
    ensures
        r.value() == (lhs.value() + rhs.value()) % 16,
{
    T::from_lo(lhs.to_lo() + rhs.to_lo())
}

/// The difference of two nibbles, counted round from 0 to 15.
pub fn wrapping_sub<T: u4>(lhs: &T, rhs: &T) -> (r: T)
    ensures
        r.value() == (lhs.value() + 16 - rhs.value()) % 16,
{
    T::from_lo(lhs.to_lo() + 16 - rhs.to_lo())
}

/// The product of two nibbles, counted round from 15 to 0.
pub fn wrapping_mul<T: u4>(lhs: &T, rhs: &T) -> (r: T)
    ensures
        r.value() == (lhs.value() * rhs.value()) % 16,
{
    let a: u8 = lhs.to_lo();
    let b: u8 = rhs.to_lo();
    assert(a * b <= 15 * 15) by (nonlinear_arith)
        requires
            a <= 15,
            b <= 15,
    ;
    T::from_lo(a * b)
}

/// The sum of two nibbles, or 15 where the sum is more.
pub fn saturating_add<T: u4>(lhs: T, rhs: T) -> (r: T)
    ensures
        r.value() == if lhs.value() + rhs.value() < 16 {
            lhs.value() + rhs.value()
        } else {
            15
        },
{
    match checked_add(&lhs, &rhs) {
        Some(sum) => sum,
        None => max_value(),
    }
}

/// The difference of two nibbles, or 0 where the difference is less.
pub fn saturating_sub<T: u4>(lhs: T, rhs: T) -> (r: T)
    ensures
        r.value() == if lhs.value() >= rhs.value() {
            lhs.value() - rhs.value()
        } else {
            0
        },
{
    match checked_sub(&lhs, &rhs) {
        Some(difference) => difference,
        None => min_value(),
    }
}

/// The least nibble.
pub fn min_value<T: u4>() -> (r: T)
    ensures
        r.value() == 0,
{
    T::from_lo(0b0000)
}

/// The greatest nibble.
pub fn max_value<T: u4>() -> (r: T)
    ensures
        r.value() == 15,
{
    T::from_lo(0b1111)
}

/// The nibble zero.
pub fn zero<T: u4>() -> (r: T)
    ensures
        r.value() == 0,
{
    T::from_lo(0)
}

/// Whether a nibble is zero.
pub fn is_zero<T: u4>(nib: &T) -> (r: bool)
    ensures
        r == (nib.value() == 0),
{
    nib.to_lo() == 0
}

/// The nibble one.
pub fn one<T: u4>() -> (r: T)
    ensures
        r.value() == 1,
{
    T::from_lo(1)
}

/// The nibble for a signed number, where there is one.
pub fn from_i64<T: u4>(n: i64) -> (r: Option<T>)
    ensures
        r.is_some() <==> 0 <= n < 16,
        r.is_some() ==> r.unwrap().value() == n,
{
    if 0 <= n && n < 16 {
        T::try_from_lo(n as u8)
    } else {
        None
    }
}

/// The nibble for an unsigned number, where there is one.
pub fn from_u64<T: u4>(n: u64) -> (r: Option<T>)
    ensures
        r.is_some() <==> n < 16,
        r.is_some() ==> r.unwrap().value() == n,
{
    if n < 16 {
        T::try_from_lo(n as u8)
    } else {
        None
    }
}

/// A nibble as a signed number.
pub fn to_i64<T: u4>(nib: &T) -> (r: Option<i64>)
    ensures
        r == Some(nib.value() as i64),
{
    Some(nib.to_lo() as i64)
}

/// A nibble as an unsigned number.
pub fn to_u64<T: u4>(nib: &T) -> (r: Option<u64>)
    ensures
        r == Some(nib.value() as u64),
{
    Some(nib.to_lo() as u64)
}

/// The number of bits that are set in a nibble.
pub open spec fn ones_of(value: u8) -> nat {
    (bits_of(value)[0] + bits_of(value)[1] + bits_of(value)[2] + bits_of(value)[3]) as nat
}

/// The number of clear bits above the highest bit that is set in a nibble.
pub open spec fn leading_zeros_of(value: u8) -> nat {
    if value >= 8 {
        0
    } else if value >= 4 {
        1
    } else if value >= 2 {
        2
    } else if value >= 1 {
        3
    } else {
        4
    }
}

/// The number of clear bits below the lowest bit that is set in a nibble.
pub open spec fn trailing_zeros_of(value: u8) -> nat {
    if value % 16 == 0 {
        4
    } else if value % 2 == 1 {
        0
    } else if value % 4 == 2 {
        1
    } else if value % 8 == 4 {
        2
    } else {
        3
    }
}

/// The number of bits that are set in a nibble.
pub fn count_ones<T: u4>(nib: T) -> (r: u32)
    ensures
        r == ones_of(nib.value()),
        r <= 4,
{
    let digits: [u8; 4] = bits(nib.to_lo());
    (digits[0] + digits[1] + digits[2] + digits[3]) as u32
}

/// The number of bits that are clear in a nibble.
pub fn count_zeros<T: u4>(nib: T) -> (r: u32)
    ensures
        r == 4 - ones_of(nib.value()),
{
    4 - count_ones(nib)
}

/// The number of clear bits above the highest bit that is set in a nibble.
pub fn leading_zeros<T: u4>(nib: T) -> (r: u32)
    ensures
        r == leading_zeros_of(nib.value()),
{
    let value: u8 = nib.to_lo();
    if value >= 8 {
        0
    } else if value >= 4 {
        1
    } else if value >= 2 {
        2
    } else if value >= 1 {
        3
    } else {
        4
    }
}

/// The number of clear bits below the lowest bit that is set in a nibble.
pub fn trailing_zeros<T: u4>(nib: T) -> (r: u32)
    ensures
        r == trailing_zeros_of(nib.value()),
{
    let value: u8 = nib.to_lo();
    if value == 0 {
        4
    } else if value % 2 == 1 {
        0
    } else if value % 4 == 2 {
        1
    } else if value % 8 == 4 {
        2
    } else {
        3
    }
}

/// A nibble with its bits moved one place towards the high end, the highest of
/// them coming in at the low end.
pub open spec fn rotated(value: u8) -> u8 {
    ((value * 2) % 16 + (value % 16) / 8) as u8
}

/// A nibble with its bits moved `by` places towards the high end, those that
/// leave at the high end coming in at the low end.
pub open spec fn rotated_by(value: u8, by: nat) -> u8
    decreases by,
{
    if by == 0 {
        value
    } else {
        rotated(rotated_by(value, (by - 1) as nat))
    }
}

/// Moves the bits of a nibble by `by` places, which is less than four.
fn rotate<T: u4>(nib: T, by: u32) -> (r: T)
    requires
        by < 4,
    ensures
        r.value() == rotated_by(nib.value(), by as nat),
{
    let mut value: u8 = nib.to_lo();
    let mut i: u32 = 0;
    while i < by
        invariant
            i <= by,
            by < 4,
            value < 16,
            value == rotated_by(nib.value(), i as nat),
        decreases by - i,
    {
        value = (value * 2) % 16 + value / 8;
        i += 1;
    }
    T::from_lo(value)
}

/// Moves the bits of a nibble `n` places towards the high end, those that leave
/// at the high end coming in at the low end. Four places are a full round.
pub fn rotate_left<T: u4>(nib: T, n: u32) -> (r: T)
    ensures
        r.value() == rotated_by(nib.value(), (n % 4) as nat),
{
    rotate(nib, n % 4)
}

/// Moves the bits of a nibble `n` places towards the low end, those that leave
/// at the low end coming in at the high end. That is a move of what is left of
/// a full round towards the high end.
pub fn rotate_right<T: u4>(nib: T, n: u32) -> (r: T)
    ensures
        r.value() == rotated_by(nib.value(), ((4 - n % 4) % 4) as nat),
{
    rotate(nib, (4 - n % 4) % 4)
}

/// Moves the bits of a nibble `n` places towards the high end and drops those
/// that leave the nibble.
pub fn unsigned_shl<T: u4>(nib: T, n: u32) -> (r: T)
    requires
        n < 8,
    ensures
        r.value() == lo_nib(nib.value() << n),
{
    T::from_lo(nib.to_lo() << n)
}

/// Moves the bits of a nibble `n` places towards the low end and drops those
/// that leave the nibble.
pub fn unsigned_shr<T: u4>(nib: T, n: u32) -> (r: T)
    requires
        n < 8,
    ensures
        r.value() == lo_nib(nib.value() >> n),
{
    T::from_lo(nib.to_lo() >> n)
}

/// Moves the bits of a nibble `n` places towards the high end. A nibble has no
/// sign, so this is `unsigned_shl`.
pub fn signed_shl<T: u4>(nib: T, n: u32) -> (r: T)
    requires
        n < 8,
    ensures
        r.value() == lo_nib(nib.value() << n),
{
    unsigned_shl(nib, n)
}

/// Moves the bits of a nibble `n` places towards the low end. A nibble has no
/// sign, so this is `unsigned_shr`.
pub fn signed_shr<T: u4>(nib: T, n: u32) -> (r: T)
    requires
        n < 8,
    ensures
        r.value() == lo_nib(nib.value() >> n),
{
    unsigned_shr(nib, n)
}

/// A nibble is less than a byte, so it has no bytes to swap.
pub fn swap_bytes<T: u4>(nib: T) -> (r: T)
    ensures
        r == nib,
{
    nib
}

/// A nibble is less than a byte, so it reads the same from big-endian order.
pub fn from_be<T: u4>(nib: T) -> (r: T)
    ensures
        r == nib,
{
    nib
}

/// A nibble is less than a byte, so it reads the same from little-endian order.
pub fn from_le<T: u4>(nib: T) -> (r: T)
    ensures
        r == nib,
{
    nib
}

/// A nibble is less than a byte, so it is the same in big-endian order.
pub fn to_be<T: u4>(nib: T) -> (r: T)
    ensures
        r == nib,
{
    nib
}

/// A nibble is less than a byte, so it is the same in little-endian order.
pub fn to_le<T: u4>(nib: T) -> (r: T)
    ensures
        r == nib,
{
    nib
}

/// `base` multiplied by itself `exp` times.
pub open spec fn power(base: nat, exp: nat) -> nat
    decreases exp,
{
    if exp == 0 {
        1
    } else {
        base * power(base, (exp - 1) as nat)
    }
}

/// A power of a number that is not zero grows with its exponent, and a power
/// of a number above one is more than its exponent.
pub proof fn lemma_power_grows(base: nat, low: nat, high: nat)
    requires
        base >= 1,
        low <= high,
    ensures
        1 <= power(base, low) <= power(base, high),
        base >= 2 ==> power(base, high) > high,
    decreases high,
{
    if high > 0 {
        if low < high {
            lemma_power_grows(base, low, (high - 1) as nat);
        } else {
            lemma_power_grows(base, (low - 1) as nat, (high - 1) as nat);
        }
        let below = power(base, (high - 1) as nat);
        assert(below <= base * below) by (nonlinear_arith)
            requires
                base >= 1,
        ;
        assert(base >= 2 ==> 2 * below <= base * below) by (nonlinear_arith);
        if low == high {
        }
    }
}

/// A nibble raised to a power that is a nibble too.
pub fn pow<T: u4>(nib: T, exp: u32) -> (r: T)
    requires
        power(nib.value() as nat, exp as nat) < 16,
    ensures
        r.value() == power(nib.value() as nat, exp as nat),
{
    let base: u8 = nib.to_lo();
    let mut value: u8 = 1;
    let mut i: u32 = 0;
    if base <= 1 {
        proof {
            lemma_power_flat(base as nat, exp as nat);
        }
        return if exp == 0 || base == 1 { T::from_lo(1) } else { T::from_lo(0) };
    }
    while i < exp
        invariant
            i <= exp,
            2 <= base < 16,
            base == nib.value(),
            value == power(base as nat, i as nat),
            power(base as nat, exp as nat) < 16,
        decreases exp - i,
    {
        proof {
            lemma_power_grows(base as nat, (i + 1) as nat, exp as nat);
            assert(power(base as nat, (i + 1) as nat) == (base as nat) * power(
                base as nat,
                i as nat,
            ));
            assert(value * base == base * value) by (nonlinear_arith);
        }
        value = value * base;
        i += 1;
    }
    T::from_lo(value)
}

/// The powers of zero and of one.
pub proof fn lemma_power_flat(base: nat, exp: nat)
    requires
        base <= 1,
    ensures
        exp == 0 || base == 1 ==> power(base, exp) == 1,
        exp > 0 && base == 0 ==> power(base, exp) == 0,
    decreases exp,
{
    if exp > 0 {
        lemma_power_flat(base, (exp - 1) as nat);
    }
}

} // verus!
