//! Doubles as plain integers.
//!
//! An observation reaches this library as the 64-bit pattern of an IEEE-754
//! double. Every pattern that is not a NaN has an *order key*: a signed
//! integer such that one double is less than another exactly when its key is
//! the smaller one. Both zeros share the key `0`. All comparisons in the
//! library are comparisons of keys.
use vstd::prelude::*;

verus! {

/// The bit that carries the sign.
pub const SIGN_BIT: u64 = 0x8000_0000_0000_0000;

/// The pattern of positive infinity. A larger magnitude is a NaN.
pub const INFINITY: u64 = 0x7FF0_0000_0000_0000;

/// The pattern of `0.0`.
pub const ZERO: u64 = 0;

/// The pattern of `0.5`.
pub const HALF: u64 = 0x3FE0_0000_0000_0000;

/// The pattern of `1.0`.
pub const ONE: u64 = 0x3FF0_0000_0000_0000;

/// The pattern of `-1.0`.
pub const MINUS_ONE: u64 = 0xBFF0_0000_0000_0000;

/// The pattern of `2.0`.
pub const TWO: u64 = 0x4000_0000_0000_0000;

/// The pattern of `3.0`.
pub const THREE: u64 = 0x4008_0000_0000_0000;

/// The pattern of `4.0`.
pub const FOUR: u64 = 0x4010_0000_0000_0000;

/// The pattern of `5.0`.
pub const FIVE: u64 = 0x4014_0000_0000_0000;

/// The pattern without its sign bit.
pub open spec fn magnitude(bits: u64) -> int {
    if bits >= SIGN_BIT {
        bits - SIGN_BIT
    } else {
        bits as int
    }
}

/// Whether the pattern is a NaN: its magnitude lies above infinity's.
pub open spec fn is_nan(bits: u64) -> bool {
    magnitude(bits) > INFINITY
}

/// The order key of a pattern: its magnitude, negated where the sign bit is
/// set. It is meant for patterns that are not NaN.
pub open spec fn key_of(bits: u64) -> int {
    if bits >= SIGN_BIT {
        -magnitude(bits)
    } else {
        magnitude(bits)
    }
}

/// Whether an integer is the order key of some double.
pub open spec fn is_key(k: int) -> bool {
    -INFINITY <= k <= INFINITY
}

/// The pattern that a key stands for. The key `0` gives the positive zero.
pub open spec fn bits_of(k: int) -> u64 {
    if k >= 0 {
        k as u64
    } else {
        (SIGN_BIT - k) as u64
    }
}

/// Tells whether `bits` is a NaN.
pub fn is_nan_bits(bits: u64) -> (r: bool)
    ensures
        r == is_nan(bits),
{
    if bits >= SIGN_BIT {
        bits - SIGN_BIT > INFINITY
    } else {
        bits > INFINITY
    }
}

/// The order key of `bits`, or `None` for a NaN.
pub fn to_key(bits: u64) -> (r: Option<i64>)
    ensures
        is_nan(bits) <==> r is None,
        r matches Some(k) ==> k == key_of(bits) && is_key(k as int),
{
    if is_nan_bits(bits) {
        None
    } else if bits >= SIGN_BIT {
        let m: u64 = bits - SIGN_BIT;
        Some(-(m as i64))
    } else {
        Some(bits as i64)
    }
}

/// The pattern of the double with order key `k`.
pub fn from_key(k: i64) -> (r: u64)
    requires
        is_key(k as int),
    ensures
        r == bits_of(k as int),
        !is_nan(r),
        key_of(r) == k,
{
    if k >= 0 {
        k as u64
    } else {
        let m: i64 = -k;
        SIGN_BIT + (m as u64)
    }
}

/// The larger of two doubles. Where one is a NaN it is the other one;
/// of two equal doubles it is the first.
pub open spec fn larger_of(a: u64, b: u64) -> u64 {
    if is_nan(a) {
        b
    } else if is_nan(b) {
        a
    } else if key_of(a) < key_of(b) {
        b
    } else {
        a
    }
}

/// The smaller of two doubles. Where one is a NaN it is the other one;
/// of two equal doubles it is the first.
pub open spec fn smaller_of(a: u64, b: u64) -> u64 {
    if is_nan(a) {
        b
    } else if is_nan(b) {
        a
    } else if key_of(b) < key_of(a) {
        b
    } else {
        a
    }
}

/// The larger of two doubles.
pub fn larger(a: u64, b: u64) -> (r: u64)
    ensures
        r == larger_of(a, b),
{
    match (to_key(a), to_key(b)) {
        (None, _) => b,
        (_, None) => a,
        (Some(x), Some(y)) => if x < y {
            b
        } else {
            a
        },
    }
}

/// The smaller of two doubles.
pub fn smaller(a: u64, b: u64) -> (r: u64)
    ensures
        r == smaller_of(a, b),
{
    match (to_key(a), to_key(b)) {
        (None, _) => b,
        (_, None) => a,
        (Some(x), Some(y)) => if y < x {
            b
        } else {
            a
        },
    }
}

/// Whether `q` is a valid quantile: a double between 0 and 1, both included.
pub open spec fn is_fraction(q: u64) -> bool {
    !is_nan(q) && 0 <= key_of(q) <= ONE
}

/// Tells whether `q` is a double between 0 and 1, both included.
pub fn is_fraction_bits(q: u64) -> (r: bool)
    ensures
        r == is_fraction(q),
{
    match to_key(q) {
        Some(k) => 0 <= k && k <= ONE as i64,
        None => false,
    }
}

/// A key and its pattern stand for each other: turning a key into bits and
/// back gives the key again.
pub proof fn lemma_key_round_trip(k: int)
    requires
        is_key(k),
    ensures
        !is_nan(bits_of(k)),
        key_of(bits_of(k)) == k,
{
}

/// Only the two zeros share a key: a pattern that is neither a NaN nor the
/// negative zero is given back by its key.
pub proof fn lemma_bits_round_trip(bits: u64)
    requires
        !is_nan(bits),
        bits != SIGN_BIT,
    ensures
        bits_of(key_of(bits)) == bits,
{
}

/// Two doubles with one key are the same pattern or the two zeros.
pub proof fn lemma_key_injective(a: u64, b: u64)
    requires
        !is_nan(a),
        !is_nan(b),
        key_of(a) == key_of(b),
    ensures
        a == b || key_of(a) == 0,
{
}

} // verus!
