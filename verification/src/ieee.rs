//! Real numbers carried as IEEE-754 binary64 bit patterns.
//!
//! A value is a `u64`: one sign bit, eleven exponent bits, fifty-two fraction
//! bits. Nothing here does arithmetic on reals; the functions classify a
//! pattern and order two of them, which is all the optimizer's decisions need.

use vstd::prelude::*;

verus! {

/// The sign bit of a pattern.
pub const SIGN: u64 = 0x8000_0000_0000_0000;

/// Positive infinity: every exponent bit set, no fraction bit.
pub const INFINITY: u64 = 0x7ff0_0000_0000_0000;

/// The quiet not-a-number that marks an undefined value.
pub const NAN: u64 = 0x7ff8_0000_0000_0000;

/// Positive zero.
pub const ZERO: u64 = 0;

/// The pattern with its sign bit cleared, as a number.
pub open spec fn magnitude(x: u64) -> int {
    if x >= SIGN {
        x - SIGN
    } else {
        x as int
    }
}

/// The pattern is not a number: its magnitude lies beyond infinity.
pub open spec fn nan(x: u64) -> bool {
    magnitude(x) > INFINITY
}

/// The pattern is neither infinite nor not-a-number.
pub open spec fn finite(x: u64) -> bool {
    magnitude(x) < INFINITY
}

/// The place of a number among all numbers: patterns of numbers compare as
/// their ranks do, and both zeros have rank zero.
pub open spec fn rank(x: u64) -> int {
    if x >= SIGN {
        -magnitude(x)
    } else {
        magnitude(x)
    }
}

/// `a > b` as reals: false as soon as either side is not a number.
pub open spec fn above(a: u64, b: u64) -> bool {
    !nan(a) && !nan(b) && rank(a) > rank(b)
}

/// `a >= b` as reals: false as soon as either side is not a number.
pub open spec fn at_least(a: u64, b: u64) -> bool {
    !nan(a) && !nan(b) && rank(a) >= rank(b)
}

/// The larger of two reals, where a side that is not a number gives way to
/// the other; of two equal numbers the first is kept.
pub open spec fn larger(a: u64, b: u64) -> u64 {
    if nan(a) {
        b
    } else if nan(b) {
        a
    } else if rank(b) > rank(a) {
        b
    } else {
        a
    }
}

/// The magnitude of a pattern, computed.
fn magnitude_of(x: u64) -> (m: u64)
    ensures
        m == magnitude(x),
        m < SIGN,
{
    if x >= SIGN {
        x - SIGN
    } else {
        x
    }
}

/// The rank of a pattern, computed.
fn rank_of(x: u64) -> (r: i128)
    ensures
        r == rank(x),
{
    let m: u64 = magnitude_of(x);
    if x >= SIGN {
        -(m as i128)
    } else {
        m as i128
    }
}

/// Tells whether a pattern is not a number.
pub fn is_nan(x: u64) -> (r: bool)
    ensures
        r == nan(x),
{
    magnitude_of(x) > INFINITY
}

/// Tells whether a pattern is a finite number.
pub fn is_finite(x: u64) -> (r: bool)
    ensures
        r == finite(x),
{
    magnitude_of(x) < INFINITY
}

/// Tells whether `a > b` as reals.
pub fn gt(a: u64, b: u64) -> (r: bool)
    ensures
        r == above(a, b),
{
    !is_nan(a) && !is_nan(b) && rank_of(a) > rank_of(b)
}

/// Tells whether `a >= b` as reals.
pub fn ge(a: u64, b: u64) -> (r: bool)
    ensures
        r == at_least(a, b),
{
    !is_nan(a) && !is_nan(b) && rank_of(a) >= rank_of(b)
}

/// Tells whether `a < b` as reals.
pub fn lt(a: u64, b: u64) -> (r: bool)
    ensures
        r == above(b, a),
{
    gt(b, a)
}

/// The larger of two reals, ignoring a side that is not a number.
pub fn max(a: u64, b: u64) -> (r: u64)
    ensures
        r == larger(a, b),
{
    if is_nan(a) {
        b
    } else if is_nan(b) {
        a
    } else if rank_of(b) > rank_of(a) {
        b
    } else {
        a
    }
}

/// A real is a number, or not: never both finite and not-a-number, and a
/// number that is not finite is an infinity.
pub proof fn law_classes(x: u64)
    ensures
        !(nan(x) && finite(x)),
        !nan(x) && !finite(x) <==> x == INFINITY || x == INFINITY + SIGN,
{
}

/// Among numbers `above` is a strict order and `at_least` its reflexive
/// closure; a side that is not a number compares false both ways.
pub proof fn law_order(a: u64, b: u64, c: u64)
    ensures
        !above(a, a),
        above(a, b) ==> !above(b, a),
        above(a, b) && above(b, c) ==> above(a, c),
        at_least(a, b) <==> above(a, b) || (!nan(a) && !nan(b) && rank(a) == rank(b)),
        !nan(a) && !nan(b) ==> (above(a, b) || above(b, a) || rank(a) == rank(b)),
        nan(a) || nan(b) ==> !above(a, b) && !at_least(a, b),
{
}

/// The larger of two reals is one of them, is a number as soon as either of
/// them is, and then neither of them is above it.
pub proof fn law_larger(a: u64, b: u64)
    ensures
        larger(a, b) == a || larger(a, b) == b,
        nan(larger(a, b)) <==> nan(a) && nan(b),
        !above(a, larger(a, b)),
        !above(b, larger(a, b)),
{
}

/// A real lies above the larger of two others exactly when it lies above
/// each of them that is a number, and at least one of them is.
pub proof fn law_above_larger(x: u64, a: u64, b: u64)
    ensures
        above(x, larger(a, b)) <==> !(nan(a) && nan(b)) && (nan(a) || above(x, a)) && (nan(b)
            || above(x, b)),
{
}

} // verus!
