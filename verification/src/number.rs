//! Numbers as the evaluator holds them.
//!
//! A number is a double-precision value of IEEE 754, carried as its 64 bits: the sign in
//! the highest bit, the exponent in the eleven bits below it, the fraction in the rest.
//! The evaluator looks into a number only to tell zero from nonzero and to order two
//! numbers; to compute with numbers is the work of the numeric unit that its caller
//! hands in.
use vstd::prelude::*;

verus! {

/// The bits of positive zero.
pub const ZERO: u64 = 0;

/// The bits of one.
pub const ONE: u64 = 0x3ff0_0000_0000_0000;

/// The bits below the sign.
pub const MAGNITUDE: u64 = 0x7fff_ffff_ffff_ffff;

/// The bits of the exponent; as a magnitude, infinity.
pub const INFINITY: u64 = 0x7ff0_0000_0000_0000;

/// The arithmetic operators, whose results the numeric unit computes.
///
/// The evaluator hands both operands to the unit whatever they are. Division and
/// remainder by zero are no failures of the evaluator: the result is what the unit
/// returns, which for doubles is an infinity or no number.
#[derive(Debug, Clone, Copy, PartialEq, Eq, Structural)]
pub enum ArithOp {
    /// `+`
    Add,
    /// `-`
    Sub,
    /// `*`
    Mul,
    /// `/`
    Div,
    /// `%`
    Rem,
    /// `^`, the power.
    Pow,
}

/// The comparisons of two numbers.
#[derive(Debug, Clone, Copy, PartialEq, Eq, Structural)]
pub enum Comparison {
    /// `>`
    Greater,
    /// `<`
    Less,
    /// `<=`
    AtMost,
    /// `>=`
    AtLeast,
    /// `==`
    Equal,
    /// `!=`
    Unequal,
}

/// The bits of `bits` below the sign.
pub open spec fn magnitude(bits: u64) -> u64 {
    bits & MAGNITUDE
}

/// Whether the sign is set.
pub open spec fn negative(bits: u64) -> bool {
    bits > MAGNITUDE
}

/// Whether the number is zero, of either sign.
pub open spec fn zero(bits: u64) -> bool {
    magnitude(bits) == 0
}

/// Whether the bits are no number: the exponent is all ones and the fraction is not zero.
pub open spec fn nan(bits: u64) -> bool {
    magnitude(bits) > INFINITY
}

/// Where a number stands among the numbers: its magnitude, below zero for a negative
/// number. Both zeros stand at 0.
pub open spec fn rank(bits: u64) -> int {
    if negative(bits) {
        -(magnitude(bits) as int)
    } else {
        magnitude(bits) as int
    }
}

/// Whether `a` is less than `b`. What is no number is less than nothing, and nothing is
/// less than it.
pub open spec fn less(a: u64, b: u64) -> bool {
    !nan(a) && !nan(b) && rank(a) < rank(b)
}

/// Whether `a` equals `b`. What is no number equals nothing, itself included.
pub open spec fn equal(a: u64, b: u64) -> bool {
    !nan(a) && !nan(b) && rank(a) == rank(b)
}

/// Whether the comparison `how` holds between `a` and `b`.
pub open spec fn holds(how: Comparison, a: u64, b: u64) -> bool {
    match how {
        Comparison::Greater => less(b, a),
        Comparison::Less => less(a, b),
        Comparison::AtMost => less(a, b) || equal(a, b),
        Comparison::AtLeast => less(b, a) || equal(a, b),
        Comparison::Equal => equal(a, b),
        Comparison::Unequal => !equal(a, b),
    }
}

/// The number that stands for a truth value: one for true, zero for false.
pub open spec fn truth(b: bool) -> u64 {
    if b {
        ONE
    } else {
        ZERO
    }
}

/// Whether the number is zero, of either sign.
pub fn is_zero(bits: u64) -> (r: bool)
    ensures
        r == zero(bits),
{
    bits & MAGNITUDE == 0
}

/// Whether the bits are no number.
pub fn is_nan(bits: u64) -> (r: bool)
    ensures
        r == nan(bits),
{
    bits & MAGNITUDE > INFINITY
}

/// Whether `a` is less than `b`.
pub fn is_less(a: u64, b: u64) -> (r: bool)
    ensures
        r == less(a, b),
{
    if is_nan(a) || is_nan(b) {
        false
    } else {
        let x = a & MAGNITUDE;
        let y = b & MAGNITUDE;
        if a > MAGNITUDE {
            if b > MAGNITUDE {
                x > y
            } else {
                x != 0 || y != 0
            }
        } else {
            b <= MAGNITUDE && x < y
        }
    }
}

/// Whether `a` equals `b`.
pub fn is_equal(a: u64, b: u64) -> (r: bool)
    ensures
        r == equal(a, b),
{
    if is_nan(a) || is_nan(b) {
        false
    } else {
        let x = a & MAGNITUDE;
        let y = b & MAGNITUDE;
        if (a > MAGNITUDE) == (b > MAGNITUDE) {
            x == y
        } else {
            x == 0 && y == 0
        }
    }
}

/// Whether the comparison `how` holds between `a` and `b`.
pub fn compare(how: Comparison, a: u64, b: u64) -> (r: bool)
    ensures
        r == holds(how, a, b),
{
    match how {
        Comparison::Greater => is_less(b, a),
        Comparison::Less => is_less(a, b),
        Comparison::AtMost => is_less(a, b) || is_equal(a, b),
        Comparison::AtLeast => is_less(b, a) || is_equal(a, b),
        Comparison::Equal => is_equal(a, b),
        Comparison::Unequal => !is_equal(a, b),
    }
}

/// The number that stands for a truth value.
pub fn from_bool(b: bool) -> (r: u64)
    ensures
        r == truth(b),
{
    if b {
        ONE
    } else {
        ZERO
    }
}

} // verus!
