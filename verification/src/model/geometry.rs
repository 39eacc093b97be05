//! Screen coordinates, held by the bit patterns of their IEEE 754 doubles.
//!
//! The rules of this crate compare coordinates and pass them on; they never
//! compute with them. Comparing needs the bit pattern alone.

use vstd::prelude::*;

verus! {

/// The number of bit patterns with a clear sign bit.
pub const SIGN_WEIGHT: u64 = 0x8000_0000_0000_0000;

/// The bit pattern of positive infinity. A larger magnitude is not a number.
pub const INFINITY_BITS: u64 = 0x7ff0_0000_0000_0000;

/// The bit pattern without its sign bit.
pub open spec fn magnitude(bits: u64) -> int {
    bits as int % SIGN_WEIGHT as int
}

pub open spec fn is_negative(bits: u64) -> bool {
    bits >= SIGN_WEIGHT
}

pub open spec fn is_nan(bits: u64) -> bool {
    magnitude(bits) > INFINITY_BITS
}

pub open spec fn is_zero(bits: u64) -> bool {
    magnitude(bits) == 0
}

/// Equality of doubles: no NaN equals anything, and both zeros are one value.
pub open spec fn equal_numbers(left: u64, right: u64) -> bool {
    &&& !is_nan(left)
    &&& !is_nan(right)
    &&& left == right || (is_zero(left) && is_zero(right))
}

/// Whether the double is at most zero. A NaN is not.
pub open spec fn at_most_zero(bits: u64) -> bool {
    !is_nan(bits) && (is_zero(bits) || is_negative(bits))
}

/// A double-precision number, by its bit pattern.
#[derive(Debug, Clone, Copy)]
pub struct Coord {
    pub bits: u64,
}

impl Coord {
    /// Whether the number equals itself, which is so of all but the NaNs.
    pub open spec fn is_number(self) -> bool {
        !is_nan(self.bits)
    }

    pub open spec fn same_as(self, other: Coord) -> bool {
        equal_numbers(self.bits, other.bits)
    }

    /// Numeric equality.
    pub fn same(self, other: Coord) -> (result: bool)
        ensures
            result == self.same_as(other),
    {
        let left: u64 = self.bits % SIGN_WEIGHT;
        let right: u64 = other.bits % SIGN_WEIGHT;
        left <= INFINITY_BITS && right <= INFINITY_BITS && (self.bits == other.bits || (left == 0
            && right == 0))
    }

    /// Whether the number is zero or negative.
    pub fn not_positive(self) -> (result: bool)
        ensures
            result == at_most_zero(self.bits),
    {
        let size: u64 = self.bits % SIGN_WEIGHT;
        size <= INFINITY_BITS && (size == 0 || self.bits >= SIGN_WEIGHT)
    }
}

/// A point in screen coordinates.
#[derive(Debug, Clone, Copy)]
pub struct Point {
    pub x: Coord,
    pub y: Coord,
}

impl Point {
    pub open spec fn same_as(self, other: Point) -> bool {
        self.x.same_as(other.x) && self.y.same_as(other.y)
    }

    pub fn same(self, other: Point) -> (result: bool)
        ensures
            result == self.same_as(other),
    {
        self.x.same(other.x) && self.y.same(other.y)
    }
}

/// A width and a height in screen coordinates.
#[derive(Debug, Clone, Copy)]
pub struct Size {
    pub width: Coord,
    pub height: Coord,
}

impl Size {
    pub open spec fn same_as(self, other: Size) -> bool {
        self.width.same_as(other.width) && self.height.same_as(other.height)
    }

    pub fn same(self, other: Size) -> (result: bool)
        ensures
            result == self.same_as(other),
    {
        self.width.same(other.width) && self.height.same(other.height)
    }
}

/// A rectangle in screen coordinates.
#[derive(Debug, Clone, Copy)]
pub struct Frame {
    pub origin: Point,
    pub size: Size,
}

impl Frame {
    /// Whether no coordinate is a NaN.
    pub open spec fn is_numeric(self) -> bool {
        &&& self.origin.x.is_number()
        &&& self.origin.y.is_number()
        &&& self.size.width.is_number()
        &&& self.size.height.is_number()
    }

    pub open spec fn same_as(self, other: Frame) -> bool {
        self.origin.same_as(other.origin) && self.size.same_as(other.size)
    }

    /// Whether one of the two extents is zero or negative.
    pub open spec fn is_degenerate(self) -> bool {
        at_most_zero(self.size.width.bits) || at_most_zero(self.size.height.bits)
    }

    pub fn same(self, other: Frame) -> (result: bool)
        ensures
            result == self.same_as(other),
    {
        self.origin.same(other.origin) && self.size.same(other.size)
    }

    pub fn degenerate(self) -> (result: bool)
        ensures
            result == self.is_degenerate(),
    {
        self.size.width.not_positive() || self.size.height.not_positive()
    }
}

/// Two doubles are equal exactly if neither is a NaN, and they have the same bits
/// or are both a zero. One is at most zero exactly if it is a zero, or has its
/// sign set and is no NaN.
pub proof fn law_doubles_by_their_bits(left: Coord, right: Coord)
    ensures
        left.is_number() <==> left.bits <= 0x7ff0_0000_0000_0000 || 0x8000_0000_0000_0000
            <= left.bits <= 0xfff0_0000_0000_0000,
        left.same_as(right) <==> {
            &&& left.is_number() && right.is_number()
            &&& left.bits == right.bits || ((left.bits == 0 || left.bits == 0x8000_0000_0000_0000)
                && (right.bits == 0 || right.bits == 0x8000_0000_0000_0000))
        },
        at_most_zero(left.bits) <==> left.bits == 0 || 0x8000_0000_0000_0000 <= left.bits
            <= 0xfff0_0000_0000_0000,
        left.same_as(right) <==> right.same_as(left),
{
    assert forall|bits: u64| #[trigger] magnitude(bits) == (if bits >= 0x8000_0000_0000_0000 {
        bits - 0x8000_0000_0000_0000
    } else {
        bits as int
    }) by {
        let weight = SIGN_WEIGHT as int;
        if bits >= SIGN_WEIGHT {
            vstd::arithmetic::div_mod::lemma_small_mod((bits - weight) as nat, weight as nat);
            vstd::arithmetic::div_mod::lemma_mod_add_multiples_vanish(bits - weight, weight);
        } else {
            vstd::arithmetic::div_mod::lemma_small_mod(bits as nat, weight as nat);
        }
    }
}

/// Whether two coordinates are one number: the same bits, or both a zero.
pub open spec fn is_one_number(left: Coord, right: Coord) -> bool {
    ||| left.bits == right.bits
    ||| (left.bits == 0 || left.bits == 0x8000_0000_0000_0000) && (right.bits == 0 || right.bits
        == 0x8000_0000_0000_0000)
}

/// Whether two rectangles are in the same place and of the same extent.
pub open spec fn is_one_place(left: Frame, right: Frame) -> bool {
    &&& is_one_number(left.origin.x, right.origin.x)
    &&& is_one_number(left.origin.y, right.origin.y)
    &&& is_one_number(left.size.width, right.size.width)
    &&& is_one_number(left.size.height, right.size.height)
}

/// Rectangles are equal exactly if all four coordinates are, and are numbers. One
/// is degenerate exactly if it has no positive width or no positive height.
pub proof fn law_frames_by_their_coordinates(left: Frame, right: Frame)
    ensures
        left.same_as(right) <==> left.is_numeric() && right.is_numeric() && is_one_place(
            left,
            right,
        ),
        left.is_degenerate() <==> at_most_zero(left.size.width.bits) || at_most_zero(
            left.size.height.bits,
        ),
{
    law_doubles_by_their_bits(left.origin.x, right.origin.x);
    law_doubles_by_their_bits(left.origin.y, right.origin.y);
    law_doubles_by_their_bits(left.size.width, right.size.width);
    law_doubles_by_their_bits(left.size.height, right.size.height);
}

} // verus!
