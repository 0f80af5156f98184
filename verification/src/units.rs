//! Fixed-point quantities shared by the whole crate.
//!
//! Time spans are whole nanoseconds. Lengths, speeds (per second) and health
//! are whole millionths of a world unit or of a health point.

use vstd::prelude::*;

verus! {

/// Nanoseconds in one second.
pub const NANOS_PER_SECOND: u64 = 1_000_000_000;

/// Fixed-point representation of one world unit or one health point.
pub const FIXED_ONE: i64 = 1_000_000;

/// A point of the plane, in millionths of a world unit.
#[derive(Clone, Copy, Debug, PartialEq, Eq, Structural)]
pub struct Position {
    pub x: i64,
    pub y: i64,
}

/// Square of the planar distance between two points.
pub open spec fn distance_squared(a: Position, b: Position) -> int {
    (a.x - b.x) * (a.x - b.x) + (a.y - b.y) * (a.y - b.y)
}

/// Whether two points are strictly closer to each other than `radius`.
pub open spec fn closer_than(a: Position, b: Position, radius: int) -> bool {
    distance_squared(a, b) < radius * radius
}

/// Length covered in `dt_ns` nanoseconds at `speed` millionths per second,
/// rounded down.
pub open spec fn travel(speed: int, dt_ns: int) -> int {
    speed * dt_ns / (NANOS_PER_SECOND as int)
}

proof fn lemma_square_bounds(d: int, r: int)
    requires
        0 <= r,
    ensures
        (-r < d < r) <==> d * d < r * r,
        -r < d < r ==> 0 <= d * d,
{
    if -r < d < r {
        if d >= 0 {
            assert(d * d < r * r) by (nonlinear_arith)
                requires 0 <= d < r;
        } else {
            assert(d * d < r * r) by (nonlinear_arith)
                requires -r < d < 0;
        }
        assert(0 <= d * d) by (nonlinear_arith);
    } else {
        assert(d * d >= r * r) by (nonlinear_arith)
            requires d >= r || d <= -r, 0 <= r;
    }
}

impl Position {
    /// Decides whether `self` lies strictly within `radius` of `other`.
    pub fn is_closer_than(&self, other: &Position, radius: u32) -> (near: bool)
        ensures
            near == closer_than(*self, *other, radius as int),
    {
        let r: i128 = radius as i128;
        let dx: i128 = self.x as i128 - other.x as i128;
        let dy: i128 = self.y as i128 - other.y as i128;
        proof {
            lemma_square_bounds(dx as int, r as int);
            lemma_square_bounds(dy as int, r as int);
            assert(0 <= dx * dx) by (nonlinear_arith);
            assert(0 <= dy * dy) by (nonlinear_arith);
            assert(r * r <= 0x1_0000_0000 * 0x1_0000_0000) by (nonlinear_arith)
                requires 0 <= r < 0x1_0000_0000;
        }
        if dx <= -r || dx >= r || dy <= -r || dy >= r {
            return false;
        }
        dx * dx + dy * dy < r * r
    }
}

/// Computes [`travel`] for a speed and a time span.
pub fn distance_travelled(speed: u32, dt_ns: u64) -> (d: u128)
    ensures
        d == travel(speed as int, dt_ns as int),
{
    proof {
        assert(0 <= speed * dt_ns <= 0xffff_ffff * 0xffff_ffff_ffff_ffff) by (nonlinear_arith)
            requires 0 <= speed <= 0xffff_ffff, 0 <= dt_ns <= 0xffff_ffff_ffff_ffff;
    }
    (speed as u128) * (dt_ns as u128) / (NANOS_PER_SECOND as u128)
}

/// The coordinate nearest to `value` that can be represented.
pub open spec fn clamp_coordinate(value: int) -> i64 {
    if value < i64::MIN {
        i64::MIN
    } else if value > i64::MAX {
        i64::MAX
    } else {
        value as i64
    }
}

/// Computes [`clamp_coordinate`].
pub fn clamped(value: i128) -> (coordinate: i64)
    ensures
        coordinate == clamp_coordinate(value as int),
{
    if value < i64::MIN as i128 {
        i64::MIN
    } else if value > i64::MAX as i128 {
        i64::MAX
    } else {
        value as i64
    }
}

} // verus!
