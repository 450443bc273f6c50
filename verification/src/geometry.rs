//! Fixed-point plane geometry: positions, squared distances, integer square
//! roots and bounded steps towards a point.
//!
//! Lengths are whole numbers of sub-units, [`SUBUNITS_PER_UNIT`] to one world
//! unit. Durations are whole microseconds.

use vstd::prelude::*;

verus! {

/// Sub-units in one world unit of length.
pub const SUBUNITS_PER_UNIT: u32 = 1000;

/// Microseconds in one second.
pub const MICROS_PER_SECOND: u64 = 1_000_000;

/// A position in the plane, in sub-units.
#[derive(Clone, Copy, Debug, PartialEq, Eq, Hash, Structural)]
pub struct Point {
    pub x: i32,
    pub y: i32,
}

/// Squared Euclidean distance between two positions.
pub open spec fn dist2(a: Point, b: Point) -> int {
    (a.x - b.x) * (a.x - b.x) + (a.y - b.y) * (a.y - b.y)
}

/// The largest `r` with `r * r <= n`.
pub open spec fn sqrt_floor(n: nat) -> nat
    decreases n,
{
    if n == 0 {
        0
    } else {
        let r = sqrt_floor((n - 1) as nat);
        if (r + 1) * (r + 1) <= n {
            r + 1
        } else {
            r
        }
    }
}

/// `sqrt_floor(n)` squared does not exceed `n`, and the next integer's square does.
pub proof fn lemma_sqrt_floor_bounds(n: nat)
    ensures
        sqrt_floor(n) * sqrt_floor(n) <= n,
        n < (sqrt_floor(n) + 1) * (sqrt_floor(n) + 1),
    decreases n,
{
    if n == 0 {
        assert(sqrt_floor(n) == 0);
        assert(n < (0 + 1) * (0 + 1)) by (nonlinear_arith)
            requires
                n == 0,
        ;
    } else {
        let r = sqrt_floor((n - 1) as nat);
        lemma_sqrt_floor_bounds((n - 1) as nat);
        if (r + 1) * (r + 1) <= n {
            assert(sqrt_floor(n) == r + 1);
            let s = r + 1;
            assert(n < (s + 1) * (s + 1)) by (nonlinear_arith)
                requires
                    n - 1 < (r + 1) * (r + 1),
                    s == r + 1,
                    r >= 0,
            ;
        } else {
            assert(sqrt_floor(n) == r);
        }
    }
}

/// Squaring is monotonic on the naturals.
pub proof fn lemma_square_monotonic(a: int, b: int)
    requires
        0 <= a <= b,
    ensures
        a * a <= b * b,
{
    assert(a * a <= b * b) by (nonlinear_arith)
        requires
            0 <= a <= b,
    ;
}

/// Any `r` whose square brackets `n` from below is `sqrt_floor(n)`.
pub proof fn lemma_sqrt_floor_unique(n: nat, r: int)
    requires
        0 <= r,
        r * r <= n,
        n < (r + 1) * (r + 1),
    ensures
        r == sqrt_floor(n),
{
    let s = sqrt_floor(n) as int;
    lemma_sqrt_floor_bounds(n);
    if r < s {
        lemma_square_monotonic(r + 1, s);
    } else if s < r {
        lemma_square_monotonic(s + 1, r);
    }
}

/// Absolute difference of two coordinates.
pub fn abs_diff(a: i32, b: i32) -> (d: u64)
    ensures
        d == if a >= b { a - b } else { b - a },
        d <= 0xffff_ffff,
{
    if a >= b {
        (a as i64 - b as i64) as u64
    } else {
        (b as i64 - a as i64) as u64
    }
}

impl Point {
    /// Squared Euclidean distance to `other`; no square root is taken.
    pub fn distance_squared(self, other: Point) -> (r: u128)
        ensures
            r == dist2(self, other),
            r <= 2 * 0xffff_ffff * 0xffff_ffff,
    {
        let dx: u128 = abs_diff(self.x, other.x) as u128;
        let dy: u128 = abs_diff(self.y, other.y) as u128;
        proof {
            lemma_square_monotonic(dx as int, 0xffff_ffff);
            lemma_square_monotonic(dy as int, 0xffff_ffff);
            assert((self.x - other.x) * (self.x - other.x) == dx * dx) by (nonlinear_arith)
                requires
                    dx == self.x - other.x || dx == other.x - self.x,
            ;
            assert((self.y - other.y) * (self.y - other.y) == dy * dy) by (nonlinear_arith)
                requires
                    dy == self.y - other.y || dy == other.y - self.y,
            ;
        }
        dx * dx + dy * dy
    }

    /// Whether `other` lies within `radius` of `self`, boundary included.
    pub fn within(self, other: Point, radius: u32) -> (r: bool)
        ensures
            r == (dist2(self, other) <= radius * radius),
    {
        let d2: u128 = self.distance_squared(other);
        let r: u128 = radius as u128;
        proof {
            lemma_square_monotonic(r as int, 0xffff_ffff);
        }
        d2 <= r * r
    }

    /// Whether `other` lies strictly closer than `radius` to `self`.
    pub fn closer_than(self, other: Point, radius: u32) -> (r: bool)
        ensures
            r == (dist2(self, other) < radius * radius),
    {
        let d2: u128 = self.distance_squared(other);
        let r: u128 = radius as u128;
        proof {
            lemma_square_monotonic(r as int, 0xffff_ffff);
        }
        d2 < r * r
    }
}

/// Integer square root, rounded down.
pub fn isqrt(n: u128) -> (r: u64)
    ensures
        r == sqrt_floor(n as nat),
        r * r <= n,
        n < (r + 1) * (r + 1),
{
    let mut lo: u128 = 0;
    let mut hi: u128 = 0x1_0000_0000_0000_0000;
    proof {
        assert(0x1_0000_0000_0000_0000int * 0x1_0000_0000_0000_0000int > n) by (nonlinear_arith)
            requires
                n <= 0xffff_ffff_ffff_ffff_ffff_ffff_ffff_ffff,
        ;
    }
    while hi - lo > 1
        invariant
            lo < hi <= 0x1_0000_0000_0000_0000,
            lo * lo <= n,
            n < hi * hi,
        decreases hi - lo,
    {
        let mid: u128 = lo + (hi - lo) / 2;
        proof {
            lemma_square_monotonic(mid as int, 0xffff_ffff_ffff_ffff);
            assert(0xffff_ffff_ffff_ffffint * 0xffff_ffff_ffff_ffffint
                <= 0xffff_ffff_ffff_ffff_ffff_ffff_ffff_ffff) by (nonlinear_arith);
        }
        if mid * mid <= n {
            lo = mid;
        } else {
            hi = mid;
        }
    }
    proof {
        assert(hi == lo + 1);
        lemma_sqrt_floor_unique(n as nat, lo as int);
    }
    lo as u64
}

/// One coordinate moved from `from` towards `to` by the fraction `step / len`
/// of the way, rounded towards `from`.
pub open spec fn advance(from: int, to: int, step: int, len: int) -> int {
    if to >= from {
        from + ((to - from) * step) / len
    } else {
        from - ((from - to) * step) / len
    }
}

/// Where a mover ends up after walking `step` sub-units from `from` towards
/// `to`: at `to` itself when the step reaches it, else part of the way along
/// the straight line.
pub open spec fn stepped(from: Point, to: Point, step: int) -> Point {
    let d2 = dist2(from, to);
    if step * step >= d2 {
        to
    } else {
        let len = sqrt_floor(d2 as nat) as int;
        Point {
            x: advance(from.x as int, to.x as int, step, len) as i32,
            y: advance(from.y as int, to.y as int, step, len) as i32,
        }
    }
}

/// Distance covered in `dt` microseconds at `speed` sub-units per second.
pub open spec fn travel(speed: int, dt: int) -> int {
    (speed * dt) / (MICROS_PER_SECOND as int)
}

/// Distance covered in `dt` microseconds at `speed` sub-units per second,
/// rounded down.
pub fn travel_distance(speed: u32, dt: u32) -> (step: u64)
    ensures
        step == travel(speed as int, dt as int),
{
    proof {
        assert(speed * dt <= 0xffff_ffff * 0xffff_ffff) by (nonlinear_arith)
            requires
                0 <= speed <= 0xffff_ffff,
                0 <= dt <= 0xffff_ffff,
        ;
    }
    (speed as u64 * dt as u64) / MICROS_PER_SECOND
}

/// A scaled coordinate offset never exceeds the offset itself when
/// `step <= len`.
pub proof fn lemma_scaled_offset_bounded(d: int, step: int, len: int)
    requires
        0 <= d,
        0 <= step <= len,
        0 < len,
    ensures
        0 <= (d * step) / len <= d,
{
    assert(0 <= d * step <= d * len) by (nonlinear_arith)
        requires
            0 <= d,
            0 <= step <= len,
    ;
    assert((d * step) / len <= d) by (nonlinear_arith)
        requires
            0 <= d * step <= d * len,
            0 < len,
    ;
    assert(0 <= (d * step) / len) by (nonlinear_arith)
        requires
            0 <= d * step,
            0 < len,
    ;
}

/// Moves one coordinate by `offset * step / len` towards `to`.
fn advance_coordinate(from: i32, to: i32, step: u64, len: u64) -> (r: i32)
    requires
        0 < len,
        step <= len,
    ensures
        r == advance(from as int, to as int, step as int, len as int),
        from <= to ==> from <= r <= to,
        to <= from ==> to <= r <= from,
{
    let d: u64 = abs_diff(from, to);
    proof {
        lemma_scaled_offset_bounded(d as int, step as int, len as int);
        assert(d * step <= 0xffff_ffff * 0xffff_ffff_ffff_ffff) by (nonlinear_arith)
            requires
                0 <= d <= 0xffff_ffff,
                0 <= step <= 0xffff_ffff_ffff_ffff,
        ;
    }
    let offset: u128 = (d as u128 * step as u128) / (len as u128);
    if to >= from {
        (from as i64 + offset as i64) as i32
    } else {
        (from as i64 - offset as i64) as i32
    }
}

/// Walks `step` sub-units from `from` towards `to` without overshooting.
pub fn step_towards(from: Point, to: Point, step: u64) -> (r: Point)
    ensures
        r == stepped(from, to, step as int),
        from.x <= to.x ==> from.x <= r.x <= to.x,
        to.x <= from.x ==> to.x <= r.x <= from.x,
        from.y <= to.y ==> from.y <= r.y <= to.y,
        to.y <= from.y ==> to.y <= r.y <= from.y,
{
    let d2: u128 = from.distance_squared(to);
    let s: u128 = step as u128;
    proof {
        lemma_square_monotonic(s as int, 0xffff_ffff_ffff_ffff);
        assert(0xffff_ffff_ffff_ffffint * 0xffff_ffff_ffff_ffffint
            <= 0xffff_ffff_ffff_ffff_ffff_ffff_ffff_ffff) by (nonlinear_arith);
    }
    if s * s >= d2 {
        to
    } else {
        let len: u64 = isqrt(d2);
        proof {
            // step * step < d2 < (len + 1) * (len + 1), hence step <= len.
            if step > len {
                lemma_square_monotonic(len + 1, step as int);
            }
            assert(len > 0) by (nonlinear_arith)
                requires
                    d2 < (len + 1) * (len + 1),
                    d2 > 0,
                    len >= 0,
            ;
        }
        Point {
            x: advance_coordinate(from.x, to.x, step, len),
            y: advance_coordinate(from.y, to.y, step, len),
        }
    }
}

} // verus!
