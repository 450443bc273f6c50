//! Snapping positions to a grid.

use vstd::prelude::*;
use crate::geometry::Point;

verus! {

/// The multiple of `grid` nearest to `x`; a coordinate halfway between two
/// multiples goes to the one farther from zero.
pub open spec fn nearest_multiple(x: int, grid: int) -> int {
    if x >= 0 {
        ((x + grid / 2) / grid) * grid
    } else {
        -(((-x + grid / 2) / grid) * grid)
    }
}

/// The multiple of `grid` that lies towards zero from `x`.
pub open spec fn multiple_towards_zero(x: int, grid: int) -> int {
    if x >= 0 {
        (x / grid) * grid
    } else {
        -((-x / grid) * grid)
    }
}

/// A coordinate snapped to a grid of cell size `grid`: the nearest multiple
/// of `grid`, or, where that is more than an `i32` holds, the multiple
/// towards zero. A grid of size zero snaps nothing.
pub open spec fn snapped_coordinate(x: i32, grid: u32) -> int {
    if grid == 0 {
        x as int
    } else {
        let nearest = nearest_multiple(x as int, grid as int);
        if i32::MIN <= nearest <= i32::MAX {
            nearest
        } else {
            multiple_towards_zero(x as int, grid as int)
        }
    }
}

/// Snaps one coordinate to a grid of cell size `grid`.
pub fn snap_coordinate(x: i32, grid: u32) -> (r: i32)
    ensures
        r == snapped_coordinate(x, grid),
{
    if grid == 0 {
        return x;
    }
    let g: i64 = grid as i64;
    let magnitude: i64 = if x >= 0 {
        x as i64
    } else {
        -(x as i64)
    };
    let cells: i64 = (magnitude + g / 2) / g;
    let down: i64 = magnitude / g;
    assert(0 <= cells * g <= 0x1_8000_0000 && 0 <= down * g <= magnitude) by (nonlinear_arith)
        requires
            0 <= magnitude <= 0x8000_0000,
            0 < g <= 0xffff_ffff,
            cells == (magnitude + g / 2) / (g as int),
            down == (magnitude as int) / (g as int),
    ;
    let nearest: i64 = if x >= 0 {
        cells * g
    } else {
        -(cells * g)
    };
    if nearest >= i32::MIN as i64 && nearest <= i32::MAX as i64 {
        nearest as i32
    } else if x >= 0 {
        (down * g) as i32
    } else {
        (-(down * g)) as i32
    }
}

/// Things that can be aligned with a grid.
pub trait SnapToGrid: Sized {
    /// `self` aligned with a grid of cell size `grid_size`.
    spec fn snapped(self, grid_size: u32) -> Self;

    /// Aligns `self` with a grid of cell size `grid_size`.
    fn snap_to_grid(self, grid_size: u32) -> (r: Self)
        ensures
            r == self.snapped(grid_size),
    ;
}

impl SnapToGrid for Point {
    open spec fn snapped(self, grid_size: u32) -> Point {
        Point {
            x: snapped_coordinate(self.x, grid_size) as i32,
            y: snapped_coordinate(self.y, grid_size) as i32,
        }
    }

    fn snap_to_grid(self, grid_size: u32) -> (r: Point) {
        Point { x: snap_coordinate(self.x, grid_size), y: snap_coordinate(self.y, grid_size) }
    }
}

} // verus!
