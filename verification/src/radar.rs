//! Geometry of the character-grid radar: an ellipse of 21 × 11 cells centred
//! on column 10, row 5, twice as wide as tall to make up for the 2:1 shape of
//! terminal cells.

use vstd::prelude::*;

verus! {

pub const W: i32 = 21;
pub const H: i32 = 11;
pub const CX: i32 = 10;
pub const CY: i32 = 5;

/// 100 times the squared elliptical distance of cell `(col, row)` from the
/// centre: `((col - 10) / 10)² + ((row - 5) / 5)²`, scaled to an integer.
pub open spec fn dist100(col: int, row: int) -> int {
    (col - CX) * (col - CX) + 4 * (row - CY) * (row - CY)
}

fn dist100_of(col: i32, row: i32) -> (d: i128)
    ensures
        d == dist100(col as int, row as int),
{
    let dx = (col as i128) - (CX as i128);
    let dy = (row as i128) - (CY as i128);
    assert(dx * dx <= 0x1_0000_0000_0000_0000_0000) by (nonlinear_arith)
        requires
            -0x1_0000_0000 <= dx <= 0x1_0000_0000,
    ;
    assert(dy * dy <= 0x1_0000_0000_0000_0000_0000) by (nonlinear_arith)
        requires
            -0x1_0000_0000 <= dy <= 0x1_0000_0000,
    ;
    assert(dx * dx >= 0) by (nonlinear_arith);
    assert(dy * dy >= 0) by (nonlinear_arith);
    assert(4 * dy * dy == 4 * (dy * dy)) by (nonlinear_arith);
    dx * dx + 4 * (dy * dy)
}

/// Cell `(col, row)` lies inside the radar ellipse (its rim included).
pub fn in_circle(col: i32, row: i32) -> (b: bool)
    requires
        col >= i32::MIN + CX,
        row >= i32::MIN + CY,
    ensures
        b == (dist100(col as int, row as int) <= 100),
{
    dist100_of(col, row) <= 100
}

/// Cell `(col, row)` lies on the outer ring, where the squared distance is
/// between 0.85 and 1. The distance is compared in binary floating point, in
/// which `0.7² + 0.6²` falls just short of 0.85: the cells 7 columns and
/// 3 rows off the centre are therefore not on the ring, while those 9 columns
/// and 1 row off, at the same distance, are.
pub fn on_ring(col: i32, row: i32) -> (b: bool)
    requires
        col >= i32::MIN + CX,
        row >= i32::MIN + CY,
    ensures
        b == ((85 < dist100(col as int, row as int) <= 100) || (dist100(col as int, row as int)
            == 85 && (col - CX == 9 || col - CX == -9))),
{
    let d = dist100_of(col, row);
    (85 < d && d <= 100) || (d == 85 && (col as i128 - 10 == 9 || col as i128 - 10 == -9))
}

/// Cell `(col, row)` lies on the inner ring, where the squared distance is
/// between 0.21 and 0.28.
pub fn on_half_ring(col: i32, row: i32) -> (b: bool)
    requires
        col >= i32::MIN + CX,
        row >= i32::MIN + CY,
    ensures
        b == (21 <= dist100(col as int, row as int) <= 28),
{
    let d = dist100_of(col, row);
    21 <= d && d <= 28
}

} // verus!
