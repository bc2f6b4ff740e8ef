//! Exact point-in-rectangle and point-in-triangle tests.
//!
//! The triangle test solves `p = p0 + (p1 - p0) * s + (p2 - p0) * t` for the
//! barycentric coordinates `s` and `t` and accepts the point when
//! `s >= 0`, `t >= 0` and `s + t <= 1`.  Over the integers the division by
//! twice the signed triangle area is avoided by multiplying the three
//! conditions through by it, minding its sign; a degenerate triangle (zero
//! area) contains no point.

use vstd::prelude::*;

verus! {

/// Largest coordinate the triangle test accepts; differences of two such
/// values and their products stay far inside `i128`.
pub const GEO_LIMIT: i64 = 4_000_000_000_000;

/// Whether `(x, y)` lies in the axis-aligned rectangle, all bounds inclusive.
pub open spec fn in_rect(x: int, y: int, left: int, bottom: int, right: int, top: int) -> bool {
    left <= x && x <= right && bottom <= y && y <= top
}

/// Twice the signed area of the triangle `(p0, p1, p2)`.
pub open spec fn tri_d(p0x: int, p0y: int, p1x: int, p1y: int, p2x: int, p2y: int) -> int {
    -p1y * p2x + p0y * (-p1x + p2x) + p0x * (p1y - p2y) + p1x * p2y
}

/// The barycentric coordinate `s` of `(x, y)`, multiplied by `tri_d`.
pub open spec fn tri_s_num(x: int, y: int, p0x: int, p0y: int, p2x: int, p2y: int) -> int {
    p0y * p2x - p0x * p2y + (p2y - p0y) * x + (p0x - p2x) * y
}

/// The barycentric coordinate `t` of `(x, y)`, multiplied by `tri_d`.
pub open spec fn tri_t_num(x: int, y: int, p0x: int, p0y: int, p1x: int, p1y: int) -> int {
    p0x * p1y - p0y * p1x + (p0y - p1y) * x + (p1x - p0x) * y
}

/// Whether `(x, y)` lies in the triangle `(p0, p1, p2)`: the barycentric
/// conditions `s >= 0 && t >= 0 && s + t <= 1`, multiplied through by
/// `tri_d`.  A degenerate triangle contains no point.
pub open spec fn in_tri(
    x: int, y: int, p0x: int, p0y: int, p1x: int, p1y: int, p2x: int, p2y: int,
) -> bool {
    let d = tri_d(p0x, p0y, p1x, p1y, p2x, p2y);
    let s = tri_s_num(x, y, p0x, p0y, p2x, p2y);
    let t = tri_t_num(x, y, p0x, p0y, p1x, p1y);
    if d > 0 {
        s >= 0 && t >= 0 && s + t <= d
    } else if d < 0 {
        s <= 0 && t <= 0 && s + t >= d
    } else {
        false
    }
}

/// A point is in a box when its coordinates are smaller or equal than the
/// top right corner and larger or equal than the bottom left corner.
pub fn point_in_rect(x: i64, y: i64, left: i64, bottom: i64, right: i64, top: i64) -> (r: bool)
    ensures
        r == in_rect(x as int, y as int, left as int, bottom as int, right as int, top as int),
{
    x >= left && x <= right && y >= bottom && y <= top
}

/// Multiplies two factors that came from differences of bounded coordinates;
/// the bound keeps sums of a few such products inside `i128`.
fn mul_coord(a: i128, b: i128) -> (r: i128)
    requires
        -16_000_000_000_000 <= a <= 16_000_000_000_000,
        -16_000_000_000_000 <= b <= 16_000_000_000_000,
    ensures
        r == a * b,
        -256_000_000_000_000_000_000_000_000 <= r <= 256_000_000_000_000_000_000_000_000,
{
    proof {
        assert(-256_000_000_000_000_000_000_000_000 <= a * b
            <= 256_000_000_000_000_000_000_000_000) by (nonlinear_arith)
            requires
                -16_000_000_000_000 <= a <= 16_000_000_000_000,
                -16_000_000_000_000 <= b <= 16_000_000_000_000,
        ;
    }
    a * b
}

/// The executable barycentric test.
pub fn point_in_tri(
    x: i64, y: i64, p0x: i64, p0y: i64, p1x: i64, p1y: i64, p2x: i64, p2y: i64,
) -> (r: bool)
    requires
        -GEO_LIMIT <= x <= GEO_LIMIT,
        -GEO_LIMIT <= y <= GEO_LIMIT,
        -GEO_LIMIT <= p0x <= GEO_LIMIT,
        -GEO_LIMIT <= p0y <= GEO_LIMIT,
        -GEO_LIMIT <= p1x <= GEO_LIMIT,
        -GEO_LIMIT <= p1y <= GEO_LIMIT,
        -GEO_LIMIT <= p2x <= GEO_LIMIT,
        -GEO_LIMIT <= p2y <= GEO_LIMIT,
    ensures
        r == in_tri(
            x as int, y as int, p0x as int, p0y as int,
            p1x as int, p1y as int, p2x as int, p2y as int,
        ),
{
    let x = x as i128;
    let y = y as i128;
    let p0x = p0x as i128;
    let p0y = p0y as i128;
    let p1x = p1x as i128;
    let p1y = p1y as i128;
    let p2x = p2x as i128;
    let p2y = p2y as i128;
    let d = mul_coord(-p1y, p2x) + mul_coord(p0y, -p1x + p2x) + mul_coord(p0x, p1y - p2y)
        + mul_coord(p1x, p2y);
    let s = mul_coord(p0y, p2x) - mul_coord(p0x, p2y) + mul_coord(p2y - p0y, x)
        + mul_coord(p0x - p2x, y);
    let t = mul_coord(p0x, p1y) - mul_coord(p0y, p1x) + mul_coord(p0y - p1y, x)
        + mul_coord(p1x - p0x, y);
    if d > 0 {
        s >= 0 && t >= 0 && s + t <= d
    } else if d < 0 {
        s <= 0 && t <= 0 && s + t >= d
    } else {
        false
    }
}

} // verus!
