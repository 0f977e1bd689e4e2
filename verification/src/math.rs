//! Integer vectors and grid-space boxes.

use vstd::prelude::*;
use vstd::arithmetic::div_mod::lemma_fundamental_div_mod_converse;

verus! {

/// A pair of signed grid coordinates.
#[derive(Clone, Copy, Debug, PartialEq, Eq, Hash, Structural)]
pub struct IVec2 {
    pub x: i32,
    pub y: i32,
}

/// A triple of signed integers.
#[derive(Clone, Copy, Debug, PartialEq, Eq, Hash, Structural)]
pub struct IVec3 {
    pub x: i32,
    pub y: i32,
    pub z: i32,
}

/// Four signed integers, one per texture layer.
#[derive(Clone, Copy, Debug, PartialEq, Eq, Hash, Structural)]
pub struct IVec4 {
    pub x: i32,
    pub y: i32,
    pub z: i32,
    pub w: i32,
}

/// A pair of unsigned grid coordinates.
#[derive(Clone, Copy, Debug, PartialEq, Eq, Hash, Structural)]
pub struct UVec2 {
    pub x: u32,
    pub y: u32,
}

/// Four unsigned integers, one per texture layer.
#[derive(Clone, Copy, Debug, PartialEq, Eq, Hash, Structural)]
pub struct UVec4 {
    pub x: u32,
    pub y: u32,
    pub z: u32,
    pub w: u32,
}

/// A box of grid cells: `min` is its lowest cell, `max` lies one past its
/// highest cell in both directions.
#[derive(Clone, Copy, Debug, PartialEq, Eq, Structural)]
pub struct Aabb2d {
    pub min_x: i64,
    pub min_y: i64,
    pub max_x: i64,
    pub max_y: i64,
}

/// The largest integer `q` with `q * b <= a`, for a positive `b`.
pub open spec fn floor_div(a: int, b: int) -> int
    recommends
        b > 0,
{
    a / b
}

/// `floor_div` is the quotient that leaves a remainder in `0..b`.
pub proof fn lemma_floor_div_bounds(a: int, b: int)
    requires
        b > 0,
    ensures
        floor_div(a, b) * b <= a < floor_div(a, b) * b + b,
{
    vstd::arithmetic::div_mod::lemma_fundamental_div_mod(a, b);
    vstd::arithmetic::div_mod::lemma_mod_bound(a, b);
    assert(b * (a / b) == (a / b) * b) by (nonlinear_arith);
}

/// Any quotient that leaves a remainder in `0..b` is `floor_div`.
pub proof fn lemma_floor_div_unique(a: int, b: int, q: int)
    requires
        b > 0,
        q * b <= a < q * b + b,
    ensures
        q == floor_div(a, b),
{
    lemma_fundamental_div_mod_converse(a, b, q, a - q * b);
}

/// Divides rounding towards negative infinity.
pub fn div_to_floor(a: i32, b: i32) -> (q: i32)
    requires
        b > 0,
    ensures
        q == floor_div(a as int, b as int),
{
    if a >= 0 {
        let q: i32 = a / b;
        q
    } else {
        let m: i32 = -(a + 1);
        let k: i32 = m / b;
        let q: i32 = -k - 1;
        proof {
            let bi = b as int;
            let ki = k as int;
            lemma_floor_div_bounds(m as int, bi);
            assert(ki * bi <= m < ki * bi + bi);
            assert((-ki - 1) * bi == -(ki * bi) - bi) by (nonlinear_arith);
            lemma_floor_div_unique(a as int, bi, q as int);
        }
        q
    }
}

impl IVec2 {
    /// Both coordinates set to `v`.
    pub fn splat(v: i32) -> (r: IVec2)
        ensures
            r == (IVec2 { x: v, y: v }),
    {
        IVec2 { x: v, y: v }
    }

    /// Divides coordinate by coordinate, rounding towards negative infinity.
    pub fn div_to_floor(self, rhs: IVec2) -> (r: IVec2)
        requires
            rhs.x > 0,
            rhs.y > 0,
        ensures
            r.x == floor_div(self.x as int, rhs.x as int),
            r.y == floor_div(self.y as int, rhs.y as int),
    {
        IVec2 { x: div_to_floor(self.x, rhs.x), y: div_to_floor(self.y, rhs.y) }
    }
}

} // verus!
