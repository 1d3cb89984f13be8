//! Fixed-point space: lengths are whole numbers of thousandths of a world
//! unit, so that distances compare exactly.

use vstd::arithmetic::div_mod::{lemma_fundamental_div_mod, lemma_fundamental_div_mod_converse};
use vstd::prelude::*;

verus! {

/// The fixed-point representation of one world unit.
pub const UNIT: i32 = 1000;

/// A point or a displacement in space, in thousandths of a world unit.
#[derive(Clone, Copy, Debug, PartialEq, Eq, Structural)]
pub struct Vector3 {
    pub x: i32,
    pub y: i32,
    pub z: i32,
}

/// The square of `d`.
pub open spec fn square(d: int) -> int {
    d * d
}

impl Vector3 {
    /// The square of the distance between two points.
    pub open spec fn spec_distance_squared(self, other: Vector3) -> int {
        square(self.x - other.x) + square(self.y - other.y) + square(self.z - other.z)
    }

    /// The point with the given coordinates.
    pub fn new(x: i32, y: i32, z: i32) -> (point: Vector3)
        ensures
            point == (Vector3 { x, y, z }),
    {
        Vector3 { x, y, z }
    }

    /// The origin.
    pub fn zero() -> (point: Vector3)
        ensures
            point == (Vector3 { x: 0, y: 0, z: 0 }),
    {
        Vector3 { x: 0, y: 0, z: 0 }
    }

    /// The square of the distance between two points. No root is taken, so
    /// the value is exact.
    pub fn distance_squared(self, other: Vector3) -> (d: u128)
        ensures
            d == self.spec_distance_squared(other),
            d <= 0x3_0000_0000_0000_0000,
    {
        let dx: i64 = self.x as i64 - other.x as i64;
        let dy: i64 = self.y as i64 - other.y as i64;
        let dz: i64 = self.z as i64 - other.z as i64;
        let sx: u128 = square_of(dx);
        let sy: u128 = square_of(dy);
        let sz: u128 = square_of(dz);
        sx + sy + sz
    }
}

/// The quotient of `a` by a positive `b`, rounded towards minus infinity.
pub fn floor_div(a: i128, b: i128) -> (q: i128)
    requires
        b > 0,
        a - b > i128::MIN,
    ensures
        q == a / b,
{
    if a >= 0 {
        a / b
    } else {
        let m: i128 = -a + b - 1;
        let up: i128 = m / b;
        proof {
            let r = m as int % b as int;
            lemma_fundamental_div_mod(m as int, b as int);
            assert(0 <= r < b) by (nonlinear_arith)
                requires
                    r == m as int % b as int,
                    b > 0,
            ;
            assert(a == (-up) * b + (b - 1 - r)) by (nonlinear_arith)
                requires
                    m == b * up + r,
                    m == -a + b - 1,
            ;
            lemma_fundamental_div_mod_converse(a as int, b as int, -(up as int), b - 1 - r);
        }
        -up
    }
}

/// A quotient lies between the bounds of what was divided.
pub proof fn lemma_floor_div_bounds(a: int, b: int, low: int, high: int)
    requires
        b > 0,
        b * low <= a <= b * high,
    ensures
        low <= a / b <= high,
{
    lemma_fundamental_div_mod(a, b);
    let q = a / b;
    let r = a % b;
    assert(0 <= r < b) by (nonlinear_arith)
        requires
            r == a % b,
            b > 0,
    ;
    assert(low <= q && q <= high) by (nonlinear_arith)
        requires
            a == b * q + r,
            0 <= r < b,
            b * low <= a <= b * high,
    ;
}

/// The square of a difference of two coordinates.
fn square_of(d: i64) -> (s: u128)
    requires
        -0x1_0000_0000 < d < 0x1_0000_0000,
    ensures
        s == square(d as int),
        s <= 0x1_0000_0000_0000_0000,
{
    let m: u128 = if d < 0 {
        (-d) as u128
    } else {
        d as u128
    };
    assert(m * m == d * d && m * m <= 0x1_0000_0000_0000_0000) by (nonlinear_arith)
        requires
            m == d || m == -d,
            0 <= m <= 0x1_0000_0000,
    ;
    m * m
}

} // verus!
