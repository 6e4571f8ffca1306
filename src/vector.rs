//! Integer 3D vectors and the few operations the library needs on them.
use vstd::prelude::*;

verus! {

/// A vector with integer components.
#[derive(Clone, Copy, Debug, PartialEq, Eq, Structural)]
pub struct IVec3 {
    pub x: i64,
    pub y: i64,
    pub z: i64,
}

impl IVec3 {
    /// The components as mathematical integers.
    pub open spec fn view(&self) -> (int, int, int) {
        (self.x as int, self.y as int, self.z as int)
    }

    pub fn new(x: i64, y: i64, z: i64) -> (v: IVec3)
        ensures
            v.x == x && v.y == y && v.z == z,
    {
        IVec3 { x, y, z }
    }
}

/// Every component lies in `-bound..=bound`.
pub open spec fn bounded_by(v: (int, int, int), bound: int) -> bool {
    -bound <= v.0 <= bound && -bound <= v.1 <= bound && -bound <= v.2 <= bound
}

/// The components rotated one place: `(y, z, x)`.
pub open spec fn yzx_of(v: (int, int, int)) -> (int, int, int) {
    (v.1, v.2, v.0)
}

/// The cross product `u × v`.
pub open spec fn cross_of(u: (int, int, int), v: (int, int, int)) -> (int, int, int) {
    (u.1 * v.2 - u.2 * v.1, u.2 * v.0 - u.0 * v.2, u.0 * v.1 - u.1 * v.0)
}

/// The dot product `u · v`.
pub open spec fn dot_of(u: (int, int, int), v: (int, int, int)) -> int {
    u.0 * v.0 + u.1 * v.1 + u.2 * v.2
}

/// The difference `u - v`.
pub open spec fn sub_of(u: (int, int, int), v: (int, int, int)) -> (int, int, int) {
    (u.0 - v.0, u.1 - v.1, u.2 - v.2)
}

/// Rotates the components one place, as a swizzle `yzx` does.
pub fn yzx(v: IVec3) -> (r: IVec3)
    ensures
        r@ == yzx_of(v@),
{
    IVec3 { x: v.y, y: v.z, z: v.x }
}

/// Product of a small coefficient and a bounded integer.
pub fn small_mul(c: i64, k: i64) -> (p: i64)
    requires
        -2 <= c <= 2,
        -1_000_000_000 <= k <= 1_000_000_000,
    ensures
        p == c * k,
        -2 * 1_000_000_000 <= p <= 2 * 1_000_000_000,
{
    proof {
        assert(-2 * 1_000_000_000 <= c * k <= 2 * 1_000_000_000) by (nonlinear_arith)
            requires
                -2 <= c <= 2,
                -1_000_000_000 <= k <= 1_000_000_000,
        ;
    }
    c * k
}

/// The cross product of two vectors whose components are -1, 0 or 1.
pub fn cross(u: IVec3, v: IVec3) -> (r: IVec3)
    requires
        bounded_by(u@, 1),
        bounded_by(v@, 1),
    ensures
        r@ == cross_of(u@, v@),
        bounded_by(r@, 2),
{
    let a = small_mul(u.y, v.z);
    let b = small_mul(u.z, v.y);
    let c = small_mul(u.z, v.x);
    let d = small_mul(u.x, v.z);
    let e = small_mul(u.x, v.y);
    let f = small_mul(u.y, v.x);
    proof {
        assert(-1 <= a <= 1 && -1 <= b <= 1 && -1 <= c <= 1 && -1 <= d <= 1 && -1 <= e <= 1
            && -1 <= f <= 1) by (nonlinear_arith)
            requires
                a == u.y * v.z,
                b == u.z * v.y,
                c == u.z * v.x,
                d == u.x * v.z,
                e == u.x * v.y,
                f == u.y * v.x,
                -1 <= u.x <= 1,
                -1 <= u.y <= 1,
                -1 <= u.z <= 1,
                -1 <= v.x <= 1,
                -1 <= v.y <= 1,
                -1 <= v.z <= 1,
        ;
    }
    IVec3 { x: a - b, y: c - d, z: e - f }
}

} // verus!
