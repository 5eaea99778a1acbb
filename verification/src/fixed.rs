//! Fixed-point numbers and two-dimensional vectors.
//!
//! Lengths, coordinates and times are integers that count millionths: one map
//! unit is [`SCALE`] steps long and one second is [`SCALE`] steps long.
//! Quotients are rounded down.

use vstd::prelude::*;

verus! {

/// Number of steps in one map unit, and in one second.
pub const SCALE: i64 = 1_000_000;

/// Largest magnitude of a coordinate that the world holds.
pub const COORD_MAX: i64 = 1_000_000_000_000;

/// Whether `v` is a coordinate inside the world.
pub open spec fn in_world(v: int) -> bool {
    -(COORD_MAX as int) <= v <= COORD_MAX as int
}

/// The map cell that holds the coordinate `v`.
pub open spec fn cell_of(v: int) -> int {
    v / (SCALE as int)
}

/// Quotient of `a` by a positive `d`, rounded down.
pub fn div_floor(a: i128, d: i128) -> (q: i128)
    requires
        d > 0,
    ensures
        q == a as int / d as int,
{
    if a >= 0 {
        a / d
    } else {
        let m: i128 = -(a + 1);
        let t: i128 = m / d;
        proof {
            let ai: int = a as int;
            let di: int = d as int;
            let ti: int = t as int;
            assert(ti == (-ai - 1) / di);
            assert(ai / di == -ti - 1) by (nonlinear_arith)
                requires
                    di > 0,
                    ai < 0,
                    ti == (-ai - 1) / di,
            ;
        }
        -t - 1
    }
}

/// Product of two 64-bit values, which always fits in 128 bits.
pub fn wide_mul(a: i64, b: i64) -> (p: i128)
    ensures
        p == a as int * b as int,
        -0x4000_0000_0000_0000_0000_0000_0000_0000 <= p <= 0x4000_0000_0000_0000_0000_0000_0000_0000,
{
    assert(-0x4000_0000_0000_0000_0000_0000_0000_0000 <= a as int * b as int
        <= 0x4000_0000_0000_0000_0000_0000_0000_0000) by (nonlinear_arith)
        requires
            -0x8000_0000_0000_0000 <= a as int <= 0x7fff_ffff_ffff_ffff,
            -0x8000_0000_0000_0000 <= b as int <= 0x7fff_ffff_ffff_ffff,
    ;
    (a as i128) * (b as i128)
}

/// Product of two fixed-point values as a fixed-point value.
pub open spec fn fx_mul(a: int, b: int) -> int {
    (a * b) / (SCALE as int)
}

/// Computes [`fx_mul`].
pub fn scale_mul(a: i64, b: i64) -> (r: i128)
    ensures
        r == fx_mul(a as int, b as int),
        -0x4000_0000_0000_0000_0000_0000_0000_0000 <= r <= 0x4000_0000_0000_0000_0000_0000_0000_0000,
{
    let p: i128 = wide_mul(a, b);
    div_floor(p, SCALE as i128)
}

/// The map cell that holds the coordinate `v`.
pub fn cell_index(v: i64) -> (c: i64)
    ensures
        c == cell_of(v as int),
{
    let q: i128 = div_floor(v as i128, SCALE as i128);
    q as i64
}

/// Whether `r` is the square root of `n`, rounded down.
pub open spec fn is_sqrt(n: int, r: int) -> bool {
    r >= 0 && r * r <= n && n < (r + 1) * (r + 1)
}

/// The square root of `n`, rounded down.
pub open spec fn sqrt_floor(n: int) -> int {
    choose|r: int| is_sqrt(n, r)
}

/// A number has at most one rounded-down square root.
pub proof fn lemma_sqrt_unique(n: int, r: int)
    requires
        is_sqrt(n, r),
    ensures
        sqrt_floor(n) == r,
{
    let s: int = sqrt_floor(n);
    assert(is_sqrt(n, s));
    assert(s == r) by (nonlinear_arith)
        requires
            s >= 0,
            r >= 0,
            s * s <= n,
            n < (s + 1) * (s + 1),
            r * r <= n,
            n < (r + 1) * (r + 1),
    ;
}

/// Largest argument of [`int_sqrt`].
pub const SQRT_MAX: u128 = 0x1_0000_0000_0000_0000_0000_0000_0000;

/// Computes the square root of `n`, rounded down, by bisection.
pub fn int_sqrt(n: u128) -> (r: u64)
    requires
        n < SQRT_MAX,
    ensures
        is_sqrt(n as int, r as int),
        r == sqrt_floor(n as int),
        r < 0x100_0000_0000_0000,
{
    let mut lo: u128 = 0;
    let mut hi: u128 = 0x100_0000_0000_0000;
    assert(0x100_0000_0000_0000int * 0x100_0000_0000_0000int == 0x1_0000_0000_0000_0000_0000_0000_0000int)
        by (nonlinear_arith);
    while hi - lo > 1
        invariant
            lo < hi <= 0x100_0000_0000_0000,
            lo * lo <= n,
            n < hi * hi,
        decreases hi - lo,
    {
        let mid: u128 = lo + (hi - lo) / 2;
        assert(mid * mid < 0x1_0000_0000_0000_0000_0000_0000_0000int) by (nonlinear_arith)
            requires
                0 <= mid < 0x100_0000_0000_0000,
        ;
        if mid * mid <= n {
            lo = mid;
        } else {
            hi = mid;
        }
    }
    proof {
        assert(hi == lo + 1);
        lemma_sqrt_unique(n as int, lo as int);
    }
    lo as u64
}

/// A point or a displacement on the map, in fixed-point steps.
#[derive(Clone, Copy, Debug, PartialEq, Eq, Structural)]
pub struct Vec2 {
    pub x: i64,
    pub y: i64,
}

impl Vec2 {
    /// Both coordinates lie inside the world.
    pub open spec fn wf(self) -> bool {
        in_world(self.x as int) && in_world(self.y as int)
    }

    /// The squared length.
    pub open spec fn norm_sq(self) -> int {
        self.x * self.x + self.y * self.y
    }

    /// The squared distance to `other`.
    pub open spec fn dist_sq(self, other: Vec2) -> int {
        (self.x - other.x) * (self.x - other.x) + (self.y - other.y) * (self.y - other.y)
    }

    /// The length, rounded down.
    pub open spec fn norm(self) -> int {
        sqrt_floor(self.norm_sq())
    }

    /// The vector of length one map unit in the same direction, each
    /// coordinate rounded down; the zero vector stays zero.
    pub open spec fn unit(self) -> Vec2 {
        if self.norm() == 0 {
            Vec2 { x: 0, y: 0 }
        } else {
            Vec2 {
                x: ((self.x * SCALE) / self.norm()) as i64,
                y: ((self.y * SCALE) / self.norm()) as i64,
            }
        }
    }

    pub fn new(x: i64, y: i64) -> (v: Vec2)
        ensures
            v.x == x,
            v.y == y,
    {
        Vec2 { x, y }
    }

    /// The point `x` and `y` whole map units from the origin.
    pub fn from_units(x: i32, y: i32) -> (v: Vec2)
        ensures
            v.x == x * SCALE,
            v.y == y * SCALE,
            -1_000_000 <= x <= 1_000_000 && -1_000_000 <= y <= 1_000_000 ==> v.wf(),
    {
        Vec2 { x: (x as i64) * SCALE, y: (y as i64) * SCALE }
    }

    /// Whether both coordinates lie inside the world.
    pub fn in_bounds(&self) -> (b: bool)
        ensures
            b == self.wf(),
    {
        -COORD_MAX <= self.x && self.x <= COORD_MAX && -COORD_MAX <= self.y && self.y <= COORD_MAX
    }

    /// The squared distance between two points of the world.
    pub fn distance_squared(&self, other: &Vec2) -> (d: u128)
        requires
            self.wf(),
            other.wf(),
        ensures
            d == self.dist_sq(*other),
            d <= 8_000_000_000_000_000_000_000_000,
    {
        let dx: i64 = self.x - other.x;
        let dy: i64 = self.y - other.y;
        let xx: i128 = wide_mul(dx, dx);
        let yy: i128 = wide_mul(dy, dy);
        assert(0 <= dx as int * dx as int <= 4_000_000_000_000_000_000_000_000) by (nonlinear_arith)
            requires
                -2_000_000_000_000 <= dx as int <= 2_000_000_000_000,
        ;
        assert(0 <= dy as int * dy as int <= 4_000_000_000_000_000_000_000_000) by (nonlinear_arith)
            requires
                -2_000_000_000_000 <= dy as int <= 2_000_000_000_000,
        ;
        (xx + yy) as u128
    }

    /// The squared length of a displacement between two points of the world.
    pub fn length_squared(&self) -> (d: u128)
        requires
            -2 * COORD_MAX <= self.x <= 2 * COORD_MAX,
            -2 * COORD_MAX <= self.y <= 2 * COORD_MAX,
        ensures
            d == self.norm_sq(),
            d <= 8_000_000_000_000_000_000_000_000,
    {
        let xx: i128 = wide_mul(self.x, self.x);
        let yy: i128 = wide_mul(self.y, self.y);
        assert(0 <= self.x as int * self.x as int <= 4_000_000_000_000_000_000_000_000) by (nonlinear_arith)
            requires
                -2_000_000_000_000 <= self.x as int <= 2_000_000_000_000,
        ;
        assert(0 <= self.y as int * self.y as int <= 4_000_000_000_000_000_000_000_000) by (nonlinear_arith)
            requires
                -2_000_000_000_000 <= self.y as int <= 2_000_000_000_000,
        ;
        (xx + yy) as u128
    }

    /// The length, rounded down.
    pub fn length(&self) -> (r: i64)
        requires
            -2 * COORD_MAX <= self.x <= 2 * COORD_MAX,
            -2 * COORD_MAX <= self.y <= 2 * COORD_MAX,
        ensures
            r == self.norm(),
            is_sqrt(self.norm_sq(), r as int),
            0 <= r <= 3 * COORD_MAX,
            r >= self.x && r >= -self.x && r >= self.y && r >= -self.y,
    {
        let n: u128 = self.length_squared();
        let r: u64 = int_sqrt(n);
        proof {
            let ri: int = r as int;
            let xi: int = self.x as int;
            let yi: int = self.y as int;
            assert(ri <= 3_000_000_000_000 && ri >= xi && ri >= -xi && ri >= yi && ri >= -yi)
                by (nonlinear_arith)
                requires
                    ri >= 0,
                    ri * ri <= xi * xi + yi * yi,
                    xi * xi + yi * yi < (ri + 1) * (ri + 1),
                    xi * xi + yi * yi <= 8_000_000_000_000_000_000_000_000,
            ;
        }
        r as i64
    }

    /// The vector of length one map unit in the same direction; the zero
    /// vector stays zero.
    pub fn normalize(&self) -> (u: Vec2)
        requires
            -2 * COORD_MAX <= self.x <= 2 * COORD_MAX,
            -2 * COORD_MAX <= self.y <= 2 * COORD_MAX,
        ensures
            u == self.unit(),
            -SCALE <= u.x <= SCALE,
            -SCALE <= u.y <= SCALE,
    {
        let len: i64 = self.length();
        if len == 0 {
            Vec2 { x: 0, y: 0 }
        } else {
            let nx: i128 = div_floor(wide_mul(self.x, SCALE), len as i128);
            let ny: i128 = div_floor(wide_mul(self.y, SCALE), len as i128);
            proof {
                lemma_unit_bound(self.x as int, len as int);
                lemma_unit_bound(self.y as int, len as int);
            }
            Vec2 { x: nx as i64, y: ny as i64 }
        }
    }
}

/// A coordinate divided by a length that is at least as large stays within
/// one map unit.
pub proof fn lemma_unit_bound(x: int, len: int)
    requires
        len > 0,
        -len <= x <= len,
    ensures
        -(SCALE as int) <= (x * SCALE) / len <= SCALE as int,
{
    let s: int = SCALE as int;
    let q: int = (x * s) / len;
    assert(-s <= q <= s) by (nonlinear_arith)
        requires
            len > 0,
            -len <= x <= len,
            s == 1_000_000,
            q == (x * s) / len,
    ;
}

} // verus!

verus! {

/// The product of two bounded numbers is bounded by the product of the
/// bounds.
pub proof fn lemma_mul_bound(a: int, b: int, ma: int, mb: int)
    requires
        -ma <= a <= ma,
        -mb <= b <= mb,
    ensures
        -(ma * mb) <= a * b <= ma * mb,
{
    assert(-(ma * mb) <= a * b <= ma * mb) by (nonlinear_arith)
        requires
            -ma <= a <= ma,
            -mb <= b <= mb,
    ;
}

/// A quotient by a divisor of at least one is no larger in magnitude than
/// what was divided.
pub proof fn lemma_div_bound(n: int, d: int, m: int)
    requires
        -m <= n <= m,
        d >= 1,
    ensures
        -m <= n / d <= m,
{
    assert(-m <= n / d <= m) by (nonlinear_arith)
        requires
            -m <= n <= m,
            d >= 1,
    ;
}

} // verus!

verus! {

/// `v` brought into the range of `i32`.
pub open spec fn clamp_i32(v: int) -> i32 {
    if v < i32::MIN {
        i32::MIN
    } else if v > i32::MAX {
        i32::MAX
    } else {
        v as i32
    }
}

/// Brings a value into the range of `i32`.
pub fn clamp_to_i32(v: i128) -> (r: i32)
    ensures
        r == clamp_i32(v as int),
{
    if v < i32::MIN as i128 {
        i32::MIN
    } else if v > i32::MAX as i128 {
        i32::MAX
    } else {
        v as i32
    }
}

} // verus!
