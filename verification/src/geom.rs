//! Fixed-point plane geometry: truncating scaled division, integer square
//! root, clamping, and the 2D vector that every entity position uses.

use vstd::prelude::*;
use vstd::arithmetic::div_mod::{
    lemma_div_is_ordered, lemma_div_multiples_vanish, lemma_div_nonincreasing, lemma_div_of0,
    lemma_div_pos_is_pos,
};

verus! {

/// Coordinates are kept within this many milli-pixels of the origin; the
/// playfield is far smaller, the bound only keeps arithmetic in range.
pub const COORD_LIMIT: i64 = 1_000_000_000;

/// Velocities are kept within this many milli-pixels per second.
pub const VEL_LIMIT: i64 = 1_000_000_000;

/// Truncating (round-toward-zero) division, the semantics of Rust's `/`.
pub open spec fn qdiv(p: int, d: int) -> int {
    if p >= 0 {
        p / d
    } else {
        -((-p) / d)
    }
}

pub open spec fn clamp_spec(v: int, lo: int, hi: int) -> int {
    if v < lo {
        lo
    } else if v > hi {
        hi
    } else {
        v
    }
}

pub open spec fn abs_spec(v: int) -> int {
    if v < 0 {
        -v
    } else {
        v
    }
}

pub open spec fn is_sqrt_floor(n: int, r: int) -> bool {
    &&& 0 <= r
    &&& r * r <= n
    &&& n < (r + 1) * (r + 1)
}

/// The rounded-down square root of `n`.
pub open spec fn sqrt_floor(n: int) -> int {
    choose|r: int| is_sqrt_floor(n, r)
}

proof fn lemma_sqrt_floor_exists_rec(n: int) -> (r: int)
    requires
        n >= 0,
    ensures
        is_sqrt_floor(n, r),
    decreases n,
{
    if n == 0 {
        assert(0 * 0 <= 0 && 0 < 1 * 1) by (nonlinear_arith);
        0
    } else {
        let r0 = lemma_sqrt_floor_exists_rec(n - 1);
        if n < (r0 + 1) * (r0 + 1) {
            assert(r0 * r0 <= n);
            r0
        } else {
            assert(n == (r0 + 1) * (r0 + 1));
            assert((r0 + 1) * (r0 + 1) < (r0 + 2) * (r0 + 2)) by (nonlinear_arith)
                requires r0 >= 0;
            r0 + 1
        }
    }
}

pub proof fn lemma_sqrt_floor(n: int)
    requires
        n >= 0,
    ensures
        is_sqrt_floor(n, sqrt_floor(n)),
{
    let w = lemma_sqrt_floor_exists_rec(n);
    assert(exists|r: int| is_sqrt_floor(n, r));
}

pub proof fn lemma_sqrt_floor_unique(n: int, a: int, b: int)
    requires
        is_sqrt_floor(n, a),
        is_sqrt_floor(n, b),
    ensures
        a == b,
{
    if a < b {
        assert((a + 1) * (a + 1) <= b * b) by (nonlinear_arith)
            requires 0 <= a, 0 <= b, a < b;
        assert(false);
    }
    if b < a {
        assert((b + 1) * (b + 1) <= a * a) by (nonlinear_arith)
            requires 0 <= a, 0 <= b, b < a;
        assert(false);
    }
}

/// Truncating division of the product `a * m` by `d`, computed without
/// overflow.  `m == 0` is allowed and gives 0.
pub fn mul_div(a: i64, m: i64, d: i64) -> (r: i64)
    requires
        0 <= m,
        0 < d,
        -4_000_000_000_000_000_000 <= a * m <= 4_000_000_000_000_000_000,
    ensures
        r == qdiv(a * m, d as int),
        abs_spec(r as int) <= abs_spec(a * m),
{
    if m == 0 {
        proof {
            assert(a * m == 0) by (nonlinear_arith)
                requires m == 0;
            lemma_div_of0(d as int);
        }
        return 0;
    }
    if a < 0 {
        proof {
            assert((-(a as int)) * (m as int) == -((a as int) * (m as int))) by (nonlinear_arith);
            assert(a * m < 0) by (nonlinear_arith)
                requires a < 0, m >= 1;
            assert(a as int >= -4_000_000_000_000_000_000) by (nonlinear_arith)
                requires a < 0, m >= 1, a * m >= -4_000_000_000_000_000_000;
        }
        let au: u64 = (-a) as u64;
        let p: u64 = au * (m as u64);
        let q: u64 = p / (d as u64);
        proof {
            assert(p == -(a * m));
            lemma_div_pos_is_pos(p as int, d as int);
            lemma_div_nonincreasing(p as int, d as int);
        }
        -(q as i64)
    } else {
        proof {
            assert(a * m >= 0) by (nonlinear_arith)
                requires a >= 0, m >= 1;
        }
        let au: u64 = a as u64;
        let p: u64 = au * (m as u64);
        let q: u64 = p / (d as u64);
        proof {
            lemma_div_pos_is_pos(p as int, d as int);
            lemma_div_nonincreasing(p as int, d as int);
        }
        q as i64
    }
}

/// A quotient is bounded by any multiple-of-the-divisor bound on the
/// dividend.
pub proof fn lemma_qdiv_bound(p: int, d: int, m: int)
    requires
        0 < d,
        0 <= m,
        abs_spec(p) <= m * d,
    ensures
        -m <= qdiv(p, d) <= m,
{
    if p >= 0 {
        lemma_div_is_ordered(p, m * d, d);
        lemma_div_multiples_vanish(m, d);
        lemma_div_pos_is_pos(p, d);
        assert(m * d == d * m) by (nonlinear_arith);
    } else {
        lemma_div_is_ordered(-p, m * d, d);
        lemma_div_multiples_vanish(m, d);
        lemma_div_pos_is_pos(-p, d);
        assert(m * d == d * m) by (nonlinear_arith);
    }
}

/// Euclidean remainder for a non-negative dividend.
pub fn remu(a: i64, b: i64) -> (r: i64)
    requires
        0 <= a,
        0 < b,
    ensures
        r == a % b,
        0 <= r < b,
{
    ((a as u64) % (b as u64)) as i64
}

pub fn clamp64(v: i64, lo: i64, hi: i64) -> (r: i64)
    requires
        lo <= hi,
    ensures
        r == clamp_spec(v as int, lo as int, hi as int),
{
    if v < lo {
        lo
    } else if v > hi {
        hi
    } else {
        v
    }
}

/// Keeps a coordinate inside the representable band; the playfield never
/// comes near this bound, it only guards the arithmetic.
pub fn sat_coord(v: i64) -> (r: i64)
    ensures
        r == clamp_spec(v as int, -COORD_LIMIT as int, COORD_LIMIT as int),
{
    clamp64(v, -COORD_LIMIT, COORD_LIMIT)
}

/// Rounded-down square root, by bisection.
pub fn isqrt64(n: u64) -> (r: u64)
    requires
        n < 9_000_000_000_000_000_000,
    ensures
        r == sqrt_floor(n as int),
        is_sqrt_floor(n as int, r as int),
{
    let mut lo: u64 = 0;
    let mut hi: u64 = 3_000_000_000;
    proof {
        assert((3_000_000_000int) * 3_000_000_000 == 9_000_000_000_000_000_000) by (nonlinear_arith);
    }
    while lo + 1 < hi
        invariant
            lo < hi <= 3_000_000_000,
            (lo as int) * (lo as int) <= n as int,
            (n as int) < (hi as int) * (hi as int),
        decreases hi - lo,
    {
        let mid: u64 = lo + (hi - lo) / 2;
        proof {
            assert((mid as int) * (mid as int) <= 9_000_000_000_000_000_000) by (nonlinear_arith)
                requires 0 <= mid as int <= 3_000_000_000int;
        }
        if mid * mid <= n {
            lo = mid;
        } else {
            hi = mid;
        }
    }
    proof {
        assert(is_sqrt_floor(n as int, lo as int));
        lemma_sqrt_floor(n as int);
        lemma_sqrt_floor_unique(n as int, lo as int, sqrt_floor(n as int));
    }
    lo
}

/// A plane point or velocity in milli-pixels (per second, for velocities).
#[derive(Clone, Copy, PartialEq, Eq, Structural, Debug)]
pub struct Vec2 {
    pub x: i64,
    pub y: i64,
}

impl Vec2 {
    pub open spec fn coords_bounded(self) -> bool {
        &&& -COORD_LIMIT <= self.x <= COORD_LIMIT
        &&& -COORD_LIMIT <= self.y <= COORD_LIMIT
    }

    pub open spec fn vel_bounded(self) -> bool {
        &&& -VEL_LIMIT <= self.x <= VEL_LIMIT
        &&& -VEL_LIMIT <= self.y <= VEL_LIMIT
    }

    pub fn new(x: i64, y: i64) -> (v: Vec2)
        ensures
            v.x == x,
            v.y == y,
    {
        Vec2 { x, y }
    }

    pub fn zero() -> (v: Vec2)
        ensures
            v.x == 0,
            v.y == 0,
    {
        Vec2 { x: 0, y: 0 }
    }
}

/// Squared Euclidean distance.
pub open spec fn dist_sq_spec(a: Vec2, b: Vec2) -> int {
    (a.x - b.x) * (a.x - b.x) + (a.y - b.y) * (a.y - b.y)
}

pub fn dist_sq(a: &Vec2, b: &Vec2) -> (r: i64)
    requires
        a.coords_bounded(),
        b.coords_bounded(),
    ensures
        r == dist_sq_spec(*a, *b),
        0 <= r <= 8_000_000_000_000_000_000,
{
    let dx: i64 = a.x - b.x;
    let dy: i64 = a.y - b.y;
    proof {
        assert(0 <= (dx as int) * (dx as int) <= 4_000_000_000_000_000_000) by (nonlinear_arith)
            requires -2_000_000_000 <= dx as int <= 2_000_000_000int;
        assert(0 <= (dy as int) * (dy as int) <= 4_000_000_000_000_000_000) by (nonlinear_arith)
            requires -2_000_000_000 <= dy as int <= 2_000_000_000int;
    }
    dx * dx + dy * dy
}

/// One component of the length-1000 vector pointing the way of `(x, y)`.
pub open spec fn unit_comp_spec(c: int, x: int, y: int) -> int {
    qdiv(c * 1000, sqrt_floor(x * x + y * y))
}

proof fn lemma_abs_le_sqrt(c: int, n: int, len: int)
    requires
        c * c <= n,
        is_sqrt_floor(n, len),
    ensures
        abs_spec(c) <= len,
{
    if abs_spec(c) > len {
        assert((len + 1) * (len + 1) <= abs_spec(c) * abs_spec(c)) by (nonlinear_arith)
            requires 0 <= len, len + 1 <= abs_spec(c);
        assert(abs_spec(c) * abs_spec(c) == c * c) by (nonlinear_arith);
        assert(false);
    }
}

proof fn lemma_unit_comp_bounded(c: int, x: int, y: int)
    requires
        c == x || c == y,
        x * x + y * y >= 1,
        is_sqrt_floor(x * x + y * y, sqrt_floor(x * x + y * y)),
    ensures
        -1000 <= unit_comp_spec(c, x, y) <= 1000,
{
    let n = x * x + y * y;
    let len = sqrt_floor(n);
    assert(len >= 1) by (nonlinear_arith)
        requires
            0 <= len,
            n < (len + 1) * (len + 1),
            n >= 1,
    ;
    assert(c * c <= n) by (nonlinear_arith)
        requires
            c == x || c == y,
            n == x * x + y * y,
    ;
    lemma_abs_le_sqrt(c, n, len);
    let a = abs_spec(c);
    assert(a * 1000 <= len * 1000);
    lemma_div_is_ordered(a * 1000, len * 1000, len);
    lemma_div_multiples_vanish(1000, len);
    assert(len * 1000 == 1000 * len);
    assert((a * 1000) / len <= 1000);
    lemma_div_pos_is_pos(a * 1000, len);
    if c >= 0 {
        assert(c * 1000 == a * 1000);
        assert(unit_comp_spec(c, x, y) == (a * 1000) / len);
    } else {
        assert(-(c * 1000) == a * 1000);
        assert(unit_comp_spec(c, x, y) == -((a * 1000) / len));
    }
}

/// The vector of length about 1000 pointing the way of `(x, y)`, truncated
/// toward zero componentwise.  `(x, y)` must not be the zero vector.
pub fn unit_scaled(x: i64, y: i64) -> (u: Vec2)
    requires
        -2_100_000_000 <= x <= 2_100_000_000,
        -2_100_000_000 <= y <= 2_100_000_000,
        !(x == 0 && y == 0),
    ensures
        u.x == unit_comp_spec(x as int, x as int, y as int),
        u.y == unit_comp_spec(y as int, x as int, y as int),
        -1000 <= u.x <= 1000,
        -1000 <= u.y <= 1000,
{
    proof {
        assert(0 <= (x as int) * (x as int) <= 4_410_000_000_000_000_000) by (nonlinear_arith)
            requires -2_100_000_000 <= x as int <= 2_100_000_000int;
        assert(0 <= (y as int) * (y as int) <= 4_410_000_000_000_000_000) by (nonlinear_arith)
            requires -2_100_000_000 <= y as int <= 2_100_000_000int;
    }
    let s: i64 = x * x + y * y;
    proof {
        assert(s >= 1) by (nonlinear_arith)
            requires
                s == (x as int) * (x as int) + (y as int) * (y as int),
                !(x == 0 && y == 0),
        ;
    }
    let len: u64 = isqrt64(s as u64);
    proof {
        assert(len as int >= 1) by (nonlinear_arith)
            requires
                0 <= len as int,
                (s as int) < ((len as int) + 1) * ((len as int) + 1),
                s as int >= 1,
        ;
        assert(len as int <= 3_000_000_000) by (nonlinear_arith)
            requires
                (len as int) * (len as int) <= s as int,
                s as int <= 8_820_000_000_000_000_000,
        ;
    }
    let ux: i64 = mul_div(x, 1000, len as i64);
    let uy: i64 = mul_div(y, 1000, len as i64);
    proof {
        lemma_unit_comp_bounded(x as int, x as int, y as int);
        lemma_unit_comp_bounded(y as int, x as int, y as int);
    }
    Vec2 { x: ux, y: uy }
}

} // verus!
