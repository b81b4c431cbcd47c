//! Fixed-point plane geometry: points, angle wrapping, and approximate
//! trigonometry.
//!
//! Angles are fixed-point radians.  The circle constant of the library is
//! [`TAU_FX`], exactly twice [`PI_FX`]; all wrapping is modular with respect
//! to it.  The sine, cosine and arc-tangent routines are deterministic
//! polynomial approximations whose contracts state their exact ranges.
use vstd::prelude::*;
use crate::fx::{abs_int, FX_ONE};
use vstd::arithmetic::div_mod::{lemma_div_is_ordered, lemma_div_multiples_vanish};

verus! {

/// Fixed-point approximation of the half circle.
pub const PI_FX: i64 = 3_141_593;

/// Fixed-point full circle: exactly twice `PI_FX`.
pub const TAU_FX: i64 = 6_283_186;

/// Fixed-point quarter circle.
pub const HALF_PI_FX: i64 = 1_570_796;

/// Fixed-point eighth circle.
pub const QUARTER_PI_FX: i64 = 785_398;

/// Linear correction coefficient of the arc-tangent approximation.
pub const ATAN_K_FX: i64 = 273_000;

/// A point of the unit arena, both coordinates fixed-point values.
#[derive(Clone, Copy, PartialEq, Eq, Structural, Debug)]
pub struct Point2 {
    pub x: i64,
    pub y: i64,
}

/// Whether a coordinate lies in the unit arena `[0, 1)`.
pub open spec fn unit_coord(v: i64) -> bool {
    0 <= v < FX_ONE
}

/// Whether a point lies in the unit arena `[0, 1) x [0, 1)`.
pub open spec fn unit_point(p: Point2) -> bool {
    unit_coord(p.x) && unit_coord(p.y)
}

/// Whether a point lies in the closed unit square `[0, 1] x [0, 1]`.
pub open spec fn closed_unit_point(p: Point2) -> bool {
    0 <= p.x <= FX_ONE && 0 <= p.y <= FX_ONE
}

/// Squared distance of two points, exact.
pub open spec fn sq_dist(a: Point2, b: Point2) -> int {
    (a.x - b.x) * (a.x - b.x) + (a.y - b.y) * (a.y - b.y)
}

/// Wrapping of a coordinate that moved at most one arena width.
pub open spec fn wrap_unit_spec(v: int) -> int {
    if v < 0 {
        v + FX_ONE
    } else if v >= FX_ONE as int {
        v - FX_ONE
    } else {
        v
    }
}

/// Wrapping of an angle that moved at most one turn.
pub open spec fn wrap_tau_spec(v: int) -> int {
    if v < 0 {
        v + TAU_FX
    } else if v >= TAU_FX as int {
        v - TAU_FX
    } else {
        v
    }
}

/// Wrapping of an angle difference into `[-pi, pi]`.
pub open spec fn wrap_to_pi_spec(v: int) -> int {
    if v < -(PI_FX as int) {
        v + TAU_FX
    } else {
        v
    }
}

/// Wrap a coordinate that moved at most one arena width back into `[0, 1)`.
pub fn wrap_unit(v: i64) -> (r: i64)
    requires
        -FX_ONE <= v < 2 * FX_ONE,
    ensures
        r as int == wrap_unit_spec(v as int),
        unit_coord(r),
{
    if v < 0 {
        v + FX_ONE
    } else if v >= FX_ONE {
        v - FX_ONE
    } else {
        v
    }
}

/// Wrap an angle that moved at most one turn back into `[0, tau)`.
pub fn wrap_tau(v: i64) -> (r: i64)
    requires
        -TAU_FX <= v < 2 * TAU_FX,
    ensures
        r as int == wrap_tau_spec(v as int),
        0 <= r < TAU_FX,
{
    if v < 0 {
        v + TAU_FX
    } else if v >= TAU_FX {
        v - TAU_FX
    } else {
        v
    }
}

/// Wrap an angle difference into `[-pi, pi]`.
pub fn wrap_to_pi(v: i64) -> (r: i64)
    requires
        -(PI_FX + TAU_FX) <= v <= PI_FX,
    ensures
        r as int == wrap_to_pi_spec(v as int),
        -PI_FX <= r <= PI_FX,
{
    if v < -PI_FX {
        v + TAU_FX
    } else {
        v
    }
}

/// A quotient is bounded by any multiple bound of its dividend.
pub(crate) proof fn lemma_div_le(a: int, b: int, d: int)
    requires
        d > 0,
        0 <= a,
        a <= b * d,
    ensures
        a / d <= b,
{
    lemma_div_is_ordered(a, b * d, d);
    assert(b * d == d * b) by (nonlinear_arith);
    lemma_div_multiples_vanish(b, d);
}

/// Arc tangent of a ratio `z` in `[0, 1]`, by the quadratic approximation
/// `z * (pi/4 + k * (1 - z))`, exactly as computed in fixed point.
pub open spec fn atan_unit_spec(z: int) -> int {
    let k1 = ((ATAN_K_FX as int) * ((FX_ONE as int) - z)) / (FX_ONE as int);
    let inner = (QUARTER_PI_FX as int) + k1;
    (z * inner) / (FX_ONE as int)
}

/// Four-quadrant arc tangent of `y / x` in fixed-point radians, exactly as
/// computed by octant reduction over [`atan_unit_spec`].
pub open spec fn atan2_spec(y: int, x: int) -> int {
    let ay = crate::fx::abs_int(y);
    let ax = crate::fx::abs_int(x);
    if ax == 0 && ay == 0 {
        0
    } else if ax >= ay {
        let t = atan_unit_spec((ay * (FX_ONE as int)) / ax);
        if x >= 0 {
            if y >= 0 {
                t
            } else {
                -t
            }
        } else {
            if y >= 0 {
                (PI_FX as int) - t
            } else {
                t - (PI_FX as int)
            }
        }
    } else {
        let t = atan_unit_spec((ax * (FX_ONE as int)) / ay);
        if y >= 0 {
            if x >= 0 {
                (HALF_PI_FX as int) - t
            } else {
                (HALF_PI_FX as int) + t
            }
        } else {
            if x >= 0 {
                t - (HALF_PI_FX as int)
            } else {
                -(HALF_PI_FX as int) - t
            }
        }
    }
}

/// Arc tangent of `z` in `[0, 1]`, by the quadratic approximation
/// `z * (pi/4 + k * (1 - z))`; the result lies in `[0, pi/4 + k]`.
fn atan_unit(z: u64) -> (r: i64)
    requires
        z <= FX_ONE,
    ensures
        0 <= r <= QUARTER_PI_FX + ATAN_K_FX,
        z == 0 ==> r == 0,
        r as int == atan_unit_spec(z as int),
{
    let k1: u128 = ((ATAN_K_FX as u128) * ((FX_ONE as u64 - z) as u128)) / (FX_ONE as u128);
    proof {
        assert((ATAN_K_FX as int) * ((FX_ONE - z) as int) <= (ATAN_K_FX as int) * (FX_ONE as int))
            by (nonlinear_arith)
            requires
                0 <= (FX_ONE - z) as int <= FX_ONE as int,
        ;
        lemma_div_le(
            (ATAN_K_FX as int) * ((FX_ONE - z) as int),
            ATAN_K_FX as int,
            FX_ONE as int,
        );
        assert((ATAN_K_FX as int) * ((FX_ONE - z) as int) >= 0) by (nonlinear_arith)
            requires
                0 <= (FX_ONE - z) as int,
                0 <= ATAN_K_FX as int,
        ;
    }
    let inner: u128 = (QUARTER_PI_FX as u128) + k1;
    proof {
        assert((z as int) * (inner as int) <= 1_058_398_000_000int) by (nonlinear_arith)
            requires
                0 <= z as int <= 1_000_000int,
                0 <= inner as int <= 1_058_398int,
        ;
    }
    let prod: u128 = (z as u128) * inner;
    proof {
        assert((z as int) * (inner as int) <= (FX_ONE as int) * (inner as int))
            by (nonlinear_arith)
            requires
                0 <= z as int <= FX_ONE as int,
                inner as int >= 0,
        ;
        assert((FX_ONE as int) * (inner as int) == (inner as int) * (FX_ONE as int))
            by (nonlinear_arith);
        lemma_div_le((z as int) * (inner as int), inner as int, FX_ONE as int);
        assert((z as int) * (inner as int) >= 0) by (nonlinear_arith);
        assert(0int * (inner as int) == 0) by (nonlinear_arith);
    }
    let q: u128 = prod / (FX_ONE as u128);
    q as i64
}

/// Four-quadrant arc tangent of `y / x` in fixed-point radians, in
/// `[-pi, pi]`; zero for the zero vector and for the positive `x` axis.
pub fn atan2_fx(y: i64, x: i64) -> (r: i64)
    requires
        -FX_ONE <= y <= FX_ONE,
        -FX_ONE <= x <= FX_ONE,
    ensures
        -PI_FX <= r <= PI_FX,
        y == 0 && x >= 0 ==> r == 0,
        r as int == atan2_spec(y as int, x as int),
{
    let ay: u64 = if y < 0 {
        (-y) as u64
    } else {
        y as u64
    };
    let ax: u64 = if x < 0 {
        (-x) as u64
    } else {
        x as u64
    };
    if ax == 0 && ay == 0 {
        return 0;
    }
    if ax >= ay {
        // octants around the x axis
        let num: u128 = (ay as u128) * (FX_ONE as u128);
        proof {
            assert((ay as int) * (FX_ONE as int) <= (ax as int) * (FX_ONE as int))
                by (nonlinear_arith)
                requires
                    0 <= ay as int <= ax as int,
            ;
            assert((ax as int) * (FX_ONE as int) == (FX_ONE as int) * (ax as int))
                by (nonlinear_arith);
            lemma_div_le((ay as int) * (FX_ONE as int), FX_ONE as int, ax as int);
            assert((ay as int) * (FX_ONE as int) >= 0) by (nonlinear_arith);
            assert(ay as int == 0 ==> (ay as int) * (FX_ONE as int) == 0) by (nonlinear_arith);
        }
        let z: u64 = (num / (ax as u128)) as u64;
        let t = atan_unit(z);
        if x >= 0 {
            if y >= 0 {
                t
            } else {
                -t
            }
        } else {
            if y >= 0 {
                PI_FX - t
            } else {
                t - PI_FX
            }
        }
    } else {
        // octants around the y axis
        let num: u128 = (ax as u128) * (FX_ONE as u128);
        proof {
            assert((ax as int) * (FX_ONE as int) <= (ay as int) * (FX_ONE as int))
                by (nonlinear_arith)
                requires
                    0 <= ax as int <= ay as int,
            ;
            assert((ay as int) * (FX_ONE as int) == (FX_ONE as int) * (ay as int))
                by (nonlinear_arith);
            lemma_div_le((ax as int) * (FX_ONE as int), FX_ONE as int, ay as int);
            assert((ax as int) * (FX_ONE as int) >= 0) by (nonlinear_arith);
        }
        let z: u64 = (num / (ay as u128)) as u64;
        let t = atan_unit(z);
        if y >= 0 {
            if x >= 0 {
                HALF_PI_FX - t
            } else {
                HALF_PI_FX + t
            }
        } else {
            if x >= 0 {
                t - HALF_PI_FX
            } else {
                -HALF_PI_FX - t
            }
        }
    }
}

/// Sine on the first half circle, by the quadratic approximation
/// `4 x (pi - x) / pi^2` clamped at one, exactly as computed in fixed
/// point.
pub open spec fn sin_half_spec(x: int) -> int {
    let denom = ((PI_FX as int) * (PI_FX as int)) / (FX_ONE as int);
    let q = (4 * x * ((PI_FX as int) - x)) / denom;
    if q > FX_ONE as int {
        FX_ONE as int
    } else {
        q
    }
}

/// Sine of an angle of one turn, exactly as computed in fixed point.
pub open spec fn sin_spec(a: int) -> int {
    if a <= PI_FX as int {
        sin_half_spec(a)
    } else {
        -sin_half_spec(a - (PI_FX as int))
    }
}

/// Cosine of an angle of one turn: the sine a quarter turn ahead.
pub open spec fn cos_spec(a: int) -> int {
    sin_spec(wrap_tau_spec(a + (HALF_PI_FX as int)))
}

/// Sine on the first half circle, by the quadratic approximation
/// `4 x (pi - x) / pi^2`, clamped at one.
fn sin_half(x: i64) -> (r: i64)
    requires
        0 <= x <= PI_FX,
    ensures
        0 <= r <= FX_ONE,
        x == 0 ==> r == 0,
        r as int == sin_half_spec(x as int),
{
    proof {
        assert((x as int) * ((PI_FX - x) as int) >= 0) by (nonlinear_arith)
            requires
                0 <= x as int,
                0 <= (PI_FX - x) as int,
        ;
        assert((x as int) * ((PI_FX - x) as int) <= (PI_FX as int) * (PI_FX as int))
            by (nonlinear_arith)
            requires
                0 <= x as int <= PI_FX as int,
                0 <= (PI_FX - x) as int <= PI_FX as int,
        ;
        assert(0int * ((PI_FX - 0) as int) == 0) by (nonlinear_arith);
    }
    proof {
        assert((4 * x as int) * ((PI_FX - x) as int) <= 4 * 3_141_593_000_000_0int)
            by (nonlinear_arith)
            requires
                0 <= 4 * x as int <= 4 * 3_141_593int,
                0 <= (PI_FX - x) as int <= 3_141_593int,
        ;
        assert((3_141_593int) * (3_141_593int) == 9_869_606_577_649int) by (nonlinear_arith);
    }
    let num: u128 = 4 * (x as u128) * ((PI_FX - x) as u128);
    let denom: u128 = ((PI_FX as u128) * (PI_FX as u128)) / (FX_ONE as u128);
    let q: u128 = num / denom;
    if q > FX_ONE as u128 {
        FX_ONE
    } else {
        proof {
            if x == 0 {
                assert(num == 0);
                vstd::arithmetic::div_mod::lemma_basic_div_specific_divisor(denom as int);
            }
        }
        q as i64
    }
}

/// Sine of an angle of one turn, within `[-1, 1]`.
pub fn sin_fx(a: i64) -> (r: i64)
    requires
        0 <= a <= TAU_FX,
    ensures
        -FX_ONE <= r <= FX_ONE,
        r as int == sin_spec(a as int),
{
    if a <= PI_FX {
        sin_half(a)
    } else {
        -sin_half(a - PI_FX)
    }
}

/// Cosine of an angle of one turn, within `[-1, 1]`.
pub fn cos_fx(a: i64) -> (r: i64)
    requires
        0 <= a <= TAU_FX,
    ensures
        -FX_ONE <= r <= FX_ONE,
        r as int == cos_spec(a as int),
{
    let s = a + HALF_PI_FX;
    let s = if s >= TAU_FX {
        s - TAU_FX
    } else {
        s
    };
    sin_fx(s)
}

} // verus!
