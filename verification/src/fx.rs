//! Fixed-point scalars.
//!
//! Every real-valued quantity of the simulation (genes, biases, signals,
//! coordinates, angles, probabilities) is carried as an `i64` holding the
//! quantity times [`FX_ONE`].  Arithmetic is exact integer arithmetic with
//! truncation toward zero on scaling and saturation at [`FX_LIMIT`], so every
//! operation is total and has an exact specification.
use vstd::prelude::*;

verus! {

/// One whole unit: the fixed-point encoding of 1.0.
pub const FX_ONE: i64 = 1_000_000;

/// Saturation bound of fixed-point sums and products.
pub const FX_LIMIT: i64 = 1_000_000_000_000_000_000;

/// Absolute value of a mathematical integer.
pub open spec fn abs_int(x: int) -> int {
    if x >= 0 {
        x
    } else {
        -x
    }
}

/// Saturation of a mathematical integer into `[-FX_LIMIT, FX_LIMIT]`.
pub open spec fn fx_clamp(x: int) -> int {
    if x > FX_LIMIT as int {
        FX_LIMIT as int
    } else if x < -(FX_LIMIT as int) {
        -(FX_LIMIT as int)
    } else {
        x
    }
}

/// Division of `p` by `FX_ONE` truncated toward zero.
pub open spec fn fx_scale_down(p: int) -> int {
    if p >= 0 {
        p / (FX_ONE as int)
    } else {
        -((-p) / (FX_ONE as int))
    }
}

/// Saturating fixed-point sum.
pub open spec fn fx_add_spec(a: int, b: int) -> int {
    fx_clamp(a + b)
}

/// Saturating fixed-point product: scale the integer product back down.
pub open spec fn fx_mul_spec(a: int, b: int) -> int {
    fx_clamp(fx_scale_down(a * b))
}

/// Clamping into `[lo, hi]`.
pub open spec fn clamp_spec(x: int, lo: int, hi: int) -> int {
    if x < lo {
        lo
    } else if x > hi {
        hi
    } else {
        x
    }
}

/// Rectified linear unit: `max(x, 0)`.
pub open spec fn relu_spec(x: int) -> int {
    if x > 0 {
        x
    } else {
        0
    }
}

/// Saturating fixed-point addition.
pub fn fx_add(a: i64, b: i64) -> (r: i64)
    ensures
        r as int == fx_add_spec(a as int, b as int),
        -FX_LIMIT <= r <= FX_LIMIT,
{
    let s: i128 = a as i128 + b as i128;
    if s > FX_LIMIT as i128 {
        FX_LIMIT
    } else if s < -FX_LIMIT as i128 {
        -FX_LIMIT
    } else {
        s as i64
    }
}

/// Saturating fixed-point multiplication.
pub fn fx_mul(a: i64, b: i64) -> (r: i64)
    ensures
        r as int == fx_mul_spec(a as int, b as int),
        -FX_LIMIT <= r <= FX_LIMIT,
{
    proof {
        assert((a as int) * (b as int) <= 0x4000_0000_0000_0000_0000_0000_0000_0000int
            && (a as int) * (b as int) >= -0x4000_0000_0000_0000_0000_0000_0000_0000int)
            by (nonlinear_arith)
            requires
                -0x8000_0000_0000_0000int <= a as int <= 0x7fff_ffff_ffff_ffffint,
                -0x8000_0000_0000_0000int <= b as int <= 0x7fff_ffff_ffff_ffffint,
        ;
    }
    let p: i128 = (a as i128) * (b as i128);
    if p >= 0 {
        let q: u128 = (p as u128) / (FX_ONE as u128);
        if q > FX_LIMIT as u128 {
            FX_LIMIT
        } else {
            q as i64
        }
    } else {
        let q: u128 = ((-p) as u128) / (FX_ONE as u128);
        if q > FX_LIMIT as u128 {
            -FX_LIMIT
        } else {
            -(q as i64)
        }
    }
}

/// Rectified linear unit on a fixed-point value.
pub fn relu(x: i64) -> (r: i64)
    ensures
        r as int == relu_spec(x as int),
{
    if x > 0 {
        x
    } else {
        0
    }
}

/// Clamp a fixed-point value into `[lo, hi]`.
pub fn clamp_i64(x: i64, lo: i64, hi: i64) -> (r: i64)
    requires
        lo <= hi,
    ensures
        r as int == clamp_spec(x as int, lo as int, hi as int),
{
    if x < lo {
        lo
    } else if x > hi {
        hi
    } else {
        x
    }
}

/// Multiplying by a factor of magnitude at most one cannot grow a value.
pub proof fn lemma_fx_mul_unit(a: int, b: int)
    requires
        -(FX_ONE as int) <= b <= FX_ONE as int,
    ensures
        abs_int(fx_mul_spec(a, b)) <= abs_int(a),
{
    let aa = abs_int(a);
    let ab = abs_int(b);
    assert(abs_int(a * b) == aa * ab) by (nonlinear_arith)
        requires
            aa == abs_int(a),
            ab == abs_int(b),
    ;
    assert(aa * ab <= aa * (FX_ONE as int)) by (nonlinear_arith)
        requires
            aa >= 0,
            0 <= ab <= FX_ONE as int,
    ;
    let p = a * b;
    if p >= 0 {
        assert(p <= aa * (FX_ONE as int));
        vstd::arithmetic::div_mod::lemma_div_is_ordered(p, aa * (FX_ONE as int), FX_ONE as int);
        assert(aa * (FX_ONE as int) == (FX_ONE as int) * aa) by (nonlinear_arith);
        vstd::arithmetic::div_mod::lemma_div_multiples_vanish(aa, FX_ONE as int);
        vstd::arithmetic::div_mod::lemma_div_is_ordered(0, p, FX_ONE as int);
    } else {
        assert(-p <= aa * (FX_ONE as int));
        vstd::arithmetic::div_mod::lemma_div_is_ordered(-p, aa * (FX_ONE as int), FX_ONE as int);
        assert(aa * (FX_ONE as int) == (FX_ONE as int) * aa) by (nonlinear_arith);
        vstd::arithmetic::div_mod::lemma_div_multiples_vanish(aa, FX_ONE as int);
        vstd::arithmetic::div_mod::lemma_div_is_ordered(0, -p, FX_ONE as int);
    }
}

/// The floor of the square root of a non-negative integer: the unique `r`
/// with `r * r <= x < (r + 1) * (r + 1)`.
pub open spec fn sqrt_floor(x: int) -> int {
    choose|r: int| 0 <= r && #[trigger] (r * r) <= x && x < (r + 1) * (r + 1)
}

/// Integer square root: the greatest `r` with `r * r <= x`.
pub fn isqrt_u64(x: u64) -> (r: u64)
    ensures
        (r as int) * (r as int) <= x as int,
        (x as int) < (r as int + 1) * (r as int + 1),
        r < 4_294_967_296,
        r as int == sqrt_floor(x as int),
{
    let mut lo: u64 = 0;
    let mut hi: u64 = 4_294_967_296;
    proof {
        assert((hi as int) * (hi as int) > x as int) by (nonlinear_arith)
            requires
                hi as int == 0x1_0000_0000int,
                x as int <= 0xffff_ffff_ffff_ffffint,
        ;
    }
    while lo + 1 < hi
        invariant
            lo < hi <= 4_294_967_296,
            (lo as int) * (lo as int) <= x as int,
            (hi as int) * (hi as int) > x as int,
        decreases hi - lo,
    {
        let mid: u64 = lo + (hi - lo) / 2;
        proof {
            assert((mid as int) * (mid as int) <= 0x1_0000_0000_0000_0000int) by (nonlinear_arith)
                requires
                    0 <= mid as int <= 0x1_0000_0000int,
            ;
        }
        let sq: u128 = (mid as u128) * (mid as u128);
        if sq <= x as u128 {
            lo = mid;
        } else {
            hi = mid;
        }
    }
    proof {
        let w = lo as int;
        assert(0 <= w && w * w <= x as int && (x as int) < (w + 1) * (w + 1));
        let c = sqrt_floor(x as int);
        assert(0 <= c && c * c <= x as int && (x as int) < (c + 1) * (c + 1));
        assert(c == w) by (nonlinear_arith)
            requires
                0 <= w,
                w * w <= x as int,
                (x as int) < (w + 1) * (w + 1),
                0 <= c,
                c * c <= x as int,
                (x as int) < (c + 1) * (c + 1),
        ;
    }
    lo
}

} // verus!
