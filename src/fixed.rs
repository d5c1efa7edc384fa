//! Fixed-point arithmetic: every length, time, speed and vector component of the
//! engine is an integer count of thousandths.
use vstd::prelude::*;

verus! {

/// The fixed-point representation of 1.0.
pub const ONE: i64 = 1000;

/// Largest speed that the engine accepts: a million units a second.
pub const SPEED_LIMIT: i64 = 1_000_000_000;

/// Largest time step that the engine accepts: a million seconds.
pub const DELTA_LIMIT: i64 = 1_000_000_000;

pub open spec fn abs(v: int) -> int {
    if v < 0 {
        -v
    } else {
        v
    }
}

/// Division rounding toward zero, as Rust's `/` does on signed integers.
pub open spec fn trunc_div(a: int, b: int) -> int {
    if a >= 0 {
        a / b
    } else {
        -((-a) / b)
    }
}

/// Product of two fixed-point numbers, rounded toward zero.
pub open spec fn fmul(a: int, b: int) -> int {
    trunc_div(a * b, ONE as int)
}

/// Quotient of two fixed-point numbers, rounded toward zero.
pub open spec fn fdiv(a: int, b: int) -> int {
    trunc_div(a * ONE, b)
}

pub open spec fn fits_i64(v: int) -> bool {
    i64::MIN <= v <= i64::MAX
}

/// `v` moved to the nearest value that an `i64` holds.
pub open spec fn saturate(v: int) -> int {
    if v > i64::MAX {
        i64::MAX as int
    } else if v < i64::MIN {
        i64::MIN as int
    } else {
        v
    }
}

/// `a + b`, held at the limits of `i64` where it would leave them.
pub fn saturating_sum(a: i64, b: i64) -> (r: i64)
    ensures
        r == saturate(a + b),
{
    let s: i128 = a as i128 + b as i128;
    if s > i64::MAX as i128 {
        i64::MAX
    } else if s < i64::MIN as i128 {
        i64::MIN
    } else {
        s as i64
    }
}

pub proof fn lemma_trunc_quotient(a: int, l: int)
    requires
        l >= 1,
    ensures
        abs(trunc_div(a, l)) == abs(a) / l,
        abs(trunc_div(a, l)) * l <= abs(a) < (abs(trunc_div(a, l)) + 1) * l,
{
    let q = abs(a) / l;
    assert(q * l <= abs(a) < (q + 1) * l) by (nonlinear_arith)
        requires
            l >= 1,
            q == abs(a) / l,
            abs(a) >= 0,
    ;
}

/// Multiplying by a fixed-point factor of magnitude at most one never grows a value.
pub proof fn lemma_fmul_by_fraction(a: int, b: int)
    requires
        abs(a) <= ONE,
    ensures
        abs(fmul(a, b)) <= abs(b),
{
    lemma_trunc_quotient(a * b, ONE as int);
    assert(abs(a * b) <= ONE * abs(b)) by (nonlinear_arith)
        requires
            abs(a) <= ONE,
    ;
}

/// The distance covered at an admissible speed during an admissible time step.
pub proof fn lemma_travel_bound(speed: int, dt: int)
    requires
        0 <= speed <= SPEED_LIMIT,
        0 <= dt <= DELTA_LIMIT,
    ensures
        0 <= fmul(speed, dt) <= SPEED_LIMIT * DELTA_LIMIT,
{
    lemma_trunc_quotient(speed * dt, ONE as int);
    assert(0 <= speed * dt <= SPEED_LIMIT * DELTA_LIMIT) by (nonlinear_arith)
        requires
            0 <= speed <= SPEED_LIMIT,
            0 <= dt <= DELTA_LIMIT,
    ;
}

pub open spec fn is_sqrt_floor(r: int, n: int) -> bool {
    0 <= r && r * r <= n && n < (r + 1) * (r + 1)
}

/// The largest natural number whose square is at most `n` (zero for negative `n`).
pub open spec fn sqrt_floor(n: int) -> int
    decreases n,
{
    if n <= 0 {
        0
    } else {
        let r = sqrt_floor(n - 1);
        if (r + 1) * (r + 1) <= n {
            r + 1
        } else {
            r
        }
    }
}

pub proof fn lemma_sqrt_floor_holds(n: int)
    requires
        n >= 0,
    ensures
        is_sqrt_floor(sqrt_floor(n), n),
    decreases n,
{
    if n > 0 {
        lemma_sqrt_floor_holds(n - 1);
        let r = sqrt_floor(n - 1);
        if (r + 1) * (r + 1) <= n {
            assert(n < (r + 2) * (r + 2)) by (nonlinear_arith)
                requires
                    n - 1 < (r + 1) * (r + 1),
                    r >= 0,
            ;
        }
    }
}

pub proof fn lemma_sqrt_floor_unique(r: int, s: int, n: int)
    requires
        is_sqrt_floor(r, n),
        is_sqrt_floor(s, n),
    ensures
        r == s,
{
    if r < s {
        assert((r + 1) * (r + 1) <= s * s) by (nonlinear_arith)
            requires
                0 <= r,
                r + 1 <= s,
        ;
    } else if s < r {
        assert((s + 1) * (s + 1) <= r * r) by (nonlinear_arith)
            requires
                0 <= s,
                s + 1 <= r,
        ;
    }
}

pub proof fn lemma_sqrt_floor(r: int, n: int)
    requires
        is_sqrt_floor(r, n),
    ensures
        sqrt_floor(n) == r,
{
    lemma_sqrt_floor_holds(n);
    lemma_sqrt_floor_unique(sqrt_floor(n), r, n);
}

/// Integer square root by bisection.
pub fn isqrt(n: u128) -> (r: u128)
    ensures
        r == sqrt_floor(n as int),
        r <= 0xffff_ffff_ffff_ffff,
{
    let mut lo: u128 = 0;
    let mut hi: u128 = 0x1_0000_0000_0000_0000;
    assert(n < hi * hi) by (nonlinear_arith)
        requires
            hi == 0x1_0000_0000_0000_0000u128,
            n <= u128::MAX,
    ;
    while hi - lo > 1
        invariant
            lo < hi <= 0x1_0000_0000_0000_0000,
            lo * lo <= n,
            n < hi * hi,
        decreases hi - lo,
    {
        let mid: u128 = lo + (hi - lo) / 2;
        assert(mid * mid <= 0xffff_ffff_ffff_ffff * 0xffff_ffff_ffff_ffffu128) by (nonlinear_arith)
            requires
                mid <= 0xffff_ffff_ffff_ffff,
        ;
        if mid * mid <= n {
            lo = mid;
        } else {
            hi = mid;
        }
    }
    assert(hi == lo + 1);
    proof {
        lemma_sqrt_floor(lo as int, n as int);
    }
    lo
}

} // verus!
