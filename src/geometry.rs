//! Positions, displacement vectors and axis-aligned rectangles.
use vstd::prelude::*;
use crate::fixed::{
    abs, fdiv, fits_i64, fmul, is_sqrt_floor, isqrt, lemma_sqrt_floor, lemma_sqrt_floor_holds,
    lemma_trunc_quotient, saturate, saturating_sum, sqrt_floor, trunc_div, ONE,
};

verus! {

/// Largest magnitude of a component that `Vector::normalize` accepts.
pub const VECTOR_LIMIT: i64 = 1_125_899_906_842_624;

/// A position in the arena, in fixed-point units.
#[derive(Clone, Copy, Debug, PartialEq, Eq, Structural)]
pub struct Point {
    pub x: i64,
    pub y: i64,
}

impl Point {
    pub fn new(x: i64, y: i64) -> (r: Point)
        ensures
            r.x == x,
            r.y == y,
    {
        Point { x, y }
    }

    pub fn add(&self, other: &Point) -> (r: Point)
        requires
            fits_i64(self.x + other.x),
            fits_i64(self.y + other.y),
        ensures
            r.x == self.x + other.x,
            r.y == self.y + other.y,
    {
        Point::new(self.x + other.x, self.y + other.y)
    }

    pub fn add_scalar(&self, scalar: i64) -> (r: Point)
        requires
            fits_i64(self.x + scalar),
            fits_i64(self.y + scalar),
        ensures
            r.x == self.x + scalar,
            r.y == self.y + scalar,
    {
        Point::new(self.x + scalar, self.y + scalar)
    }

    pub fn add_vector(&self, vector: Vector) -> (r: Point)
        requires
            fits_i64(self.x + vector.x),
            fits_i64(self.y + vector.y),
        ensures
            r.x == self.x + vector.x,
            r.y == self.y + vector.y,
    {
        Point::new(self.x + vector.x, self.y + vector.y)
    }

    /// Moves the point by `vector`, each coordinate saturating at the limits of `i64`.
    pub fn translate_saturating(&self, vector: Vector) -> (r: Point)
        ensures
            r.x == saturate(self.x + vector.x),
            r.y == saturate(self.y + vector.y),
    {
        Point::new(saturating_sum(self.x, vector.x), saturating_sum(self.y, vector.y))
    }

    pub fn sub(&self, other: &Point) -> (r: Point)
        requires
            fits_i64(self.x - other.x),
            fits_i64(self.y - other.y),
        ensures
            r.x == self.x - other.x,
            r.y == self.y - other.y,
    {
        Point::new(self.x - other.x, self.y - other.y)
    }

    pub fn sub_scalar(&self, scalar: i64) -> (r: Point)
        requires
            fits_i64(self.x - scalar),
            fits_i64(self.y - scalar),
        ensures
            r.x == self.x - scalar,
            r.y == self.y - scalar,
    {
        Point::new(self.x - scalar, self.y - scalar)
    }

    pub fn sub_vector(&self, vector: &Vector) -> (r: Point)
        requires
            fits_i64(self.x - vector.x),
            fits_i64(self.y - vector.y),
        ensures
            r.x == self.x - vector.x,
            r.y == self.y - vector.y,
    {
        Point::new(self.x - vector.x, self.y - vector.y)
    }
}

/// An axis-aligned rectangle given by its top-left corner and its size.
#[derive(Clone, Copy, Debug, PartialEq, Eq, Structural)]
pub struct Rect {
    pub position: Point,
    pub width: i64,
    pub height: i64,
}

/// The open interiors of the two rectangles intersect.
pub open spec fn boxes_overlap(a: Rect, b: Rect) -> bool {
    a.position.x < b.position.x + b.width && a.position.x + a.width > b.position.x
        && a.position.y < b.position.y + b.height && a.position.y + a.height > b.position.y
}

impl Rect {
    pub fn new(x: i64, y: i64, width: i64, height: i64) -> (r: Rect)
        ensures
            r.position.x == x,
            r.position.y == y,
            r.width == width,
            r.height == height,
    {
        Rect { position: Point::new(x, y), width, height }
    }

    pub fn min(&self) -> (r: Point)
        ensures
            r == self.position,
    {
        self.position
    }

    pub fn max(&self) -> (r: Point)
        requires
            fits_i64(self.position.x + self.width),
            fits_i64(self.position.y + self.height),
        ensures
            r.x == self.position.x + self.width,
            r.y == self.position.y + self.height,
    {
        Point::new(self.position.x + self.width, self.position.y + self.height)
    }

    /// The point lies in the half-open box `[min, max)`.
    pub fn contains_point(&self, other: &Point) -> (r: bool)
        ensures
            r == (self.position.x <= other.x && self.position.x + self.width > other.x
                && self.position.y <= other.y && self.position.y + self.height > other.y),
    {
        let x1 = self.position.x as i128;
        let y1 = self.position.y as i128;
        let x2 = x1 + self.width as i128;
        let y2 = y1 + self.height as i128;
        x1 <= other.x as i128 && x2 > other.x as i128 && y1 <= other.y as i128 && y2
            > other.y as i128
    }

    /// `self` lies within `other`.
    pub fn contains_rect(&self, other: &Rect) -> (r: bool)
        ensures
            r == (self.position.x >= other.position.x && self.position.x + self.width
                <= other.position.x + other.width && self.position.y >= other.position.y
                && self.position.y + self.height <= other.position.y + other.height),
    {
        let a1x = self.position.x as i128;
        let a1y = self.position.y as i128;
        let a2x = a1x + self.width as i128;
        let a2y = a1y + self.height as i128;
        let b1x = other.position.x as i128;
        let b1y = other.position.y as i128;
        let b2x = b1x + other.width as i128;
        let b2y = b1y + other.height as i128;
        a1x >= b1x && a2x <= b2x && a1y >= b1y && a2y <= b2y
    }

    pub fn overlaps(&self, other: &Rect) -> (r: bool)
        ensures
            r == boxes_overlap(*self, *other),
    {
        let a1x = self.position.x as i128;
        let a1y = self.position.y as i128;
        let a2x = a1x + self.width as i128;
        let a2y = a1y + self.height as i128;
        let b1x = other.position.x as i128;
        let b1y = other.position.y as i128;
        let b2x = b1x + other.width as i128;
        let b2y = b1y + other.height as i128;
        a1x < b2x && a2x > b1x && a1y < b2y && a2y > b1y
    }
}

/// Overlap is symmetric: `a` overlaps `b` exactly when `b` overlaps `a`.
pub proof fn lemma_overlap_symmetric(a: Rect, b: Rect)
    ensures
        boxes_overlap(a, b) == boxes_overlap(b, a),
{
}

/// A displacement or direction, each component in fixed-point units.
#[derive(Clone, Copy, Debug, PartialEq, Eq, Structural)]
pub struct Vector {
    pub x: i64,
    pub y: i64,
}

/// Squared Euclidean length of `(x, y)`.
pub open spec fn norm2(x: int, y: int) -> int {
    x * x + y * y
}

pub open spec fn can_normalize(v: Vector) -> bool {
    (v.x != 0 || v.y != 0) && abs(v.x as int) <= VECTOR_LIMIT && abs(v.y as int) <= VECTOR_LIMIT
}

/// The rounded length of `v` at a precision of `ONE * ONE`.
pub open spec fn fine_length(v: Vector) -> int {
    sqrt_floor(norm2(v.x as int, v.y as int) * ONE * ONE)
}

/// `v` scaled to length `ONE`, each component rounded toward zero.
pub open spec fn normalized(v: Vector) -> Vector {
    Vector {
        x: trunc_div(v.x * ONE * ONE, fine_length(v)) as i64,
        y: trunc_div(v.y * ONE * ONE, fine_length(v)) as i64,
    }
}

proof fn lemma_fine_length_at_least_one(v: Vector)
    requires
        can_normalize(v),
    ensures
        ONE <= fine_length(v),
        is_sqrt_floor(fine_length(v), norm2(v.x as int, v.y as int) * ONE * ONE),
{
    let n = norm2(v.x as int, v.y as int);
    assert(n >= 1) by (nonlinear_arith)
        requires
            n == v.x * v.x + v.y * v.y,
            v.x != 0 || v.y != 0,
    ;
    let s = n * ONE * ONE;
    lemma_sqrt_floor_holds(s);
    let l = sqrt_floor(s);
    if l < ONE {
        assert((l + 1) * (l + 1) <= ONE * ONE) by (nonlinear_arith)
            requires
                0 <= l < ONE,
        ;
        assert(ONE * ONE <= s) by (nonlinear_arith)
            requires
                n >= 1,
                s == n * ONE * ONE,
        ;
    }
}

/// A normalized vector has length `ONE` up to the rounding of each component:
/// its squared length is below `(ONE + 1)^2`, and adding one unit to the
/// magnitude of each component takes it above `ONE^2`.
#[verifier::rlimit(50)]
pub proof fn lemma_normalized_unit_length(v: Vector)
    requires
        can_normalize(v),
    ensures
        norm2(normalized(v).x as int, normalized(v).y as int) < (ONE + 1) * (ONE + 1),
        norm2(abs(normalized(v).x as int) + 1, abs(normalized(v).y as int) + 1) > ONE * ONE,
{
    lemma_fine_length_at_least_one(v);
    lemma_normalized_fits(v);
    let l = fine_length(v);
    let k = ONE * ONE;
    let ax = abs(v.x as int);
    let ay = abs(v.y as int);
    let s = norm2(v.x as int, v.y as int) * k;
    assert(abs(v.x * ONE * ONE) == ax * k && abs(v.y * ONE * ONE) == ay * k) by (nonlinear_arith)
        requires
            ax == abs(v.x as int),
            ay == abs(v.y as int),
            k == ONE * ONE,
            ONE > 0,
    ;
    lemma_trunc_quotient(v.x * ONE * ONE, l);
    lemma_trunc_quotient(v.y * ONE * ONE, l);
    let q = abs(normalized(v).x as int);
    let p = abs(normalized(v).y as int);
    assert(s == (ax * ax + ay * ay) * k) by (nonlinear_arith)
        requires
            s == (v.x * v.x + v.y * v.y) * k,
            ax == abs(v.x as int),
            ay == abs(v.y as int),
    ;
    lemma_square_le(q * l, ax * k);
    lemma_square_le(p * l, ay * k);
    lemma_square_lt(ax * k, (q + 1) * l);
    lemma_square_lt(ay * k, (p + 1) * l);
    assert(s * k == (ax * k) * (ax * k) + (ay * k) * (ay * k)) by (nonlinear_arith)
        requires
            s == (ax * ax + ay * ay) * k,
    ;
    assert((q * l) * (q * l) + (p * l) * (p * l) == (q * q + p * p) * (l * l)) by (nonlinear_arith);
    assert(((q + 1) * l) * ((q + 1) * l) + ((p + 1) * l) * ((p + 1) * l) == ((q + 1) * (q + 1) + (p
        + 1) * (p + 1)) * (l * l)) by (nonlinear_arith);
    // Upper bound.
    assert(s * k < (l + 1) * (l + 1) * k) by (nonlinear_arith)
        requires
            s < (l + 1) * (l + 1),
            k > 0,
    ;
    lemma_square_le((l + 1) * ONE, (ONE + 1) * l);
    assert(((l + 1) * ONE) * ((l + 1) * ONE) == (l + 1) * (l + 1) * k) by (nonlinear_arith)
        requires
            k == ONE * ONE,
    ;
    assert(q * l <= ax * k);
    assert((q * q + p * p) * (l * l) <= s * k);
    assert(((l + 1) * ONE) * ((l + 1) * ONE) <= ((ONE + 1) * l) * ((ONE + 1) * l));
    if q * q + p * p >= (ONE + 1) * (ONE + 1) {
        assert((ONE + 1) * (ONE + 1) * (l * l) <= (q * q + p * p) * (l * l)) by (nonlinear_arith)
            requires
                q * q + p * p >= (ONE + 1) * (ONE + 1),
        ;
        assert(((ONE + 1) * l) * ((ONE + 1) * l) == (ONE + 1) * (ONE + 1) * (l * l)) by (nonlinear_arith);
    }
    let nx = normalized(v).x as int;
    let ny = normalized(v).y as int;
    assert(norm2(nx, ny) == q * q + p * p) by (nonlinear_arith)
        requires
            q == abs(nx),
            p == abs(ny),
    ;
    // Lower bound.
    assert(s * k >= l * l * k) by (nonlinear_arith)
        requires
            l * l <= s,
            k > 0,
    ;
    if (q + 1) * (q + 1) + (p + 1) * (p + 1) <= k {
        assert(((q + 1) * (q + 1) + (p + 1) * (p + 1)) * (l * l) <= k * (l * l)) by (nonlinear_arith)
            requires
                (q + 1) * (q + 1) + (p + 1) * (p + 1) <= k,
        ;
    }
}

proof fn lemma_square_le(a: int, b: int)
    requires
        0 <= a <= b,
    ensures
        a * a <= b * b,
{
    assert(a * a <= b * b) by (nonlinear_arith)
        requires
            0 <= a <= b,
    ;
}

proof fn lemma_square_lt(a: int, b: int)
    requires
        0 <= a < b,
    ensures
        a * a < b * b,
{
    assert(a * a < b * b) by (nonlinear_arith)
        requires
            0 <= a < b,
    ;
}

proof fn lemma_normalized_fits(v: Vector)
    requires
        can_normalize(v),
    ensures
        abs(trunc_div(v.x * ONE * ONE, fine_length(v))) <= VECTOR_LIMIT * ONE,
        abs(trunc_div(v.y * ONE * ONE, fine_length(v))) <= VECTOR_LIMIT * ONE,
{
    lemma_fine_length_at_least_one(v);
    let l = fine_length(v);
    lemma_trunc_quotient(v.x * ONE * ONE, l);
    lemma_trunc_quotient(v.y * ONE * ONE, l);
    assert(abs(v.x * ONE * ONE) <= VECTOR_LIMIT * ONE * ONE) by (nonlinear_arith)
        requires
            abs(v.x as int) <= VECTOR_LIMIT,
    ;
    assert(abs(v.y * ONE * ONE) <= VECTOR_LIMIT * ONE * ONE) by (nonlinear_arith)
        requires
            abs(v.y as int) <= VECTOR_LIMIT,
    ;
    assert(abs(v.x * ONE * ONE) / l <= VECTOR_LIMIT * ONE) by (nonlinear_arith)
        requires
            abs(v.x * ONE * ONE) <= VECTOR_LIMIT * ONE * ONE,
            l >= ONE,
            ONE > 0,
    ;
    assert(abs(v.y * ONE * ONE) / l <= VECTOR_LIMIT * ONE) by (nonlinear_arith)
        requires
            abs(v.y * ONE * ONE) <= VECTOR_LIMIT * ONE * ONE,
            l >= ONE,
            ONE > 0,
    ;
}

/// The square of `v`.
fn square(v: i64) -> (r: u128)
    ensures
        r == v * v,
        r <= 0x4000_0000_0000_0000_0000_0000_0000_0000,
{
    let a: u128 = if v < 0 {
        (-(v as i128)) as u128
    } else {
        v as u128
    };
    assert(a * a <= 0x4000_0000_0000_0000_0000_0000_0000_0000) by (nonlinear_arith)
        requires
            a <= 0x8000_0000_0000_0000,
    ;
    assert(a * a == v * v) by (nonlinear_arith)
        requires
            a == abs(v as int),
    ;
    a * a
}

impl Vector {
    pub fn new(x: i64, y: i64) -> (r: Vector)
        ensures
            r.x == x,
            r.y == y,
    {
        Vector { x, y }
    }

    pub fn add(&self, other: &Vector) -> (r: Vector)
        requires
            fits_i64(self.x + other.x),
            fits_i64(self.y + other.y),
        ensures
            r.x == self.x + other.x,
            r.y == self.y + other.y,
    {
        Vector::new(self.x + other.x, self.y + other.y)
    }

    pub fn subtract(&self, other: &Vector) -> (r: Vector)
        requires
            fits_i64(self.x - other.x),
            fits_i64(self.y - other.y),
        ensures
            r.x == self.x - other.x,
            r.y == self.y - other.y,
    {
        Vector::new(self.x - other.x, self.y - other.y)
    }

    /// Each component divided by the fixed-point `number`, rounded toward zero.
    pub fn divide(&self, number: i64) -> (r: Vector)
        requires
            number != 0,
            fits_i64(fdiv(self.x as int, number as int)),
            fits_i64(fdiv(self.y as int, number as int)),
        ensures
            r.x == fdiv(self.x as int, number as int),
            r.y == fdiv(self.y as int, number as int),
    {
        let x = (self.x as i128 * ONE as i128) / number as i128;
        let y = (self.y as i128 * ONE as i128) / number as i128;
        Vector::new(x as i64, y as i64)
    }

    /// Each component multiplied by the fixed-point `number`, rounded toward zero.
    pub fn scale_by(&self, number: i64) -> (r: Vector)
        requires
            fits_i64(fmul(self.x as int, number as int)),
            fits_i64(fmul(self.y as int, number as int)),
        ensures
            r.x == fmul(self.x as int, number as int),
            r.y == fmul(self.y as int, number as int),
    {
        let x = (self.x as i128 * number as i128) / ONE as i128;
        let y = (self.y as i128 * number as i128) / ONE as i128;
        Vector::new(x as i64, y as i64)
    }

    /// Euclidean length, rounded down.
    pub fn length(&self) -> (r: u64)
        ensures
            r == sqrt_floor(norm2(self.x as int, self.y as int)),
    {
        let s: u128 = square(self.x) + square(self.y);
        let r = isqrt(s);
        proof {
            lemma_sqrt_floor_holds(s as int);
            if r > u64::MAX {
                assert(r * r > s) by (nonlinear_arith)
                    requires
                        r > 0xffff_ffff_ffff_ffff,
                        s <= 0x8000_0000_0000_0000_0000_0000_0000_0000,
                ;
            }
        }
        r as u64
    }

    /// The vector of length `ONE` in the direction of `self`, see
    /// `lemma_normalized_unit_length`.
    pub fn normalize(&self) -> (r: Vector)
        requires
            can_normalize(*self),
        ensures
            r == normalized(*self),
    {
        let k: i128 = ONE as i128 * ONE as i128;
        let x = self.x as i128;
        let y = self.y as i128;
        assert(x * x + y * y <= 2 * VECTOR_LIMIT * VECTOR_LIMIT) by (nonlinear_arith)
            requires
                abs(x as int) <= VECTOR_LIMIT,
                abs(y as int) <= VECTOR_LIMIT,
        ;
        assert(0 <= x * x && 0 <= y * y) by (nonlinear_arith);
        assert((x * x + y * y) * k <= 2 * VECTOR_LIMIT * VECTOR_LIMIT * k) by (nonlinear_arith)
            requires
                x * x + y * y <= 2 * VECTOR_LIMIT * VECTOR_LIMIT,
                k == 1_000_000,
        ;
        let s: u128 = (square(self.x) + square(self.y)) * 1_000_000;
        assert(s == norm2(self.x as int, self.y as int) * ONE * ONE) by (nonlinear_arith)
            requires
                s == (self.x * self.x + self.y * self.y) * 1_000_000,
        ;
        let l = isqrt(s) as i128;
        proof {
            lemma_fine_length_at_least_one(*self);
            assert(l == fine_length(*self));
            lemma_normalized_fits(*self);
            assert(x * k == self.x * ONE * ONE) by (nonlinear_arith)
                requires
                    x == self.x,
                    k == ONE * ONE,
            ;
            assert(y * k == self.y * ONE * ONE) by (nonlinear_arith)
                requires
                    y == self.y,
                    k == ONE * ONE,
            ;
        }
        assert(abs(x as int) * k <= VECTOR_LIMIT * k) by (nonlinear_arith)
            requires
                abs(x as int) <= VECTOR_LIMIT,
                k > 0,
        ;
        assert(abs(y as int) * k <= VECTOR_LIMIT * k) by (nonlinear_arith)
            requires
                abs(y as int) <= VECTOR_LIMIT,
                k > 0,
        ;
        let nx = (x * k) / l;
        let ny = (y * k) / l;
        Vector::new(nx as i64, ny as i64)
    }
}

} // verus!
