//! Three-component fixed-point vectors.

use vstd::prelude::*;
use crate::scalar::{
    abs, fx_add, fx_div, fx_mul, fx_sub, in_range, int_sqrt, is_int_sqrt, isqrt,
    lemma_int_sqrt_exists, lemma_product_bound, lemma_scale_squared, lemma_tdiv_abs, lemma_tdiv_le,
    sat, tdiv, Scalar, LIMIT, SCALE, UNIT_SLACK,
};

verus! {

/// The mathematical value of a [`Vec3`]: three raw integers.
pub struct V3 {
    pub x: int,
    pub y: int,
    pub z: int,
}

impl V3 {
    /// The vector with the given raw components.
    pub open spec fn new(x: int, y: int, z: int) -> V3 {
        V3 { x, y, z }
    }

    /// The zero vector.
    pub open spec fn zero() -> V3 {
        V3 { x: 0, y: 0, z: 0 }
    }

    /// The unit vector along the second axis, "up".
    pub open spec fn up() -> V3 {
        V3 { x: 0, y: SCALE as int, z: 0 }
    }

    /// Whether every component is a representable raw value.
    pub open spec fn in_range(self) -> bool {
        in_range(self.x) && in_range(self.y) && in_range(self.z)
    }

    /// Componentwise saturating sum.
    pub open spec fn add(self, o: V3) -> V3 {
        V3 { x: fx_add(self.x, o.x), y: fx_add(self.y, o.y), z: fx_add(self.z, o.z) }
    }

    /// Componentwise saturating difference.
    pub open spec fn sub(self, o: V3) -> V3 {
        V3 { x: fx_sub(self.x, o.x), y: fx_sub(self.y, o.y), z: fx_sub(self.z, o.z) }
    }

    /// Componentwise negation.
    pub open spec fn neg(self) -> V3 {
        V3 { x: -self.x, y: -self.y, z: -self.z }
    }

    /// Every component multiplied by the scalar `s`.
    pub open spec fn scale(self, s: int) -> V3 {
        V3 { x: fx_mul(self.x, s), y: fx_mul(self.y, s), z: fx_mul(self.z, s) }
    }

    /// Every component divided by the non-zero scalar `s`.
    pub open spec fn div(self, s: int) -> V3 {
        V3 { x: fx_div(self.x, s), y: fx_div(self.y, s), z: fx_div(self.z, s) }
    }

    /// Exact dot product, in squared raw units.
    pub open spec fn dot_raw(self, o: V3) -> int {
        self.x * o.x + self.y * o.y + self.z * o.z
    }

    /// Dot product, rounded once.
    pub open spec fn dot(self, o: V3) -> int {
        sat(tdiv(self.dot_raw(o), SCALE as int))
    }

    /// Exact cross product, in squared raw units.
    pub open spec fn cross_raw(self, o: V3) -> V3 {
        V3 {
            x: self.y * o.z - self.z * o.y,
            y: self.z * o.x - self.x * o.z,
            z: self.x * o.y - self.y * o.x,
        }
    }

    /// Cross product, each component rounded once.
    pub open spec fn cross(self, o: V3) -> V3 {
        V3 {
            x: sat(tdiv(self.y * o.z - self.z * o.y, SCALE as int)),
            y: sat(tdiv(self.z * o.x - self.x * o.z, SCALE as int)),
            z: sat(tdiv(self.x * o.y - self.y * o.x, SCALE as int)),
        }
    }

    /// Exact squared length, in squared raw units.
    pub open spec fn norm_sq(self) -> int {
        self.x * self.x + self.y * self.y + self.z * self.z
    }

    /// Squared length, rounded once.
    pub open spec fn length_squared(self) -> int {
        sat(tdiv(self.norm_sq(), SCALE as int))
    }

    /// Whether the length is within the normalisation tolerance of one: at
    /// least `1 - 0.000005` and at most `1 + 0.000001`.
    pub open spec fn is_unit(self) -> bool {
        (SCALE - UNIT_SLACK) * (SCALE - UNIT_SLACK) <= self.norm_sq() <= (SCALE + 1) * (SCALE + 1)
    }

    /// The vector of length one in this direction; `fallback` for the zero
    /// vector, which has no direction.
    pub open spec fn normalize_or(self, fallback: V3) -> V3 {
        if self.norm_sq() == 0 {
            fallback
        } else {
            let d = int_sqrt(self.norm_sq() * SCALE * SCALE);
            V3 {
                x: tdiv(self.x * SCALE * SCALE, d),
                y: tdiv(self.y * SCALE * SCALE, d),
                z: tdiv(self.z * SCALE * SCALE, d),
            }
        }
    }

    /// This vector if it is no longer than `max`, else shortened to at most
    /// that length along its direction.
    pub open spec fn clamp_length(self, max: int) -> V3 {
        if self.norm_sq() <= max * max {
            self
        } else {
            let d = int_sqrt(self.norm_sq()) + 1;
            V3 {
                x: tdiv(self.x * max, d),
                y: tdiv(self.y * max, d),
                z: tdiv(self.z * max, d),
            }
        }
    }
}

/// A vector of three fixed-point scalars.
#[derive(Clone, Copy, Debug)]
pub struct Vec3 {
    pub x: Scalar,
    pub y: Scalar,
    pub z: Scalar,
}

impl View for Vec3 {
    type V = V3;

    open spec fn view(&self) -> V3 {
        V3 { x: self.x@, y: self.y@, z: self.z@ }
    }
}

impl Vec3 {
    /// The vector with the given components.
    pub fn new(x: Scalar, y: Scalar, z: Scalar) -> (r: Vec3)
        ensures
            r@ == V3::new(x@, y@, z@),
    {
        Vec3 { x, y, z }
    }

    /// The vector with the given raw components, each saturated into range.
    pub fn from_raw(x: i64, y: i64, z: i64) -> (r: Vec3)
        ensures
            r@ == V3::new(sat(x as int), sat(y as int), sat(z as int)),
    {
        Vec3 { x: Scalar::from_raw(x), y: Scalar::from_raw(y), z: Scalar::from_raw(z) }
    }

    /// The zero vector.
    pub fn zero() -> (r: Vec3)
        ensures
            r@ == V3::zero(),
    {
        Vec3 { x: Scalar::zero(), y: Scalar::zero(), z: Scalar::zero() }
    }

    /// The unit vector along the second axis.
    pub fn up() -> (r: Vec3)
        ensures
            r@ == V3::up(),
    {
        Vec3 { x: Scalar::zero(), y: Scalar::one(), z: Scalar::zero() }
    }

    /// Componentwise saturating sum.
    pub fn add(self, o: Vec3) -> (r: Vec3)
        ensures
            r@ == self@.add(o@),
    {
        Vec3 { x: self.x.add(o.x), y: self.y.add(o.y), z: self.z.add(o.z) }
    }

    /// Componentwise saturating difference.
    pub fn sub(self, o: Vec3) -> (r: Vec3)
        ensures
            r@ == self@.sub(o@),
    {
        Vec3 { x: self.x.sub(o.x), y: self.y.sub(o.y), z: self.z.sub(o.z) }
    }

    /// Componentwise negation.
    pub fn neg(self) -> (r: Vec3)
        ensures
            r@ == self@.neg(),
    {
        Vec3 { x: self.x.neg(), y: self.y.neg(), z: self.z.neg() }
    }

    /// Every component multiplied by `s`.
    pub fn scale(self, s: Scalar) -> (r: Vec3)
        ensures
            r@ == self@.scale(s@),
    {
        Vec3 { x: self.x.mul(s), y: self.y.mul(s), z: self.z.mul(s) }
    }

    /// Every component divided by `s`.
    pub fn div(self, s: Scalar) -> (r: Vec3)
        requires
            s@ != 0,
        ensures
            r@ == self@.div(s@),
    {
        Vec3 { x: self.x.div(s), y: self.y.div(s), z: self.z.div(s) }
    }

    /// Dot product, rounded once.
    pub fn dot(self, o: Vec3) -> (r: Scalar)
        ensures
            r@ == self@.dot(o@),
    {
        let wide: i128 = dot3(self.x, self.y, self.z, o.x, o.y, o.z);
        Scalar::from_wide(wide / (SCALE as i128))
    }

    /// Cross product, each component rounded once.
    pub fn cross(self, o: Vec3) -> (r: Vec3)
        ensures
            r@ == self@.cross(o@),
    {
        let x: i128 = det2(self.y, self.z, o.y, o.z);
        let y: i128 = det2(self.z, self.x, o.z, o.x);
        let z: i128 = det2(self.x, self.y, o.x, o.y);
        Vec3 {
            x: Scalar::from_wide(x / (SCALE as i128)),
            y: Scalar::from_wide(y / (SCALE as i128)),
            z: Scalar::from_wide(z / (SCALE as i128)),
        }
    }

    /// Squared length, rounded once.
    pub fn length_squared(self) -> (r: Scalar)
        ensures
            r@ == self@.length_squared(),
    {
        let wide: i128 = dot3(self.x, self.y, self.z, self.x, self.y, self.z);
        Scalar::from_wide(wide / (SCALE as i128))
    }

    /// The vector of length one in this direction, or `fallback` for the zero
    /// vector.
    pub fn normalize_or(self, fallback: Vec3) -> (r: Vec3)
        ensures
            r@ == self@.normalize_or(fallback@),
            fallback@.is_unit() ==> r@.is_unit(),
    {

        let vx: i128 = self.x.raw() as i128;
        let vy: i128 = self.y.raw() as i128;
        let vz: i128 = self.z.raw() as i128;
        let n2: i128 = dot3(self.x, self.y, self.z, self.x, self.y, self.z);
        proof {
            lemma_norm_sq_zero(self@);
            if fallback@.is_unit() {
                lemma_normalize_or_is_unit(self@, fallback@);
            }
        }
        if n2 == 0 {
            return fallback;
        }
        let s: i128 = SCALE as i128;
        proof {
            lemma_unit_components(self@);
            lemma_scaled_twice(n2 as int, 3 * (LIMIT * LIMIT));
            lemma_scaled_twice(vx as int, LIMIT as int);
            lemma_scaled_twice(vy as int, LIMIT as int);
            lemma_scaled_twice(vz as int, LIMIT as int);
        }
        let d: i128 = isqrt((n2 * s * s) as u128) as i128;
        let x: i128 = vx * s * s / d;
        let y: i128 = vy * s * s / d;
        let z: i128 = vz * s * s / d;
        Vec3 { x: Scalar::from_wide(x), y: Scalar::from_wide(y), z: Scalar::from_wide(z) }
    }

    /// This vector if it is no longer than `max`, else shortened to at most
    /// that length along its direction.
    pub fn clamp_length(self, max: Scalar) -> (r: Vec3)
        ensures
            r@ == self@.clamp_length(max@),
    {
        let vx: i128 = self.x.raw() as i128;
        let vy: i128 = self.y.raw() as i128;
        let vz: i128 = self.z.raw() as i128;
        let n2: i128 = dot3(self.x, self.y, self.z, self.x, self.y, self.z);
        let m: i128 = max.raw() as i128;
        proof {
            lemma_norm_sq_zero(self@);
            lemma_product_bound(m as int, m as int);
        }
        if n2 <= m * m {
            return self;
        }
        let d: i128 = isqrt(n2 as u128) as i128 + 1;
        proof {
            lemma_clamped_components(self@, max@);
            lemma_product_bound(vx as int, m as int);
            lemma_product_bound(vy as int, m as int);
            lemma_product_bound(vz as int, m as int);
        }
        let x: i128 = vx * m / d;
        let y: i128 = vy * m / d;
        let z: i128 = vz * m / d;
        Vec3 { x: Scalar::from_wide(x), y: Scalar::from_wide(y), z: Scalar::from_wide(z) }
    }

    /// Whether the vector is exactly zero.
    pub fn is_zero(self) -> (r: bool)
        ensures
            r == (self@.norm_sq() == 0),
            r == (self@ == V3::zero()),
    {
        proof {
            lemma_norm_sq_zero(self@);
        }
        self.x.is_zero() && self.y.is_zero() && self.z.is_zero()
    }
}

/// Exact `a0 * b0 + a1 * b1 + a2 * b2` of raw values.
pub fn dot3(a0: Scalar, a1: Scalar, a2: Scalar, b0: Scalar, b1: Scalar, b2: Scalar) -> (r: i128)
    ensures
        r == a0@ * b0@ + a1@ * b1@ + a2@ * b2@,
        -3 * (LIMIT * LIMIT) <= r <= 3 * (LIMIT * LIMIT),
{
    let x0: i128 = a0.raw() as i128;
    let x1: i128 = a1.raw() as i128;
    let x2: i128 = a2.raw() as i128;
    let y0: i128 = b0.raw() as i128;
    let y1: i128 = b1.raw() as i128;
    let y2: i128 = b2.raw() as i128;
    proof {
        lemma_product_bound(x0 as int, y0 as int);
        lemma_product_bound(x1 as int, y1 as int);
        lemma_product_bound(x2 as int, y2 as int);
    }
    x0 * y0 + x1 * y1 + x2 * y2
}

/// Exact `a * d - b * c` of raw values.
pub fn det2(a: Scalar, b: Scalar, c: Scalar, d: Scalar) -> (r: i128)
    ensures
        r == a@ * d@ - b@ * c@,
        -2 * (LIMIT * LIMIT) <= r <= 2 * (LIMIT * LIMIT),
{
    let a: i128 = a.raw() as i128;
    let b: i128 = b.raw() as i128;
    let c: i128 = c.raw() as i128;
    let d: i128 = d.raw() as i128;
    proof {
        lemma_product_bound(a as int, d as int);
        lemma_product_bound(b as int, c as int);
    }
    a * d - b * c
}

/// A vector has squared length zero exactly when it is the zero vector.
pub proof fn lemma_norm_sq_zero(v: V3)
    ensures
        v.norm_sq() >= 0,
        v.norm_sq() == 0 <==> v == V3::zero(),
{
    lemma_square_nonneg(v.x);
    lemma_square_nonneg(v.y);
    lemma_square_nonneg(v.z);
}

/// Scaling a bounded integer by one million twice keeps it bounded.
pub proof fn lemma_scaled_twice(a: int, bound: int)
    requires
        -bound <= a <= bound,
    ensures
        -(bound * 1_000_000) <= a * SCALE <= bound * 1_000_000,
        -(bound * 1_000_000_000_000) <= a * SCALE * SCALE <= bound * 1_000_000_000_000,
{
    assert(-(bound * 1_000_000) <= a * SCALE <= bound * 1_000_000) by (nonlinear_arith)
        requires
            -bound <= a <= bound,
            SCALE == 1_000_000,
    ;
    assert(-(bound * 1_000_000_000_000) <= a * SCALE * SCALE <= bound * 1_000_000_000_000)
        by (nonlinear_arith)
        requires
            -bound <= a <= bound,
            SCALE == 1_000_000,
    ;
}

/// A number whose square is below `(d + 1)^2` is at most `d` in magnitude.
pub proof fn lemma_square_root_bound(a: int, n: int, d: int)
    requires
        d >= 0,
        a * a <= n < (d + 1) * (d + 1),
    ensures
        abs(a) <= d,
{
    let m = abs(a);
    assert(m * m == a * a) by (nonlinear_arith)
        requires
            m == a || m == -a,
    ;
    if m >= d + 1 {
        assert(m * m >= (d + 1) * (d + 1)) by (nonlinear_arith)
            requires
                m >= d + 1,
                d >= 0,
        ;
    }
}

/// The components of a normalised non-zero vector are representable: each is
/// at most one in magnitude.
pub proof fn lemma_unit_components(v: V3)
    requires
        v.norm_sq() > 0,
        v.in_range(),
    ensures
        int_sqrt(v.norm_sq() * SCALE * SCALE) >= SCALE,
        is_int_sqrt(v.norm_sq() * SCALE * SCALE, int_sqrt(v.norm_sq() * SCALE * SCALE)),
        v.norm_sq() * SCALE * SCALE <= 3 * (LIMIT * LIMIT) * SCALE * SCALE,
        v.normalize_or(V3::zero()).in_range(),
        abs(v.normalize_or(V3::zero()).x) <= SCALE,
        abs(v.normalize_or(V3::zero()).y) <= SCALE,
        abs(v.normalize_or(V3::zero()).z) <= SCALE,
{
    let n = v.norm_sq();
    let big = n * SCALE * SCALE;
    lemma_product_bound(v.x, v.x);
    lemma_product_bound(v.y, v.y);
    lemma_product_bound(v.z, v.z);
    lemma_square_nonneg(v.x);
    lemma_square_nonneg(v.y);
    lemma_square_nonneg(v.z);
    assert(big >= SCALE * SCALE && big <= 3 * (LIMIT * LIMIT) * SCALE * SCALE) by (nonlinear_arith)
        requires
            big == n * SCALE * SCALE,
            1 <= n <= 3 * (LIMIT * LIMIT),
            SCALE == 1_000_000,
    ;
    lemma_int_sqrt_exists(big);
    let d = int_sqrt(big);
    if d < SCALE {
        assert((d + 1) * (d + 1) <= SCALE * SCALE) by (nonlinear_arith)
            requires
                0 <= d,
                d + 1 <= SCALE,
        ;
    }
    lemma_unit_component(v.x, n, d);
    lemma_unit_component(v.y, n, d);
    lemma_unit_component(v.z, n, d);
}

/// One component of a normalised vector: `a` with `a^2 <= n`, scaled by the
/// reciprocal of the length `sqrt(n)`, is at most one in magnitude.
pub proof fn lemma_unit_component(a: int, n: int, d: int)
    requires
        0 <= a * a <= n,
        d >= SCALE,
        is_int_sqrt(n * SCALE * SCALE, d),
    ensures
        abs(tdiv(a * SCALE * SCALE, d)) <= SCALE,
{
    let s = a * SCALE;
    assert(s * s <= n * SCALE * SCALE) by (nonlinear_arith)
        requires
            s == a * SCALE,
            a * a <= n,
    ;
    lemma_square_root_bound(s, n * SCALE * SCALE, d);
    let t = abs(s);
    assert(abs(a * SCALE * SCALE) == t * SCALE) by (nonlinear_arith)
        requires
            s == a * SCALE,
            t == abs(s),
            SCALE > 0,
    ;
    assert(t * SCALE <= SCALE * d) by (nonlinear_arith)
        requires
            t <= d,
            SCALE > 0,
    ;
    lemma_tdiv_le(a * SCALE * SCALE, d, SCALE as int);
}

/// The components of a vector limited by `clamp_length` are no larger in
/// magnitude than they were.
pub proof fn lemma_clamp_length_shrinks(v: V3, max: int)
    ensures
        abs(v.clamp_length(max).x) <= abs(v.x),
        abs(v.clamp_length(max).y) <= abs(v.y),
        abs(v.clamp_length(max).z) <= abs(v.z),
        v.clamp_length(max).norm_sq() <= v.norm_sq(),
{
    let n = v.norm_sq();
    let r = v.clamp_length(max);
    lemma_norm_sq_zero(v);
    if n > max * max {
        lemma_int_sqrt_exists(n);
        let d = int_sqrt(n) + 1;
        lemma_square_root_bound(max, n, d - 1);
        lemma_clamped_component(v.x, max, d);
        lemma_clamped_component(v.y, max, d);
        lemma_clamped_component(v.z, max, d);
    }
    lemma_square_monotone(r.x, v.x);
    lemma_square_monotone(r.y, v.y);
    lemma_square_monotone(r.z, v.z);
}

/// A number no larger in magnitude has no larger a square.
pub proof fn lemma_square_monotone(a: int, b: int)
    requires
        abs(a) <= abs(b),
    ensures
        a * a <= b * b,
{
    let x = abs(a);
    let y = abs(b);
    assert(a * a == x * x && b * b == y * y && x * x <= y * y) by (nonlinear_arith)
        requires
            x == a || x == -a,
            y == b || y == -b,
            0 <= x <= y,
    ;
}

/// The components of a vector limited by `clamp_length` are representable.
pub proof fn lemma_clamped_components(v: V3, max: int)
    requires
        v.in_range(),
    ensures
        is_int_sqrt(v.norm_sq(), int_sqrt(v.norm_sq())),
        v.norm_sq() <= 3 * (LIMIT * LIMIT),
        v.clamp_length(max).in_range(),
{
    lemma_product_bound(v.x, v.x);
    lemma_product_bound(v.y, v.y);
    lemma_product_bound(v.z, v.z);
    lemma_norm_sq_zero(v);
    lemma_int_sqrt_exists(v.norm_sq());
    lemma_clamp_length_shrinks(v, max);
}

/// A vector limited to the length `max` is no longer than `max`.
pub proof fn lemma_clamp_length_bound(v: V3, max: int)
    ensures
        v.clamp_length(max).norm_sq() <= max * max,
{
    let n = v.norm_sq();
    lemma_norm_sq_zero(v);
    if n > max * max {
        lemma_int_sqrt_exists(n);
        let d = int_sqrt(n) + 1;
        let r = v.clamp_length(max);
        lemma_square_nonneg(max);
        lemma_clamped_square(v.x, max, d);
        lemma_clamped_square(v.y, max, d);
        lemma_clamped_square(v.z, max, d);
        let dd = d * d;
        let mm = max * max;
        let rn = r.norm_sq();
        assert(rn * dd == (r.x * r.x) * dd + (r.y * r.y) * dd + (r.z * r.z) * dd)
            by (nonlinear_arith)
            requires
                rn == r.x * r.x + r.y * r.y + r.z * r.z,
        ;
        assert(n * mm == (v.x * v.x) * mm + (v.y * v.y) * mm + (v.z * v.z) * mm)
            by (nonlinear_arith)
            requires
                n == v.x * v.x + v.y * v.y + v.z * v.z,
        ;
        assert(rn <= mm) by (nonlinear_arith)
            requires
                rn * dd <= n * mm,
                n < dd,
                dd == d * d,
                d > 0,
                mm >= 0,
                rn >= 0,
        ;
    }
}

/// The square of one shortened component, times the squared divisor, is at
/// most the square of the component times the squared bound.
proof fn lemma_clamped_square(a: int, max: int, d: int)
    requires
        d > 0,
    ensures
        tdiv(a * max, d) * tdiv(a * max, d) >= 0,
        (tdiv(a * max, d) * tdiv(a * max, d)) * (d * d) <= (a * a) * (max * max),
{
    let t = a * max;
    let r = tdiv(t, d);
    let q = abs(r);
    let m = abs(t);
    lemma_tdiv_abs(t, d);
    assert(q * q == r * r && r * r >= 0) by (nonlinear_arith)
        requires
            q == r || q == -r,
    ;
    assert(m * m == (a * a) * (max * max)) by (nonlinear_arith)
        requires
            m == a * max || m == -(a * max),
    ;
    assert((q * q) * (d * d) <= m * m) by (nonlinear_arith)
        requires
            0 <= q * d <= m,
    ;
}

/// One component of a shortened vector: scaling `a` by `max / d` with
/// `|max| < d` does not enlarge it.
pub proof fn lemma_clamped_component(a: int, max: int, d: int)
    requires
        abs(max) < d,
    ensures
        abs(tdiv(a * max, d)) <= abs(a),
{
    let t = abs(a);
    let m = abs(max);
    assert(abs(a * max) == t * m && t * m <= t * d) by (nonlinear_arith)
        requires
            t == abs(a),
            m == abs(max),
            m < d,
    ;
    lemma_tdiv_le(a * max, d, t);
}

/// How the square of one normalised component, times the squared divisor,
/// brackets the square of the scaled input component.
pub proof fn lemma_component_bracket(a: int, d: int)
    requires
        d > 0,
    ensures
        ({
            let r = tdiv(a * SCALE * SCALE, d);
            &&& (r * r) * (d * d) <= (a * a) * (SCALE * SCALE) * (SCALE * SCALE)
            &&& (a * a) * (SCALE * SCALE) * (SCALE * SCALE) < (r * r + 2 * abs(r) + 1) * (d * d)
        }),
{
    let t = a * SCALE * SCALE;
    let r = tdiv(t, d);
    let q = abs(r);
    let m = abs(t);
    lemma_tdiv_abs(t, d);
    assert(q * q == r * r) by (nonlinear_arith)
        requires
            q == r || q == -r,
    ;
    assert(m * m == t * t) by (nonlinear_arith)
        requires
            m == t || m == -t,
    ;
    assert(t * t == (a * a) * (SCALE * SCALE) * (SCALE * SCALE)) by (nonlinear_arith)
        requires
            t == a * SCALE * SCALE,
    ;
    assert((q * d) * (q * d) <= m * m) by (nonlinear_arith)
        requires
            0 <= q * d <= m,
    ;
    assert((q * d) * (q * d) == (q * q) * (d * d)) by (nonlinear_arith);
    assert(m * m < ((q + 1) * d) * ((q + 1) * d)) by (nonlinear_arith)
        requires
            0 <= m < (q + 1) * d,
    ;
    assert(((q + 1) * d) * ((q + 1) * d) == (q * q + 2 * q + 1) * (d * d)) by (nonlinear_arith);
}

/// Normalising gives a vector whose length is within tolerance of one, if
/// the fallback for the zero vector is such a vector.
pub proof fn lemma_normalize_or_is_unit(v: V3, fallback: V3)
    requires
        v.in_range(),
        fallback.is_unit(),
    ensures
        v.normalize_or(fallback).is_unit(),
{
    lemma_scale_squared();
    lemma_norm_sq_zero(v);
    let one = SCALE as int;
    if v.norm_sq() != 0 {
        lemma_unit_components(v);
        let n = v.norm_sq();
        let ss = SCALE * SCALE;
        let big = n * SCALE * SCALE;
        let d = int_sqrt(big);
        let r = v.normalize_or(fallback);
        lemma_component_bracket(v.x, d);
        lemma_component_bracket(v.y, d);
        lemma_component_bracket(v.z, d);
        let rn = r.norm_sq();
        let dd = d * d;
        lemma_norm_sq_zero(r);
        let total = n * ss * ss;
        assert(total == (v.x * v.x) * ss * ss + (v.y * v.y) * ss * ss + (v.z * v.z) * ss * ss)
            by (nonlinear_arith)
            requires
                total == n * ss * ss,
                n == v.x * v.x + v.y * v.y + v.z * v.z,
        ;
        assert(rn * dd == (r.x * r.x) * dd + (r.y * r.y) * dd + (r.z * r.z) * dd)
            by (nonlinear_arith)
            requires
                rn == r.x * r.x + r.y * r.y + r.z * r.z,
        ;
        assert(rn * dd <= total);
        let slack = 2 * abs(r.x) + 2 * abs(r.y) + 2 * abs(r.z) + 3;
        assert((rn + slack) * dd == (r.x * r.x + 2 * abs(r.x) + 1) * dd + (r.y * r.y + 2 * abs(r.y)
            + 1) * dd + (r.z * r.z + 2 * abs(r.z) + 1) * dd) by (nonlinear_arith)
            requires
                rn == r.x * r.x + r.y * r.y + r.z * r.z,
                slack == 2 * abs(r.x) + 2 * abs(r.y) + 2 * abs(r.z) + 3,
        ;
        assert(total < (rn + slack) * dd);
        assert(total == big * ss) by (nonlinear_arith)
            requires
                total == n * ss * ss,
                big == n * SCALE * SCALE,
                ss == SCALE * SCALE,
        ;
        assert(rn < (one + 1) * (one + 1)) by (nonlinear_arith)
            requires
                rn * dd <= big * ss,
                big < (d + 1) * (d + 1),
                dd == d * d,
                ss == one * one,
                d >= one,
                one > 0,
                rn >= 0,
        ;
        assert(rn + slack > ss) by (nonlinear_arith)
            requires
                big * ss < (rn + slack) * dd,
                dd <= big,
                dd == d * d,
                d > 0,
                ss > 0,
        ;
        assert(slack <= 6 * one + 3);
        assert((one - UNIT_SLACK) * (one - UNIT_SLACK) <= ss - 6 * one - 3) by (nonlinear_arith)
            requires
                one == 1_000_000,
                UNIT_SLACK == 5,
                ss == one * one,
        ;
    }
}

/// "Up" is a unit vector.
pub proof fn lemma_up_is_unit()
    ensures
        V3::up().is_unit(),
{
    let one = SCALE as int;
    assert(V3::up().norm_sq() == one * one) by (nonlinear_arith)
        requires
            V3::up().norm_sq() == 0 * 0 + one * one + 0 * 0,
    ;
    assert((one - UNIT_SLACK) * (one - UNIT_SLACK) <= one * one <= (one + 1) * (one + 1))
        by (nonlinear_arith)
        requires
            one == 1_000_000,
            UNIT_SLACK == 5,
    ;
}

/// A square is non-negative, and zero only for zero.
pub proof fn lemma_square_nonneg(a: int)
    ensures
        a * a >= 0,
        a * a == 0 <==> a == 0,
{
    assert(a * a >= 0 && (a * a == 0 <==> a == 0)) by (nonlinear_arith);
}

} // verus!
