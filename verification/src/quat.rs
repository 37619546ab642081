//! Fixed-point quaternions for orientations.

use vstd::arithmetic::mul::{
    lemma_mul_by_zero_is_zero, lemma_mul_is_associative, lemma_mul_is_commutative,
    lemma_mul_is_distributive_add_other_way, lemma_mul_unary_negation,
};
use vstd::prelude::*;
use crate::scalar::{
    abs, fx_add, in_range, int_sqrt, is_int_sqrt, isqrt, lemma_int_sqrt_exists,
    lemma_mul_bound, lemma_product_bound, lemma_scale_squared, lemma_tdiv_abs, sat, tdiv, Scalar,
    LIMIT, SCALE, UNIT_SLACK,
};
use crate::vec3::{
    lemma_component_bracket, lemma_scaled_twice, lemma_square_nonneg, lemma_unit_component, Vec3,
    V3,
};

verus! {

/// The mathematical value of a [`Quat`]: four raw integers, the scalar part
/// last.
pub struct Q4 {
    pub x: int,
    pub y: int,
    pub z: int,
    pub w: int,
}

impl Q4 {
    /// The quaternion with the given raw components.
    pub open spec fn new(x: int, y: int, z: int, w: int) -> Q4 {
        Q4 { x, y, z, w }
    }

    /// The identity rotation.
    pub open spec fn identity() -> Q4 {
        Q4 { x: 0, y: 0, z: 0, w: SCALE as int }
    }

    /// The quaternion with vector part `v` and scalar part zero.
    pub open spec fn pure(v: V3) -> Q4 {
        Q4 { x: v.x, y: v.y, z: v.z, w: 0 }
    }

    /// Whether every component is a representable raw value.
    pub open spec fn in_range(self) -> bool {
        in_range(self.x) && in_range(self.y) && in_range(self.z) && in_range(self.w)
    }

    /// Componentwise saturating sum.
    pub open spec fn add(self, o: Q4) -> Q4 {
        Q4 {
            x: fx_add(self.x, o.x),
            y: fx_add(self.y, o.y),
            z: fx_add(self.z, o.z),
            w: fx_add(self.w, o.w),
        }
    }

    /// Hamilton product `self * o`, each component rounded once.
    pub open spec fn mul(self, o: Q4) -> Q4 {
        Q4 {
            x: sat(tdiv(self.w * o.x + self.x * o.w + self.y * o.z - self.z * o.y, SCALE as int)),
            y: sat(tdiv(self.w * o.y - self.x * o.z + self.y * o.w + self.z * o.x, SCALE as int)),
            z: sat(tdiv(self.w * o.z + self.x * o.y - self.y * o.x + self.z * o.w, SCALE as int)),
            w: sat(tdiv(self.w * o.w - self.x * o.x - self.y * o.y - self.z * o.z, SCALE as int)),
        }
    }

    /// Exact squared length, in squared raw units.
    pub open spec fn norm_sq(self) -> int {
        self.x * self.x + self.y * self.y + self.z * self.z + self.w * self.w
    }

    /// Whether the length is within the renormalisation tolerance of one:
    /// at least `1 - 0.000005` and at most `1 + 0.000001`.
    pub open spec fn is_unit(self) -> bool {
        (SCALE - UNIT_SLACK) * (SCALE - UNIT_SLACK) <= self.norm_sq() <= (SCALE + 1) * (SCALE + 1)
    }

    /// The quaternion of length one in this direction; the identity for the
    /// zero quaternion, which has no direction.
    pub open spec fn normalize(self) -> Q4 {
        if self.norm_sq() == 0 {
            Q4::identity()
        } else {
            let d = int_sqrt(self.norm_sq() * SCALE * SCALE);
            Q4 {
                x: tdiv(self.x * SCALE * SCALE, d),
                y: tdiv(self.y * SCALE * SCALE, d),
                z: tdiv(self.z * SCALE * SCALE, d),
                w: tdiv(self.w * SCALE * SCALE, d),
            }
        }
    }

    /// The vector part.
    pub open spec fn axis(self) -> V3 {
        V3 { x: self.x, y: self.y, z: self.z }
    }

    /// The vector `v` rotated by this quaternion, each component rounded
    /// once: `v (w^2 - b.b) + 2 b (v.b) + 2 w (b x v)` with `b` the vector
    /// part.
    pub open spec fn rotate(self, v: V3) -> V3 {
        let b = self.axis();
        let c = self.w * self.w - b.norm_sq();
        let vb = v.dot_raw(b);
        V3 {
            x: sat(
                tdiv(
                    v.x * c + 2 * (b.x * vb) + 2 * (self.w * (b.y * v.z - b.z * v.y)),
                    SCALE * SCALE,
                ),
            ),
            y: sat(
                tdiv(
                    v.y * c + 2 * (b.y * vb) + 2 * (self.w * (b.z * v.x - b.x * v.z)),
                    SCALE * SCALE,
                ),
            ),
            z: sat(
                tdiv(
                    v.z * c + 2 * (b.z * vb) + 2 * (self.w * (b.x * v.y - b.y * v.x)),
                    SCALE * SCALE,
                ),
            ),
        }
    }

    /// The first-order update of the orientation at angular velocity `omega`
    /// over the time `dt`, before it is renormalised:
    /// `q + (omega * dt/2, 0) * q`.
    pub open spec fn turned(self, omega: V3, dt: int) -> Q4 {
        let half = omega.scale(tdiv(dt, 2));
        self.add(Q4::pure(half).mul(self))
    }

    /// The orientation after turning at angular velocity `omega` for the time
    /// `dt`, to first order: the update, renormalised.
    pub open spec fn integrate(self, omega: V3, dt: int) -> Q4 {
        self.turned(omega, dt).normalize()
    }
}

/// A quaternion of four fixed-point scalars, the scalar part last.
#[derive(Clone, Copy, Debug)]
pub struct Quat {
    pub x: Scalar,
    pub y: Scalar,
    pub z: Scalar,
    pub w: Scalar,
}

impl View for Quat {
    type V = Q4;

    open spec fn view(&self) -> Q4 {
        Q4 { x: self.x@, y: self.y@, z: self.z@, w: self.w@ }
    }
}

impl Quat {
    /// The quaternion with the given components.
    pub fn from_xyzw(x: Scalar, y: Scalar, z: Scalar, w: Scalar) -> (r: Quat)
        ensures
            r@ == Q4::new(x@, y@, z@, w@),
    {
        Quat { x, y, z, w }
    }

    /// The quaternion with the given raw components, each saturated into
    /// range.
    pub fn from_raw(x: i64, y: i64, z: i64, w: i64) -> (r: Quat)
        ensures
            r@ == Q4::new(sat(x as int), sat(y as int), sat(z as int), sat(w as int)),
    {
        Quat {
            x: Scalar::from_raw(x),
            y: Scalar::from_raw(y),
            z: Scalar::from_raw(z),
            w: Scalar::from_raw(w),
        }
    }

    /// The identity rotation.
    pub fn identity() -> (r: Quat)
        ensures
            r@ == Q4::identity(),
    {
        Quat { x: Scalar::zero(), y: Scalar::zero(), z: Scalar::zero(), w: Scalar::one() }
    }

    /// The quaternion with vector part `v` and scalar part zero.
    pub fn pure(v: Vec3) -> (r: Quat)
        ensures
            r@ == Q4::pure(v@),
    {
        Quat { x: v.x, y: v.y, z: v.z, w: Scalar::zero() }
    }

    /// Componentwise saturating sum.
    pub fn add(self, o: Quat) -> (r: Quat)
        ensures
            r@ == self@.add(o@),
    {
        Quat { x: self.x.add(o.x), y: self.y.add(o.y), z: self.z.add(o.z), w: self.w.add(o.w) }
    }

    /// Hamilton product `self * o`, each component rounded once.
    pub fn mul(self, o: Quat) -> (r: Quat)
        ensures
            r@ == self@.mul(o@),
    {
        let s: i128 = SCALE as i128;
        let x: i128 = self.w.wide_mul(o.x) + self.x.wide_mul(o.w) + self.y.wide_mul(o.z)
            - self.z.wide_mul(o.y);
        let y: i128 = self.w.wide_mul(o.y) - self.x.wide_mul(o.z) + self.y.wide_mul(o.w)
            + self.z.wide_mul(o.x);
        let z: i128 = self.w.wide_mul(o.z) + self.x.wide_mul(o.y) - self.y.wide_mul(o.x)
            + self.z.wide_mul(o.w);
        let w: i128 = self.w.wide_mul(o.w) - self.x.wide_mul(o.x) - self.y.wide_mul(o.y)
            - self.z.wide_mul(o.z);
        Quat {
            x: Scalar::from_wide(x / s),
            y: Scalar::from_wide(y / s),
            z: Scalar::from_wide(z / s),
            w: Scalar::from_wide(w / s),
        }
    }

    /// The quaternion of length one in this direction, or the identity for
    /// the zero quaternion.
    pub fn normalize(self) -> (r: Quat)
        ensures
            r@ == self@.normalize(),
            r@.is_unit(),
    {
        let qx: i128 = self.x.raw() as i128;
        let qy: i128 = self.y.raw() as i128;
        let qz: i128 = self.z.raw() as i128;
        let qw: i128 = self.w.raw() as i128;
        let n2: i128 = self.x.wide_mul(self.x) + self.y.wide_mul(self.y) + self.z.wide_mul(self.z)
            + self.w.wide_mul(self.w);
        proof {
            lemma_normalize_is_unit(self@);
            lemma_square_nonneg(self.x@);
            lemma_square_nonneg(self.y@);
            lemma_square_nonneg(self.z@);
            lemma_square_nonneg(self.w@);
        }
        if n2 == 0 {
            return Quat::identity();
        }
        let s: i128 = SCALE as i128;
        proof {
            lemma_unit_quat_components(self@);
            lemma_scaled_twice(n2 as int, 4 * (LIMIT * LIMIT));
            lemma_scaled_twice(qx as int, LIMIT as int);
            lemma_scaled_twice(qy as int, LIMIT as int);
            lemma_scaled_twice(qz as int, LIMIT as int);
            lemma_scaled_twice(qw as int, LIMIT as int);
        }
        let d: i128 = isqrt((n2 * s * s) as u128) as i128;
        let x: i128 = qx * s * s / d;
        let y: i128 = qy * s * s / d;
        let z: i128 = qz * s * s / d;
        let w: i128 = qw * s * s / d;
        Quat {
            x: Scalar::from_wide(x),
            y: Scalar::from_wide(y),
            z: Scalar::from_wide(z),
            w: Scalar::from_wide(w),
        }
    }

    /// The vector `v` rotated by this quaternion, each component rounded
    /// once.
    pub fn rotate(self, v: Vec3) -> (r: Vec3)
        ensures
            r@ == self@.rotate(v@),
    {
        let w: i128 = self.w.raw() as i128;
        let bx: i128 = self.x.raw() as i128;
        let by: i128 = self.y.raw() as i128;
        let bz: i128 = self.z.raw() as i128;
        let vx: i128 = v.x.raw() as i128;
        let vy: i128 = v.y.raw() as i128;
        let vz: i128 = v.z.raw() as i128;
        let c: i128 = self.w.wide_mul(self.w) - (self.x.wide_mul(self.x) + self.y.wide_mul(self.y)
            + self.z.wide_mul(self.z));
        let vb: i128 = v.x.wide_mul(self.x) + v.y.wide_mul(self.y) + v.z.wide_mul(self.z);
        let cx: i128 = self.y.wide_mul(v.z) - self.z.wide_mul(v.y);
        let cy: i128 = self.z.wide_mul(v.x) - self.x.wide_mul(v.z);
        let cz: i128 = self.x.wide_mul(v.y) - self.y.wide_mul(v.x);
        let unit: i128 = 1_000_000_000_000;
        proof {
            lemma_scale_squared();
            let l = LIMIT as int;
            let ll = LIMIT * LIMIT;
            lemma_mul_bound(vx as int, c as int, l, 4 * ll);
            lemma_mul_bound(vy as int, c as int, l, 4 * ll);
            lemma_mul_bound(vz as int, c as int, l, 4 * ll);
            lemma_mul_bound(bx as int, vb as int, l, 3 * ll);
            lemma_mul_bound(by as int, vb as int, l, 3 * ll);
            lemma_mul_bound(bz as int, vb as int, l, 3 * ll);
            lemma_mul_bound(w as int, cx as int, l, 2 * ll);
            lemma_mul_bound(w as int, cy as int, l, 2 * ll);
            lemma_mul_bound(w as int, cz as int, l, 2 * ll);
            assert(l * (4 * ll) == 4_000_000_000_000_000_000_000_000_000_000_000_000)
                by (nonlinear_arith)
                requires
                    l == 1_000_000_000_000,
                    ll == 1_000_000_000_000_000_000_000_000,
            ;
            assert(l * (3 * ll) == 3_000_000_000_000_000_000_000_000_000_000_000_000)
                by (nonlinear_arith)
                requires
                    l == 1_000_000_000_000,
                    ll == 1_000_000_000_000_000_000_000_000,
            ;
            assert(l * (2 * ll) == 2_000_000_000_000_000_000_000_000_000_000_000_000)
                by (nonlinear_arith)
                requires
                    l == 1_000_000_000_000,
                    ll == 1_000_000_000_000_000_000_000_000,
            ;
        }
        let x: i128 = vx * c + 2 * (bx * vb) + 2 * (w * cx);
        let y: i128 = vy * c + 2 * (by * vb) + 2 * (w * cy);
        let z: i128 = vz * c + 2 * (bz * vb) + 2 * (w * cz);
        Vec3 {
            x: Scalar::from_wide(x / unit),
            y: Scalar::from_wide(y / unit),
            z: Scalar::from_wide(z / unit),
        }
    }

    /// The orientation after turning at angular velocity `omega` for the time
    /// `dt`, to first order.
    pub fn integrate(self, omega: Vec3, dt: Scalar) -> (r: Quat)
        ensures
            r@ == self@.integrate(omega@, dt@),
            r@.is_unit(),
    {
        let half_dt: Scalar = Scalar::from_raw(dt.raw() / 2);
        let half: Vec3 = omega.scale(half_dt);
        self.add(Quat::pure(half).mul(self)).normalize()
    }
}

/// The components of a normalised non-zero quaternion are representable.
pub proof fn lemma_unit_quat_components(q: Q4)
    requires
        q.norm_sq() > 0,
        q.in_range(),
    ensures
        int_sqrt(q.norm_sq() * SCALE * SCALE) >= SCALE,
        is_int_sqrt(q.norm_sq() * SCALE * SCALE, int_sqrt(q.norm_sq() * SCALE * SCALE)),
        q.norm_sq() <= 4 * (LIMIT * LIMIT),
        q.normalize().in_range(),
        abs(q.normalize().x) <= SCALE,
        abs(q.normalize().y) <= SCALE,
        abs(q.normalize().z) <= SCALE,
        abs(q.normalize().w) <= SCALE,
{
    let n = q.norm_sq();
    let big = n * SCALE * SCALE;
    lemma_product_bound(q.x, q.x);
    lemma_product_bound(q.y, q.y);
    lemma_product_bound(q.z, q.z);
    lemma_product_bound(q.w, q.w);
    lemma_square_nonneg(q.x);
    lemma_square_nonneg(q.y);
    lemma_square_nonneg(q.z);
    lemma_square_nonneg(q.w);
    assert(big >= SCALE * SCALE) by (nonlinear_arith)
        requires
            big == n * SCALE * SCALE,
            1 <= n,
            SCALE == 1_000_000,
    ;
    lemma_int_sqrt_exists(big);
    let d = int_sqrt(big);
    if d < SCALE {
        assert((d + 1) * (d + 1) <= SCALE * SCALE) by (nonlinear_arith)
            requires
                0 <= d,
                d + 1 <= SCALE,
        ;
    }
    lemma_unit_component(q.x, n, d);
    lemma_unit_component(q.y, n, d);
    lemma_unit_component(q.z, n, d);
    lemma_unit_component(q.w, n, d);
}

/// Renormalisation gives a quaternion whose length is within tolerance of
/// one, whatever it is applied to.
pub proof fn lemma_normalize_is_unit(q: Q4)
    requires
        q.in_range(),
    ensures
        q.normalize().is_unit(),
{
    lemma_scale_squared();
    lemma_square_nonneg(q.x);
    lemma_square_nonneg(q.y);
    lemma_square_nonneg(q.z);
    lemma_square_nonneg(q.w);
    let one = SCALE as int;
    if q.norm_sq() == 0 {
        assert(Q4::identity().norm_sq() == one * one) by (nonlinear_arith)
            requires
                Q4::identity().norm_sq() == 0 * 0 + 0 * 0 + 0 * 0 + one * one,
        ;
        assert((one - UNIT_SLACK) * (one - UNIT_SLACK) <= one * one <= (one + 1) * (one + 1))
            by (nonlinear_arith)
            requires
                one == 1_000_000,
                UNIT_SLACK == 5,
        ;
    } else {
        lemma_unit_quat_components(q);
        let n = q.norm_sq();
        let ss = SCALE * SCALE;
        let big = n * SCALE * SCALE;
        let d = int_sqrt(big);
        let r = q.normalize();
        lemma_component_bracket(q.x, d);
        lemma_component_bracket(q.y, d);
        lemma_component_bracket(q.z, d);
        lemma_component_bracket(q.w, d);
        let rn = r.norm_sq();
        let dd = d * d;
        lemma_square_nonneg(r.x);
        lemma_square_nonneg(r.y);
        lemma_square_nonneg(r.z);
        lemma_square_nonneg(r.w);
        let total = n * ss * ss;
        assert(total == (q.x * q.x) * ss * ss + (q.y * q.y) * ss * ss + (q.z * q.z) * ss * ss + (q.w
            * q.w) * ss * ss) by (nonlinear_arith)
            requires
                total == n * ss * ss,
                n == q.x * q.x + q.y * q.y + q.z * q.z + q.w * q.w,
        ;
        assert(rn * dd == (r.x * r.x) * dd + (r.y * r.y) * dd + (r.z * r.z) * dd + (r.w * r.w)
            * dd) by (nonlinear_arith)
            requires
                rn == r.x * r.x + r.y * r.y + r.z * r.z + r.w * r.w,
        ;
        assert(rn * dd <= total);
        let slack = 2 * abs(r.x) + 2 * abs(r.y) + 2 * abs(r.z) + 2 * abs(r.w) + 4;
        assert((rn + slack) * dd == (r.x * r.x + 2 * abs(r.x) + 1) * dd + (r.y * r.y + 2 * abs(r.y)
            + 1) * dd + (r.z * r.z + 2 * abs(r.z) + 1) * dd + (r.w * r.w + 2 * abs(r.w) + 1) * dd)
            by (nonlinear_arith)
            requires
                rn == r.x * r.x + r.y * r.y + r.z * r.z + r.w * r.w,
                slack == 2 * abs(r.x) + 2 * abs(r.y) + 2 * abs(r.z) + 2 * abs(r.w) + 4,
        ;
        assert(total < (rn + slack) * dd);
        // d^2 <= big < (d + 1)^2 and total == big * one^2
        assert(total == big * ss) by (nonlinear_arith)
            requires
                total == n * ss * ss,
                big == n * SCALE * SCALE,
                ss == SCALE * SCALE,
        ;
        assert(rn < (one + 1) * (one + 1)) by (nonlinear_arith)
            requires
                rn * dd <= big * ss,
                big < (d + 1) * (d + 1),
                dd == d * d,
                ss == one * one,
                d >= one,
                one > 0,
                rn >= 0,
        ;
        assert(rn + slack > ss) by (nonlinear_arith)
            requires
                big * ss < (rn + slack) * dd,
                dd <= big,
                dd == d * d,
                d > 0,
                ss > 0,
        ;
        assert(slack <= 8 * one + 4);
        assert((one - UNIT_SLACK) * (one - UNIT_SLACK) <= ss - 8 * one - 4) by (nonlinear_arith)
            requires
                one == 1_000_000,
                UNIT_SLACK == 5,
                ss == one * one,
        ;
    }
}

/// A truncated quotient by one that is `t` leaves a dividend within one of
/// `t` whole units.
proof fn lemma_rounding_error(p: int, t: int)
    requires
        tdiv(p, SCALE as int) == t,
    ensures
        abs(p - SCALE * t) < SCALE,
{
    lemma_tdiv_abs(p, SCALE as int);
    let q = abs(t);
    let m = abs(p);
    assert(q * SCALE <= m < (q + 1) * SCALE);
    assert(q * SCALE == abs(SCALE * t) && (q + 1) * SCALE == q * SCALE + SCALE)
        by (nonlinear_arith)
        requires
            q == abs(t),
            SCALE > 0,
    ;
    assert((p >= 0 ==> SCALE * t >= 0) && (p <= 0 ==> SCALE * t <= 0)) by (nonlinear_arith)
        requires
            p >= 0 ==> t >= 0,
            p <= 0 ==> t <= 0,
            SCALE > 0,
    ;
}

/// The product of an error below one and a component is at most the square
/// of the component, short of one unit for each unit of its magnitude.
proof fn lemma_error_times_component(e: int, a: int)
    requires
        abs(e) < SCALE,
    ensures
        e * a <= (SCALE - 1) * (a * a),
{
    let m = abs(a);
    assert(e * a <= (SCALE - 1) * m) by (nonlinear_arith)
        requires
            -(SCALE - 1) <= e <= SCALE - 1,
            m == a || m == -a,
            m >= 0,
    ;
    assert((SCALE - 1) * m <= (SCALE - 1) * (a * a)) by (nonlinear_arith)
        requires
            m == a || m == -a,
            m >= 0,
            SCALE >= 1,
    ;
}

/// A sum of three products, times `k`, term by term.
proof fn lemma_expand(a: int, b: int, c: int, u: int, v: int, w: int, k: int)
    ensures
        (a * u + b * v + c * w) * k == a * (u * k) + b * (v * k) + c * (w * k),
        (0 * k + a * u + b * v + c * w) * k == a * (u * k) + b * (v * k) + c * (w * k),
        a * (-u) == -(a * u),
        b * (-v) == -(b * v),
        c * (-w) == -(c * w),
        (-u) * k == -(u * k),
        (-v) * k == -(v * k),
        (-w) * k == -(w * k),
        a * (-(u * k)) == -(a * (u * k)),
        b * (-(v * k)) == -(b * (v * k)),
        c * (-(w * k)) == -(c * (w * k)),
        u * k == k * u,
        v * k == k * v,
        w * k == k * w,
{
    lemma_mul_is_distributive_add_other_way(k, a * u + b * v, c * w);
    lemma_mul_is_distributive_add_other_way(k, a * u, b * v);
    lemma_mul_is_distributive_add_other_way(k, 0 * k + a * u + b * v, c * w);
    lemma_mul_is_distributive_add_other_way(k, 0 * k + a * u, b * v);
    lemma_mul_is_distributive_add_other_way(k, 0 * k, a * u);
    lemma_mul_by_zero_is_zero(k);
    lemma_mul_is_associative(a, u, k);
    lemma_mul_is_associative(b, v, k);
    lemma_mul_is_associative(c, w, k);
    lemma_mul_unary_negation(a, u);
    lemma_mul_unary_negation(b, v);
    lemma_mul_unary_negation(c, w);
    lemma_mul_unary_negation(u, k);
    lemma_mul_unary_negation(v, k);
    lemma_mul_unary_negation(w, k);
    lemma_mul_unary_negation(a, u * k);
    lemma_mul_unary_negation(b, v * k);
    lemma_mul_unary_negation(c, w * k);
    lemma_mul_is_commutative(u, k);
    lemma_mul_is_commutative(v, k);
    lemma_mul_is_commutative(w, k);
}

/// `(p + s a) a` is `p a + s a^2`.
proof fn lemma_shifted(p: int, s: int, a: int)
    ensures
        (p + s * a) * a == p * a + s * (a * a),
{
    lemma_mul_is_distributive_add_other_way(a, p, s * a);
    lemma_mul_is_associative(s, a, a);
}

/// The orientation update always has something to renormalise: for an
/// orientation that is not zero, and so for every unit orientation, the sum
/// `q + (h, 0) * q` is not zero, whatever the rotation `h`. The identity
/// that `normalize` gives for zero never replaces a unit orientation.
pub proof fn lemma_update_is_not_zero(q: Q4, h: V3)
    requires
        q.norm_sq() > 0,
        abs(q.x) < LIMIT,
        abs(q.y) < LIMIT,
        abs(q.z) < LIMIT,
        abs(q.w) < LIMIT,
    ensures
        q.add(Q4::pure(h).mul(q)).norm_sq() > 0,
{
    let p = Q4::pure(h).mul(q);
    let sum = q.add(p);
    lemma_square_nonneg(sum.x);
    lemma_square_nonneg(sum.y);
    lemma_square_nonneg(sum.z);
    lemma_square_nonneg(sum.w);
    lemma_square_nonneg(q.x);
    lemma_square_nonneg(q.y);
    lemma_square_nonneg(q.z);
    lemma_square_nonneg(q.w);
    if sum.norm_sq() == 0 {
        let one = SCALE as int;
        let px = 0 * q.x + h.x * q.w + h.y * q.z - h.z * q.y;
        let py = 0 * q.y - h.x * q.z + h.y * q.w + h.z * q.x;
        let pz = 0 * q.z + h.x * q.y - h.y * q.x + h.z * q.w;
        let pw = 0 * q.w - h.x * q.x - h.y * q.y - h.z * q.z;
        assert(p.x == sat(tdiv(px, one)));
        assert(p.y == sat(tdiv(py, one)));
        assert(p.z == sat(tdiv(pz, one)));
        assert(p.w == sat(tdiv(pw, one)));
        assert(p.x == -q.x && p.y == -q.y && p.z == -q.z && p.w == -q.w);
        lemma_rounding_error(px, -q.x);
        lemma_rounding_error(py, -q.y);
        lemma_rounding_error(pz, -q.z);
        lemma_rounding_error(pw, -q.w);
        let ex = px + one * q.x;
        let ey = py + one * q.y;
        let ez = pz + one * q.z;
        let ew = pw + one * q.w;
        assert(one * (-q.x) == -(one * q.x) && one * (-q.y) == -(one * q.y) && one * (-q.z) == -(
        one * q.z) && one * (-q.w) == -(one * q.w)) by (nonlinear_arith);
        lemma_error_times_component(ex, q.x);
        lemma_error_times_component(ey, q.y);
        lemma_error_times_component(ez, q.z);
        lemma_error_times_component(ew, q.w);
        let n = q.norm_sq();
        lemma_expand(h.x, h.y, h.z, q.w, q.z, -q.y, q.x);
        lemma_expand(h.x, h.y, h.z, -q.z, q.w, q.x, q.y);
        lemma_expand(h.x, h.y, h.z, q.y, -q.x, q.w, q.z);
        lemma_expand(h.x, h.y, h.z, -q.x, -q.y, -q.z, q.w);
        assert(px * q.x + py * q.y + pz * q.z + pw * q.w == 0);
        lemma_shifted(px, one, q.x);
        lemma_shifted(py, one, q.y);
        lemma_shifted(pz, one, q.z);
        lemma_shifted(pw, one, q.w);
        assert(one * n == one * (q.x * q.x) + one * (q.y * q.y) + one * (q.z * q.z) + one * (q.w
            * q.w)) by (nonlinear_arith)
            requires
                n == q.x * q.x + q.y * q.y + q.z * q.z + q.w * q.w,
        ;
        assert(ex * q.x + ey * q.y + ez * q.z + ew * q.w == one * n);
        assert((one - 1) * n == (one - 1) * (q.x * q.x) + (one - 1) * (q.y * q.y) + (one - 1) * (
        q.z * q.z) + (one - 1) * (q.w * q.w)) by (nonlinear_arith)
            requires
                n == q.x * q.x + q.y * q.y + q.z * q.z + q.w * q.w,
        ;
        assert(one * n <= (one - 1) * n);
        assert(false) by (nonlinear_arith)
            requires
                one * n <= (one - 1) * n,
                n > 0,
        ;
    }
}

/// Integrating a unit orientation renormalises its true update: the update
/// is never zero, so the identity that `normalize` gives for zero never
/// stands in for it.
pub proof fn lemma_unit_update_is_not_zero(q: Q4, omega: V3, dt: int)
    requires
        q.is_unit(),
    ensures
        q.turned(omega, dt).norm_sq() > 0,
{
    lemma_unit_is_small(q);
    lemma_update_is_not_zero(q, omega.scale(tdiv(dt, 2)));
}

/// A unit orientation has components of magnitude at most one and a bit.
pub proof fn lemma_unit_is_small(q: Q4)
    requires
        q.is_unit(),
    ensures
        q.norm_sq() > 0,
        abs(q.x) <= SCALE + 1,
        abs(q.y) <= SCALE + 1,
        abs(q.z) <= SCALE + 1,
        abs(q.w) <= SCALE + 1,
{
    lemma_square_nonneg(q.x);
    lemma_square_nonneg(q.y);
    lemma_square_nonneg(q.z);
    lemma_square_nonneg(q.w);
    let top = (SCALE + 1) * (SCALE + 1);
    assert((SCALE - UNIT_SLACK) * (SCALE - UNIT_SLACK) > 0 && top < (SCALE + 2) * (SCALE + 2))
        by (nonlinear_arith)
        requires
            SCALE == 1_000_000,
            UNIT_SLACK == 5,
            top == (SCALE + 1) * (SCALE + 1),
    ;
    crate::vec3::lemma_square_root_bound(q.x, top, SCALE + 1);
    crate::vec3::lemma_square_root_bound(q.y, top, SCALE + 1);
    crate::vec3::lemma_square_root_bound(q.z, top, SCALE + 1);
    crate::vec3::lemma_square_root_bound(q.w, top, SCALE + 1);
}

} // verus!
