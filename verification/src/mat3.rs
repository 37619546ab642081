//! Fixed-point 3x3 matrices, stored by columns.

use vstd::arithmetic::mul::{
    lemma_mul_by_zero_is_zero, lemma_mul_is_associative, lemma_mul_is_commutative,
    lemma_mul_nonzero,
};
use vstd::prelude::*;
use crate::scalar::{
    fx_div, lemma_mul_bound, lemma_scaled_twice_wide, lemma_tquot_abs, lemma_tquot_cancel,
    quot_wide, sat, tdiv, tquot, Scalar, LIMIT, SCALE,
};
use crate::vec3::{det2, Vec3, V3};

verus! {

/// The mathematical value of a [`Mat3`]: three columns.
pub struct M3 {
    pub x_axis: V3,
    pub y_axis: V3,
    pub z_axis: V3,
}

impl M3 {
    /// The matrix with the given columns.
    pub open spec fn from_cols(x_axis: V3, y_axis: V3, z_axis: V3) -> M3 {
        M3 { x_axis, y_axis, z_axis }
    }

    /// The zero matrix.
    pub open spec fn zero() -> M3 {
        M3 { x_axis: V3::zero(), y_axis: V3::zero(), z_axis: V3::zero() }
    }

    /// The identity matrix.
    pub open spec fn identity() -> M3 {
        M3::from_diagonal(V3::new(SCALE as int, SCALE as int, SCALE as int))
    }

    /// The diagonal matrix with the given diagonal.
    pub open spec fn from_diagonal(d: V3) -> M3 {
        M3 {
            x_axis: V3::new(d.x, 0, 0),
            y_axis: V3::new(0, d.y, 0),
            z_axis: V3::new(0, 0, d.z),
        }
    }

    /// The product of this matrix and the column vector `v`, each component
    /// rounded once.
    pub open spec fn mul_vec3(self, v: V3) -> V3 {
        V3 {
            x: sat(
                tdiv(
                    self.x_axis.x * v.x + self.y_axis.x * v.y + self.z_axis.x * v.z,
                    SCALE as int,
                ),
            ),
            y: sat(
                tdiv(
                    self.x_axis.y * v.x + self.y_axis.y * v.y + self.z_axis.y * v.z,
                    SCALE as int,
                ),
            ),
            z: sat(
                tdiv(
                    self.x_axis.z * v.x + self.y_axis.z * v.y + self.z_axis.z * v.z,
                    SCALE as int,
                ),
            ),
        }
    }

    /// Exact determinant, in cubed raw units.
    pub open spec fn det_raw(self) -> int {
        self.z_axis.dot_raw(self.x_axis.cross_raw(self.y_axis))
    }

    /// Whether the matrix has an inverse.
    pub open spec fn invertible(self) -> bool {
        self.det_raw() != 0
    }

    /// One entry of the inverse: the cofactor `c`, in squared raw units,
    /// over the determinant `det`, rounded once.
    pub open spec fn inverse_entry(c: int, det: int) -> int {
        sat(tquot(c * SCALE * SCALE, det))
    }

    /// The inverse of an invertible matrix: the transposed cofactors over
    /// the determinant.
    pub open spec fn inverse(self) -> M3 {
        let r0 = self.y_axis.cross_raw(self.z_axis);
        let r1 = self.z_axis.cross_raw(self.x_axis);
        let r2 = self.x_axis.cross_raw(self.y_axis);
        let det = self.det_raw();
        M3 {
            x_axis: V3::new(
                M3::inverse_entry(r0.x, det),
                M3::inverse_entry(r1.x, det),
                M3::inverse_entry(r2.x, det),
            ),
            y_axis: V3::new(
                M3::inverse_entry(r0.y, det),
                M3::inverse_entry(r1.y, det),
                M3::inverse_entry(r2.y, det),
            ),
            z_axis: V3::new(
                M3::inverse_entry(r0.z, det),
                M3::inverse_entry(r1.z, det),
                M3::inverse_entry(r2.z, det),
            ),
        }
    }
}

/// A 3x3 matrix of fixed-point scalars, stored by columns.
#[derive(Clone, Copy, Debug)]
pub struct Mat3 {
    pub x_axis: Vec3,
    pub y_axis: Vec3,
    pub z_axis: Vec3,
}

impl View for Mat3 {
    type V = M3;

    open spec fn view(&self) -> M3 {
        M3 { x_axis: self.x_axis@, y_axis: self.y_axis@, z_axis: self.z_axis@ }
    }
}

/// One entry of an inverse: cofactor over determinant.
fn inverse_entry(c: i128, det: i128) -> (r: Scalar)
    requires
        det != 0,
        -2 * (LIMIT * LIMIT) <= c <= 2 * (LIMIT * LIMIT),
        -6 * (LIMIT * LIMIT * LIMIT) <= det <= 6 * (LIMIT * LIMIT * LIMIT),
    ensures
        r@ == M3::inverse_entry(c as int, det as int),
{
    let s: i128 = SCALE as i128;
    proof {
        lemma_scaled_twice_wide(c as int);
        lemma_cube_bound();
    }
    Scalar::from_wide(quot_wide(c * s * s, det))
}

/// The cube of the limit fits well inside 128 bits.
proof fn lemma_cube_bound()
    ensures
        LIMIT * LIMIT == 1_000_000_000_000_000_000_000_000,
        LIMIT * LIMIT * LIMIT == 1_000_000_000_000_000_000_000_000_000_000_000_000,
{
    assert(LIMIT * LIMIT == 1_000_000_000_000_000_000_000_000) by (nonlinear_arith)
        requires
            LIMIT == 1_000_000_000_000,
    ;
    assert(LIMIT * LIMIT * LIMIT == 1_000_000_000_000_000_000_000_000_000_000_000_000)
        by (nonlinear_arith)
        requires
            LIMIT == 1_000_000_000_000,
    ;
}

impl Mat3 {
    /// The matrix with the given columns.
    pub fn from_cols(x_axis: Vec3, y_axis: Vec3, z_axis: Vec3) -> (r: Mat3)
        ensures
            r@ == M3::from_cols(x_axis@, y_axis@, z_axis@),
    {
        Mat3 { x_axis, y_axis, z_axis }
    }

    /// The zero matrix.
    pub fn zero() -> (r: Mat3)
        ensures
            r@ == M3::zero(),
    {
        Mat3 { x_axis: Vec3::zero(), y_axis: Vec3::zero(), z_axis: Vec3::zero() }
    }

    /// The identity matrix.
    pub fn identity() -> (r: Mat3)
        ensures
            r@ == M3::identity(),
    {
        Mat3::from_diagonal(Vec3::new(Scalar::one(), Scalar::one(), Scalar::one()))
    }

    /// The diagonal matrix with the given diagonal.
    pub fn from_diagonal(d: Vec3) -> (r: Mat3)
        ensures
            r@ == M3::from_diagonal(d@),
    {
        let o: Scalar = Scalar::zero();
        Mat3 {
            x_axis: Vec3::new(d.x, o, o),
            y_axis: Vec3::new(o, d.y, o),
            z_axis: Vec3::new(o, o, d.z),
        }
    }

    /// The product of this matrix and the column vector `v`, each component
    /// rounded once.
    pub fn mul_vec3(self, v: Vec3) -> (r: Vec3)
        ensures
            r@ == self@.mul_vec3(v@),
    {
        let s: i128 = SCALE as i128;
        let x: i128 = self.x_axis.x.wide_mul(v.x) + self.y_axis.x.wide_mul(v.y)
            + self.z_axis.x.wide_mul(v.z);
        let y: i128 = self.x_axis.y.wide_mul(v.x) + self.y_axis.y.wide_mul(v.y)
            + self.z_axis.y.wide_mul(v.z);
        let z: i128 = self.x_axis.z.wide_mul(v.x) + self.y_axis.z.wide_mul(v.y)
            + self.z_axis.z.wide_mul(v.z);
        Vec3 {
            x: Scalar::from_wide(x / s),
            y: Scalar::from_wide(y / s),
            z: Scalar::from_wide(z / s),
        }
    }

    /// The inverse, or `None` for a matrix whose determinant is zero.
    pub fn inverse(self) -> (r: Option<Mat3>)
        ensures
            r is Some <==> self@.invertible(),
            r matches Some(m) ==> m@ == self@.inverse(),
    {
        let a: Vec3 = self.x_axis;
        let b: Vec3 = self.y_axis;
        let c: Vec3 = self.z_axis;
        let r0x: i128 = det2(b.y, b.z, c.y, c.z);
        let r0y: i128 = det2(b.z, b.x, c.z, c.x);
        let r0z: i128 = det2(b.x, b.y, c.x, c.y);
        let r1x: i128 = det2(c.y, c.z, a.y, a.z);
        let r1y: i128 = det2(c.z, c.x, a.z, a.x);
        let r1z: i128 = det2(c.x, c.y, a.x, a.y);
        let r2x: i128 = det2(a.y, a.z, b.y, b.z);
        let r2y: i128 = det2(a.z, a.x, b.z, b.x);
        let r2z: i128 = det2(a.x, a.y, b.x, b.y);
        let cx: i128 = c.x.raw() as i128;
        let cy: i128 = c.y.raw() as i128;
        let cz: i128 = c.z.raw() as i128;
        proof {
            lemma_cube_bound();
            let l = LIMIT as int;
            let ll = LIMIT * LIMIT;
            lemma_mul_bound(cx as int, r2x as int, l, 2 * ll);
            lemma_mul_bound(cy as int, r2y as int, l, 2 * ll);
            lemma_mul_bound(cz as int, r2z as int, l, 2 * ll);
            assert(l * (2 * ll) == 2 * (LIMIT * LIMIT * LIMIT)) by (nonlinear_arith)
                requires
                    l == LIMIT,
                    ll == LIMIT * LIMIT,
            ;
        }
        let det: i128 = cx * r2x + cy * r2y + cz * r2z;
        if det == 0 {
            return None;
        }
        Some(
            Mat3 {
                x_axis: Vec3::new(
                    inverse_entry(r0x, det),
                    inverse_entry(r1x, det),
                    inverse_entry(r2x, det),
                ),
                y_axis: Vec3::new(
                    inverse_entry(r0y, det),
                    inverse_entry(r1y, det),
                    inverse_entry(r2y, det),
                ),
                z_axis: Vec3::new(
                    inverse_entry(r0z, det),
                    inverse_entry(r1z, det),
                    inverse_entry(r2z, det),
                ),
            },
        )
    }
}

/// One diagonal entry of the inverse of a diagonal matrix: the cofactor
/// `b * c` over the determinant `c * (a * b)` is the reciprocal of `a`.
proof fn lemma_diagonal_entry(a: int, b: int, c: int)
    requires
        a != 0,
        b != 0,
        c != 0,
    ensures
        M3::inverse_entry(b * c, c * (a * b)) == fx_div(SCALE as int, a),
        M3::inverse_entry(c * b, c * (a * b)) == fx_div(SCALE as int, a),
        M3::inverse_entry(a * c, c * (a * b)) == fx_div(SCALE as int, b),
        M3::inverse_entry(c * a, c * (a * b)) == fx_div(SCALE as int, b),
        M3::inverse_entry(a * b, c * (a * b)) == fx_div(SCALE as int, c),
        M3::inverse_entry(0, c * (a * b)) == 0,
        c * (a * b) != 0,
{
    let one = SCALE as int;
    let det = c * (a * b);
    lemma_mul_nonzero(a, b);
    lemma_mul_nonzero(b, c);
    lemma_mul_nonzero(a, c);
    lemma_mul_nonzero(c, a * b);
    lemma_mul_is_commutative(b, c);
    lemma_mul_is_commutative(a, c);
    lemma_mul_is_commutative(a, b);
    // the determinant as each cofactor times the remaining entry
    lemma_mul_is_associative(c, a, b);
    lemma_mul_is_associative(c, b, a);
    lemma_mul_is_associative(b, c, a);
    lemma_mul_is_commutative(a * b, c);
    assert(det == (b * c) * a);
    assert(det == (a * c) * b);
    assert(det == (a * b) * c);
    // each scaled cofactor as the cofactor times one squared
    lemma_mul_is_associative(b * c, one, one);
    lemma_mul_is_associative(a * c, one, one);
    lemma_mul_is_associative(a * b, one, one);
    lemma_tquot_cancel(b * c, one * one, a);
    lemma_tquot_cancel(a * c, one * one, b);
    lemma_tquot_cancel(a * b, one * one, c);
    lemma_mul_by_zero_is_zero(one);
    lemma_tquot_abs(0, det);
}

/// The inverse of a diagonal matrix without a zero on its diagonal is the
/// diagonal matrix of the reciprocals.
pub proof fn lemma_inverse_of_diagonal(d: V3)
    requires
        d.x != 0,
        d.y != 0,
        d.z != 0,
    ensures
        M3::from_diagonal(d).invertible(),
        M3::from_diagonal(d).inverse() == M3::from_diagonal(
            V3::new(fx_div(SCALE as int, d.x), fx_div(SCALE as int, d.y), fx_div(
                SCALE as int,
                d.z,
            )),
        ),
{
    let m = M3::from_diagonal(d);
    lemma_mul_by_zero_is_zero(d.x);
    lemma_mul_by_zero_is_zero(d.y);
    lemma_mul_by_zero_is_zero(d.z);
    lemma_mul_by_zero_is_zero(0);
    lemma_diagonal_entry(d.x, d.y, d.z);
    assert(m.det_raw() == d.z * (d.x * d.y));
    let r0 = m.y_axis.cross_raw(m.z_axis);
    let r1 = m.z_axis.cross_raw(m.x_axis);
    let r2 = m.x_axis.cross_raw(m.y_axis);
    assert(r0 == V3::new(d.y * d.z, 0, 0));
    assert(r1 == V3::new(0, d.z * d.x, 0));
    assert(r2 == V3::new(0, 0, d.x * d.y));
}

/// A diagonal matrix with a zero on its diagonal has no inverse.
pub proof fn lemma_flat_diagonal_has_no_inverse(d: V3)
    requires
        d.x == 0 || d.y == 0 || d.z == 0,
    ensures
        !M3::from_diagonal(d).invertible(),
{
    lemma_mul_by_zero_is_zero(d.x);
    lemma_mul_by_zero_is_zero(d.y);
    lemma_mul_by_zero_is_zero(d.z);
    lemma_mul_by_zero_is_zero(0);
    lemma_mul_nonzero(d.x, d.y);
    lemma_mul_nonzero(d.z, d.x * d.y);
}

} // verus!
