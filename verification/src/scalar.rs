//! Decimal fixed-point scalars with six fractional digits.
//!
//! A scalar is an integer count of millionths, kept within `±LIMIT`.
//! Arithmetic rounds toward zero, so that negating an operand negates the
//! result, and saturates at the limits instead of overflowing.

use vstd::prelude::*;

verus! {

/// Number of raw units in `1.0`.
pub const SCALE: i64 = 1_000_000;

/// Largest magnitude of a raw value: one million whole units.
pub const LIMIT: i64 = 1_000_000_000_000;

/// How far, in raw units, the length of a normalised vector or quaternion
/// may lie below one.
pub const UNIT_SLACK: i64 = 5;

/// Clamps an integer into the representable range.
pub open spec fn sat(x: int) -> int {
    if x > LIMIT {
        LIMIT as int
    } else if x < -LIMIT {
        -(LIMIT as int)
    } else {
        x
    }
}

/// Whether an integer is a representable raw value.
pub open spec fn in_range(x: int) -> bool {
    -LIMIT <= x <= LIMIT
}

/// Quotient rounded toward zero, for a positive divisor.
pub open spec fn tdiv(a: int, b: int) -> int {
    if a >= 0 {
        a / b
    } else {
        -((-a) / b)
    }
}

/// Quotient rounded toward zero, for any non-zero divisor.
pub open spec fn tquot(a: int, b: int) -> int {
    if b > 0 {
        tdiv(a, b)
    } else {
        -tdiv(a, -b)
    }
}

/// Fixed-point sum.
pub open spec fn fx_add(a: int, b: int) -> int {
    sat(a + b)
}

/// Fixed-point difference.
pub open spec fn fx_sub(a: int, b: int) -> int {
    sat(a - b)
}

/// Fixed-point product.
pub open spec fn fx_mul(a: int, b: int) -> int {
    sat(tdiv(a * b, SCALE as int))
}

/// Fixed-point quotient, for a non-zero divisor.
pub open spec fn fx_div(a: int, b: int) -> int {
    sat(tquot(a * SCALE, b))
}

/// `r` is the integer square root of `n`.
pub open spec fn is_int_sqrt(n: int, r: int) -> bool {
    0 <= r && r * r <= n < (r + 1) * (r + 1)
}

/// Integer square root: the largest `r` with `r * r <= n`.
pub open spec fn int_sqrt(n: int) -> int {
    choose|r: int| is_int_sqrt(n, r)
}

/// Every natural number has an integer square root.
pub proof fn lemma_int_sqrt_exists(n: int)
    requires
        n >= 0,
    ensures
        is_int_sqrt(n, int_sqrt(n)),
    decreases n,
{
    if n == 0 {
        assert(is_int_sqrt(0, 0));
    } else {
        lemma_int_sqrt_exists(n - 1);
        let r = int_sqrt(n - 1);
        if (r + 1) * (r + 1) <= n {
            assert((r + 1) * (r + 1) == n);
            assert(n < (r + 2) * (r + 2)) by (nonlinear_arith)
                requires
                    (r + 1) * (r + 1) == n,
                    r >= 0,
            ;
            assert(is_int_sqrt(n, r + 1));
        } else {
            assert(r * r <= n);
            assert(is_int_sqrt(n, r));
        }
    }
}

/// The integer square root is unique.
pub proof fn lemma_int_sqrt_unique(n: int, r: int)
    requires
        is_int_sqrt(n, r),
    ensures
        int_sqrt(n) == r,
{
    let s = int_sqrt(n);
    assert(is_int_sqrt(n, s));
    if s < r {
        assert((s + 1) * (s + 1) <= r * r) by (nonlinear_arith)
            requires
                0 <= s,
                s + 1 <= r,
        ;
    } else if r < s {
        assert((r + 1) * (r + 1) <= s * s) by (nonlinear_arith)
            requires
                0 <= r,
                r + 1 <= s,
        ;
    }
}

/// Integer square root of a 128-bit natural number.
pub fn isqrt(n: u128) -> (r: u128)
    ensures
        r == int_sqrt(n as int),
        is_int_sqrt(n as int, r as int),
        r < 0x1_0000_0000_0000_0000,
{
    let mut lo: u128 = 0;
    let mut hi: u128 = 0x1_0000_0000_0000_0000;
    assert(n < hi * hi) by (nonlinear_arith)
        requires
            hi == 0x1_0000_0000_0000_0000,
            n <= u128::MAX,
    ;
    while hi - lo > 1
        invariant
            lo < hi <= 0x1_0000_0000_0000_0000,
            lo * lo <= n < hi * hi,
        decreases hi - lo,
    {
        let mid: u128 = lo + (hi - lo) / 2;
        assert(mid * mid < 0x1_0000_0000_0000_0000 * 0x1_0000_0000_0000_0000) by (nonlinear_arith)
            requires
                0 <= mid < 0x1_0000_0000_0000_0000,
        ;
        if mid * mid <= n {
            lo = mid;
        } else {
            hi = mid;
        }
    }
    proof {
        assert(hi == lo + 1);
        lemma_int_sqrt_unique(n as int, lo as int);
    }
    lo
}

/// A fixed-point number: `raw` millionths, with `|raw| <= LIMIT`.
#[derive(Clone, Copy, Debug)]
pub struct Scalar {
    raw: i64,
}

impl View for Scalar {
    type V = int;

    closed spec fn view(&self) -> int {
        self.raw as int
    }
}

/// Clamps a wide integer into the representable range.
pub fn saturate(x: i128) -> (r: i64)
    ensures
        r == sat(x as int),
{
    if x > LIMIT as i128 {
        LIMIT
    } else if x < -(LIMIT as i128) {
        -LIMIT
    } else {
        x as i64
    }
}

/// Quotient of two wide integers, rounded toward zero.
pub fn quot_wide(a: i128, b: i128) -> (q: i128)
    requires
        b != 0,
        i128::MIN < a,
        i128::MIN < b,
    ensures
        q == tquot(a as int, b as int),
        abs(q as int) <= abs(a as int),
{
    if b > 0 {
        proof {
            lemma_tdiv_bound(a as int, b as int);
        }
        a / b
    } else {
        let c: i128 = -b;
        let q: i128 = a / c;
        proof {
            lemma_tdiv_bound(a as int, c as int);
            assert(q == tdiv(a as int, c as int));
        }
        -q
    }
}

impl Scalar {
    #[verifier::type_invariant]
    spec fn bounded(self) -> bool {
        in_range(self.raw as int)
    }

    /// The scalar with the given raw value, saturated into range.
    pub fn from_raw(raw: i64) -> (r: Scalar)
        ensures
            r@ == sat(raw as int),
    {
        Scalar { raw: saturate(raw as i128) }
    }

    /// The scalar with the given wide raw value, saturated into range.
    pub fn from_wide(raw: i128) -> (r: Scalar)
        ensures
            r@ == sat(raw as int),
    {
        Scalar { raw: saturate(raw) }
    }

    /// The scalar standing for a whole number of units, saturated into range.
    pub fn from_int(units: i64) -> (r: Scalar)
        ensures
            r@ == sat(units * SCALE),
    {
        let wide: i128 = units as i128;
        assert(-0x8000_0000_0000_0000 * 1_000_000 <= wide * SCALE <= 0x8000_0000_0000_0000
            * 1_000_000) by (nonlinear_arith)
            requires
                -0x8000_0000_0000_0000 <= wide <= 0x8000_0000_0000_0000,
                SCALE == 1_000_000,
        ;
        Scalar { raw: saturate(wide * SCALE as i128) }
    }

    /// Zero.
    pub fn zero() -> (r: Scalar)
        ensures
            r@ == 0,
    {
        Scalar { raw: 0 }
    }

    /// One.
    pub fn one() -> (r: Scalar)
        ensures
            r@ == SCALE,
    {
        Scalar { raw: SCALE }
    }

    /// The raw value, in millionths.
    pub fn raw(self) -> (r: i64)
        ensures
            r == self@,
            in_range(r as int),
    {
        proof {
            use_type_invariant(&self);
        }
        self.raw
    }

    /// Sum, saturated.
    pub fn add(self, rhs: Scalar) -> (r: Scalar)
        ensures
            r@ == fx_add(self@, rhs@),
    {
        Scalar { raw: saturate(self.raw() as i128 + rhs.raw() as i128) }
    }

    /// Difference, saturated.
    pub fn sub(self, rhs: Scalar) -> (r: Scalar)
        ensures
            r@ == fx_sub(self@, rhs@),
    {
        Scalar { raw: saturate(self.raw() as i128 - rhs.raw() as i128) }
    }

    /// Negation.
    pub fn neg(self) -> (r: Scalar)
        ensures
            r@ == -self@,
    {
        Scalar { raw: -self.raw() }
    }

    /// Product, rounded toward zero and saturated.
    pub fn mul(self, rhs: Scalar) -> (r: Scalar)
        ensures
            r@ == fx_mul(self@, rhs@),
    {
        let a: i128 = self.raw() as i128;
        let b: i128 = rhs.raw() as i128;
        proof {
            lemma_product_bound(a as int, b as int);
        }
        Scalar { raw: saturate(a * b / (SCALE as i128)) }
    }

    /// Quotient, rounded toward zero and saturated.
    pub fn div(self, rhs: Scalar) -> (r: Scalar)
        requires
            rhs@ != 0,
        ensures
            r@ == fx_div(self@, rhs@),
    {
        let a: i128 = self.raw() as i128 * SCALE as i128;
        let b: i128 = rhs.raw() as i128;
        proof {
            lemma_product_bound(self@, SCALE as int);
        }
        Scalar { raw: saturate(quot_wide(a, b)) }
    }

    /// The exact product of two raw values, in squared raw units.
    pub fn wide_mul(self, rhs: Scalar) -> (r: i128)
        ensures
            r == self@ * rhs@,
            -(LIMIT * LIMIT) <= r <= LIMIT * LIMIT,
            LIMIT * LIMIT == 1_000_000_000_000_000_000_000_000,
    {
        let a: i128 = self.raw() as i128;
        let b: i128 = rhs.raw() as i128;
        proof {
            lemma_product_bound(a as int, b as int);
        }
        a * b
    }

    /// Whether this scalar is strictly less than `rhs`.
    pub fn lt(self, rhs: Scalar) -> (r: bool)
        ensures
            r == (self@ < rhs@),
    {
        self.raw() < rhs.raw()
    }

    /// Whether this scalar is strictly negative.
    pub fn is_negative(self) -> (r: bool)
        ensures
            r == (self@ < 0),
    {
        self.raw() < 0
    }

    /// Whether this scalar is zero.
    pub fn is_zero(self) -> (r: bool)
        ensures
            r == (self@ == 0),
    {
        self.raw() == 0
    }

    /// The smaller of two scalars.
    pub fn min(self, rhs: Scalar) -> (r: Scalar)
        ensures
            r@ == if self@ <= rhs@ { self@ } else { rhs@ },
    {
        if self.raw() <= rhs.raw() {
            self
        } else {
            rhs
        }
    }
}

/// Absolute value.
pub open spec fn abs(x: int) -> int {
    if x >= 0 {
        x
    } else {
        -x
    }
}

/// Truncated division acts on magnitudes as floor division, and commutes
/// with negation.
pub proof fn lemma_tdiv_abs(a: int, b: int)
    requires
        b > 0,
    ensures
        abs(tdiv(a, b)) == abs(a) / b,
        abs(tdiv(a, b)) * b <= abs(a) < (abs(tdiv(a, b)) + 1) * b,
        tdiv(-a, b) == -tdiv(a, b),
        a >= 0 ==> tdiv(a, b) >= 0,
        a <= 0 ==> tdiv(a, b) <= 0,
{
    let n = abs(a);
    let q = n / b;
    vstd::arithmetic::div_mod::lemma_fundamental_div_mod(n, b);
    vstd::arithmetic::div_mod::lemma_mod_bound(n, b);
    assert(q >= 0 && q * b <= n < (q + 1) * b) by (nonlinear_arith)
        requires
            n == b * q + n % b,
            0 <= n % b < b,
            n >= 0,
            b > 0,
    ;
    assert(0int / b == 0) by (nonlinear_arith)
        requires
            b > 0,
    ;
}

/// A quotient rounded toward zero acts on magnitudes as floor division, and
/// has the sign of the exact quotient or is zero.
pub proof fn lemma_tquot_abs(a: int, b: int)
    requires
        b != 0,
    ensures
        abs(tquot(a, b)) == abs(a) / abs(b),
        (a >= 0 && b > 0) || (a <= 0 && b < 0) ==> tquot(a, b) >= 0,
        (a >= 0 && b < 0) || (a <= 0 && b > 0) ==> tquot(a, b) <= 0,
{
    lemma_tdiv_abs(a, abs(b));
}

/// A common non-zero factor of dividend and divisor does not change the
/// quotient rounded toward zero.
pub proof fn lemma_tquot_cancel(k: int, a: int, b: int)
    requires
        k != 0,
        b != 0,
    ensures
        k * b != 0,
        tquot(k * a, k * b) == tquot(a, b),
{
    let ka = abs(k);
    let aa = abs(a);
    let ab = abs(b);
    assert(abs(k * a) == ka * aa && abs(k * b) == ka * ab && k * b != 0) by (nonlinear_arith)
        requires
            ka == abs(k),
            aa == abs(a),
            ab == abs(b),
            k != 0,
            b != 0,
    ;
    assert(((k * a >= 0 && k * b > 0) || (k * a <= 0 && k * b < 0)) <==> ((a >= 0 && b > 0) || (a
        <= 0 && b < 0))) by (nonlinear_arith)
        requires
            k != 0,
            b != 0,
    ;
    assert(((k * a >= 0 && k * b < 0) || (k * a <= 0 && k * b > 0)) <==> ((a >= 0 && b < 0) || (a
        <= 0 && b > 0))) by (nonlinear_arith)
        requires
            k != 0,
            b != 0,
    ;
    vstd::arithmetic::div_mod::lemma_div_multiples_vanish_quotient(ka, aa, ab);
    lemma_tquot_abs(k * a, k * b);
    lemma_tquot_abs(a, b);
}

/// A truncated quotient is at most `k` in magnitude when the dividend is at
/// most `k * b` in magnitude.
pub proof fn lemma_tdiv_le(a: int, b: int, k: int)
    requires
        b > 0,
        abs(a) <= k * b,
    ensures
        abs(tdiv(a, b)) <= k,
{
    lemma_tdiv_abs(a, b);
    let q = abs(tdiv(a, b));
    assert(q <= k) by (nonlinear_arith)
        requires
            q * b <= k * b,
            b > 0,
    ;
}

/// A fixed-point product with zero is zero, and one with a negated factor is
/// the negated product.
pub proof fn lemma_fx_mul_symmetric(a: int, b: int)
    ensures
        fx_mul(a, 0) == 0,
        fx_mul(0, b) == 0,
        fx_mul(a, -b) == -fx_mul(a, b),
{
    assert(a * 0 == 0 && 0 * b == 0 && a * (-b) == -(a * b)) by (nonlinear_arith);
    lemma_tdiv_abs(a * b, SCALE as int);
    lemma_tdiv_abs(0, SCALE as int);
}

/// A fixed-point product is no larger in magnitude than the exact product,
/// and has its sign or is zero.
pub proof fn lemma_fx_mul_shrinks(a: int, b: int)
    ensures
        abs(fx_mul(a, b)) * SCALE <= abs(a) * abs(b),
        a * b >= 0 ==> fx_mul(a, b) >= 0,
        a * b <= 0 ==> fx_mul(a, b) <= 0,
{
    let p = a * b;
    lemma_tdiv_abs(p, SCALE as int);
    let t = tdiv(p, SCALE as int);
    assert(abs(p) == abs(a) * abs(b)) by (nonlinear_arith)
        requires
            p == a * b,
    ;
    assert(abs(sat(t)) <= abs(t));
    assert(abs(sat(t)) * SCALE <= abs(t) * SCALE) by (nonlinear_arith)
        requires
            abs(sat(t)) <= abs(t),
            SCALE > 0,
    ;
}

/// A fixed-point quotient by a positive divisor is no larger in magnitude
/// than the exact quotient, and has the sign of the dividend or is zero.
pub proof fn lemma_fx_div_shrinks(a: int, m: int)
    requires
        m > 0,
    ensures
        abs(fx_div(a, m)) * m <= abs(a) * SCALE,
        a >= 0 ==> fx_div(a, m) >= 0,
        a <= 0 ==> fx_div(a, m) <= 0,
{
    let p = a * SCALE;
    lemma_tdiv_abs(p, m);
    let t = tdiv(p, m);
    assert(abs(p) == abs(a) * SCALE && (a >= 0 ==> p >= 0) && (a <= 0 ==> p <= 0))
        by (nonlinear_arith)
        requires
            p == a * SCALE,
            SCALE > 0,
    ;
    assert(abs(sat(t)) <= abs(t));
    assert(abs(sat(t)) * m <= abs(t) * m) by (nonlinear_arith)
        requires
            abs(sat(t)) <= abs(t),
            m > 0,
    ;
}

/// A truncated quotient is no larger in magnitude than the dividend, and has
/// its sign or is zero.
pub proof fn lemma_tdiv_bound(a: int, b: int)
    requires
        b > 0,
    ensures
        a >= 0 ==> 0 <= tdiv(a, b) <= a,
        a <= 0 ==> a <= tdiv(a, b) <= 0,
{
    if a >= 0 {
        assert(0 <= a / b <= a) by (nonlinear_arith)
            requires
                a >= 0,
                b > 0,
        ;
    } else {
        let m = -a;
        assert(0 <= m / b <= m) by (nonlinear_arith)
            requires
                m >= 0,
                b > 0,
        ;
    }
}

/// The product of two bounded integers is bounded by the product of the
/// bounds.
pub proof fn lemma_mul_bound(a: int, b: int, ka: int, kb: int)
    requires
        -ka <= a <= ka,
        -kb <= b <= kb,
    ensures
        -(ka * kb) <= a * b <= ka * kb,
{
    assert(-(ka * kb) <= a * b <= ka * kb) by (nonlinear_arith)
        requires
            -ka <= a <= ka,
            -kb <= b <= kb,
    ;
}

/// Scaling a cofactor of raw values by one million twice stays inside 128
/// bits.
pub proof fn lemma_scaled_twice_wide(c: int)
    requires
        -2 * (LIMIT * LIMIT) <= c <= 2 * (LIMIT * LIMIT),
    ensures
        -2_000_000_000_000_000_000_000_000_000_000 <= c * SCALE
            <= 2_000_000_000_000_000_000_000_000_000_000,
        -2_000_000_000_000_000_000_000_000_000_000_000_000 <= c * SCALE * SCALE
            <= 2_000_000_000_000_000_000_000_000_000_000_000_000,
{
    assert(-2_000_000_000_000_000_000_000_000_000_000 <= c * SCALE
        <= 2_000_000_000_000_000_000_000_000_000_000) by (nonlinear_arith)
        requires
            -2 * (LIMIT * LIMIT) <= c <= 2 * (LIMIT * LIMIT),
            LIMIT == 1_000_000_000_000,
            SCALE == 1_000_000,
    ;
    assert(-2_000_000_000_000_000_000_000_000_000_000_000_000 <= c * SCALE * SCALE
        <= 2_000_000_000_000_000_000_000_000_000_000_000_000) by (nonlinear_arith)
        requires
            -2 * (LIMIT * LIMIT) <= c <= 2 * (LIMIT * LIMIT),
            LIMIT == 1_000_000_000_000,
            SCALE == 1_000_000,
    ;
}

/// One, squared, in raw units.
pub proof fn lemma_scale_squared()
    ensures
        SCALE * SCALE == 1_000_000_000_000,
        SCALE * SCALE == LIMIT,
{
    assert(SCALE * SCALE == 1_000_000_000_000) by (nonlinear_arith)
        requires
            SCALE == 1_000_000,
    ;
}

/// The product of two raw values stays far inside 128 bits.
pub proof fn lemma_product_bound(a: int, b: int)
    requires
        in_range(a),
        in_range(b),
    ensures
        -(LIMIT * LIMIT) <= a * b <= LIMIT * LIMIT,
        LIMIT * LIMIT == 1_000_000_000_000_000_000_000_000,
{
    assert(-(LIMIT * LIMIT) <= a * b <= LIMIT * LIMIT) by (nonlinear_arith)
        requires
            -LIMIT <= a <= LIMIT,
            -LIMIT <= b <= LIMIT,
            LIMIT > 0,
    ;
}

} // verus!
