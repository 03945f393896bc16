//! Fixed-point vector arithmetic. One world unit is `FP_ONE` fixed-point
//! steps; products of two fixed-point values are scaled back down by
//! `FP_ONE`, rounding toward zero as Rust's integer division does.

use vstd::prelude::*;

verus! {

/// Number of fixed-point steps in one world unit.
pub const FP_ONE: i32 = 1000;

/// Division by a positive divisor rounding toward zero (the rounding of
/// Rust's `/` on signed integers).
pub open spec fn div_trunc(a: int, b: int) -> int {
    if a >= 0 {
        a / b
    } else {
        -((-a) / b)
    }
}

/// Fixed-point product: `a * b` scaled back down by `FP_ONE`, rounded
/// toward zero.
pub open spec fn fp_mul(a: int, b: int) -> int {
    div_trunc(a * b, FP_ONE as int)
}

/// A three-component fixed-point vector.
#[derive(Clone, Copy, PartialEq, Eq, Structural, Debug)]
pub struct Vec3 {
    pub x: i32,
    pub y: i32,
    pub z: i32,
}

proof fn lemma_square_bound(a: int)
    by (nonlinear_arith)
    requires
        -0x8000_0000 <= a <= 0x7fff_ffff,
    ensures
        0 <= a * a <= 0x4000_0000_0000_0000,
{
}

proof fn lemma_mul_fits_i64(a: int, b: int)
    by (nonlinear_arith)
    requires
        -0x8000_0000 <= a <= 0x7fff_ffff,
        -0x8000_0000 <= b <= 0x7fff_ffff,
    ensures
        -0x4000_0000_0000_0000 <= a * b <= 0x4000_0000_0000_0000,
{
}

/// Truncating division of a product of two `i32` values by `FP_ONE`.
fn div_trunc_1000(p: i64) -> (r: i64)
    requires
        -0x4000_0000_0000_0000 <= p <= 0x4000_0000_0000_0000,
    ensures
        r == div_trunc(p as int, FP_ONE as int),
{
    if p >= 0 {
        ((p as u64) / 1000) as i64
    } else {
        let q: u64 = ((-p) as u64) / 1000;
        -(q as i64)
    }
}

/// Fixed-point product of two `i32` values.
pub fn fp_mul_i32(a: i32, b: i32) -> (r: i32)
    requires
        i32::MIN <= fp_mul(a as int, b as int) <= i32::MAX,
    ensures
        r == fp_mul(a as int, b as int),
{
    proof {
        lemma_mul_fits_i64(a as int, b as int);
    }
    let p: i64 = (a as i64) * (b as i64);
    div_trunc_1000(p) as i32
}

impl Vec3 {
    /// Squared length, in squared fixed-point steps.
    pub open spec fn mag2(self) -> int {
        self.x * self.x + self.y * self.y + self.z * self.z
    }

    pub open spec fn is_zero(self) -> bool {
        self.x == 0 && self.y == 0 && self.z == 0
    }

    pub fn zero() -> (r: Vec3)
        ensures
            r == (Vec3 { x: 0, y: 0, z: 0 }),
    {
        Vec3 { x: 0, y: 0, z: 0 }
    }

    /// Squared length of the vector.
    pub fn magnitude2(&self) -> (r: u64)
        ensures
            r == self.mag2(),
    {
        proof {
            lemma_square_bound(self.x as int);
            lemma_square_bound(self.y as int);
            lemma_square_bound(self.z as int);
        }
        let xx: i64 = (self.x as i64) * (self.x as i64);
        let yy: i64 = (self.y as i64) * (self.y as i64);
        let zz: i64 = (self.z as i64) * (self.z as i64);
        (xx as u64) + (yy as u64) + (zz as u64)
    }

    /// Componentwise sum.
    pub fn add(&self, o: &Vec3) -> (r: Vec3)
        requires
            i32::MIN <= self.x + o.x <= i32::MAX,
            i32::MIN <= self.y + o.y <= i32::MAX,
            i32::MIN <= self.z + o.z <= i32::MAX,
        ensures
            r.x == self.x + o.x,
            r.y == self.y + o.y,
            r.z == self.z + o.z,
    {
        Vec3 { x: self.x + o.x, y: self.y + o.y, z: self.z + o.z }
    }

    /// Componentwise negation.
    pub fn neg(&self) -> (r: Vec3)
        requires
            self.x > i32::MIN,
            self.y > i32::MIN,
            self.z > i32::MIN,
        ensures
            r.x == -self.x,
            r.y == -self.y,
            r.z == -self.z,
    {
        Vec3 { x: -self.x, y: -self.y, z: -self.z }
    }

    /// Fixed-point scaling: each coordinate becomes `fp_mul(coordinate, s)`.
    pub fn scaled(&self, s: i32) -> (r: Vec3)
        requires
            i32::MIN <= fp_mul(self.x as int, s as int) <= i32::MAX,
            i32::MIN <= fp_mul(self.y as int, s as int) <= i32::MAX,
            i32::MIN <= fp_mul(self.z as int, s as int) <= i32::MAX,
        ensures
            r.x == fp_mul(self.x as int, s as int),
            r.y == fp_mul(self.y as int, s as int),
            r.z == fp_mul(self.z as int, s as int),
    {
        Vec3 {
            x: fp_mul_i32(self.x, s),
            y: fp_mul_i32(self.y, s),
            z: fp_mul_i32(self.z, s),
        }
    }
}

/// `|div_trunc(p, d)|` is at most `cap / d` whenever `|p|` is at most `cap`.
pub proof fn lemma_div_trunc_abs_le(p: int, cap: int, d: int)
    requires
        1 <= d,
        0 <= cap,
        -cap <= p <= cap,
    ensures
        -(cap / d) <= div_trunc(p, d) <= cap / d,
{
    if p >= 0 {
        vstd::arithmetic::div_mod::lemma_div_is_ordered(p, cap, d);
        vstd::arithmetic::div_mod::lemma_div_pos_is_pos(p, d);
    } else {
        vstd::arithmetic::div_mod::lemma_div_is_ordered(-p, cap, d);
        vstd::arithmetic::div_mod::lemma_div_pos_is_pos(-p, d);
    }
}

/// A fixed-point product by a whole multiple of `FP_ONE` is exact: no
/// rounding happens.
pub proof fn lemma_fp_mul_exact(a: int, k: int)
    ensures
        fp_mul(a, 1000 * k) == a * k,
{
    let m = a * k;
    assert(a * (1000 * k) == m * 1000) by (nonlinear_arith)
        requires
            m == a * k,
    ;
    if m >= 0 {
        vstd::arithmetic::div_mod::lemma_div_by_multiple(m, 1000);
    } else {
        vstd::arithmetic::div_mod::lemma_div_by_multiple(-m, 1000);
        assert(-(m * 1000) == (-m) * 1000) by (nonlinear_arith);
    }
}

/// A rotation as a fixed-point quaternion; a unit rotation has squared
/// component norm `FP_ONE * FP_ONE`.
#[derive(Clone, Copy, PartialEq, Eq, Structural, Debug)]
pub struct Quat {
    pub x: i32,
    pub y: i32,
    pub z: i32,
    pub w: i32,
}

/// Components of the Hamilton product of two fixed-point quaternions,
/// rounded toward zero.
pub open spec fn quat_mul_x(a: Quat, b: Quat) -> int {
    div_trunc(a.w * b.x + a.x * b.w + a.y * b.z - a.z * b.y, 1000)
}

pub open spec fn quat_mul_y(a: Quat, b: Quat) -> int {
    div_trunc(a.w * b.y - a.x * b.z + a.y * b.w + a.z * b.x, 1000)
}

pub open spec fn quat_mul_z(a: Quat, b: Quat) -> int {
    div_trunc(a.w * b.z + a.x * b.y - a.y * b.x + a.z * b.w, 1000)
}

pub open spec fn quat_mul_w(a: Quat, b: Quat) -> int {
    div_trunc(a.w * b.w - a.x * b.x - a.y * b.y - a.z * b.z, 1000)
}

/// Components of the model-forward direction (the rotation applied to the
/// unit vector pointing along negative z), for a unit rotation.
pub open spec fn forward_x(q: Quat) -> int {
    -div_trunc(2 * (q.x * q.z + q.w * q.y), 1000)
}

pub open spec fn forward_y(q: Quat) -> int {
    -div_trunc(2 * (q.y * q.z - q.w * q.x), 1000)
}

pub open spec fn forward_z(q: Quat) -> int {
    div_trunc(2 * (q.x * q.x + q.y * q.y), 1000) - 1000
}

impl Quat {
    /// All components within `b` fixed-point steps of zero.
    pub open spec fn in_range(self, b: int) -> bool {
        &&& -b <= self.x <= b
        &&& -b <= self.y <= b
        &&& -b <= self.z <= b
        &&& -b <= self.w <= b
    }

    /// The identity rotation.
    pub fn identity() -> (q: Quat)
        ensures
            q == (Quat { x: 0, y: 0, z: 0, w: 1000 }),
    {
        Quat { x: 0, y: 0, z: 0, w: 1000 }
    }

    /// Hamilton product: the rotation `o` composed onto `self`.
    pub fn mul(&self, o: &Quat) -> (r: Quat)
        requires
            self.in_range(10_000),
            o.in_range(10_000),
        ensures
            r.x == quat_mul_x(*self, *o),
            r.y == quat_mul_y(*self, *o),
            r.z == quat_mul_z(*self, *o),
            r.w == quat_mul_w(*self, *o),
            r.in_range(400_000),
    {
        let ax: i64 = self.x as i64;
        let ay: i64 = self.y as i64;
        let az: i64 = self.z as i64;
        let aw: i64 = self.w as i64;
        let bx: i64 = o.x as i64;
        let by: i64 = o.y as i64;
        let bz: i64 = o.z as i64;
        let bw: i64 = o.w as i64;
        proof {
            lemma_quat_products_bounded(*self, *o);
        }
        let px: i64 = aw * bx + ax * bw + ay * bz - az * by;
        let py: i64 = aw * by - ax * bz + ay * bw + az * bx;
        let pz: i64 = aw * bz + ax * by - ay * bx + az * bw;
        let pw: i64 = aw * bw - ax * bx - ay * by - az * bz;
        proof {
            lemma_div_trunc_abs_le(px as int, 400_000_000, 1000);
            lemma_div_trunc_abs_le(py as int, 400_000_000, 1000);
            lemma_div_trunc_abs_le(pz as int, 400_000_000, 1000);
            lemma_div_trunc_abs_le(pw as int, 400_000_000, 1000);
        }
        Quat {
            x: div_trunc_1000(px) as i32,
            y: div_trunc_1000(py) as i32,
            z: div_trunc_1000(pz) as i32,
            w: div_trunc_1000(pw) as i32,
        }
    }

    /// The model-forward direction of this rotation: the rotation applied to
    /// the unit vector along negative z. Exact for the fixed-point grid
    /// whenever the rotation is a unit quaternion.
    pub fn forward(&self) -> (v: Vec3)
        requires
            self.in_range(10_000),
        ensures
            v.x == forward_x(*self),
            v.y == forward_y(*self),
            v.z == forward_z(*self),
            -401_000 <= v.x <= 401_000,
            -401_000 <= v.y <= 401_000,
            -401_000 <= v.z <= 401_000,
    {
        let qx: i64 = self.x as i64;
        let qy: i64 = self.y as i64;
        let qz: i64 = self.z as i64;
        let qw: i64 = self.w as i64;
        proof {
            lemma_quat_products_bounded(*self, *self);
        }
        let px: i64 = 2 * (qx * qz + qw * qy);
        let py: i64 = 2 * (qy * qz - qw * qx);
        let pz: i64 = 2 * (qx * qx + qy * qy);
        proof {
            lemma_div_trunc_abs_le(px as int, 400_000_000, 1000);
            lemma_div_trunc_abs_le(py as int, 400_000_000, 1000);
            lemma_div_trunc_abs_le(pz as int, 400_000_000, 1000);
        }
        let fx: i64 = -div_trunc_1000(px);
        let fy: i64 = -div_trunc_1000(py);
        let fz: i64 = div_trunc_1000(pz) - 1000;
        Vec3 { x: fx as i32, y: fy as i32, z: fz as i32 }
    }
}

proof fn lemma_quat_products_bounded(a: Quat, b: Quat)
    by (nonlinear_arith)
    requires
        a.in_range(10_000),
        b.in_range(10_000),
    ensures
        -100_000_000 <= a.w * b.x <= 100_000_000,
        -100_000_000 <= a.x * b.w <= 100_000_000,
        -100_000_000 <= a.y * b.z <= 100_000_000,
        -100_000_000 <= a.z * b.y <= 100_000_000,
        -100_000_000 <= a.w * b.y <= 100_000_000,
        -100_000_000 <= a.x * b.z <= 100_000_000,
        -100_000_000 <= a.y * b.w <= 100_000_000,
        -100_000_000 <= a.z * b.x <= 100_000_000,
        -100_000_000 <= a.w * b.z <= 100_000_000,
        -100_000_000 <= a.x * b.y <= 100_000_000,
        -100_000_000 <= a.y * b.x <= 100_000_000,
        -100_000_000 <= a.z * b.w <= 100_000_000,
        -100_000_000 <= a.w * b.w <= 100_000_000,
        -100_000_000 <= a.x * b.x <= 100_000_000,
        -100_000_000 <= a.y * b.y <= 100_000_000,
        -100_000_000 <= a.z * b.z <= 100_000_000,
{
}

/// `m` is the integer square root of `n`, rounded down.
pub open spec fn is_sqrt_floor(n: int, m: int) -> bool {
    0 <= m && m * m <= n && n < (m + 1) * (m + 1)
}

/// Integer square root, rounded down.
pub open spec fn sqrt_floor(n: nat) -> nat
    decreases n,
{
    if n == 0 {
        0
    } else {
        let p = sqrt_floor((n - 1) as nat);
        if (p + 1) * (p + 1) <= n {
            p + 1
        } else {
            p
        }
    }
}

pub proof fn lemma_sqrt_floor_is_sqrt(n: nat)
    ensures
        is_sqrt_floor(n as int, sqrt_floor(n) as int),
    decreases n,
{
    if n != 0 {
        lemma_sqrt_floor_is_sqrt((n - 1) as nat);
        let p = sqrt_floor((n - 1) as nat) as int;
        if (p + 1) * (p + 1) <= n {
            assert((p + 1) * (p + 1) < (p + 2) * (p + 2)) by (nonlinear_arith)
                requires
                    p >= 0,
            ;
        }
    }
}

pub proof fn lemma_sqrt_floor_unique(n: int, a: int, b: int)
    requires
        is_sqrt_floor(n, a),
        is_sqrt_floor(n, b),
    ensures
        a == b,
{
    assert(a == b) by (nonlinear_arith)
        requires
            0 <= a,
            0 <= b,
            a * a <= n,
            n < (a + 1) * (a + 1),
            b * b <= n,
            n < (b + 1) * (b + 1),
    ;
}

/// Executable integer square root by bisection.
pub fn isqrt(n: u64) -> (r: u64)
    ensures
        is_sqrt_floor(n as int, r as int),
        r == sqrt_floor(n as nat),
{
    let mut lo: u64 = 0;
    let mut hi: u64 = 0x1_0000_0000;
    while lo + 1 < hi
        invariant
            lo < hi <= 0x1_0000_0000,
            lo * lo <= n,
            n < hi * hi,
        decreases hi - lo,
    {
        let mid: u64 = lo + (hi - lo) / 2;
        assert(mid * mid < 0xffff_ffff_ffff_ffff) by (nonlinear_arith)
            requires
                mid < 0x1_0000_0000,
        ;
        let sq: u64 = mid * mid;
        if sq <= n {
            lo = mid;
        } else {
            hi = mid;
        }
    }
    proof {
        lemma_sqrt_floor_is_sqrt(n as nat);
        lemma_sqrt_floor_unique(n as int, lo as int, sqrt_floor(n as nat) as int);
    }
    lo
}

/// Squared length of the ground-plane pair `(x, z)`.
pub open spec fn pair_mag2(x: int, z: int) -> int {
    x * x + z * z
}

/// One coordinate of a normalized-and-scaled ground-plane direction:
/// `c * s` divided (rounding toward zero) by the rounded-down length of the
/// sampled direction whose squared length is `n`.
pub open spec fn norm_coord(c: int, n: int, s: int) -> int {
    div_trunc(c * s, sqrt_floor(n as nat) as int)
}

proof fn lemma_sqrt_ge_abs(x: int, z: int, m: int)
    by (nonlinear_arith)
    requires
        is_sqrt_floor(x * x + z * z, m),
    ensures
        -m <= x <= m,
        -m <= z <= m,
{
}

proof fn lemma_div_trunc_le(a: int, d: int, k: int)
    requires
        1 <= d,
        0 <= k,
        -(d * k) <= a <= d * k,
    ensures
        -k <= div_trunc(a, d) <= k,
{
    vstd::arithmetic::div_mod::lemma_div_by_multiple(k, d);
    assert(k * d == d * k) by (nonlinear_arith);
    if a >= 0 {
        vstd::arithmetic::div_mod::lemma_div_is_ordered(a, d * k, d);
        vstd::arithmetic::div_mod::lemma_div_pos_is_pos(a, d);
    } else {
        vstd::arithmetic::div_mod::lemma_div_is_ordered(-a, d * k, d);
        vstd::arithmetic::div_mod::lemma_div_pos_is_pos(-a, d);
    }
}

/// Truncating division of a bounded value by a positive divisor.
fn div_trunc_by(p: i64, d: u64) -> (r: i64)
    requires
        1 <= d,
        -0x4000_0000_0000_0000 <= p <= 0x4000_0000_0000_0000,
    ensures
        r == div_trunc(p as int, d as int),
{
    if p >= 0 {
        ((p as u64) / d) as i64
    } else {
        let q: u64 = ((-p) as u64) / d;
        -(q as i64)
    }
}

/// Normalize the ground-plane direction `(x, 0, z)` and scale it by `s`,
/// mirroring normalize-or-zero semantics: a zero direction yields the zero
/// vector instead of failing.
pub fn normalize_xz_scaled(x: i32, z: i32, s: i32) -> (v: Vec3)
    requires
        -1_000_000 <= x <= 1_000_000,
        -1_000_000 <= z <= 1_000_000,
        0 <= s <= 1_000_000,
    ensures
        pair_mag2(x as int, z as int) == 0 ==> v.is_zero(),
        pair_mag2(x as int, z as int) != 0 ==> v.x == norm_coord(
            x as int,
            pair_mag2(x as int, z as int),
            s as int,
        ),
        pair_mag2(x as int, z as int) != 0 ==> v.z == norm_coord(
            z as int,
            pair_mag2(x as int, z as int),
            s as int,
        ),
        v.y == 0,
        -s <= v.x <= s,
        -s <= v.z <= s,
{
    proof {
        lemma_square_bound(x as int);
        lemma_square_bound(z as int);
    }
    let xx: i64 = (x as i64) * (x as i64);
    let zz: i64 = (z as i64) * (z as i64);
    let nn: u64 = (xx as u64) + (zz as u64);
    if nn == 0 {
        proof {
            assert(x == 0 && z == 0) by (nonlinear_arith)
                requires
                    x * x + z * z == 0,
            ;
        }
        Vec3 { x: 0, y: 0, z: 0 }
    } else {
        let m: u64 = isqrt(nn);
        proof {
            lemma_sqrt_ge_abs(x as int, z as int, m as int);
            lemma_mul_fits_i64(x as int, s as int);
            lemma_mul_fits_i64(z as int, s as int);
            assert(-((m as int) * (s as int)) <= (x as int) * (s as int) <= (m as int) * (
            s as int)) by (nonlinear_arith)
                requires
                    -(m as int) <= x as int <= m as int,
                    0 <= s,
            ;
            assert(-((m as int) * (s as int)) <= (z as int) * (s as int) <= (m as int) * (
            s as int)) by (nonlinear_arith)
                requires
                    -(m as int) <= z as int <= m as int,
                    0 <= s,
            ;
            lemma_div_trunc_le((x as int) * (s as int), m as int, s as int);
            lemma_div_trunc_le((z as int) * (s as int), m as int, s as int);
        }
        let px: i64 = (x as i64) * (s as i64);
        let pz: i64 = (z as i64) * (s as i64);
        let rx: i64 = div_trunc_by(px, m);
        let rz: i64 = div_trunc_by(pz, m);
        Vec3 { x: rx as i32, y: 0, z: rz as i32 }
    }
}

} // verus!
