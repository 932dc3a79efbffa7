//! Fixed-point vectors, rotation matrices and rigid poses.
//!
//! A pose is the scene-from-camera transform: a 3 x 3 rotation-like matrix
//! whose entries are scaled by [`FX`], plus a translation. All operations
//! state their exact integer formulas; results are clamped into the
//! representable coordinate range, which leaves in-range values untouched.

use vstd::prelude::*;

use crate::fixed::lemma_mul_in_range;
use crate::fixed::FX;
use crate::fixed::FX_BOUND;

verus! {

/// Largest admissible magnitude of a matrix entry (a true rotation stays
/// within `FX`; the slack absorbs fixed-point drift under composition).
pub const MAT_LIMIT: i64 = 0x100_0000;

/// A 2-vector of fixed-point coordinates.
#[derive(Clone, Copy, Debug, PartialEq, Eq, Structural)]
pub struct V2 {
    /// First component.
    pub x: i64,
    /// Second component.
    pub y: i64,
}

/// A 3-vector of fixed-point coordinates.
#[derive(Clone, Copy, Debug, PartialEq, Eq, Structural)]
pub struct V3 {
    /// First component.
    pub x: i64,
    /// Second component.
    pub y: i64,
    /// Third component.
    pub z: i64,
}

impl V3 {
    /// All components in the representable coordinate range.
    pub open spec fn bounded(self) -> bool {
        -FX_BOUND <= self.x <= FX_BOUND && -FX_BOUND <= self.y <= FX_BOUND && -FX_BOUND <= self.z
            <= FX_BOUND
    }

    /// Checks the coordinate bound.
    pub fn is_bounded(&self) -> (r: bool)
        ensures
            r == self.bounded(),
    {
        -FX_BOUND <= self.x && self.x <= FX_BOUND && -FX_BOUND <= self.y && self.y <= FX_BOUND
            && -FX_BOUND <= self.z && self.z <= FX_BOUND
    }
}

/// A 3 x 3 matrix, entries scaled by `FX`, in row-major field order.
#[derive(Clone, Copy, Debug, PartialEq, Eq, Structural)]
pub struct Mat3 {
    /// Row 1, column 1.
    pub xx: i64,
    /// Row 1, column 2.
    pub xy: i64,
    /// Row 1, column 3.
    pub xz: i64,
    /// Row 2, column 1.
    pub yx: i64,
    /// Row 2, column 2.
    pub yy: i64,
    /// Row 2, column 3.
    pub yz: i64,
    /// Row 3, column 1.
    pub zx: i64,
    /// Row 3, column 2.
    pub zy: i64,
    /// Row 3, column 3.
    pub zz: i64,
}

/// Clamp a nonnegative-bounded value into `1 ..= bound`.
pub open spec fn clamp_pos(v: int, bound: int) -> int {
    if v < 1 {
        1
    } else if v > bound {
        bound
    } else {
        v
    }
}

/// Truncating division (rounds toward zero), the rounding of every
/// fixed-point product in this crate.
pub open spec fn tdiv(a: int, b: int) -> int {
    if a >= 0 {
        a / b
    } else {
        -((-a) / b)
    }
}

/// A dot product of one matrix row with a vector, descaled by `FX`.
pub open spec fn row_dot(a: int, b: int, c: int, x: int, y: int, z: int) -> int {
    tdiv(a * x + b * y + c * z, FX as int)
}

/// Clamp into `-bound ..= bound`.
pub open spec fn clamp_spec(v: int, bound: int) -> int {
    if v < -bound {
        -bound
    } else if v > bound {
        bound
    } else {
        v
    }
}

/// Truncating division of an `i128` by `FX`, executable form of `tdiv`.
fn div_fx(a: i128) -> (r: i128)
    requires
        -0x4000_0000_0000_0000_0000_0000_0000_0000 < a,
    ensures
        r == tdiv(a as int, FX as int),
        a >= 0 ==> 0 <= r <= a,
        a < 0 ==> a <= r <= 0,
{
    if a >= 0 {
        a / (FX as i128)
    } else {
        let n = -a;
        proof {
            assert(n as int / (FX as int) <= n as int) by (nonlinear_arith)
                requires
                    n >= 0,
            ;
        }
        -(n / (FX as i128))
    }
}

impl Mat3 {
    /// All entries within the matrix entry limit.
    pub open spec fn bounded(self) -> bool {
        &&& -MAT_LIMIT <= self.xx <= MAT_LIMIT
        &&& -MAT_LIMIT <= self.xy <= MAT_LIMIT
        &&& -MAT_LIMIT <= self.xz <= MAT_LIMIT
        &&& -MAT_LIMIT <= self.yx <= MAT_LIMIT
        &&& -MAT_LIMIT <= self.yy <= MAT_LIMIT
        &&& -MAT_LIMIT <= self.yz <= MAT_LIMIT
        &&& -MAT_LIMIT <= self.zx <= MAT_LIMIT
        &&& -MAT_LIMIT <= self.zy <= MAT_LIMIT
        &&& -MAT_LIMIT <= self.zz <= MAT_LIMIT
    }

    /// Checks the entry bound.
    pub fn is_bounded(&self) -> (r: bool)
        ensures
            r == self.bounded(),
    {
        -MAT_LIMIT <= self.xx && self.xx <= MAT_LIMIT && -MAT_LIMIT <= self.xy && self.xy
            <= MAT_LIMIT && -MAT_LIMIT <= self.xz && self.xz <= MAT_LIMIT && -MAT_LIMIT <= self.yx
            && self.yx <= MAT_LIMIT && -MAT_LIMIT <= self.yy && self.yy <= MAT_LIMIT && -MAT_LIMIT
            <= self.yz && self.yz <= MAT_LIMIT && -MAT_LIMIT <= self.zx && self.zx <= MAT_LIMIT
            && -MAT_LIMIT <= self.zy && self.zy <= MAT_LIMIT && -MAT_LIMIT <= self.zz && self.zz
            <= MAT_LIMIT
    }

    /// The identity rotation.
    pub fn identity() -> (m: Mat3)
        ensures
            m == (Mat3 {
                xx: FX,
                xy: 0,
                xz: 0,
                yx: 0,
                yy: FX,
                yz: 0,
                zx: 0,
                zy: 0,
                zz: FX,
            }),
            m.bounded(),
    {
        Mat3 { xx: FX, xy: 0, xz: 0, yx: 0, yy: FX, yz: 0, zx: 0, zy: 0, zz: FX }
    }

    /// The transpose, which inverts an orthonormal rotation.
    pub fn transpose(&self) -> (m: Mat3)
        ensures
            m == (Mat3 {
                xx: self.xx,
                xy: self.yx,
                xz: self.zx,
                yx: self.xy,
                yy: self.yy,
                yz: self.zy,
                zx: self.xz,
                zy: self.yz,
                zz: self.zz,
            }),
            self.bounded() ==> m.bounded(),
    {
        Mat3 {
            xx: self.xx,
            xy: self.yx,
            xz: self.zx,
            yx: self.xy,
            yy: self.yy,
            yz: self.zy,
            zx: self.xz,
            zy: self.yz,
            zz: self.zz,
        }
    }
}

/// One fixed-point row-times-vector product, clamped into `-bound ..= bound`.
fn row_apply(a: i64, b: i64, c: i64, v: &V3, bound: i64) -> (r: i64)
    requires
        -MAT_LIMIT <= a <= MAT_LIMIT,
        -MAT_LIMIT <= b <= MAT_LIMIT,
        -MAT_LIMIT <= c <= MAT_LIMIT,
        v.bounded(),
        0 < bound,
    ensures
        r == clamp_spec(row_dot(a as int, b as int, c as int, v.x as int, v.y as int, v.z as int), bound as int),
{
    proof {
        lemma_mul_in_range(a as int, v.x as int, MAT_LIMIT as int, FX_BOUND as int);
        lemma_mul_in_range(b as int, v.y as int, MAT_LIMIT as int, FX_BOUND as int);
        lemma_mul_in_range(c as int, v.z as int, MAT_LIMIT as int, FX_BOUND as int);
    }
    let s: i128 = (a as i128) * (v.x as i128) + (b as i128) * (v.y as i128) + (c as i128) * (
    v.z as i128);
    let q = div_fx(s);
    if q < -(bound as i128) {
        -bound
    } else if q > bound as i128 {
        bound
    } else {
        q as i64
    }
}

/// The matrix applied to a vector (`m * v / FX`), clamped into the coordinate
/// range.
pub fn mat3_apply(m: &Mat3, v: &V3) -> (r: V3)
    requires
        m.bounded(),
        v.bounded(),
    ensures
        r.x == clamp_spec(
            row_dot(m.xx as int, m.xy as int, m.xz as int, v.x as int, v.y as int, v.z as int),
            FX_BOUND as int,
        ),
        r.y == clamp_spec(
            row_dot(m.yx as int, m.yy as int, m.yz as int, v.x as int, v.y as int, v.z as int),
            FX_BOUND as int,
        ),
        r.z == clamp_spec(
            row_dot(m.zx as int, m.zy as int, m.zz as int, v.x as int, v.y as int, v.z as int),
            FX_BOUND as int,
        ),
        r.bounded(),
{
    V3 {
        x: row_apply(m.xx, m.xy, m.xz, v, FX_BOUND),
        y: row_apply(m.yx, m.yy, m.yz, v, FX_BOUND),
        z: row_apply(m.zx, m.zy, m.zz, v, FX_BOUND),
    }
}

/// One entry of a matrix product, clamped into the matrix entry limit.
fn mul_entry(a: i64, b: i64, c: i64, x: i64, y: i64, z: i64) -> (r: i64)
    requires
        -MAT_LIMIT <= a <= MAT_LIMIT,
        -MAT_LIMIT <= b <= MAT_LIMIT,
        -MAT_LIMIT <= c <= MAT_LIMIT,
        -MAT_LIMIT <= x <= MAT_LIMIT,
        -MAT_LIMIT <= y <= MAT_LIMIT,
        -MAT_LIMIT <= z <= MAT_LIMIT,
    ensures
        r == clamp_spec(
            row_dot(a as int, b as int, c as int, x as int, y as int, z as int),
            MAT_LIMIT as int,
        ),
{
    proof {
        lemma_mul_in_range(a as int, x as int, MAT_LIMIT as int, MAT_LIMIT as int);
        lemma_mul_in_range(b as int, y as int, MAT_LIMIT as int, MAT_LIMIT as int);
        lemma_mul_in_range(c as int, z as int, MAT_LIMIT as int, MAT_LIMIT as int);
    }
    let s: i128 = (a as i128) * (x as i128) + (b as i128) * (y as i128) + (c as i128) * (z as i128);
    let q = div_fx(s);
    if q < -(MAT_LIMIT as i128) {
        -MAT_LIMIT
    } else if q > MAT_LIMIT as i128 {
        MAT_LIMIT
    } else {
        q as i64
    }
}

/// The product of two matrices (`a * b / FX` entrywise), clamped into the
/// entry limit.
pub fn mat3_mul(a: &Mat3, b: &Mat3) -> (m: Mat3)
    requires
        a.bounded(),
        b.bounded(),
    ensures
        m.bounded(),
        m.xx == clamp_spec(
            row_dot(a.xx as int, a.xy as int, a.xz as int, b.xx as int, b.yx as int, b.zx as int),
            MAT_LIMIT as int,
        ),
        m.xy == clamp_spec(
            row_dot(a.xx as int, a.xy as int, a.xz as int, b.xy as int, b.yy as int, b.zy as int),
            MAT_LIMIT as int,
        ),
        m.xz == clamp_spec(
            row_dot(a.xx as int, a.xy as int, a.xz as int, b.xz as int, b.yz as int, b.zz as int),
            MAT_LIMIT as int,
        ),
        m.yx == clamp_spec(
            row_dot(a.yx as int, a.yy as int, a.yz as int, b.xx as int, b.yx as int, b.zx as int),
            MAT_LIMIT as int,
        ),
        m.yy == clamp_spec(
            row_dot(a.yx as int, a.yy as int, a.yz as int, b.xy as int, b.yy as int, b.zy as int),
            MAT_LIMIT as int,
        ),
        m.yz == clamp_spec(
            row_dot(a.yx as int, a.yy as int, a.yz as int, b.xz as int, b.yz as int, b.zz as int),
            MAT_LIMIT as int,
        ),
        m.zx == clamp_spec(
            row_dot(a.zx as int, a.zy as int, a.zz as int, b.xx as int, b.yx as int, b.zx as int),
            MAT_LIMIT as int,
        ),
        m.zy == clamp_spec(
            row_dot(a.zx as int, a.zy as int, a.zz as int, b.xy as int, b.yy as int, b.zy as int),
            MAT_LIMIT as int,
        ),
        m.zz == clamp_spec(
            row_dot(a.zx as int, a.zy as int, a.zz as int, b.xz as int, b.yz as int, b.zz as int),
            MAT_LIMIT as int,
        ),
{
    Mat3 {
        xx: mul_entry(a.xx, a.xy, a.xz, b.xx, b.yx, b.zx),
        xy: mul_entry(a.xx, a.xy, a.xz, b.xy, b.yy, b.zy),
        xz: mul_entry(a.xx, a.xy, a.xz, b.xz, b.yz, b.zz),
        yx: mul_entry(a.yx, a.yy, a.yz, b.xx, b.yx, b.zx),
        yy: mul_entry(a.yx, a.yy, a.yz, b.xy, b.yy, b.zy),
        yz: mul_entry(a.yx, a.yy, a.yz, b.xz, b.yz, b.zz),
        zx: mul_entry(a.zx, a.zy, a.zz, b.xx, b.yx, b.zx),
        zy: mul_entry(a.zx, a.zy, a.zz, b.xy, b.yy, b.zy),
        zz: mul_entry(a.zx, a.zy, a.zz, b.xz, b.yz, b.zz),
    }
}

/// A rigid scene-from-camera transform: rotation-like matrix plus translation.
#[derive(Clone, Copy, Debug, PartialEq, Eq, Structural)]
pub struct Pose {
    /// The rotation part, entries scaled by `FX`.
    pub rot: Mat3,
    /// The translation part.
    pub pos: V3,
}

impl Pose {
    /// Matrix and translation within their ranges.
    pub open spec fn bounded(self) -> bool {
        self.rot.bounded() && self.pos.bounded()
    }

    /// Checks the range invariant.
    pub fn is_bounded(&self) -> (r: bool)
        ensures
            r == self.bounded(),
    {
        self.rot.is_bounded() && self.pos.is_bounded()
    }

    /// The identity pose.
    pub fn identity() -> (p: Pose)
        ensures
            p.rot == Mat3::identity_spec(),
            p.pos == (V3 { x: 0, y: 0, z: 0 }),
            p.bounded(),
    {
        Pose { rot: Mat3::identity(), pos: V3 { x: 0, y: 0, z: 0 } }
    }
}

impl Mat3 {
    /// The identity rotation, as a value.
    pub open spec fn identity_spec() -> Mat3 {
        Mat3 { xx: FX, xy: 0, xz: 0, yx: 0, yy: FX, yz: 0, zx: 0, zy: 0, zz: FX }
    }
}

/// One component of an affine map `m * v / FX + t`, clamped into the
/// coordinate range.
pub open spec fn affine_component(a: int, b: int, c: int, x: int, y: int, z: int, t: int) -> int {
    clamp_spec(row_dot(a, b, c, x, y, z) + t, FX_BOUND as int)
}

/// One executable affine component.
fn row_affine(a: i64, b: i64, c: i64, v: &V3, t: i64) -> (r: i64)
    requires
        -MAT_LIMIT <= a <= MAT_LIMIT,
        -MAT_LIMIT <= b <= MAT_LIMIT,
        -MAT_LIMIT <= c <= MAT_LIMIT,
        v.bounded(),
        -FX_BOUND <= t <= FX_BOUND,
    ensures
        r == affine_component(a as int, b as int, c as int, v.x as int, v.y as int, v.z as int, t as int),
        -FX_BOUND <= r <= FX_BOUND,
{
    proof {
        lemma_mul_in_range(a as int, v.x as int, MAT_LIMIT as int, FX_BOUND as int);
        lemma_mul_in_range(b as int, v.y as int, MAT_LIMIT as int, FX_BOUND as int);
        lemma_mul_in_range(c as int, v.z as int, MAT_LIMIT as int, FX_BOUND as int);
    }
    let s: i128 = (a as i128) * (v.x as i128) + (b as i128) * (v.y as i128) + (c as i128) * (
    v.z as i128);
    let q = div_fx(s) + (t as i128);
    if q < -(FX_BOUND as i128) {
        -FX_BOUND
    } else if q > FX_BOUND as i128 {
        FX_BOUND
    } else {
        q as i64
    }
}

/// The pose applied to a camera-frame point: `rot * v / FX + pos`.
pub fn pose_apply(p: &Pose, v: &V3) -> (r: V3)
    requires
        p.bounded(),
        v.bounded(),
    ensures
        r.x == affine_component(
            p.rot.xx as int,
            p.rot.xy as int,
            p.rot.xz as int,
            v.x as int,
            v.y as int,
            v.z as int,
            p.pos.x as int,
        ),
        r.y == affine_component(
            p.rot.yx as int,
            p.rot.yy as int,
            p.rot.yz as int,
            v.x as int,
            v.y as int,
            v.z as int,
            p.pos.y as int,
        ),
        r.z == affine_component(
            p.rot.zx as int,
            p.rot.zy as int,
            p.rot.zz as int,
            v.x as int,
            v.y as int,
            v.z as int,
            p.pos.z as int,
        ),
        r.bounded(),
        r == pose_apply_spec(*p, *v),
{
    V3 {
        x: row_affine(p.rot.xx, p.rot.xy, p.rot.xz, v, p.pos.x),
        y: row_affine(p.rot.yx, p.rot.yy, p.rot.yz, v, p.pos.y),
        z: row_affine(p.rot.zx, p.rot.zy, p.rot.zz, v, p.pos.z),
    }
}

/// The value `pose_unapply` computes: `rot^T * (v - pos) / FX`, clamped.
pub open spec fn pose_unapply_spec(p: Pose, v: V3) -> V3 {
    V3 {
        x: clamp_spec(
            row_dot(
                p.rot.xx as int,
                p.rot.yx as int,
                p.rot.zx as int,
                v.x - p.pos.x,
                v.y - p.pos.y,
                v.z - p.pos.z,
            ),
            FX_BOUND as int,
        ) as i64,
        y: clamp_spec(
            row_dot(
                p.rot.xy as int,
                p.rot.yy as int,
                p.rot.zy as int,
                v.x - p.pos.x,
                v.y - p.pos.y,
                v.z - p.pos.z,
            ),
            FX_BOUND as int,
        ) as i64,
        z: clamp_spec(
            row_dot(
                p.rot.xz as int,
                p.rot.yz as int,
                p.rot.zz as int,
                v.x - p.pos.x,
                v.y - p.pos.y,
                v.z - p.pos.z,
            ),
            FX_BOUND as int,
        ) as i64,
    }
}

/// The value `pose_apply` computes: `rot * v / FX + pos`, clamped.
pub open spec fn pose_apply_spec(p: Pose, v: V3) -> V3 {
    V3 {
        x: affine_component(
            p.rot.xx as int,
            p.rot.xy as int,
            p.rot.xz as int,
            v.x as int,
            v.y as int,
            v.z as int,
            p.pos.x as int,
        ) as i64,
        y: affine_component(
            p.rot.yx as int,
            p.rot.yy as int,
            p.rot.yz as int,
            v.x as int,
            v.y as int,
            v.z as int,
            p.pos.y as int,
        ) as i64,
        z: affine_component(
            p.rot.zx as int,
            p.rot.zy as int,
            p.rot.zz as int,
            v.x as int,
            v.y as int,
            v.z as int,
            p.pos.z as int,
        ) as i64,
    }
}

/// The pose's inverse applied to a scene point: `rot^T * (v - pos) / FX`,
/// the camera-frame coordinates of `v` when the rotation is orthonormal.
pub fn pose_unapply(p: &Pose, v: &V3) -> (r: V3)
    requires
        p.bounded(),
        v.bounded(),
    ensures
        r.x == clamp_spec(
            row_dot(
                p.rot.xx as int,
                p.rot.yx as int,
                p.rot.zx as int,
                v.x - p.pos.x,
                v.y - p.pos.y,
                v.z - p.pos.z,
            ),
            FX_BOUND as int,
        ),
        r.y == clamp_spec(
            row_dot(
                p.rot.xy as int,
                p.rot.yy as int,
                p.rot.zy as int,
                v.x - p.pos.x,
                v.y - p.pos.y,
                v.z - p.pos.z,
            ),
            FX_BOUND as int,
        ),
        r.z == clamp_spec(
            row_dot(
                p.rot.xz as int,
                p.rot.yz as int,
                p.rot.zz as int,
                v.x - p.pos.x,
                v.y - p.pos.y,
                v.z - p.pos.z,
            ),
            FX_BOUND as int,
        ),
        r.bounded(),
        r == pose_unapply_spec(*p, *v),
{
    proof {
        lemma_mul_in_range(p.rot.xx as int, (v.x - p.pos.x) as int, MAT_LIMIT as int, 2 * FX_BOUND as int);
        lemma_mul_in_range(p.rot.yx as int, (v.y - p.pos.y) as int, MAT_LIMIT as int, 2 * FX_BOUND as int);
        lemma_mul_in_range(p.rot.zx as int, (v.z - p.pos.z) as int, MAT_LIMIT as int, 2 * FX_BOUND as int);
        lemma_mul_in_range(p.rot.xy as int, (v.x - p.pos.x) as int, MAT_LIMIT as int, 2 * FX_BOUND as int);
        lemma_mul_in_range(p.rot.yy as int, (v.y - p.pos.y) as int, MAT_LIMIT as int, 2 * FX_BOUND as int);
        lemma_mul_in_range(p.rot.zy as int, (v.z - p.pos.z) as int, MAT_LIMIT as int, 2 * FX_BOUND as int);
        lemma_mul_in_range(p.rot.xz as int, (v.x - p.pos.x) as int, MAT_LIMIT as int, 2 * FX_BOUND as int);
        lemma_mul_in_range(p.rot.yz as int, (v.y - p.pos.y) as int, MAT_LIMIT as int, 2 * FX_BOUND as int);
        lemma_mul_in_range(p.rot.zz as int, (v.z - p.pos.z) as int, MAT_LIMIT as int, 2 * FX_BOUND as int);
    }
    let dx: i128 = (v.x as i128) - (p.pos.x as i128);
    let dy: i128 = (v.y as i128) - (p.pos.y as i128);
    let dz: i128 = (v.z as i128) - (p.pos.z as i128);
    let sx: i128 = (p.rot.xx as i128) * dx + (p.rot.yx as i128) * dy + (p.rot.zx as i128) * dz;
    let sy: i128 = (p.rot.xy as i128) * dx + (p.rot.yy as i128) * dy + (p.rot.zy as i128) * dz;
    let sz: i128 = (p.rot.xz as i128) * dx + (p.rot.yz as i128) * dy + (p.rot.zz as i128) * dz;
    let qx = div_fx(sx);
    let qy = div_fx(sy);
    let qz = div_fx(sz);
    let bound = FX_BOUND as i128;
    let rx = if qx < -bound {
        -FX_BOUND
    } else if qx > bound {
        FX_BOUND
    } else {
        qx as i64
    };
    let ry = if qy < -bound {
        -FX_BOUND
    } else if qy > bound {
        FX_BOUND
    } else {
        qy as i64
    };
    let rz = if qz < -bound {
        -FX_BOUND
    } else if qz > bound {
        FX_BOUND
    } else {
        qz as i64
    };
    V3 { x: rx, y: ry, z: rz }
}

/// One component of a rotation about a pivot: `dr * (x - pivot) / FX + pivot`.
pub open spec fn pivot_component(a: int, b: int, c: int, x: V3, pivot: V3, t: int) -> int {
    clamp_spec(
        row_dot(a, b, c, x.x - pivot.x, x.y - pivot.y, x.z - pivot.z) + t,
        FX_BOUND as int,
    )
}

/// The affine rotation of `x` about `pivot` by the matrix `dr`.
pub fn rotate_about_pivot(dr: &Mat3, pivot: &V3, x: &V3) -> (r: V3)
    requires
        dr.bounded(),
        pivot.bounded(),
        x.bounded(),
    ensures
        r.x == pivot_component(dr.xx as int, dr.xy as int, dr.xz as int, *x, *pivot, pivot.x as int),
        r.y == pivot_component(dr.yx as int, dr.yy as int, dr.yz as int, *x, *pivot, pivot.y as int),
        r.z == pivot_component(dr.zx as int, dr.zy as int, dr.zz as int, *x, *pivot, pivot.z as int),
        r.bounded(),
{
    proof {
        lemma_mul_in_range(dr.xx as int, (x.x - pivot.x) as int, MAT_LIMIT as int, 2 * FX_BOUND as int);
        lemma_mul_in_range(dr.xy as int, (x.y - pivot.y) as int, MAT_LIMIT as int, 2 * FX_BOUND as int);
        lemma_mul_in_range(dr.xz as int, (x.z - pivot.z) as int, MAT_LIMIT as int, 2 * FX_BOUND as int);
        lemma_mul_in_range(dr.yx as int, (x.x - pivot.x) as int, MAT_LIMIT as int, 2 * FX_BOUND as int);
        lemma_mul_in_range(dr.yy as int, (x.y - pivot.y) as int, MAT_LIMIT as int, 2 * FX_BOUND as int);
        lemma_mul_in_range(dr.yz as int, (x.z - pivot.z) as int, MAT_LIMIT as int, 2 * FX_BOUND as int);
        lemma_mul_in_range(dr.zx as int, (x.x - pivot.x) as int, MAT_LIMIT as int, 2 * FX_BOUND as int);
        lemma_mul_in_range(dr.zy as int, (x.y - pivot.y) as int, MAT_LIMIT as int, 2 * FX_BOUND as int);
        lemma_mul_in_range(dr.zz as int, (x.z - pivot.z) as int, MAT_LIMIT as int, 2 * FX_BOUND as int);
    }
    let dx: i128 = (x.x as i128) - (pivot.x as i128);
    let dy: i128 = (x.y as i128) - (pivot.y as i128);
    let dz: i128 = (x.z as i128) - (pivot.z as i128);
    let sx: i128 = (dr.xx as i128) * dx + (dr.xy as i128) * dy + (dr.xz as i128) * dz;
    let sy: i128 = (dr.yx as i128) * dx + (dr.yy as i128) * dy + (dr.yz as i128) * dz;
    let sz: i128 = (dr.zx as i128) * dx + (dr.zy as i128) * dy + (dr.zz as i128) * dz;
    let qx = div_fx(sx) + (pivot.x as i128);
    let qy = div_fx(sy) + (pivot.y as i128);
    let qz = div_fx(sz) + (pivot.z as i128);
    let bound = FX_BOUND as i128;
    let rx = if qx < -bound {
        -FX_BOUND
    } else if qx > bound {
        FX_BOUND
    } else {
        qx as i64
    };
    let ry = if qy < -bound {
        -FX_BOUND
    } else if qy > bound {
        FX_BOUND
    } else {
        qy as i64
    };
    let rz = if qz < -bound {
        -FX_BOUND
    } else if qz > bound {
        FX_BOUND
    } else {
        qz as i64
    };
    V3 { x: rx, y: ry, z: rz }
}

/// Orbit step: composes a delta rotation about a pivot onto a pose,
/// `pose <- dr_about_pivot . pose`.
pub fn orbit_pose(pose: &Pose, dr: &Mat3, pivot: &V3) -> (r: Pose)
    requires
        pose.bounded(),
        dr.bounded(),
        pivot.bounded(),
    ensures
        r.rot == mat3_mul_spec(*dr, pose.rot),
        r.pos.x == pivot_component(
            dr.xx as int,
            dr.xy as int,
            dr.xz as int,
            pose.pos,
            *pivot,
            pivot.x as int,
        ),
        r.pos.y == pivot_component(
            dr.yx as int,
            dr.yy as int,
            dr.yz as int,
            pose.pos,
            *pivot,
            pivot.y as int,
        ),
        r.pos.z == pivot_component(
            dr.zx as int,
            dr.zy as int,
            dr.zz as int,
            pose.pos,
            *pivot,
            pivot.z as int,
        ),
        r.bounded(),
{
    let rot = mat3_mul(dr, &pose.rot);
    proof {
        lemma_mat3_mul_matches_spec(*dr, pose.rot, rot);
    }
    Pose { rot, pos: rotate_about_pivot(dr, pivot, &pose.pos) }
}

/// The entrywise specification of the clamped matrix product.
pub open spec fn mat3_mul_spec(a: Mat3, b: Mat3) -> Mat3 {
    Mat3 {
        xx: clamp_spec(
            row_dot(a.xx as int, a.xy as int, a.xz as int, b.xx as int, b.yx as int, b.zx as int),
            MAT_LIMIT as int,
        ) as i64,
        xy: clamp_spec(
            row_dot(a.xx as int, a.xy as int, a.xz as int, b.xy as int, b.yy as int, b.zy as int),
            MAT_LIMIT as int,
        ) as i64,
        xz: clamp_spec(
            row_dot(a.xx as int, a.xy as int, a.xz as int, b.xz as int, b.yz as int, b.zz as int),
            MAT_LIMIT as int,
        ) as i64,
        yx: clamp_spec(
            row_dot(a.yx as int, a.yy as int, a.yz as int, b.xx as int, b.yx as int, b.zx as int),
            MAT_LIMIT as int,
        ) as i64,
        yy: clamp_spec(
            row_dot(a.yx as int, a.yy as int, a.yz as int, b.xy as int, b.yy as int, b.zy as int),
            MAT_LIMIT as int,
        ) as i64,
        yz: clamp_spec(
            row_dot(a.yx as int, a.yy as int, a.yz as int, b.xz as int, b.yz as int, b.zz as int),
            MAT_LIMIT as int,
        ) as i64,
        zx: clamp_spec(
            row_dot(a.zx as int, a.zy as int, a.zz as int, b.xx as int, b.yx as int, b.zx as int),
            MAT_LIMIT as int,
        ) as i64,
        zy: clamp_spec(
            row_dot(a.zx as int, a.zy as int, a.zz as int, b.xy as int, b.yy as int, b.zy as int),
            MAT_LIMIT as int,
        ) as i64,
        zz: clamp_spec(
            row_dot(a.zx as int, a.zy as int, a.zz as int, b.xz as int, b.yz as int, b.zz as int),
            MAT_LIMIT as int,
        ) as i64,
    }
}

/// The executable product agrees with `mat3_mul_spec` entrywise.
proof fn lemma_mat3_mul_matches_spec(a: Mat3, b: Mat3, m: Mat3)
    requires
        m.xx == clamp_spec(
            row_dot(a.xx as int, a.xy as int, a.xz as int, b.xx as int, b.yx as int, b.zx as int),
            MAT_LIMIT as int,
        ),
        m.xy == clamp_spec(
            row_dot(a.xx as int, a.xy as int, a.xz as int, b.xy as int, b.yy as int, b.zy as int),
            MAT_LIMIT as int,
        ),
        m.xz == clamp_spec(
            row_dot(a.xx as int, a.xy as int, a.xz as int, b.xz as int, b.yz as int, b.zz as int),
            MAT_LIMIT as int,
        ),
        m.yx == clamp_spec(
            row_dot(a.yx as int, a.yy as int, a.yz as int, b.xx as int, b.yx as int, b.zx as int),
            MAT_LIMIT as int,
        ),
        m.yy == clamp_spec(
            row_dot(a.yx as int, a.yy as int, a.yz as int, b.xy as int, b.yy as int, b.zy as int),
            MAT_LIMIT as int,
        ),
        m.yz == clamp_spec(
            row_dot(a.yx as int, a.yy as int, a.yz as int, b.xz as int, b.yz as int, b.zz as int),
            MAT_LIMIT as int,
        ),
        m.zx == clamp_spec(
            row_dot(a.zx as int, a.zy as int, a.zz as int, b.xx as int, b.yx as int, b.zx as int),
            MAT_LIMIT as int,
        ),
        m.zy == clamp_spec(
            row_dot(a.zx as int, a.zy as int, a.zz as int, b.xy as int, b.yy as int, b.zy as int),
            MAT_LIMIT as int,
        ),
        m.zz == clamp_spec(
            row_dot(a.zx as int, a.zy as int, a.zz as int, b.xz as int, b.yz as int, b.zz as int),
            MAT_LIMIT as int,
        ),
    ensures
        m == mat3_mul_spec(a, b),
{
}

/// Pivot invariance: an orbit rotation about a pivot maps the pivot to
/// itself, exactly, whatever the delta rotation is — the pivot's projected
/// screen position is therefore unchanged by the orbit step.
pub proof fn lemma_orbit_fixes_pivot(dr: Mat3, pivot: V3)
    requires
        pivot.bounded(),
    ensures
        pivot_component(dr.xx as int, dr.xy as int, dr.xz as int, pivot, pivot, pivot.x as int)
            == pivot.x,
        pivot_component(dr.yx as int, dr.yy as int, dr.yz as int, pivot, pivot, pivot.y as int)
            == pivot.y,
        pivot_component(dr.zx as int, dr.zy as int, dr.zz as int, pivot, pivot, pivot.z as int)
            == pivot.z,
{
    assert(dr.xx as int * 0 + dr.xy as int * 0 + dr.xz as int * 0 == 0) by (nonlinear_arith);
    assert(dr.yx as int * 0 + dr.yy as int * 0 + dr.yz as int * 0 == 0) by (nonlinear_arith);
    assert(dr.zx as int * 0 + dr.zy as int * 0 + dr.zz as int * 0 == 0) by (nonlinear_arith);
    assert(tdiv(0, FX as int) == 0);
}

} // verus!
