//! Camera models: pixel <-> ray mappings for pinhole and unified (distorted)
//! projections, plus the camera properties owned by a view.
//!
//! Pixel coordinates and intrinsics are fixed-point integers scaled by
//! [`FX`]; image sizes are whole pixels.

use vstd::prelude::*;

use crate::depth::ClippingPlanes;
use crate::fixed::lemma_mul_in_range;
use crate::fixed::lemma_mul_nonneg;
use crate::fixed::lemma_square_nonneg;
use crate::fixed::FX;
use crate::fixed::FX_BOUND;
use crate::geom::clamp_spec;
use crate::geom::tdiv;
use crate::geom::V2;
use crate::geom::V3;

verus! {

/// Largest supported image dimension in pixels.
pub const MAX_DIM: usize = 4096;

/// An image size in whole pixels.
#[derive(Clone, Copy, Debug, PartialEq, Eq, Structural)]
pub struct ImageSize {
    /// Width in pixels.
    pub width: usize,
    /// Height in pixels.
    pub height: usize,
}

impl ImageSize {
    /// Both dimensions positive and within the supported range.
    pub open spec fn wf(self) -> bool {
        0 < self.width <= MAX_DIM && 0 < self.height <= MAX_DIM
    }

    /// Checks the dimension bounds.
    pub fn is_wf(&self) -> (r: bool)
        ensures
            r == self.wf(),
    {
        0 < self.width && self.width <= MAX_DIM && 0 < self.height && self.height <= MAX_DIM
    }
}

/// The square root rounded down, for nonnegative arguments.
pub closed spec fn sqrt_floor(n: int) -> int {
    choose|r: int| r >= 0 && #[trigger] (r * r) <= n && n < ((r + 1) * (r + 1))
}

/// `sqrt_floor` is the unique nonnegative root bracket.
pub proof fn lemma_sqrt_floor(n: int, r: int)
    requires
        0 <= r,
        r * r <= n,
        n < ((r + 1) * (r + 1)),
    ensures
        sqrt_floor(n) == r,
{
    assert(r >= 0 && r * r <= n && n < ((r + 1) * (r + 1)));
    let w = sqrt_floor(n);
    assert(w >= 0 && w * w <= n && n < ((w + 1) * (w + 1)));
    if w < r {
        assert((w + 1) * (w + 1) <= r * r) by (nonlinear_arith)
            requires
                0 <= w < r,
        ;
    }
    if w > r {
        assert((r + 1) * (r + 1) <= w * w) by (nonlinear_arith)
            requires
                0 <= r < w,
        ;
    }
}

/// Integer square root: the floor of the square root of `n`.
pub fn isqrt(n: u128) -> (r: u64)
    ensures
        r as int == sqrt_floor(n as int),
        r as int * r as int <= n as int,
        (n as int) < ((r as int + 1) * (r as int + 1)),
{
    let mut lo: u128 = 0;
    let mut hi: u128 = 0x1_0000_0000_0000_0000;
    proof {
        assert((0x1_0000_0000_0000_0000 as int) * (0x1_0000_0000_0000_0000 as int) > n as int);
    }
    while lo + 1 < hi
        invariant
            lo < hi <= 0x1_0000_0000_0000_0000,
            lo as int * lo as int <= n as int,
            hi as int * hi as int > n as int,
        decreases hi - lo,
    {
        let mid = lo + (hi - lo) / 2;
        proof {
            assert(mid < hi);
            lemma_mul_in_range(mid as int, mid as int, 0xFFFF_FFFF_FFFF_FFFF, 0xFFFF_FFFF_FFFF_FFFF);
        }
        if mid * mid <= n {
            lo = mid;
        } else {
            hi = mid;
        }
    }
    proof {
        lemma_sqrt_floor(n as int, lo as int);
    }
    lo as u64
}

/// Pinhole intrinsics: focal lengths and principal point, fixed-point.
#[derive(Clone, Copy, Debug, PartialEq, Eq, Structural)]
pub struct PinholeIntrinsics {
    /// Horizontal focal length.
    pub fx: i64,
    /// Vertical focal length.
    pub fy: i64,
    /// Principal point, horizontal.
    pub cx: i64,
    /// Principal point, vertical.
    pub cy: i64,
    /// Image size in pixels.
    pub image_size: ImageSize,
}

/// Unified (extended unified) camera model: a pinhole core bent by the
/// distortion coefficients `alpha` and `beta`.
#[derive(Clone, Copy, Debug, PartialEq, Eq, Structural)]
pub struct UnifiedIntrinsics {
    /// Horizontal focal length.
    pub fx: i64,
    /// Vertical focal length.
    pub fy: i64,
    /// Principal point, horizontal.
    pub cx: i64,
    /// Principal point, vertical.
    pub cy: i64,
    /// Blending coefficient in `[0, 1]` (fixed-point).
    pub alpha: i64,
    /// Radial coefficient, nonnegative (fixed-point).
    pub beta: i64,
    /// Image size in pixels.
    pub image_size: ImageSize,
}

/// The projection family of a view's camera.
#[derive(Clone, Copy, Debug, PartialEq, Eq, Structural)]
pub enum RenderIntrinsics {
    /// Undistorted perspective projection.
    Pinhole(PinholeIntrinsics),
    /// Unified (distorted) projection.
    Unified(UnifiedIntrinsics),
}

impl PinholeIntrinsics {
    /// Focal lengths positive, all parameters in range.
    pub open spec fn wf(self) -> bool {
        &&& 0 < self.fx <= FX_BOUND
        &&& 0 < self.fy <= FX_BOUND
        &&& -FX_BOUND <= self.cx <= FX_BOUND
        &&& -FX_BOUND <= self.cy <= FX_BOUND
        &&& self.image_size.wf()
    }
}

impl UnifiedIntrinsics {
    /// Focal lengths positive, coefficients in their ranges.
    pub open spec fn wf(self) -> bool {
        &&& 0 < self.fx <= FX_BOUND
        &&& 0 < self.fy <= FX_BOUND
        &&& -FX_BOUND <= self.cx <= FX_BOUND
        &&& -FX_BOUND <= self.cy <= FX_BOUND
        &&& 0 <= self.alpha <= FX
        &&& 0 <= self.beta <= FX_BOUND
        &&& self.image_size.wf()
    }
}

impl RenderIntrinsics {
    /// Well-formedness of whichever family is in use.
    pub open spec fn wf(self) -> bool {
        match self {
            RenderIntrinsics::Pinhole(p) => p.wf(),
            RenderIntrinsics::Unified(u) => u.wf(),
        }
    }

    /// The image size the camera was built for.
    pub fn image_size(&self) -> (s: ImageSize)
        ensures
            s == self.image_size_spec(),
    {
        match self {
            RenderIntrinsics::Pinhole(p) => p.image_size,
            RenderIntrinsics::Unified(u) => u.image_size,
        }
    }

    /// The image size, as a value.
    pub open spec fn image_size_spec(self) -> ImageSize {
        match self {
            RenderIntrinsics::Pinhole(p) => p.image_size,
            RenderIntrinsics::Unified(u) => u.image_size,
        }
    }
}

/// One pinhole pixel coordinate: `f * x / z + c`, clamped.
pub open spec fn pinhole_coord(f: int, c: int, x: int, z: int) -> int {
    clamp_spec(tdiv(f * x, z) + c, FX_BOUND as int)
}

/// One pinhole ray coordinate at depth `z`: `(u - c) * z / f`, clamped.
pub open spec fn pinhole_ray_coord(f: int, c: int, u: int, z: int) -> int {
    clamp_spec(tdiv((u - c) * z, f), FX_BOUND as int)
}

/// Executable clamped truncating quotient plus offset.
fn scaled_quot(num_a: i64, num_b: i64, den: i64, off: i64) -> (r: i64)
    requires
        -FX_BOUND <= num_a <= FX_BOUND,
        -FX_BOUND as i128 * 2 <= num_b as i128 <= FX_BOUND as i128 * 2,
        den > 0,
        -FX_BOUND <= off <= FX_BOUND,
    ensures
        r == clamp_spec(tdiv(num_a as int * num_b as int, den as int) + off, FX_BOUND as int),
{
    proof {
        lemma_mul_in_range(num_a as int, num_b as int, FX_BOUND as int, 2 * FX_BOUND as int);
    }
    let num: i128 = (num_a as i128) * (num_b as i128);
    let q: i128 = if num >= 0 {
        num / (den as i128)
    } else {
        let m = -num;
        proof {
            assert(m as int / (den as int) <= m as int) by (nonlinear_arith)
                requires
                    m >= 0,
                    den > 0,
            ;
        }
        -(m / (den as i128))
    };
    proof {
        assert(num >= 0 ==> 0 <= num as int / (den as int) <= num as int) by (nonlinear_arith)
            requires
                den > 0,
        ;
    }
    let s = q + off as i128;
    if s < -(FX_BOUND as i128) {
        -FX_BOUND
    } else if s > FX_BOUND as i128 {
        FX_BOUND
    } else {
        s as i64
    }
}

impl PinholeIntrinsics {
    /// Projects a camera-frame point with positive depth to a pixel.
    pub fn project(&self, v: &V3) -> (r: Option<V2>)
        requires
            self.wf(),
            v.bounded(),
        ensures
            v.z > 0 ==> r == Some(
                V2 {
                    x: pinhole_coord(self.fx as int, self.cx as int, v.x as int, v.z as int) as i64,
                    y: pinhole_coord(self.fy as int, self.cy as int, v.y as int, v.z as int) as i64,
                },
            ),
            v.z <= 0 ==> r is None,
    {
        if v.z <= 0 {
            return None;
        }
        let u = scaled_quot(self.fx, v.x, v.z, self.cx);
        let w = scaled_quot(self.fy, v.y, v.z, self.cy);
        Some(V2 { x: u, y: w })
    }

    /// The camera-frame point at pixel `(u, v)` and metric depth `z`.
    pub fn unproject(&self, uv: &V2, z: i64) -> (r: V3)
        requires
            self.wf(),
            -FX_BOUND <= uv.x <= FX_BOUND,
            -FX_BOUND <= uv.y <= FX_BOUND,
            0 < z <= FX_BOUND,
        ensures
            r.x == pinhole_ray_coord(self.fx as int, self.cx as int, uv.x as int, z as int),
            r.y == pinhole_ray_coord(self.fy as int, self.cy as int, uv.y as int, z as int),
            r.z == z,
            r.bounded(),
    {
        let du: i64 = uv.x - self.cx;
        let dv: i64 = uv.y - self.cy;
        let x = scaled_quot(z, du, self.fx, 0);
        let y = scaled_quot(z, dv, self.fy, 0);
        proof {
            assert(z as int * du as int == du as int * z as int) by (nonlinear_arith);
            assert(z as int * dv as int == dv as int * z as int) by (nonlinear_arith);
        }
        V3 { x, y, z }
    }
}

} // verus!

verus! {

/// Truncating division of an `i128` by `FX` (shared by the camera formulas).
/// The multiplication-form bounds let callers derive magnitude bounds by
/// linear arithmetic alone.
fn div_fx_i128(a: i128) -> (r: i128)
    requires
        -0x4000_0000_0000_0000_0000_0000_0000_0000 < a,
    ensures
        r == tdiv(a as int, FX as int),
        a >= 0 ==> 0 <= r && 65536 * r <= a,
        a < 0 ==> r <= 0 && 65536 * r >= a,
{
    proof {
        vstd::arithmetic::div_mod::lemma_fundamental_div_mod(
            if a >= 0 {
                a as int
            } else {
                -(a as int)
            },
            65536,
        );
    }
    if a >= 0 {
        a / (FX as i128)
    } else {
        let n = -a;
        proof {
            assert(n as int / (FX as int) <= n as int) by (nonlinear_arith)
                requires
                    n >= 0,
            ;
        }
        -(n / (FX as i128))
    }
}

/// A root bracket bound: the floor square root of a value below `b * b` is
/// below `b`.
proof fn lemma_sqrt_bound(n: int, r: int, b: int)
    requires
        0 <= r,
        r * r <= n,
        0 < b,
        n < b * b,
    ensures
        r < b,
{
    if r >= b {
        assert(b * b <= r * r) by (nonlinear_arith)
            requires
                0 < b <= r,
        ;
    }
}

/// The EUCM distance term: `sqrt(beta * (x^2 + y^2) / FX + z^2)`.
pub open spec fn eucm_d(beta: int, x: int, y: int, z: int) -> int {
    sqrt_floor(tdiv(beta * (x * x + y * y), FX as int) + z * z)
}

/// The EUCM projection denominator: `(alpha * d + (1 - alpha) * z) / FX`.
pub open spec fn eucm_denom(alpha: int, beta: int, x: int, y: int, z: int) -> int {
    tdiv(alpha * eucm_d(beta, x, y, z) + (FX - alpha) * z, FX as int)
}

impl UnifiedIntrinsics {
    /// Projects a camera-frame point through the unified model; defined when
    /// the blending denominator is positive.
    pub fn project(&self, v: &V3) -> (r: Option<V2>)
        requires
            self.wf(),
            v.bounded(),
        ensures
            ({
                let den = eucm_denom(self.alpha as int, self.beta as int, v.x as int, v.y as int, v.z as int);
                if den > 0 {
                    r == Some(
                        V2 {
                            x: pinhole_coord(self.fx as int, self.cx as int, v.x as int, den) as i64,
                            y: pinhole_coord(self.fy as int, self.cy as int, v.y as int, den) as i64,
                        },
                    )
                } else {
                    r is None
                }
            }),
    {
        proof {
            lemma_mul_in_range(v.x as int, v.x as int, FX_BOUND as int, FX_BOUND as int);
            lemma_mul_in_range(v.y as int, v.y as int, FX_BOUND as int, FX_BOUND as int);
            lemma_mul_in_range(v.z as int, v.z as int, FX_BOUND as int, FX_BOUND as int);
        }
        let sq: i128 = (v.x as i128) * (v.x as i128) + (v.y as i128) * (v.y as i128);
        proof {
            lemma_square_nonneg(v.x as int);
            lemma_square_nonneg(v.y as int);
            lemma_square_nonneg(v.z as int);
            lemma_mul_nonneg(self.beta as int, sq as int);
            lemma_mul_in_range(
                self.beta as int,
                sq as int,
                FX_BOUND as int,
                0x8000_0000_0000_0000,
            );
        }
        let bsq: i128 = div_fx_i128((self.beta as i128) * sq);
        let arg: i128 = bsq + (v.z as i128) * (v.z as i128);
        let d: u64 = isqrt(arg as u128);
        proof {
            // arg < 2^80, so d < 2^40
            lemma_sqrt_bound(arg as int, d as int, 0x100_0000_0000);
            lemma_mul_in_range(self.alpha as int, d as int, FX as int, 0x100_0000_0000);
            lemma_mul_in_range((FX - self.alpha) as int, v.z as int, FX as int, FX_BOUND as int);
        }
        let den_num: i128 = (self.alpha as i128) * (d as i128) + ((FX - self.alpha) as i128) * (
        v.z as i128);
        let den: i128 = div_fx_i128(den_num);
        if den <= 0 {
            return None;
        }
        let u = scaled_quot(self.fx, v.x, den as i64, self.cx);
        let w = scaled_quot(self.fy, v.y, den as i64, self.cy);
        Some(V2 { x: u, y: w })
    }
}

/// The slope of the unified unprojection ray: `(u - c) * FX / f`, clamped.
pub open spec fn eucm_slope(f: int, c: int, u: int) -> int {
    clamp_spec(tdiv((u - c) * FX as int, f), FX_BOUND as int)
}

/// The squared ray slope, descaled: `(mx^2 + my^2) / FX`.
pub open spec fn eucm_r2(mx: int, my: int) -> int {
    tdiv(mx * mx + my * my, FX as int)
}

/// The argument of the unprojection square root:
/// `1 - (2 alpha - 1) * beta * r2`, fixed-point, stepwise truncated.
pub open spec fn eucm_sarg(alpha: int, beta: int, r2: int) -> int {
    FX as int - tdiv(tdiv((2 * alpha - FX as int) * beta, FX as int) * r2, FX as int)
}

/// The unprojection denominator: `alpha * sqrt(sarg) + (1 - alpha)`.
pub open spec fn eucm_unproj_den(alpha: int, sarg: int) -> int {
    tdiv(alpha * sqrt_floor(sarg * FX as int), FX as int) + (FX as int - alpha)
}

/// The unnormalized ray depth: `(1 - beta * alpha^2 * r2) / den`, stepwise.
pub open spec fn eucm_mz(alpha: int, beta: int, r2: int, den: int) -> int {
    tdiv(
        (FX as int - tdiv(tdiv(beta * tdiv(alpha * alpha, FX as int), FX as int) * r2, FX as int))
            * FX as int,
        den,
    )
}

/// The unified unprojection as a value: `Some` exactly when the pixel lies
/// in the model's valid domain and the recovered ray depth is positive and
/// representable.
pub open spec fn unified_unproject_spec(u: UnifiedIntrinsics, uv: V2, z: i64) -> Option<V3> {
    let mx = eucm_slope(u.fx as int, u.cx as int, uv.x as int);
    let my = eucm_slope(u.fy as int, u.cy as int, uv.y as int);
    let r2 = eucm_r2(mx, my);
    let sarg = eucm_sarg(u.alpha as int, u.beta as int, r2);
    if sarg >= 0 {
        let den = eucm_unproj_den(u.alpha as int, sarg);
        if den > 0 {
            let mz = eucm_mz(u.alpha as int, u.beta as int, r2, den);
            if 0 < mz <= 0x7FFF_FFFF_FFFF_FFFF {
                Some(
                    V3 {
                        x: clamp_spec(tdiv(mx * z as int, mz), FX_BOUND as int) as i64,
                        y: clamp_spec(tdiv(my * z as int, mz), FX_BOUND as int) as i64,
                        z: z,
                    },
                )
            } else {
                None
            }
        } else {
            None
        }
    } else {
        None
    }
}

/// The unprojection of whichever model the camera uses, as a value.
pub open spec fn unproject_spec(intr: RenderIntrinsics, uv: V2, z: i64) -> Option<V3> {
    match intr {
        RenderIntrinsics::Pinhole(p) => Some(
            V3 {
                x: pinhole_ray_coord(p.fx as int, p.cx as int, uv.x as int, z as int) as i64,
                y: pinhole_ray_coord(p.fy as int, p.cy as int, uv.y as int, z as int) as i64,
                z: z,
            },
        ),
        RenderIntrinsics::Unified(u) => unified_unproject_spec(u, uv, z),
    }
}

impl UnifiedIntrinsics {
    /// The camera-frame point at pixel `(u, v)` and metric depth `z`, through
    /// the unified model; defined when the pixel lies in the model's valid
    /// unprojection domain and the recovered ray depth is positive and
    /// representable.
    pub fn unproject(&self, uv: &V2, z: i64) -> (r: Option<V3>)
        requires
            self.wf(),
            -FX_BOUND <= uv.x <= FX_BOUND,
            -FX_BOUND <= uv.y <= FX_BOUND,
            0 < z <= FX_BOUND,
        ensures
            ({
                let mx = eucm_slope(self.fx as int, self.cx as int, uv.x as int);
                let my = eucm_slope(self.fy as int, self.cy as int, uv.y as int);
                let r2 = eucm_r2(mx, my);
                let sarg = eucm_sarg(self.alpha as int, self.beta as int, r2);
                if sarg >= 0 {
                    let den = eucm_unproj_den(self.alpha as int, sarg);
                    if den > 0 {
                        let mz = eucm_mz(self.alpha as int, self.beta as int, r2, den);
                        if 0 < mz <= 0x7FFF_FFFF_FFFF_FFFF {
                            r == Some(
                                V3 {
                                    x: clamp_spec(tdiv(mx * z as int, mz), FX_BOUND as int) as i64,
                                    y: clamp_spec(tdiv(my * z as int, mz), FX_BOUND as int) as i64,
                                    z: z,
                                },
                            )
                        } else {
                            r is None
                        }
                    } else {
                        r is None
                    }
                } else {
                    r is None
                }
            }),
            r is Some ==> r.unwrap().bounded(),
            r == unified_unproject_spec(*self, *uv, z),
    {
        let du: i64 = uv.x - self.cx;
        let dv: i64 = uv.y - self.cy;
        let mx = scaled_quot(FX, du, self.fx, 0);
        let my = scaled_quot(FX, dv, self.fy, 0);
        proof {
            assert(FX as int * du as int == (uv.x as int - self.cx as int) * FX as int)
                by (nonlinear_arith)
                requires
                    du == uv.x as int - self.cx as int,
            ;
            assert(FX as int * dv as int == (uv.y as int - self.cy as int) * FX as int)
                by (nonlinear_arith)
                requires
                    dv == uv.y as int - self.cy as int,
            ;
            lemma_mul_in_range(mx as int, mx as int, FX_BOUND as int, FX_BOUND as int);
            lemma_mul_in_range(my as int, my as int, FX_BOUND as int, FX_BOUND as int);
            lemma_square_nonneg(mx as int);
            lemma_square_nonneg(my as int);
        }
        // r2 <= 2^63 / 2^16 = 2^47
        let r2: i128 = div_fx_i128((mx as i128) * (mx as i128) + (my as i128) * (my as i128));
        proof {
            lemma_mul_in_range(
                (2 * self.alpha - FX) as int,
                self.beta as int,
                2 * FX as int,
                FX_BOUND as int,
            );
        }
        // kb <= 2^48 / 2^16 = 2^32
        let kb: i128 = div_fx_i128(((2 * self.alpha - FX) as i128) * (self.beta as i128));
        proof {
            lemma_mul_in_range(kb as int, r2 as int, 0x1_0000_0000, 0x8000_0000_0000);
        }
        // kbr <= 2^79 / 2^16 = 2^63
        let kbr: i128 = div_fx_i128(kb * r2);
        let sarg: i128 = (FX as i128) - kbr;
        if sarg < 0 {
            return None;
        }
        proof {
            lemma_mul_in_range(sarg as int, FX as int, 0x8000_0000_0000_0000_0000, FX as int);
            lemma_mul_nonneg(sarg as int, FX as int);
        }
        // sarg * FX <= 2^80, so s <= 2^40
        let s: u64 = isqrt((sarg * (FX as i128)) as u128);
        proof {
            lemma_sqrt_bound((sarg * (FX as i128)) as int, s as int, 0x200_0000_0000);
            lemma_mul_in_range(self.alpha as int, s as int, FX as int, 0x200_0000_0000);
        }
        let den: i128 = div_fx_i128((self.alpha as i128) * (s as i128)) + ((FX - self.alpha) as i128);
        if den <= 0 {
            return None;
        }
        proof {
            lemma_mul_in_range(self.alpha as int, self.alpha as int, FX as int, FX as int);
        }
        // a2 <= 2^32 / 2^16 = 2^16
        let a2: i128 = div_fx_i128((self.alpha as i128) * (self.alpha as i128));
        proof {
            lemma_mul_in_range(self.beta as int, a2 as int, FX_BOUND as int, FX as int);
        }
        // ba2 <= 2^47 / 2^16 = 2^31
        let ba2: i128 = div_fx_i128((self.beta as i128) * a2);
        proof {
            lemma_mul_in_range(ba2 as int, r2 as int, 0x8000_0000, 0x8000_0000_0000);
        }
        // ba2r2 <= 2^78 / 2^16 = 2^62
        let ba2r2: i128 = div_fx_i128(ba2 * r2);
        let numz: i128 = (FX as i128) - ba2r2;
        proof {
            lemma_mul_in_range(numz as int, FX as int, 0x4000_0000_0000_0000_0000, FX as int);
        }
        let mznum: i128 = numz * (FX as i128);
        let mz: i128 = if mznum >= 0 {
            proof {
                assert(mznum as int / (den as int) <= mznum as int) by (nonlinear_arith)
                    requires
                        mznum >= 0,
                        den > 0,
                ;
                assert(mznum as int / (den as int) >= 0) by (nonlinear_arith)
                    requires
                        mznum >= 0,
                        den > 0,
                ;
            }
            mznum / den
        } else {
            let m = -mznum;
            proof {
                assert(m as int / (den as int) <= m as int) by (nonlinear_arith)
                    requires
                        m >= 0,
                        den > 0,
                ;
                assert(m as int / (den as int) >= 0) by (nonlinear_arith)
                    requires
                        m >= 0,
                        den > 0,
                ;
            }
            -(m / den)
        };
        if mz <= 0 || mz > 0x7FFF_FFFF_FFFF_FFFF {
            return None;
        }
        let x = scaled_quot(mx, z, mz as i64, 0);
        let y = scaled_quot(my, z, mz as i64, 0);
        Some(V3 { x, y, z })
    }
}

impl RenderIntrinsics {
    /// Projects a camera-frame point to a pixel through whichever model the
    /// camera uses; `None` when the point cannot be projected.
    pub fn project(&self, v: &V3) -> (r: Option<V2>)
        requires
            self.wf(),
            v.bounded(),
        ensures
            match self {
                RenderIntrinsics::Pinhole(p) => {
                    if v.z > 0 {
                        r == Some(
                            V2 {
                                x: pinhole_coord(p.fx as int, p.cx as int, v.x as int, v.z as int) as i64,
                                y: pinhole_coord(p.fy as int, p.cy as int, v.y as int, v.z as int) as i64,
                            },
                        )
                    } else {
                        r is None
                    }
                },
                RenderIntrinsics::Unified(u) => {
                    let den = eucm_denom(u.alpha as int, u.beta as int, v.x as int, v.y as int, v.z as int);
                    if den > 0 {
                        r == Some(
                            V2 {
                                x: pinhole_coord(u.fx as int, u.cx as int, v.x as int, den) as i64,
                                y: pinhole_coord(u.fy as int, u.cy as int, v.y as int, den) as i64,
                            },
                        )
                    } else {
                        r is None
                    }
                },
            },
    {
        match self {
            RenderIntrinsics::Pinhole(p) => p.project(v),
            RenderIntrinsics::Unified(u) => u.project(v),
        }
    }

    /// The camera-frame point at a pixel and metric depth, through whichever
    /// model the camera uses; for the pinhole family it always exists.
    pub fn unproject(&self, uv: &V2, z: i64) -> (r: Option<V3>)
        requires
            self.wf(),
            -FX_BOUND <= uv.x <= FX_BOUND,
            -FX_BOUND <= uv.y <= FX_BOUND,
            0 < z <= FX_BOUND,
        ensures
            match self {
                RenderIntrinsics::Pinhole(p) => r == Some(
                    V3 {
                        x: pinhole_ray_coord(p.fx as int, p.cx as int, uv.x as int, z as int) as i64,
                        y: pinhole_ray_coord(p.fy as int, p.cy as int, uv.y as int, z as int) as i64,
                        z: z,
                    },
                ),
                RenderIntrinsics::Unified(u) => true,
            },
            r is Some ==> r.unwrap().bounded(),
            r == unproject_spec(*self, *uv, z),
    {
        match self {
            RenderIntrinsics::Pinhole(p) => {
                let w = p.unproject(uv, z);
                Some(w)
            },
            RenderIntrinsics::Unified(u) => u.unproject(uv, z),
        }
    }
}

/// Camera intrinsics together with the clipping planes, owned by one view.
#[derive(Clone, Copy, Debug, PartialEq, Eq, Structural)]
pub struct RenderCameraProperties {
    /// The projection model.
    pub intrinsics: RenderIntrinsics,
    /// Near and far planes.
    pub clipping_planes: ClippingPlanes,
}

impl RenderCameraProperties {
    /// Both parts well-formed.
    pub open spec fn wf(self) -> bool {
        self.intrinsics.wf() && self.clipping_planes.wf()
    }

    /// Checks well-formedness.
    pub fn is_wf(&self) -> (r: bool)
        ensures
            r == self.wf(),
    {
        let intr_ok = match &self.intrinsics {
            RenderIntrinsics::Pinhole(p) => 0 < p.fx && p.fx <= FX_BOUND && 0 < p.fy && p.fy
                <= FX_BOUND && -FX_BOUND <= p.cx && p.cx <= FX_BOUND && -FX_BOUND <= p.cy && p.cy
                <= FX_BOUND && p.image_size.is_wf(),
            RenderIntrinsics::Unified(u) => 0 < u.fx && u.fx <= FX_BOUND && 0 < u.fy && u.fy
                <= FX_BOUND && -FX_BOUND <= u.cx && u.cx <= FX_BOUND && -FX_BOUND <= u.cy && u.cy
                <= FX_BOUND && 0 <= u.alpha && u.alpha <= FX && 0 <= u.beta && u.beta <= FX_BOUND
                && u.image_size.is_wf(),
        };
        intr_ok && self.clipping_planes.is_wf()
    }

    /// A pinhole camera covering `image_size` with a focal length of 600
    /// pixels and default clipping planes.
    pub fn from_image_size(image_size: ImageSize) -> (r: RenderCameraProperties)
        requires
            image_size.wf(),
        ensures
            r.wf(),
            r.intrinsics.image_size_spec() == image_size,
            r.intrinsics is Pinhole,
    {
        RenderCameraProperties {
            intrinsics: RenderIntrinsics::Pinhole(
                PinholeIntrinsics {
                    fx: 600 * FX,
                    fy: 600 * FX,
                    cx: ((image_size.width / 2) as i64) * FX,
                    cy: ((image_size.height / 2) as i64) * FX,
                    image_size,
                },
            ),
            clipping_planes: ClippingPlanes { near: FX / 10, far: 1000 * FX },
        }
    }
}

/// A camera: its properties and its scene-from-camera pose.
#[derive(Clone, Copy, Debug, PartialEq, Eq, Structural)]
pub struct RenderCamera {
    /// Intrinsics and clipping planes.
    pub properties: RenderCameraProperties,
    /// The scene-from-camera transform.
    pub scene_from_camera: crate::geom::Pose,
}

impl RenderCamera {
    /// Properties well-formed and the pose in range.
    pub open spec fn wf(self) -> bool {
        self.properties.wf() && self.scene_from_camera.bounded()
    }

    /// A default camera: 640 x 480 pinhole at the identity pose.
    pub fn default_camera() -> (r: RenderCamera)
        ensures
            r.wf(),
            r.properties.intrinsics.image_size_spec() == (ImageSize { width: 640, height: 480 }),
            r.properties.intrinsics is Pinhole,
            r.scene_from_camera.rot == crate::geom::Mat3::identity_spec(),
            r.scene_from_camera.pos == (crate::geom::V3 { x: 0, y: 0, z: 0 }),
    {
        RenderCamera {
            properties: RenderCameraProperties::from_image_size(
                ImageSize { width: 640, height: 480 },
            ),
            scene_from_camera: crate::geom::Pose::identity(),
        }
    }
}

} // verus!
