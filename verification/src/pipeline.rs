//! The multi-pass rendering pipeline, modeled as pure functions from buffers
//! to buffers.
//!
//! The scene pass rasterizes the retained 3D tables (meshes, then lines, then
//! points) into a color buffer and a normalized-depth buffer, depth-tested
//! with the "less" comparison against a clear value of one (the far plane).
//! Geometry behind the near plane or beyond the far plane is dropped;
//! degenerate triangles are walked as-is and simply cover no pixel.

use vstd::prelude::*;

use crate::camera::ImageSize;
use crate::camera::pinhole_coord;
use crate::camera::PinholeIntrinsics;
use crate::camera::MAX_DIM;
use crate::depth::ClippingPlanes;
use crate::fixed::lemma_mul_in_range;
use crate::fixed::FX;
use crate::fixed::NDC_ONE;
use crate::geom::pose_unapply;
use crate::geom::pose_unapply_spec;
use crate::geom::tdiv;
use crate::geom::Pose;
use crate::geom::V3;
use crate::renderables::Color;
use crate::renderables::Line3;
use crate::renderables::LineSet3;
use crate::renderables::Mesh3;
use crate::renderables::Point3;
use crate::renderables::Tri3;
use crate::renderables::PointCloud3;
use crate::renderables::MAX_BRUSH;
use crate::table::RetainedTable;

verus! {

/// A color buffer and its depth buffer, both sized to one viewport.
pub struct FrameBuffers {
    /// The viewport these buffers cover.
    pub size: ImageSize,
    /// Row-major RGBA pixels, `width * height` of them.
    pub rgba: Vec<Color>,
    /// Row-major normalized device depth, `NDC_ONE` meaning "no geometry".
    pub ndc: Vec<u32>,
}

impl FrameBuffers {
    /// Buffers cover the stated size and every depth sample is in range.
    pub open spec fn wf(&self) -> bool {
        &&& self.size.wf()
        &&& self.rgba@.len() == self.size.width * self.size.height
        &&& self.ndc@.len() == self.size.width * self.size.height
        &&& forall|i: int| 0 <= i < self.ndc@.len() ==> #[trigger] self.ndc@[i] <= NDC_ONE
    }

    /// Fresh buffers for `size`: transparent black color, depth cleared to
    /// the far plane.
    pub fn new(size: ImageSize) -> (r: FrameBuffers)
        requires
            size.wf(),
        ensures
            r.wf(),
            r.size == size,
            forall|i: int| 0 <= i < r.ndc@.len() ==> #[trigger] r.ndc@[i] == NDC_ONE,
            forall|i: int|
                0 <= i < r.rgba@.len() ==> #[trigger] r.rgba@[i] == (Color {
                    r: 0,
                    g: 0,
                    b: 0,
                    a: 0,
                }),
            r.rgba@ == cleared_rgba((size.width * size.height) as int),
            r.ndc@ == cleared_ndc((size.width * size.height) as int),
    {
        proof {
            lemma_mul_in_range(size.width as int, size.height as int, MAX_DIM as int, MAX_DIM as int);
        }
        let n: usize = size.width * size.height;
        let rgba = vec![Color { r: 0, g: 0, b: 0, a: 0 }; n];
        let ndc = vec![NDC_ONE; n];
        proof {
            assert(rgba@ =~= cleared_rgba(n as int));
            assert(ndc@ =~= cleared_ndc(n as int));
        }
        FrameBuffers { size, rgba, ndc }
    }
}

/// A cleared color buffer: transparent black everywhere.
pub open spec fn cleared_rgba(n: int) -> Seq<Color> {
    Seq::new(n as nat, |i: int| Color { r: 0, g: 0, b: 0, a: 0 })
}

/// A cleared depth buffer: the far plane everywhere.
pub open spec fn cleared_ndc(n: int) -> Seq<u32> {
    Seq::new(n as nat, |i: int| NDC_ONE)
}

/// Depth-test monotonicity: the new depth buffer is nowhere deeper than the
/// old one (the "less" comparison can only bring samples nearer).
pub open spec fn depth_monotone(before: Seq<u32>, after: Seq<u32>) -> bool {
    after.len() == before.len() && forall|i: int|
        0 <= i < after.len() ==> #[trigger] after[i] <= before[i]
}

/// Stores one sample if it passes the depth test (`ndc` strictly less than
/// the stored depth); otherwise leaves the buffers untouched.
pub fn put_pixel(buf: &mut FrameBuffers, x: usize, y: usize, color: Color, ndc: u32)
    requires
        old(buf).wf(),
        x < old(buf).size.width,
        y < old(buf).size.height,
        ndc <= NDC_ONE,
    ensures
        final(buf).wf(),
        final(buf).size == old(buf).size,
        depth_monotone(old(buf).ndc@, final(buf).ndc@),
        ({
            let idx = y * old(buf).size.width + x;
            if ndc < old(buf).ndc@[idx as int] {
                final(buf).rgba@ == old(buf).rgba@.update(idx as int, color) && final(buf).ndc@
                    == old(buf).ndc@.update(idx as int, ndc)
            } else {
                final(buf).rgba@ == old(buf).rgba@ && final(buf).ndc@ == old(buf).ndc@
            }
        }),
{
    proof {
        lemma_idx_in_bounds(x as int, y as int, buf.size.width as int, buf.size.height as int);
    }
    let idx: usize = y * buf.size.width + x;
    if ndc < buf.ndc[idx] {
        buf.rgba[idx] = color;
        buf.ndc[idx] = ndc;
    }
}

/// A row-major index lies inside the buffer.
proof fn lemma_idx_in_bounds(x: int, y: int, w: int, h: int)
    requires
        0 <= x < w,
        0 <= y < h,
        w <= MAX_DIM,
        h <= MAX_DIM,
    ensures
        0 <= y * w + x < w * h,
        w * h <= 0x100_0000,
{
    assert(0 <= y * w + x < w * h) by (nonlinear_arith)
        requires
            0 <= x < w,
            0 <= y < h,
    ;
    assert(w * h <= 0x100_0000) by (nonlinear_arith)
        requires
            0 < w <= 4096,
            0 < h <= 4096,
    ;
}

/// Whether the square brush centered on pixel `(cx, cy)` covers pixel
/// `(x, y)` (the brush spans `size + 1` pixels on each axis).
pub open spec fn square_covers(cx: int, cy: int, size: int, x: int, y: int) -> bool {
    let half = size / 2;
    cx - half <= x <= cx - half + size && cy - half <= y <= cy - half + size
}

/// The color buffer after a depth-tested square fill: covered pixels that
/// pass the strict-less depth test take the brush color, all others keep
/// their value.
pub open spec fn fill_square_rgba(
    rgba: Seq<Color>,
    ndc: Seq<u32>,
    w: int,
    cx: int,
    cy: int,
    size: int,
    color: Color,
    z: u32,
) -> Seq<Color> {
    Seq::new(
        rgba.len(),
        |i: int|
            if square_covers(cx, cy, size, i % w, i / w) && z < ndc[i] {
                color
            } else {
                rgba[i]
            },
    )
}

/// The depth buffer after a depth-tested square fill.
pub open spec fn fill_square_ndc(ndc: Seq<u32>, w: int, cx: int, cy: int, size: int, z: u32) -> Seq<
    u32,
> {
    Seq::new(
        ndc.len(),
        |i: int|
            if square_covers(cx, cy, size, i % w, i / w) && z < ndc[i] {
                z
            } else {
                ndc[i]
            },
    )
}

/// One pixel's state under a brush fill in progress: if it is covered and
/// lies before the scan limit (`row limit_y`, partial up to column `limit_x`
/// in that row), it has been updated by the depth test against the original
/// buffers; otherwise it is untouched.
pub open spec fn brush_pixel_ok(
    r0: Seq<Color>,
    n0: Seq<u32>,
    rgba: Seq<Color>,
    ndcs: Seq<u32>,
    w: int,
    cx: int,
    cy: int,
    size: int,
    color: Color,
    z: u32,
    limit_y: int,
    limit_x: int,
    i: int,
) -> bool {
    if square_covers(cx, cy, size, i % w, i / w) && (i / w < limit_y || (i / w == limit_y && i % w
        < limit_x)) {
        ndcs[i] == (if z < n0[i] {
            z
        } else {
            n0[i]
        }) && rgba[i] == (if z < n0[i] {
            color
        } else {
            r0[i]
        })
    } else {
        ndcs[i] == n0[i] && rgba[i] == r0[i]
    }
}

/// The brush-fill progress over the whole buffer.
pub open spec fn brush_progress(
    r0: Seq<Color>,
    n0: Seq<u32>,
    rgba: Seq<Color>,
    ndcs: Seq<u32>,
    w: int,
    cx: int,
    cy: int,
    size: int,
    color: Color,
    z: u32,
    limit_y: int,
    limit_x: int,
) -> bool {
    forall|i: int|
        0 <= i < n0.len() ==> #[trigger] brush_pixel_ok(
            r0,
            n0,
            rgba,
            ndcs,
            w,
            cx,
            cy,
            size,
            color,
            z,
            limit_y,
            limit_x,
            i,
        )
}

/// Row-major index arithmetic: the index of pixel `(x, y)` decomposes back
/// into its column and row.
pub proof fn lemma_row_major(x: int, y: int, w: int)
    requires
        0 <= x < w,
        0 <= y,
    ensures
        (y * w + x) % w == x,
        (y * w + x) / w == y,
{
    vstd::arithmetic::div_mod::lemma_fundamental_div_mod_converse(y * w + x, w, y, x);
}

/// A row-major index inside the buffer has a column within the width and a
/// row within the height.
pub proof fn lemma_index_decomposes(i: int, w: int, h: int)
    requires
        0 <= i,
        i < w * h,
        0 < w,
        0 <= h,
    ensures
        0 <= i % w < w,
        0 <= i / w < h,
        i == w * (i / w) + i % w,
        i == (i / w) * w + i % w,
{
    vstd::arithmetic::div_mod::lemma_fundamental_div_mod(i, w);
    assert(w * (i / w) == (i / w) * w) by (nonlinear_arith);
    vstd::arithmetic::div_mod::lemma_mod_bound(i, w);
    assert(i / w >= 0) by (nonlinear_arith)
        requires
            i >= 0,
            w > 0,
    ;
    if i / w >= h {
        assert(i >= w * h) by (nonlinear_arith)
            requires
                i == w * (i / w) + i % w,
                i / w >= h,
                i % w >= 0,
                w > 0,
                h >= 0,
        ;
    }
}

/// Fills a square brush centered on pixel `(cx, cy)` (which may lie outside
/// the viewport; only in-range pixels are touched), depth-tested per pixel.
#[verifier::rlimit(60)]
pub fn fill_square(buf: &mut FrameBuffers, cx: i64, cy: i64, size: u32, color: Color, ndc: u32)
    requires
        old(buf).wf(),
        size <= MAX_BRUSH,
        ndc <= NDC_ONE,
        -0x8000_0000 <= cx <= 0x8000_0000,
        -0x8000_0000 <= cy <= 0x8000_0000,
    ensures
        final(buf).wf(),
        final(buf).size == old(buf).size,
        depth_monotone(old(buf).ndc@, final(buf).ndc@),
        final(buf).rgba@ == fill_square_rgba(
            old(buf).rgba@,
            old(buf).ndc@,
            old(buf).size.width as int,
            cx as int,
            cy as int,
            size as int,
            color,
            ndc,
        ),
        final(buf).ndc@ == fill_square_ndc(
            old(buf).ndc@,
            old(buf).size.width as int,
            cx as int,
            cy as int,
            size as int,
            ndc,
        ),
{
    let ghost w = old(buf).size.width as int;
    let ghost h = old(buf).size.height as int;
    let ghost r0 = old(buf).rgba@;
    let ghost n0 = old(buf).ndc@;
    let half: i64 = (size / 2) as i64;
    let mut dy: u32 = 0;
    while dy <= size
        invariant
            buf.wf(),
            buf.size == old(buf).size,
            depth_monotone(n0, buf.ndc@),
            r0 == old(buf).rgba@,
            n0 == old(buf).ndc@,
            w == old(buf).size.width as int,
            h == old(buf).size.height as int,
            size <= MAX_BRUSH,
            ndc <= NDC_ONE,
            half == size as int / 2,
            -0x8000_0000 <= cx <= 0x8000_0000,
            -0x8000_0000 <= cy <= 0x8000_0000,
            dy <= size + 1,
            brush_progress(
                r0,
                n0,
                buf.rgba@,
                buf.ndc@,
                w,
                cx as int,
                cy as int,
                size as int,
                color,
                ndc,
                cy - half + dy,
                cx - half,
            ),
        decreases size + 1 - dy,
    {
        let py: i64 = cy - half + dy as i64;
        let mut dx: u32 = 0;
        while dx <= size
            invariant
                buf.wf(),
                buf.size == old(buf).size,
                depth_monotone(n0, buf.ndc@),
                r0 == old(buf).rgba@,
                n0 == old(buf).ndc@,
                w == old(buf).size.width as int,
                h == old(buf).size.height as int,
                size <= MAX_BRUSH,
                ndc <= NDC_ONE,
                half == size as int / 2,
                py == cy - half + dy,
                dy <= size,
                dx <= size + 1,
                -0x8000_0000 <= cx <= 0x8000_0000,
                -0x8000_0000 <= cy <= 0x8000_0000,
                brush_progress(
                    r0,
                    n0,
                    buf.rgba@,
                    buf.ndc@,
                    w,
                    cx as int,
                    cy as int,
                    size as int,
                    color,
                    ndc,
                    py as int,
                    cx - half + dx,
                ),
            decreases size + 1 - dx,
        {
            let px: i64 = cx - half + dx as i64;
            let ghost before = *buf;
            if px >= 0 && py >= 0 && (px as usize) < buf.size.width && (py as usize)
                < buf.size.height {
                put_pixel(buf, px as usize, py as usize, color, ndc);
            }
            proof {
                if 0 <= px < w && 0 <= py < h {
                    lemma_row_major(px as int, py as int, w);
                    lemma_idx_in_bounds(px as int, py as int, w, h);
                    let target = py * w + px;
                    assert(target % w == px && target / w == py);
                    assert(brush_pixel_ok(
                        r0,
                        n0,
                        before.rgba@,
                        before.ndc@,
                        w,
                        cx as int,
                        cy as int,
                        size as int,
                        color,
                        ndc,
                        py as int,
                        cx - half + dx,
                        target,
                    ));
                    assert(before.ndc@[target] == n0[target] && before.rgba@[target] == r0[target]);
                }
                assert forall|i: int| 0 <= i < n0.len() && !(i % w == px && i / w == py) implies (
                #[trigger] buf.ndc@[i]) == before.ndc@[i] && buf.rgba@[i] == before.rgba@[i] by {
                    lemma_index_decomposes(i, w, h);
                    if 0 <= px < w && 0 <= py < h {
                        assert(i != py * w + px);
                    }
                }
                assert forall|i: int| 0 <= i < n0.len() implies #[trigger] brush_pixel_ok(
                    r0,
                    n0,
                    buf.rgba@,
                    buf.ndc@,
                    w,
                    cx as int,
                    cy as int,
                    size as int,
                    color,
                    ndc,
                    py as int,
                    cx - half + (dx + 1),
                    i,
                ) by {
                    lemma_index_decomposes(i, w, h);
                    assert(brush_pixel_ok(
                        r0,
                        n0,
                        before.rgba@,
                        before.ndc@,
                        w,
                        cx as int,
                        cy as int,
                        size as int,
                        color,
                        ndc,
                        py as int,
                        cx - half + dx,
                        i,
                    ));
                    if i % w == px && i / w == py {
                        assert(0 <= px < w && 0 <= py < h);
                        assert(i == py * w + px);
                    } else {
                        assert(buf.ndc@[i] == before.ndc@[i] && buf.rgba@[i] == before.rgba@[i]);
                    }
                }
            }
            dx += 1;
        }
        proof {
            assert forall|i: int| 0 <= i < n0.len() implies #[trigger] brush_pixel_ok(
                r0,
                n0,
                buf.rgba@,
                buf.ndc@,
                w,
                cx as int,
                cy as int,
                size as int,
                color,
                ndc,
                cy - half + (dy + 1),
                cx - half,
                i,
            ) by {
                lemma_index_decomposes(i, w, h);
                assert(brush_pixel_ok(
                    r0,
                    n0,
                    buf.rgba@,
                    buf.ndc@,
                    w,
                    cx as int,
                    cy as int,
                    size as int,
                    color,
                    ndc,
                    py as int,
                    cx - half + (size + 1),
                    i,
                ));
            }
        }
        dy += 1;
    }
    proof {
        assert forall|i: int| 0 <= i < n0.len() implies #[trigger] buf.ndc@[i] == fill_square_ndc(
            n0,
            w,
            cx as int,
            cy as int,
            size as int,
            ndc,
        )[i] by {
            lemma_index_decomposes(i, w, h);
            assert(brush_pixel_ok(
                r0,
                n0,
                buf.rgba@,
                buf.ndc@,
                w,
                cx as int,
                cy as int,
                size as int,
                color,
                ndc,
                cy - half + (size + 1),
                cx - half,
                i,
            ));
        }
        assert forall|i: int| 0 <= i < n0.len() implies #[trigger] buf.rgba@[i]
            == fill_square_rgba(
            r0,
            n0,
            w,
            cx as int,
            cy as int,
            size as int,
            color,
            ndc,
        )[i] by {
            lemma_index_decomposes(i, w, h);
            assert(brush_pixel_ok(
                r0,
                n0,
                buf.rgba@,
                buf.ndc@,
                w,
                cx as int,
                cy as int,
                size as int,
                color,
                ndc,
                cy - half + (size + 1),
                cx - half,
                i,
            ));
        }
        assert(buf.ndc@ =~= fill_square_ndc(n0, w, cx as int, cy as int, size as int, ndc));
        assert(buf.rgba@ =~= fill_square_rgba(
            r0,
            n0,
            w,
            cx as int,
            cy as int,
            size as int,
            color,
            ndc,
        ));
    }
}

} // verus!

verus! {

/// Floor division of a fixed-point value by `FX` (pixel index of a
/// fixed-point coordinate).
fn pixel_floor(v: i64) -> (r: i64)
    requires
        -0x2_0000_0000 <= v <= 0x2_0000_0000,
    ensures
        r == v as int / FX as int,
        -0x2_0000 <= r <= 0x2_0000,
{
    proof {
        vstd::arithmetic::div_mod::lemma_fundamental_div_mod(v as int, FX as int);
    }
    if v >= 0 {
        v / FX
    } else {
        -((-v + FX - 1) / FX)
    }
}

/// The pixel holding a fixed-point image coordinate: floor of `(v + 1/2)`.
pub open spec fn pixel_of(v: int) -> int {
    (v + FX as int / 2) / FX as int
}

/// A projected vertex: its pixel, and its normalized depth.
pub struct RasterVertex {
    /// Pixel column (may lie outside the viewport).
    pub px: i64,
    /// Pixel row (may lie outside the viewport).
    pub py: i64,
    /// Normalized device depth, within `0 ..= NDC_ONE`.
    pub ndc: u32,
}

impl RasterVertex {
    /// Pixel within the projected range, depth within the scale.
    pub open spec fn wf(self) -> bool {
        -0x2_0000 <= self.px <= 0x2_0000 && -0x2_0000 <= self.py <= 0x2_0000 && self.ndc <= NDC_ONE
    }
}

/// The raster vertex of a camera-frame point: its pixel through the scene
/// pass intrinsics, and its normalized depth through the clipping planes;
/// nothing outside the clip range rasterizes.
pub open spec fn vertex_spec(intr: PinholeIntrinsics, clip: ClippingPlanes, q: V3) -> Option<
    RasterVertex,
> {
    if clip.near <= q.z <= clip.far {
        Some(
            RasterVertex {
                px: ((pinhole_coord(intr.fx as int, intr.cx as int, q.x as int, q.z as int)
                    + FX as int / 2) / FX as int) as i64,
                py: ((pinhole_coord(intr.fy as int, intr.cy as int, q.y as int, q.z as int)
                    + FX as int / 2) / FX as int) as i64,
                ndc: (NDC_ONE as int * crate::depth::ndc_num(
                    clip.near as int,
                    clip.far as int,
                    q.z as int,
                    1,
                ) / crate::depth::ndc_den(clip.near as int, clip.far as int, q.z as int, 1)) as u32,
            },
        )
    } else {
        None
    }
}

/// Projects one camera-frame point to a raster vertex; `None` when it falls
/// outside the clip range.
pub fn project_vertex(intr: &PinholeIntrinsics, clip: &ClippingPlanes, q: &V3) -> (r: Option<
    RasterVertex,
>)
    requires
        intr.wf(),
        clip.wf(),
        q.bounded(),
    ensures
        r is Some ==> r.unwrap().wf(),
        r is Some <==> clip.near <= q.z <= clip.far,
        r == vertex_spec(*intr, *clip, *q),
{
    if q.z < clip.near || q.z > clip.far {
        return None;
    }
    let uv = match intr.project(q) {
        Some(uv) => uv,
        None => {
            proof {
                assert(false);
            }
            unreached()
        },
    };
    let ndc = clip.ndc_from_metric(q.z);
    let px = pixel_floor(uv.x + FX / 2);
    let py = pixel_floor(uv.y + FX / 2);
    Some(RasterVertex { px, py, ndc })
}

/// Linear interpolation `a + (b - a) * k / n`, staying between `a` and `b`.
pub fn lerp(a: i64, b: i64, k: i64, n: i64) -> (r: i64)
    requires
        0 <= k <= n,
        0 < n,
        -0x2_0000_0000 <= a <= 0x2_0000_0000,
        -0x2_0000_0000 <= b <= 0x2_0000_0000,
    ensures
        r == a + tdiv((b - a) * k, n as int),
        a <= b ==> a <= r <= b,
        b <= a ==> b <= r <= a,
{
    let d: i64 = b - a;
    proof {
        lemma_mul_in_range(d as int, k as int, 0x4_0000_0000, 0x8000_0000_0000_0000);
        lemma_mul_in_range(-(d as int), k as int, 0x4_0000_0000, 0x8000_0000_0000_0000);
        if d >= 0 {
            assert(0 <= d as int * k as int <= d as int * n as int) by (nonlinear_arith)
                requires
                    d >= 0,
                    0 <= k <= n,
            ;
            vstd::arithmetic::div_mod::lemma_div_is_ordered(0, d as int * k as int, n as int);
            vstd::arithmetic::div_mod::lemma_div_is_ordered(
                d as int * k as int,
                d as int * n as int,
                n as int,
            );
            vstd::arithmetic::div_mod::lemma_div_multiples_vanish(d as int, n as int);
        } else {
            assert(0 <= (-d) as int * k as int <= (-d) as int * n as int) by (nonlinear_arith)
                requires
                    d < 0,
                    0 <= k <= n,
            ;
            vstd::arithmetic::div_mod::lemma_div_is_ordered(0, (-d) as int * k as int, n as int);
            vstd::arithmetic::div_mod::lemma_div_is_ordered(
                (-d) as int * k as int,
                (-d) as int * n as int,
                n as int,
            );
            vstd::arithmetic::div_mod::lemma_div_multiples_vanish((-d) as int, n as int);
        }
    }
    proof {
        assert((-(d as int)) * k as int == -(d as int * k as int)) by (nonlinear_arith);
    }
    let t: i64 = if d >= 0 {
        ((d as i128) * (k as i128) / (n as i128)) as i64
    } else {
        -((((-d) as i128) * (k as i128) / (n as i128)) as i64)
    };
    a + t
}

/// The buffers after drawing the first `n` points of a point cloud: each
/// point in clip range becomes a depth-tested square of the cloud's point
/// size at its projected pixel, in order.
pub open spec fn cloud_fold(
    rgba: Seq<Color>,
    ndc: Seq<u32>,
    w: int,
    intr: PinholeIntrinsics,
    clip: ClippingPlanes,
    pose: Pose,
    points: Seq<Point3>,
    psize: int,
    color_ignored: bool,
    n: int,
) -> (Seq<Color>, Seq<u32>)
    decreases n,
{
    if n <= 0 {
        (rgba, ndc)
    } else {
        let prev = cloud_fold(rgba, ndc, w, intr, clip, pose, points, psize, color_ignored, n - 1);
        let p = points[n - 1];
        match vertex_spec(intr, clip, pose_unapply_spec(pose, p.pos)) {
            Some(v) => (
                fill_square_rgba(
                    prev.0,
                    prev.1,
                    w,
                    v.px as int,
                    v.py as int,
                    psize,
                    p.color,
                    v.ndc,
                ),
                fill_square_ndc(prev.1, w, v.px as int, v.py as int, psize, v.ndc),
            ),
            None => prev,
        }
    }
}

/// The number of samples a rasterized segment takes minus one: the larger
/// pixel span of its two axes, plus one.
pub open spec fn seg_steps(va: RasterVertex, vb: RasterVertex) -> int {
    let adx = if vb.px >= va.px {
        vb.px - va.px
    } else {
        va.px - vb.px
    };
    let ady = if vb.py >= va.py {
        vb.py - va.py
    } else {
        va.py - vb.py
    };
    if adx >= ady {
        adx + 1
    } else {
        ady + 1
    }
}

/// The buffers after stamping the first `k` samples of one segment: sample
/// `j` sits at the linear interpolation of the endpoints at `j / steps`,
/// with linearly interpolated depth, stamped as a depth-tested square of the
/// line width.
pub open spec fn seg_fold(
    rgba: Seq<Color>,
    ndc: Seq<u32>,
    w: int,
    va: RasterVertex,
    vb: RasterVertex,
    width: int,
    color: Color,
    steps: int,
    k: int,
) -> (Seq<Color>, Seq<u32>)
    decreases k,
{
    if k <= 0 {
        (rgba, ndc)
    } else {
        let prev = seg_fold(rgba, ndc, w, va, vb, width, color, steps, k - 1);
        let px = va.px + tdiv((vb.px - va.px) * (k - 1), steps);
        let py = va.py + tdiv((vb.py - va.py) * (k - 1), steps);
        let nd = (va.ndc + tdiv((vb.ndc - va.ndc) * (k - 1), steps)) as u32;
        (
            fill_square_rgba(prev.0, prev.1, w, px, py, width, color, nd),
            fill_square_ndc(prev.1, w, px, py, width, nd),
        )
    }
}

/// The buffers after drawing the first `n` segments of a line set: a segment
/// draws only when both endpoints are in clip range.
pub open spec fn line_fold(
    rgba: Seq<Color>,
    ndc: Seq<u32>,
    w: int,
    intr: PinholeIntrinsics,
    clip: ClippingPlanes,
    pose: Pose,
    lines: Seq<Line3>,
    width: int,
    n: int,
) -> (Seq<Color>, Seq<u32>)
    decreases n,
{
    if n <= 0 {
        (rgba, ndc)
    } else {
        let prev = line_fold(rgba, ndc, w, intr, clip, pose, lines, width, n - 1);
        let seg = lines[n - 1];
        let va = vertex_spec(intr, clip, pose_unapply_spec(pose, seg.a));
        let vb = vertex_spec(intr, clip, pose_unapply_spec(pose, seg.b));
        if va is Some && vb is Some {
            let steps = seg_steps(va.unwrap(), vb.unwrap());
            seg_fold(
                prev.0,
                prev.1,
                w,
                va.unwrap(),
                vb.unwrap(),
                width,
                seg.color,
                steps,
                steps + 1,
            )
        } else {
            prev
        }
    }
}

/// Draws one 3D point set: each point is projected and filled as a square of
/// the cloud's point size, depth-tested.
pub fn draw_point_cloud(
    buf: &mut FrameBuffers,
    intr: &PinholeIntrinsics,
    clip: &ClippingPlanes,
    scene_from_camera: &Pose,
    cloud: &PointCloud3,
)
    requires
        old(buf).wf(),
        intr.wf(),
        clip.wf(),
        scene_from_camera.bounded(),
        cloud.point_size <= MAX_BRUSH,
        forall|i: int| 0 <= i < cloud.points@.len() ==> (#[trigger] cloud.points@[i]).pos.bounded(),
    ensures
        final(buf).wf(),
        final(buf).size == old(buf).size,
        depth_monotone(old(buf).ndc@, final(buf).ndc@),
        final(buf).rgba@ == cloud_fold(
            old(buf).rgba@,
            old(buf).ndc@,
            old(buf).size.width as int,
            *intr,
            *clip,
            *scene_from_camera,
            cloud.points@,
            cloud.point_size as int,
            true,
            cloud.points@.len() as int,
        ).0,
        final(buf).ndc@ == cloud_fold(
            old(buf).rgba@,
            old(buf).ndc@,
            old(buf).size.width as int,
            *intr,
            *clip,
            *scene_from_camera,
            cloud.points@,
            cloud.point_size as int,
            true,
            cloud.points@.len() as int,
        ).1,
{
    let ghost r0 = old(buf).rgba@;
    let ghost n0 = old(buf).ndc@;
    let ghost w = old(buf).size.width as int;
    let mut i: usize = 0;
    while i < cloud.points.len()
        invariant
            buf.wf(),
            buf.size == old(buf).size,
            depth_monotone(n0, buf.ndc@),
            r0 == old(buf).rgba@,
            n0 == old(buf).ndc@,
            w == old(buf).size.width as int,
            intr.wf(),
            clip.wf(),
            scene_from_camera.bounded(),
            cloud.point_size <= MAX_BRUSH,
            i <= cloud.points@.len(),
            buf.rgba@ == cloud_fold(
                r0,
                n0,
                w,
                *intr,
                *clip,
                *scene_from_camera,
                cloud.points@,
                cloud.point_size as int,
                true,
                i as int,
            ).0,
            buf.ndc@ == cloud_fold(
                r0,
                n0,
                w,
                *intr,
                *clip,
                *scene_from_camera,
                cloud.points@,
                cloud.point_size as int,
                true,
                i as int,
            ).1,
            forall|j: int|
                0 <= j < cloud.points@.len() ==> (#[trigger] cloud.points@[j]).pos.bounded(),
        decreases cloud.points.len() - i,
    {
        let p = &cloud.points[i];
        let q = pose_unapply(scene_from_camera, &p.pos);
        if let Some(v) = project_vertex(intr, clip, &q) {
            fill_square(buf, v.px, v.py, cloud.point_size, p.color, v.ndc);
        }
        i += 1;
    }
}

/// Draws one 3D line set: both endpoints are projected, then the segment is
/// walked sample by sample, each sample filled as a square of the set's
/// width, depth interpolated along the segment.
pub fn draw_line_set(
    buf: &mut FrameBuffers,
    intr: &PinholeIntrinsics,
    clip: &ClippingPlanes,
    scene_from_camera: &Pose,
    lines: &LineSet3,
)
    requires
        old(buf).wf(),
        intr.wf(),
        clip.wf(),
        scene_from_camera.bounded(),
        lines.width <= MAX_BRUSH,
        forall|i: int|
            0 <= i < lines.lines@.len() ==> (#[trigger] lines.lines@[i]).a.bounded()
                && lines.lines@[i].b.bounded(),
    ensures
        final(buf).wf(),
        final(buf).size == old(buf).size,
        depth_monotone(old(buf).ndc@, final(buf).ndc@),
        final(buf).rgba@ == line_fold(
            old(buf).rgba@,
            old(buf).ndc@,
            old(buf).size.width as int,
            *intr,
            *clip,
            *scene_from_camera,
            lines.lines@,
            lines.width as int,
            lines.lines@.len() as int,
        ).0,
        final(buf).ndc@ == line_fold(
            old(buf).rgba@,
            old(buf).ndc@,
            old(buf).size.width as int,
            *intr,
            *clip,
            *scene_from_camera,
            lines.lines@,
            lines.width as int,
            lines.lines@.len() as int,
        ).1,
{
    let ghost r0 = old(buf).rgba@;
    let ghost n0 = old(buf).ndc@;
    let ghost w = old(buf).size.width as int;
    let mut i: usize = 0;
    while i < lines.lines.len()
        invariant
            buf.wf(),
            buf.size == old(buf).size,
            depth_monotone(n0, buf.ndc@),
            r0 == old(buf).rgba@,
            n0 == old(buf).ndc@,
            w == old(buf).size.width as int,
            intr.wf(),
            clip.wf(),
            scene_from_camera.bounded(),
            lines.width <= MAX_BRUSH,
            i <= lines.lines@.len(),
            buf.rgba@ == line_fold(
                r0,
                n0,
                w,
                *intr,
                *clip,
                *scene_from_camera,
                lines.lines@,
                lines.width as int,
                i as int,
            ).0,
            buf.ndc@ == line_fold(
                r0,
                n0,
                w,
                *intr,
                *clip,
                *scene_from_camera,
                lines.lines@,
                lines.width as int,
                i as int,
            ).1,
            forall|j: int|
                0 <= j < lines.lines@.len() ==> (#[trigger] lines.lines@[j]).a.bounded()
                    && lines.lines@[j].b.bounded(),
        decreases lines.lines.len() - i,
    {
        let ghost ri = buf.rgba@;
        let ghost ni = buf.ndc@;
        let seg = &lines.lines[i];
        let qa = pose_unapply(scene_from_camera, &seg.a);
        let qb = pose_unapply(scene_from_camera, &seg.b);
        let va = project_vertex(intr, clip, &qa);
        let vb = project_vertex(intr, clip, &qb);
        if va.is_some() && vb.is_some() {
            let va = va.unwrap();
            let vb = vb.unwrap();
            let adx: i64 = if vb.px >= va.px {
                vb.px - va.px
            } else {
                va.px - vb.px
            };
            let ady: i64 = if vb.py >= va.py {
                vb.py - va.py
            } else {
                va.py - vb.py
            };
            let steps: i64 = if adx >= ady {
                adx + 1
            } else {
                ady + 1
            };
            proof {
                assert(steps == seg_steps(va, vb));
            }
            let mut k: i64 = 0;
            while k <= steps
                invariant
                    buf.wf(),
                    buf.size == old(buf).size,
                    depth_monotone(n0, buf.ndc@),
                    r0 == old(buf).rgba@,
                    n0 == old(buf).ndc@,
                    w == old(buf).size.width as int,
                    0 < steps <= 0x8_0001,
                    steps == seg_steps(va, vb),
                    0 <= k <= steps + 1,
                    va.wf(),
                    vb.wf(),
                    lines.width <= MAX_BRUSH,
                    buf.rgba@ == seg_fold(
                        ri,
                        ni,
                        w,
                        va,
                        vb,
                        lines.width as int,
                        seg.color,
                        steps as int,
                        k as int,
                    ).0,
                    buf.ndc@ == seg_fold(
                        ri,
                        ni,
                        w,
                        va,
                        vb,
                        lines.width as int,
                        seg.color,
                        steps as int,
                        k as int,
                    ).1,
                decreases steps + 1 - k,
            {
                let px = crate::pipeline::lerp(va.px, vb.px, k, steps);
                let py = crate::pipeline::lerp(va.py, vb.py, k, steps);
                let nd = crate::pipeline::lerp(va.ndc as i64, vb.ndc as i64, k, steps);
                fill_square(buf, px, py, lines.width, seg.color, nd as u32);
                k += 1;
            }
        }
        proof {
            assert(buf.rgba@ == line_fold(
                r0,
                n0,
                w,
                *intr,
                *clip,
                *scene_from_camera,
                lines.lines@,
                lines.width as int,
                i + 1,
            ).0 && buf.ndc@ == line_fold(
                r0,
                n0,
                w,
                *intr,
                *clip,
                *scene_from_camera,
                lines.lines@,
                lines.width as int,
                i + 1,
            ).1);
        }
        i += 1;
    }
}

/// The signed doubled area of a pixel-space triangle (its winding).
fn edge_area(x0: i64, y0: i64, x1: i64, y1: i64, x2: i64, y2: i64) -> (r: i64)
    requires
        -0x2_0000 <= x0 <= 0x2_0000,
        -0x2_0000 <= y0 <= 0x2_0000,
        -0x2_0000 <= x1 <= 0x2_0000,
        -0x2_0000 <= y1 <= 0x2_0000,
        -0x2_0000 <= x2 <= 0x2_0000,
        -0x2_0000 <= y2 <= 0x2_0000,
    ensures
        r == (x1 - x0) * (y2 - y0) - (y1 - y0) * (x2 - x0),
        -0x4_0000_0000_0000 <= r <= 0x4_0000_0000_0000,
{
    proof {
        lemma_mul_in_range((x1 - x0) as int, (y2 - y0) as int, 0x4_0000, 0x4_0000);
        lemma_mul_in_range((y1 - y0) as int, (x2 - x0) as int, 0x4_0000, 0x4_0000);
    }
    (x1 - x0) * (y2 - y0) - (y1 - y0) * (x2 - x0)
}

/// The smaller of two pixel coordinates.
fn min_i64(a: i64, b: i64) -> (r: i64)
    ensures
        r == if a <= b { a as int } else { b as int },
{
    if a <= b {
        a
    } else {
        b
    }
}

/// The larger of two pixel coordinates.
fn max_i64(a: i64, b: i64) -> (r: i64)
    ensures
        r == if a >= b { a as int } else { b as int },
{
    if a >= b {
        a
    } else {
        b
    }
}

/// The smaller of three values.
pub open spec fn min3(a: int, b: int, c: int) -> int {
    if a <= b && a <= c {
        a
    } else if b <= c {
        b
    } else {
        c
    }
}

/// The larger of three values.
pub open spec fn max3(a: int, b: int, c: int) -> int {
    if a >= b && a >= c {
        a
    } else if b >= c {
        b
    } else {
        c
    }
}

/// One signed edge function of a pixel-space triangle.
pub open spec fn edge_val(ax: int, ay: int, bx: int, by: int, px: int, py: int) -> int {
    (bx - ax) * (py - ay) - (by - ay) * (px - ax)
}

/// Whether pixel `(x, y)` belongs to the triangle: inside its bounding box,
/// all three edge functions nonnegative, positive doubled area.
pub open spec fn tri_covers(v0: RasterVertex, v1: RasterVertex, v2: RasterVertex, x: int, y: int) -> bool {
    &&& min3(v0.px as int, v1.px as int, v2.px as int) <= x <= max3(
        v0.px as int,
        v1.px as int,
        v2.px as int,
    )
    &&& min3(v0.py as int, v1.py as int, v2.py as int) <= y <= max3(
        v0.py as int,
        v1.py as int,
        v2.py as int,
    )
    &&& edge_val(v1.px as int, v1.py as int, v2.px as int, v2.py as int, x, y) >= 0
    &&& edge_val(v2.px as int, v2.py as int, v0.px as int, v0.py as int, x, y) >= 0
    &&& edge_val(v0.px as int, v0.py as int, v1.px as int, v1.py as int, x, y) >= 0
    &&& edge_val(v1.px as int, v1.py as int, v2.px as int, v2.py as int, x, y) + edge_val(
        v2.px as int,
        v2.py as int,
        v0.px as int,
        v0.py as int,
        x,
        y,
    ) + edge_val(v0.px as int, v0.py as int, v1.px as int, v1.py as int, x, y) > 0
}

/// The barycentrically interpolated depth of pixel `(x, y)`.
pub open spec fn tri_depth(v0: RasterVertex, v1: RasterVertex, v2: RasterVertex, x: int, y: int) -> int {
    let w0 = edge_val(v1.px as int, v1.py as int, v2.px as int, v2.py as int, x, y);
    let w1 = edge_val(v2.px as int, v2.py as int, v0.px as int, v0.py as int, x, y);
    let w2 = edge_val(v0.px as int, v0.py as int, v1.px as int, v1.py as int, x, y);
    (w0 * v0.ndc + w1 * v1.ndc + w2 * v2.ndc) / (w0 + w1 + w2)
}

/// The color buffer after rasterizing one triangle: every covered pixel that
/// passes the strict-less depth test takes the face color.
pub open spec fn tri_rgba(
    rgba: Seq<Color>,
    ndc: Seq<u32>,
    w: int,
    v0: RasterVertex,
    v1: RasterVertex,
    v2: RasterVertex,
    color: Color,
) -> Seq<Color> {
    Seq::new(
        rgba.len(),
        |i: int|
            if tri_covers(v0, v1, v2, i % w, i / w) && tri_depth(v0, v1, v2, i % w, i / w) < ndc[i] {
                color
            } else {
                rgba[i]
            },
    )
}

/// The depth buffer after rasterizing one triangle.
pub open spec fn tri_ndc(
    ndc: Seq<u32>,
    w: int,
    v0: RasterVertex,
    v1: RasterVertex,
    v2: RasterVertex,
) -> Seq<u32> {
    Seq::new(
        ndc.len(),
        |i: int|
            if tri_covers(v0, v1, v2, i % w, i / w) && tri_depth(v0, v1, v2, i % w, i / w) < ndc[i] {
                tri_depth(v0, v1, v2, i % w, i / w) as u32
            } else {
                ndc[i]
            },
    )
}

/// One pixel's state under a triangle rasterization in progress.
pub open spec fn tri_pixel_ok(
    r0: Seq<Color>,
    n0: Seq<u32>,
    rgba: Seq<Color>,
    ndcs: Seq<u32>,
    w: int,
    v0: RasterVertex,
    v1: RasterVertex,
    v2: RasterVertex,
    color: Color,
    limit_y: int,
    limit_x: int,
    i: int,
) -> bool {
    if tri_covers(v0, v1, v2, i % w, i / w) && (i / w < limit_y || (i / w == limit_y && i % w
        < limit_x)) {
        ndcs[i] == (if tri_depth(v0, v1, v2, i % w, i / w) < n0[i] {
            tri_depth(v0, v1, v2, i % w, i / w) as u32
        } else {
            n0[i]
        }) && rgba[i] == (if tri_depth(v0, v1, v2, i % w, i / w) < n0[i] {
            color
        } else {
            r0[i]
        })
    } else {
        ndcs[i] == n0[i] && rgba[i] == r0[i]
    }
}

/// Rasterizes one triangle given as raster vertices: every pixel whose edge
/// functions are all nonnegative (with positive doubled area) is filled with
/// the face color, depth interpolated barycentrically and depth-tested.
#[verifier::rlimit(80)]
fn raster_triangle(buf: &mut FrameBuffers, v0: &RasterVertex, v1: &RasterVertex, v2: &RasterVertex, color: Color)
    requires
        old(buf).wf(),
        v0.wf(),
        v1.wf(),
        v2.wf(),
    ensures
        final(buf).wf(),
        final(buf).size == old(buf).size,
        depth_monotone(old(buf).ndc@, final(buf).ndc@),
        final(buf).rgba@ == tri_rgba(
            old(buf).rgba@,
            old(buf).ndc@,
            old(buf).size.width as int,
            *v0,
            *v1,
            *v2,
            color,
        ),
        final(buf).ndc@ == tri_ndc(
            old(buf).ndc@,
            old(buf).size.width as int,
            *v0,
            *v1,
            *v2,
        ),
{
    let ghost w = old(buf).size.width as int;
    let ghost h = old(buf).size.height as int;
    let ghost r0 = old(buf).rgba@;
    let ghost n0 = old(buf).ndc@;
    let xmin = max_i64(min_i64(v0.px, min_i64(v1.px, v2.px)), 0);
    let xmax = min_i64(max_i64(v0.px, max_i64(v1.px, v2.px)), (buf.size.width - 1) as i64);
    let ymin = max_i64(min_i64(v0.py, min_i64(v1.py, v2.py)), 0);
    let ymax = min_i64(max_i64(v0.py, max_i64(v1.py, v2.py)), (buf.size.height - 1) as i64);
    let mut y: i64 = ymin;
    while y <= ymax
        invariant
            buf.wf(),
            buf.size == old(buf).size,
            depth_monotone(n0, buf.ndc@),
            r0 == old(buf).rgba@,
            n0 == old(buf).ndc@,
            w == old(buf).size.width as int,
            h == old(buf).size.height as int,
            v0.wf(),
            v1.wf(),
            v2.wf(),
            xmin == if min3(v0.px as int, v1.px as int, v2.px as int) >= 0 {
                min3(v0.px as int, v1.px as int, v2.px as int)
            } else {
                0
            },
            xmax as int == if max3(v0.px as int, v1.px as int, v2.px as int) <= w - 1 {
                max3(v0.px as int, v1.px as int, v2.px as int)
            } else {
                w - 1
            },
            ymin == if min3(v0.py as int, v1.py as int, v2.py as int) >= 0 {
                min3(v0.py as int, v1.py as int, v2.py as int)
            } else {
                0
            },
            ymax as int == if max3(v0.py as int, v1.py as int, v2.py as int) <= h - 1 {
                max3(v0.py as int, v1.py as int, v2.py as int)
            } else {
                h - 1
            },
            0 <= xmin,
            xmax < buf.size.width,
            0 <= ymin <= y,
            ymax < buf.size.height,
            forall|i: int|
                0 <= i < n0.len() ==> #[trigger] tri_pixel_ok(
                    r0,
                    n0,
                    buf.rgba@,
                    buf.ndc@,
                    w,
                    *v0,
                    *v1,
                    *v2,
                    color,
                    y as int,
                    xmin as int,
                    i,
                ),
        decreases ymax - y + 1,
    {
        let mut x: i64 = xmin;
        while x <= xmax
            invariant
                buf.wf(),
                buf.size == old(buf).size,
                depth_monotone(n0, buf.ndc@),
                r0 == old(buf).rgba@,
                n0 == old(buf).ndc@,
                w == old(buf).size.width as int,
                h == old(buf).size.height as int,
                v0.wf(),
                v1.wf(),
                v2.wf(),
                xmin == if min3(v0.px as int, v1.px as int, v2.px as int) >= 0 {
                    min3(v0.px as int, v1.px as int, v2.px as int)
                } else {
                    0
                },
                xmax as int == if max3(v0.px as int, v1.px as int, v2.px as int) <= w - 1 {
                    max3(v0.px as int, v1.px as int, v2.px as int)
                } else {
                    w - 1
                },
                ymin == if min3(v0.py as int, v1.py as int, v2.py as int) >= 0 {
                    min3(v0.py as int, v1.py as int, v2.py as int)
                } else {
                    0
                },
                ymax as int == if max3(v0.py as int, v1.py as int, v2.py as int) <= h - 1 {
                    max3(v0.py as int, v1.py as int, v2.py as int)
                } else {
                    h - 1
                },
                0 <= xmin <= x,
                xmax < buf.size.width,
                0 <= y,
                y < buf.size.height,
                ymin <= y <= ymax,
                forall|i: int|
                    0 <= i < n0.len() ==> #[trigger] tri_pixel_ok(
                        r0,
                        n0,
                        buf.rgba@,
                        buf.ndc@,
                        w,
                        *v0,
                        *v1,
                        *v2,
                        color,
                        y as int,
                        x as int,
                        i,
                    ),
            decreases xmax - x + 1,
        {
            let ghost before = *buf;
            let w0 = edge_area(v1.px, v1.py, v2.px, v2.py, x, y);
            let w1 = edge_area(v2.px, v2.py, v0.px, v0.py, x, y);
            let w2 = edge_area(v0.px, v0.py, v1.px, v1.py, x, y);
            if w0 >= 0 && w1 >= 0 && w2 >= 0 {
                let wsum: i64 = w0 + w1 + w2;
                if wsum > 0 {
                    proof {
                        lemma_mul_in_range(w0 as int, v0.ndc as int, 0x4_0000_0000_0000, NDC_ONE as int);
                        lemma_mul_in_range(w1 as int, v1.ndc as int, 0x4_0000_0000_0000, NDC_ONE as int);
                        lemma_mul_in_range(w2 as int, v2.ndc as int, 0x4_0000_0000_0000, NDC_ONE as int);
                        let num = w0 as int * v0.ndc as int + w1 as int * v1.ndc as int + w2 as int
                            * v2.ndc as int;
                        assert(0 <= num <= wsum as int * NDC_ONE as int) by (nonlinear_arith)
                            requires
                                num == w0 as int * v0.ndc as int + w1 as int * v1.ndc as int
                                    + w2 as int * v2.ndc as int,
                                w0 >= 0,
                                w1 >= 0,
                                w2 >= 0,
                                wsum == w0 as int + w1 as int + w2 as int,
                                0 <= v0.ndc <= NDC_ONE,
                                0 <= v1.ndc <= NDC_ONE,
                                0 <= v2.ndc <= NDC_ONE,
                        ;
                        vstd::arithmetic::div_mod::lemma_div_is_ordered(0, num, wsum as int);
                        vstd::arithmetic::div_mod::lemma_div_is_ordered(
                            num,
                            wsum as int * NDC_ONE as int,
                            wsum as int,
                        );
                        vstd::arithmetic::div_mod::lemma_div_multiples_vanish(
                            NDC_ONE as int,
                            wsum as int,
                        );
                    }
                    let num: i128 = (w0 as i128) * (v0.ndc as i128) + (w1 as i128) * (v1.ndc as i128)
                        + (w2 as i128) * (v2.ndc as i128);
                    let nd: u32 = (num / (wsum as i128)) as u32;
                    proof {
                        assert(nd == tri_depth(*v0, *v1, *v2, x as int, y as int));
                    }
                    put_pixel(buf, x as usize, y as usize, color, nd);
                }
            }
            proof {
                lemma_row_major(x as int, y as int, w);
                lemma_idx_in_bounds(x as int, y as int, w, h);
                let target = y * w + x;
                assert(tri_pixel_ok(
                    r0,
                    n0,
                    before.rgba@,
                    before.ndc@,
                    w,
                    *v0,
                    *v1,
                    *v2,
                    color,
                    y as int,
                    x as int,
                    target,
                ));
                assert(before.ndc@[target] == n0[target] && before.rgba@[target] == r0[target]);
                assert forall|i: int| 0 <= i < n0.len() implies #[trigger] tri_pixel_ok(
                    r0,
                    n0,
                    buf.rgba@,
                    buf.ndc@,
                    w,
                    *v0,
                    *v1,
                    *v2,
                    color,
                    y as int,
                    x + 1,
                    i,
                ) by {
                    lemma_index_decomposes(i, w, h);
                    assert(tri_pixel_ok(
                        r0,
                        n0,
                        before.rgba@,
                        before.ndc@,
                        w,
                        *v0,
                        *v1,
                        *v2,
                        color,
                        y as int,
                        x as int,
                        i,
                    ));
                    let xx = i % w;
                    let yy = i / w;
                    if xx == x as int && yy == y as int {
                        assert(i == y * w + x);
                        if tri_covers(*v0, *v1, *v2, xx, yy) {
                            assert(edge_val(
                                v1.px as int,
                                v1.py as int,
                                v2.px as int,
                                v2.py as int,
                                x as int,
                                y as int,
                            ) >= 0);
                            assert(buf.ndc@[i] == (if tri_depth(*v0, *v1, *v2, xx, yy) < n0[i] {
                                tri_depth(*v0, *v1, *v2, xx, yy) as u32
                            } else {
                                n0[i]
                            }));
                            assert(buf.rgba@[i] == (if tri_depth(*v0, *v1, *v2, xx, yy) < n0[i] {
                                color
                            } else {
                                r0[i]
                            }));
                        } else {
                            assert(buf.ndc@[i] == before.ndc@[i] && buf.rgba@[i]
                                == before.rgba@[i]);
                        }
                    } else {
                        assert(buf.ndc@[i] == before.ndc@[i] && buf.rgba@[i] == before.rgba@[i]);
                    }
                }
            }
            x += 1;
        }
        proof {
            assert forall|i: int| 0 <= i < n0.len() implies #[trigger] tri_pixel_ok(
                r0,
                n0,
                buf.rgba@,
                buf.ndc@,
                w,
                *v0,
                *v1,
                *v2,
                color,
                y + 1,
                xmin as int,
                i,
            ) by {
                lemma_index_decomposes(i, w, h);
                assert(tri_pixel_ok(
                    r0,
                    n0,
                    buf.rgba@,
                    buf.ndc@,
                    w,
                    *v0,
                    *v1,
                    *v2,
                    color,
                    y as int,
                    x as int,
                    i,
                ));
            }
        }
        y += 1;
    }
    proof {
        assert forall|i: int| 0 <= i < n0.len() implies #[trigger] buf.ndc@[i] == tri_ndc(
            n0,
            w,
            *v0,
            *v1,
            *v2,
        )[i] by {
            lemma_index_decomposes(i, w, h);
            assert(tri_pixel_ok(
                r0,
                n0,
                buf.rgba@,
                buf.ndc@,
                w,
                *v0,
                *v1,
                *v2,
                color,
                y as int,
                xmin as int,
                i,
            ));
        }
        assert forall|i: int| 0 <= i < n0.len() implies #[trigger] buf.rgba@[i] == tri_rgba(
            r0,
            n0,
            w,
            *v0,
            *v1,
            *v2,
            color,
        )[i] by {
            lemma_index_decomposes(i, w, h);
            assert(tri_pixel_ok(
                r0,
                n0,
                buf.rgba@,
                buf.ndc@,
                w,
                *v0,
                *v1,
                *v2,
                color,
                y as int,
                xmin as int,
                i,
            ));
        }
        assert(buf.ndc@ =~= tri_ndc(n0, w, *v0, *v1, *v2));
        assert(buf.rgba@ =~= tri_rgba(r0, n0, w, *v0, *v1, *v2, color));
    }
}

/// The buffers after drawing the first `n` triangles of a mesh: a triangle
/// rasterizes when all three vertices are in clip range; negative screen
/// winding is culled when culling is on, otherwise rewound.
pub open spec fn mesh_fold(
    rgba: Seq<Color>,
    ndc: Seq<u32>,
    w: int,
    intr: PinholeIntrinsics,
    clip: ClippingPlanes,
    pose: Pose,
    tris: Seq<Tri3>,
    culling: bool,
    n: int,
) -> (Seq<Color>, Seq<u32>)
    decreases n,
{
    if n <= 0 {
        (rgba, ndc)
    } else {
        let prev = mesh_fold(rgba, ndc, w, intr, clip, pose, tris, culling, n - 1);
        let t = tris[n - 1];
        let va = vertex_spec(intr, clip, pose_unapply_spec(pose, t.a));
        let vb = vertex_spec(intr, clip, pose_unapply_spec(pose, t.b));
        let vc = vertex_spec(intr, clip, pose_unapply_spec(pose, t.c));
        if va is Some && vb is Some && vc is Some {
            let a = va.unwrap();
            let b = vb.unwrap();
            let c = vc.unwrap();
            let area = edge_val(a.px as int, a.py as int, b.px as int, b.py as int, c.px as int, c.py as int);
            if area > 0 {
                (tri_rgba(prev.0, prev.1, w, a, b, c, t.color), tri_ndc(prev.1, w, a, b, c))
            } else if area < 0 && !culling {
                (tri_rgba(prev.0, prev.1, w, a, c, b, t.color), tri_ndc(prev.1, w, a, c, b))
            } else {
                prev
            }
        } else {
            prev
        }
    }
}

/// Draws one triangle mesh: each triangle's vertices are projected; a
/// triangle with a vertex outside the clip range is dropped; with backface
/// culling on, triangles with negative screen winding are dropped, otherwise
/// their winding is normalized before rasterization.
pub fn draw_mesh(
    buf: &mut FrameBuffers,
    intr: &PinholeIntrinsics,
    clip: &ClippingPlanes,
    scene_from_camera: &Pose,
    mesh: &Mesh3,
    backface_culling: bool,
)
    requires
        old(buf).wf(),
        intr.wf(),
        clip.wf(),
        scene_from_camera.bounded(),
        forall|i: int|
            0 <= i < mesh.triangles@.len() ==> (#[trigger] mesh.triangles@[i]).a.bounded()
                && mesh.triangles@[i].b.bounded() && mesh.triangles@[i].c.bounded(),
    ensures
        final(buf).wf(),
        final(buf).size == old(buf).size,
        depth_monotone(old(buf).ndc@, final(buf).ndc@),
        final(buf).rgba@ == mesh_fold(
            old(buf).rgba@,
            old(buf).ndc@,
            old(buf).size.width as int,
            *intr,
            *clip,
            *scene_from_camera,
            mesh.triangles@,
            backface_culling,
            mesh.triangles@.len() as int,
        ).0,
        final(buf).ndc@ == mesh_fold(
            old(buf).rgba@,
            old(buf).ndc@,
            old(buf).size.width as int,
            *intr,
            *clip,
            *scene_from_camera,
            mesh.triangles@,
            backface_culling,
            mesh.triangles@.len() as int,
        ).1,
{
    let ghost r0 = old(buf).rgba@;
    let ghost n0 = old(buf).ndc@;
    let ghost w = old(buf).size.width as int;
    let mut i: usize = 0;
    while i < mesh.triangles.len()
        invariant
            buf.wf(),
            buf.size == old(buf).size,
            depth_monotone(n0, buf.ndc@),
            r0 == old(buf).rgba@,
            n0 == old(buf).ndc@,
            w == old(buf).size.width as int,
            intr.wf(),
            clip.wf(),
            scene_from_camera.bounded(),
            i <= mesh.triangles@.len(),
            buf.rgba@ == mesh_fold(
                r0,
                n0,
                w,
                *intr,
                *clip,
                *scene_from_camera,
                mesh.triangles@,
                backface_culling,
                i as int,
            ).0,
            buf.ndc@ == mesh_fold(
                r0,
                n0,
                w,
                *intr,
                *clip,
                *scene_from_camera,
                mesh.triangles@,
                backface_culling,
                i as int,
            ).1,
            forall|j: int|
                0 <= j < mesh.triangles@.len() ==> (#[trigger] mesh.triangles@[j]).a.bounded()
                    && mesh.triangles@[j].b.bounded() && mesh.triangles@[j].c.bounded(),
        decreases mesh.triangles.len() - i,
    {
        let tri = &mesh.triangles[i];
        let qa = pose_unapply(scene_from_camera, &tri.a);
        let qb = pose_unapply(scene_from_camera, &tri.b);
        let qc = pose_unapply(scene_from_camera, &tri.c);
        let va = project_vertex(intr, clip, &qa);
        let vb = project_vertex(intr, clip, &qb);
        let vc = project_vertex(intr, clip, &qc);
        if va.is_some() && vb.is_some() && vc.is_some() {
            let va = va.unwrap();
            let vb = vb.unwrap();
            let vc = vc.unwrap();
            let area = edge_area(va.px, va.py, vb.px, vb.py, vc.px, vc.py);
            if area > 0 {
                raster_triangle(buf, &va, &vb, &vc, tri.color);
            } else if area < 0 && !backface_culling {
                raster_triangle(buf, &va, &vc, &vb, tri.color);
            }
        }
        i += 1;
    }
}

/// The scene pass state: the retained tables of drawable 3D entities.
pub struct SceneRenderer {
    /// The retained meshes.
    pub mesh_table: RetainedTable<Mesh3>,
    /// The retained line sets.
    pub line_table: RetainedTable<LineSet3>,
    /// The retained point clouds.
    pub point_table: RetainedTable<PointCloud3>,
}

/// Every mesh in a table is within coordinate range.
pub open spec fn meshes_wf(t: &RetainedTable<Mesh3>) -> bool {
    forall|k: Seq<char>|
        t@.contains_key(k) ==> forall|i: int|
            0 <= i < (#[trigger] t@[k]).triangles@.len() ==> (#[trigger] t@[k].triangles@[i]).a.bounded()
                && t@[k].triangles@[i].b.bounded() && t@[k].triangles@[i].c.bounded()
}

/// Every line set in a table is within range.
pub open spec fn line_sets_wf(t: &RetainedTable<LineSet3>) -> bool {
    forall|k: Seq<char>|
        t@.contains_key(k) ==> (#[trigger] t@[k]).width <= MAX_BRUSH && forall|i: int|
            0 <= i < t@[k].lines@.len() ==> (#[trigger] t@[k].lines@[i]).a.bounded()
                && t@[k].lines@[i].b.bounded()
}

/// Every point cloud in a table is within range.
pub open spec fn point_clouds_wf(t: &RetainedTable<PointCloud3>) -> bool {
    forall|k: Seq<char>|
        t@.contains_key(k) ==> (#[trigger] t@[k]).point_size <= MAX_BRUSH && forall|i: int|
            0 <= i < t@[k].points@.len() ==> (#[trigger] t@[k].points@[i]).pos.bounded()
}

impl SceneRenderer {
    /// Tables well-formed and every retained entity within range.
    pub open spec fn wf(&self) -> bool {
        &&& self.mesh_table.wf()
        &&& self.line_table.wf()
        &&& self.point_table.wf()
        &&& meshes_wf(&self.mesh_table)
        &&& line_sets_wf(&self.line_table)
        &&& point_clouds_wf(&self.point_table)
    }

    /// Empty tables.
    pub fn new() -> (r: SceneRenderer)
        ensures
            r.wf(),
            r.mesh_table@ == Map::<Seq<char>, Mesh3>::empty(),
            r.line_table@ == Map::<Seq<char>, LineSet3>::empty(),
            r.point_table@ == Map::<Seq<char>, PointCloud3>::empty(),
    {
        SceneRenderer {
            mesh_table: RetainedTable::new(),
            line_table: RetainedTable::new(),
            point_table: RetainedTable::new(),
        }
    }

}

/// The buffers after rasterizing the first `n` retained meshes, in table
/// order.
pub open spec fn meshes_pass(
    rgba: Seq<Color>,
    ndc: Seq<u32>,
    w: int,
    intr: PinholeIntrinsics,
    clip: ClippingPlanes,
    pose: Pose,
    t: RetainedTable<Mesh3>,
    culling: bool,
    n: int,
) -> (Seq<Color>, Seq<u32>)
    decreases n,
{
    if n <= 0 {
        (rgba, ndc)
    } else {
        let prev = meshes_pass(rgba, ndc, w, intr, clip, pose, t, culling, n - 1);
        let m = t@[t.order()[n - 1]];
        mesh_fold(prev.0, prev.1, w, intr, clip, pose, m.triangles@, culling, m.triangles@.len() as int)
    }
}

/// The buffers after rasterizing the first `n` retained line sets, in table
/// order.
pub open spec fn lines_pass(
    rgba: Seq<Color>,
    ndc: Seq<u32>,
    w: int,
    intr: PinholeIntrinsics,
    clip: ClippingPlanes,
    pose: Pose,
    t: RetainedTable<LineSet3>,
    n: int,
) -> (Seq<Color>, Seq<u32>)
    decreases n,
{
    if n <= 0 {
        (rgba, ndc)
    } else {
        let prev = lines_pass(rgba, ndc, w, intr, clip, pose, t, n - 1);
        let l = t@[t.order()[n - 1]];
        line_fold(prev.0, prev.1, w, intr, clip, pose, l.lines@, l.width as int, l.lines@.len() as int)
    }
}

/// The buffers after rasterizing the first `n` retained point clouds, in
/// table order.
pub open spec fn points_pass(
    rgba: Seq<Color>,
    ndc: Seq<u32>,
    w: int,
    intr: PinholeIntrinsics,
    clip: ClippingPlanes,
    pose: Pose,
    t: RetainedTable<PointCloud3>,
    n: int,
) -> (Seq<Color>, Seq<u32>)
    decreases n,
{
    if n <= 0 {
        (rgba, ndc)
    } else {
        let prev = points_pass(rgba, ndc, w, intr, clip, pose, t, n - 1);
        let c = t@[t.order()[n - 1]];
        cloud_fold(
            prev.0,
            prev.1,
            w,
            intr,
            clip,
            pose,
            c.points@,
            c.point_size as int,
            true,
            c.points@.len() as int,
        )
    }
}

/// The scene-pass output: meshes, then line sets, then point clouds, drawn
/// over cleared buffers.
pub open spec fn scene_pass_spec(
    sr: SceneRenderer,
    intr: PinholeIntrinsics,
    clip: ClippingPlanes,
    pose: Pose,
    size: ImageSize,
    culling: bool,
) -> (Seq<Color>, Seq<u32>) {
    let n = (size.width * size.height) as int;
    let w = size.width as int;
    let after_meshes = meshes_pass(
        cleared_rgba(n),
        cleared_ndc(n),
        w,
        intr,
        clip,
        pose,
        sr.mesh_table,
        culling,
        sr.mesh_table.order().len() as int,
    );
    let after_lines = lines_pass(
        after_meshes.0,
        after_meshes.1,
        w,
        intr,
        clip,
        pose,
        sr.line_table,
        sr.line_table.order().len() as int,
    );
    points_pass(
        after_lines.0,
        after_lines.1,
        w,
        intr,
        clip,
        pose,
        sr.point_table,
        sr.point_table.order().len() as int,
    )
}

impl SceneRenderer {
    /// The scene pass: clears the buffers, then rasterizes every retained
    /// mesh, then every line set, then every point cloud, depth-tested
    /// against a cleared depth of one.
    pub fn paint(
        &self,
        scene_from_camera: &Pose,
        intr: &PinholeIntrinsics,
        clip: &ClippingPlanes,
        size: ImageSize,
        backface_culling: bool,
    ) -> (buf: FrameBuffers)
        requires
            self.wf(),
            scene_from_camera.bounded(),
            intr.wf(),
            clip.wf(),
            size.wf(),
        ensures
            buf.wf(),
            buf.size == size,
            buf.rgba@ == scene_pass_spec(
                *self,
                *intr,
                *clip,
                *scene_from_camera,
                size,
                backface_culling,
            ).0,
            buf.ndc@ == scene_pass_spec(
                *self,
                *intr,
                *clip,
                *scene_from_camera,
                size,
                backface_culling,
            ).1,
    {
        let mut buf = FrameBuffers::new(size);
        let ghost n = (size.width * size.height) as int;
        let ghost w = size.width as int;
        let nm: usize = self.mesh_table.len();
        let mut i: usize = 0;
        while i < nm
            invariant
                buf.wf(),
                buf.size == size,
                self.wf(),
                scene_from_camera.bounded(),
                intr.wf(),
                clip.wf(),
                i <= nm,
                nm == self.mesh_table.order().len(),
                n == (size.width * size.height) as int,
                w == size.width as int,
                buf.rgba@ == meshes_pass(
                    cleared_rgba(n),
                    cleared_ndc(n),
                    w,
                    *intr,
                    *clip,
                    *scene_from_camera,
                    self.mesh_table,
                    backface_culling,
                    i as int,
                ).0,
                buf.ndc@ == meshes_pass(
                    cleared_rgba(n),
                    cleared_ndc(n),
                    w,
                    *intr,
                    *clip,
                    *scene_from_camera,
                    self.mesh_table,
                    backface_culling,
                    i as int,
                ).1,
            decreases nm - i,
        {
            let mesh = self.mesh_table.value_at(i);
            draw_mesh(&mut buf, intr, clip, scene_from_camera, mesh, backface_culling);
            i += 1;
        }
        let ghost after_meshes = (buf.rgba@, buf.ndc@);
        let nl: usize = self.line_table.len();
        let mut i: usize = 0;
        while i < nl
            invariant
                buf.wf(),
                buf.size == size,
                self.wf(),
                scene_from_camera.bounded(),
                intr.wf(),
                clip.wf(),
                i <= nl,
                nl == self.line_table.order().len(),
                n == (size.width * size.height) as int,
                w == size.width as int,
                after_meshes == meshes_pass(
                    cleared_rgba(n),
                    cleared_ndc(n),
                    w,
                    *intr,
                    *clip,
                    *scene_from_camera,
                    self.mesh_table,
                    backface_culling,
                    self.mesh_table.order().len() as int,
                ),
                buf.rgba@ == lines_pass(
                    after_meshes.0,
                    after_meshes.1,
                    w,
                    *intr,
                    *clip,
                    *scene_from_camera,
                    self.line_table,
                    i as int,
                ).0,
                buf.ndc@ == lines_pass(
                    after_meshes.0,
                    after_meshes.1,
                    w,
                    *intr,
                    *clip,
                    *scene_from_camera,
                    self.line_table,
                    i as int,
                ).1,
            decreases nl - i,
        {
            let lines = self.line_table.value_at(i);
            draw_line_set(&mut buf, intr, clip, scene_from_camera, lines);
            i += 1;
        }
        let ghost after_lines = (buf.rgba@, buf.ndc@);
        let np: usize = self.point_table.len();
        let mut i: usize = 0;
        while i < np
            invariant
                buf.wf(),
                buf.size == size,
                self.wf(),
                scene_from_camera.bounded(),
                intr.wf(),
                clip.wf(),
                i <= np,
                np == self.point_table.order().len(),
                n == (size.width * size.height) as int,
                w == size.width as int,
                after_meshes == meshes_pass(
                    cleared_rgba(n),
                    cleared_ndc(n),
                    w,
                    *intr,
                    *clip,
                    *scene_from_camera,
                    self.mesh_table,
                    backface_culling,
                    self.mesh_table.order().len() as int,
                ),
                after_lines == lines_pass(
                    after_meshes.0,
                    after_meshes.1,
                    w,
                    *intr,
                    *clip,
                    *scene_from_camera,
                    self.line_table,
                    self.line_table.order().len() as int,
                ),
                buf.rgba@ == points_pass(
                    after_lines.0,
                    after_lines.1,
                    w,
                    *intr,
                    *clip,
                    *scene_from_camera,
                    self.point_table,
                    i as int,
                ).0,
                buf.ndc@ == points_pass(
                    after_lines.0,
                    after_lines.1,
                    w,
                    *intr,
                    *clip,
                    *scene_from_camera,
                    self.point_table,
                    i as int,
                ).1,
            decreases np - i,
        {
            let cloud = self.point_table.value_at(i);
            draw_point_cloud(&mut buf, intr, clip, scene_from_camera, cloud);
            i += 1;
        }
        buf
    }
}

} // verus!
