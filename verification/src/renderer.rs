//! The offscreen renderer: one render call runs the scene pass, the
//! distortion pass and the overlay pass in order, recreating the
//! viewport-sized buffers first whenever the requested viewport changed.
//!
//! The distortion pass decouples what the scene pass rasterized from the lens
//! model the camera exposes: for every destination pixel it recovers the
//! source ray through the view's (possibly distorted) camera model, samples
//! the scene buffer through the undistorted pinhole core, and composites an
//! optional background image beneath the 3D content at a fixed background
//! plane distance. The overlay pass then draws the retained 2D tables and the
//! interaction focus marker directly in destination pixel space, leaving the
//! depth buffer untouched.

use vstd::prelude::*;

use crate::camera::ImageSize;
use crate::camera::pinhole_coord;
use crate::camera::PinholeIntrinsics;
use crate::camera::RenderCameraProperties;
use crate::camera::RenderIntrinsics;
use crate::camera::MAX_DIM;
use crate::depth::ClippingPlanes;
use crate::depth::DepthImage;
use crate::fixed::lemma_mul_in_range;
use crate::fixed::FX;
use crate::fixed::FX_BOUND;
use crate::fixed::NDC_ONE;
use crate::geom::clamp_spec;
use crate::geom::tdiv;
use crate::geom::Pose;
use crate::geom::V2;
use crate::pipeline::FrameBuffers;
use crate::pipeline::SceneRenderer;
use crate::renderables::Color;
use crate::renderables::ImageRgba;
use crate::renderables::Line2;
use crate::renderables::LineSet2;
use crate::renderables::PixelRenderable;
use crate::renderables::Point2;
use crate::renderables::PointSet2;
use crate::renderables::SceneFocusMarker;
use crate::renderables::SceneRenderable;
use crate::renderables::MAX_BRUSH;
use crate::table::RetainedTable;

verus! {

/// The background image plane distance, fixed-point metric units: background
/// pixels are composited at this depth, behind ordinary scene content. A
/// tunable constant, not a physical invariant.
pub const BACKGROUND_IMAGE_PLANE: i64 = 58982400;

/// The pixel size of the interaction focus marker.
pub const MARKER_SIZE: u32 = 9;

/// A 2D pan/zoom transform applied to overlay content and to the distortion
/// pass source lookup: `x -> x * scaling / FX + translation`.
#[derive(Clone, Copy, Debug, PartialEq, Eq, Structural)]
pub struct TranslationAndScaling {
    /// The translation part, fixed-point pixels.
    pub translation: V2,
    /// The scaling part, fixed-point.
    pub scaling: V2,
}

impl TranslationAndScaling {
    /// Components in range.
    pub open spec fn wf(self) -> bool {
        &&& -FX_BOUND <= self.translation.x <= FX_BOUND
        &&& -FX_BOUND <= self.translation.y <= FX_BOUND
        &&& 0 <= self.scaling.x <= FX_BOUND
        &&& 0 <= self.scaling.y <= FX_BOUND
    }

    /// The identity transform.
    pub fn identity() -> (r: TranslationAndScaling)
        ensures
            r.wf(),
            r.translation == (V2 { x: 0, y: 0 }),
            r.scaling == (V2 { x: FX, y: FX }),
    {
        TranslationAndScaling { translation: V2 { x: 0, y: 0 }, scaling: V2 { x: FX, y: FX } }
    }

    /// The value `apply` computes.
    pub open spec fn apply_spec(self, xy: V2) -> V2 {
        V2 {
            x: clamp_spec(
                tdiv(xy.x as int * self.scaling.x as int, FX as int) + self.translation.x,
                FX_BOUND as int,
            ) as i64,
            y: clamp_spec(
                tdiv(xy.y as int * self.scaling.y as int, FX as int) + self.translation.y,
                FX_BOUND as int,
            ) as i64,
        }
    }

    /// Applies the transform to a fixed-point pixel position.
    pub fn apply(&self, xy: V2) -> (r: V2)
        requires
            self.wf(),
            -FX_BOUND <= xy.x <= FX_BOUND,
            -FX_BOUND <= xy.y <= FX_BOUND,
        ensures
            r.x == clamp_spec(
                tdiv(xy.x as int * self.scaling.x as int, FX as int) + self.translation.x,
                FX_BOUND as int,
            ),
            r.y == clamp_spec(
                tdiv(xy.y as int * self.scaling.y as int, FX as int) + self.translation.y,
                FX_BOUND as int,
            ),
            r == self.apply_spec(xy),
    {
        proof {
            lemma_mul_in_range(xy.x as int, self.scaling.x as int, FX_BOUND as int, FX_BOUND as int);
            lemma_mul_in_range(xy.y as int, self.scaling.y as int, FX_BOUND as int, FX_BOUND as int);
        }
        let sx: i128 = (xy.x as i128) * (self.scaling.x as i128);
        let sy: i128 = (xy.y as i128) * (self.scaling.y as i128);
        let qx: i128 = if sx >= 0 {
            sx / (FX as i128)
        } else {
            -((-sx) / (FX as i128))
        };
        let qy: i128 = if sy >= 0 {
            sy / (FX as i128)
        } else {
            -((-sy) / (FX as i128))
        };
        proof {
            assert(sx >= 0 ==> 0 <= sx as int / (FX as int) <= sx as int) by (nonlinear_arith);
            assert(sx < 0 ==> 0 <= (-sx) as int / (FX as int) <= (-sx) as int) by (nonlinear_arith);
            assert(sy >= 0 ==> 0 <= sy as int / (FX as int) <= sy as int) by (nonlinear_arith);
            assert(sy < 0 ==> 0 <= (-sy) as int / (FX as int) <= (-sy) as int) by (nonlinear_arith);
        }
        let tx: i128 = qx + self.translation.x as i128;
        let ty: i128 = qy + self.translation.y as i128;
        let bound = FX_BOUND as i128;
        let rx: i64 = if tx < -bound {
            -FX_BOUND
        } else if tx > bound {
            FX_BOUND
        } else {
            tx as i64
        };
        let ry: i64 = if ty < -bound {
            -FX_BOUND
        } else if ty > bound {
            FX_BOUND
        } else {
            ty as i64
        };
        V2 { x: rx, y: ry }
    }
}

/// Writes one pixel of both buffers unconditionally (the distortion pass
/// rebuilds its destination from scratch, so no depth test applies).
fn store_pixel(buf: &mut FrameBuffers, x: usize, y: usize, color: Color, ndc: u32)
    requires
        old(buf).wf(),
        x < old(buf).size.width,
        y < old(buf).size.height,
        ndc <= NDC_ONE,
    ensures
        final(buf).wf(),
        final(buf).size == old(buf).size,
        final(buf).rgba@ == old(buf).rgba@.update(
            (y * old(buf).size.width + x) as int,
            color,
        ),
        final(buf).ndc@ == old(buf).ndc@.update((y * old(buf).size.width + x) as int, ndc),
{
    proof {
        assert(y as int * buf.size.width as int + x < buf.size.width as int
            * buf.size.height as int && buf.size.width as int * buf.size.height as int
            <= 0x100_0000) by (nonlinear_arith)
            requires
                0 <= x < buf.size.width as int,
                0 <= y < buf.size.height as int,
                buf.size.width <= 4096,
                buf.size.height <= 4096,
        ;
        assert(y as int * buf.size.width as int >= 0) by (nonlinear_arith)
            requires
                y >= 0,
                buf.size.width >= 0,
        ;
    }
    let idx: usize = y * buf.size.width + x;
    buf.rgba[idx] = color;
    buf.ndc[idx] = ndc;
}

/// Paints one pixel of the color buffer, leaving depth untouched (overlay
/// content carries no depth).
fn paint_pixel(buf: &mut FrameBuffers, x: usize, y: usize, color: Color)
    requires
        old(buf).wf(),
        x < old(buf).size.width,
        y < old(buf).size.height,
    ensures
        final(buf).wf(),
        final(buf).size == old(buf).size,
        final(buf).ndc@ == old(buf).ndc@,
        final(buf).rgba@ == old(buf).rgba@.update(
            (y * old(buf).size.width + x) as int,
            color,
        ),
{
    proof {
        assert(y as int * buf.size.width as int + x < buf.size.width as int
            * buf.size.height as int && buf.size.width as int * buf.size.height as int
            <= 0x100_0000) by (nonlinear_arith)
            requires
                0 <= x < buf.size.width as int,
                0 <= y < buf.size.height as int,
                buf.size.width <= 4096,
                buf.size.height <= 4096,
        ;
        assert(y as int * buf.size.width as int >= 0) by (nonlinear_arith)
            requires
                y >= 0,
                buf.size.width >= 0,
        ;
    }
    let idx: usize = y * buf.size.width + x;
    buf.rgba[idx] = color;
}

/// The color buffer after a flat square paint: covered pixels take the
/// color, all others keep theirs; depth is untouched.
pub open spec fn paint_square_rgba(
    rgba: Seq<Color>,
    w: int,
    cx: int,
    cy: int,
    size: int,
    color: Color,
) -> Seq<Color> {
    Seq::new(
        rgba.len(),
        |i: int|
            if crate::pipeline::square_covers(cx, cy, size, i % w, i / w) {
                color
            } else {
                rgba[i]
            },
    )
}

/// One pixel's state under a flat square paint in progress.
pub open spec fn flat_pixel_ok(
    r0: Seq<Color>,
    rgba: Seq<Color>,
    w: int,
    cx: int,
    cy: int,
    size: int,
    color: Color,
    limit_y: int,
    limit_x: int,
    i: int,
) -> bool {
    if crate::pipeline::square_covers(cx, cy, size, i % w, i / w) && (i / w < limit_y || (i / w
        == limit_y && i % w < limit_x)) {
        rgba[i] == color
    } else {
        rgba[i] == r0[i]
    }
}

/// Paints a flat square centered on pixel `(cx, cy)`, color only.
fn paint_square(buf: &mut FrameBuffers, cx: i64, cy: i64, size: u32, color: Color)
    requires
        old(buf).wf(),
        size <= MAX_BRUSH,
        -0x8000_0000 <= cx <= 0x8000_0000,
        -0x8000_0000 <= cy <= 0x8000_0000,
    ensures
        final(buf).wf(),
        final(buf).size == old(buf).size,
        final(buf).ndc@ == old(buf).ndc@,
        final(buf).rgba@ == paint_square_rgba(
            old(buf).rgba@,
            old(buf).size.width as int,
            cx as int,
            cy as int,
            size as int,
            color,
        ),
{
    let ghost w = old(buf).size.width as int;
    let ghost h = old(buf).size.height as int;
    let ghost r0 = old(buf).rgba@;
    proof {
        crate::fixed::lemma_mul_in_range(w, h, 4096, 4096);
        assert(r0.len() == w * h);
    }
    let half: i64 = (size / 2) as i64;
    let mut dy: u32 = 0;
    while dy <= size
        invariant
            buf.wf(),
            buf.size == old(buf).size,
            buf.ndc@ == old(buf).ndc@,
            r0 == old(buf).rgba@,
            w == old(buf).size.width as int,
            h == old(buf).size.height as int,
            size <= MAX_BRUSH,
            half == size as int / 2,
            dy <= size + 1,
            r0.len() == w * h,
            -0x8000_0000 <= cx <= 0x8000_0000,
            -0x8000_0000 <= cy <= 0x8000_0000,
            forall|i: int|
                0 <= i < r0.len() ==> #[trigger] flat_pixel_ok(
                    r0,
                    buf.rgba@,
                    w,
                    cx as int,
                    cy as int,
                    size as int,
                    color,
                    cy - half + dy,
                    cx - half,
                    i,
                ),
        decreases size + 1 - dy,
    {
        let py: i64 = cy - half + dy as i64;
        let mut dx: u32 = 0;
        while dx <= size
            invariant
                buf.wf(),
                buf.size == old(buf).size,
                buf.ndc@ == old(buf).ndc@,
                r0 == old(buf).rgba@,
                w == old(buf).size.width as int,
                h == old(buf).size.height as int,
                size <= MAX_BRUSH,
                half == size as int / 2,
                py == cy - half + dy,
                dy <= size,
                dx <= size + 1,
                r0.len() == w * h,
                -0x8000_0000 <= cx <= 0x8000_0000,
                -0x8000_0000 <= cy <= 0x8000_0000,
                forall|i: int|
                    0 <= i < r0.len() ==> #[trigger] flat_pixel_ok(
                        r0,
                        buf.rgba@,
                        w,
                        cx as int,
                        cy as int,
                        size as int,
                        color,
                        py as int,
                        cx - half + dx,
                        i,
                    ),
            decreases size + 1 - dx,
        {
            let px: i64 = cx - half + dx as i64;
            let ghost before = *buf;
            if px >= 0 && py >= 0 && (px as usize) < buf.size.width && (py as usize)
                < buf.size.height {
                paint_pixel(buf, px as usize, py as usize, color);
            }
            proof {
                if 0 <= px < w && 0 <= py < h {
                    crate::pipeline::lemma_row_major(px as int, py as int, w);
                    let target = py * w + px;
                    assert(target % w == px && target / w == py);
                    assert(0 <= target < w * h) by (nonlinear_arith)
                        requires
                            0 <= px < w,
                            0 <= py < h,
                            target == py * w + px,
                    ;
                }
                assert forall|i: int| 0 <= i < r0.len() implies #[trigger] flat_pixel_ok(
                    r0,
                    buf.rgba@,
                    w,
                    cx as int,
                    cy as int,
                    size as int,
                    color,
                    py as int,
                    cx - half + (dx + 1),
                    i,
                ) by {
                    crate::pipeline::lemma_index_decomposes(i, w, h);
                    assert(flat_pixel_ok(
                        r0,
                        before.rgba@,
                        w,
                        cx as int,
                        cy as int,
                        size as int,
                        color,
                        py as int,
                        cx - half + dx,
                        i,
                    ));
                    if i % w == px && i / w == py {
                        assert(0 <= px < w && 0 <= py < h);
                        assert(i == py * w + px);
                    } else {
                        assert(buf.rgba@[i] == before.rgba@[i]);
                    }
                }
            }
            dx += 1;
        }
        proof {
            assert forall|i: int| 0 <= i < r0.len() implies #[trigger] flat_pixel_ok(
                r0,
                buf.rgba@,
                w,
                cx as int,
                cy as int,
                size as int,
                color,
                cy - half + (dy + 1),
                cx - half,
                i,
            ) by {
                crate::pipeline::lemma_index_decomposes(i, w, h);
                assert(flat_pixel_ok(
                    r0,
                    buf.rgba@,
                    w,
                    cx as int,
                    cy as int,
                    size as int,
                    color,
                    py as int,
                    cx - half + (size + 1),
                    i,
                ));
            }
        }
        dy += 1;
    }
    proof {
        assert forall|i: int| 0 <= i < r0.len() implies #[trigger] buf.rgba@[i]
            == paint_square_rgba(r0, w, cx as int, cy as int, size as int, color)[i] by {
            crate::pipeline::lemma_index_decomposes(i, w, h);
            assert(flat_pixel_ok(
                r0,
                buf.rgba@,
                w,
                cx as int,
                cy as int,
                size as int,
                color,
                cy - half + (size + 1),
                cx - half,
                i,
            ));
        }
        assert(buf.rgba@ =~= paint_square_rgba(r0, w, cx as int, cy as int, size as int, color));
    }
}

/// The pixel holding a fixed-point overlay coordinate.
pub fn overlay_pixel_floor(v: i64) -> (r: i64)
    requires
        -0x1_0000_0000 <= v <= 0x1_0000_0000,
    ensures
        r == (v + FX as int / 2) as int / FX as int,
        -0x2_0000 <= r <= 0x2_0000,
{
    let w: i64 = v + FX / 2;
    proof {
        vstd::arithmetic::div_mod::lemma_fundamental_div_mod(w as int, FX as int);
    }
    if w >= 0 {
        w / FX
    } else {
        -((-w + FX - 1) / FX)
    }
}

/// The overlay pass state: the retained tables of drawable 2D entities.
pub struct PixelRenderer {
    /// The retained 2D line sets.
    pub line_table: RetainedTable<LineSet2>,
    /// The retained 2D point sets.
    pub point_table: RetainedTable<PointSet2>,
}

/// Every 2D line set in a table has an admissible width.
pub open spec fn line_sets2_wf(t: &RetainedTable<LineSet2>) -> bool {
    forall|k: Seq<char>| t@.contains_key(k) ==> (#[trigger] t@[k]).width <= MAX_BRUSH
}

/// Every 2D point set in a table has an admissible size.
pub open spec fn point_sets2_wf(t: &RetainedTable<PointSet2>) -> bool {
    forall|k: Seq<char>| t@.contains_key(k) ==> (#[trigger] t@[k]).point_size <= MAX_BRUSH
}

impl PixelRenderer {
    /// Tables well-formed and every retained entity admissible.
    pub open spec fn wf(&self) -> bool {
        &&& self.line_table.wf()
        &&& self.point_table.wf()
        &&& line_sets2_wf(&self.line_table)
        &&& point_sets2_wf(&self.point_table)
    }

    /// Empty tables.
    pub fn new() -> (r: PixelRenderer)
        ensures
            r.wf(),
            r.line_table@ == Map::<Seq<char>, LineSet2>::empty(),
            r.point_table@ == Map::<Seq<char>, PointSet2>::empty(),
    {
        PixelRenderer { line_table: RetainedTable::new(), point_table: RetainedTable::new() }
    }

    /// The overlay pass: draws every retained 2D line set and point set
    /// directly in destination pixel space (no distortion, no depth), with
    /// the pan/zoom transform applied.
    pub fn paint(&self, buf: &mut FrameBuffers, zoom: &TranslationAndScaling)
        requires
            old(buf).wf(),
            self.wf(),
            zoom.wf(),
        ensures
            final(buf).wf(),
            final(buf).size == old(buf).size,
            final(buf).ndc@ == old(buf).ndc@,
            final(buf).rgba@ == overlay_pass_spec(
                old(buf).rgba@,
                old(buf).size.width as int,
                *self,
                *zoom,
            ),
    {
        let ghost r0 = old(buf).rgba@;
        let ghost w = old(buf).size.width as int;
        let nl: usize = self.line_table.len();
        let mut i: usize = 0;
        while i < nl
            invariant
                buf.wf(),
                buf.size == old(buf).size,
                buf.ndc@ == old(buf).ndc@,
                r0 == old(buf).rgba@,
                w == old(buf).size.width as int,
                self.wf(),
                zoom.wf(),
                i <= nl,
                nl == self.line_table.order().len(),
                buf.rgba@ == lines2_pass(r0, w, self.line_table, *zoom, i as int),
            decreases nl - i,
        {
            let lines = self.line_table.value_at(i);
            draw_line_set2(buf, lines, zoom);
            i += 1;
        }
        let ghost after_lines = buf.rgba@;
        let np: usize = self.point_table.len();
        let mut i: usize = 0;
        while i < np
            invariant
                buf.wf(),
                buf.size == old(buf).size,
                buf.ndc@ == old(buf).ndc@,
                r0 == old(buf).rgba@,
                w == old(buf).size.width as int,
                self.wf(),
                zoom.wf(),
                i <= np,
                np == self.point_table.order().len(),
                after_lines == lines2_pass(
                    r0,
                    w,
                    self.line_table,
                    *zoom,
                    self.line_table.order().len() as int,
                ),
                buf.rgba@ == points2_pass(after_lines, w, self.point_table, *zoom, i as int),
            decreases np - i,
        {
            let points = self.point_table.value_at(i);
            draw_point_set2(buf, points, zoom);
            i += 1;
        }
    }

    /// Draws the interaction focus marker at its picked pixel.
    pub fn show_interaction_marker(&self, buf: &mut FrameBuffers, marker: &SceneFocusMarker)
        requires
            old(buf).wf(),
            -FX_BOUND <= marker.u <= FX_BOUND,
            -FX_BOUND <= marker.v <= FX_BOUND,
        ensures
            final(buf).wf(),
            final(buf).size == old(buf).size,
            final(buf).ndc@ == old(buf).ndc@,
            final(buf).rgba@ == paint_square_rgba(
                old(buf).rgba@,
                old(buf).size.width as int,
                overlay_px(marker.u as int),
                overlay_px(marker.v as int),
                MARKER_SIZE as int,
                marker.color,
            ),
    {
        let cx = overlay_pixel_floor(marker.u);
        let cy = overlay_pixel_floor(marker.v);
        paint_square(buf, cx, cy, MARKER_SIZE, marker.color);
    }
}

/// The pixel of a fixed-point overlay coordinate, as a value.
pub open spec fn overlay_px(v: int) -> int {
    (v + FX as int / 2) / FX as int
}

/// Where an overlay position lands after range clamping and the pan/zoom
/// transform, in whole pixels.
pub open spec fn overlay_point(zoom: TranslationAndScaling, pos: V2) -> (int, int) {
    let q = zoom.apply_spec(
        V2 {
            x: clamp_spec(pos.x as int, FX_BOUND as int) as i64,
            y: clamp_spec(pos.y as int, FX_BOUND as int) as i64,
        },
    );
    (overlay_px(q.x as int), overlay_px(q.y as int))
}

/// The color buffer after stamping the first `k` samples of one 2D segment.
pub open spec fn seg2_fold(
    rgba: Seq<Color>,
    w: int,
    ax: int,
    ay: int,
    bx: int,
    by: int,
    width: int,
    color: Color,
    steps: int,
    k: int,
) -> Seq<Color>
    decreases k,
{
    if k <= 0 {
        rgba
    } else {
        let prev = seg2_fold(rgba, w, ax, ay, bx, by, width, color, steps, k - 1);
        let px = ax + tdiv((bx - ax) * (k - 1), steps);
        let py = ay + tdiv((by - ay) * (k - 1), steps);
        paint_square_rgba(prev, w, px, py, width, color)
    }
}

/// The larger pixel span of a 2D segment's axes, plus one.
pub open spec fn seg2_steps(ax: int, ay: int, bx: int, by: int) -> int {
    let adx = if bx >= ax {
        bx - ax
    } else {
        ax - bx
    };
    let ady = if by >= ay {
        by - ay
    } else {
        ay - by
    };
    if adx >= ady {
        adx + 1
    } else {
        ady + 1
    }
}

/// The color buffer after drawing the first `n` segments of a 2D line set.
pub open spec fn line2_fold(
    rgba: Seq<Color>,
    w: int,
    zoom: TranslationAndScaling,
    lines: Seq<Line2>,
    width: int,
    n: int,
) -> Seq<Color>
    decreases n,
{
    if n <= 0 {
        rgba
    } else {
        let prev = line2_fold(rgba, w, zoom, lines, width, n - 1);
        let seg = lines[n - 1];
        let a = overlay_point(zoom, seg.a);
        let b = overlay_point(zoom, seg.b);
        let steps = seg2_steps(a.0, a.1, b.0, b.1);
        seg2_fold(prev, w, a.0, a.1, b.0, b.1, width, seg.color, steps, steps + 1)
    }
}

/// The color buffer after drawing the first `n` points of a 2D point set.
pub open spec fn point2_fold(
    rgba: Seq<Color>,
    w: int,
    zoom: TranslationAndScaling,
    points: Seq<Point2>,
    psize: int,
    n: int,
) -> Seq<Color>
    decreases n,
{
    if n <= 0 {
        rgba
    } else {
        let prev = point2_fold(rgba, w, zoom, points, psize, n - 1);
        let p = points[n - 1];
        let q = overlay_point(zoom, p.pos);
        paint_square_rgba(prev, w, q.0, q.1, psize, p.color)
    }
}

/// The color buffer after the whole overlay pass: every retained 2D line
/// set, then every retained 2D point set, in table order.
pub open spec fn overlay_pass_spec(
    rgba: Seq<Color>,
    w: int,
    pr: PixelRenderer,
    zoom: TranslationAndScaling,
) -> Seq<Color> {
    let after_lines = lines2_pass(rgba, w, pr.line_table, zoom, pr.line_table.order().len() as int);
    points2_pass(after_lines, w, pr.point_table, zoom, pr.point_table.order().len() as int)
}

/// The color buffer after drawing the first `n` retained 2D line sets.
pub open spec fn lines2_pass(
    rgba: Seq<Color>,
    w: int,
    t: RetainedTable<LineSet2>,
    zoom: TranslationAndScaling,
    n: int,
) -> Seq<Color>
    decreases n,
{
    if n <= 0 {
        rgba
    } else {
        let prev = lines2_pass(rgba, w, t, zoom, n - 1);
        let l = t@[t.order()[n - 1]];
        line2_fold(prev, w, zoom, l.lines@, l.width as int, l.lines@.len() as int)
    }
}

/// The color buffer after drawing the first `n` retained 2D point sets.
pub open spec fn points2_pass(
    rgba: Seq<Color>,
    w: int,
    t: RetainedTable<PointSet2>,
    zoom: TranslationAndScaling,
    n: int,
) -> Seq<Color>
    decreases n,
{
    if n <= 0 {
        rgba
    } else {
        let prev = points2_pass(rgba, w, t, zoom, n - 1);
        let p = t@[t.order()[n - 1]];
        point2_fold(prev, w, zoom, p.points@, p.point_size as int, p.points@.len() as int)
    }
}

/// Draws one 2D line set, sample by sample.
fn draw_line_set2(buf: &mut FrameBuffers, lines: &LineSet2, zoom: &TranslationAndScaling)
    requires
        old(buf).wf(),
        lines.width <= MAX_BRUSH,
        zoom.wf(),
    ensures
        final(buf).wf(),
        final(buf).size == old(buf).size,
        final(buf).ndc@ == old(buf).ndc@,
        final(buf).rgba@ == line2_fold(
            old(buf).rgba@,
            old(buf).size.width as int,
            *zoom,
            lines.lines@,
            lines.width as int,
            lines.lines@.len() as int,
        ),
{
    let ghost r0 = old(buf).rgba@;
    let ghost w = old(buf).size.width as int;
    let mut i: usize = 0;
    while i < lines.lines.len()
        invariant
            buf.wf(),
            buf.size == old(buf).size,
            buf.ndc@ == old(buf).ndc@,
            r0 == old(buf).rgba@,
            w == old(buf).size.width as int,
            lines.width <= MAX_BRUSH,
            zoom.wf(),
            i <= lines.lines@.len(),
            buf.rgba@ == line2_fold(r0, w, *zoom, lines.lines@, lines.width as int, i as int),
        decreases lines.lines.len() - i,
    {
        let ghost ri = buf.rgba@;
        let seg = &lines.lines[i];
        let a0 = crate::fixed::clamp_i64(seg.a.x, -FX_BOUND, FX_BOUND);
        let a1 = crate::fixed::clamp_i64(seg.a.y, -FX_BOUND, FX_BOUND);
        let b0 = crate::fixed::clamp_i64(seg.b.x, -FX_BOUND, FX_BOUND);
        let b1 = crate::fixed::clamp_i64(seg.b.y, -FX_BOUND, FX_BOUND);
        let pa = zoom.apply(V2 { x: a0, y: a1 });
        let pb = zoom.apply(V2 { x: b0, y: b1 });
        let ax = overlay_pixel_floor(pa.x);
        let ay = overlay_pixel_floor(pa.y);
        let bx = overlay_pixel_floor(pb.x);
        let by = overlay_pixel_floor(pb.y);
        proof {
            assert((ax as int, ay as int) == overlay_point(*zoom, seg.a));
            assert((bx as int, by as int) == overlay_point(*zoom, seg.b));
        }
        let adx: i64 = if bx >= ax {
            bx - ax
        } else {
            ax - bx
        };
        let ady: i64 = if by >= ay {
            by - ay
        } else {
            ay - by
        };
        let steps: i64 = if adx >= ady {
            adx + 1
        } else {
            ady + 1
        };
        proof {
            assert(steps == seg2_steps(ax as int, ay as int, bx as int, by as int));
        }
        let mut k: i64 = 0;
        while k <= steps
            invariant
                buf.wf(),
                buf.size == old(buf).size,
                buf.ndc@ == old(buf).ndc@,
                r0 == old(buf).rgba@,
                w == old(buf).size.width as int,
                0 < steps <= 0x8_0001,
                steps == seg2_steps(ax as int, ay as int, bx as int, by as int),
                0 <= k <= steps + 1,
                -0x2_0000 <= ax <= 0x2_0000,
                -0x2_0000 <= ay <= 0x2_0000,
                -0x2_0000 <= bx <= 0x2_0000,
                -0x2_0000 <= by <= 0x2_0000,
                lines.width <= MAX_BRUSH,
                buf.rgba@ == seg2_fold(
                    ri,
                    w,
                    ax as int,
                    ay as int,
                    bx as int,
                    by as int,
                    lines.width as int,
                    seg.color,
                    steps as int,
                    k as int,
                ),
            decreases steps + 1 - k,
        {
            let px = crate::pipeline::lerp(ax, bx, k, steps);
            let py = crate::pipeline::lerp(ay, by, k, steps);
            paint_square(buf, px, py, lines.width, seg.color);
            k += 1;
        }
        proof {
            assert(buf.rgba@ == line2_fold(
                r0,
                w,
                *zoom,
                lines.lines@,
                lines.width as int,
                i + 1,
            ));
        }
        i += 1;
    }
}

/// Draws one 2D point set.
fn draw_point_set2(buf: &mut FrameBuffers, points: &PointSet2, zoom: &TranslationAndScaling)
    requires
        old(buf).wf(),
        points.point_size <= MAX_BRUSH,
        zoom.wf(),
    ensures
        final(buf).wf(),
        final(buf).size == old(buf).size,
        final(buf).ndc@ == old(buf).ndc@,
        final(buf).rgba@ == point2_fold(
            old(buf).rgba@,
            old(buf).size.width as int,
            *zoom,
            points.points@,
            points.point_size as int,
            points.points@.len() as int,
        ),
{
    let ghost r0 = old(buf).rgba@;
    let ghost w = old(buf).size.width as int;
    let mut i: usize = 0;
    while i < points.points.len()
        invariant
            buf.wf(),
            buf.size == old(buf).size,
            buf.ndc@ == old(buf).ndc@,
            r0 == old(buf).rgba@,
            w == old(buf).size.width as int,
            points.point_size <= MAX_BRUSH,
            zoom.wf(),
            i <= points.points@.len(),
            buf.rgba@ == point2_fold(
                r0,
                w,
                *zoom,
                points.points@,
                points.point_size as int,
                i as int,
            ),
        decreases points.points.len() - i,
    {
        let p = &points.points[i];
        let x0 = crate::fixed::clamp_i64(p.pos.x, -FX_BOUND, FX_BOUND);
        let y0 = crate::fixed::clamp_i64(p.pos.y, -FX_BOUND, FX_BOUND);
        let q = zoom.apply(V2 { x: x0, y: y0 });
        let px = overlay_pixel_floor(q.x);
        let py = overlay_pixel_floor(q.y);
        proof {
            assert((px as int, py as int) == overlay_point(*zoom, p.pos));
        }
        paint_square(buf, px, py, points.point_size, p.color);
        i += 1;
    }
}

} // verus!

verus! {

/// The undistorted pinhole core of a camera model, as a value.
pub open spec fn core_spec(intr: RenderIntrinsics) -> PinholeIntrinsics {
    match intr {
        RenderIntrinsics::Pinhole(p) => p,
        RenderIntrinsics::Unified(u) => PinholeIntrinsics {
            fx: u.fx,
            fy: u.fy,
            cx: u.cx,
            cy: u.cy,
            image_size: u.image_size,
        },
    }
}

/// The undistorted pinhole core of a camera model: the intrinsics the scene
/// pass rasterizes through.
pub fn pinhole_core(intr: &RenderIntrinsics) -> (r: PinholeIntrinsics)
    requires
        intr.wf(),
    ensures
        r.wf(),
        r.image_size == intr.image_size_spec(),
        intr matches RenderIntrinsics::Pinhole(p) ==> r == p,
        r.fx == (match *intr {
            RenderIntrinsics::Pinhole(p) => p.fx,
            RenderIntrinsics::Unified(u) => u.fx,
        }),
        r.fy == (match *intr {
            RenderIntrinsics::Pinhole(p) => p.fy,
            RenderIntrinsics::Unified(u) => u.fy,
        }),
        r.cx == (match *intr {
            RenderIntrinsics::Pinhole(p) => p.cx,
            RenderIntrinsics::Unified(u) => u.cx,
        }),
        r.cy == (match *intr {
            RenderIntrinsics::Pinhole(p) => p.cy,
            RenderIntrinsics::Unified(u) => u.cy,
        }),
        r == core_spec(*intr),
{
    match intr {
        RenderIntrinsics::Pinhole(p) => *p,
        RenderIntrinsics::Unified(u) => PinholeIntrinsics {
            fx: u.fx,
            fy: u.fy,
            cx: u.cx,
            cy: u.cy,
            image_size: u.image_size,
        },
    }
}

/// The normalized depth of the background image plane, clamped between the
/// clipping planes.
pub open spec fn background_ndc_spec(clip: ClippingPlanes) -> int {
    let bgp = if BACKGROUND_IMAGE_PLANE < clip.near {
        clip.near as int
    } else if BACKGROUND_IMAGE_PLANE > clip.far {
        clip.far as int
    } else {
        BACKGROUND_IMAGE_PLANE as int
    };
    NDC_ONE as int * crate::depth::ndc_num(clip.near as int, clip.far as int, bgp, 1)
        / crate::depth::ndc_den(clip.near as int, clip.far as int, bgp, 1)
}

/// The camera-image coordinate a destination pixel samples from, before the
/// pan/zoom transform: `(x + 1/2) * iw / vw - 1/2`, fixed-point, clamped at
/// the top of the coordinate range.
pub open spec fn dist_source_coord(vpx: int, iw: int, vw: int) -> int {
    let raw = ((2 * vpx + 1) * iw * FX as int) / (2 * vw) - FX as int / 2;
    if raw > FX_BOUND as int {
        FX_BOUND as int
    } else {
        raw
    }
}

/// What one destination pixel of the distortion pass shows: the scene sample
/// at the source pixel its ray maps to when the model unprojects it and
/// geometry was hit there; else the background pixel at the background-plane
/// depth; else the cleared value.
pub open spec fn dist_pixel_spec(
    srgba: Seq<Color>,
    sndc: Seq<u32>,
    sw: int,
    sh: int,
    intr: RenderIntrinsics,
    clip: ClippingPlanes,
    zoom: TranslationAndScaling,
    bg: Option<ImageRgba>,
    vw: int,
    vh: int,
    x: int,
    y: int,
) -> (Color, u32) {
    let uv = zoom.apply_spec(
        V2 {
            x: dist_source_coord(x, intr.image_size_spec().width as int, vw) as i64,
            y: dist_source_coord(y, intr.image_size_spec().height as int, vh) as i64,
        },
    );
    let fallback = match bg {
        Some(b) => {
            let bx0 = x * b.size.width / vw;
            let by0 = y * b.size.height / vh;
            let bx = if bx0 > b.size.width - 1 {
                b.size.width - 1
            } else {
                bx0
            };
            let by = if by0 > b.size.height - 1 {
                b.size.height - 1
            } else {
                by0
            };
            (b.pixels@[by * b.size.width + bx], background_ndc_spec(clip) as u32)
        },
        None => (Color { r: 0, g: 0, b: 0, a: 0 }, NDC_ONE),
    };
    match crate::camera::unproject_spec(intr, uv, FX) {
        Some(q) => if q.z > 0 {
            let core = core_spec(intr);
            let sx = overlay_px(pinhole_coord(core.fx as int, core.cx as int, q.x as int, q.z as int));
            let sy = overlay_px(pinhole_coord(core.fy as int, core.cy as int, q.y as int, q.z as int));
            if 0 <= sx < sw && 0 <= sy < sh && sndc[sy * sw + sx] < NDC_ONE {
                (srgba[sy * sw + sx], sndc[sy * sw + sx])
            } else {
                fallback
            }
        } else {
            fallback
        },
        None => fallback,
    }
}

/// Computes one destination pixel of the distortion pass.
fn dist_pixel(
    scene_buf: &FrameBuffers,
    intr: &RenderIntrinsics,
    clip: &ClippingPlanes,
    zoom: &TranslationAndScaling,
    background: &Option<ImageRgba>,
    viewport: ImageSize,
    x: usize,
    y: usize,
) -> (r: (Color, u32))
    requires
        scene_buf.wf(),
        intr.wf(),
        clip.wf(),
        zoom.wf(),
        viewport.wf(),
        background matches Some(bg) ==> bg.wf(),
        x < viewport.width,
        y < viewport.height,
    ensures
        r == dist_pixel_spec(
            scene_buf.rgba@,
            scene_buf.ndc@,
            scene_buf.size.width as int,
            scene_buf.size.height as int,
            *intr,
            *clip,
            *zoom,
            *background,
            viewport.width as int,
            viewport.height as int,
            x as int,
            y as int,
        ),
        r.1 <= NDC_ONE,
{
    let core = pinhole_core(intr);
    let img_size = intr.image_size();
    proof {
        lemma_mul_in_range((2 * x + 1) as int, img_size.width as int, 0x4000, MAX_DIM as int);
        lemma_mul_in_range(
            (2 * x + 1) as int * img_size.width as int,
            FX as int,
            0x400_0000,
            FX as int,
        );
        lemma_mul_in_range((2 * y + 1) as int, img_size.height as int, 0x4000, MAX_DIM as int);
        lemma_mul_in_range(
            (2 * y + 1) as int * img_size.height as int,
            FX as int,
            0x400_0000,
            FX as int,
        );
    }
    let un: i128 = ((2 * x + 1) as i128) * (img_size.width as i128) * (FX as i128);
    let vn: i128 = ((2 * y + 1) as i128) * (img_size.height as i128) * (FX as i128);
    let ud: i128 = 2 * (viewport.width as i128);
    let vd: i128 = 2 * (viewport.height as i128);
    proof {
        assert(un as int / (ud as int) >= 0 && un as int / (ud as int) <= un as int)
            by (nonlinear_arith)
            requires
                un >= 0,
                ud > 0,
        ;
        assert(vn as int / (vd as int) >= 0 && vn as int / (vd as int) <= vn as int)
            by (nonlinear_arith)
            requires
                vn >= 0,
                vd > 0,
        ;
    }
    let u_raw: i128 = un / ud - (FX as i128) / 2;
    let v_raw: i128 = vn / vd - (FX as i128) / 2;
    let u_img: i64 = if u_raw > FX_BOUND as i128 {
        FX_BOUND
    } else {
        u_raw as i64
    };
    let v_img: i64 = if v_raw > FX_BOUND as i128 {
        FX_BOUND
    } else {
        v_raw as i64
    };
    let uv = zoom.apply(V2 { x: u_img, y: v_img });
    match intr.unproject(&uv, FX) {
        Some(q) => {
            if q.z > 0 {
                match core.project(&q) {
                    Some(src) => {
                        let sx = overlay_pixel_floor(src.x);
                        let sy = overlay_pixel_floor(src.y);
                        if sx >= 0 && sy >= 0 && (sx as usize) < scene_buf.size.width && (
                        sy as usize) < scene_buf.size.height {
                            proof {
                                assert(sy as int * scene_buf.size.width as int + sx
                                    < scene_buf.size.width as int * scene_buf.size.height as int
                                    && scene_buf.size.width as int * scene_buf.size.height as int
                                    <= 0x100_0000 && sy as int * scene_buf.size.width as int >= 0)
                                    by (nonlinear_arith)
                                    requires
                                        0 <= sx < scene_buf.size.width as int,
                                        0 <= sy < scene_buf.size.height as int,
                                        scene_buf.size.width <= 4096,
                                        scene_buf.size.height <= 4096,
                                ;
                            }
                            let sidx: usize = (sy as usize) * scene_buf.size.width + (sx as usize);
                            let sndc = scene_buf.ndc[sidx];
                            if sndc < NDC_ONE {
                                let scol = scene_buf.rgba[sidx];
                                return (scol, sndc);
                            }
                        }
                    },
                    None => {
                        proof {
                            assert(false);
                        }
                    },
                }
            }
        },
        None => {},
    }
    match background {
        Some(bg) => {
            proof {
                lemma_mul_in_range(x as int, bg.size.width as int, MAX_DIM as int, MAX_DIM as int);
                lemma_mul_in_range(y as int, bg.size.height as int, MAX_DIM as int, MAX_DIM as int);
                assert(x as int * bg.size.width as int / (viewport.width as int) >= 0)
                    by (nonlinear_arith)
                    requires
                        x >= 0,
                        bg.size.width >= 0,
                        viewport.width > 0,
                ;
                assert(y as int * bg.size.height as int / (viewport.height as int) >= 0)
                    by (nonlinear_arith)
                    requires
                        y >= 0,
                        bg.size.height >= 0,
                        viewport.height > 0,
                ;
            }
            let bx0: usize = x * bg.size.width / viewport.width;
            let by0: usize = y * bg.size.height / viewport.height;
            let bx: usize = if bx0 > bg.size.width - 1 {
                bg.size.width - 1
            } else {
                bx0
            };
            let by: usize = if by0 > bg.size.height - 1 {
                bg.size.height - 1
            } else {
                by0
            };
            proof {
                assert(by as int * bg.size.width as int + bx < bg.size.width as int
                    * bg.size.height as int && bg.size.width as int * bg.size.height as int
                    <= 0x100_0000 && by as int * bg.size.width as int >= 0) by (nonlinear_arith)
                    requires
                        0 <= bx < bg.size.width as int,
                        0 <= by < bg.size.height as int,
                        bg.size.width <= 4096,
                        bg.size.height <= 4096,
                ;
            }
            let bidx: usize = by * bg.size.width + bx;
            let bcol = bg.pixels[bidx];
            let bgp = crate::fixed::clamp_i64(BACKGROUND_IMAGE_PLANE, clip.near, clip.far);
            let bg_ndc = clip.ndc_from_metric(bgp);
            (bcol, bg_ndc)
        },
        None => (Color { r: 0, g: 0, b: 0, a: 0 }, NDC_ONE),
    }
}

/// The whole color output of the distortion pass, as a value.
pub open spec fn dist_rgba_spec(
    srgba: Seq<Color>,
    sndc: Seq<u32>,
    sw: int,
    sh: int,
    intr: RenderIntrinsics,
    clip: ClippingPlanes,
    zoom: TranslationAndScaling,
    bg: Option<ImageRgba>,
    vw: int,
    vh: int,
) -> Seq<Color> {
    Seq::new(
        (vw * vh) as nat,
        |i: int|
            dist_pixel_spec(srgba, sndc, sw, sh, intr, clip, zoom, bg, vw, vh, i % vw, i / vw).0,
    )
}

/// The whole depth output of the distortion pass, as a value.
pub open spec fn dist_ndc_spec(
    srgba: Seq<Color>,
    sndc: Seq<u32>,
    sw: int,
    sh: int,
    intr: RenderIntrinsics,
    clip: ClippingPlanes,
    zoom: TranslationAndScaling,
    bg: Option<ImageRgba>,
    vw: int,
    vh: int,
) -> Seq<u32> {
    Seq::new(
        (vw * vh) as nat,
        |i: int|
            dist_pixel_spec(srgba, sndc, sw, sh, intr, clip, zoom, bg, vw, vh, i % vw, i / vw).1,
    )
}

/// One pixel's state under the distortion pass in progress.
pub open spec fn dist_pixel_ok(
    srgba: Seq<Color>,
    sndc: Seq<u32>,
    sw: int,
    sh: int,
    intr: RenderIntrinsics,
    clip: ClippingPlanes,
    zoom: TranslationAndScaling,
    bg: Option<ImageRgba>,
    vw: int,
    vh: int,
    rgba: Seq<Color>,
    ndcs: Seq<u32>,
    limit_y: int,
    limit_x: int,
    i: int,
) -> bool {
    if i / vw < limit_y || (i / vw == limit_y && i % vw < limit_x) {
        rgba[i] == dist_pixel_spec(
            srgba,
            sndc,
            sw,
            sh,
            intr,
            clip,
            zoom,
            bg,
            vw,
            vh,
            i % vw,
            i / vw,
        ).0 && ndcs[i] == dist_pixel_spec(
            srgba,
            sndc,
            sw,
            sh,
            intr,
            clip,
            zoom,
            bg,
            vw,
            vh,
            i % vw,
            i / vw,
        ).1
    } else {
        rgba[i] == (Color { r: 0, g: 0, b: 0, a: 0 }) && ndcs[i] == NDC_ONE
    }
}

/// The distortion pass: builds the viewport-sized destination buffer pixel
/// by pixel, sampling the scene-pass buffer through the camera model and
/// compositing the optional background image beneath the 3D content at the
/// background plane depth.
#[verifier::rlimit(60)]
pub fn distortion_pass(
    scene_buf: &FrameBuffers,
    intr: &RenderIntrinsics,
    clip: &ClippingPlanes,
    zoom: &TranslationAndScaling,
    background: &Option<ImageRgba>,
    viewport: ImageSize,
) -> (out: FrameBuffers)
    requires
        scene_buf.wf(),
        intr.wf(),
        clip.wf(),
        zoom.wf(),
        viewport.wf(),
        background matches Some(bg) ==> bg.wf(),
    ensures
        out.wf(),
        out.size == viewport,
        forall|i: int|
            0 <= i < out.rgba@.len() ==> #[trigger] out.rgba@[i] == dist_pixel_spec(
                scene_buf.rgba@,
                scene_buf.ndc@,
                scene_buf.size.width as int,
                scene_buf.size.height as int,
                *intr,
                *clip,
                *zoom,
                *background,
                viewport.width as int,
                viewport.height as int,
                i % viewport.width as int,
                i / viewport.width as int,
            ).0,
        forall|i: int|
            0 <= i < out.ndc@.len() ==> #[trigger] out.ndc@[i] == dist_pixel_spec(
                scene_buf.rgba@,
                scene_buf.ndc@,
                scene_buf.size.width as int,
                scene_buf.size.height as int,
                *intr,
                *clip,
                *zoom,
                *background,
                viewport.width as int,
                viewport.height as int,
                i % viewport.width as int,
                i / viewport.width as int,
            ).1,
        out.rgba@ == dist_rgba_spec(
            scene_buf.rgba@,
            scene_buf.ndc@,
            scene_buf.size.width as int,
            scene_buf.size.height as int,
            *intr,
            *clip,
            *zoom,
            *background,
            viewport.width as int,
            viewport.height as int,
        ),
        out.ndc@ == dist_ndc_spec(
            scene_buf.rgba@,
            scene_buf.ndc@,
            scene_buf.size.width as int,
            scene_buf.size.height as int,
            *intr,
            *clip,
            *zoom,
            *background,
            viewport.width as int,
            viewport.height as int,
        ),
{
    let mut out = FrameBuffers::new(viewport);
    let ghost vw = viewport.width as int;
    let ghost vh = viewport.height as int;
    let ghost n = (viewport.width * viewport.height) as int;
    let mut y: usize = 0;
    while y < viewport.height
        invariant
            out.wf(),
            out.size == viewport,
            scene_buf.wf(),
            intr.wf(),
            clip.wf(),
            zoom.wf(),
            viewport.wf(),
            background matches Some(bg) ==> bg.wf(),
            y <= viewport.height,
            vw == viewport.width as int,
            vh == viewport.height as int,
            n == (viewport.width * viewport.height) as int,
            forall|i: int|
                0 <= i < n ==> #[trigger] dist_pixel_ok(
                    scene_buf.rgba@,
                    scene_buf.ndc@,
                    scene_buf.size.width as int,
                    scene_buf.size.height as int,
                    *intr,
                    *clip,
                    *zoom,
                    *background,
                    vw,
                    vh,
                    out.rgba@,
                    out.ndc@,
                    y as int,
                    0,
                    i,
                ),
        decreases viewport.height - y,
    {
        let mut x: usize = 0;
        while x < viewport.width
            invariant
                out.wf(),
                out.size == viewport,
                scene_buf.wf(),
                intr.wf(),
                clip.wf(),
                zoom.wf(),
                viewport.wf(),
                background matches Some(bg) ==> bg.wf(),
                y < viewport.height,
                x <= viewport.width,
                vw == viewport.width as int,
                vh == viewport.height as int,
                n == (viewport.width * viewport.height) as int,
                forall|i: int|
                    0 <= i < n ==> #[trigger] dist_pixel_ok(
                        scene_buf.rgba@,
                        scene_buf.ndc@,
                        scene_buf.size.width as int,
                        scene_buf.size.height as int,
                        *intr,
                        *clip,
                        *zoom,
                        *background,
                        vw,
                        vh,
                        out.rgba@,
                        out.ndc@,
                        y as int,
                        x as int,
                        i,
                    ),
            decreases viewport.width - x,
        {
            let ghost before = out;
            let px = dist_pixel(scene_buf, intr, clip, zoom, background, viewport, x, y);
            store_pixel(&mut out, x, y, px.0, px.1);
            proof {
                crate::pipeline::lemma_row_major(x as int, y as int, vw);
                let target = y * vw + x;
                assert(0 <= target < n) by (nonlinear_arith)
                    requires
                        0 <= x < vw,
                        0 <= y < vh,
                        target == y * vw + x,
                        n == vw * vh,
                ;
                assert forall|i: int| 0 <= i < n implies #[trigger] dist_pixel_ok(
                    scene_buf.rgba@,
                    scene_buf.ndc@,
                    scene_buf.size.width as int,
                    scene_buf.size.height as int,
                    *intr,
                    *clip,
                    *zoom,
                    *background,
                    vw,
                    vh,
                    out.rgba@,
                    out.ndc@,
                    y as int,
                    x + 1,
                    i,
                ) by {
                    crate::pipeline::lemma_index_decomposes(i, vw, vh);
                    assert(dist_pixel_ok(
                        scene_buf.rgba@,
                        scene_buf.ndc@,
                        scene_buf.size.width as int,
                        scene_buf.size.height as int,
                        *intr,
                        *clip,
                        *zoom,
                        *background,
                        vw,
                        vh,
                        before.rgba@,
                        before.ndc@,
                        y as int,
                        x as int,
                        i,
                    ));
                    if i % vw == x as int && i / vw == y as int {
                        assert(i == y * vw + x);
                    } else {
                        assert(out.rgba@[i] == before.rgba@[i] && out.ndc@[i] == before.ndc@[i]);
                    }
                }
            }
            x += 1;
        }
        proof {
            assert forall|i: int| 0 <= i < n implies #[trigger] dist_pixel_ok(
                scene_buf.rgba@,
                scene_buf.ndc@,
                scene_buf.size.width as int,
                scene_buf.size.height as int,
                *intr,
                *clip,
                *zoom,
                *background,
                vw,
                vh,
                out.rgba@,
                out.ndc@,
                y + 1,
                0,
                i,
            ) by {
                crate::pipeline::lemma_index_decomposes(i, vw, vh);
                assert(dist_pixel_ok(
                    scene_buf.rgba@,
                    scene_buf.ndc@,
                    scene_buf.size.width as int,
                    scene_buf.size.height as int,
                    *intr,
                    *clip,
                    *zoom,
                    *background,
                    vw,
                    vh,
                    out.rgba@,
                    out.ndc@,
                    y as int,
                    vw,
                    i,
                ));
            }
        }
        y += 1;
    }
    proof {
        assert forall|i: int| 0 <= i < n implies #[trigger] dist_pixel_ok(
            scene_buf.rgba@,
            scene_buf.ndc@,
            scene_buf.size.width as int,
            scene_buf.size.height as int,
            *intr,
            *clip,
            *zoom,
            *background,
            vw,
            vh,
            out.rgba@,
            out.ndc@,
            vh,
            0,
            i,
        ) by {
            crate::pipeline::lemma_index_decomposes(i, vw, vh);
        }
        assert forall|i: int| 0 <= i < out.rgba@.len() implies #[trigger] out.rgba@[i]
            == dist_pixel_spec(
            scene_buf.rgba@,
            scene_buf.ndc@,
            scene_buf.size.width as int,
            scene_buf.size.height as int,
            *intr,
            *clip,
            *zoom,
            *background,
            vw,
            vh,
            i % vw,
            i / vw,
        ).0 by {
            crate::pipeline::lemma_index_decomposes(i, vw, vh);
            assert(dist_pixel_ok(
                scene_buf.rgba@,
                scene_buf.ndc@,
                scene_buf.size.width as int,
                scene_buf.size.height as int,
                *intr,
                *clip,
                *zoom,
                *background,
                vw,
                vh,
                out.rgba@,
                out.ndc@,
                vh,
                0,
                i,
            ));
        }
        assert forall|i: int| 0 <= i < out.ndc@.len() implies #[trigger] out.ndc@[i]
            == dist_pixel_spec(
            scene_buf.rgba@,
            scene_buf.ndc@,
            scene_buf.size.width as int,
            scene_buf.size.height as int,
            *intr,
            *clip,
            *zoom,
            *background,
            vw,
            vh,
            i % vw,
            i / vw,
        ).1 by {
            crate::pipeline::lemma_index_decomposes(i, vw, vh);
            assert(dist_pixel_ok(
                scene_buf.rgba@,
                scene_buf.ndc@,
                scene_buf.size.width as int,
                scene_buf.size.height as int,
                *intr,
                *clip,
                *zoom,
                *background,
                vw,
                vh,
                out.rgba@,
                out.ndc@,
                vh,
                0,
                i,
            ));
        }
        assert(out.rgba@ =~= dist_rgba_spec(
            scene_buf.rgba@,
            scene_buf.ndc@,
            scene_buf.size.width as int,
            scene_buf.size.height as int,
            *intr,
            *clip,
            *zoom,
            *background,
            vw,
            vh,
        ));
        assert(out.ndc@ =~= dist_ndc_spec(
            scene_buf.rgba@,
            scene_buf.ndc@,
            scene_buf.size.width as int,
            scene_buf.size.height as int,
            *intr,
            *clip,
            *zoom,
            *background,
            vw,
            vh,
        ));
    }
    out
}

} // verus!

verus! {

/// The viewport-sized render targets of one view, recreated whole whenever
/// the requested viewport size changes; no partial resize exists.
pub struct Textures {
    /// The viewport these targets were allocated for.
    pub view_port_size: ImageSize,
    /// The scene-pass target, sized to the undistorted intrinsics.
    pub scene: FrameBuffers,
    /// The externally visible target, sized to the viewport.
    pub composed: FrameBuffers,
}

impl Textures {
    /// Targets allocated and in range.
    pub open spec fn wf(&self) -> bool {
        self.view_port_size.wf() && self.scene.wf() && self.composed.wf() && self.composed.size
            == self.view_port_size
    }

    /// Fresh cleared targets for a scene-buffer size and a viewport size.
    pub fn new(scene_size: ImageSize, view_port_size: ImageSize) -> (r: Textures)
        requires
            scene_size.wf(),
            view_port_size.wf(),
        ensures
            r.wf(),
            r.view_port_size == view_port_size,
            r.scene.size == scene_size,
    {
        Textures {
            view_port_size,
            scene: FrameBuffers::new(scene_size),
            composed: FrameBuffers::new(view_port_size),
        }
    }
}

/// The retained mesh table after upserting a batch of renderables, in order.
pub open spec fn meshes_after(
    m: Map<Seq<char>, crate::renderables::Mesh3>,
    s: Seq<SceneRenderable>,
) -> Map<Seq<char>, crate::renderables::Mesh3>
    decreases s.len(),
{
    if s.len() == 0 {
        m
    } else {
        let rest = meshes_after(m, s.drop_last());
        match s.last() {
            SceneRenderable::Mesh(mm) => rest.insert(mm.name@, mm),
            _ => rest,
        }
    }
}

/// The retained 3D line table after upserting a batch, in order.
pub open spec fn line_sets_after(
    m: Map<Seq<char>, crate::renderables::LineSet3>,
    s: Seq<SceneRenderable>,
) -> Map<Seq<char>, crate::renderables::LineSet3>
    decreases s.len(),
{
    if s.len() == 0 {
        m
    } else {
        let rest = line_sets_after(m, s.drop_last());
        match s.last() {
            SceneRenderable::Lines(l) => rest.insert(l.name@, l),
            _ => rest,
        }
    }
}

/// The retained point table after upserting a batch, in order.
pub open spec fn point_clouds_after(
    m: Map<Seq<char>, crate::renderables::PointCloud3>,
    s: Seq<SceneRenderable>,
) -> Map<Seq<char>, crate::renderables::PointCloud3>
    decreases s.len(),
{
    if s.len() == 0 {
        m
    } else {
        let rest = point_clouds_after(m, s.drop_last());
        match s.last() {
            SceneRenderable::Points(p) => rest.insert(p.name@, p),
            _ => rest,
        }
    }
}

/// The retained 2D line table after upserting a batch, in order.
pub open spec fn line_sets2_after(
    m: Map<Seq<char>, LineSet2>,
    s: Seq<PixelRenderable>,
) -> Map<Seq<char>, LineSet2>
    decreases s.len(),
{
    if s.len() == 0 {
        m
    } else {
        let rest = line_sets2_after(m, s.drop_last());
        match s.last() {
            PixelRenderable::Lines(l) => rest.insert(l.name@, l),
            _ => rest,
        }
    }
}

/// The retained 2D point table after upserting a batch, in order.
pub open spec fn point_sets2_after(
    m: Map<Seq<char>, PointSet2>,
    s: Seq<PixelRenderable>,
) -> Map<Seq<char>, PointSet2>
    decreases s.len(),
{
    if s.len() == 0 {
        m
    } else {
        let rest = point_sets2_after(m, s.drop_last());
        match s.last() {
            PixelRenderable::Points(p) => rest.insert(p.name@, p),
            _ => rest,
        }
    }
}

/// What one render call is asked to do, gathered by its builder methods.
pub struct RenderBuilder {
    /// The requested viewport size.
    pub view_port_size: ImageSize,
    /// The scene-from-camera pose to render from.
    pub scene_from_camera: Pose,
    /// The 2D pan/zoom transform.
    pub zoom: TranslationAndScaling,
    /// The interaction focus marker to draw, if any.
    pub maybe_marker: Option<SceneFocusMarker>,
    /// Whether to produce the false-color depth visualization.
    pub compute_depth_texture: bool,
    /// Whether backface culling is enabled.
    pub backface_culling: bool,
    /// Whether to copy the RGBA buffer out to host memory.
    pub download_rgba: bool,
}

impl RenderBuilder {
    /// Parameters in range.
    pub open spec fn wf(self) -> bool {
        &&& self.view_port_size.wf()
        &&& self.scene_from_camera.bounded()
        &&& self.zoom.wf()
        &&& match self.maybe_marker {
            Some(mk) => -FX_BOUND <= mk.u <= FX_BOUND && -FX_BOUND <= mk.v <= FX_BOUND,
            None => true,
        }
    }

    /// A fresh request: identity zoom, no marker, all options off.
    pub fn new(view_port_size: ImageSize, scene_from_camera: Pose) -> (r: RenderBuilder)
        requires
            view_port_size.wf(),
            scene_from_camera.bounded(),
        ensures
            r.wf(),
            r.view_port_size == view_port_size,
            r.scene_from_camera == scene_from_camera,
            r.zoom.translation == (V2 { x: 0, y: 0 }) && r.zoom.scaling == (V2 { x: FX, y: FX }),
            r.maybe_marker is None,
            !r.compute_depth_texture,
            !r.backface_culling,
            !r.download_rgba,
    {
        RenderBuilder {
            view_port_size,
            scene_from_camera,
            zoom: TranslationAndScaling::identity(),
            maybe_marker: None,
            compute_depth_texture: false,
            backface_culling: false,
            download_rgba: false,
        }
    }

    /// Sets the 2D pan/zoom transform.
    pub fn zoom(self, zoom: TranslationAndScaling) -> (r: RenderBuilder)
        ensures
            r == (RenderBuilder { zoom, ..self }),
    {
        RenderBuilder { zoom, ..self }
    }

    /// Sets the interaction focus marker to draw.
    pub fn interaction(self, maybe_marker: Option<SceneFocusMarker>) -> (r: RenderBuilder)
        ensures
            r == (RenderBuilder { maybe_marker, ..self }),
    {
        RenderBuilder { maybe_marker, ..self }
    }

    /// Selects the false-color depth visualization.
    pub fn compute_depth_texture(self, compute_depth_texture: bool) -> (r: RenderBuilder)
        ensures
            r == (RenderBuilder { compute_depth_texture, ..self }),
    {
        RenderBuilder { compute_depth_texture, ..self }
    }

    /// Selects backface culling.
    pub fn backface_culling(self, backface_culling: bool) -> (r: RenderBuilder)
        ensures
            r == (RenderBuilder { backface_culling, ..self }),
    {
        RenderBuilder { backface_culling, ..self }
    }

    /// Selects the host-memory RGBA download.
    pub fn download_rgba(self, download_rgba: bool) -> (r: RenderBuilder)
        ensures
            r == (RenderBuilder { download_rgba, ..self }),
    {
        RenderBuilder { download_rgba, ..self }
    }
}

/// What one render call returns.
pub struct RenderResult {
    /// The RGBA image, if its download was requested.
    pub rgba_image: Option<ImageRgba>,
    /// The depth image, recomputed every call.
    pub depth_image: DepthImage,
    /// The false-color depth visualization (RGBA bytes), if requested.
    pub visual_depth: Option<Vec<u8>>,
}

/// One view's offscreen renderer: camera properties, the retained 3D and 2D
/// tables, the render targets and the optional background image.
pub struct OffscreenRenderer {
    /// The view's camera.
    pub camera_properties: RenderCameraProperties,
    /// The scene-pass state.
    pub scene: SceneRenderer,
    /// The overlay-pass state.
    pub pixel: PixelRenderer,
    /// The render targets.
    pub textures: Textures,
    /// The background image composited by the distortion pass, if any.
    pub maybe_background_image: Option<ImageRgba>,
}

impl OffscreenRenderer {
    /// All parts well-formed.
    pub open spec fn wf(&self) -> bool {
        &&& self.camera_properties.wf()
        &&& self.scene.wf()
        &&& self.pixel.wf()
        &&& self.textures.wf()
        &&& match &self.maybe_background_image {
            Some(bg) => bg.wf(),
            None => true,
        }
    }

    /// A new renderer for a camera: empty tables, no background, targets
    /// sized to the camera's image size.
    pub fn new(camera_properties: &RenderCameraProperties) -> (r: OffscreenRenderer)
        requires
            camera_properties.wf(),
        ensures
            r.wf(),
            r.camera_properties == camera_properties,
            r.scene.mesh_table@ == Map::<Seq<char>, crate::renderables::Mesh3>::empty(),
            r.scene.line_table@ == Map::<Seq<char>, crate::renderables::LineSet3>::empty(),
            r.scene.point_table@ == Map::<Seq<char>, crate::renderables::PointCloud3>::empty(),
            r.pixel.line_table@ == Map::<Seq<char>, LineSet2>::empty(),
            r.pixel.point_table@ == Map::<Seq<char>, PointSet2>::empty(),
            r.maybe_background_image is None,
            r.textures.view_port_size == camera_properties.intrinsics.image_size_spec(),
            r.textures.scene.size == camera_properties.intrinsics.image_size_spec(),
    {
        let size = camera_properties.intrinsics.image_size();
        OffscreenRenderer {
            camera_properties: *camera_properties,
            scene: SceneRenderer::new(),
            pixel: PixelRenderer::new(),
            textures: Textures::new(size, size),
            maybe_background_image: None,
        }
    }

    /// The camera intrinsics of this view.
    pub fn intrinsics(&self) -> (r: RenderIntrinsics)
        ensures
            r == self.camera_properties.intrinsics,
    {
        self.camera_properties.intrinsics
    }

    /// The aspect ratio of the camera image, as the exact pixel pair
    /// `(width, height)`.
    pub fn aspect_ratio(&self) -> (r: (usize, usize))
        ensures
            r.0 == self.camera_properties.intrinsics.image_size_spec().width,
            r.1 == self.camera_properties.intrinsics.image_size_spec().height,
    {
        let s = self.camera_properties.intrinsics.image_size();
        (s.width, s.height)
    }

    /// Adopts new intrinsics and replaces or clears the background image:
    /// `Some` installs the image, `None` clears it.
    pub fn reset_2d_frame(
        &mut self,
        intrinsics: &RenderIntrinsics,
        maybe_background_image: Option<ImageRgba>,
    )
        requires
            old(self).wf(),
            intrinsics.wf(),
            maybe_background_image matches Some(bg) ==> bg.wf(),
        ensures
            final(self).wf(),
            final(self).camera_properties.intrinsics == intrinsics,
            final(self).camera_properties.clipping_planes == old(
                self,
            ).camera_properties.clipping_planes,
            final(self).maybe_background_image == maybe_background_image,
            final(self).scene == old(self).scene,
            final(self).pixel == old(self).pixel,
    {
        self.camera_properties.intrinsics = *intrinsics;
        self.maybe_background_image = maybe_background_image;
    }

    /// Upserts a batch of 2D renderables into the overlay tables by name.
    pub fn update_2d_renderables(&mut self, renderables: Vec<PixelRenderable>)
        requires
            old(self).wf(),
            forall|i: int| 0 <= i < renderables@.len() ==> (#[trigger] renderables@[i]).wf(),
        ensures
            final(self).wf(),
            final(self).pixel.line_table@ == line_sets2_after(
                old(self).pixel.line_table@,
                renderables@,
            ),
            final(self).pixel.point_table@ == point_sets2_after(
                old(self).pixel.point_table@,
                renderables@,
            ),
            final(self).scene == old(self).scene,
            final(self).camera_properties == old(self).camera_properties,
            final(self).maybe_background_image == old(self).maybe_background_image,
            final(self).textures == old(self).textures,
    {
        let ghost all = renderables@;
        let mut rest = renderables;
        while rest.len() > 0
            invariant
                self.wf(),
                rest@.len() <= all.len(),
                rest@ == all.subrange(all.len() - rest@.len(), all.len() as int),
                forall|i: int| 0 <= i < all.len() ==> (#[trigger] all[i]).wf(),
                self.pixel.line_table@ == line_sets2_after(
                    old(self).pixel.line_table@,
                    all.subrange(0, all.len() - rest@.len()),
                ),
                self.pixel.point_table@ == point_sets2_after(
                    old(self).pixel.point_table@,
                    all.subrange(0, all.len() - rest@.len()),
                ),
                self.scene == old(self).scene,
                self.camera_properties == old(self).camera_properties,
                self.maybe_background_image == old(self).maybe_background_image,
                self.textures == old(self).textures,
            decreases rest@.len(),
        {
            let ghost j = all.len() - rest@.len();
            let item = rest.remove(0);
            proof {
                assert(all.subrange(j as int, all.len() as int)[0] == all[j as int]);
                assert(rest@ =~= all.subrange(j + 1, all.len() as int));
                assert(all.subrange(0, j + 1).drop_last() =~= all.subrange(0, j as int));
                assert(all.subrange(0, j + 1).last() == all[j as int]);
                assert(all[j as int].wf());
            }
            match item {
                PixelRenderable::Lines(l) => {
                    let name = l.name.clone();
                    self.pixel.line_table.insert(name, l);
                    proof {
                        assert forall|k: Seq<char>|
                            self.pixel.line_table@.contains_key(k) implies (
                        #[trigger] self.pixel.line_table@[k]).width <= MAX_BRUSH by {}
                    }
                },
                PixelRenderable::Points(p) => {
                    let name = p.name.clone();
                    self.pixel.point_table.insert(name, p);
                    proof {
                        assert forall|k: Seq<char>|
                            self.pixel.point_table@.contains_key(k) implies (
                        #[trigger] self.pixel.point_table@[k]).point_size <= MAX_BRUSH by {}
                    }
                },
            }
        }
        proof {
            assert(all.subrange(0, all.len() as int) =~= all);
        }
    }

    /// Upserts a batch of 3D renderables into the scene tables by name.
    pub fn update_3d_renderables(&mut self, renderables: Vec<SceneRenderable>)
        requires
            old(self).wf(),
            forall|i: int| 0 <= i < renderables@.len() ==> (#[trigger] renderables@[i]).wf(),
        ensures
            final(self).wf(),
            final(self).scene.mesh_table@ == meshes_after(
                old(self).scene.mesh_table@,
                renderables@,
            ),
            final(self).scene.line_table@ == line_sets_after(
                old(self).scene.line_table@,
                renderables@,
            ),
            final(self).scene.point_table@ == point_clouds_after(
                old(self).scene.point_table@,
                renderables@,
            ),
            final(self).pixel == old(self).pixel,
            final(self).camera_properties == old(self).camera_properties,
            final(self).maybe_background_image == old(self).maybe_background_image,
            final(self).textures == old(self).textures,
    {
        let ghost all = renderables@;
        let mut rest = renderables;
        while rest.len() > 0
            invariant
                self.wf(),
                rest@.len() <= all.len(),
                rest@ == all.subrange(all.len() - rest@.len(), all.len() as int),
                forall|i: int| 0 <= i < all.len() ==> (#[trigger] all[i]).wf(),
                self.scene.mesh_table@ == meshes_after(
                    old(self).scene.mesh_table@,
                    all.subrange(0, all.len() - rest@.len()),
                ),
                self.scene.line_table@ == line_sets_after(
                    old(self).scene.line_table@,
                    all.subrange(0, all.len() - rest@.len()),
                ),
                self.scene.point_table@ == point_clouds_after(
                    old(self).scene.point_table@,
                    all.subrange(0, all.len() - rest@.len()),
                ),
                self.pixel == old(self).pixel,
                self.camera_properties == old(self).camera_properties,
                self.maybe_background_image == old(self).maybe_background_image,
                self.textures == old(self).textures,
            decreases rest@.len(),
        {
            let ghost j = all.len() - rest@.len();
            let item = rest.remove(0);
            proof {
                assert(all.subrange(j as int, all.len() as int)[0] == all[j as int]);
                assert(rest@ =~= all.subrange(j + 1, all.len() as int));
                assert(all.subrange(0, j + 1).drop_last() =~= all.subrange(0, j as int));
                assert(all.subrange(0, j + 1).last() == all[j as int]);
                assert(all[j as int].wf());
            }
            match item {
                SceneRenderable::Mesh(m) => {
                    let name = m.name.clone();
                    self.scene.mesh_table.insert(name, m);
                    proof {
                        assert forall|k: Seq<char>|
                            self.scene.mesh_table@.contains_key(k) implies forall|i: int|
                            0 <= i < (#[trigger] self.scene.mesh_table@[k]).triangles@.len() ==> (
                        #[trigger] self.scene.mesh_table@[k].triangles@[i]).a.bounded()
                            && self.scene.mesh_table@[k].triangles@[i].b.bounded()
                            && self.scene.mesh_table@[k].triangles@[i].c.bounded() by {}
                    }
                },
                SceneRenderable::Lines(l) => {
                    let name = l.name.clone();
                    self.scene.line_table.insert(name, l);
                    proof {
                        assert forall|k: Seq<char>|
                            self.scene.line_table@.contains_key(k) implies (
                        #[trigger] self.scene.line_table@[k]).width <= MAX_BRUSH && forall|i: int|
                            0 <= i < self.scene.line_table@[k].lines@.len() ==> (
                        #[trigger] self.scene.line_table@[k].lines@[i]).a.bounded()
                            && self.scene.line_table@[k].lines@[i].b.bounded() by {}
                    }
                },
                SceneRenderable::Points(p) => {
                    let name = p.name.clone();
                    self.scene.point_table.insert(name, p);
                    proof {
                        assert forall|k: Seq<char>|
                            self.scene.point_table@.contains_key(k) implies (
                        #[trigger] self.scene.point_table@[k]).point_size <= MAX_BRUSH && forall|
                            i: int,
                        |
                            0 <= i < self.scene.point_table@[k].points@.len() ==> (
                        #[trigger] self.scene.point_table@[k].points@[i]).pos.bounded() by {}
                    }
                },
            }
        }
        proof {
            assert(all.subrange(0, all.len() as int) =~= all);
        }
    }

    /// Begins a render request for a viewport and pose.
    pub fn render_params(&self, view_port_size: &ImageSize, scene_from_camera: &Pose) -> (r:
        RenderBuilder)
        requires
            view_port_size.wf(),
            scene_from_camera.bounded(),
        ensures
            r.wf(),
            r.view_port_size == view_port_size,
            r.scene_from_camera == scene_from_camera,
            r.maybe_marker is None,
            !r.compute_depth_texture,
            !r.backface_culling,
            !r.download_rgba,
    {
        RenderBuilder::new(*view_port_size, *scene_from_camera)
    }

    /// Renders one frame: recreates the render targets if the requested
    /// viewport changed, then runs the scene pass, the distortion pass and
    /// the overlay pass in order, and downloads what the request asked for.
    /// The depth image is recomputed every call, never cached.
    pub fn render(&mut self, params: &RenderBuilder) -> (r: RenderResult)
        requires
            old(self).wf(),
            params.wf(),
        ensures
            final(self).wf(),
            final(self).textures.view_port_size == params.view_port_size,
            final(self).camera_properties == old(self).camera_properties,
            final(self).scene == old(self).scene,
            final(self).pixel == old(self).pixel,
            final(self).maybe_background_image == old(self).maybe_background_image,
            r.depth_image.wf(),
            r.depth_image.size == params.view_port_size,
            r.depth_image.clipping_planes == old(self).camera_properties.clipping_planes,
            r.rgba_image is Some <==> params.download_rgba,
            r.rgba_image matches Some(img) ==> img.wf() && img.size == params.view_port_size,
            r.visual_depth is Some <==> params.compute_depth_texture,
            r.visual_depth matches Some(v) ==> v@.len() == 4 * (params.view_port_size.width
                * params.view_port_size.height),
            // the passes, tied end to end: the scene pass output, the
            // distortion output over it, the overlay and marker over that
            ({
                let scene_size = old(self).camera_properties.intrinsics.image_size_spec();
                let scene_out = crate::pipeline::scene_pass_spec(
                    old(self).scene,
                    core_spec(old(self).camera_properties.intrinsics),
                    old(self).camera_properties.clipping_planes,
                    params.scene_from_camera,
                    scene_size,
                    params.backface_culling,
                );
                let vw = params.view_port_size.width as int;
                let vh = params.view_port_size.height as int;
                let dist_r = dist_rgba_spec(
                    scene_out.0,
                    scene_out.1,
                    scene_size.width as int,
                    scene_size.height as int,
                    old(self).camera_properties.intrinsics,
                    old(self).camera_properties.clipping_planes,
                    params.zoom,
                    old(self).maybe_background_image,
                    vw,
                    vh,
                );
                let dist_n = dist_ndc_spec(
                    scene_out.0,
                    scene_out.1,
                    scene_size.width as int,
                    scene_size.height as int,
                    old(self).camera_properties.intrinsics,
                    old(self).camera_properties.clipping_planes,
                    params.zoom,
                    old(self).maybe_background_image,
                    vw,
                    vh,
                );
                let over = overlay_pass_spec(dist_r, vw, old(self).pixel, params.zoom);
                let shown = match params.maybe_marker {
                    Some(mk) => paint_square_rgba(
                        over,
                        vw,
                        overlay_px(mk.u as int),
                        overlay_px(mk.v as int),
                        MARKER_SIZE as int,
                        mk.color,
                    ),
                    None => over,
                };
                &&& final(self).textures.scene.rgba@ == scene_out.0
                &&& final(self).textures.scene.ndc@ == scene_out.1
                &&& final(self).textures.composed.rgba@ == shown
                &&& final(self).textures.composed.ndc@ == dist_n
                &&& r.depth_image.ndc@ == dist_n
                &&& (r.rgba_image matches Some(img) ==> img.pixels@ == shown)
                &&& (r.visual_depth matches Some(v) ==> v@ == crate::depth::ramp_image(dist_n))
            }),
            render_performed(*old(self), *params, *final(self), r),
    {
        let scene_size = self.camera_properties.intrinsics.image_size();
        if self.textures.view_port_size.width != params.view_port_size.width
            || self.textures.view_port_size.height != params.view_port_size.height {
            self.textures = Textures::new(scene_size, params.view_port_size);
        }
        let core = pinhole_core(&self.camera_properties.intrinsics);
        self.textures.scene = self.scene.paint(
            &params.scene_from_camera,
            &core,
            &self.camera_properties.clipping_planes,
            scene_size,
            params.backface_culling,
        );
        self.textures.composed = distortion_pass(
            &self.textures.scene,
            &self.camera_properties.intrinsics,
            &self.camera_properties.clipping_planes,
            &params.zoom,
            &self.maybe_background_image,
            params.view_port_size,
        );
        self.pixel.paint(&mut self.textures.composed, &params.zoom);
        if let Some(marker) = &params.maybe_marker {
            self.pixel.show_interaction_marker(&mut self.textures.composed, marker);
        }
        proof {
            assert(final(self).textures.view_port_size == params.view_port_size);
        }
        let depth_image = DepthImage {
            size: params.view_port_size,
            ndc: self.textures.composed.ndc.clone(),
            clipping_planes: self.camera_properties.clipping_planes,
        };
        let rgba_image = if params.download_rgba {
            Some(
                ImageRgba {
                    size: params.view_port_size,
                    pixels: self.textures.composed.rgba.clone(),
                },
            )
        } else {
            None
        };
        let visual_depth = if params.compute_depth_texture {
            Some(depth_image.color_image())
        } else {
            None
        };
        RenderResult { rgba_image, depth_image, visual_depth }
    }
}

} // verus!

verus! {

impl RenderBuilder {
    /// Renders through the given renderer with these parameters.
    pub fn render(self, offscreen_renderer: &mut OffscreenRenderer) -> (r: RenderResult)
        requires
            old(offscreen_renderer).wf(),
            self.wf(),
        ensures
            final(offscreen_renderer).wf(),
            final(offscreen_renderer).textures.view_port_size == self.view_port_size,
            r.depth_image.wf(),
            r.depth_image.size == self.view_port_size,
            r.rgba_image is Some <==> self.download_rgba,
            r.visual_depth is Some <==> self.compute_depth_texture,
            r.depth_image.ndc@ == final(offscreen_renderer).textures.composed.ndc@,
            r.rgba_image matches Some(img) ==> img.pixels@ == final(offscreen_renderer)
                .textures.composed.rgba@,
    {
        offscreen_renderer.render(&self)
    }
}

} // verus!

verus! {

impl OffscreenRenderer {
    /// Upserts a batch of 3D renderables into the scene tables by name
    /// (the 3D half of the retained-table upsert interface).
    pub fn update_scene(&mut self, renderables: Vec<SceneRenderable>)
        requires
            old(self).wf(),
            forall|i: int| 0 <= i < renderables@.len() ==> (#[trigger] renderables@[i]).wf(),
        ensures
            final(self).wf(),
            final(self).scene.mesh_table@ == meshes_after(
                old(self).scene.mesh_table@,
                renderables@,
            ),
            final(self).scene.line_table@ == line_sets_after(
                old(self).scene.line_table@,
                renderables@,
            ),
            final(self).scene.point_table@ == point_clouds_after(
                old(self).scene.point_table@,
                renderables@,
            ),
            final(self).pixel == old(self).pixel,
            final(self).camera_properties == old(self).camera_properties,
            final(self).maybe_background_image == old(self).maybe_background_image,
    {
        self.update_3d_renderables(renderables)
    }

    /// Upserts a batch of 2D renderables into the overlay tables by name
    /// (the 2D half of the retained-table upsert interface).
    pub fn update_overlay(&mut self, renderables: Vec<PixelRenderable>)
        requires
            old(self).wf(),
            forall|i: int| 0 <= i < renderables@.len() ==> (#[trigger] renderables@[i]).wf(),
        ensures
            final(self).wf(),
            final(self).pixel.line_table@ == line_sets2_after(
                old(self).pixel.line_table@,
                renderables@,
            ),
            final(self).pixel.point_table@ == point_sets2_after(
                old(self).pixel.point_table@,
                renderables@,
            ),
            final(self).scene == old(self).scene,
            final(self).camera_properties == old(self).camera_properties,
            final(self).maybe_background_image == old(self).maybe_background_image,
    {
        self.update_2d_renderables(renderables)
    }

    /// Replaces or clears the background plane image: `Some` installs the
    /// image, `None` clears it; nothing else changes.
    pub fn set_background(&mut self, image: Option<ImageRgba>)
        requires
            old(self).wf(),
            image matches Some(bg) ==> bg.wf(),
        ensures
            final(self).wf(),
            final(self).maybe_background_image == image,
            final(self).camera_properties == old(self).camera_properties,
            final(self).scene == old(self).scene,
            final(self).pixel == old(self).pixel,
            final(self).textures == old(self).textures,
    {
        self.maybe_background_image = image;
    }
}

} // verus!

verus! {

/// Everything one render call does: targets recreated for the viewport, the
/// pass chain tied end to end, and the downloads exactly as requested — the
/// whole contract of `OffscreenRenderer::render`, as one predicate.
pub open spec fn render_performed(
    pre: OffscreenRenderer,
    pb: RenderBuilder,
    post: OffscreenRenderer,
    r: RenderResult,
) -> bool {
    &&& post.wf()
    &&& post.textures.view_port_size == pb.view_port_size
    &&& post.camera_properties == pre.camera_properties
    &&& post.scene == pre.scene
    &&& post.pixel == pre.pixel
    &&& post.maybe_background_image == pre.maybe_background_image
    &&& r.depth_image.wf()
    &&& r.depth_image.size == pb.view_port_size
    &&& r.depth_image.clipping_planes == pre.camera_properties.clipping_planes
    &&& (r.rgba_image is Some <==> pb.download_rgba)
    &&& (r.rgba_image matches Some(img) ==> img.wf() && img.size == pb.view_port_size)
    &&& (r.visual_depth is Some <==> pb.compute_depth_texture)
    &&& (r.visual_depth matches Some(v) ==> v@.len() == 4 * (pb.view_port_size.width
        * pb.view_port_size.height))
    &&& ({
        let scene_size = pre.camera_properties.intrinsics.image_size_spec();
        let scene_out = crate::pipeline::scene_pass_spec(
            pre.scene,
            core_spec(pre.camera_properties.intrinsics),
            pre.camera_properties.clipping_planes,
            pb.scene_from_camera,
            scene_size,
            pb.backface_culling,
        );
        let vw = pb.view_port_size.width as int;
        let vh = pb.view_port_size.height as int;
        let dist_r = dist_rgba_spec(
            scene_out.0,
            scene_out.1,
            scene_size.width as int,
            scene_size.height as int,
            pre.camera_properties.intrinsics,
            pre.camera_properties.clipping_planes,
            pb.zoom,
            pre.maybe_background_image,
            vw,
            vh,
        );
        let dist_n = dist_ndc_spec(
            scene_out.0,
            scene_out.1,
            scene_size.width as int,
            scene_size.height as int,
            pre.camera_properties.intrinsics,
            pre.camera_properties.clipping_planes,
            pb.zoom,
            pre.maybe_background_image,
            vw,
            vh,
        );
        let over = overlay_pass_spec(dist_r, vw, pre.pixel, pb.zoom);
        let shown = match pb.maybe_marker {
            Some(mk) => paint_square_rgba(
                over,
                vw,
                overlay_px(mk.u as int),
                overlay_px(mk.v as int),
                MARKER_SIZE as int,
                mk.color,
            ),
            None => over,
        };
        &&& post.textures.scene.rgba@ == scene_out.0
        &&& post.textures.scene.ndc@ == scene_out.1
        &&& post.textures.composed.rgba@ == shown
        &&& post.textures.composed.ndc@ == dist_n
        &&& r.depth_image.ndc@ == dist_n
        &&& (r.rgba_image matches Some(img) ==> img.pixels@ == shown)
        &&& (r.visual_depth matches Some(v) ==> v@ == crate::depth::ramp_image(dist_n))
    })
}

} // verus!
