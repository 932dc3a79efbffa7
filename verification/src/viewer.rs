//! The viewer: the registry of named views, the packet router that creates
//! and updates them, the per-frame event dispatch, and the grid layout that
//! sizes every enabled view within the available panel.
//!
//! Aspect ratios are exact pixel pairs `(width, height)`; layout arithmetic
//! runs on fixed-point pixels, so every layout decision is a proved formula.

use vstd::prelude::*;
use vstd::seq_lib::to_multiset_insert;

use crate::camera::ImageSize;
use crate::camera::RenderCameraProperties;
use crate::camera::RenderIntrinsics;
use crate::camera::MAX_DIM;
use crate::depth::DepthImage;
use crate::fixed::lemma_mul_in_range;
use crate::fixed::FX;
use crate::geom::tdiv;
use crate::geom::Mat3;
use crate::geom::Pose;
use crate::geom::V3;
use crate::interactions::is_rotz_form;
use crate::interactions::rotz_form;
use crate::interactions::InplaneInteraction;
use crate::interactions::InputEvent;
use crate::interactions::InteractionEnum;
use crate::interactions::OrbitalInteraction;
use crate::interactions::RotationRequest;
use crate::interactions::ViewportScale;
use crate::renderables::ImageViewPacket;
use crate::renderables::Packet;
use crate::renderables::Packets;
use crate::renderables::SceneFocusMarker;
use crate::renderables::SceneViewPacket;
use crate::renderer::line_sets2_after;
use crate::renderer::line_sets_after;
use crate::renderer::meshes_after;
use crate::renderer::point_clouds_after;
use crate::renderer::point_sets2_after;
use crate::renderer::OffscreenRenderer;
use crate::renderer::RenderResult;
use crate::table::RetainedTable;

verus! {

broadcast use vstd::seq_lib::group_to_multiset_ensures;

/// An aspect ratio as an exact pixel pair `(width, height)`.
#[derive(Clone, Copy, Debug, PartialEq, Eq, Structural)]
pub struct AspectRatio {
    /// Width in pixels.
    pub w: usize,
    /// Height in pixels.
    pub h: usize,
}

impl AspectRatio {
    /// Both sides positive and within the supported dimension range.
    pub open spec fn wf(self) -> bool {
        0 < self.w <= MAX_DIM && 0 < self.h <= MAX_DIM
    }
}

/// The ratio order: `a <= b` as fractions `a.w / a.h <= b.w / b.h`, compared
/// by cross-multiplication.
pub open spec fn ratio_le(a: AspectRatio, b: AspectRatio) -> bool {
    a.w * b.h <= b.w * a.h
}

/// A sequence sorted by the ratio order.
pub open spec fn ratio_sorted(s: Seq<AspectRatio>) -> bool {
    forall|i: int, j: int| 0 <= i <= j < s.len() ==> ratio_le(#[trigger] s[i], #[trigger] s[j])
}

/// The ratio order is total (by cross-multiplication on positive sides).
proof fn lemma_ratio_total(a: AspectRatio, b: AspectRatio)
    ensures
        ratio_le(a, b) || ratio_le(b, a),
{
    assert(a.w * b.h <= b.w * a.h || b.w * a.h <= a.w * b.h) by (nonlinear_arith);
}

/// Compares two ratios exactly.
fn ratio_le_exec(a: AspectRatio, b: AspectRatio) -> (r: bool)
    requires
        a.wf(),
        b.wf(),
    ensures
        r == ratio_le(a, b),
{
    proof {
        lemma_mul_in_range(a.w as int, b.h as int, MAX_DIM as int, MAX_DIM as int);
        lemma_mul_in_range(b.w as int, a.h as int, MAX_DIM as int, MAX_DIM as int);
    }
    (a.w as u64) * (b.h as u64) <= (b.w as u64) * (a.h as u64)
}

/// Sorts aspect ratios by the ratio order: the result is sorted and holds
/// exactly the input's ratios (as a multiset).
pub fn sort_ratios(input: Vec<AspectRatio>) -> (r: Vec<AspectRatio>)
    requires
        forall|i: int| 0 <= i < input@.len() ==> (#[trigger] input@[i]).wf(),
    ensures
        ratio_sorted(r@),
        r@.to_multiset() == input@.to_multiset(),
        r@.len() == input@.len(),
        forall|i: int| 0 <= i < r@.len() ==> (#[trigger] r@[i]).wf(),
{
    let ghost all = input@;
    let mut rest = input;
    let mut out: Vec<AspectRatio> = Vec::new();
    while rest.len() > 0
        invariant
            ratio_sorted(out@),
            out@.to_multiset().add(rest@.to_multiset()) == all.to_multiset(),
            forall|i: int| 0 <= i < out@.len() ==> (#[trigger] out@[i]).wf(),
            forall|i: int| 0 <= i < rest@.len() ==> (#[trigger] rest@[i]).wf(),
        decreases rest@.len(),
    {
        let ghost rest_before = rest@;
        let x = rest.remove(0);
        proof {
            assert(rest_before =~= rest@.insert(0, x));
            to_multiset_insert(rest@, 0, x);
        }
        // insertion position: the first index whose ratio exceeds x
        let mut pos: usize = 0;
        while pos < out.len() && ratio_le_exec(out[pos], x)
            invariant
                pos <= out@.len(),
                forall|i: int| 0 <= i < pos ==> ratio_le(#[trigger] out@[i], x),
                ratio_sorted(out@),
                forall|i: int| 0 <= i < out@.len() ==> (#[trigger] out@[i]).wf(),
                x.wf(),
            decreases out@.len() - pos,
        {
            pos += 1;
        }
        proof {
            if pos < out@.len() {
                lemma_ratio_total(out@[pos as int], x);
            }
            assert forall|i: int| pos <= i < out@.len() implies ratio_le(
                x,
                #[trigger] out@[i],
            ) by {
                if pos < out@.len() {
                    assert(ratio_le(out@[pos as int], out@[i]));
                    assert(ratio_le(x, out@[pos as int]));
                    assert(x.w * out@[i].h <= out@[i].w * x.h) by (nonlinear_arith)
                        requires
                            x.w * out@[pos as int].h <= out@[pos as int].w * x.h,
                            out@[pos as int].w * out@[i].h <= out@[i].w * out@[pos as int].h,
                            0 < x.h,
                            0 < out@[pos as int].h,
                            0 < out@[i].h,
                            0 <= x.w,
                            0 <= out@[pos as int].w,
                            0 <= out@[i].w,
                    ;
                }
            }
        }
        let ghost out_before = out@;
        out.insert(pos, x);
        proof {
            assert(out@ =~= out_before.insert(pos as int, x));
            to_multiset_insert(out_before, pos as int, x);
            assert(out@.to_multiset().add(rest@.to_multiset()) =~= all.to_multiset());
            assert forall|i: int, j: int| 0 <= i <= j < out@.len() implies ratio_le(
                #[trigger] out@[i],
                #[trigger] out@[j],
            ) by {
                lemma_ratio_total(out@[i], out@[j]);
            }
        }
    }
    proof {
        assert(rest@ =~= Seq::<AspectRatio>::empty());
        assert(out@.to_multiset() =~= all.to_multiset());
        vstd::seq_lib::to_multiset_len(out@);
        vstd::seq_lib::to_multiset_len(all);
    }
    out
}

} // verus!

verus! {

/// A nonnegative rational with a positive denominator, for layout ratios.
#[derive(Clone, Copy, Debug, PartialEq, Eq, Structural)]
pub struct Ratio64 {
    /// Numerator.
    pub num: u64,
    /// Denominator.
    pub den: u64,
}

impl Ratio64 {
    /// Positive and small enough for layout arithmetic.
    pub open spec fn wf(self) -> bool {
        0 < self.num <= 0x800_0000 && 0 < self.den <= 0x800_0000
    }
}

/// The median of a ratio-sorted sequence: the middle element when the length
/// is odd, the average of the two middle elements when it is even.
pub open spec fn median_ratio(s: Seq<AspectRatio>) -> Ratio64 {
    if s.len() % 2 == 1 {
        Ratio64 { num: s[s.len() as int / 2].w as u64, den: s[s.len() as int / 2].h as u64 }
    } else {
        let a = s[s.len() as int / 2 - 1];
        let b = s[s.len() as int / 2];
        Ratio64 { num: (a.w * b.h + b.w * a.h) as u64, den: (2 * (a.h * b.h)) as u64 }
    }
}

/// The median of a batch of aspect ratios and its count: `None` when the
/// batch is empty; otherwise the median of a ratio-sorted arrangement of
/// exactly the given ratios.
pub fn median_of_ratios(ratios: Vec<AspectRatio>) -> (r: Option<(Ratio64, usize)>)
    requires
        forall|i: int| 0 <= i < ratios@.len() ==> (#[trigger] ratios@[i]).wf(),
    ensures
        r is Some <==> ratios@.len() > 0,
        r matches Some((m, n)) ==> n == ratios@.len() && m.wf() && exists|s: Seq<AspectRatio>|
            ratio_sorted(s) && #[trigger] s.to_multiset() == ratios@.to_multiset() && s.len()
                == ratios@.len() && m == median_ratio(s),
{
    let ghost input = ratios@;
    let n = ratios.len();
    if n == 0 {
        return None;
    }
    let sorted = sort_ratios(ratios);
    let m: Ratio64 = if n % 2 == 1 {
        let mid = sorted[n / 2];
        Ratio64 { num: mid.w as u64, den: mid.h as u64 }
    } else {
        let a = sorted[n / 2 - 1];
        let b = sorted[n / 2];
        proof {
            lemma_mul_in_range(a.w as int, b.h as int, MAX_DIM as int, MAX_DIM as int);
            lemma_mul_in_range(b.w as int, a.h as int, MAX_DIM as int, MAX_DIM as int);
            lemma_mul_in_range(a.h as int, b.h as int, MAX_DIM as int, MAX_DIM as int);
            assert(a.w * b.h + b.w * a.h > 0) by (nonlinear_arith)
                requires
                    a.w > 0,
                    b.h > 0,
                    b.w >= 0,
                    a.h >= 0,
            ;
            assert(a.h * b.h > 0) by (nonlinear_arith)
                requires
                    a.h > 0,
                    b.h > 0,
            ;
        }
        let num: u64 = (a.w as u64) * (b.h as u64) + (b.w as u64) * (a.h as u64);
        let den: u64 = 2 * ((a.h as u64) * (b.h as u64));
        Ratio64 { num, den }
    };
    proof {
        let s = sorted@;
        assert(ratio_sorted(s) && s.to_multiset() == input.to_multiset() && s.len() == input.len()
            && m == median_ratio(s));
    }
    Some((m, n))
}

/// A fractional viewport size, fixed-point pixels.
#[derive(Clone, Copy, Debug, PartialEq, Eq, Structural)]
pub struct ViewportSize {
    /// Width, fixed-point pixels.
    pub width: i64,
    /// Height, fixed-point pixels.
    pub height: i64,
}

/// Largest admissible fixed-point panel coordinate.
pub const PANEL_BOUND: i64 = 0x10_00_0000;

impl ViewportSize {
    /// Nonnegative and within the panel range.
    pub open spec fn wf(self) -> bool {
        0 <= self.width <= PANEL_BOUND && 0 <= self.height <= PANEL_BOUND
    }

    /// The whole-pixel image size, as a value.
    pub open spec fn image_size_spec(self) -> ImageSize {
        ImageSize {
            width: crate::geom::clamp_pos((self.width + FX - 1) as int / FX as int, MAX_DIM as int) as usize,
            height: crate::geom::clamp_pos(
                (self.height + FX - 1) as int / FX as int,
                MAX_DIM as int,
            ) as usize,
        }
    }

    /// The whole-pixel image size covering this viewport: dimensions rounded
    /// up and clamped into `1 ..= MAX_DIM`.
    pub fn image_size(&self) -> (r: ImageSize)
        requires
            self.wf(),
        ensures
            r.wf(),
            r.width as int == crate::geom::clamp_pos((self.width as int + FX - 1) / FX as int, MAX_DIM as int),
            r.height as int == crate::geom::clamp_pos(
                (self.height as int + FX - 1) / FX as int,
                MAX_DIM as int,
            ),
            r == self.image_size_spec(),
    {
        let w: i64 = (self.width + FX - 1) / FX;
        let h: i64 = (self.height + FX - 1) / FX;
        let wc: usize = if w < 1 {
            1
        } else if w > MAX_DIM as i64 {
            MAX_DIM
        } else {
            w as usize
        };
        let hc: usize = if h < 1 {
            1
        } else if h > MAX_DIM as i64 {
            MAX_DIM
        } else {
            h as usize
        };
        ImageSize { width: wc, height: hc }
    }
}

/// `num * x / den`, clamped into the panel range; the layout building block.
pub open spec fn ratio_scale(x: int, num: int, den: int) -> int {
    if tdiv(x * num, den) < 0 {
        0
    } else if tdiv(x * num, den) > PANEL_BOUND as int {
        PANEL_BOUND as int
    } else {
        tdiv(x * num, den)
    }
}

/// Executable `ratio_scale`.
fn ratio_scale_exec(x: i64, num: u64, den: u64) -> (r: i64)
    requires
        0 <= x <= PANEL_BOUND,
        0 < num <= 0x800_0000,
        0 < den <= 0x800_0000,
    ensures
        r == ratio_scale(x as int, num as int, den as int),
        0 <= r <= PANEL_BOUND,
{
    proof {
        lemma_mul_in_range(x as int, num as int, PANEL_BOUND as int, 0x800_0000);
        crate::fixed::lemma_mul_nonneg(x as int, num as int);
        assert((x as int * num as int) / (den as int) >= 0) by (nonlinear_arith)
            requires
                x as int * num as int >= 0,
                den > 0,
        ;
    }
    let q: i128 = ((x as i128) * (num as i128)) / (den as i128);
    if q > PANEL_BOUND as i128 {
        PANEL_BOUND
    } else {
        q as i64
    }
}

/// The size a view of aspect ratio `ratio` takes inside a cell of
/// `max_width x max_height`: the largest size of that ratio that fits.
pub fn get_adjusted_view_size(ratio: Ratio64, max_width: i64, max_height: i64) -> (r: ViewportSize)
    requires
        ratio.wf(),
        0 <= max_width <= PANEL_BOUND,
        0 <= max_height <= PANEL_BOUND,
    ensures
        r.wf(),
        r.width as int == if ratio_scale(max_height as int, ratio.num as int, ratio.den as int)
            < max_width {
            ratio_scale(max_height as int, ratio.num as int, ratio.den as int)
        } else {
            max_width as int
        },
        r.height as int == if ratio_scale(max_width as int, ratio.den as int, ratio.num as int)
            < max_height {
            ratio_scale(max_width as int, ratio.den as int, ratio.num as int)
        } else {
            max_height as int
        },
    {
    let w_fit = ratio_scale_exec(max_height, ratio.num, ratio.den);
    let h_fit = ratio_scale_exec(max_width, ratio.den, ratio.num);
    let width = if w_fit < max_width {
        w_fit
    } else {
        max_width
    };
    let height = if h_fit < max_height {
        h_fit
    } else {
        max_height
    };
    ViewportSize { width, height }
}

/// The cell size considered for a column count: split the width into `cols`
/// columns, fit the median ratio, never exceed the height split into the
/// rows that `n` views need at that column count.
pub open spec fn cell_for_cols(median: Ratio64, n: int, aw: int, ah: int, cols: int) -> (int, int) {
    let rows = (n + cols - 1) / cols;
    let w0 = aw / cols;
    let h_by_w = ratio_scale(w0, median.den as int, median.num as int);
    let h_by_rows = ah / rows;
    let h = if h_by_w < h_by_rows {
        h_by_w
    } else {
        h_by_rows
    };
    let w = ratio_scale(h, median.num as int, median.den as int);
    (w, h)
}

/// The widest cell among column counts `1 ..= c`.
pub open spec fn best_cell(median: Ratio64, n: int, aw: int, ah: int, c: int) -> (int, int)
    decreases c,
{
    if c <= 0 {
        (0, 0)
    } else {
        let prev = best_cell(median, n, aw, ah, c - 1);
        let cand = cell_for_cols(median, n, aw, ah, c);
        if cand.0 > prev.0 {
            cand
        } else {
            prev
        }
    }
}

/// The largest cell of the median aspect ratio that lets `n` views share the
/// available panel, over every column count.
pub fn get_max_size(median: Ratio64, n: usize, available_width: i64, available_height: i64) -> (r: (
    i64,
    i64,
))
    requires
        median.wf(),
        0 < n <= 4096,
        0 <= available_width <= PANEL_BOUND,
        0 <= available_height <= PANEL_BOUND,
    ensures
        (r.0 as int, r.1 as int) == best_cell(
            median,
            n as int,
            available_width as int,
            available_height as int,
            n as int,
        ),
        0 <= r.0 <= PANEL_BOUND,
        0 <= r.1 <= PANEL_BOUND,
{
    let mut best_w: i64 = 0;
    let mut best_h: i64 = 0;
    let mut cols: usize = 1;
    while cols <= n
        invariant
            median.wf(),
            0 < n <= 4096,
            0 <= available_width <= PANEL_BOUND,
            0 <= available_height <= PANEL_BOUND,
            1 <= cols <= n + 1,
            (best_w as int, best_h as int) == best_cell(
                median,
                n as int,
                available_width as int,
                available_height as int,
                cols - 1,
            ),
            0 <= best_w <= PANEL_BOUND,
            0 <= best_h <= PANEL_BOUND,
        decreases n + 1 - cols,
    {
        let rows: usize = (n + cols - 1) / cols;
        proof {
            assert(rows >= 1) by (nonlinear_arith)
                requires
                    rows == (n as int + cols as int - 1) / (cols as int),
                    n >= 1,
                    cols >= 1,
            ;
        }
        let w0: i64 = available_width / (cols as i64);
        proof {
            assert(0 <= available_width as int / (cols as int) <= available_width as int)
                by (nonlinear_arith)
                requires
                    available_width >= 0,
                    cols >= 1,
            ;
            assert(0 <= available_height as int / (rows as int) <= available_height as int)
                by (nonlinear_arith)
                requires
                    available_height >= 0,
                    rows >= 1,
            ;
        }
        let h_by_w = ratio_scale_exec(w0, median.den, median.num);
        let h_by_rows: i64 = available_height / (rows as i64);
        let h = if h_by_w < h_by_rows {
            h_by_w
        } else {
            h_by_rows
        };
        let w = ratio_scale_exec(h, median.num, median.den);
        if w > best_w {
            best_w = w;
            best_h = h;
        }
        cols += 1;
    }
    (best_w, best_h)
}

} // verus!

verus! {

/// A 3D scene view: an orbital camera over retained 3D content, with an
/// optional lock to the bird's-eye orientation and a world-from-scene
/// reference pose that packets may overwrite.
pub struct SceneView {
    /// The view's renderer.
    pub renderer: OffscreenRenderer,
    /// The view's interaction state (always orbital).
    pub interaction: InteractionEnum,
    /// Whether the view is drawn.
    pub enabled: bool,
    /// Whether the view is locked to the bird's-eye orientation.
    pub locked_to_birds_eye_orientation: bool,
    /// The world-from-scene reference pose.
    pub world_from_scene: Pose,
}

impl SceneView {
    /// Renderer and interaction well-formed; the interaction is orbital.
    pub open spec fn wf(&self) -> bool {
        self.renderer.wf() && self.interaction.wf() && self.interaction is Orbital
            && self.world_from_scene.bounded()
    }
}

/// A 2D-primary image view: an in-plane camera over a background frame plus
/// retained 2D and 3D content. Content only sticks once a frame exists.
pub struct ImageView {
    /// The view's renderer.
    pub renderer: OffscreenRenderer,
    /// The view's interaction state (always in-plane).
    pub interaction: InteractionEnum,
    /// Whether the view is drawn.
    pub enabled: bool,
    /// Whether this view has ever received a frame.
    pub has_frame: bool,
}

impl ImageView {
    /// Renderer and interaction well-formed; the interaction is in-plane.
    pub open spec fn wf(&self) -> bool {
        self.renderer.wf() && self.interaction.wf() && self.interaction is InPlane
    }
}

/// One named view of the viewer.
pub enum PanelView {
    /// A 3D scene view.
    Scene(SceneView),
    /// A 2D-primary image view.
    Image(ImageView),
}

impl PanelView {
    /// The variant's well-formedness.
    pub open spec fn wf(&self) -> bool {
        match self {
            PanelView::Scene(v) => v.wf(),
            PanelView::Image(v) => v.wf(),
        }
    }

    /// Whether the view is drawn.
    pub fn enabled(&self) -> (r: bool)
        ensures
            r == self.enabled_spec(),
    {
        match self {
            PanelView::Scene(v) => v.enabled,
            PanelView::Image(v) => v.enabled,
        }
    }

    /// Whether the view is drawn, as a value.
    pub open spec fn enabled_spec(&self) -> bool {
        match self {
            PanelView::Scene(v) => v.enabled,
            PanelView::Image(v) => v.enabled,
        }
    }

    /// Mutable access to the enabled flag; nothing else changes.
    pub fn enabled_mut(&mut self) -> (r: &mut bool)
        ensures
            *r == old(self).enabled_spec(),
            final(self).enabled_spec() == *final(r),
            final(self).wf() == old(self).wf(),
            final(self).aspect_ratio_spec() == old(self).aspect_ratio_spec(),
    {
        match self {
            PanelView::Scene(v) => &mut v.enabled,
            PanelView::Image(v) => &mut v.enabled,
        }
    }

    /// The aspect ratio of the view's camera image.
    pub fn aspect_ratio(&self) -> (r: AspectRatio)
        ensures
            r == self.aspect_ratio_spec(),
    {
        let s = match self {
            PanelView::Scene(v) => v.renderer.camera_properties.intrinsics.image_size(),
            PanelView::Image(v) => v.renderer.camera_properties.intrinsics.image_size(),
        };
        AspectRatio { w: s.width, h: s.height }
    }

    /// The aspect ratio, as a value.
    pub open spec fn aspect_ratio_spec(&self) -> AspectRatio {
        let s = match self {
            PanelView::Scene(v) => v.renderer.camera_properties.intrinsics.image_size_spec(),
            PanelView::Image(v) => v.renderer.camera_properties.intrinsics.image_size_spec(),
        };
        AspectRatio { w: s.width, h: s.height }
    }
}

/// Every view in a table is well-formed.
pub open spec fn views_wf(t: &RetainedTable<PanelView>) -> bool {
    t.wf() && forall|k: Seq<char>| t@.contains_key(k) ==> (#[trigger] t@[k]).wf()
}

/// A scene view packet is admissible: camera well-formed, every renderable
/// in range, any pose update in range.
pub open spec fn scene_packet_wf(p: &SceneViewPacket) -> bool {
    &&& p.initial_camera.wf()
    &&& forall|i: int| 0 <= i < p.scene_renderables@.len() ==> (#[trigger] p.scene_renderables@[i]).wf()
    &&& match p.world_from_scene_update {
        Some(w) => w.bounded(),
        None => true,
    }
}

impl SceneView {
    /// Routes one scene packet: creates the named view on first sight using
    /// the packet's initial camera (ignored thereafter), optionally
    /// overwrites the world-from-scene pose, and upserts the packet's 3D
    /// renderables into the view's retained tables. A label already bound to
    /// an image view drops the packet.
    #[verifier::rlimit(100)]
    pub fn update(views: &mut RetainedTable<PanelView>, packet: SceneViewPacket)
        requires
            views_wf(old(views)),
            scene_packet_wf(&packet),
        ensures
            views_wf(final(views)),
            scene_packet_routes(
                old(views)@,
                old(views).order(),
                packet,
                final(views)@,
                final(views).order(),
            ),
    {
        let ghost gp = packet;
        let ghost pre_m = views@;
        let ghost pre_o = views.order();
        match views.index_of(&packet.view_label) {
            None => {
                let mut renderer = OffscreenRenderer::new(&packet.initial_camera.properties);
                renderer.update_3d_renderables(packet.scene_renderables);
                let interaction = InteractionEnum::Orbital(
                    OrbitalInteraction::new(
                        packet.initial_camera.scene_from_camera,
                        packet.initial_camera.properties.clipping_planes,
                    ),
                );
                let world_from_scene = match packet.world_from_scene_update {
                    Some(w) => w,
                    None => Pose::identity(),
                };
                let sv = SceneView {
                    renderer,
                    interaction,
                    enabled: true,
                    locked_to_birds_eye_orientation: packet.locked_to_birds_eye_orientation,
                    world_from_scene,
                };
                views.insert(packet.view_label, PanelView::Scene(sv));
                proof {
                    assert forall|k: Seq<char>| views@.contains_key(k) implies (
                    #[trigger] views@[k]).wf() by {}
                    assert(views@.contains_key(gp.view_label@));
                    assert(views@ == pre_m.insert(gp.view_label@, views@[gp.view_label@]));
                    assert(views.order() == pre_o.push(gp.view_label@));
                    assert(scene_packet_routes(pre_m, pre_o, gp, views@, views.order()));
                }
            },
            Some(i) => {
                let v = views.value_at_mut(i);
                match v {
                    PanelView::Scene(sv) => {
                        if let Some(w) = packet.world_from_scene_update {
                            sv.world_from_scene = w;
                        }
                        sv.renderer.update_3d_renderables(packet.scene_renderables);
                    },
                    PanelView::Image(_) => {},
                }
                proof {
                    assert forall|k: Seq<char>| views@.contains_key(k) implies (
                    #[trigger] views@[k]).wf() by {}
                    if pre_m[gp.view_label@] is Image {
                        assert(views@ =~= pre_m);
                    }
                    assert(scene_packet_routes(pre_m, pre_o, gp, views@, views.order()));
                }
            },
        }
    }
}

} // verus!

verus! {

/// An image packet is admissible: any frame well-formed, every renderable
/// in range.
pub open spec fn image_packet_wf(p: &ImageViewPacket) -> bool {
    &&& match &p.frame {
        Some(fr) => fr.wf(),
        None => true,
    }
    &&& forall|i: int| 0 <= i < p.pixel_renderables@.len() ==> (#[trigger] p.pixel_renderables@[i]).wf()
    &&& forall|i: int| 0 <= i < p.scene_renderables@.len() ==> (#[trigger] p.scene_renderables@[i]).wf()
}

impl ImageView {
    /// Routes one image packet. A packet with a frame replaces the view's
    /// background and camera, deletes all previous content, and then adds
    /// this packet's content — afterwards exactly this packet's content is
    /// retained. A packet without a frame appends its content to the
    /// existing frame; if no frame was ever received for the label, the
    /// packet's content is dropped and nothing becomes visible. A label
    /// already bound to a scene view drops the packet.
    #[verifier::rlimit(100)]
    pub fn update(views: &mut RetainedTable<PanelView>, packet: ImageViewPacket)
        requires
            views_wf(old(views)),
            image_packet_wf(&packet),
        ensures
            views_wf(final(views)),
            image_packet_routes(
                old(views)@,
                old(views).order(),
                packet,
                final(views)@,
                final(views).order(),
            ),
    {
        let ghost gp = packet;
        let ghost pre_m = views@;
        let ghost pre_o = views.order();
        match views.index_of(&packet.view_label) {
            None => {
                match packet.frame {
                    Some(fr) => {
                        let mut renderer = OffscreenRenderer::new(&fr.camera_properties);
                        renderer.reset_2d_frame(&fr.camera_properties.intrinsics, fr.image);
                        renderer.update_2d_renderables(packet.pixel_renderables);
                        renderer.update_3d_renderables(packet.scene_renderables);
                        let interaction = InteractionEnum::InPlane(
                            InplaneInteraction::new(
                                Pose::identity(),
                                fr.camera_properties.clipping_planes,
                            ),
                        );
                        let iv = ImageView { renderer, interaction, enabled: true, has_frame: true };
                        views.insert(packet.view_label, PanelView::Image(iv));
                        proof {
                            assert forall|k: Seq<char>| views@.contains_key(k) implies (
                            #[trigger] views@[k]).wf() by {}
                            assert(image_packet_routes(pre_m, pre_o, gp, views@, views.order()));
                        }
                    },
                    None => {
                        proof {
                            assert(image_packet_routes(pre_m, pre_o, gp, views@, views.order()));
                        }
                    },
                }
            },
            Some(i) => {
                let v = views.value_at_mut(i);
                match v {
                    PanelView::Image(iv) => {
                        match packet.frame {
                            Some(fr) => {
                                iv.renderer.reset_2d_frame(
                                    &fr.camera_properties.intrinsics,
                                    fr.image,
                                );
                                iv.renderer.pixel = crate::renderer::PixelRenderer::new();
                                iv.renderer.scene = crate::pipeline::SceneRenderer::new();
                                iv.renderer.update_2d_renderables(packet.pixel_renderables);
                                iv.renderer.update_3d_renderables(packet.scene_renderables);
                                iv.has_frame = true;
                            },
                            None => {
                                if iv.has_frame {
                                    iv.renderer.update_2d_renderables(packet.pixel_renderables);
                                    iv.renderer.update_3d_renderables(packet.scene_renderables);
                                }
                            },
                        }
                    },
                    PanelView::Scene(_) => {},
                }
                proof {
                    assert forall|k: Seq<char>| views@.contains_key(k) implies (
                    #[trigger] views@[k]).wf() by {}
                    if pre_m[gp.view_label@] is Scene {
                        assert(views@ =~= pre_m);
                    }
                    if pre_m[gp.view_label@] matches PanelView::Image(pv) && !pv.has_frame
                        && gp.frame is None {
                        assert(views@ =~= pre_m);
                    }
                    assert(image_packet_routes(pre_m, pre_o, gp, views@, views.order()));
                }
            },
        }
    }
}

} // verus!

verus! {

/// What the viewer publishes about the currently active view.
pub struct ActiveViewInfo {
    /// Name of the active view.
    pub active_view: String,
    /// Its scene-from-camera pose.
    pub scene_from_camera: Pose,
    /// Its camera properties.
    pub camera_properties: RenderCameraProperties,
    /// Its focus marker.
    pub scene_focus: SceneFocusMarker,
    /// "scene" or "image".
    pub view_type: String,
    /// Its viewport size.
    pub view_port_size: ImageSize,
    /// Whether it is locked to the bird's-eye orientation.
    pub locked_to_birds_eye_view: bool,
}

/// One laid-out, freshly rendered view: what the shell blits to the screen.
pub struct ViewFrame {
    /// The view's name.
    pub view_label: String,
    /// The fractional viewport the layout granted.
    pub viewport: ViewportSize,
    /// The rendered output.
    pub result: RenderResult,
    /// The scale from viewport to camera image coordinates.
    pub scales: ViewportScale,
}

/// The viewer: the named views, the packets routed past the render core, the
/// settings toggles and the active-view bookkeeping. One render call per
/// view per frame tick; all mutation happens on this single thread.
pub struct ViewerBase {
    /// The named views, in creation order.
    pub views: RetainedTable<PanelView>,
    /// Plot packets routed past the render core, for the plotting sibling.
    pub plots: Vec<crate::plots::PlotViewPacket>,
    /// Show the false-color depth visualization instead of the color image.
    pub show_depth: bool,
    /// Backface culling toggle.
    pub backface_culling: bool,
    /// The label of the view owning the live interaction.
    pub active_view: String,
    /// What is known about the active view.
    pub active_view_info: Option<ActiveViewInfo>,
}

/// The plot packets of a batch, in order: what the router passes through
/// untouched for the plotting sibling.
pub open spec fn plots_of(packets: Seq<Packet>) -> Seq<crate::plots::PlotViewPacket>
    decreases packets.len(),
{
    if packets.len() == 0 {
        Seq::empty()
    } else {
        plots_of(packets.drop_last()) + (match packets.last() {
            Packet::Plot(ps) => ps@,
            _ => Seq::empty(),
        })
    }
}

/// A batch of packets is admissible.
pub open spec fn packets_wf(packets: &Packets) -> bool {
    forall|i: int|
        0 <= i < packets.packets@.len() ==> match #[trigger] packets.packets@[i] {
            Packet::Scene(p) => scene_packet_wf(&p),
            Packet::Image(p) => image_packet_wf(&p),
            Packet::Plot(_) => true,
        }
}

/// The viewport-to-image scale a view is driven with.
pub open spec fn scales_for(intr: RenderIntrinsics, vp: ImageSize) -> ViewportScale {
    ViewportScale { image_size: intr.image_size_spec(), view_port_size: vp }
}

/// Everything feeding one view one input frame does: the view's machine
/// steps by its full contract, its renderer and flags stay, every other view
/// stays — the whole per-view contract of `ViewerBase::process_view_event`,
/// as one predicate.
pub open spec fn view_event_step(
    pre_m: Map<Seq<char>, PanelView>,
    pre_o: Seq<Seq<char>>,
    label: Seq<char>,
    event: InputEvent,
    vp: ImageSize,
    zb: DepthImage,
    post_m: Map<Seq<char>, PanelView>,
    post_o: Seq<Seq<char>>,
    r: Option<RotationRequest>,
) -> bool {
    &&& post_o == pre_o
    &&& (!pre_m.contains_key(label) ==> post_m == pre_m && r is None)
    &&& (pre_m.contains_key(label) ==> {
        &&& post_m.contains_key(label)
        &&& post_m == pre_m.insert(label, post_m[label])
        &&& (pre_m[label] matches PanelView::Scene(pv) ==> (post_m[label] matches
            PanelView::Scene(qv) && qv.renderer == pv.renderer && qv.enabled == pv.enabled
            && qv.locked_to_birds_eye_orientation == pv.locked_to_birds_eye_orientation
            && qv.world_from_scene == pv.world_from_scene && (pv.interaction matches
            InteractionEnum::Orbital(oi) && (qv.interaction matches InteractionEnum::Orbital(oq)
            && crate::interactions::orbital_step(
            oi,
            pv.renderer.camera_properties.intrinsics,
            event,
            scales_for(pv.renderer.camera_properties.intrinsics, vp),
            zb,
            oq,
            r,
        )))))
        &&& (pre_m[label] matches PanelView::Image(pv) ==> (post_m[label] matches
            PanelView::Image(qv) && qv.renderer == pv.renderer && qv.enabled == pv.enabled
            && qv.has_frame == pv.has_frame && (pv.interaction matches InteractionEnum::InPlane(pi)
            && (qv.interaction matches InteractionEnum::InPlane(qi)
            && crate::interactions::inplane_event_step(
            pi,
            event,
            scales_for(pv.renderer.camera_properties.intrinsics, vp),
            qi,
            r,
        )))))
    })
}

/// Everything handing one view one shell rotation does: a scene view takes
/// the exact orbit step; an image view takes the exact roll step when the
/// matrix is an in-plane rotation and is left untouched otherwise.
pub open spec fn view_rotation_step(
    pre_m: Map<Seq<char>, PanelView>,
    pre_o: Seq<Seq<char>>,
    label: Seq<char>,
    dr: Mat3,
    pivot: V3,
    post_m: Map<Seq<char>, PanelView>,
    post_o: Seq<Seq<char>>,
) -> bool {
    &&& post_o == pre_o
    &&& (!pre_m.contains_key(label) ==> post_m == pre_m)
    &&& (pre_m.contains_key(label) ==> {
        &&& post_m.contains_key(label)
        &&& post_m == pre_m.insert(label, post_m[label])
        &&& (pre_m[label] matches PanelView::Scene(pv) ==> (post_m[label] matches
            PanelView::Scene(qv) && qv.renderer == pv.renderer && qv.enabled == pv.enabled
            && qv.locked_to_birds_eye_orientation == pv.locked_to_birds_eye_orientation
            && qv.world_from_scene == pv.world_from_scene
            && crate::interactions::rotation_step(pv.interaction, dr, pivot, qv.interaction)))
        &&& (pre_m[label] matches PanelView::Image(pv) ==> (post_m[label] matches
            PanelView::Image(qv) && qv.renderer == pv.renderer && qv.enabled == pv.enabled
            && qv.has_frame == pv.has_frame && (if rotz_form(dr) {
            crate::interactions::rotation_step(pv.interaction, dr, pivot, qv.interaction)
        } else {
            qv.interaction == pv.interaction
        })))
    })
}

/// The names of the first `n` views that are enabled, in table order.
pub open spec fn enabled_keys(t: RetainedTable<PanelView>, n: int) -> Seq<Seq<char>>
    decreases n,
{
    if n <= 0 {
        Seq::empty()
    } else {
        let prev = enabled_keys(t, n - 1);
        if t@[t.order()[n - 1]].enabled_spec() {
            prev.push(t.order()[n - 1])
        } else {
            prev
        }
    }
}

/// The aspect ratios of the first `n` views that are enabled, in table
/// order.
pub open spec fn enabled_ratios(t: RetainedTable<PanelView>, n: int) -> Seq<AspectRatio>
    decreases n,
{
    if n <= 0 {
        Seq::empty()
    } else {
        let prev = enabled_ratios(t, n - 1);
        let v = t@[t.order()[n - 1]];
        if v.enabled_spec() {
            prev.push(v.aspect_ratio_spec())
        } else {
            prev
        }
    }
}

/// Marks one render request for the prover: the witness of a performed
/// render call.
pub open spec fn builder_link(pb: crate::renderer::RenderBuilder) -> bool {
    true
}

/// One laid-out, rendered frame of the central panel: it belongs to the
/// named enabled view, whose renderer performed one render call with that
/// view's pose, pan/zoom and marker, the two viewer toggles, and the
/// viewport the layout granted; the frame carries that call's downloads.
pub open spec fn panel_frame_ok(
    pre_m: Map<Seq<char>, PanelView>,
    post_m: Map<Seq<char>, PanelView>,
    label: Seq<char>,
    frame: ViewFrame,
    culling: bool,
    show_depth: bool,
) -> bool {
    &&& frame.view_label@ == label
    &&& pre_m.contains_key(label)
    &&& post_m.contains_key(label)
    &&& frame.viewport.wf()
    &&& frame.result.rgba_image is Some
    &&& exists|pb: crate::renderer::RenderBuilder|
        {
            &&& #[trigger] builder_link(pb)
            &&& crate::renderer::render_performed(
                panel_view_renderer(pre_m[label]),
                pb,
                panel_view_renderer(post_m[label]),
                frame.result,
            )
            &&& pb.view_port_size == frame.viewport.image_size_spec()
            &&& pb.scene_from_camera == panel_view_interaction(pre_m[label]).pose_spec()
            &&& pb.zoom == panel_view_interaction(pre_m[label]).zoom2d_spec()
            &&& pb.maybe_marker == panel_view_interaction(pre_m[label]).marker_spec()
            &&& pb.backface_culling == culling
            &&& pb.compute_depth_texture == show_depth
            &&& pb.download_rgba
        }
    &&& frame.scales == scales_for(
        panel_view_renderer(pre_m[label]).camera_properties.intrinsics,
        frame.viewport.image_size_spec(),
    )
}

/// Every enabled key of the first `n` views is one of the first `n` order
/// entries.
proof fn lemma_enabled_keys_mem(t: RetainedTable<PanelView>, n: int, j: int)
    requires
        0 <= j < enabled_keys(t, n).len(),
        0 <= n,
    ensures
        exists|idx: int| 0 <= idx < n && enabled_keys(t, n)[j] == #[trigger] t.order()[idx],
    decreases n,
{
    if n > 0 {
        if t@[t.order()[n - 1]].enabled_spec() && j == enabled_keys(t, n).len() - 1 {
            assert(enabled_keys(t, n)[j] == t.order()[n - 1]);
        } else {
            lemma_enabled_keys_mem(t, n - 1, j);
            let idx = choose|idx: int|
                0 <= idx < n - 1 && enabled_keys(t, n - 1)[j] == #[trigger] t.order()[idx];
            assert(enabled_keys(t, n)[j] == t.order()[idx]);
        }
    }
}

/// A view's renderer, whichever kind it is.
pub open spec fn panel_view_renderer(v: PanelView) -> OffscreenRenderer {
    match v {
        PanelView::Scene(sv) => sv.renderer,
        PanelView::Image(iv) => iv.renderer,
    }
}

/// A view's interaction, whichever kind it is.
pub open spec fn panel_view_interaction(v: PanelView) -> InteractionEnum {
    match v {
        PanelView::Scene(sv) => sv.interaction,
        PanelView::Image(iv) => iv.interaction,
    }
}

impl ViewerBase {
    /// All views well-formed.
    pub open spec fn wf(&self) -> bool {
        views_wf(&self.views)
    }

    /// A fresh viewer with no views.
    pub fn new() -> (r: ViewerBase)
        ensures
            r.wf(),
            r.views@ == Map::<Seq<char>, PanelView>::empty(),
            r.views.order() == Seq::<Seq<char>>::empty(),
            r.active_view_info is None,
            !r.show_depth,
            !r.backface_culling,
            r.active_view@ == Seq::<char>::empty(),
            r.plots@ == Seq::<crate::plots::PlotViewPacket>::empty(),
    {
        ViewerBase {
            views: RetainedTable::new(),
            plots: Vec::new(),
            show_depth: false,
            backface_culling: false,
            active_view: String::new(),
            active_view_info: None,
        }
    }

    /// Drains one batch of packets into the retained tables: scene and image
    /// packets are routed to their views (created on first sight), plot
    /// packets are passed through untouched for the plotting sibling.
    pub fn update_data(&mut self, packets: Packets)
        requires
            old(self).wf(),
            packets_wf(&packets),
        ensures
            final(self).wf(),
            final(self).plots@ == old(self).plots@ + plots_of(packets.packets@),
            packets_routed(
                old(self).views@,
                old(self).views.order(),
                packets.packets@,
                final(self).views@,
                final(self).views.order(),
            ),
    {
        let ghost all = packets.packets@;
        let mut rest = packets.packets;
        while rest.len() > 0
            invariant
                self.wf(),
                rest@.len() <= all.len(),
                rest@ == all.subrange(all.len() - rest@.len(), all.len() as int),
                self.plots@ == old(self).plots@ + plots_of(
                    all.subrange(0, all.len() - rest@.len()),
                ),
                packets_routed(
                    old(self).views@,
                    old(self).views.order(),
                    all.subrange(0, all.len() - rest@.len()),
                    self.views@,
                    self.views.order(),
                ),
                forall|i: int|
                    0 <= i < all.len() ==> match #[trigger] all[i] {
                        Packet::Scene(p) => scene_packet_wf(&p),
                        Packet::Image(p) => image_packet_wf(&p),
                        Packet::Plot(_) => true,
                    },
            decreases rest@.len(),
        {
            let ghost j = all.len() - rest@.len();
            let packet = rest.remove(0);
            proof {
                assert(all.subrange(j as int, all.len() as int)[0] == all[j as int]);
                assert(rest@ =~= all.subrange(j + 1, all.len() as int));
                assert(all.subrange(0, j + 1).drop_last() =~= all.subrange(0, j as int));
                assert(all.subrange(0, j + 1).last() == all[j as int]);
            }
            let ghost mid_m = self.views@;
            let ghost mid_o = self.views.order();
            match packet {
                Packet::Scene(p) => SceneView::update(&mut self.views, p),
                Packet::Image(p) => ImageView::update(&mut self.views, p),
                Packet::Plot(mut ps) => self.plots.append(&mut ps),
            }
            proof {
                assert(self.plots@ =~= old(self).plots@ + plots_of(all.subrange(0, j + 1)));
                assert(packet_routes(mid_m, mid_o, all[j as int], self.views@, self.views.order()));
                assert(packets_routed(
                    old(self).views@,
                    old(self).views.order(),
                    all.subrange(0, j + 1),
                    self.views@,
                    self.views.order(),
                ));
            }
        }
        proof {
            assert(all.subrange(0, all.len() as int) =~= all);
        }
    }

    /// The median aspect ratio of the enabled views and their count: `None`
    /// exactly when no view is enabled; otherwise the median of a
    /// ratio-sorted arrangement of exactly the enabled views' ratios, and
    /// their number.
    pub fn get_median_aspect_ratio_and_num(&self) -> (r: Option<(Ratio64, usize)>)
        requires
            self.wf(),
        ensures
            r is Some <==> enabled_ratios(self.views, self.views.order().len() as int).len() > 0,
            r matches Some((m, n)) ==> m.wf() && 0 < n <= self.views.order().len() && n
                == enabled_ratios(self.views, self.views.order().len() as int).len() && exists|
                sorted: Seq<AspectRatio>,
            |
                ratio_sorted(sorted) && #[trigger] sorted.to_multiset() == enabled_ratios(
                    self.views,
                    self.views.order().len() as int,
                ).to_multiset() && sorted.len() == n && m == median_ratio(sorted),
    {
        let total = self.views.len();
        let mut ratios: Vec<AspectRatio> = Vec::new();
        let mut i: usize = 0;
        while i < total
            invariant
                self.wf(),
                total == self.views.order().len(),
                i <= total,
                ratios@.len() <= i,
                ratios@ == enabled_ratios(self.views, i as int),
                forall|j: int| 0 <= j < ratios@.len() ==> (#[trigger] ratios@[j]).wf(),
            decreases total - i,
        {
            let v = self.views.value_at(i);
            if v.enabled() {
                let ar = v.aspect_ratio();
                proof {
                    assert(self.views@[self.views.order()[i as int]].wf());
                }
                ratios.push(ar);
            }
            i += 1;
        }
        let n = ratios.len();
        if n == 0 {
            return None;
        }
        match median_of_ratios(ratios) {
            Some((m, _)) => Some((m, n)),
            None => None,
        }
    }

    /// Feeds one view its input frame: the view's interaction machine runs
    /// on the event and the view's last depth image; a pointer over the view
    /// makes it the active view. Returns any rotation for the shell to
    /// perform on that view.
    pub fn process_view_event(
        &mut self,
        view_label: &String,
        event: &InputEvent,
        view_port_size: ImageSize,
        z_buffer: &DepthImage,
    ) -> (r: Option<RotationRequest>)
        requires
            old(self).wf(),
            event.wf(),
            view_port_size.wf(),
            z_buffer.wf(),
        ensures
            final(self).wf(),
            final(self).views.order() == old(self).views.order(),
            r matches Some(req) ==> req.pivot.bounded(),
            !old(self).views@.contains_key(view_label@) ==> final(self).views == old(self).views
                && final(self).active_view == old(self).active_view && r is None,
            old(self).views@.contains_key(view_label@) && event.pointer_pos is Some ==> final(self)
                .active_view@ == view_label@,
            view_event_step(
                old(self).views@,
                old(self).views.order(),
                view_label@,
                *event,
                view_port_size,
                *z_buffer,
                final(self).views@,
                final(self).views.order(),
                r,
            ),
    {
        let ghost pre_m = self.views@;
        let ghost pre_o = self.views.order();
        let idx = match self.views.index_of(view_label) {
            Some(i) => i,
            None => {
                return None;
            },
        };
        if event.pointer_pos.is_some() {
            self.active_view = view_label.clone();
        }
        let v = self.views.value_at_mut(idx);
        let req: Option<RotationRequest>;
        match v {
            PanelView::Scene(sv) => {
                let intr = sv.renderer.intrinsics();
                let scales = ViewportScale::from_image_size_and_viewport_size(
                    intr.image_size(),
                    view_port_size,
                );
                req = sv.interaction.process_event(&intr, event, &scales, z_buffer);
            },
            PanelView::Image(iv) => {
                let intr = iv.renderer.intrinsics();
                let scales = ViewportScale::from_image_size_and_viewport_size(
                    intr.image_size(),
                    view_port_size,
                );
                req = iv.interaction.process_event(&intr, event, &scales, z_buffer);
            },
        }
        proof {
            assert forall|k: Seq<char>| self.views@.contains_key(k) implies (
            #[trigger] self.views@[k]).wf() by {}
            assert(view_event_step(
                pre_m,
                pre_o,
                view_label@,
                *event,
                view_port_size,
                *z_buffer,
                self.views@,
                self.views.order(),
                req,
            ));
        }
        self.refresh_active_view_info(view_label, view_port_size);
        req
    }

    /// Recomputes the published active-view info for a view that just
    /// processed an event.
    fn refresh_active_view_info(&mut self, view_label: &String, view_port_size: ImageSize)
        requires
            old(self).wf(),
        ensures
            final(self).wf(),
            final(self).views == old(self).views,
            final(self).active_view == old(self).active_view,
    {
        let idx = match self.views.index_of(view_label) {
            Some(i) => i,
            None => {
                return ;
            },
        };
        let v = self.views.value_at(idx);
        let is_this_active = self.active_view == *view_label;
        match v {
            PanelView::Scene(sv) => {
                if sv.interaction.is_active() && is_this_active {
                    match sv.interaction.marker() {
                        Some(mk) => {
                            self.active_view_info = Some(
                                ActiveViewInfo {
                                    active_view: view_label.clone(),
                                    scene_from_camera: sv.interaction.scene_from_camera(),
                                    camera_properties: sv.renderer.camera_properties,
                                    scene_focus: mk,
                                    view_type: scene_view_type(),
                                    view_port_size,
                                    locked_to_birds_eye_view:
                                        sv.locked_to_birds_eye_orientation,
                                },
                            );
                        },
                        None => {},
                    }
                }
            },
            PanelView::Image(iv) => {
                if iv.interaction.is_active() && is_this_active {
                    match iv.interaction.marker() {
                        Some(mk) => {
                            self.active_view_info = Some(
                                ActiveViewInfo {
                                    active_view: view_label.clone(),
                                    scene_from_camera: iv.interaction.scene_from_camera(),
                                    camera_properties: iv.renderer.camera_properties,
                                    scene_focus: mk,
                                    view_type: image_view_type(),
                                    view_port_size,
                                    locked_to_birds_eye_view: false,
                                },
                            );
                        },
                        None => {},
                    }
                }
            },
        }
    }

    /// Hands a shell-computed rotation matrix back to a view: an orbit step
    /// for a scene view; for an image view the matrix must be an in-plane
    /// rotation, anything else is dropped.
    pub fn apply_view_rotation(&mut self, view_label: &String, dr: &Mat3, pivot: &V3)
        requires
            old(self).wf(),
            dr.bounded(),
            pivot.bounded(),
        ensures
            final(self).wf(),
            final(self).views.order() == old(self).views.order(),
            view_rotation_step(
                old(self).views@,
                old(self).views.order(),
                view_label@,
                *dr,
                *pivot,
                final(self).views@,
                final(self).views.order(),
            ),
    {
        let ghost pre_m = self.views@;
        let ghost pre_o = self.views.order();
        let idx = match self.views.index_of(view_label) {
            Some(i) => i,
            None => {
                return ;
            },
        };
        let v = self.views.value_at_mut(idx);
        match v {
            PanelView::Scene(sv) => {
                sv.interaction.apply_rotation(dr, pivot);
            },
            PanelView::Image(iv) => {
                if is_rotz_form(dr) {
                    iv.interaction.apply_rotation(dr, pivot);
                }
            },
        }
        proof {
            assert forall|k: Seq<char>| self.views@.contains_key(k) implies (
            #[trigger] self.views@[k]).wf() by {}
            if pre_m[view_label@] matches PanelView::Image(pv) && !rotz_form(*dr) {
                assert(self.views@ =~= pre_m);
            }
            assert(view_rotation_step(
                pre_m,
                pre_o,
                view_label@,
                *dr,
                *pivot,
                self.views@,
                self.views.order(),
            ));
        }
    }

    /// Lays out and renders every enabled view: sizes come from the median
    /// aspect ratio and the available panel, each view renders through its
    /// own interaction pose, pan/zoom and marker, and the depth toggle and
    /// culling toggle are honored. Returns one frame per enabled view, in
    /// creation order.
    pub fn update_central_panel(&mut self, available_width: i64, available_height: i64) -> (r: Vec<
        ViewFrame,
    >)
        requires
            old(self).wf(),
            0 <= available_width <= PANEL_BOUND,
            0 <= available_height <= PANEL_BOUND,
        ensures
            final(self).wf(),
            final(self).views.order() == old(self).views.order(),
            forall|i: int|
                0 <= i < r@.len() ==> (#[trigger] r@[i]).result.depth_image.wf() && r@[i].viewport.wf(),
            // one frame per enabled view, in creation order, each rendered
            // through its own view
            0 < enabled_ratios(old(self).views, old(self).views.order().len() as int).len()
                <= 4096 ==> r@.len() == enabled_keys(
                old(self).views,
                old(self).views.order().len() as int,
            ).len() && forall|j: int|
                0 <= j < r@.len() ==> #[trigger] panel_frame_ok(
                    old(self).views@,
                    final(self).views@,
                    enabled_keys(old(self).views, old(self).views.order().len() as int)[j],
                    r@[j],
                    old(self).backface_culling,
                    old(self).show_depth,
                ),
            enabled_ratios(old(self).views, old(self).views.order().len() as int).len() == 0
                ==> r@.len() == 0 && final(self).views == old(self).views,
    {
        let mut out: Vec<ViewFrame> = Vec::new();
        let maybe_median = self.get_median_aspect_ratio_and_num();
        let (median, n) = match maybe_median {
            Some(mn) => mn,
            None => {
                return out;
            },
        };
        if n == 0 || n > 4096 {
            return out;
        }
        let (max_width, max_height) = get_max_size(median, n, available_width, available_height);
        let culling = self.backface_culling;
        let show_depth = self.show_depth;
        let ghost pre_m = self.views@;
        let ghost pre_o = self.views.order();
        let total = self.views.len();
        proof {
            assert forall|idx: int| 0 <= idx < total implies pre_m.contains_key(
                #[trigger] pre_o[idx],
            ) by {
                self.views.lemma_order_in_dom(idx);
            }
        }
        let mut i: usize = 0;
        while i < total
            invariant
                self.wf(),
                total == self.views.order().len(),
                self.views.order() == old(self).views.order(),
                pre_m == old(self).views@,
                pre_o == old(self).views.order(),
                forall|idx: int| 0 <= idx < total ==> pre_m.contains_key(#[trigger] pre_o[idx]),
                i <= total,
                median.wf(),
                culling == old(self).backface_culling,
                show_depth == old(self).show_depth,
                0 <= max_width <= PANEL_BOUND,
                0 <= max_height <= PANEL_BOUND,
                forall|idx: int|
                    i <= idx < total ==> #[trigger] self.views@[pre_o[idx]] == pre_m[pre_o[idx]],
                out@.len() == enabled_keys(old(self).views, i as int).len(),
                forall|j: int|
                    0 <= j < out@.len() ==> #[trigger] panel_frame_ok(
                        pre_m,
                        self.views@,
                        enabled_keys(old(self).views, i as int)[j],
                        out@[j],
                        culling,
                        show_depth,
                    ),
                forall|j: int|
                    0 <= j < out@.len() ==> (#[trigger] out@[j]).result.depth_image.wf()
                        && out@[j].viewport.wf(),
            decreases total - i,
        {
            let ghost m0 = self.views@;
            let label = self.views.key_at(i).clone();
            let v = self.views.value_at_mut(i);
            let mut frame: Option<ViewFrame> = None;
            match v {
                PanelView::Scene(sv) => {
                    if sv.enabled {
                        let ar = sv.renderer.aspect_ratio();
                        proof {
                            assert(sv.wf());
                        }
                        let ratio = Ratio64 { num: ar.0 as u64, den: ar.1 as u64 };
                        let viewport = get_adjusted_view_size(ratio, max_width, max_height);
                        let vp_img = viewport.image_size();
                        let pose = sv.interaction.scene_from_camera();
                        let marker = sv.interaction.marker();
                        let params = sv.renderer.render_params(&vp_img, &pose).zoom(
                            sv.interaction.zoom2d(),
                        ).interaction(marker).backface_culling(culling).compute_depth_texture(
                            show_depth,
                        ).download_rgba(true);
                        let result = sv.renderer.render(&params);
                        proof {
                            assert(builder_link(params));
                        }
                        let scales = ViewportScale::from_image_size_and_viewport_size(
                            sv.renderer.intrinsics().image_size(),
                            vp_img,
                        );
                        frame = Some(ViewFrame { view_label: label, viewport, result, scales });
                    }
                },
                PanelView::Image(iv) => {
                    if iv.enabled {
                        let ar = iv.renderer.aspect_ratio();
                        proof {
                            assert(iv.wf());
                        }
                        let ratio = Ratio64 { num: ar.0 as u64, den: ar.1 as u64 };
                        let viewport = get_adjusted_view_size(ratio, max_width, max_height);
                        let vp_img = viewport.image_size();
                        let pose = iv.interaction.scene_from_camera();
                        let marker = iv.interaction.marker();
                        let params = iv.renderer.render_params(&vp_img, &pose).zoom(
                            iv.interaction.zoom2d(),
                        ).interaction(marker).backface_culling(culling).compute_depth_texture(
                            show_depth,
                        ).download_rgba(true);
                        let result = iv.renderer.render(&params);
                        proof {
                            assert(builder_link(params));
                        }
                        let scales = ViewportScale::from_image_size_and_viewport_size(
                            iv.renderer.intrinsics().image_size(),
                            vp_img,
                        );
                        frame = Some(ViewFrame { view_label: label, viewport, result, scales });
                    }
                },
            }
            proof {
                assert forall|k: Seq<char>| self.views@.contains_key(k) implies (
                #[trigger] self.views@[k]).wf() by {}
            }
            if let Some(f) = frame {
                out.push(f);
            }
            proof {
                assert forall|j: int| 0 <= j < out@.len() implies #[trigger] panel_frame_ok(
                    pre_m,
                    self.views@,
                    enabled_keys(old(self).views, i + 1)[j],
                    out@[j],
                    culling,
                    show_depth,
                ) by {
                    if j < enabled_keys(old(self).views, i as int).len() {
                        lemma_enabled_keys_mem(old(self).views, i as int, j);
                        let idx = choose|idx: int|
                            0 <= idx < i && enabled_keys(old(self).views, i as int)[j]
                                == #[trigger] old(self).views.order()[idx];
                        assert(enabled_keys(old(self).views, i + 1)[j] == enabled_keys(
                            old(self).views,
                            i as int,
                        )[j]);
                        assert(pre_o[idx] != pre_o[i as int]);
                        let lj = enabled_keys(old(self).views, i as int)[j];
                        assert(panel_frame_ok(pre_m, m0, lj, out@[j], culling, show_depth));
                        assert(self.views@[lj] == m0[lj] && self.views@.contains_key(lj)
                            == m0.contains_key(lj));
                        assert(panel_frame_ok(pre_m, self.views@, lj, out@[j], culling, show_depth));
                    } else {
                        assert(enabled_keys(old(self).views, i + 1)[j] == pre_o[i as int]);
                        assert(pre_m[pre_o[i as int]] == m0[pre_o[i as int]]);
                        assert(self.views@.contains_key(pre_o[i as int]));
                        assert(panel_frame_ok(
                            pre_m,
                            self.views@,
                            pre_o[i as int],
                            out@[j],
                            culling,
                            show_depth,
                        ));
                    }
                }
            }
            i += 1;
        }
        out
    }
}

/// The scene view type tag.
fn scene_view_type() -> (r: String)
    ensures
        r@ == "scene"@,
{
    "scene".to_owned()
}

/// The image view type tag.
fn image_view_type() -> (r: String)
    ensures
        r@ == "image"@,
{
    "image".to_owned()
}

} // verus!

verus! {

impl SceneView {
    /// The view's camera intrinsics.
    pub fn intrinsics(&self) -> (r: RenderIntrinsics)
        ensures
            r == self.renderer.camera_properties.intrinsics,
    {
        self.renderer.intrinsics()
    }

    /// The aspect ratio of the view's camera image, as an exact pixel pair.
    pub fn aspect_ratio(&self) -> (r: (usize, usize))
        ensures
            r.0 == self.renderer.camera_properties.intrinsics.image_size_spec().width,
            r.1 == self.renderer.camera_properties.intrinsics.image_size_spec().height,
    {
        self.renderer.aspect_ratio()
    }
}

impl ImageView {
    /// The view's camera intrinsics.
    pub fn intrinsics(&self) -> (r: RenderIntrinsics)
        ensures
            r == self.renderer.camera_properties.intrinsics,
    {
        self.renderer.intrinsics()
    }

    /// The aspect ratio of the view's camera image, as an exact pixel pair.
    pub fn aspect_ratio(&self) -> (r: (usize, usize))
        ensures
            r.0 == self.renderer.camera_properties.intrinsics.image_size_spec().width,
            r.1 == self.renderer.camera_properties.intrinsics.image_size_spec().height,
    {
        self.renderer.aspect_ratio()
    }
}

/// One view's input for one frame: the event the shell gathered and the
/// depth image of the view's previous frame.
pub struct ViewResponse {
    /// The view's name.
    pub view_label: String,
    /// The gathered input.
    pub event: InputEvent,
    /// The viewport the view was shown at.
    pub view_port_size: ImageSize,
    /// The view's previous depth image, for picking.
    pub z_image: DepthImage,
}

impl ViewResponse {
    /// Event and depth image admissible.
    pub open spec fn wf(&self) -> bool {
        self.event.wf() && self.view_port_size.wf() && self.z_image.wf()
    }
}

/// Marks one link of a processed-responses chain for the prover: the
/// intermediate table, the collected list so far and the request produced.
pub open spec fn response_chain_link(
    mid_m: Map<Seq<char>, PanelView>,
    mid_o: Seq<Seq<char>>,
    mid_out: Seq<(String, RotationRequest)>,
    req: Option<RotationRequest>,
) -> bool {
    true
}

/// How a whole frame of responses drives the views: each response in order
/// steps its view's machine through some chain of intermediate tables, and
/// the collected list holds exactly the rotations the machines asked for,
/// labeled, in order.
pub open spec fn responses_processed(
    pre_m: Map<Seq<char>, PanelView>,
    pre_o: Seq<Seq<char>>,
    responses: Seq<ViewResponse>,
    post_m: Map<Seq<char>, PanelView>,
    post_o: Seq<Seq<char>>,
    out: Seq<(String, RotationRequest)>,
) -> bool
    decreases responses.len(),
{
    if responses.len() == 0 {
        post_m == pre_m && post_o == pre_o && out == Seq::<(String, RotationRequest)>::empty()
    } else {
        exists|
            mid_m: Map<Seq<char>, PanelView>,
            mid_o: Seq<Seq<char>>,
            mid_out: Seq<(String, RotationRequest)>,
            req: Option<RotationRequest>,
        |
            #![trigger response_chain_link(mid_m, mid_o, mid_out, req)]
            (responses_processed(pre_m, pre_o, responses.drop_last(), mid_m, mid_o, mid_out)
                && view_event_step(
                mid_m,
                mid_o,
                responses.last().view_label@,
                responses.last().event,
                responses.last().view_port_size,
                responses.last().z_image,
                post_m,
                post_o,
                req,
            ) && out == (if req is Some {
                mid_out.push((responses.last().view_label, req.unwrap()))
            } else {
                mid_out
            }))
    }
}

/// One response extends an already-processed chain.
proof fn lemma_responses_step(
    pre_m: Map<Seq<char>, PanelView>,
    pre_o: Seq<Seq<char>>,
    prefix: Seq<ViewResponse>,
    mid_m: Map<Seq<char>, PanelView>,
    mid_o: Seq<Seq<char>>,
    mid_out: Seq<(String, RotationRequest)>,
    post_m: Map<Seq<char>, PanelView>,
    post_o: Seq<Seq<char>>,
    req: Option<RotationRequest>,
    out: Seq<(String, RotationRequest)>,
)
    requires
        prefix.len() > 0,
        responses_processed(pre_m, pre_o, prefix.drop_last(), mid_m, mid_o, mid_out),
        view_event_step(
            mid_m,
            mid_o,
            prefix.last().view_label@,
            prefix.last().event,
            prefix.last().view_port_size,
            prefix.last().z_image,
            post_m,
            post_o,
            req,
        ),
        out == (if req is Some {
            mid_out.push((prefix.last().view_label, req.unwrap()))
        } else {
            mid_out
        }),
    ensures
        responses_processed(pre_m, pre_o, prefix, post_m, post_o, out),
{
    assert(response_chain_link(mid_m, mid_o, mid_out, req));
}

impl ViewerBase {
    /// Processes the whole frame's responses, one per view that saw input:
    /// each view's machine runs, and the rotations the machines ask for are
    /// returned, labeled, for the shell to perform and hand back through
    /// [`Self::apply_view_rotation`].
    pub fn process_events(&mut self, responses: Vec<ViewResponse>) -> (r: Vec<(
        String,
        RotationRequest,
    )>)
        requires
            old(self).wf(),
            forall|i: int| 0 <= i < responses@.len() ==> (#[trigger] responses@[i]).wf(),
        ensures
            final(self).wf(),
            final(self).views.order() == old(self).views.order(),
            forall|i: int| 0 <= i < r@.len() ==> (#[trigger] r@[i]).1.pivot.bounded(),
            responses_processed(
                old(self).views@,
                old(self).views.order(),
                responses@,
                final(self).views@,
                final(self).views.order(),
                r@,
            ),
    {
        let ghost all = responses@;
        let mut out: Vec<(String, RotationRequest)> = Vec::new();
        let mut rest = responses;
        while rest.len() > 0
            invariant
                self.wf(),
                self.views.order() == old(self).views.order(),
                rest@.len() <= all.len(),
                rest@ == all.subrange(all.len() - rest@.len(), all.len() as int),
                forall|i: int| 0 <= i < all.len() ==> (#[trigger] all[i]).wf(),
                forall|i: int| 0 <= i < out@.len() ==> (#[trigger] out@[i]).1.pivot.bounded(),
                responses_processed(
                    old(self).views@,
                    old(self).views.order(),
                    all.subrange(0, all.len() - rest@.len()),
                    self.views@,
                    self.views.order(),
                    out@,
                ),
            decreases rest@.len(),
        {
            let ghost j = all.len() - rest@.len();
            let ghost mid_m = self.views@;
            let ghost mid_o = self.views.order();
            let ghost mid_out = out@;
            let resp = rest.remove(0);
            proof {
                assert(all.subrange(j as int, all.len() as int)[0] == all[j as int]);
                assert(rest@ =~= all.subrange(j + 1, all.len() as int));
                assert(all.subrange(0, j + 1).drop_last() =~= all.subrange(0, j as int));
                assert(all.subrange(0, j + 1).last() == all[j as int]);
            }
            let req = self.process_view_event(
                &resp.view_label,
                &resp.event,
                resp.view_port_size,
                &resp.z_image,
            );
            if let Some(q) = req {
                out.push((resp.view_label, q));
            }
            proof {
                let prefix = all.subrange(0, j + 1);
                assert(responses_processed(
                    old(self).views@,
                    old(self).views.order(),
                    prefix.drop_last(),
                    mid_m,
                    mid_o,
                    mid_out,
                ));
                assert(view_event_step(
                    mid_m,
                    mid_o,
                    prefix.last().view_label@,
                    prefix.last().event,
                    prefix.last().view_port_size,
                    prefix.last().z_image,
                    self.views@,
                    self.views.order(),
                    req,
                ));
                assert(out@ == (if req is Some {
                    mid_out.push((prefix.last().view_label, req.unwrap()))
                } else {
                    mid_out
                }));
                lemma_responses_step(
                    old(self).views@,
                    old(self).views.order(),
                    prefix,
                    mid_m,
                    mid_o,
                    mid_out,
                    self.views@,
                    self.views.order(),
                    req,
                    out@,
                );
            }
        }
        proof {
            assert(all.subrange(0, all.len() as int) =~= all);
        }
        out
    }
}

} // verus!

verus! {

/// How one scene packet routes a view table: the whole contract of
/// `SceneView::update`, as one predicate over the table's map and order.
pub open spec fn scene_packet_routes(
    pre_m: Map<Seq<char>, PanelView>,
    pre_o: Seq<Seq<char>>,
    p: SceneViewPacket,
    post_m: Map<Seq<char>, PanelView>,
    post_o: Seq<Seq<char>>,
) -> bool {
    &&& (post_m.contains_key(p.view_label@) ==> post_m == pre_m.insert(
        p.view_label@,
        post_m[p.view_label@],
    ))
    &&& (!post_m.contains_key(p.view_label@) ==> post_m == pre_m)
    &&&             ({
                let label = p.view_label@;
                if !pre_m.contains_key(label) {
                    // first sight: a fresh orbital view from the initial camera
                    &&& post_o == pre_o.push(label)
                    &&& post_m.contains_key(label)
                    &&& (post_m[label] matches PanelView::Scene(sv) && sv.renderer.camera_properties
                        == p.initial_camera.properties && sv.enabled
                        && sv.locked_to_birds_eye_orientation
                        == p.locked_to_birds_eye_orientation && (sv.interaction matches
                        InteractionEnum::Orbital(o) && o.scene_from_camera
                        == p.initial_camera.scene_from_camera)
                        && sv.renderer.scene.mesh_table@ == meshes_after(
                        Map::empty(),
                        p.scene_renderables@,
                    ) && sv.renderer.scene.line_table@ == line_sets_after(
                        Map::empty(),
                        p.scene_renderables@,
                    ) && sv.renderer.scene.point_table@ == point_clouds_after(
                        Map::empty(),
                        p.scene_renderables@,
                    ) && sv.world_from_scene == (match p.world_from_scene_update {
                        Some(w) => w,
                        None => crate::geom::Pose {
                            rot: Mat3::identity_spec(),
                            pos: V3 { x: 0, y: 0, z: 0 },
                        },
                    }))
                } else if pre_m[label] is Scene {
                    // later packets: the initial camera is ignored
                    &&& post_o == pre_o
                    &&& (pre_m[label] matches PanelView::Scene(pv) && (post_m[label] matches
                        PanelView::Scene(sv) && sv.renderer.camera_properties
                        == pv.renderer.camera_properties && sv.interaction == pv.interaction
                        && sv.enabled == pv.enabled && sv.locked_to_birds_eye_orientation
                        == pv.locked_to_birds_eye_orientation && sv.renderer.pixel
                        == pv.renderer.pixel && sv.renderer.maybe_background_image
                        == pv.renderer.maybe_background_image
                        && sv.renderer.scene.mesh_table@ == meshes_after(
                        pv.renderer.scene.mesh_table@,
                        p.scene_renderables@,
                    ) && sv.renderer.scene.line_table@ == line_sets_after(
                        pv.renderer.scene.line_table@,
                        p.scene_renderables@,
                    ) && sv.renderer.scene.point_table@ == point_clouds_after(
                        pv.renderer.scene.point_table@,
                        p.scene_renderables@,
                    ) && sv.world_from_scene == (match p.world_from_scene_update {
                        Some(w) => w,
                        None => pv.world_from_scene,
                    })))
                } else {
                    // label bound to an image view: the packet is dropped
                    &&& post_m == pre_m
                    &&& post_o == pre_o
                }
            })
}

/// How one image packet routes a view table: the whole contract of
/// `ImageView::update`, as one predicate over the table's map and order.
pub open spec fn image_packet_routes(
    pre_m: Map<Seq<char>, PanelView>,
    pre_o: Seq<Seq<char>>,
    p: ImageViewPacket,
    post_m: Map<Seq<char>, PanelView>,
    post_o: Seq<Seq<char>>,
) -> bool {
    &&& (post_m.contains_key(p.view_label@) ==> post_m == pre_m.insert(
        p.view_label@,
        post_m[p.view_label@],
    ))
    &&& (!post_m.contains_key(p.view_label@) ==> post_m == pre_m)
    &&&             ({
                let label = p.view_label@;
                match p.frame {
                    Some(fr) => {
                    // replace: only this packet's content is retained
                    &&& post_m.contains_key(label)
                    &&& (post_m[label] matches PanelView::Image(iv) && iv.has_frame
                        && iv.renderer.camera_properties.intrinsics
                        == fr.camera_properties.intrinsics && iv.renderer.maybe_background_image
                        == fr.image && iv.renderer.pixel.line_table@ == line_sets2_after(
                        Map::empty(),
                        p.pixel_renderables@,
                    ) && iv.renderer.pixel.point_table@ == point_sets2_after(
                        Map::empty(),
                        p.pixel_renderables@,
                    ) && iv.renderer.scene.mesh_table@ == meshes_after(
                        Map::empty(),
                        p.scene_renderables@,
                    ) && iv.renderer.scene.line_table@ == line_sets_after(
                        Map::empty(),
                        p.scene_renderables@,
                    ) && iv.renderer.scene.point_table@ == point_clouds_after(
                        Map::empty(),
                        p.scene_renderables@,
                    )) || (pre_m.contains_key(label) && pre_m[label] is Scene
                        && post_m == pre_m)
                    },
                    None => if pre_m.contains_key(label) && (pre_m[label] matches
                    PanelView::Image(pv) && pv.has_frame) {
                    // append to the existing frame
                    &&& post_o == pre_o
                    &&& (pre_m[label] matches PanelView::Image(pv) && (post_m[label]
                        matches PanelView::Image(iv) && iv.has_frame
                        && iv.renderer.camera_properties == pv.renderer.camera_properties
                        && iv.renderer.maybe_background_image
                        == pv.renderer.maybe_background_image && iv.renderer.pixel.line_table@
                        == line_sets2_after(
                        pv.renderer.pixel.line_table@,
                        p.pixel_renderables@,
                    ) && iv.renderer.pixel.point_table@ == point_sets2_after(
                        pv.renderer.pixel.point_table@,
                        p.pixel_renderables@,
                    ) && iv.renderer.scene.mesh_table@ == meshes_after(
                        pv.renderer.scene.mesh_table@,
                        p.scene_renderables@,
                    ) && iv.renderer.scene.line_table@ == line_sets_after(
                        pv.renderer.scene.line_table@,
                        p.scene_renderables@,
                    ) && iv.renderer.scene.point_table@ == point_clouds_after(
                        pv.renderer.scene.point_table@,
                        p.scene_renderables@,
                    )))
                } else {
                    // no frame was ever received: the content is dropped
                    &&& post_m == pre_m
                    &&& post_o == pre_o
                },
                }
            })
}

/// How one packet of any kind routes the view table; a plot packet leaves it
/// untouched.
pub open spec fn packet_routes(
    pre_m: Map<Seq<char>, PanelView>,
    pre_o: Seq<Seq<char>>,
    packet: Packet,
    post_m: Map<Seq<char>, PanelView>,
    post_o: Seq<Seq<char>>,
) -> bool {
    match packet {
        Packet::Scene(p) => scene_packet_routes(pre_m, pre_o, p, post_m, post_o),
        Packet::Image(p) => image_packet_routes(pre_m, pre_o, p, post_m, post_o),
        Packet::Plot(_) => post_m == pre_m && post_o == pre_o,
    }
}

/// How a whole batch routes the view table: each packet in order, through
/// some chain of intermediate tables.
pub open spec fn packets_routed(
    pre_m: Map<Seq<char>, PanelView>,
    pre_o: Seq<Seq<char>>,
    packets: Seq<Packet>,
    post_m: Map<Seq<char>, PanelView>,
    post_o: Seq<Seq<char>>,
) -> bool
    decreases packets.len(),
{
    if packets.len() == 0 {
        post_m == pre_m && post_o == pre_o
    } else {
        exists|mid_m: Map<Seq<char>, PanelView>, mid_o: Seq<Seq<char>>|
            packets_routed(pre_m, pre_o, packets.drop_last(), mid_m, mid_o) && #[trigger] packet_routes(
                mid_m,
                mid_o,
                packets.last(),
                post_m,
                post_o,
            )
    }
}

} // verus!
