//! The per-view interaction state machine: pointer and scroll gestures become
//! camera pose updates and 2D pan/zoom.
//!
//! A view is either orbital (free orbit / pan / zoom / dolly about a focus
//! pivot) or in-plane (pan / zoom / roll only, camera forward axis locked);
//! the variant is chosen at view creation and fixed for the view's lifetime.
//! Every event with a pointer position samples the depth buffer at that pixel
//! to recover the metric focus point; a far-plane sample falls back to a
//! fixed nominal distance. Rotations need trigonometry, which the shell owns:
//! the machine returns the exact angles to turn by, and a delta rotation
//! matrix is applied back through [`OrbitalInteraction::apply_delta_rotation`]
//! or [`InplaneInteraction::apply_roll`].

use vstd::prelude::*;

use crate::camera::ImageSize;
use crate::camera::RenderIntrinsics;
use crate::depth::metric_den;
use crate::depth::metric_num;
use crate::depth::ndc_z_to_color;
use crate::depth::ClippingPlanes;
use crate::depth::DepthImage;
use crate::fixed::clamp_i64;
use crate::fixed::lemma_mul_in_range;
use crate::fixed::FX;
use crate::fixed::FX_BOUND;
use crate::fixed::NDC_ONE;
use crate::geom::affine_component;
use crate::geom::clamp_spec;
use crate::geom::mat3_mul;
use crate::geom::mat3_mul_spec;
use crate::geom::orbit_pose;
use crate::geom::pose_apply;
use crate::geom::row_dot;
use crate::geom::tdiv;
use crate::geom::Mat3;
use crate::geom::Pose;
use crate::geom::V2;
use crate::geom::V3;
use crate::renderables::Color;
use crate::renderables::SceneFocusMarker;
use crate::renderer::pinhole_core;
use crate::renderer::TranslationAndScaling;

verus! {

/// Pixel-to-angle gain of orbit rotations: one pixel of drag turns the
/// camera by `1 / 200` radian.
pub const ROT_GAIN_DIV: i64 = 200;

/// Dolly gain: one scroll unit moves a tenth of the pivot depth.
pub const DOLLY_GAIN_DIV: i64 = 10;

/// The nominal focus distance used when the depth sample hits the far plane.
pub const DEFAULT_FOCUS_DEPTH: i64 = 5 * 65536;

/// The viewport-to-image coordinate scale of one view.
pub struct ViewportScale {
    /// The camera image size.
    pub image_size: ImageSize,
    /// The on-screen viewport size.
    pub view_port_size: ImageSize,
}

/// One viewport-to-image coordinate: `(u + 1/2) * iw / vw - 1/2`, clamped.
pub open spec fn viewport_to_image(u: int, iw: int, vw: int) -> int {
    clamp_spec(tdiv((2 * u + FX as int) * iw, 2 * vw) - FX as int / 2, FX_BOUND as int)
}

impl ViewportScale {
    /// Both sizes in range.
    pub open spec fn wf(&self) -> bool {
        self.image_size.wf() && self.view_port_size.wf()
    }

    /// The scale between a camera image size and a viewport size.
    pub fn from_image_size_and_viewport_size(image_size: ImageSize, view_port_size: ImageSize) -> (
        r: ViewportScale)
        requires
            image_size.wf(),
            view_port_size.wf(),
        ensures
            r.image_size == image_size,
            r.view_port_size == view_port_size,
            r.wf(),
    {
        ViewportScale { image_size, view_port_size }
    }

    /// Maps a viewport position (fixed-point pixels) to camera image
    /// coordinates, placing pixel centers on pixel centers.
    pub fn apply(&self, uv_viewport: V2) -> (r: V2)
        requires
            self.wf(),
            -FX_BOUND <= uv_viewport.x <= FX_BOUND,
            -FX_BOUND <= uv_viewport.y <= FX_BOUND,
        ensures
            r.x == viewport_to_image(
                uv_viewport.x as int,
                self.image_size.width as int,
                self.view_port_size.width as int,
            ),
            r.y == viewport_to_image(
                uv_viewport.y as int,
                self.image_size.height as int,
                self.view_port_size.height as int,
            ),
            -FX_BOUND <= r.x <= FX_BOUND,
            -FX_BOUND <= r.y <= FX_BOUND,
    {
        let rx = scale_coord(uv_viewport.x, self.image_size.width, self.view_port_size.width);
        let ry = scale_coord(uv_viewport.y, self.image_size.height, self.view_port_size.height);
        V2 { x: rx, y: ry }
    }
}

/// One executable viewport-to-image coordinate.
fn scale_coord(u: i64, iw: usize, vw: usize) -> (r: i64)
    requires
        -FX_BOUND <= u <= FX_BOUND,
        0 < iw <= crate::camera::MAX_DIM,
        0 < vw <= crate::camera::MAX_DIM,
    ensures
        r == viewport_to_image(u as int, iw as int, vw as int),
        -FX_BOUND <= r <= FX_BOUND,
{
    proof {
        lemma_mul_in_range((2 * u + FX) as int, iw as int, 0x5_0000_0000, 4096);
    }
    let num: i128 = ((2 * u + FX) as i128) * (iw as i128);
    let den: i128 = 2 * (vw as i128);
    let q: i128 = if num >= 0 {
        num / den
    } else {
        -((-num) / den)
    };
    proof {
        assert(num >= 0 ==> 0 <= num as int / (den as int) <= num as int) by (nonlinear_arith)
            requires
                den > 0,
        ;
        assert(num < 0 ==> 0 <= (-num) as int / (den as int) <= (-num) as int) by (nonlinear_arith)
            requires
                den > 0,
        ;
    }
    let t: i128 = q - (FX as i128) / 2;
    let bound = FX_BOUND as i128;
    if t < -bound {
        -FX_BOUND
    } else if t > bound {
        FX_BOUND
    } else {
        t as i64
    }
}

/// The recovered focus of an interaction: metric depth, normalized depth and
/// the position in camera image coordinates.
#[derive(Clone, Copy, Debug, PartialEq, Eq, Structural)]
pub struct SceneFocus {
    /// Metric depth of the focus point.
    pub depth: i64,
    /// Normalized device depth at the picked pixel.
    pub ndc_z: u32,
    /// Position in camera image coordinates (fixed-point pixels).
    pub uv_in_virtual_camera: V2,
}

impl SceneFocus {
    /// All fields in range.
    pub open spec fn wf(self) -> bool {
        &&& 0 < self.depth <= FX_BOUND
        &&& self.ndc_z <= NDC_ONE
        &&& -FX_BOUND <= self.uv_in_virtual_camera.x <= FX_BOUND
        &&& -FX_BOUND <= self.uv_in_virtual_camera.y <= FX_BOUND
    }
}

/// The pointer drag sub-mode of an orbital view.
#[derive(Clone, Copy, Debug, PartialEq, Eq, Structural)]
pub enum PointerMode {
    /// Primary-button drag: orbit rotation.
    Rotate,
    /// Secondary-button drag: pan in the camera plane.
    Pan,
}

/// An active pointer drag.
#[derive(Clone, Copy, Debug, PartialEq, Eq, Structural)]
pub struct PointerState {
    /// The drag sub-mode.
    pub mode: PointerMode,
}

/// The scroll sub-mode.
#[derive(Clone, Copy, Debug, PartialEq, Eq, Structural)]
pub enum ScrollMode {
    /// Plain scroll: zoom / dolly.
    Zoom,
    /// Modifier-key scroll: in-plane rotation.
    InPlaneRotate,
}

/// An active scroll gesture.
#[derive(Clone, Copy, Debug, PartialEq, Eq, Structural)]
pub struct ScrollState {
    /// The scroll sub-mode.
    pub mode: ScrollMode,
}

/// One frame of pointer/scroll input, as plain values: what the UI shell
/// hands the state machine each tick.
#[derive(Clone, Copy, Debug, PartialEq, Eq, Structural)]
pub struct InputEvent {
    /// The pointer position over this view in viewport pixels (fixed-point),
    /// if the pointer is over the view.
    pub pointer_pos: Option<V2>,
    /// Primary button held.
    pub primary_down: bool,
    /// Secondary button held.
    pub secondary_down: bool,
    /// Drag motion this frame, viewport pixels (fixed-point).
    pub drag_delta: V2,
    /// Scroll motion this frame (fixed-point units).
    pub scroll_delta: V2,
    /// Modifier key held.
    pub modifier_held: bool,
}

impl InputEvent {
    /// All components in range.
    pub open spec fn wf(self) -> bool {
        &&& match self.pointer_pos {
            Some(p) => -FX_BOUND <= p.x <= FX_BOUND && -FX_BOUND <= p.y <= FX_BOUND,
            None => true,
        }
        &&& -FX_BOUND <= self.drag_delta.x <= FX_BOUND
        &&& -FX_BOUND <= self.drag_delta.y <= FX_BOUND
        &&& -FX_BOUND <= self.scroll_delta.x <= FX_BOUND
        &&& -FX_BOUND <= self.scroll_delta.y <= FX_BOUND
    }

    /// Whether any scroll motion arrived this frame.
    pub open spec fn scrolling(self) -> bool {
        self.scroll_delta.x != 0 || self.scroll_delta.y != 0
    }

    /// Whether a drag with either button is in progress over the view.
    pub open spec fn dragging(self) -> bool {
        self.pointer_pos is Some && (self.primary_down || self.secondary_down)
    }
}

/// A rotation the shell is asked to perform: exact angles (fixed-point
/// radians) and the scene-space pivot to turn about.
#[derive(Clone, Copy, Debug, PartialEq, Eq, Structural)]
pub struct RotationRequest {
    /// Rotation about the screen-space right axis.
    pub pitch: i64,
    /// Rotation about the screen-space up axis.
    pub yaw: i64,
    /// Roll about the view axis.
    pub roll: i64,
    /// The scene-space pivot of the rotation.
    pub pivot: V3,
}

/// The focus recovered from a depth sample: the sampled normalized depth,
/// the metric depth it means (falling back to the nominal distance at the
/// far plane), and the image position of the pick.
pub open spec fn focus_of_sample(
    clip: ClippingPlanes,
    ndc: u32,
    uv_image: V2,
) -> SceneFocus {
    SceneFocus {
        depth: if ndc == NDC_ONE {
            if DEFAULT_FOCUS_DEPTH > clip.far {
                clip.far
            } else {
                DEFAULT_FOCUS_DEPTH
            }
        } else {
            (metric_num(clip.near as int, clip.far as int, ndc as int, NDC_ONE as int) / metric_den(
                clip.near as int,
                clip.far as int,
                ndc as int,
                NDC_ONE as int,
            )) as i64
        },
        ndc_z: ndc,
        uv_in_virtual_camera: uv_image,
    }
}

/// The depth sample a pointer pick reads: the buffer value at the pointed
/// pixel, or the far plane when the pick lands outside the viewport.
pub open spec fn picked_ndc(img: DepthImage, pointer: V2) -> u32 {
    let px = crate::renderer::overlay_px(pointer.x as int);
    let py = crate::renderer::overlay_px(pointer.y as int);
    if 0 <= px < img.size.width && 0 <= py < img.size.height {
        img.ndc@[py * img.size.width as int + px]
    } else {
        NDC_ONE
    }
}

/// Samples the depth buffer at a pointer position and recovers the focus.
fn compute_focus(
    clip: &ClippingPlanes,
    scales: &ViewportScale,
    z_buffer: &DepthImage,
    pointer: V2,
) -> (r: SceneFocus)
    requires
        clip.wf(),
        scales.wf(),
        z_buffer.wf(),
        -FX_BOUND <= pointer.x <= FX_BOUND,
        -FX_BOUND <= pointer.y <= FX_BOUND,
    ensures
        r.wf(),
        r.ndc_z == picked_ndc(*z_buffer, pointer),
        r == focus_of_sample(
            *clip,
            r.ndc_z,
            scales.apply_spec(pointer),
        ),
{
    let px = crate::renderer::overlay_pixel_floor(pointer.x);
    let py = crate::renderer::overlay_pixel_floor(pointer.y);
    // a pick outside the viewport reads as the far plane, so the pivot
    // falls back to the nominal distance along the view ray
    let in_range = px >= 0 && py >= 0 && (px as usize) < z_buffer.size.width && (py as usize)
        < z_buffer.size.height;
    let ndc = if in_range {
        z_buffer.sample(px, py)
    } else {
        NDC_ONE
    };
    let uv_image = scales.apply(pointer);
    let depth: i64 = if ndc == NDC_ONE {
        let d = if DEFAULT_FOCUS_DEPTH > clip.far {
            clip.far
        } else {
            DEFAULT_FOCUS_DEPTH
        };
        d
    } else {
        clip.metric_from_ndc(ndc)
    };
    SceneFocus { depth, ndc_z: ndc, uv_in_virtual_camera: uv_image }
}

impl ViewportScale {
    /// The mapping `apply` computes, as a value.
    pub open spec fn apply_spec(&self, uv: V2) -> V2 {
        V2 {
            x: viewport_to_image(
                uv.x as int,
                self.image_size.width as int,
                self.view_port_size.width as int,
            ) as i64,
            y: viewport_to_image(
                uv.y as int,
                self.image_size.height as int,
                self.view_port_size.height as int,
            ) as i64,
        }
    }
}

} // verus!

verus! {

/// Truncating division by a positive gain constant.
fn gain_div(d: i64, g: i64) -> (r: i64)
    requires
        g > 0,
        -FX_BOUND <= d <= FX_BOUND,
    ensures
        r == tdiv(d as int, g as int),
        -FX_BOUND <= r <= FX_BOUND,
{
    proof {
        assert(d >= 0 ==> 0 <= d as int / (g as int) <= d as int) by (nonlinear_arith)
            requires
                g > 0,
        ;
        assert(d < 0 ==> 0 <= (-d) as int / (g as int) <= (-(d as int))) by (nonlinear_arith)
            requires
                g > 0,
        ;
    }
    if d >= 0 {
        d / g
    } else {
        -((-d) / g)
    }
}

/// `d * depth / f`, clamped into the coordinate range: the camera-frame
/// translation that keeps a drag's apparent speed independent of dolly.
pub open spec fn pan_component(d: int, depth: int, f: int) -> int {
    clamp_spec(tdiv(d * depth, f), FX_BOUND as int)
}

/// Executable `pan_component`.
fn pan_component_exec(d: i64, depth: i64, f: i64) -> (r: i64)
    requires
        -FX_BOUND <= d <= FX_BOUND,
        0 <= depth <= FX_BOUND,
        0 < f,
    ensures
        r == pan_component(d as int, depth as int, f as int),
        -FX_BOUND <= r <= FX_BOUND,
{
    proof {
        lemma_mul_in_range(d as int, depth as int, FX_BOUND as int, FX_BOUND as int);
        assert((d as int * depth as int) >= 0 ==> 0 <= (d as int * depth as int) / (f as int)
            <= d as int * depth as int) by (nonlinear_arith)
            requires
                f > 0,
        ;
        assert((d as int * depth as int) < 0 ==> 0 <= (-(d as int * depth as int)) / (f as int)
            <= -(d as int * depth as int)) by (nonlinear_arith)
            requires
                f > 0,
        ;
    }
    let num: i128 = (d as i128) * (depth as i128);
    let q: i128 = if num >= 0 {
        num / (f as i128)
    } else {
        -((-num) / (f as i128))
    };
    let bound = FX_BOUND as i128;
    if q < -bound {
        -FX_BOUND
    } else if q > bound {
        FX_BOUND
    } else {
        q as i64
    }
}

/// The horizontal focal length of whichever model the camera uses.
pub open spec fn core_fx(cam: RenderIntrinsics) -> int {
    match cam {
        RenderIntrinsics::Pinhole(p) => p.fx as int,
        RenderIntrinsics::Unified(u) => u.fx as int,
    }
}

/// The vertical focal length of whichever model the camera uses.
pub open spec fn core_fy(cam: RenderIntrinsics) -> int {
    match cam {
        RenderIntrinsics::Pinhole(p) => p.fy as int,
        RenderIntrinsics::Unified(u) => u.fy as int,
    }
}

/// A pose translated by a camera-frame delta: the rotation stays, the
/// position moves by the delta expressed in scene coordinates.
pub open spec fn translated_pose(pose: Pose, delta: V3) -> Pose {
    Pose {
        rot: pose.rot,
        pos: V3 {
            x: affine_component(
                pose.rot.xx as int,
                pose.rot.xy as int,
                pose.rot.xz as int,
                delta.x as int,
                delta.y as int,
                delta.z as int,
                pose.pos.x as int,
            ) as i64,
            y: affine_component(
                pose.rot.yx as int,
                pose.rot.yy as int,
                pose.rot.yz as int,
                delta.x as int,
                delta.y as int,
                delta.z as int,
                pose.pos.y as int,
            ) as i64,
            z: affine_component(
                pose.rot.zx as int,
                pose.rot.zy as int,
                pose.rot.zz as int,
                delta.x as int,
                delta.y as int,
                delta.z as int,
                pose.pos.z as int,
            ) as i64,
        },
    }
}

/// The orbital interaction: free orbit, pan, dolly-zoom and in-plane roll
/// about the recovered focus pivot.
pub struct OrbitalInteraction {
    /// The view's scene-from-camera pose.
    pub scene_from_camera: Pose,
    /// The view's clipping planes, fixed at creation.
    pub clipping_planes: ClippingPlanes,
    /// The active pointer drag, if one is in progress.
    pub maybe_pointer_state: Option<PointerState>,
    /// The active scroll gesture, if one is in progress.
    pub maybe_scroll_state: Option<ScrollState>,
    /// The last recovered focus.
    pub maybe_scene_focus: Option<SceneFocus>,
}

impl OrbitalInteraction {
    /// Pose in range, planes ordered, and a focus present whenever an
    /// interaction is active.
    pub open spec fn wf(&self) -> bool {
        &&& self.scene_from_camera.bounded()
        &&& self.clipping_planes.wf()
        &&& (self.maybe_pointer_state is Some || self.maybe_scroll_state is Some)
            ==> self.maybe_scene_focus is Some
        &&& match self.maybe_scene_focus {
            Some(f) => f.wf(),
            None => true,
        }
    }

    /// A fresh orbital interaction at a starting pose.
    pub fn new(scene_from_camera: Pose, clipping_planes: ClippingPlanes) -> (r: OrbitalInteraction)
        requires
            scene_from_camera.bounded(),
            clipping_planes.wf(),
        ensures
            r.wf(),
            r.scene_from_camera == scene_from_camera,
            r.clipping_planes == clipping_planes,
            r.maybe_pointer_state is None,
            r.maybe_scroll_state is None,
            r.maybe_scene_focus is None,
    {
        OrbitalInteraction {
            scene_from_camera,
            clipping_planes,
            maybe_pointer_state: None,
            maybe_scroll_state: None,
            maybe_scene_focus: None,
        }
    }

    /// One input frame: recovers the focus from the depth buffer, moves the
    /// state machine (Idle / PointerDragging(Rotate | Pan) / ScrollZooming /
    /// ScrollInPlaneRotating), applies pan and dolly translations, and asks
    /// the shell for any rotation. The rotation part of the pose is never
    /// changed here; only [`Self::apply_delta_rotation`] changes it.
    pub fn process_event(
        &mut self,
        cam: &RenderIntrinsics,
        event: &InputEvent,
        scales: &ViewportScale,
        z_buffer: &DepthImage,
    ) -> (r: Option<RotationRequest>)
        requires
            old(self).wf(),
            cam.wf(),
            event.wf(),
            scales.wf(),
            z_buffer.wf(),
        ensures
            final(self).wf(),
            final(self).clipping_planes == old(self).clipping_planes,
            final(self).scene_from_camera.rot == old(self).scene_from_camera.rot,
            final(self).maybe_pointer_state == (if event.dragging() {
                Some(
                    PointerState {
                        mode: if event.primary_down {
                            PointerMode::Rotate
                        } else {
                            PointerMode::Pan
                        },
                    },
                )
            } else {
                None
            }),
            final(self).maybe_scroll_state == (if event.pointer_pos is Some && event.scrolling() {
                Some(
                    ScrollState {
                        mode: if event.modifier_held {
                            ScrollMode::InPlaneRotate
                        } else {
                            ScrollMode::Zoom
                        },
                    },
                )
            } else {
                None
            }),
            event.pointer_pos matches Some(p) ==> final(self).maybe_scene_focus matches Some(f)
                && f.wf() && f.ndc_z == picked_ndc(*z_buffer, p) && f == focus_of_sample(
                old(self).clipping_planes,
                f.ndc_z,
                scales.apply_spec(p),
            ),
            event.pointer_pos is None ==> final(self).maybe_scene_focus == old(
                self,
            ).maybe_scene_focus && final(self).scene_from_camera == old(self).scene_from_camera,
            orbital_step(*old(self), *cam, *event, *scales, *z_buffer, *final(self), r),
            // how the pose moves: pan under a secondary drag, dolly under a
            // plain scroll, otherwise untouched (rotation goes through
            // `apply_delta_rotation` only)
            event.pointer_pos is Some ==> (final(self).maybe_scene_focus matches Some(f) && (if
                event.primary_down {
                final(self).scene_from_camera == old(self).scene_from_camera
            } else if event.secondary_down {
                final(self).scene_from_camera == translated_pose(
                    old(self).scene_from_camera,
                    V3 {
                        x: pan_component(
                            -event.drag_delta.x as int,
                            f.depth as int,
                            core_fx(*cam),
                        ) as i64,
                        y: pan_component(
                            -event.drag_delta.y as int,
                            f.depth as int,
                            core_fy(*cam),
                        ) as i64,
                        z: 0,
                    },
                )
            } else if event.scrolling() && !event.modifier_held {
                final(self).scene_from_camera == translated_pose(
                    old(self).scene_from_camera,
                    V3 {
                        x: 0,
                        y: 0,
                        z: pan_component(
                            event.scroll_delta.y as int,
                            f.depth as int,
                            DOLLY_GAIN_DIV as int * FX as int,
                        ) as i64,
                    },
                )
            } else {
                final(self).scene_from_camera == old(self).scene_from_camera
            })),
            r is Some <==> (event.dragging() && event.primary_down) || (event.pointer_pos is Some
                && event.scrolling() && event.modifier_held),
            r matches Some(req) ==> req.pivot.bounded() && (if event.dragging()
                && event.primary_down {
                req.pitch == tdiv(event.drag_delta.y as int, ROT_GAIN_DIV as int) && req.yaw == tdiv(
                    event.drag_delta.x as int,
                    ROT_GAIN_DIV as int,
                ) && req.roll == 0
            } else {
                req.pitch == 0 && req.yaw == 0 && req.roll == tdiv(
                    event.scroll_delta.x as int,
                    ROT_GAIN_DIV as int,
                )
            }),
    {
        let pointer = match event.pointer_pos {
            Some(p) => {
                let f = compute_focus(&self.clipping_planes, scales, z_buffer, p);
                self.maybe_scene_focus = Some(f);
                Some(p)
            },
            None => None,
        };
        self.maybe_pointer_state = if pointer.is_some() && (event.primary_down
            || event.secondary_down) {
            Some(
                PointerState {
                    mode: if event.primary_down {
                        PointerMode::Rotate
                    } else {
                        PointerMode::Pan
                    },
                },
            )
        } else {
            None
        };
        self.maybe_scroll_state = if pointer.is_some() && (event.scroll_delta.x != 0
            || event.scroll_delta.y != 0) {
            Some(
                ScrollState {
                    mode: if event.modifier_held {
                        ScrollMode::InPlaneRotate
                    } else {
                        ScrollMode::Zoom
                    },
                },
            )
        } else {
            None
        };
        if pointer.is_none() {
            return None;
        }
        let focus = match self.maybe_scene_focus {
            Some(f) => f,
            None => {
                proof {
                    assert(false);
                }
                unreached()
            },
        };
        let core = pinhole_core(cam);
        if event.primary_down {
            // orbit rotation: hand the exact angles and the scene-space
            // pivot to the shell
            let q = core.unproject(&focus.uv_in_virtual_camera, focus.depth);
            let pivot = pose_apply(&self.scene_from_camera, &q);
            let pitch = gain_div(event.drag_delta.y, ROT_GAIN_DIV);
            let yaw = gain_div(event.drag_delta.x, ROT_GAIN_DIV);
            return Some(RotationRequest { pitch, yaw, roll: 0, pivot });
        }
        if event.secondary_down {
            // pan: drag delta scaled by the pivot depth
            let dx = pan_component_exec(-event.drag_delta.x, focus.depth, core.fx);
            let dy = pan_component_exec(-event.drag_delta.y, focus.depth, core.fy);
            let delta = V3 { x: dx, y: dy, z: 0 };
            let moved = pose_apply(&self.scene_from_camera, &delta);
            self.scene_from_camera = Pose { rot: self.scene_from_camera.rot, pos: moved };
        } else if (event.scroll_delta.x != 0 || event.scroll_delta.y != 0)
            && !event.modifier_held {
            // dolly-zoom: move along the view ray by a fraction of the depth
            let dz = pan_component_exec(event.scroll_delta.y, focus.depth, DOLLY_GAIN_DIV * FX);
            let delta = V3 { x: 0, y: 0, z: dz };
            let moved = pose_apply(&self.scene_from_camera, &delta);
            self.scene_from_camera = Pose { rot: self.scene_from_camera.rot, pos: moved };
        }
        if (event.scroll_delta.x != 0 || event.scroll_delta.y != 0) && event.modifier_held {
            let q = core.unproject(&focus.uv_in_virtual_camera, focus.depth);
            let pivot = pose_apply(&self.scene_from_camera, &q);
            let roll = gain_div(event.scroll_delta.x, ROT_GAIN_DIV);
            return Some(RotationRequest { pitch: 0, yaw: 0, roll, pivot });
        }
        None
    }

}

/// Everything one orbital input frame does: the full state transition, the
/// recovered focus, the exact pan and dolly pose updates, and the exact
/// rotation request — the whole contract of
/// `OrbitalInteraction::process_event`, as one predicate.
pub open spec fn orbital_step(
    pre: OrbitalInteraction,
    cam: RenderIntrinsics,
    event: InputEvent,
    scales: ViewportScale,
    zb: DepthImage,
    post: OrbitalInteraction,
    r: Option<RotationRequest>,
) -> bool {
    &&& post.wf()
    &&& post.clipping_planes == pre.clipping_planes
    &&& post.scene_from_camera.rot == pre.scene_from_camera.rot
    &&& post.maybe_pointer_state == (if event.dragging() {
        Some(
            PointerState {
                mode: if event.primary_down {
                    PointerMode::Rotate
                } else {
                    PointerMode::Pan
                },
            },
        )
    } else {
        None
    })
    &&& post.maybe_scroll_state == (if event.pointer_pos is Some && event.scrolling() {
        Some(
            ScrollState {
                mode: if event.modifier_held {
                    ScrollMode::InPlaneRotate
                } else {
                    ScrollMode::Zoom
                },
            },
        )
    } else {
        None
    })
    &&& (event.pointer_pos matches Some(p) ==> post.maybe_scene_focus matches Some(f) && f.wf()
        && f.ndc_z == picked_ndc(zb, p) && f == focus_of_sample(
        pre.clipping_planes,
        f.ndc_z,
        scales.apply_spec(p),
    ))
    &&& (event.pointer_pos is None ==> post.maybe_scene_focus == pre.maybe_scene_focus
        && post.scene_from_camera == pre.scene_from_camera)
    &&& (event.pointer_pos is Some ==> (post.maybe_scene_focus matches Some(f) && (if
        event.primary_down {
        post.scene_from_camera == pre.scene_from_camera
    } else if event.secondary_down {
        post.scene_from_camera == translated_pose(
            pre.scene_from_camera,
            V3 {
                x: pan_component(-event.drag_delta.x as int, f.depth as int, core_fx(cam)) as i64,
                y: pan_component(-event.drag_delta.y as int, f.depth as int, core_fy(cam)) as i64,
                z: 0,
            },
        )
    } else if event.scrolling() && !event.modifier_held {
        post.scene_from_camera == translated_pose(
            pre.scene_from_camera,
            V3 {
                x: 0,
                y: 0,
                z: pan_component(
                    event.scroll_delta.y as int,
                    f.depth as int,
                    DOLLY_GAIN_DIV as int * FX as int,
                ) as i64,
            },
        )
    } else {
        post.scene_from_camera == pre.scene_from_camera
    })))
    &&& (r is Some <==> (event.dragging() && event.primary_down) || (event.pointer_pos is Some
        && event.scrolling() && event.modifier_held))
    &&& (r matches Some(req) ==> req.pivot.bounded() && (if event.dragging()
        && event.primary_down {
        req.pitch == tdiv(event.drag_delta.y as int, ROT_GAIN_DIV as int) && req.yaw == tdiv(
            event.drag_delta.x as int,
            ROT_GAIN_DIV as int,
        ) && req.roll == 0
    } else {
        req.pitch == 0 && req.yaw == 0 && req.roll == tdiv(
            event.scroll_delta.x as int,
            ROT_GAIN_DIV as int,
        )
    }))
}

impl OrbitalInteraction {
    /// Applies a delta rotation about a scene-space pivot, composed onto the
    /// pose so that the pivot itself stays exactly fixed
    /// (`crate::geom::lemma_orbit_fixes_pivot`).
    pub fn apply_delta_rotation(&mut self, dr: &Mat3, pivot: &V3)
        requires
            old(self).wf(),
            dr.bounded(),
            pivot.bounded(),
        ensures
            final(self).wf(),
            final(self).scene_from_camera == (Pose {
                rot: mat3_mul_spec(*dr, old(self).scene_from_camera.rot),
                pos: V3 {
                    x: crate::geom::pivot_component(
                        dr.xx as int,
                        dr.xy as int,
                        dr.xz as int,
                        old(self).scene_from_camera.pos,
                        *pivot,
                        pivot.x as int,
                    ) as i64,
                    y: crate::geom::pivot_component(
                        dr.yx as int,
                        dr.yy as int,
                        dr.yz as int,
                        old(self).scene_from_camera.pos,
                        *pivot,
                        pivot.y as int,
                    ) as i64,
                    z: crate::geom::pivot_component(
                        dr.zx as int,
                        dr.zy as int,
                        dr.zz as int,
                        old(self).scene_from_camera.pos,
                        *pivot,
                        pivot.z as int,
                    ) as i64,
                },
            }),
            final(self).clipping_planes == old(self).clipping_planes,
            final(self).maybe_pointer_state == old(self).maybe_pointer_state,
            final(self).maybe_scroll_state == old(self).maybe_scroll_state,
            final(self).maybe_scene_focus == old(self).maybe_scene_focus,
    {
        let p = orbit_pose(&self.scene_from_camera, dr, pivot);
        self.scene_from_camera = p;
    }
}

} // verus!

verus! {

/// An in-plane rotation matrix: it turns only about the camera's view axis,
/// so its third row and third column are exactly `(0, 0, 1)`.
pub open spec fn rotz_form(m: Mat3) -> bool {
    &&& m.bounded()
    &&& m.xz == 0
    &&& m.yz == 0
    &&& m.zx == 0
    &&& m.zy == 0
    &&& m.zz == FX
}

/// Checks the in-plane rotation shape.
pub fn is_rotz_form(m: &Mat3) -> (r: bool)
    ensures
        r == rotz_form(*m),
{
    m.is_bounded() && m.xz == 0 && m.yz == 0 && m.zx == 0 && m.zy == 0 && m.zz == FX
}

/// The camera forward axis of a rotation matrix: its third column.
pub open spec fn forward_axis(m: Mat3) -> (int, int, int) {
    (m.xz as int, m.yz as int, m.zz as int)
}

/// Composing an in-plane rotation onto a rotation leaves the forward axis
/// bit-for-bit unchanged: the third column of the product equals the third
/// column of the left factor, exactly.
pub proof fn lemma_inplane_keeps_forward_axis(base: Mat3, roll: Mat3)
    requires
        base.bounded(),
        rotz_form(roll),
    ensures
        forward_axis(mat3_mul_spec(base, roll)) == forward_axis(base),
{
    lemma_third_column(base.xx as int, base.xy as int, base.xz as int);
    lemma_third_column(base.yx as int, base.yy as int, base.yz as int);
    lemma_third_column(base.zx as int, base.zy as int, base.zz as int);
}

/// One row times the in-plane third column `(0, 0, FX)` descales exactly to
/// the row's own third entry.
proof fn lemma_third_column(a: int, b: int, c: int)
    requires
        -crate::geom::MAT_LIMIT <= c <= crate::geom::MAT_LIMIT,
    ensures
        clamp_spec(row_dot(a, b, c, 0, 0, FX as int), crate::geom::MAT_LIMIT as int) == c,
{
    assert(a * 0 + b * 0 + c * FX == c * FX) by (nonlinear_arith);
    if c >= 0 {
        vstd::arithmetic::div_mod::lemma_div_multiples_vanish(c, FX as int);
        assert(c * FX == FX as int * c) by (nonlinear_arith);
    } else {
        vstd::arithmetic::div_mod::lemma_div_multiples_vanish(-c, FX as int);
        assert(-(c * FX) == FX as int * (-c)) by (nonlinear_arith);
    }
}

/// Composing two in-plane rotations gives an in-plane rotation.
pub proof fn lemma_rotz_mul(a: Mat3, b: Mat3)
    requires
        rotz_form(a),
        rotz_form(b),
    ensures
        rotz_form(mat3_mul_spec(a, b)),
{
    lemma_third_column(a.xx as int, a.xy as int, a.xz as int);
    lemma_third_column(a.yx as int, a.yy as int, a.yz as int);
    lemma_third_column(a.zx as int, a.zy as int, a.zz as int);
    assert(a.zx as int * b.xx as int + a.zy as int * b.yx as int + a.zz as int * b.zx as int == 0)
        by (nonlinear_arith)
        requires
            a.zx == 0,
            a.zy == 0,
            b.zx == 0,
    ;
    assert(a.zx as int * b.xy as int + a.zy as int * b.yy as int + a.zz as int * b.zy as int == 0)
        by (nonlinear_arith)
        requires
            a.zx == 0,
            a.zy == 0,
            b.zy == 0,
    ;
    assert(tdiv(0, FX as int) == 0);
}

/// The zoom factor of one scroll step, kept within a sixteenth and sixteen
/// times the identity.
pub open spec fn zoom_factor(scroll_y: int) -> int {
    let f = FX as int + tdiv(scroll_y, 8);
    if f < FX as int / 16 {
        FX as int / 16
    } else if f > 16 * FX as int {
        16 * FX as int
    } else {
        f
    }
}

/// The in-plane interaction: pan, zoom and roll over a locked base pose.
///
/// The base pose never changes after creation; every gesture only updates
/// the accumulated in-plane roll and the 2D pan/zoom, so the camera forward
/// axis stays bit-for-bit the base's forward axis.
pub struct InplaneInteraction {
    /// The locked base scene-from-camera pose.
    pub base_scene_from_camera: Pose,
    /// The accumulated in-plane roll, an in-plane rotation matrix.
    pub roll: Mat3,
    /// The accumulated 2D pan/zoom.
    pub zoom2d: TranslationAndScaling,
    /// The view's clipping planes, fixed at creation.
    pub clipping_planes: ClippingPlanes,
    /// The active scroll gesture, if one is in progress.
    pub maybe_scroll_state: Option<ScrollState>,
    /// The last recovered focus.
    pub maybe_scene_focus: Option<SceneFocus>,
}

impl InplaneInteraction {
    /// Base pose in range, roll in in-plane form, and a focus present
    /// whenever an interaction is active.
    pub open spec fn wf(&self) -> bool {
        &&& self.base_scene_from_camera.bounded()
        &&& rotz_form(self.roll)
        &&& self.zoom2d.wf()
        &&& self.clipping_planes.wf()
        &&& self.maybe_scroll_state is Some ==> self.maybe_scene_focus is Some
        &&& match self.maybe_scene_focus {
            Some(f) => f.wf(),
            None => true,
        }
    }

    /// A fresh in-plane interaction over a locked base pose.
    pub fn new(base_scene_from_camera: Pose, clipping_planes: ClippingPlanes) -> (r:
        InplaneInteraction)
        requires
            base_scene_from_camera.bounded(),
            clipping_planes.wf(),
        ensures
            r.wf(),
            r.base_scene_from_camera == base_scene_from_camera,
            r.roll == Mat3::identity_spec(),
            r.clipping_planes == clipping_planes,
            r.maybe_scroll_state is None,
            r.maybe_scene_focus is None,
            r.zoom2d.translation == (V2 { x: 0, y: 0 }),
            r.zoom2d.scaling == (V2 { x: FX, y: FX }),
    {
        InplaneInteraction {
            base_scene_from_camera,
            roll: Mat3::identity(),
            zoom2d: TranslationAndScaling::identity(),
            clipping_planes,
            maybe_scroll_state: None,
            maybe_scene_focus: None,
        }
    }

    /// The view's scene-from-camera pose: the locked base composed with the
    /// accumulated in-plane roll. Its forward axis equals the base's forward
    /// axis exactly (`lemma_inplane_keeps_forward_axis`).
    pub fn scene_from_camera(&self) -> (r: Pose)
        requires
            self.wf(),
        ensures
            r == (Pose {
                rot: mat3_mul_spec(self.base_scene_from_camera.rot, self.roll),
                pos: self.base_scene_from_camera.pos,
            }),
            r.bounded(),
            forward_axis(r.rot) == forward_axis(self.base_scene_from_camera.rot),
    {
        let rot = mat3_mul(&self.base_scene_from_camera.rot, &self.roll);
        proof {
            lemma_mat3_products_match(self.base_scene_from_camera.rot, self.roll, rot);
            lemma_inplane_keeps_forward_axis(self.base_scene_from_camera.rot, self.roll);
        }
        Pose { rot, pos: self.base_scene_from_camera.pos }
    }

}

/// Everything one in-plane input frame does: the locked base and roll kept,
/// the state transition, the focus, the exact pan and zoom-about-cursor
/// updates, and the exact roll request — the whole contract of
/// `InplaneInteraction::process_event`, as one predicate.
pub open spec fn inplane_event_step(
    pre: InplaneInteraction,
    event: InputEvent,
    scales: ViewportScale,
    post: InplaneInteraction,
    r: Option<RotationRequest>,
) -> bool {
    &&& post.wf()
    &&& post.base_scene_from_camera == pre.base_scene_from_camera
    &&& post.roll == pre.roll
    &&& post.clipping_planes == pre.clipping_planes
    &&& post.maybe_scroll_state == (if event.pointer_pos is Some && event.scrolling() {
        Some(
            ScrollState {
                mode: if event.modifier_held {
                    ScrollMode::InPlaneRotate
                } else {
                    ScrollMode::Zoom
                },
            },
        )
    } else {
        None
    })
    &&& (event.pointer_pos matches Some(p) ==> post.maybe_scene_focus == Some(
        SceneFocus {
            depth: if DEFAULT_FOCUS_DEPTH > pre.clipping_planes.far {
                pre.clipping_planes.far
            } else {
                DEFAULT_FOCUS_DEPTH
            },
            ndc_z: NDC_ONE,
            uv_in_virtual_camera: scales.apply_spec(p),
        },
    ))
    &&& (event.pointer_pos is None ==> post.maybe_scene_focus == pre.maybe_scene_focus
        && post.zoom2d == pre.zoom2d)
    &&& (event.pointer_pos matches Some(p) ==> (if event.primary_down || event.secondary_down {
        post.zoom2d.scaling == pre.zoom2d.scaling && post.zoom2d.translation == (V2 {
            x: clamp_spec(pre.zoom2d.translation.x + event.drag_delta.x, FX_BOUND as int) as i64,
            y: clamp_spec(pre.zoom2d.translation.y + event.drag_delta.y, FX_BOUND as int) as i64,
        })
    } else if event.scrolling() && !event.modifier_held {
        post.zoom2d == (TranslationAndScaling {
            translation: V2 {
                x: clamp_spec(
                    p.x - tdiv(
                        (p.x - pre.zoom2d.translation.x) * zoom_factor(event.scroll_delta.y as int),
                        FX as int,
                    ),
                    FX_BOUND as int,
                ) as i64,
                y: clamp_spec(
                    p.y - tdiv(
                        (p.y - pre.zoom2d.translation.y) * zoom_factor(event.scroll_delta.y as int),
                        FX as int,
                    ),
                    FX_BOUND as int,
                ) as i64,
            },
            scaling: V2 {
                x: clamp_spec(
                    tdiv(pre.zoom2d.scaling.x * zoom_factor(event.scroll_delta.y as int), FX as int),
                    FX_BOUND as int,
                ) as i64,
                y: clamp_spec(
                    tdiv(pre.zoom2d.scaling.y * zoom_factor(event.scroll_delta.y as int), FX as int),
                    FX_BOUND as int,
                ) as i64,
            },
        })
    } else {
        post.zoom2d == pre.zoom2d
    }))
    &&& (r is Some <==> event.pointer_pos is Some && event.scrolling() && event.modifier_held)
    &&& (r matches Some(req) ==> req.pitch == 0 && req.yaw == 0 && req.roll == tdiv(
        event.scroll_delta.x as int,
        ROT_GAIN_DIV as int,
    ) && req.pivot.bounded())
}

impl InplaneInteraction {
    /// One input frame: pan on drag, zoom about the cursor on plain scroll,
    /// and an in-plane roll request on modifier scroll. The base pose is
    /// untouched by every path.
    pub fn process_event(
        &mut self,
        cam: &RenderIntrinsics,
        event: &InputEvent,
        scales: &ViewportScale,
    ) -> (r: Option<RotationRequest>)
        requires
            old(self).wf(),
            cam.wf(),
            event.wf(),
            scales.wf(),
        ensures
            final(self).wf(),
            final(self).base_scene_from_camera == old(self).base_scene_from_camera,
            final(self).roll == old(self).roll,
            final(self).clipping_planes == old(self).clipping_planes,
            final(self).maybe_scroll_state == (if event.pointer_pos is Some && event.scrolling() {
                Some(
                    ScrollState {
                        mode: if event.modifier_held {
                            ScrollMode::InPlaneRotate
                        } else {
                            ScrollMode::Zoom
                        },
                    },
                )
            } else {
                None
            }),
            event.pointer_pos matches Some(p) ==> final(self).maybe_scene_focus matches Some(f)
                && f.wf() && f.uv_in_virtual_camera == scales.apply_spec(p),
            event.pointer_pos is None ==> final(self).maybe_scene_focus == old(
                self,
            ).maybe_scene_focus && final(self).zoom2d == old(self).zoom2d,
            inplane_event_step(*old(self), *event, *scales, *final(self), r),
            // how the 2D pan/zoom moves: pan under a drag, scale about the
            // cursor under a plain scroll, otherwise untouched
            event.pointer_pos matches Some(p) ==> (if event.primary_down || event.secondary_down {
                final(self).zoom2d.scaling == old(self).zoom2d.scaling && final(self)
                    .zoom2d.translation == (V2 {
                    x: clamp_spec(
                        old(self).zoom2d.translation.x + event.drag_delta.x,
                        FX_BOUND as int,
                    ) as i64,
                    y: clamp_spec(
                        old(self).zoom2d.translation.y + event.drag_delta.y,
                        FX_BOUND as int,
                    ) as i64,
                })
            } else if event.scrolling() && !event.modifier_held {
                final(self).zoom2d == (TranslationAndScaling {
                    translation: V2 {
                        x: clamp_spec(
                            p.x - tdiv(
                                (p.x - old(self).zoom2d.translation.x) * zoom_factor(
                                    event.scroll_delta.y as int,
                                ),
                                FX as int,
                            ),
                            FX_BOUND as int,
                        ) as i64,
                        y: clamp_spec(
                            p.y - tdiv(
                                (p.y - old(self).zoom2d.translation.y) * zoom_factor(
                                    event.scroll_delta.y as int,
                                ),
                                FX as int,
                            ),
                            FX_BOUND as int,
                        ) as i64,
                    },
                    scaling: V2 {
                        x: clamp_spec(
                            tdiv(
                                old(self).zoom2d.scaling.x * zoom_factor(
                                    event.scroll_delta.y as int,
                                ),
                                FX as int,
                            ),
                            FX_BOUND as int,
                        ) as i64,
                        y: clamp_spec(
                            tdiv(
                                old(self).zoom2d.scaling.y * zoom_factor(
                                    event.scroll_delta.y as int,
                                ),
                                FX as int,
                            ),
                            FX_BOUND as int,
                        ) as i64,
                    },
                })
            } else {
                final(self).zoom2d == old(self).zoom2d
            }),
            r is Some <==> event.pointer_pos is Some && event.scrolling() && event.modifier_held,
            r matches Some(req) ==> req.pitch == 0 && req.yaw == 0 && req.roll == tdiv(
                event.scroll_delta.x as int,
                ROT_GAIN_DIV as int,
            ) && req.pivot.bounded(),
    {
        let pointer = match event.pointer_pos {
            Some(p) => p,
            None => {
                self.maybe_scroll_state = None;
                return None;
            },
        };
        let uv_image = scales.apply(pointer);
        let depth: i64 = if DEFAULT_FOCUS_DEPTH > self.clipping_planes.far {
            self.clipping_planes.far
        } else {
            DEFAULT_FOCUS_DEPTH
        };
        self.maybe_scene_focus = Some(
            SceneFocus { depth, ndc_z: NDC_ONE, uv_in_virtual_camera: uv_image },
        );
        let scrolling = event.scroll_delta.x != 0 || event.scroll_delta.y != 0;
        self.maybe_scroll_state = if scrolling {
            Some(
                ScrollState {
                    mode: if event.modifier_held {
                        ScrollMode::InPlaneRotate
                    } else {
                        ScrollMode::Zoom
                    },
                },
            )
        } else {
            None
        };
        if event.primary_down || event.secondary_down {
            // 2D pan: the drag moves the overlay translation directly
            let tx = clamp_i64(
                add_clamped(self.zoom2d.translation.x, event.drag_delta.x),
                -FX_BOUND,
                FX_BOUND,
            );
            let ty = clamp_i64(
                add_clamped(self.zoom2d.translation.y, event.drag_delta.y),
                -FX_BOUND,
                FX_BOUND,
            );
            self.zoom2d = TranslationAndScaling {
                translation: V2 { x: tx, y: ty },
                scaling: self.zoom2d.scaling,
            };
        } else if scrolling && !event.modifier_held {
            // uniform 2D scale about the cursor
            let df = gain_div(event.scroll_delta.y, 8);
            let f = clamp_i64(FX + df, FX / 16, 16 * FX);
            let sx = scale_zoom(self.zoom2d.scaling.x, f);
            let sy = scale_zoom(self.zoom2d.scaling.y, f);
            let tx = zoom_about(self.zoom2d.translation.x, pointer.x, f);
            let ty = zoom_about(self.zoom2d.translation.y, pointer.y, f);
            self.zoom2d = TranslationAndScaling {
                translation: V2 { x: tx, y: ty },
                scaling: V2 { x: sx, y: sy },
            };
        }
        if scrolling && event.modifier_held {
            let roll = gain_div(event.scroll_delta.x, ROT_GAIN_DIV);
            return Some(
                RotationRequest { pitch: 0, yaw: 0, roll, pivot: V3 { x: 0, y: 0, z: 0 } },
            );
        }
        None
    }

    /// Applies one in-plane roll step handed back by the shell: the roll
    /// accumulates, the base pose stays exactly as it was.
    pub fn apply_roll(&mut self, rz: &Mat3)
        requires
            old(self).wf(),
            rotz_form(*rz),
        ensures
            final(self).wf(),
            final(self).base_scene_from_camera == old(self).base_scene_from_camera,
            final(self).roll == mat3_mul_spec(old(self).roll, *rz),
            final(self).zoom2d == old(self).zoom2d,
            final(self).clipping_planes == old(self).clipping_planes,
            final(self).maybe_scroll_state == old(self).maybe_scroll_state,
            final(self).maybe_scene_focus == old(self).maybe_scene_focus,
    {
        let r = mat3_mul(&self.roll, rz);
        proof {
            lemma_mat3_products_match(self.roll, *rz, r);
            lemma_rotz_mul(self.roll, *rz);
        }
        self.roll = r;
    }

    /// The accumulated 2D pan/zoom.
    pub fn zoom2d(&self) -> (r: TranslationAndScaling)
        ensures
            r == self.zoom2d,
    {
        self.zoom2d
    }
}

/// A saturating add of two in-range values.
fn add_clamped(a: i64, b: i64) -> (r: i64)
    requires
        -FX_BOUND <= a <= FX_BOUND,
        -FX_BOUND <= b <= FX_BOUND,
    ensures
        r == clamp_spec(a + b, FX_BOUND as int),
{
    let s = a + b;
    if s < -FX_BOUND {
        -FX_BOUND
    } else if s > FX_BOUND {
        FX_BOUND
    } else {
        s
    }
}

/// One zoom-scale step: `s * f / FX`, kept within the admissible range.
fn scale_zoom(s: i64, f: i64) -> (r: i64)
    requires
        0 <= s <= FX_BOUND,
        0 < f <= 16 * FX,
    ensures
        r == clamp_spec(tdiv(s as int * f as int, FX as int), FX_BOUND as int),
        0 <= r <= FX_BOUND,
{
    proof {
        lemma_mul_in_range(s as int, f as int, FX_BOUND as int, 16 * FX as int);
        crate::fixed::lemma_mul_nonneg(s as int, f as int);
        assert((s as int * f as int) / (FX as int) >= 0) by (nonlinear_arith)
            requires
                s as int * f as int >= 0,
        ;
    }
    let num: i128 = (s as i128) * (f as i128);
    let q: i128 = num / (FX as i128);
    if q > FX_BOUND as i128 {
        FX_BOUND
    } else {
        q as i64
    }
}

/// One zoom-about-cursor translation step:
/// `t' = c - (c - t) * f / FX`, clamped.
fn zoom_about(t: i64, c: i64, f: i64) -> (r: i64)
    requires
        -FX_BOUND <= t <= FX_BOUND,
        -FX_BOUND <= c <= FX_BOUND,
        0 < f <= 16 * FX,
    ensures
        r == clamp_spec(c - tdiv((c - t) * f as int, FX as int), FX_BOUND as int),
{
    proof {
        lemma_mul_in_range((c - t) as int, f as int, 2 * FX_BOUND as int, 16 * FX as int);
        assert(((c as int - t as int) * f as int) >= 0 ==> 0 <= ((c as int - t as int)
            * f as int) / (FX as int) <= (c as int - t as int) * f as int) by (nonlinear_arith);
        assert(((c as int - t as int) * f as int) < 0 ==> 0 <= (-((c as int - t as int)
            * f as int)) / (FX as int) <= -((c as int - t as int) * f as int)) by (nonlinear_arith);
    }
    let num: i128 = ((c - t) as i128) * (f as i128);
    let q: i128 = if num >= 0 {
        num / (FX as i128)
    } else {
        -((-num) / (FX as i128))
    };
    let s: i128 = (c as i128) - q;
    let bound = FX_BOUND as i128;
    if s < -bound {
        -FX_BOUND
    } else if s > bound {
        FX_BOUND
    } else {
        s as i64
    }
}

/// The executable matrix product agrees with its specification.
proof fn lemma_mat3_products_match(a: Mat3, b: Mat3, m: Mat3)
    requires
        m.xx == clamp_spec(
            row_dot(a.xx as int, a.xy as int, a.xz as int, b.xx as int, b.yx as int, b.zx as int),
            crate::geom::MAT_LIMIT as int,
        ),
        m.xy == clamp_spec(
            row_dot(a.xx as int, a.xy as int, a.xz as int, b.xy as int, b.yy as int, b.zy as int),
            crate::geom::MAT_LIMIT as int,
        ),
        m.xz == clamp_spec(
            row_dot(a.xx as int, a.xy as int, a.xz as int, b.xz as int, b.yz as int, b.zz as int),
            crate::geom::MAT_LIMIT as int,
        ),
        m.yx == clamp_spec(
            row_dot(a.yx as int, a.yy as int, a.yz as int, b.xx as int, b.yx as int, b.zx as int),
            crate::geom::MAT_LIMIT as int,
        ),
        m.yy == clamp_spec(
            row_dot(a.yx as int, a.yy as int, a.yz as int, b.xy as int, b.yy as int, b.zy as int),
            crate::geom::MAT_LIMIT as int,
        ),
        m.yz == clamp_spec(
            row_dot(a.yx as int, a.yy as int, a.yz as int, b.xz as int, b.yz as int, b.zz as int),
            crate::geom::MAT_LIMIT as int,
        ),
        m.zx == clamp_spec(
            row_dot(a.zx as int, a.zy as int, a.zz as int, b.xx as int, b.yx as int, b.zx as int),
            crate::geom::MAT_LIMIT as int,
        ),
        m.zy == clamp_spec(
            row_dot(a.zx as int, a.zy as int, a.zz as int, b.xy as int, b.yy as int, b.zy as int),
            crate::geom::MAT_LIMIT as int,
        ),
        m.zz == clamp_spec(
            row_dot(a.zx as int, a.zy as int, a.zz as int, b.xz as int, b.yz as int, b.zz as int),
            crate::geom::MAT_LIMIT as int,
        ),
    ensures
        m == mat3_mul_spec(a, b),
{
}

} // verus!

verus! {

/// The interaction of one view: orbital or in-plane, chosen at view creation
/// and fixed for the view's lifetime.
pub enum InteractionEnum {
    /// Free orbit interaction.
    Orbital(OrbitalInteraction),
    /// In-plane interaction with a locked forward axis.
    InPlane(InplaneInteraction),
}

impl InteractionEnum {
    /// The variant's well-formedness.
    pub open spec fn wf(&self) -> bool {
        match self {
            InteractionEnum::Orbital(o) => o.wf(),
            InteractionEnum::InPlane(p) => p.wf(),
        }
    }

    /// Whether an interaction is live: an orbital view is active under a
    /// pointer drag or a scroll, an in-plane view under a scroll.
    pub open spec fn is_active_spec(&self) -> bool {
        match self {
            InteractionEnum::Orbital(o) => o.maybe_pointer_state is Some
                || o.maybe_scroll_state is Some,
            InteractionEnum::InPlane(p) => p.maybe_scroll_state is Some,
        }
    }

    /// The view's scene-from-camera pose.
    pub fn scene_from_camera(&self) -> (r: Pose)
        requires
            self.wf(),
        ensures
            r.bounded(),
            match self {
                InteractionEnum::Orbital(o) => r == o.scene_from_camera,
                InteractionEnum::InPlane(p) => r == (Pose {
                    rot: mat3_mul_spec(p.base_scene_from_camera.rot, p.roll),
                    pos: p.base_scene_from_camera.pos,
                }) && forward_axis(r.rot) == forward_axis(p.base_scene_from_camera.rot),
            },
            r == self.pose_spec(),
    {
        match self {
            InteractionEnum::Orbital(o) => o.scene_from_camera,
            InteractionEnum::InPlane(p) => p.scene_from_camera(),
        }
    }

    /// The view's 2D pan/zoom: the identity for an orbital view.
    pub fn zoom2d(&self) -> (r: TranslationAndScaling)
        ensures
            match self {
                InteractionEnum::Orbital(o) => r.translation == (V2 { x: 0, y: 0 }) && r.scaling
                    == (V2 { x: FX, y: FX }),
                InteractionEnum::InPlane(p) => r == p.zoom2d,
            },
            self.wf() ==> r.wf(),
            r == self.zoom2d_spec(),
    {
        match self {
            InteractionEnum::Orbital(o) => TranslationAndScaling::identity(),
            InteractionEnum::InPlane(p) => p.zoom2d(),
        }
    }

    /// The last recovered focus, if any.
    pub fn maybe_scene_focus(&self) -> (r: Option<SceneFocus>)
        ensures
            match self {
                InteractionEnum::Orbital(o) => r == o.maybe_scene_focus,
                InteractionEnum::InPlane(p) => r == p.maybe_scene_focus,
            },
    {
        match self {
            InteractionEnum::Orbital(o) => o.maybe_scene_focus,
            InteractionEnum::InPlane(p) => p.maybe_scene_focus,
        }
    }

    /// Whether an interaction is live right now.
    pub fn is_active(&self) -> (r: bool)
        ensures
            r == self.is_active_spec(),
    {
        match self {
            InteractionEnum::Orbital(o) => o.maybe_pointer_state.is_some()
                || o.maybe_scroll_state.is_some(),
            InteractionEnum::InPlane(p) => p.maybe_scroll_state.is_some(),
        }
    }

    /// Feeds one input frame to whichever machine the view runs; a live
    /// interaction always leaves a focus behind, and an in-plane view keeps
    /// its base pose whatever arrives.
    pub fn process_event(
        &mut self,
        cam: &RenderIntrinsics,
        event: &InputEvent,
        scales: &ViewportScale,
        z_buffer: &DepthImage,
    ) -> (r: Option<RotationRequest>)
        requires
            old(self).wf(),
            cam.wf(),
            event.wf(),
            scales.wf(),
            z_buffer.wf(),
        ensures
            final(self).wf(),
            (*final(self)) is Orbital <==> (*old(self)) is Orbital,
            final(self).is_active_spec() == match *old(self) {
                InteractionEnum::Orbital(o) => event.dragging() || (event.pointer_pos is Some
                    && event.scrolling()),
                InteractionEnum::InPlane(p) => event.pointer_pos is Some && event.scrolling(),
            },
            (*final(self)) matches InteractionEnum::InPlane(p) ==> (*old(self)) matches
                InteractionEnum::InPlane(q) && p.base_scene_from_camera == q.base_scene_from_camera
                && p.roll == q.roll,
            (*final(self)) matches InteractionEnum::Orbital(o) ==> (*old(self)) matches
                InteractionEnum::Orbital(q) && o.scene_from_camera.rot == q.scene_from_camera.rot,
            r matches Some(req) ==> req.pivot.bounded(),
            // the full variant contracts, carried through the dispatch
            (*old(self)) matches InteractionEnum::Orbital(p) ==> ((*final(self)) matches
                InteractionEnum::Orbital(q) && orbital_step(
                p,
                *cam,
                *event,
                *scales,
                *z_buffer,
                q,
                r,
            )),
            (*old(self)) matches InteractionEnum::InPlane(p) ==> ((*final(self)) matches
                InteractionEnum::InPlane(q) && inplane_event_step(p, *event, *scales, q, r)),
    {
        match self {
            InteractionEnum::Orbital(o) => o.process_event(cam, event, scales, z_buffer),
            InteractionEnum::InPlane(p) => p.process_event(cam, event, scales),
        }
    }

    /// Applies a rotation handed back by the shell: an orbit step about the
    /// pivot for an orbital view, an in-plane roll step for an in-plane view
    /// (whose base pose, and so its forward axis, stays exactly as it was).
    pub fn apply_rotation(&mut self, dr: &Mat3, pivot: &V3)
        requires
            old(self).wf(),
            dr.bounded(),
            pivot.bounded(),
            (*old(self)) is InPlane ==> rotz_form(*dr),
        ensures
            final(self).wf(),
            (*final(self)) is Orbital <==> (*old(self)) is Orbital,
            (*final(self)) matches InteractionEnum::InPlane(p) ==> (*old(self)) matches
                InteractionEnum::InPlane(q) && p.base_scene_from_camera == q.base_scene_from_camera
                && p.roll == mat3_mul_spec(q.roll, *dr),
            (*final(self)) matches InteractionEnum::Orbital(o) ==> (*old(self)) matches
                InteractionEnum::Orbital(q) && o.scene_from_camera.rot == mat3_mul_spec(
                *dr,
                q.scene_from_camera.rot,
            ),
            rotation_step(*old(self), *dr, *pivot, *final(self)),
    {
        match self {
            InteractionEnum::Orbital(o) => o.apply_delta_rotation(dr, pivot),
            InteractionEnum::InPlane(p) => p.apply_roll(dr),
        }
    }

}

/// Everything applying one shell rotation does: the exact orbit composition
/// about the pivot for an orbital view, the exact roll accumulation (base
/// pose untouched) for an in-plane view — the whole contract of
/// `InteractionEnum::apply_rotation`, as one predicate.
pub open spec fn rotation_step(
    pre: InteractionEnum,
    dr: Mat3,
    pivot: V3,
    post: InteractionEnum,
) -> bool {
    &&& post.wf()
    &&& (pre matches InteractionEnum::Orbital(p) ==> (post matches InteractionEnum::Orbital(q) && {
        &&& q.scene_from_camera == (Pose {
            rot: mat3_mul_spec(dr, p.scene_from_camera.rot),
            pos: V3 {
                x: crate::geom::pivot_component(
                    dr.xx as int,
                    dr.xy as int,
                    dr.xz as int,
                    p.scene_from_camera.pos,
                    pivot,
                    pivot.x as int,
                ) as i64,
                y: crate::geom::pivot_component(
                    dr.yx as int,
                    dr.yy as int,
                    dr.yz as int,
                    p.scene_from_camera.pos,
                    pivot,
                    pivot.y as int,
                ) as i64,
                z: crate::geom::pivot_component(
                    dr.zx as int,
                    dr.zy as int,
                    dr.zz as int,
                    p.scene_from_camera.pos,
                    pivot,
                    pivot.z as int,
                ) as i64,
            },
        })
        &&& q.clipping_planes == p.clipping_planes
        &&& q.maybe_pointer_state == p.maybe_pointer_state
        &&& q.maybe_scroll_state == p.maybe_scroll_state
        &&& q.maybe_scene_focus == p.maybe_scene_focus
    }))
    &&& (pre matches InteractionEnum::InPlane(p) ==> (post matches InteractionEnum::InPlane(q) && {
        &&& q.base_scene_from_camera == p.base_scene_from_camera
        &&& q.roll == mat3_mul_spec(p.roll, dr)
        &&& q.zoom2d == p.zoom2d
        &&& q.clipping_planes == p.clipping_planes
        &&& q.maybe_scroll_state == p.maybe_scroll_state
        &&& q.maybe_scene_focus == p.maybe_scene_focus
    }))
}

impl InteractionEnum {
    /// The focus marker to draw: present exactly while an interaction is
    /// live, at the focus position, colored by the fixed depth ramp.
    pub fn marker(&self) -> (r: Option<SceneFocusMarker>)
        requires
            self.wf(),
        ensures
            r is Some <==> self.is_active_spec(),
            r matches Some(mk) ==> self.maybe_scene_focus_spec() matches Some(f) && mk.u
                == f.uv_in_virtual_camera.x && mk.v == f.uv_in_virtual_camera.y && mk.color == (
            Color {
                r: crate::depth::ramp_red(f.ndc_z as int) as u8,
                g: crate::depth::ramp_green(f.ndc_z as int) as u8,
                b: crate::depth::ramp_blue(f.ndc_z as int) as u8,
                a: 255,
            }) && -FX_BOUND <= mk.u <= FX_BOUND && -FX_BOUND <= mk.v <= FX_BOUND,
            r == self.marker_spec(),
    {
        if self.is_active() {
            let scene_focus = match self.maybe_scene_focus() {
                Some(f) => f,
                None => {
                    proof {
                        assert(false);
                    }
                    unreached()
                },
            };
            let rgb = ndc_z_to_color(scene_focus.ndc_z);
            Some(
                SceneFocusMarker {
                    color: Color { r: rgb[0], g: rgb[1], b: rgb[2], a: 255 },
                    u: scene_focus.uv_in_virtual_camera.x,
                    v: scene_focus.uv_in_virtual_camera.y,
                },
            )
        } else {
            None
        }
    }

    /// The scene-from-camera pose, as a value.
    pub open spec fn pose_spec(&self) -> Pose {
        match self {
            InteractionEnum::Orbital(o) => o.scene_from_camera,
            InteractionEnum::InPlane(p) => Pose {
                rot: mat3_mul_spec(p.base_scene_from_camera.rot, p.roll),
                pos: p.base_scene_from_camera.pos,
            },
        }
    }

    /// The 2D pan/zoom, as a value: the identity for an orbital view.
    pub open spec fn zoom2d_spec(&self) -> TranslationAndScaling {
        match self {
            InteractionEnum::Orbital(o) => TranslationAndScaling {
                translation: V2 { x: 0, y: 0 },
                scaling: V2 { x: FX, y: FX },
            },
            InteractionEnum::InPlane(p) => p.zoom2d,
        }
    }

    /// The focus marker, as a value: present exactly while active, at the
    /// focus position, colored by the fixed depth ramp.
    pub open spec fn marker_spec(&self) -> Option<SceneFocusMarker> {
        if self.is_active_spec() {
            match self.maybe_scene_focus_spec() {
                Some(f) => Some(
                    SceneFocusMarker {
                        color: Color {
                            r: crate::depth::ramp_red(f.ndc_z as int) as u8,
                            g: crate::depth::ramp_green(f.ndc_z as int) as u8,
                            b: crate::depth::ramp_blue(f.ndc_z as int) as u8,
                            a: 255,
                        },
                        u: f.uv_in_virtual_camera.x,
                        v: f.uv_in_virtual_camera.y,
                    },
                ),
                None => None,
            }
        } else {
            None
        }
    }

    /// The last recovered focus, as a value.
    pub open spec fn maybe_scene_focus_spec(&self) -> Option<SceneFocus> {
        match self {
            InteractionEnum::Orbital(o) => o.maybe_scene_focus,
            InteractionEnum::InPlane(p) => p.maybe_scene_focus,
        }
    }
}

} // verus!

verus! {

/// One admissible step of an in-plane view's life: whatever the event or
/// roll was, the base pose is kept and the roll stays an in-plane rotation —
/// exactly what `InplaneInteraction::process_event` and
/// `InplaneInteraction::apply_roll` ensure.
pub open spec fn inplane_step(s1: InplaneInteraction, s2: InplaneInteraction) -> bool {
    s2.base_scene_from_camera == s1.base_scene_from_camera && rotz_form(s2.roll)
}

/// In-plane axis lock: across any sequence of pan, zoom and roll steps, the
/// camera forward axis of an in-plane view stays bit-for-bit the forward
/// axis of its original base pose.
pub proof fn lemma_inplane_axis_locked_over_chain(chain: Seq<InplaneInteraction>)
    requires
        chain.len() > 0,
        chain[0].wf(),
        forall|i: int| 0 <= i < chain.len() - 1 ==> inplane_step(#[trigger] chain[i], chain[i + 1]),
    ensures
        forall|i: int|
            0 <= i < chain.len() ==> forward_axis(
                mat3_mul_spec((#[trigger] chain[i]).base_scene_from_camera.rot, chain[i].roll),
            ) == forward_axis(chain[0].base_scene_from_camera.rot),
    decreases chain.len(),
{
    assert forall|i: int| 0 <= i < chain.len() implies forward_axis(
        mat3_mul_spec((#[trigger] chain[i]).base_scene_from_camera.rot, chain[i].roll),
    ) == forward_axis(chain[0].base_scene_from_camera.rot) by {
        lemma_chain_state(chain, i);
    }
}

/// Every state of an admissible chain keeps the original base pose and an
/// in-plane roll, so its composed pose keeps the original forward axis.
proof fn lemma_chain_state(chain: Seq<InplaneInteraction>, i: int)
    requires
        chain.len() > 0,
        chain[0].wf(),
        forall|j: int| 0 <= j < chain.len() - 1 ==> inplane_step(#[trigger] chain[j], chain[j + 1]),
        0 <= i < chain.len(),
    ensures
        chain[i].base_scene_from_camera == chain[0].base_scene_from_camera,
        rotz_form(chain[i].roll),
        forward_axis(mat3_mul_spec(chain[i].base_scene_from_camera.rot, chain[i].roll))
            == forward_axis(chain[0].base_scene_from_camera.rot),
    decreases i,
{
    if i == 0 {
    } else {
        lemma_chain_state(chain, i - 1);
        assert(inplane_step(chain[i - 1], chain[i]));
    }
    lemma_inplane_keeps_forward_axis(chain[i].base_scene_from_camera.rot, chain[i].roll);
}

} // verus!
