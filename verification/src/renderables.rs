//! Drawable entities, background frames and the packet protocol that streams
//! them into the viewer.
//!
//! Every entity carries a name; a retained table keeps exactly one entity per
//! name (insertion replaces). 3D entities live in scene space, 2D entities in
//! final image pixel space.

use vstd::prelude::*;

use crate::camera::ImageSize;
use crate::camera::RenderCamera;
use crate::camera::RenderCameraProperties;
use crate::geom::Pose;
use crate::geom::V2;
use crate::geom::V3;
use crate::plots::PlotViewPacket;

verus! {

/// An RGBA color, one byte per channel.
#[derive(Clone, Copy, Debug, PartialEq, Eq, Structural)]
pub struct Color {
    /// Red.
    pub r: u8,
    /// Green.
    pub g: u8,
    /// Blue.
    pub b: u8,
    /// Alpha.
    pub a: u8,
}

/// Largest admissible point size / line width, in pixels. Any projected
/// brush center lies within 2^17 pixels of the origin and no viewport side
/// exceeds 4096 pixels, so a brush this wide already covers every viewport
/// pixel reachable from any center; a larger brush would paint the same
/// pixels.
pub const MAX_BRUSH: u32 = 0x100000;

/// One colored 3D point.
#[derive(Clone, Copy, Debug, PartialEq, Eq, Structural)]
pub struct Point3 {
    /// Scene-space position.
    pub pos: V3,
    /// Point color.
    pub color: Color,
}

/// One colored 3D line segment.
#[derive(Clone, Copy, Debug, PartialEq, Eq, Structural)]
pub struct Line3 {
    /// First endpoint.
    pub a: V3,
    /// Second endpoint.
    pub b: V3,
    /// Line color.
    pub color: Color,
}

/// One flat-colored triangle.
#[derive(Clone, Copy, Debug, PartialEq, Eq, Structural)]
pub struct Tri3 {
    /// First vertex.
    pub a: V3,
    /// Second vertex.
    pub b: V3,
    /// Third vertex.
    pub c: V3,
    /// Face color.
    pub color: Color,
}

/// A named set of 3D points.
pub struct PointCloud3 {
    /// Table key.
    pub name: String,
    /// The points.
    pub points: Vec<Point3>,
    /// Rendered point size in pixels.
    pub point_size: u32,
}

/// A named set of 3D line segments.
pub struct LineSet3 {
    /// Table key.
    pub name: String,
    /// The segments.
    pub lines: Vec<Line3>,
    /// Rendered line width in pixels.
    pub width: u32,
}

/// A named triangle mesh.
pub struct Mesh3 {
    /// Table key.
    pub name: String,
    /// The triangle list.
    pub triangles: Vec<Tri3>,
}

/// A drawable 3D entity.
pub enum SceneRenderable {
    /// A point set.
    Points(PointCloud3),
    /// A line set.
    Lines(LineSet3),
    /// A triangle mesh.
    Mesh(Mesh3),
}

impl SceneRenderable {
    /// The table key of this entity.
    pub open spec fn name_spec(&self) -> Seq<char> {
        match self {
            SceneRenderable::Points(p) => p.name@,
            SceneRenderable::Lines(l) => l.name@,
            SceneRenderable::Mesh(m) => m.name@,
        }
    }

    /// The table key of this entity.
    pub fn name(&self) -> (n: &String)
        ensures
            n@ == self.name_spec(),
    {
        match self {
            SceneRenderable::Points(p) => &p.name,
            SceneRenderable::Lines(l) => &l.name,
            SceneRenderable::Mesh(m) => &m.name,
        }
    }

    /// All coordinates in range, brush sizes admissible.
    pub open spec fn wf(&self) -> bool {
        match self {
            SceneRenderable::Points(p) => p.point_size <= MAX_BRUSH && forall|i: int|
                0 <= i < p.points@.len() ==> (#[trigger] p.points@[i]).pos.bounded(),
            SceneRenderable::Lines(l) => l.width <= MAX_BRUSH && forall|i: int|
                0 <= i < l.lines@.len() ==> (#[trigger] l.lines@[i]).a.bounded()
                    && l.lines@[i].b.bounded(),
            SceneRenderable::Mesh(m) => forall|i: int|
                0 <= i < m.triangles@.len() ==> (#[trigger] m.triangles@[i]).a.bounded()
                    && m.triangles@[i].b.bounded() && m.triangles@[i].c.bounded(),
        }
    }
}

/// One colored 2D point, in final image pixel space (fixed-point).
#[derive(Clone, Copy, Debug, PartialEq, Eq, Structural)]
pub struct Point2 {
    /// Pixel-space position.
    pub pos: V2,
    /// Point color.
    pub color: Color,
}

/// One colored 2D line segment, in final image pixel space (fixed-point).
#[derive(Clone, Copy, Debug, PartialEq, Eq, Structural)]
pub struct Line2 {
    /// First endpoint.
    pub a: V2,
    /// Second endpoint.
    pub b: V2,
    /// Line color.
    pub color: Color,
}

/// A named set of 2D points.
pub struct PointSet2 {
    /// Table key.
    pub name: String,
    /// The points.
    pub points: Vec<Point2>,
    /// Rendered point size in pixels.
    pub point_size: u32,
}

/// A named set of 2D line segments.
pub struct LineSet2 {
    /// Table key.
    pub name: String,
    /// The segments.
    pub lines: Vec<Line2>,
    /// Rendered line width in pixels.
    pub width: u32,
}

/// A drawable 2D entity.
pub enum PixelRenderable {
    /// A point set.
    Points(PointSet2),
    /// A line set.
    Lines(LineSet2),
}

impl PixelRenderable {
    /// The table key of this entity.
    pub open spec fn name_spec(&self) -> Seq<char> {
        match self {
            PixelRenderable::Points(p) => p.name@,
            PixelRenderable::Lines(l) => l.name@,
        }
    }

    /// The table key of this entity.
    pub fn name(&self) -> (n: &String)
        ensures
            n@ == self.name_spec(),
    {
        match self {
            PixelRenderable::Points(p) => &p.name,
            PixelRenderable::Lines(l) => &l.name,
        }
    }

    /// Brush sizes admissible.
    pub open spec fn wf(&self) -> bool {
        match self {
            PixelRenderable::Points(p) => p.point_size <= MAX_BRUSH,
            PixelRenderable::Lines(l) => l.width <= MAX_BRUSH,
        }
    }
}

/// A host-memory RGBA image.
pub struct ImageRgba {
    /// Width and height in pixels.
    pub size: ImageSize,
    /// Row-major pixels, `size.width * size.height` of them.
    pub pixels: Vec<Color>,
}

impl ImageRgba {
    /// The pixel buffer covers the stated size.
    pub open spec fn wf(&self) -> bool {
        self.size.wf() && self.pixels@.len() == self.size.width * self.size.height
    }
}

/// A background frame for an image view: an optional image and the camera
/// the view should adopt.
pub struct Frame {
    /// The background image, if any.
    pub image: Option<ImageRgba>,
    /// Camera properties for the view.
    pub camera_properties: RenderCameraProperties,
}

impl Frame {
    /// Camera well-formed and any image well-formed.
    pub open spec fn wf(&self) -> bool {
        self.camera_properties.wf() && match &self.image {
            Some(img) => img.wf(),
            None => true,
        }
    }
}

/// Renderable content addressed to an image view.
pub enum ImageViewRenderable {
    /// A background image.
    BackgroundImage(ImageRgba),
}

/// Packet to populate an image view.
///
/// For each `view_label`, content (`pixel_renderables`, `scene_renderables`)
/// is added to the existing frame; if no frame exists yet — `frame` was always
/// `None` for this label — the content is dropped. When `frame` is `Some`,
/// all previous content is deleted and this packet's content is added.
pub struct ImageViewPacket {
    /// Frame to hold content.
    pub frame: Option<Frame>,
    /// List of 2D renderables.
    pub pixel_renderables: Vec<PixelRenderable>,
    /// List of scene renderables.
    pub scene_renderables: Vec<SceneRenderable>,
    /// Name of the view.
    pub view_label: String,
}

/// Packet to populate a scene view.
pub struct SceneViewPacket {
    /// List of 3D renderables.
    pub scene_renderables: Vec<SceneRenderable>,
    /// World-from-scene pose update, if any.
    pub world_from_scene_update: Option<Pose>,
    /// Name of the view.
    pub view_label: String,
    /// Initial camera, ignored if not the first packet for this view.
    pub initial_camera: RenderCamera,
    /// Lock the view to the bird's-eye orientation.
    pub locked_to_birds_eye_orientation: bool,
}

/// A packet of renderables.
pub enum Packet {
    /// Scene view packet.
    Scene(SceneViewPacket),
    /// Image view packet.
    Image(ImageViewPacket),
    /// Plot view packets, routed past the render core untouched.
    Plot(Vec<PlotViewPacket>),
}

/// An ordered batch of packets.
pub struct Packets {
    /// List of packets.
    pub packets: Vec<Packet>,
}

/// Creates an image packet.
pub fn make_image_packet(
    view_label: &str,
    frame: Option<Frame>,
    pixel_renderables: Vec<PixelRenderable>,
    scene_renderables: Vec<SceneRenderable>,
) -> (r: Packet)
    ensures
        r matches Packet::Image(p) && p.view_label@ == view_label@ && p.frame == frame
            && p.pixel_renderables == pixel_renderables && p.scene_renderables == scene_renderables,
{
    Packet::Image(
        ImageViewPacket { frame, pixel_renderables, scene_renderables, view_label: view_label.to_owned() },
    )
}

/// Creates a scene packet.
pub fn make_scene_packet(
    view_label: &str,
    initial_camera: RenderCamera,
    scene_renderables: Vec<SceneRenderable>,
) -> (r: Packet)
    ensures
        r matches Packet::Scene(p) && p.view_label@ == view_label@ && p.initial_camera
            == initial_camera && p.scene_renderables == scene_renderables
            && !p.locked_to_birds_eye_orientation && p.world_from_scene_update is None,
{
    Packet::Scene(
        SceneViewPacket {
            initial_camera,
            view_label: view_label.to_owned(),
            scene_renderables,
            locked_to_birds_eye_orientation: false,
            world_from_scene_update: None,
        },
    )
}

/// Creates a scene packet locked to the bird's-eye view.
pub fn make_birds_eye_scene_packet(
    view_label: &str,
    initial_camera: RenderCamera,
    scene_renderables: Vec<SceneRenderable>,
) -> (r: Packet)
    ensures
        r matches Packet::Scene(p) && p.view_label@ == view_label@ && p.initial_camera
            == initial_camera && p.scene_renderables == scene_renderables
            && p.locked_to_birds_eye_orientation && p.world_from_scene_update is None,
{
    Packet::Scene(
        SceneViewPacket {
            initial_camera,
            view_label: view_label.to_owned(),
            scene_renderables,
            locked_to_birds_eye_orientation: true,
            world_from_scene_update: None,
        },
    )
}

/// Creates a world-from-scene update packet.
pub fn world_from_scene_update_packet(view_label: &str, world_from_scene_update: Pose) -> (r:
    Packet)
    ensures
        r matches Packet::Scene(p) && p.view_label@ == view_label@ && p.world_from_scene_update
            == Some(world_from_scene_update) && p.scene_renderables@.len() == 0
            && !p.locked_to_birds_eye_orientation && p.initial_camera.wf()
            && p.initial_camera.properties.intrinsics.image_size_spec() == (ImageSize {
            width: 640,
            height: 480,
        }),
{
    Packet::Scene(
        SceneViewPacket {
            initial_camera: RenderCamera::default_camera(),
            view_label: view_label.to_owned(),
            scene_renderables: Vec::new(),
            locked_to_birds_eye_orientation: false,
            world_from_scene_update: Some(world_from_scene_update),
        },
    )
}

} // verus!

verus! {

/// The interaction focus marker: where the last pick landed on screen, and
/// the depth-ramp color it showed.
#[derive(Clone, Copy, Debug, PartialEq, Eq, Structural)]
pub struct SceneFocusMarker {
    /// Marker color, from the fixed depth ramp.
    pub color: Color,
    /// Horizontal position in camera image coordinates (fixed-point pixels).
    pub u: i64,
    /// Vertical position in camera image coordinates (fixed-point pixels).
    pub v: i64,
}

} // verus!
