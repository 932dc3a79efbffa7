//! The camera simulator: a render-only, non-interactive wrapper around one
//! offscreen renderer, producing a deterministic image and depth image for a
//! given camera pose over static geometry.

use vstd::prelude::*;

use crate::camera::RenderCameraProperties;
use crate::depth::DepthImage;
use crate::geom::Pose;
use crate::renderables::ImageRgba;
use crate::renderables::SceneRenderable;
use crate::renderer::line_sets_after;
use crate::renderer::meshes_after;
use crate::renderer::point_clouds_after;
use crate::renderer::OffscreenRenderer;

verus! {

/// A simulated camera frame: the RGBA image and its depth image.
pub struct SimulatedImage {
    /// The rendered RGBA image.
    pub rgba_image: ImageRgba,
    /// The rendered depth image.
    pub depth_image: DepthImage,
}

/// A render-only camera over a retained 3D scene.
pub struct CameraSimulator {
    /// The renderer that does the work.
    pub renderer: OffscreenRenderer,
}

impl CameraSimulator {
    /// The renderer is well-formed.
    pub open spec fn wf(&self) -> bool {
        self.renderer.wf()
    }

    /// A new simulator for the given camera.
    pub fn new(camera_properties: &RenderCameraProperties) -> (r: CameraSimulator)
        requires
            camera_properties.wf(),
        ensures
            r.wf(),
            r.renderer.camera_properties == camera_properties,
            r.renderer.scene.mesh_table@ == Map::<Seq<char>, crate::renderables::Mesh3>::empty(),
            r.renderer.scene.line_table@ == Map::<Seq<char>, crate::renderables::LineSet3>::empty(),
            r.renderer.scene.point_table@ == Map::<
                Seq<char>,
                crate::renderables::PointCloud3,
            >::empty(),
    {
        CameraSimulator { renderer: OffscreenRenderer::new(camera_properties) }
    }

    /// Upserts scene renderables into the retained tables by name.
    pub fn update_3d_renderables(&mut self, renderables: Vec<SceneRenderable>)
        requires
            old(self).wf(),
            forall|i: int| 0 <= i < renderables@.len() ==> (#[trigger] renderables@[i]).wf(),
        ensures
            final(self).wf(),
            final(self).renderer.scene.mesh_table@ == meshes_after(
                old(self).renderer.scene.mesh_table@,
                renderables@,
            ),
            final(self).renderer.scene.line_table@ == line_sets_after(
                old(self).renderer.scene.line_table@,
                renderables@,
            ),
            final(self).renderer.scene.point_table@ == point_clouds_after(
                old(self).renderer.scene.point_table@,
                renderables@,
            ),
            final(self).renderer.camera_properties == old(self).renderer.camera_properties,
    {
        self.renderer.update_3d_renderables(renderables);
    }

    /// Renders one frame from the given pose: a single deterministic call,
    /// viewport sized to the camera's own image size, RGBA always downloaded.
    pub fn render(&mut self, scene_from_camera: &Pose) -> (r: SimulatedImage)
        requires
            old(self).wf(),
            scene_from_camera.bounded(),
        ensures
            final(self).wf(),
            final(self).renderer.camera_properties == old(self).renderer.camera_properties,
            final(self).renderer.scene == old(self).renderer.scene,
            r.rgba_image.wf(),
            r.rgba_image.size == old(
                self,
            ).renderer.camera_properties.intrinsics.image_size_spec(),
            r.depth_image.wf(),
            r.depth_image.size == old(self).renderer.camera_properties.intrinsics.image_size_spec(),
            r.depth_image.clipping_planes == old(self).renderer.camera_properties.clipping_planes,
            // the simulated frame is exactly the renderer's composed output
            r.rgba_image.pixels@ == final(self).renderer.textures.composed.rgba@,
            r.depth_image.ndc@ == final(self).renderer.textures.composed.ndc@,
    {
        let view_port_size = self.renderer.intrinsics().image_size();
        let params = self.renderer.render_params(&view_port_size, scene_from_camera).download_rgba(
            true,
        );
        let result = self.renderer.render(&params);
        let rgba_image = match result.rgba_image {
            Some(img) => img,
            None => {
                proof {
                    assert(false);
                }
                unreached()
            },
        };
        SimulatedImage { rgba_image, depth_image: result.depth_image }
    }
}

} // verus!
