use dog_tv::camera::ImageSize;
use dog_tv::camera::PinholeIntrinsics;
use dog_tv::camera::RenderCameraProperties;
use dog_tv::camera::RenderIntrinsics;
use dog_tv::depth::ClippingPlanes;
use dog_tv::geom::Mat3;
use dog_tv::geom::Pose;
use dog_tv::geom::V3;
use dog_tv::renderables::Color;
use dog_tv::renderables::ImageRgba;
use dog_tv::renderables::Line3;
use dog_tv::renderables::LineSet3;
use dog_tv::renderables::Mesh3;
use dog_tv::renderables::PixelRenderable;
use dog_tv::renderables::Point2;
use dog_tv::renderables::PointSet2;
use dog_tv::renderables::SceneFocusMarker;
use dog_tv::renderables::Point3;
use dog_tv::renderables::PointCloud3;
use dog_tv::renderables::SceneRenderable;
use dog_tv::renderables::Tri3;
use dog_tv::renderer::OffscreenRenderer;
use dog_tv::sim::CameraSimulator;

const FX: i64 = 65536;
const NDC_ONE: u32 = 1048576;

fn red() -> Color {
    Color { r: 255, g: 0, b: 0, a: 255 }
}

fn green() -> Color {
    Color { r: 0, g: 255, b: 0, a: 255 }
}

fn blue() -> Color {
    Color { r: 0, g: 0, b: 255, a: 255 }
}

fn camera_64() -> RenderCameraProperties {
    RenderCameraProperties {
        intrinsics: RenderIntrinsics::Pinhole(PinholeIntrinsics {
            fx: 60 * FX,
            fy: 60 * FX,
            cx: 32 * FX,
            cy: 32 * FX,
            image_size: ImageSize { width: 64, height: 64 },
        }),
        clipping_planes: ClippingPlanes { near: 6554, far: 1000 * FX },
    }
}

fn scene_entities() -> Vec<SceneRenderable> {
    // one red point at (0, 0, -0.1) and one green mesh at z = +3
    let point = SceneRenderable::Points(PointCloud3 {
        name: String::from("red point"),
        points: vec![Point3 { pos: V3 { x: 0, y: 0, z: -6554 }, color: red() }],
        point_size: 3,
    });
    let z = 3 * FX;
    let mesh = SceneRenderable::Mesh(Mesh3 {
        name: String::from("green mesh"),
        triangles: vec![
            Tri3 {
                a: V3 { x: -2 * FX, y: -2 * FX, z },
                b: V3 { x: 2 * FX, y: -2 * FX, z },
                c: V3 { x: 0, y: 2 * FX, z },
                color: green(),
            },
        ],
    });
    vec![mesh, point]
}

fn camera_pose_at_minus_five() -> Pose {
    // camera at z = -5 looking toward +z
    Pose { rot: Mat3::identity(), pos: V3 { x: 0, y: 0, z: -5 * FX } }
}

#[test]
fn simulate_shows_the_point_in_front_of_the_mesh() {
    let mut sim = CameraSimulator::new(&camera_64());
    sim.update_3d_renderables(scene_entities());
    let shot = sim.render(&camera_pose_at_minus_five());

    let w = shot.rgba_image.size.width;
    let px = |x: usize, y: usize| shot.rgba_image.pixels[y * w + x];
    let metric = shot.depth_image.metric_image();

    // the red point projects to the image center
    assert_eq!(px(32, 32), red(), "the point wins the depth test at the center");
    // the mesh is visible away from the point
    assert_eq!(px(32, 40), green());

    // every red pixel is nearer than any green pixel in the same column
    let mut seen_red = 0;
    for x in 0..w {
        for y_red in 0..w {
            if px(x, y_red) != red() {
                continue;
            }
            seen_red += 1;
            for y_green in 0..w {
                if px(x, y_green) == green() {
                    assert!(
                        metric[y_red * w + x] < metric[y_green * w + x],
                        "point pixel ({}, {}) must be nearer than mesh pixel ({}, {})",
                        x,
                        y_red,
                        x,
                        y_green
                    );
                }
            }
        }
    }
    assert!(seen_red > 0, "the point must be visible");

    // depth readback: the point sits about 4.9 units away, the mesh about 8
    let center = metric[32 * w + 32];
    assert!((center - (5 * FX - 6554)).abs() <= 256, "point depth was {}", center);
    let on_mesh = metric[40 * w + 32];
    assert!((on_mesh - 8 * FX).abs() <= 256, "mesh depth was {}", on_mesh);
}

#[test]
fn updating_an_entity_name_replaces_it() {
    let mut sim = CameraSimulator::new(&camera_64());
    sim.update_3d_renderables(vec![SceneRenderable::Points(PointCloud3 {
        name: String::from("cloud"),
        points: vec![Point3 { pos: V3 { x: 0, y: 0, z: 0 }, color: red() }],
        point_size: 1,
    })]);
    sim.update_3d_renderables(vec![SceneRenderable::Points(PointCloud3 {
        name: String::from("cloud"),
        points: vec![
            Point3 { pos: V3 { x: 0, y: 0, z: 0 }, color: red() },
            Point3 { pos: V3 { x: FX, y: 0, z: 0 }, color: red() },
        ],
        point_size: 1,
    })]);
    let table = &sim.renderer.scene.point_table;
    assert_eq!(table.len(), 1);
    assert_eq!(table.get(&String::from("cloud")).unwrap().points.len(), 2);
}

#[test]
fn background_image_sits_at_the_background_plane() {
    let mut renderer = OffscreenRenderer::new(&camera_64());
    let bg = ImageRgba {
        size: ImageSize { width: 2, height: 2 },
        pixels: vec![blue(); 4],
    };
    let intr = renderer.intrinsics();
    renderer.reset_2d_frame(&intr, Some(bg));
    let pose = camera_pose_at_minus_five();
    let viewport = ImageSize { width: 64, height: 64 };
    let params = renderer.render_params(&viewport, &pose).download_rgba(true);
    let result = renderer.render(&params);

    let img = result.rgba_image.unwrap();
    // no geometry anywhere: every pixel shows the background
    assert_eq!(img.pixels[0], blue());
    // composited at the background plane distance (900 metric units)
    let expected = camera_64().clipping_planes.ndc_from_metric(900 * FX);
    assert_eq!(result.depth_image.ndc[0], expected);
    assert!(expected < NDC_ONE);
}

#[test]
fn render_recreates_buffers_on_viewport_change() {
    let mut renderer = OffscreenRenderer::new(&camera_64());
    let pose = camera_pose_at_minus_five();
    let small = ImageSize { width: 16, height: 16 };
    let large = ImageSize { width: 48, height: 24 };
    let params = renderer.render_params(&small, &pose);
    let r1 = renderer.render(&params);
    assert_eq!(r1.depth_image.ndc.len(), 16 * 16);
    let params = renderer.render_params(&large, &pose);
    let r2 = renderer.render(&params);
    assert_eq!(r2.depth_image.ndc.len(), 48 * 24);
    assert_eq!(renderer.textures.view_port_size, large);
}

#[test]
fn depth_visualization_is_produced_on_request() {
    let mut renderer = OffscreenRenderer::new(&camera_64());
    let pose = camera_pose_at_minus_five();
    let viewport = ImageSize { width: 8, height: 8 };
    let params = renderer.render_params(&viewport, &pose).compute_depth_texture(true);
    let result = renderer.render(&params);
    let visual = result.visual_depth.unwrap();
    assert_eq!(visual.len(), 4 * 8 * 8);
    // empty scene: the far end of the ramp everywhere
    assert_eq!(&visual[0..4], &[0, 0, 255, 255]);
    assert!(result.rgba_image.is_none(), "no download was requested");
}

#[test]
fn backface_culling_drops_clockwise_triangles() {
    let z = 3 * FX;
    // wound so that its screen winding is negative
    let tri = SceneRenderable::Mesh(Mesh3 {
        name: String::from("back"),
        triangles: vec![Tri3 {
            a: V3 { x: -2 * FX, y: -2 * FX, z },
            b: V3 { x: 0, y: 2 * FX, z },
            c: V3 { x: 2 * FX, y: -2 * FX, z },
            color: green(),
        }],
    });
    let pose = camera_pose_at_minus_five();
    let viewport = ImageSize { width: 64, height: 64 };

    let mut renderer = OffscreenRenderer::new(&camera_64());
    renderer.update_3d_renderables(vec![tri]);
    let params = renderer.render_params(&viewport, &pose).download_rgba(true).backface_culling(
        true,
    );
    let culled = renderer.render(&params);
    let img = culled.rgba_image.unwrap();
    assert!(img.pixels.iter().all(|p| *p != green()), "a backface is culled");

    let params = renderer.render_params(&viewport, &pose).download_rgba(true);
    let drawn = renderer.render(&params);
    let img = drawn.rgba_image.unwrap();
    assert!(img.pixels.iter().any(|p| *p == green()), "without culling it is drawn");
}

#[test]
fn line_sets_are_rasterized_with_interpolated_depth() {
    let mut sim = CameraSimulator::new(&camera_64());
    sim.update_3d_renderables(vec![SceneRenderable::Lines(LineSet3 {
        name: String::from("bar"),
        lines: vec![Line3 {
            a: V3 { x: -FX, y: 0, z: 3 * FX },
            b: V3 { x: FX, y: 0, z: 3 * FX },
            color: green(),
        }],
        width: 1,
    })]);
    let shot = sim.render(&camera_pose_at_minus_five());
    let w = shot.rgba_image.size.width;
    // the segment crosses the image center row
    assert_eq!(shot.rgba_image.pixels[32 * w + 32], green());
    let metric = shot.depth_image.metric_image();
    assert!((metric[32 * w + 32] - 8 * FX).abs() <= 256);
}

#[test]
fn overlay_draws_in_pixel_space_and_leaves_depth_alone() {
    let mut renderer = OffscreenRenderer::new(&camera_64());
    renderer.update_2d_renderables(vec![PixelRenderable::Points(PointSet2 {
        name: String::from("dots"),
        points: vec![Point2 { pos: dog_tv::geom::V2 { x: 5 * FX, y: 6 * FX }, color: green() }],
        point_size: 0,
    })]);
    let pose = camera_pose_at_minus_five();
    let viewport = ImageSize { width: 64, height: 64 };
    let marker = SceneFocusMarker { color: red(), u: 20 * FX, v: 21 * FX };
    let params = renderer
        .render_params(&viewport, &pose)
        .interaction(Some(marker))
        .download_rgba(true);
    let result = renderer.render(&params);
    let img = result.rgba_image.unwrap();
    assert_eq!(img.pixels[6 * 64 + 5], green(), "a 2D point lands on its pixel");
    assert_eq!(img.pixels[21 * 64 + 20], red(), "the focus marker is drawn");
    // overlay content carries no depth
    assert!(result.depth_image.ndc.iter().all(|&d| d == NDC_ONE));
}
