use dog_tv::camera::ImageSize;
use dog_tv::camera::RenderCamera;
use dog_tv::camera::RenderCameraProperties;
use dog_tv::depth::DepthImage;
use dog_tv::geom::Mat3;
use dog_tv::geom::Pose;
use dog_tv::interactions::InputEvent;
use dog_tv::renderables::world_from_scene_update_packet;
use dog_tv::viewer::ViewResponse;
use dog_tv::renderables::make_image_packet;
use dog_tv::renderables::make_scene_packet;
use dog_tv::renderables::Color;
use dog_tv::renderables::Frame;
use dog_tv::renderables::Line2;
use dog_tv::renderables::LineSet2;
use dog_tv::renderables::Packets;
use dog_tv::renderables::PixelRenderable;
use dog_tv::renderables::Point3;
use dog_tv::renderables::PointCloud3;
use dog_tv::renderables::SceneRenderable;
use dog_tv::geom::V2;
use dog_tv::geom::V3;
use dog_tv::viewer::get_adjusted_view_size;
use dog_tv::viewer::median_of_ratios;
use dog_tv::viewer::sort_ratios;
use dog_tv::viewer::AspectRatio;
use dog_tv::viewer::PanelView;
use dog_tv::viewer::Ratio64;
use dog_tv::viewer::ViewerBase;

const FX: i64 = 65536;

fn white() -> Color {
    Color { r: 255, g: 255, b: 255, a: 255 }
}

fn small_camera() -> RenderCameraProperties {
    RenderCameraProperties::from_image_size(ImageSize { width: 32, height: 32 })
}

fn a_cloud(name: &str) -> SceneRenderable {
    SceneRenderable::Points(PointCloud3 {
        name: String::from(name),
        points: vec![Point3 { pos: V3 { x: 0, y: 0, z: FX }, color: white() }],
        point_size: 2,
    })
}

fn some_lines(name: &str) -> PixelRenderable {
    PixelRenderable::Lines(LineSet2 {
        name: String::from(name),
        lines: vec![Line2 {
            a: V2 { x: 0, y: 0 },
            b: V2 { x: 8 * FX, y: 8 * FX },
            color: white(),
        }],
        width: 1,
    })
}

fn empty_frame() -> Frame {
    Frame { image: None, camera_properties: small_camera() }
}

#[test]
fn scene_packet_creates_the_view_once() {
    let mut viewer = ViewerBase::new();
    let cam = RenderCamera::default_camera();
    let p1 = make_scene_packet("main", cam, vec![a_cloud("a")]);
    let p2 = make_scene_packet("main", cam, vec![a_cloud("b")]);
    viewer.update_data(Packets { packets: vec![p1, p2] });
    assert_eq!(viewer.views.len(), 1);
    match viewer.views.get(&String::from("main")).unwrap() {
        PanelView::Scene(sv) => {
            assert_eq!(sv.renderer.scene.point_table.len(), 2);
            assert!(sv.enabled);
        }
        PanelView::Image(_) => panic!("a scene packet makes a scene view"),
    }
}

#[test]
fn frame_then_content_shows_exactly_that_content() {
    // an image packet with a frame for a previously empty view, followed by
    // content: exactly that content is retained
    let mut viewer = ViewerBase::new();
    let with_frame = make_image_packet(
        "cam0",
        Some(empty_frame()),
        vec![some_lines("grid")],
        Vec::new(),
    );
    viewer.update_data(Packets { packets: vec![with_frame] });
    match viewer.views.get(&String::from("cam0")).unwrap() {
        PanelView::Image(iv) => {
            assert!(iv.has_frame);
            assert_eq!(iv.renderer.pixel.line_table.len(), 1);
            assert_eq!(iv.renderer.pixel.point_table.len(), 0);
        }
        PanelView::Scene(_) => panic!("an image packet makes an image view"),
    }

    // a new frame deletes all previous content and keeps only the new
    let replace = make_image_packet(
        "cam0",
        Some(empty_frame()),
        vec![some_lines("other")],
        Vec::new(),
    );
    viewer.update_data(Packets { packets: vec![replace] });
    match viewer.views.get(&String::from("cam0")).unwrap() {
        PanelView::Image(iv) => {
            assert_eq!(iv.renderer.pixel.line_table.len(), 1);
            assert!(iv.renderer.pixel.line_table.get(&String::from("grid")).is_none());
            assert!(iv.renderer.pixel.line_table.get(&String::from("other")).is_some());
        }
        PanelView::Scene(_) => unreachable!(),
    }
}

#[test]
fn content_without_any_frame_is_dropped() {
    // frame = None for a view that never received a frame: no visible content
    let mut viewer = ViewerBase::new();
    let orphan = make_image_packet("ghost", None, vec![some_lines("grid")], Vec::new());
    viewer.update_data(Packets { packets: vec![orphan] });
    assert_eq!(viewer.views.len(), 0);
}

#[test]
fn content_appends_once_a_frame_exists() {
    let mut viewer = ViewerBase::new();
    let with_frame = make_image_packet("cam0", Some(empty_frame()), vec![some_lines("a")], Vec::new());
    let append = make_image_packet("cam0", None, vec![some_lines("b")], Vec::new());
    viewer.update_data(Packets { packets: vec![with_frame, append] });
    match viewer.views.get(&String::from("cam0")).unwrap() {
        PanelView::Image(iv) => {
            assert_eq!(iv.renderer.pixel.line_table.len(), 2);
        }
        PanelView::Scene(_) => unreachable!(),
    }
}

#[test]
fn sorting_ratios_orders_by_width_over_height() {
    let sorted = sort_ratios(vec![
        AspectRatio { w: 2, h: 1 },
        AspectRatio { w: 1, h: 2 },
        AspectRatio { w: 1, h: 1 },
    ]);
    assert_eq!(
        sorted,
        vec![
            AspectRatio { w: 1, h: 2 },
            AspectRatio { w: 1, h: 1 },
            AspectRatio { w: 2, h: 1 },
        ]
    );
}

#[test]
fn median_of_odd_and_even_batches() {
    let odd = median_of_ratios(vec![
        AspectRatio { w: 16, h: 9 },
        AspectRatio { w: 1, h: 1 },
        AspectRatio { w: 4, h: 3 },
    ]);
    let (m, n) = odd.unwrap();
    assert_eq!(n, 3);
    assert_eq!((m.num, m.den), (4, 3));

    let even = median_of_ratios(vec![AspectRatio { w: 2, h: 1 }, AspectRatio { w: 1, h: 1 }]);
    let (m, n) = even.unwrap();
    assert_eq!(n, 2);
    // the average of 1/1 and 2/1 is 3/2
    assert_eq!((m.num, m.den), (3, 2));

    assert!(median_of_ratios(Vec::new()).is_none());
}

#[test]
fn adjusted_view_size_fits_the_cell() {
    // a 2:1 view inside a square cell takes the full width, half the height
    let r = get_adjusted_view_size(Ratio64 { num: 2, den: 1 }, 100 * FX, 100 * FX);
    assert_eq!(r.width, 100 * FX);
    assert_eq!(r.height, 50 * FX);
    // and a 1:2 view the full height, half the width
    let r = get_adjusted_view_size(Ratio64 { num: 1, den: 2 }, 100 * FX, 100 * FX);
    assert_eq!(r.width, 50 * FX);
    assert_eq!(r.height, 100 * FX);
}

#[test]
fn central_panel_renders_one_frame_per_enabled_view() {
    let mut viewer = ViewerBase::new();
    let cam = RenderCamera::default_camera();
    let p1 = make_scene_packet("main", cam, vec![a_cloud("a")]);
    viewer.update_data(Packets { packets: vec![p1] });
    let frames = viewer.update_central_panel(200 * FX, 200 * FX);
    assert_eq!(frames.len(), 1);
    assert_eq!(frames[0].view_label, "main");
    let vp = frames[0].viewport;
    assert!(vp.width > 0 && vp.width <= 200 * FX);
    assert!(vp.height > 0 && vp.height <= 200 * FX);
    let img = frames[0].result.rgba_image.as_ref().unwrap();
    assert_eq!(img.size, vp.image_size());

    // a disabled view is skipped
    match viewer.views.value_at_mut(0) {
        PanelView::Scene(sv) => sv.enabled = false,
        PanelView::Image(_) => unreachable!(),
    }
    let frames = viewer.update_central_panel(200 * FX, 200 * FX);
    assert_eq!(frames.len(), 0);
}

#[test]
fn world_from_scene_update_overwrites_the_reference_pose() {
    let mut viewer = ViewerBase::new();
    let cam = RenderCamera::default_camera();
    viewer.update_data(Packets { packets: vec![make_scene_packet("main", cam, Vec::new())] });
    let new_pose = Pose {
        rot: Mat3::identity(),
        pos: V3 { x: 7 * FX, y: 0, z: -2 * FX },
    };
    viewer.update_data(Packets {
        packets: vec![world_from_scene_update_packet("main", new_pose)],
    });
    match viewer.views.get(&String::from("main")).unwrap() {
        PanelView::Scene(sv) => assert_eq!(sv.world_from_scene, new_pose),
        PanelView::Image(_) => unreachable!(),
    }
}

#[test]
fn process_events_runs_the_machines_and_collects_rotations() {
    let mut viewer = ViewerBase::new();
    let cam = RenderCamera::default_camera();
    viewer.update_data(Packets { packets: vec![make_scene_packet("main", cam, Vec::new())] });
    let clip = cam.properties.clipping_planes;
    let vp = ImageSize { width: 64, height: 64 };
    let response = ViewResponse {
        view_label: String::from("main"),
        event: InputEvent {
            pointer_pos: Some(V2 { x: 5 * FX, y: 5 * FX }),
            primary_down: true,
            secondary_down: false,
            drag_delta: V2 { x: 200 * FX, y: 0 },
            scroll_delta: V2 { x: 0, y: 0 },
            modifier_held: false,
        },
        view_port_size: vp,
        z_image: DepthImage {
            size: vp,
            ndc: vec![1048576; 64 * 64],
            clipping_planes: clip,
        },
    };
    let rotations = viewer.process_events(vec![response]);
    assert_eq!(rotations.len(), 1);
    assert_eq!(rotations[0].0, "main");
    assert_eq!(rotations[0].1.yaw, 200 * FX / 200);
    assert_eq!(viewer.active_view, "main");
    assert!(viewer.active_view_info.is_some());

    // hand an exact quarter turn back; the view keeps working
    let rot90z = Mat3 { xx: 0, xy: -FX, xz: 0, yx: FX, yy: 0, yz: 0, zx: 0, zy: 0, zz: FX };
    viewer.apply_view_rotation(&String::from("main"), &rot90z, &rotations[0].1.pivot);
    match viewer.views.get(&String::from("main")).unwrap() {
        PanelView::Scene(sv) => {
            let pose = sv.interaction.scene_from_camera();
            assert_eq!(pose.rot, rot90z, "a quarter turn of the identity pose");
        }
        PanelView::Image(_) => unreachable!(),
    }
}
