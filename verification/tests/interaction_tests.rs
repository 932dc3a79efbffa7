use dog_tv::camera::ImageSize;
use dog_tv::camera::PinholeIntrinsics;
use dog_tv::camera::RenderIntrinsics;
use dog_tv::depth::ClippingPlanes;
use dog_tv::depth::DepthImage;
use dog_tv::geom::Mat3;
use dog_tv::geom::Pose;
use dog_tv::geom::V2;
use dog_tv::geom::V3;
use dog_tv::interactions::InplaneInteraction;
use dog_tv::interactions::InputEvent;
use dog_tv::interactions::InteractionEnum;
use dog_tv::interactions::OrbitalInteraction;
use dog_tv::interactions::ViewportScale;

const FX: i64 = 65536;
const NDC_ONE: u32 = 1048576;

fn cam() -> RenderIntrinsics {
    RenderIntrinsics::Pinhole(PinholeIntrinsics {
        fx: 100 * FX,
        fy: 100 * FX,
        cx: 32 * FX,
        cy: 32 * FX,
        image_size: ImageSize { width: 64, height: 64 },
    })
}

fn clip() -> ClippingPlanes {
    ClippingPlanes { near: FX / 10, far: 1000 * FX }
}

fn far_depth_buffer() -> DepthImage {
    DepthImage {
        size: ImageSize { width: 64, height: 64 },
        ndc: vec![NDC_ONE; 64 * 64],
        clipping_planes: clip(),
    }
}

fn scales() -> ViewportScale {
    ViewportScale::from_image_size_and_viewport_size(
        ImageSize { width: 64, height: 64 },
        ImageSize { width: 64, height: 64 },
    )
}

fn idle_event() -> InputEvent {
    InputEvent {
        pointer_pos: None,
        primary_down: false,
        secondary_down: false,
        drag_delta: V2 { x: 0, y: 0 },
        scroll_delta: V2 { x: 0, y: 0 },
        modifier_held: false,
    }
}

fn rot90z() -> Mat3 {
    Mat3 { xx: 0, xy: -FX, xz: 0, yx: FX, yy: 0, yz: 0, zx: 0, zy: 0, zz: FX }
}

#[test]
fn primary_drag_enters_rotate_and_requests_angles() {
    let mut o = OrbitalInteraction::new(Pose::identity(), clip());
    let ev = InputEvent {
        pointer_pos: Some(V2 { x: 10 * FX, y: 12 * FX }),
        primary_down: true,
        drag_delta: V2 { x: 400 * FX, y: -200 * FX },
        ..idle_event()
    };
    let req = o.process_event(&cam(), &ev, &scales(), &far_depth_buffer());
    assert!(o.maybe_pointer_state.is_some());
    assert!(o.maybe_scene_focus.is_some());
    let req = req.expect("a rotate drag asks the shell for a rotation");
    // one pixel of drag turns by 1/200 radian
    assert_eq!(req.yaw, 400 * FX / 200);
    assert_eq!(req.pitch, -200 * FX / 200);
    assert_eq!(req.roll, 0);
}

#[test]
fn input_ceasing_returns_to_idle() {
    let mut o = OrbitalInteraction::new(Pose::identity(), clip());
    let drag = InputEvent {
        pointer_pos: Some(V2 { x: 5 * FX, y: 5 * FX }),
        primary_down: true,
        ..idle_event()
    };
    o.process_event(&cam(), &drag, &scales(), &far_depth_buffer());
    assert!(o.maybe_pointer_state.is_some());
    o.process_event(&cam(), &idle_event(), &scales(), &far_depth_buffer());
    assert!(o.maybe_pointer_state.is_none());
    assert!(o.maybe_scroll_state.is_none());
    let e = InteractionEnum::Orbital(o);
    assert!(!e.is_active());
    assert!(e.marker().is_none());
}

#[test]
fn modifier_scroll_enters_in_plane_rotating() {
    let mut o = OrbitalInteraction::new(Pose::identity(), clip());
    let ev = InputEvent {
        pointer_pos: Some(V2 { x: 5 * FX, y: 5 * FX }),
        scroll_delta: V2 { x: 100 * FX, y: 0 },
        modifier_held: true,
        ..idle_event()
    };
    let req = o.process_event(&cam(), &ev, &scales(), &far_depth_buffer());
    assert!(o.maybe_scroll_state.is_some());
    let req = req.expect("a modifier scroll asks the shell for a roll");
    assert_eq!(req.roll, 100 * FX / 200);
    assert_eq!(req.pitch, 0);
    assert_eq!(req.yaw, 0);
    // the pose rotation is untouched until the shell hands the matrix back
    assert_eq!(o.scene_from_camera.rot, Mat3::identity());
}

#[test]
fn far_plane_pick_falls_back_to_nominal_depth() {
    let mut o = OrbitalInteraction::new(Pose::identity(), clip());
    let ev = InputEvent {
        pointer_pos: Some(V2 { x: 32 * FX, y: 32 * FX }),
        primary_down: true,
        ..idle_event()
    };
    o.process_event(&cam(), &ev, &scales(), &far_depth_buffer());
    let f = o.maybe_scene_focus.unwrap();
    assert_eq!(f.ndc_z, NDC_ONE);
    assert_eq!(f.depth, 5 * FX);
}

#[test]
fn pan_moves_the_camera_but_not_its_rotation() {
    let mut o = OrbitalInteraction::new(
        Pose { rot: Mat3::identity(), pos: V3 { x: 0, y: 0, z: 0 } },
        clip(),
    );
    let ev = InputEvent {
        pointer_pos: Some(V2 { x: 32 * FX, y: 32 * FX }),
        secondary_down: true,
        drag_delta: V2 { x: 100 * FX, y: 0 },
        ..idle_event()
    };
    o.process_event(&cam(), &ev, &scales(), &far_depth_buffer());
    assert_eq!(o.scene_from_camera.rot, Mat3::identity());
    assert!(o.scene_from_camera.pos.x != 0, "pan moves the camera sideways");
    assert_eq!(o.scene_from_camera.pos.z, 0);
}

#[test]
fn marker_shows_the_focus_with_the_far_ramp_color() {
    let mut o = OrbitalInteraction::new(Pose::identity(), clip());
    let ev = InputEvent {
        pointer_pos: Some(V2 { x: 16 * FX, y: 20 * FX }),
        primary_down: true,
        ..idle_event()
    };
    o.process_event(&cam(), &ev, &scales(), &far_depth_buffer());
    let e = InteractionEnum::Orbital(o);
    assert!(e.is_active());
    let mk = e.marker().expect("an active interaction shows its marker");
    // far-plane depth colors the marker with the far end of the ramp
    assert_eq!((mk.color.r, mk.color.g, mk.color.b, mk.color.a), (0, 0, 255, 255));
    assert_eq!(mk.u, 16 * FX);
    assert_eq!(mk.v, 20 * FX);
}

#[test]
fn in_plane_axis_is_locked_across_pan_zoom_roll() {
    // the base pose carries a non-trivial forward axis
    let base = Pose {
        rot: Mat3 { xx: 0, xy: 0, xz: FX, yx: FX, yy: 0, yz: 0, zx: 0, zy: FX, zz: 0 },
        pos: V3 { x: FX, y: 0, z: 0 },
    };
    let axis_before = {
        let r = base.rot;
        (r.xz, r.yz, r.zz)
    };
    let mut p = InplaneInteraction::new(base, clip());

    let pan = InputEvent {
        pointer_pos: Some(V2 { x: 5 * FX, y: 5 * FX }),
        secondary_down: true,
        drag_delta: V2 { x: 30 * FX, y: -4 * FX },
        ..idle_event()
    };
    p.process_event(&cam(), &pan, &scales());
    let zoom = InputEvent {
        pointer_pos: Some(V2 { x: 5 * FX, y: 5 * FX }),
        scroll_delta: V2 { x: 0, y: 2 * FX },
        ..idle_event()
    };
    p.process_event(&cam(), &zoom, &scales());
    let roll = InputEvent {
        pointer_pos: Some(V2 { x: 5 * FX, y: 5 * FX }),
        scroll_delta: V2 { x: 3 * FX, y: 0 },
        modifier_held: true,
        ..idle_event()
    };
    let req = p.process_event(&cam(), &roll, &scales());
    assert!(req.is_some(), "a modifier scroll asks for an in-plane roll");
    p.apply_roll(&rot90z());
    p.apply_roll(&rot90z());

    let pose = p.scene_from_camera();
    let axis_after = (pose.rot.xz, pose.rot.yz, pose.rot.zz);
    // bit-for-bit unchanged across the whole gesture sequence
    assert_eq!(axis_after, axis_before);
    assert_eq!(p.base_scene_from_camera, base);
}

#[test]
fn in_plane_zoom_scales_about_the_cursor() {
    let mut p = InplaneInteraction::new(Pose::identity(), clip());
    let zoom_in = InputEvent {
        pointer_pos: Some(V2 { x: 10 * FX, y: 10 * FX }),
        scroll_delta: V2 { x: 0, y: 8 * FX },
        ..idle_event()
    };
    p.process_event(&cam(), &zoom_in, &scales());
    assert!(p.zoom2d.scaling.x > FX, "scrolling up zooms in");
    assert_eq!(p.zoom2d.scaling.x, p.zoom2d.scaling.y);
}

#[test]
fn viewport_scale_maps_pixel_centers() {
    // a 2x viewport downscale: viewport pixel 0 lands between image pixels
    let s = ViewportScale::from_image_size_and_viewport_size(
        ImageSize { width: 128, height: 128 },
        ImageSize { width: 64, height: 64 },
    );
    let uv = s.apply(V2 { x: 0, y: 0 });
    assert_eq!(uv, V2 { x: FX / 2, y: FX / 2 });
}
