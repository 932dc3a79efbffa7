use dog_tv::camera::isqrt;
use dog_tv::camera::ImageSize;
use dog_tv::camera::PinholeIntrinsics;
use dog_tv::camera::RenderIntrinsics;
use dog_tv::camera::UnifiedIntrinsics;
use dog_tv::geom::mat3_apply;
use dog_tv::geom::orbit_pose;
use dog_tv::geom::pose_apply;
use dog_tv::geom::pose_unapply;
use dog_tv::geom::rotate_about_pivot;
use dog_tv::geom::Mat3;
use dog_tv::geom::Pose;
use dog_tv::geom::V2;
use dog_tv::geom::V3;

const FX: i64 = 65536;

fn rot90z() -> Mat3 {
    // an exact 90-degree rotation about the view axis
    Mat3 { xx: 0, xy: -FX, xz: 0, yx: FX, yy: 0, yz: 0, zx: 0, zy: 0, zz: FX }
}

fn pinhole() -> PinholeIntrinsics {
    PinholeIntrinsics {
        fx: 600 * FX,
        fy: 600 * FX,
        cx: 320 * FX,
        cy: 240 * FX,
        image_size: ImageSize { width: 640, height: 480 },
    }
}

#[test]
fn isqrt_brackets_its_argument() {
    assert_eq!(isqrt(0), 0);
    assert_eq!(isqrt(15), 3);
    assert_eq!(isqrt(16), 4);
    assert_eq!(isqrt(1 << 40), 1 << 20);
    assert_eq!(isqrt((1 << 40) - 1), (1 << 20) - 1);
}

#[test]
fn identity_matrix_fixes_points() {
    let m = Mat3::identity();
    let v = V3 { x: 123456, y: -789, z: 42 };
    assert_eq!(mat3_apply(&m, &v), v);
}

#[test]
fn rotation_about_pivot_fixes_the_pivot() {
    // the algebraic heart of pivot invariance, on a concrete rotation
    let pivot = V3 { x: FX, y: 2 * FX, z: 3 * FX };
    let r = rotate_about_pivot(&rot90z(), &pivot, &pivot);
    assert_eq!(r, pivot);
}

#[test]
fn orbit_keeps_the_pivot_screen_position() {
    // camera at the identity orientation, pivot in front of it: after an
    // exact 90-degree orbit about the pivot, the pivot's camera-frame
    // coordinates, and so its projected pixel, are unchanged
    let pose = Pose {
        rot: Mat3::identity(),
        pos: V3 { x: 0, y: 0, z: -5 * FX },
    };
    let pivot = V3 { x: FX, y: -FX, z: 2 * FX };
    let cam = pinhole();

    let before_cam = pose_unapply(&pose, &pivot);
    let before_px = cam.project(&before_cam).unwrap();

    let turned = orbit_pose(&pose, &rot90z(), &pivot);
    let after_cam = pose_unapply(&turned, &pivot);
    let after_px = cam.project(&after_cam).unwrap();

    assert_eq!(before_px, after_px);
    assert_eq!(before_cam, after_cam);
}

#[test]
fn pinhole_projects_center_to_principal_point() {
    let cam = pinhole();
    let px = cam.project(&V3 { x: 0, y: 0, z: 2 * FX }).unwrap();
    assert_eq!(px, V2 { x: 320 * FX, y: 240 * FX });
    // a point behind the camera cannot be projected
    assert!(cam.project(&V3 { x: 0, y: 0, z: -FX }).is_none());
}

#[test]
fn pinhole_unproject_inverts_project() {
    let cam = pinhole();
    let q = V3 { x: FX, y: -FX / 2, z: 4 * FX };
    let uv = cam.project(&q).unwrap();
    let back = cam.unproject(&uv, q.z);
    assert!((back.x - q.x).abs() <= 8, "x came back as {}", back.x);
    assert!((back.y - q.y).abs() <= 8, "y came back as {}", back.y);
    assert_eq!(back.z, q.z);
}

#[test]
fn unified_with_zero_coefficients_matches_pinhole() {
    let p = pinhole();
    let u = UnifiedIntrinsics {
        fx: p.fx,
        fy: p.fy,
        cx: p.cx,
        cy: p.cy,
        alpha: 0,
        beta: 0,
        image_size: p.image_size,
    };
    let q = V3 { x: FX / 2, y: FX / 4, z: 3 * FX };
    let from_pinhole = p.project(&q).unwrap();
    let from_unified = u.project(&q).unwrap();
    assert_eq!(from_pinhole, from_unified);
}

#[test]
fn unified_distortion_bends_off_center_rays() {
    let p = pinhole();
    let u = UnifiedIntrinsics {
        fx: p.fx,
        fy: p.fy,
        cx: p.cx,
        cy: p.cy,
        alpha: FX / 2,
        beta: FX,
        image_size: p.image_size,
    };
    let q = V3 { x: 2 * FX, y: 0, z: 3 * FX };
    let straight = p.project(&q).unwrap();
    let bent = u.project(&q).unwrap();
    // the unified model pulls off-center points toward the principal point
    assert!(bent.x < straight.x, "expected {} < {}", bent.x, straight.x);
    // on the optical axis both models agree
    let center = V3 { x: 0, y: 0, z: 3 * FX };
    assert_eq!(
        u.project(&center).unwrap(),
        p.project(&center).unwrap()
    );
}

#[test]
fn pose_apply_and_unapply_are_inverse_for_exact_rotations() {
    let pose = Pose { rot: rot90z(), pos: V3 { x: 7 * FX, y: 0, z: -FX } };
    let q = V3 { x: FX, y: 2 * FX, z: 3 * FX };
    let world = pose_apply(&pose, &q);
    let back = pose_unapply(&pose, &world);
    assert_eq!(back, q);
}

#[test]
fn camera_intrinsics_expose_their_image_size() {
    let cam = RenderIntrinsics::Pinhole(pinhole());
    assert_eq!(cam.image_size(), ImageSize { width: 640, height: 480 });
}
