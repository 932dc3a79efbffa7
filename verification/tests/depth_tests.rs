use dog_tv::camera::ImageSize;
use dog_tv::depth::ndc_z_to_color;
use dog_tv::depth::ClippingPlanes;
use dog_tv::depth::DepthImage;

const FX: i64 = 65536;
const NDC_ONE: u32 = 1048576;

#[test]
fn metric_from_ndc_exact_midpoint() {
    // near = 1, far = 3: ndc 1/2 maps to metric 3/2 exactly
    let clip = ClippingPlanes { near: FX, far: 3 * FX };
    let m = clip.metric_from_ndc(NDC_ONE / 2);
    assert_eq!(m, 3 * FX / 2);
}

#[test]
fn metric_from_ndc_endpoints() {
    let clip = ClippingPlanes { near: FX / 10, far: 1000 * FX };
    assert_eq!(clip.metric_from_ndc(0), FX / 10);
    assert_eq!(clip.metric_from_ndc(NDC_ONE), 1000 * FX);
}

#[test]
fn depth_round_trip_within_tolerance() {
    // the exact fraction round trip is proved; the executable path rounds
    // once per direction, so samples come back within a few ulps
    let clip = ClippingPlanes { near: FX / 2, far: 1000 * FX };
    for &ndc in &[0u32, 1, 17, 1000, 52413, 524288, 1000000, NDC_ONE - 1, NDC_ONE] {
        let m = clip.metric_from_ndc(ndc);
        let back = clip.ndc_from_metric(m);
        let diff = (back as i64 - ndc as i64).abs();
        assert!(diff <= 64, "ndc {} came back as {} (diff {})", ndc, back, diff);
    }
}

#[test]
fn ndc_from_metric_endpoints() {
    let clip = ClippingPlanes { near: FX, far: 100 * FX };
    assert_eq!(clip.ndc_from_metric(FX), 0);
    assert_eq!(clip.ndc_from_metric(100 * FX), NDC_ONE);
}

#[test]
fn color_ramp_fixed_points() {
    assert_eq!(ndc_z_to_color(0), [255, 0, 0]);
    assert_eq!(ndc_z_to_color(NDC_ONE), [0, 0, 255]);
    assert_eq!(ndc_z_to_color(NDC_ONE / 2), [128, 255, 127]);
}

#[test]
fn depth_image_sample_clamps_out_of_range() {
    let clip = ClippingPlanes { near: FX, far: 10 * FX };
    let mut ndc = vec![NDC_ONE; 4];
    ndc[0] = 7; // pixel (0, 0)
    let img = DepthImage {
        size: ImageSize { width: 2, height: 2 },
        ndc,
        clipping_planes: clip,
    };
    assert_eq!(img.sample(0, 0), 7);
    // out-of-range lookups answer with the nearest edge pixel
    assert_eq!(img.sample(-5, -9), 7);
    assert_eq!(img.sample(10, 0), img.sample(1, 0));
}

#[test]
fn depth_image_metric_and_colors() {
    let clip = ClippingPlanes { near: FX, far: 3 * FX };
    let img = DepthImage {
        size: ImageSize { width: 2, height: 1 },
        ndc: vec![NDC_ONE / 2, NDC_ONE],
        clipping_planes: clip,
    };
    let metric = img.metric_image();
    assert_eq!(metric, vec![3 * FX / 2, 3 * FX]);
    let colors = img.color_image();
    assert_eq!(colors.len(), 8);
    assert_eq!(&colors[0..4], &[128, 255, 127, 255]);
    assert_eq!(&colors[4..8], &[0, 0, 255, 255]);
}
