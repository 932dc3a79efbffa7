//! Conversion between normalized device depth and metric depth, driven by a
//! pair of clipping planes, together with the fixed false-color ramp used to
//! visualize depth.
//!
//! The conversion follows the reciprocal mapping
//! `metric = far * near / (far - ndc_z * (far - near))`, stated here as an
//! exact fraction over the integers so that the round trip is provable.

use vstd::arithmetic::div_mod::lemma_div_is_ordered;
use vstd::arithmetic::div_mod::lemma_div_multiples_vanish;
use vstd::prelude::*;

use crate::fixed::lemma_mul_in_range;
use crate::fixed::FX_BOUND;
use crate::fixed::NDC_ONE;

verus! {

/// Near and far clipping planes, fixed-point metric units.
///
/// Invariant: `0 < near < far`.
#[derive(Clone, Copy, Debug, PartialEq, Eq, Structural)]
pub struct ClippingPlanes {
    /// Near plane distance.
    pub near: i64,
    /// Far plane distance.
    pub far: i64,
}

impl ClippingPlanes {
    /// Well-formedness: the planes are ordered and small enough that every
    /// intermediate product of the depth conversion fits in `i128`.
    pub open spec fn wf(self) -> bool {
        0 < self.near < self.far <= FX_BOUND
    }

    /// Checks the plane invariant.
    pub fn is_wf(&self) -> (r: bool)
        ensures
            r == self.wf(),
    {
        0 < self.near && self.near < self.far && self.far <= FX_BOUND
    }
}

/// Numerator of the metric depth for normalized depth `p / q`.
pub open spec fn metric_num(near: int, far: int, p: int, q: int) -> int {
    far * near * q
}

/// Denominator of the metric depth for normalized depth `p / q`.
pub open spec fn metric_den(near: int, far: int, p: int, q: int) -> int {
    far * q - p * (far - near)
}

/// Numerator of the normalized depth for metric depth `a / b`.
pub open spec fn ndc_num(near: int, far: int, a: int, b: int) -> int {
    far * (a - near * b)
}

/// Denominator of the normalized depth for metric depth `a / b`.
pub open spec fn ndc_den(near: int, far: int, a: int, b: int) -> int {
    a * (far - near)
}

/// Depth round trip: converting a normalized depth `p / q` to its exact metric
/// fraction and back yields the same rational number, for every plane pair
/// with `0 < near < far` and every `p / q` in `[0, 1]`. Equality of the two
/// fractions is stated by cross-multiplication.
pub proof fn lemma_depth_round_trip(near: int, far: int, p: int, q: int)
    requires
        0 < near < far,
        0 <= p <= q,
        0 < q,
    ensures
        metric_den(near, far, p, q) > 0,
        ndc_den(near, far, metric_num(near, far, p, q), metric_den(near, far, p, q)) > 0,
        ndc_num(near, far, metric_num(near, far, p, q), metric_den(near, far, p, q)) * q == p
            * ndc_den(near, far, metric_num(near, far, p, q), metric_den(near, far, p, q)),
{
    let a = metric_num(near, far, p, q);
    let b = metric_den(near, far, p, q);
    let d = far - near;
    assert(b >= near * q > 0) by (nonlinear_arith)
        requires
            b == far * q - p * d,
            d == far - near,
            0 <= p <= q,
            0 < near < far,
            0 < q,
    ;
    assert(a > 0) by (nonlinear_arith)
        requires
            a == far * near * q,
            far > 0,
            near > 0,
            q > 0,
    ;
    assert(ndc_den(near, far, a, b) == a * d);
    assert(a * d > 0) by (nonlinear_arith)
        requires
            a > 0,
            d > 0,
    ;
    assert(a - near * b == near * (p * d)) by (nonlinear_arith)
        requires
            a == far * near * q,
            b == far * q - p * d,
    ;
    assert(far * (near * (p * d)) * q == p * (far * near * q * d)) by (nonlinear_arith);
    assert(far * near * q * d == a * d);
    assert(ndc_num(near, far, a, b) * q == far * (a - near * b) * q);
}

impl ClippingPlanes {
    /// Metric depth of a normalized device depth sample, rounded down.
    ///
    /// The result is the floor of the exact fraction
    /// `metric_num / metric_den` taken at `ndc / NDC_ONE`, and always lies
    /// between the two planes.
    pub fn metric_from_ndc(&self, ndc: u32) -> (m: i64)
        requires
            self.wf(),
            ndc <= NDC_ONE,
        ensures
            m == metric_num(self.near as int, self.far as int, ndc as int, NDC_ONE as int)
                / metric_den(self.near as int, self.far as int, ndc as int, NDC_ONE as int),
            self.near <= m <= self.far,
    {
        let near = self.near as i128;
        let far = self.far as i128;
        let p = ndc as i128;
        let q = NDC_ONE as i128;
        proof {
            lemma_mul_in_range(far as int, near as int, 0x8000_0000, 0x8000_0000);
            lemma_mul_in_range(far as int * near as int, q as int, 0x4000_0000_0000_0000, 0x100000);
            lemma_mul_in_range(far as int, q as int, 0x8000_0000, 0x100000);
            lemma_mul_in_range(p as int, (far - near) as int, 0x100000, 0x8000_0000);
        }
        let num: i128 = far * near * q;
        let den: i128 = far * q - p * (far - near);
        proof {
            let ni = self.near as int;
            let fi = self.far as int;
            let pi = ndc as int;
            let qi = NDC_ONE as int;
            assert(fi * qi - pi * (fi - ni) >= ni * qi) by (nonlinear_arith)
                requires
                    0 <= pi <= qi,
                    0 < ni < fi,
            ;
            assert(ni * qi > 0) by (nonlinear_arith)
                requires
                    ni > 0,
                    qi > 0,
            ;
            // floor(num / den) >= near, since num >= near * den
            assert(num >= ni * den) by (nonlinear_arith)
                requires
                    num == fi * ni * qi,
                    den == fi * qi - pi * (fi - ni),
                    0 <= pi,
                    0 < ni < fi,
            ;
            lemma_div_is_ordered(ni * den, num as int, den as int);
            lemma_div_multiples_vanish(ni, den as int);
            // floor(num / den) <= far, since num <= far * den
            assert(num <= fi * den) by (nonlinear_arith)
                requires
                    num == fi * ni * qi,
                    den == fi * qi - pi * (fi - ni),
                    pi <= qi,
                    0 < ni < fi,
            ;
            lemma_div_is_ordered(num as int, fi * den, den as int);
            lemma_div_multiples_vanish(fi, den as int);
        }
        (num / den) as i64
    }

    /// Normalized device depth of a metric depth, scaled to `NDC_ONE` and
    /// rounded down.
    pub fn ndc_from_metric(&self, m: i64) -> (ndc: u32)
        requires
            self.wf(),
            self.near <= m <= self.far,
        ensures
            ndc == NDC_ONE as int * ndc_num(self.near as int, self.far as int, m as int, 1)
                / ndc_den(self.near as int, self.far as int, m as int, 1),
            ndc <= NDC_ONE,
    {
        let near = self.near as i128;
        let far = self.far as i128;
        let a = m as i128;
        proof {
            lemma_mul_in_range(far as int, (a - near) as int, 0x8000_0000, 0x8000_0000);
            lemma_mul_in_range(
                NDC_ONE as int,
                far as int * (a - near) as int,
                0x100000,
                0x4000_0000_0000_0000,
            );
            lemma_mul_in_range(a as int, (far - near) as int, 0x8000_0000, 0x8000_0000);
        }
        let num: i128 = (NDC_ONE as i128) * (far * (a - near));
        let den: i128 = a * (far - near);
        proof {
            let ni = self.near as int;
            let fi = self.far as int;
            let ai = m as int;
            let qi = NDC_ONE as int;
            assert(den > 0) by (nonlinear_arith)
                requires
                    den == ai * (fi - ni),
                    ai >= ni,
                    0 < ni < fi,
            ;
            assert(num >= 0) by (nonlinear_arith)
                requires
                    num == qi * (fi * (ai - ni)),
                    ai >= ni,
                    fi > 0,
                    qi > 0,
            ;
            lemma_div_is_ordered(0, num as int, den as int);
            // num <= NDC_ONE * den, since far * (a - near) <= a * (far - near)
            assert(num <= qi * den) by (nonlinear_arith)
                requires
                    num == qi * (fi * (ai - ni)),
                    den == ai * (fi - ni),
                    ni <= ai <= fi,
                    0 < ni,
                    qi > 0,
            ;
            lemma_div_is_ordered(num as int, qi * den, den as int);
            lemma_div_multiples_vanish(qi, den as int);
            assert(qi * (fi * (ai - ni)) == qi * ndc_num(ni, fi, ai, 1)) by (nonlinear_arith);
        }
        (num / den) as u32
    }
}

/// Red channel of the fixed false-color depth ramp.
pub open spec fn ramp_red(ndc: int) -> int {
    255 - ndc * 255 / NDC_ONE as int
}

/// Green channel of the fixed false-color depth ramp (peaks at mid depth).
pub open spec fn ramp_green(ndc: int) -> int {
    if ndc < NDC_ONE as int / 2 {
        ndc * 510 / NDC_ONE as int
    } else {
        510 - ndc * 510 / NDC_ONE as int
    }
}

/// Blue channel of the fixed false-color depth ramp.
pub open spec fn ramp_blue(ndc: int) -> int {
    ndc * 255 / NDC_ONE as int
}

/// The fixed depth-to-color ramp: deterministic false color for a normalized
/// depth sample, used only for display, never for picking.
pub fn ndc_z_to_color(ndc: u32) -> (rgb: [u8; 3])
    requires
        ndc <= NDC_ONE,
    ensures
        rgb[0] == ramp_red(ndc as int),
        rgb[1] == ramp_green(ndc as int),
        rgb[2] == ramp_blue(ndc as int),
{
    let n = ndc as i64;
    let one = NDC_ONE as i64;
    let r = 255 - n * 255 / one;
    let g = if n < one / 2 {
        n * 510 / one
    } else {
        510 - n * 510 / one
    };
    let b = n * 255 / one;
    proof {
        let ni = ndc as int;
        let oi = NDC_ONE as int;
        assert(0 <= ni * 255 / oi <= 255) by (nonlinear_arith)
            requires
                0 <= ni <= oi,
                oi > 0,
        ;
        assert(0 <= ni * 510 / oi <= 510) by (nonlinear_arith)
            requires
                0 <= ni <= oi,
                oi > 0,
        ;
        if ni >= oi / 2 {
            assert(ni * 510 >= oi / 2 * 510) by (nonlinear_arith)
                requires
                    ni >= oi / 2,
            ;
            lemma_div_is_ordered(oi / 2 * 510, ni * 510, oi);
            assert(oi / 2 * 510 / oi == 255);
        }
    }
    [r as u8, g as u8, b as u8]
}

} // verus!

verus! {

/// The per-pixel normalized-depth image of one rendered frame, with the
/// planes that give it metric meaning. Recomputed every render call.
pub struct DepthImage {
    /// The viewport this image covers.
    pub size: crate::camera::ImageSize,
    /// Row-major normalized device depth; `NDC_ONE` means "no geometry".
    pub ndc: Vec<u32>,
    /// The clipping planes the depth was rendered with.
    pub clipping_planes: ClippingPlanes,
}

impl DepthImage {
    /// The buffer covers the stated size, every sample is in range, and the
    /// planes are ordered.
    pub open spec fn wf(&self) -> bool {
        &&& self.size.wf()
        &&& self.ndc@.len() == self.size.width * self.size.height
        &&& forall|i: int| 0 <= i < self.ndc@.len() ==> #[trigger] self.ndc@[i] <= NDC_ONE
        &&& self.clipping_planes.wf()
    }

    /// The depth sample at a pixel, clamped into the viewport: an
    /// out-of-range lookup answers with the nearest edge pixel.
    pub fn sample(&self, x: i64, y: i64) -> (r: u32)
        requires
            self.wf(),
        ensures
            r <= NDC_ONE,
            ({
                let cx = if x < 0 { 0 } else if x > self.size.width - 1 { self.size.width - 1 } else { x as int };
                let cy = if y < 0 { 0 } else if y > self.size.height - 1 { self.size.height - 1 } else { y as int };
                r == self.ndc@[cy * self.size.width + cx]
            }),
    {
        let cx: i64 = if x < 0 {
            0
        } else if x > (self.size.width - 1) as i64 {
            (self.size.width - 1) as i64
        } else {
            x
        };
        let cy: i64 = if y < 0 {
            0
        } else if y > (self.size.height - 1) as i64 {
            (self.size.height - 1) as i64
        } else {
            y
        };
        proof {
            crate::fixed::lemma_mul_in_range(
                cy as int,
                self.size.width as int,
                crate::camera::MAX_DIM as int,
                crate::camera::MAX_DIM as int,
            );
            assert(cy as int * self.size.width as int + cx < self.size.width as int
                * self.size.height as int) by (nonlinear_arith)
                requires
                    0 <= cx < self.size.width as int,
                    0 <= cy < self.size.height as int,
            ;
        }
        let idx: usize = (cy as usize) * self.size.width + (cx as usize);
        self.ndc[idx]
    }

    /// The metric depth of every pixel, by the reciprocal plane mapping.
    pub fn metric_image(&self) -> (r: Vec<i64>)
        requires
            self.wf(),
        ensures
            r@.len() == self.ndc@.len(),
            forall|i: int|
                0 <= i < r@.len() ==> #[trigger] r@[i] == metric_num(
                    self.clipping_planes.near as int,
                    self.clipping_planes.far as int,
                    self.ndc@[i] as int,
                    NDC_ONE as int,
                ) / metric_den(
                    self.clipping_planes.near as int,
                    self.clipping_planes.far as int,
                    self.ndc@[i] as int,
                    NDC_ONE as int,
                ),
    {
        let mut out: Vec<i64> = Vec::new();
        let mut i: usize = 0;
        while i < self.ndc.len()
            invariant
                self.wf(),
                i <= self.ndc@.len(),
                out@.len() == i,
                forall|j: int|
                    0 <= j < i ==> #[trigger] out@[j] == metric_num(
                        self.clipping_planes.near as int,
                        self.clipping_planes.far as int,
                        self.ndc@[j] as int,
                        NDC_ONE as int,
                    ) / metric_den(
                        self.clipping_planes.near as int,
                        self.clipping_planes.far as int,
                        self.ndc@[j] as int,
                        NDC_ONE as int,
                    ),
            decreases self.ndc@.len() - i,
        {
            let m = self.clipping_planes.metric_from_ndc(self.ndc[i]);
            out.push(m);
            i += 1;
        }
        out
    }

    /// The deterministic false-color visualization of the depth image, used
    /// only for display, never for picking.
    pub fn color_image(&self) -> (r: Vec<u8>)
        requires
            self.wf(),
        ensures
            r@.len() == 4 * self.ndc@.len(),
            r@ == ramp_image(self.ndc@),
    {
        let mut out: Vec<u8> = Vec::new();
        let mut i: usize = 0;
        while i < self.ndc.len()
            invariant
                self.wf(),
                i <= self.ndc@.len(),
                out@.len() == 4 * i,
                out@ == ramp_image(self.ndc@).take(4 * i),
            decreases self.ndc@.len() - i,
        {
            let ghost out0 = out@;
            let rgb = ndc_z_to_color(self.ndc[i]);
            out.push(rgb[0]);
            out.push(rgb[1]);
            out.push(rgb[2]);
            out.push(255);
            proof {
                assert forall|j: int| 0 <= j < 4 * (i + 1) implies #[trigger] out@[j]
                    == ramp_image(self.ndc@)[j] by {
                    if j < 4 * i {
                        assert(out@[j] == out0[j]);
                        assert(out0[j] == ramp_image(self.ndc@).take(4 * i as int)[j]);
                    } else {
                        let o = j - 4 * i;
                        vstd::arithmetic::div_mod::lemma_fundamental_div_mod_converse(
                            j,
                            4,
                            i as int,
                            o,
                        );
                        assert(j / 4 == i as int && j % 4 == o);
                    }
                }
                assert(out@ =~= ramp_image(self.ndc@).take(4 * (i + 1)));
            }
            i += 1;
        }
        proof {
            assert(out@ =~= ramp_image(self.ndc@));
        }
        out
    }
}

} // verus!

verus! {

/// The false-color RGBA bytes of a normalized-depth buffer: four bytes per
/// sample through the fixed ramp, alpha opaque.
pub open spec fn ramp_image(ndc: Seq<u32>) -> Seq<u8> {
    Seq::new(
        4 * ndc.len(),
        |i: int|
            if i % 4 == 0 {
                ramp_red(ndc[i / 4] as int) as u8
            } else if i % 4 == 1 {
                ramp_green(ndc[i / 4] as int) as u8
            } else if i % 4 == 2 {
                ramp_blue(ndc[i / 4] as int) as u8
            } else {
                255u8
            },
    )
}

} // verus!
