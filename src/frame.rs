use vstd::prelude::*;
use vstd::arithmetic::div_mod::{lemma_div_pos_is_pos, lemma_fundamental_div_mod, lemma_mod_pos_bound};
use crate::components::{OutlinePostProcessSettings, Rgba, SettingsView, SCALE};
use crate::kernel::{
    is_edge, len2, lemma_thresholds_monotone, neighbor_edge, outline_pixel, outline_pixel_of, Sample,
};

verus! {

/// The buffers one view hands to the outline pass: the prepass samples and the color image,
/// both row-major, `width * height` pixels each.
#[derive(Clone, Debug)]
pub struct Frame {
    pub width: usize,
    pub height: usize,
    pub samples: Vec<Sample>,
    pub colors: Vec<Rgba>,
}

impl Frame {
    /// Both buffers hold exactly one entry per pixel.
    pub open spec fn wf(&self) -> bool {
        &&& self.samples@.len() == self.width * self.height
        &&& self.colors@.len() == self.width * self.height
    }
}

/// Distance in whole pixels from a pixel to the neighbors it is compared with: the outline
/// weight rounded to the nearest pixel, and at least one pixel for any weight above zero.
pub open spec fn offset_of(weight: u32) -> int {
    let rounded = (weight as int + SCALE as int / 2) / SCALE as int;
    if weight > 0 && rounded == 0 { 1 } else { rounded }
}

/// `v - d`, held at the first pixel of the row or column.
pub open spec fn back(v: int, d: int) -> int {
    if v >= d { v - d } else { 0 }
}

/// `v + d`, held at the last of `n` pixels.
pub open spec fn forth(v: int, d: int, n: int) -> int {
    if v + d < n { v + d } else { n - 1 }
}

pub open spec fn sample_at(f: &Frame, x: int, y: int) -> Sample {
    f.samples@[y * f.width + x]
}

/// The four neighbors of pixel `i` at distance `d`: left, right, up, down, clamped to the
/// image's border.
pub open spec fn cross_of(f: &Frame, i: int, d: int) -> Seq<Sample> {
    let w = f.width as int;
    let h = f.height as int;
    let x = i % w;
    let y = i / w;
    seq![
        sample_at(f, back(x, d), y),
        sample_at(f, forth(x, d, w), y),
        sample_at(f, x, back(y, d)),
        sample_at(f, x, forth(y, d, h)),
    ]
}

/// Whether pixel `i` of the frame is an edge.
pub open spec fn pixel_is_edge(s: SettingsView, f: &Frame, i: int) -> bool {
    is_edge(s, f.samples@[i], cross_of(f, i, offset_of(s.weight)))
}

/// The output color of pixel `i` of the frame.
pub open spec fn frame_pixel(s: SettingsView, f: &Frame, i: int) -> Rgba {
    outline_pixel_of(s, f.samples@[i], cross_of(f, i, offset_of(s.weight)), f.colors@[i])
}

proof fn lemma_coords(i: int, w: int, h: int)
    requires
        0 <= i < w * h,
        0 < w,
    ensures
        0 <= i % w < w,
        0 <= i / w < h,
        i == (i / w) * w + i % w,
{
    lemma_fundamental_div_mod(i, w);
    lemma_mod_pos_bound(i, w);
    lemma_div_pos_is_pos(i, w);
    let q = i / w;
    let r = i % w;
    assert(q < h) by (nonlinear_arith)
        requires
            i == w * q + r,
            0 <= r,
            i < w * h,
            0 < w,
    ;
    assert(i == q * w + r) by (nonlinear_arith)
        requires
            i == w * q + r,
    ;
}

proof fn lemma_cell(x: int, y: int, w: int, h: int)
    requires
        0 <= x < w,
        0 <= y < h,
    ensures
        0 <= y * w + x < w * h,
{
    assert(0 <= y * w + x < w * h) by (nonlinear_arith)
        requires
            0 <= x < w,
            0 <= y < h,
    ;
}

/// Run the outline pass over a whole frame, returning the composited color image.
pub fn outline_frame(settings: &OutlinePostProcessSettings, frame: &Frame) -> (r: Vec<Rgba>)
    requires
        frame.wf(),
    ensures
        r@.len() == frame.colors@.len(),
        forall|i: int| 0 <= i < r@.len() ==> #[trigger] r@[i] == frame_pixel(settings@, frame, i),
{
    let w = frame.width;
    let h = frame.height;
    let weight = settings.weight();
    let rounded: u64 = (weight as u64 + (SCALE / 2) as u64) / SCALE as u64;
    proof {
        assert(rounded as int == (weight as int + SCALE as int / 2) / SCALE as int);
        assert(rounded <= 4295) by (nonlinear_arith)
            requires
                rounded as int == (weight as int + 500_000) / 1_000_000,
                weight <= 0xffff_ffff,
        ;
    }
    let d: usize = if weight > 0 && rounded == 0 { 1 } else { rounded as usize };
    let n = frame.colors.len();
    let mut out: Vec<Rgba> = Vec::new();
    let mut i: usize = 0;
    while i < n
        invariant
            frame.wf(),
            w == frame.width,
            h == frame.height,
            n == frame.colors@.len(),
            d == offset_of(settings@.weight),
            0 <= i <= n,
            out@.len() == i,
            forall|j: int| 0 <= j < i ==> #[trigger] out@[j] == frame_pixel(settings@, frame, j),
        decreases n - i,
    {
        proof {
            if w == 0 {
                assert(w * h == 0) by (nonlinear_arith)
                    requires
                        w == 0,
                ;
            }
            lemma_coords(i as int, w as int, h as int);
        }
        let x = i % w;
        let y = i / w;
        let xl: usize = if x >= d { x - d } else { 0 };
        let xr: usize = if d < w - x { x + d } else { w - 1 };
        let yu: usize = if y >= d { y - d } else { 0 };
        let yd: usize = if d < h - y { y + d } else { h - 1 };
        proof {
            lemma_cell(xl as int, y as int, w as int, h as int);
            lemma_cell(xr as int, y as int, w as int, h as int);
            lemma_cell(x as int, yu as int, w as int, h as int);
            lemma_cell(x as int, yd as int, w as int, h as int);
        }
        let neighbors = [
            frame.samples[y * w + xl],
            frame.samples[y * w + xr],
            frame.samples[yu * w + x],
            frame.samples[yd * w + x],
        ];
        let c = outline_pixel(settings, frame.samples[i], &neighbors, frame.colors[i]);
        proof {
            assert(neighbors@ =~= cross_of(frame, i as int, d as int));
        }
        out.push(c);
        i += 1;
    }
    out
}

proof fn lemma_same_sample_no_edge(s: SettingsView, c: Sample)
    ensures
        !neighbor_edge(s, c, c),
{
    let l = len2(c.normal);
    assert(l >= 0) by (nonlinear_arith)
        requires
            l == c.normal.x as int * c.normal.x as int + c.normal.y as int * c.normal.y as int
                + c.normal.z as int * c.normal.z as int,
    ;
    let k = SCALE as int - s.normal_threshold as int;
    if k >= 0 {
        assert((l * SCALE as int) * (l * SCALE as int) >= k * k * (l * l)) by (nonlinear_arith)
            requires
                0 <= k <= SCALE as int,
                l >= 0,
        ;
    }
    assert(l * SCALE as int >= 0) by (nonlinear_arith)
        requires
            l >= 0,
    ;
    assert(s.depth_threshold as int * c.depth as int * c.depth as int >= 0) by (nonlinear_arith);
    assert(s.normal_threshold as int * SCALE as int >= 0) by (nonlinear_arith);
    assert(s.camera_near as int * 0 * SCALE as int == 0);
}

/// A frame whose every pixel carries the same depth and the same normal has no edge
/// anywhere, whatever the thresholds: the pass hands back the color image unchanged.
pub proof fn lemma_uniform_frame_unchanged(s: SettingsView, f: &Frame, c: Sample)
    requires
        f.wf(),
        forall|i: int| 0 <= i < f.samples@.len() ==> #[trigger] f.samples@[i] == c,
    ensures
        forall|i: int| 0 <= i < f.colors@.len() ==> !#[trigger] pixel_is_edge(s, f, i),
        forall|i: int| 0 <= i < f.colors@.len() ==> #[trigger] frame_pixel(s, f, i) == f.colors@[i],
{
    lemma_same_sample_no_edge(s, c);
    assert forall|i: int| 0 <= i < f.colors@.len() implies !#[trigger] pixel_is_edge(s, f, i) by {
        let w = f.width as int;
        let h = f.height as int;
        let d = offset_of(s.weight);
        if w == 0 {
            assert(w * h == 0) by (nonlinear_arith)
                requires
                    w == 0,
            ;
        }
        lemma_coords(i, w, h);
        let x = i % w;
        let y = i / w;
        lemma_cell(back(x, d), y, w, h);
        lemma_cell(forth(x, d, w), y, w, h);
        lemma_cell(x, back(y, d), w, h);
        lemma_cell(x, forth(y, d, h), w, h);
        let ns = cross_of(f, i, d);
        assert forall|k: int| 0 <= k < ns.len() implies !#[trigger] neighbor_edge(s, f.samples@[i], ns[k]) by {
            assert(ns[k] == c);
        }
    }
    assert forall|i: int| 0 <= i < f.colors@.len() implies #[trigger] frame_pixel(s, f, i) == f.colors@[i] by {
        assert(!pixel_is_edge(s, f, i));
    }
}

/// Raising the normal or depth threshold, with the frame, the weight and the near plane fixed,
/// never adds a pixel to the set of edge pixels.
pub proof fn lemma_frame_thresholds_monotone(s1: SettingsView, s2: SettingsView, f: &Frame, i: int)
    requires
        s1.weight == s2.weight,
        s1.camera_near == s2.camera_near,
        s1.normal_threshold <= s2.normal_threshold,
        s1.depth_threshold <= s2.depth_threshold,
    ensures
        pixel_is_edge(s2, f, i) ==> pixel_is_edge(s1, f, i),
{
    lemma_thresholds_monotone(s1, s2, f.samples@[i], cross_of(f, i, offset_of(s1.weight)));
}

} // verus!
