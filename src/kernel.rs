use vstd::prelude::*;
use vstd::arithmetic::mul::{lemma_mul_inequality, lemma_mul_upper_bound};
use crate::components::{OutlinePostProcessSettings, Rgba, SettingsView, SCALE};

verus! {

/// A surface normal, as a signed-normalized texture stores it. Only its direction counts:
/// `(0, 0, 1)` and `(0, 0, 500)` are the same normal. The zero vector has no direction.
#[derive(Clone, Copy, Debug, PartialEq, Eq, Structural)]
pub struct Normal {
    pub x: i16,
    pub y: i16,
    pub z: i16,
}

/// What the prepasses stored for one pixel.
///
/// `depth` is the raw, non-linear depth-buffer value in fixed point: `SCALE` on the near plane,
/// falling towards 0 with distance (reverse-Z with an infinite far plane). The distance it
/// stands for is `camera_near / depth`.
#[derive(Clone, Copy, Debug, PartialEq, Eq, Structural)]
pub struct Sample {
    pub depth: u32,
    pub normal: Normal,
}

/// Dot product of two normals.
pub open spec fn dot(a: Normal, b: Normal) -> int {
    a.x as int * b.x as int + a.y as int * b.y as int + a.z as int * b.z as int
}

/// Squared length of a normal.
pub open spec fn len2(a: Normal) -> int {
    dot(a, a)
}

/// The normal divergence `1 - cos θ`, θ the angle between `a` and `b`, exceeds `threshold`
/// (fixed point).
///
/// That is `dot(a, b) * SCALE < (SCALE - threshold) * |a| * |b|`. It is stated here with both
/// sides squared and their signs kept, so that no square root is taken. A zero normal has no
/// direction and never makes an edge.
pub open spec fn normal_edge(threshold: u32, a: Normal, b: Normal) -> bool {
    let d = dot(a, b) * SCALE as int;
    let k = SCALE as int - threshold as int;
    let r2 = len2(a) * len2(b);
    if k >= 0 {
        d < 0 || d * d < k * k * r2
    } else {
        d < 0 && d * d > k * k * r2
    }
}

pub open spec fn abs_diff(a: u32, b: u32) -> int {
    if a >= b { a - b } else { b - a }
}

/// The difference of the linearized depths `near / a` and `near / b` exceeds `threshold`.
///
/// Stated multiplied through by `a * b`, so that it is exact and also covers raw depth 0
/// (a point at infinity): there any finite depth differs by more than every threshold when
/// `near` is positive, and two points at infinity do not differ.
pub open spec fn depth_edge(near: u32, threshold: u32, a: u32, b: u32) -> bool {
    near as int * abs_diff(a, b) * SCALE as int > threshold as int * a as int * b as int
}

/// One neighbor differs from the center by more than the settings allow.
pub open spec fn neighbor_edge(s: SettingsView, center: Sample, neighbor: Sample) -> bool {
    normal_edge(s.normal_threshold, center.normal, neighbor.normal)
        || depth_edge(s.camera_near, s.depth_threshold, center.depth, neighbor.depth)
}

/// An outline is drawn at a pixel when any sampled neighbor differs from it.
pub open spec fn is_edge(s: SettingsView, center: Sample, neighbors: Seq<Sample>) -> bool {
    exists|i: int| 0 <= i < neighbors.len() && #[trigger] neighbor_edge(s, center, neighbors[i])
}

/// Rec. 709 luminance, in units of `1 / (10000 * SCALE)`.
pub open spec fn luminance(c: Rgba) -> int {
    2126 * c.r as int + 7152 * c.g as int + 722 * c.b as int
}

pub open spec fn invert_channel(v: u32) -> u32 {
    if v <= SCALE { (SCALE - v) as u32 } else { 0 }
}

/// The complement of a color against white; alpha is kept.
pub open spec fn inverted(c: Rgba) -> Rgba {
    Rgba { r: invert_channel(c.r), g: invert_channel(c.g), b: invert_channel(c.b), a: c.a }
}

/// Adaptive inversion is on when the threshold is below 1.
pub open spec fn adaptive_active(s: SettingsView) -> bool {
    s.adaptive_threshold < SCALE
}

/// The color an outline takes over the pixel `under`.
pub open spec fn outline_color_of(s: SettingsView, under: Rgba) -> Rgba {
    if adaptive_active(s) && luminance(under) > 10000 * s.adaptive_threshold as int {
        inverted(s.color)
    } else {
        s.color
    }
}

/// An alpha above 1 counts as 1.
pub open spec fn opacity(a: u32) -> u32 {
    if a <= SCALE { a } else { SCALE }
}

/// `over` laid over `under` with weight `alpha`, rounded down.
pub open spec fn blend_channel(over: u32, under: u32, alpha: u32) -> u32 {
    ((over as int * alpha as int + under as int * (SCALE - alpha) as int) / SCALE as int) as u32
}

/// The outline color composited over the pixel below it, by the outline's own alpha.
pub open spec fn composite(over: Rgba, under: Rgba) -> Rgba {
    let alpha = opacity(over.a);
    Rgba {
        r: blend_channel(over.r, under.r, alpha),
        g: blend_channel(over.g, under.g, alpha),
        b: blend_channel(over.b, under.b, alpha),
        a: blend_channel(over.a, under.a, alpha),
    }
}

/// The output color of one pixel.
pub open spec fn outline_pixel_of(
    s: SettingsView,
    center: Sample,
    neighbors: Seq<Sample>,
    under: Rgba,
) -> Rgba {
    if is_edge(s, center, neighbors) {
        composite(outline_color_of(s, under), under)
    } else {
        under
    }
}

proof fn lemma_i16_product(p: i16, q: i16)
    ensures
        -0x4000_0000 <= p as int * q as int <= 0x4000_0000,
{
    let a: int = p as int;
    let b: int = q as int;
    assert(-0x4000_0000 <= a * b <= 0x4000_0000) by (nonlinear_arith)
        requires
            -0x8000 <= a <= 0x7fff,
            -0x8000 <= b <= 0x7fff,
    ;
}

proof fn lemma_len2_nonneg(a: Normal)
    ensures
        len2(a) >= 0,
{
    let (x, y, z) = (a.x as int, a.y as int, a.z as int);
    assert(x * x + y * y + z * z >= 0) by (nonlinear_arith);
}

/// Dot product of two normals.
pub fn dot_product(a: Normal, b: Normal) -> (r: i64)
    ensures
        r == dot(a, b),
        -0xc000_0000 <= r <= 0xc000_0000,
{
    proof {
        lemma_i16_product(a.x, b.x);
        lemma_i16_product(a.y, b.y);
        lemma_i16_product(a.z, b.z);
    }
    (a.x as i64) * (b.x as i64) + (a.y as i64) * (b.y as i64) + (a.z as i64) * (b.z as i64)
}

/// Whether the angle between two normals gives a divergence above `threshold`.
pub fn normal_exceeds(threshold: u32, a: Normal, b: Normal) -> (r: bool)
    ensures
        r == normal_edge(threshold, a, b),
{
    let d = dot_product(a, b);
    let na = dot_product(a, a);
    let nb = dot_product(b, b);
    proof {
        lemma_len2_nonneg(a);
        lemma_len2_nonneg(b);
    }
    let dm: u128 = if d < 0 { (-d) as u128 } else { d as u128 };
    let k_neg = threshold > SCALE;
    let km: u128 = if k_neg { (threshold - SCALE) as u128 } else { (SCALE - threshold) as u128 };
    let na = na as u128;
    let nb = nb as u128;
    proof {
        lemma_mul_upper_bound(dm as int, 0xc000_0000, dm as int, 0xc000_0000);
        lemma_mul_upper_bound(
            dm as int * dm as int, 0x9000_0000_0000_0000, 1_000_000_000_000, 1_000_000_000_000);
        lemma_mul_upper_bound(km as int, 0xffff_ffff, km as int, 0xffff_ffff);
        lemma_mul_upper_bound(na as int, 0xc000_0000, nb as int, 0xc000_0000);
        lemma_mul_upper_bound(
            km as int * km as int, 0xffff_fffe_0000_0001, na as int * nb as int, 0x9000_0000_0000_0000);
        let ds = dot(a, b) * SCALE as int;
        let k = SCALE as int - threshold as int;
        assert(ds * ds == dm as int * dm as int * 1_000_000_000_000) by (nonlinear_arith)
            requires
                ds == dot(a, b) * 1_000_000,
                dm as int == dot(a, b) || dm as int == -dot(a, b),
        ;
        assert(k * k * (len2(a) * len2(b)) == km as int * km as int * (na as int * nb as int))
            by (nonlinear_arith)
            requires
                km as int == k || km as int == -k,
                na as int == len2(a),
                nb as int == len2(b),
        ;
    }
    let d2: u128 = dm * dm * 1_000_000_000_000;
    let rhs: u128 = km * km * (na * nb);
    if k_neg {
        d < 0 && d2 > rhs
    } else {
        d < 0 || d2 < rhs
    }
}

/// Whether the linearized depths of two raw depth values differ by more than `threshold`.
pub fn depth_exceeds(near: u32, threshold: u32, a: u32, b: u32) -> (r: bool)
    ensures
        r == depth_edge(near, threshold, a, b),
{
    let diff: u32 = if a >= b { a - b } else { b - a };
    proof {
        lemma_mul_upper_bound(near as int, 0xffff_ffff, diff as int, 0xffff_ffff);
        lemma_mul_upper_bound(
            near as int * diff as int, 0xffff_fffe_0000_0001int, SCALE as int, SCALE as int);
        lemma_mul_upper_bound(threshold as int, 0xffff_ffff, a as int, 0xffff_ffff);
        lemma_mul_upper_bound(
            threshold as int * a as int, 0xffff_fffe_0000_0001int, b as int, 0xffff_ffff);
    }
    let lhs: u128 = (near as u128) * (diff as u128) * (SCALE as u128);
    let rhs: u128 = (threshold as u128) * (a as u128) * (b as u128);
    lhs > rhs
}

/// Whether `neighbor` differs from `center` by more than the settings allow.
pub fn neighbor_differs(settings: &OutlinePostProcessSettings, center: Sample, neighbor: Sample) -> (r: bool)
    ensures
        r == neighbor_edge(settings@, center, neighbor),
{
    normal_exceeds(settings.normal_threshold(), center.normal, neighbor.normal)
        || depth_exceeds(settings.camera_near(), settings.depth_threshold(), center.depth, neighbor.depth)
}

/// Whether an outline belongs at a pixel with samples `center` and `neighbors`.
pub fn detect_edge(settings: &OutlinePostProcessSettings, center: Sample, neighbors: &[Sample]) -> (r: bool)
    ensures
        r == is_edge(settings@, center, neighbors@),
{
    let mut i: usize = 0;
    while i < neighbors.len()
        invariant
            0 <= i <= neighbors@.len(),
            forall|j: int| 0 <= j < i ==> !#[trigger] neighbor_edge(settings@, center, neighbors@[j]),
        decreases neighbors@.len() - i,
    {
        if neighbor_differs(settings, center, neighbors[i]) {
            return true;
        }
        i += 1;
    }
    false
}

/// The complement of `c` against white, keeping its alpha. Channels above 1 become 0.
pub fn invert_color(c: Rgba) -> (r: Rgba)
    ensures
        r == inverted(c),
{
    Rgba {
        r: if c.r <= SCALE { SCALE - c.r } else { 0 },
        g: if c.g <= SCALE { SCALE - c.g } else { 0 },
        b: if c.b <= SCALE { SCALE - c.b } else { 0 },
        a: c.a,
    }
}

/// Whether the luminance of `c` exceeds `threshold`.
pub fn luminance_exceeds(c: Rgba, threshold: u32) -> (r: bool)
    ensures
        r == (luminance(c) > 10000 * threshold as int),
{
    let l: u64 = 2126 * (c.r as u64) + 7152 * (c.g as u64) + 722 * (c.b as u64);
    l > 10000 * (threshold as u64)
}

/// The color of an outline drawn over the pixel `under`: the settings' color, inverted when
/// adaptive mode is on and `under` is brighter than the adaptive threshold.
pub fn outline_color(settings: &OutlinePostProcessSettings, under: Rgba) -> (r: Rgba)
    ensures
        r == outline_color_of(settings@, under),
{
    let t = settings.adaptive_threshold();
    if t < SCALE && luminance_exceeds(under, t) {
        invert_color(settings.color())
    } else {
        settings.color()
    }
}

fn blend(over: u32, under: u32, alpha: u32) -> (r: u32)
    requires
        alpha <= SCALE,
    ensures
        r == blend_channel(over, under, alpha),
{
    let rest: u32 = SCALE - alpha;
    proof {
        lemma_mul_upper_bound(over as int, 0xffff_ffff, alpha as int, SCALE as int);
        lemma_mul_upper_bound(under as int, 0xffff_ffff, rest as int, SCALE as int);
        lemma_mul_inequality(over as int, 0xffff_ffff, alpha as int);
        lemma_mul_inequality(under as int, 0xffff_ffff, rest as int);
        assert(0xffff_ffff * alpha as int + 0xffff_ffff * rest as int == 0xffff_ffff * SCALE as int)
            by (nonlinear_arith)
            requires
                alpha as int + rest as int == SCALE as int,
        ;
    }
    let total: u64 = (over as u64) * (alpha as u64) + (under as u64) * (rest as u64);
    proof {
        assert(total as int / SCALE as int <= 0xffff_ffff) by (nonlinear_arith)
            requires
                total as int <= 0xffff_ffff * SCALE as int,
                SCALE > 0,
        ;
    }
    (total / (SCALE as u64)) as u32
}

/// Lay `over` on `under`, weighted by the alpha of `over` (an alpha of 1 or more replaces).
pub fn composite_over(over: Rgba, under: Rgba) -> (r: Rgba)
    ensures
        r == composite(over, under),
{
    let alpha: u32 = if over.a <= SCALE { over.a } else { SCALE };
    Rgba {
        r: blend(over.r, under.r, alpha),
        g: blend(over.g, under.g, alpha),
        b: blend(over.b, under.b, alpha),
        a: blend(over.a, under.a, alpha),
    }
}

/// The output color of one pixel: the outline composited over `under` when the pixel is an
/// edge, `under` unchanged otherwise.
pub fn outline_pixel(
    settings: &OutlinePostProcessSettings,
    center: Sample,
    neighbors: &[Sample],
    under: Rgba,
) -> (r: Rgba)
    ensures
        r == outline_pixel_of(settings@, center, neighbors@, under),
{
    if detect_edge(settings, center, neighbors) {
        composite_over(outline_color(settings, under), under)
    } else {
        under
    }
}

/// Where no sampled neighbor differs from the center by more than either threshold, the
/// pixel leaves the kernel exactly as it came in.
pub proof fn lemma_no_divergence_passes_through(
    s: SettingsView,
    center: Sample,
    neighbors: Seq<Sample>,
    under: Rgba,
)
    requires
        forall|i: int|
            0 <= i < neighbors.len() ==> !normal_edge(s.normal_threshold, center.normal, #[trigger] neighbors[i].normal)
                && !depth_edge(s.camera_near, s.depth_threshold, center.depth, neighbors[i].depth),
    ensures
        outline_pixel_of(s, center, neighbors, under) == under,
{
}

proof fn lemma_normal_edge_monotone(t1: u32, t2: u32, a: Normal, b: Normal)
    requires
        t1 <= t2,
        normal_edge(t2, a, b),
    ensures
        normal_edge(t1, a, b),
{
    lemma_len2_nonneg(a);
    lemma_len2_nonneg(b);
    let d = dot(a, b) * SCALE as int;
    let k1 = SCALE as int - t1 as int;
    let k2 = SCALE as int - t2 as int;
    let r2 = len2(a) * len2(b);
    assert(r2 >= 0) by (nonlinear_arith)
        requires
            len2(a) >= 0,
            len2(b) >= 0,
            r2 == len2(a) * len2(b),
    ;
    if k2 >= 0 {
        assert(k2 * k2 * r2 <= k1 * k1 * r2) by (nonlinear_arith)
            requires
                0 <= k2 <= k1,
                r2 >= 0,
        ;
    } else if k1 < 0 {
        assert(k1 * k1 * r2 <= k2 * k2 * r2) by (nonlinear_arith)
            requires
                k2 <= k1 < 0,
                r2 >= 0,
        ;
    }
}

proof fn lemma_neighbor_edge_monotone(s1: SettingsView, s2: SettingsView, center: Sample, n: Sample)
    requires
        s1.camera_near == s2.camera_near,
        s1.normal_threshold <= s2.normal_threshold,
        s1.depth_threshold <= s2.depth_threshold,
        neighbor_edge(s2, center, n),
    ensures
        neighbor_edge(s1, center, n),
{
    if normal_edge(s2.normal_threshold, center.normal, n.normal) {
        lemma_normal_edge_monotone(s1.normal_threshold, s2.normal_threshold, center.normal, n.normal);
    }
    let ab = center.depth as int * n.depth as int;
    assert(ab >= 0) by (nonlinear_arith)
        requires
            center.depth >= 0,
            n.depth >= 0,
            ab == center.depth as int * n.depth as int,
    ;
    lemma_mul_inequality(s1.depth_threshold as int, s2.depth_threshold as int, ab);
    assert(s1.depth_threshold as int * center.depth as int * n.depth as int
        == s1.depth_threshold as int * ab) by (nonlinear_arith)
        requires
            ab == center.depth as int * n.depth as int,
    ;
    assert(s2.depth_threshold as int * center.depth as int * n.depth as int
        == s2.depth_threshold as int * ab) by (nonlinear_arith)
        requires
            ab == center.depth as int * n.depth as int,
    ;
}

/// Raising the normal or depth threshold, with the scene and the near plane fixed, never
/// turns a pixel that was not an edge into one.
pub proof fn lemma_thresholds_monotone(
    s1: SettingsView,
    s2: SettingsView,
    center: Sample,
    neighbors: Seq<Sample>,
)
    requires
        s1.camera_near == s2.camera_near,
        s1.normal_threshold <= s2.normal_threshold,
        s1.depth_threshold <= s2.depth_threshold,
    ensures
        is_edge(s2, center, neighbors) ==> is_edge(s1, center, neighbors),
{
    if is_edge(s2, center, neighbors) {
        let i = choose|i: int| 0 <= i < neighbors.len() && #[trigger] neighbor_edge(s2, center, neighbors[i]);
        lemma_neighbor_edge_monotone(s1, s2, center, neighbors[i]);
    }
}

/// With the adaptive threshold at 1, the outline always takes the configured color, whatever
/// the luminance of the pixel below.
pub proof fn lemma_adaptive_off_keeps_color(
    s: SettingsView,
    center: Sample,
    neighbors: Seq<Sample>,
    under: Rgba,
)
    requires
        s.adaptive_threshold == SCALE,
    ensures
        outline_color_of(s, under) == s.color,
        outline_pixel_of(s, center, neighbors, under)
            == if is_edge(s, center, neighbors) { composite(s.color, under) } else { under },
{
}

/// A neighbor whose normal is perpendicular to the center's is an edge for every normal
/// threshold below 1 (neither normal being zero).
pub proof fn lemma_perpendicular_normals_edge(s: SettingsView, center: Sample, neighbor: Sample)
    requires
        dot(center.normal, neighbor.normal) == 0,
        len2(center.normal) > 0,
        len2(neighbor.normal) > 0,
        s.normal_threshold < SCALE,
    ensures
        neighbor_edge(s, center, neighbor),
        is_edge(s, center, seq![neighbor]),
{
    let k = SCALE as int - s.normal_threshold as int;
    let r2 = len2(center.normal) * len2(neighbor.normal);
    assert(0 < k * k * r2) by (nonlinear_arith)
        requires
            k > 0,
            len2(center.normal) > 0,
            len2(neighbor.normal) > 0,
            r2 == len2(center.normal) * len2(neighbor.normal),
    ;
    assert(dot(center.normal, neighbor.normal) * SCALE as int == 0);
    assert(neighbor_edge(s, center, neighbor));
    assert(neighbor_edge(s, center, seq![neighbor][0]));
}

} // verus!
