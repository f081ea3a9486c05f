use vstd::prelude::*;

verus! {

/// Fixed-point scale: a stored value `v` stands for `v / SCALE` units.
pub const SCALE: u32 = 1_000_000;

/// A linear RGBA color, each channel in fixed point (`SCALE` is full intensity).
#[derive(Clone, Copy, Debug, PartialEq, Eq, Structural)]
pub struct Rgba {
    pub r: u32,
    pub g: u32,
    pub b: u32,
    pub a: u32,
}

impl Rgba {
    /// Opaque black.
    pub fn black() -> (r: Rgba)
        ensures
            r == (Rgba { r: 0, g: 0, b: 0, a: SCALE }),
    {
        Rgba { r: 0, g: 0, b: 0, a: SCALE }
    }
}

/// The values a settings record holds, as seen by contracts.
#[derive(Clone, Copy, Debug, PartialEq, Eq, Structural)]
pub struct SettingsView {
    pub weight: u32,
    pub color: Rgba,
    pub normal_threshold: u32,
    pub depth_threshold: u32,
    pub adaptive_threshold: u32,
    pub camera_near: u32,
}

/// Per-camera configuration of the outline effect.
///
/// Every field is fixed point (see [`SCALE`]). `camera_near` is never set by callers: it starts
/// at zero and is refreshed from the camera's perspective projection by the camera sync step.
#[derive(Clone, Copy, Debug, PartialEq, Eq, Structural)]
pub struct OutlinePostProcessSettings {
    /// Thickness of outlines in pixels.
    weight: u32,
    /// Color of outlines.
    color: Rgba,
    /// Normal divergence at or below this value draws no outline.
    normal_threshold: u32,
    /// Depth divergence (in scene units) at or below this value draws no outline.
    depth_threshold: u32,
    /// Luminance above which the outline color is inverted; `SCALE` disables inversion.
    adaptive_threshold: u32,
    /// Near plane of the owning camera, used to linearize depth values.
    camera_near: u32,
}

impl View for OutlinePostProcessSettings {
    type V = SettingsView;

    closed spec fn view(&self) -> SettingsView {
        SettingsView {
            weight: self.weight,
            color: self.color,
            normal_threshold: self.normal_threshold,
            depth_threshold: self.depth_threshold,
            adaptive_threshold: self.adaptive_threshold,
            camera_near: self.camera_near,
        }
    }
}

/// What `new` builds from its arguments.
pub open spec fn new_view(
    weight: u32,
    color: Rgba,
    normal_threshold: u32,
    depth_threshold: u32,
    adaptive_threshold: u32,
) -> SettingsView {
    SettingsView { weight, color, normal_threshold, depth_threshold, adaptive_threshold, camera_near: 0 }
}

/// The default configuration: weight 1, opaque black, normal threshold 0.01, depth threshold
/// 0.05, adaptive inversion disabled, near plane 0.
pub open spec fn default_view() -> SettingsView {
    SettingsView {
        weight: SCALE,
        color: Rgba { r: 0, g: 0, b: 0, a: SCALE },
        normal_threshold: 10_000,
        depth_threshold: 50_000,
        adaptive_threshold: SCALE,
        camera_near: 0,
    }
}

impl OutlinePostProcessSettings {
    /// Create a new instance with the given settings.
    pub fn new(
        weight: u32,
        color: Rgba,
        normal_threshold: u32,
        depth_threshold: u32,
        adaptive_threshold: u32,
    ) -> (r: Self)
        ensures
            r@ == new_view(weight, color, normal_threshold, depth_threshold, adaptive_threshold),
    {
        OutlinePostProcessSettings {
            weight,
            color,
            normal_threshold,
            depth_threshold,
            adaptive_threshold,
            camera_near: 0,
        }
    }

    /// Rebuild a record from all of its values, the cached near plane included: for a host that
    /// keeps a copy of the record in its own representation and hands it back.
    pub fn from_parts(
        weight: u32,
        color: Rgba,
        normal_threshold: u32,
        depth_threshold: u32,
        adaptive_threshold: u32,
        camera_near: u32,
    ) -> (r: Self)
        ensures
            r@ == (SettingsView {
                weight,
                color,
                normal_threshold,
                depth_threshold,
                adaptive_threshold,
                camera_near,
            }),
    {
        OutlinePostProcessSettings {
            weight,
            color,
            normal_threshold,
            depth_threshold,
            adaptive_threshold,
            camera_near,
        }
    }

    /// Thickness of outlines in pixels.
    pub fn weight(&self) -> (r: u32)
        ensures
            r == self@.weight,
    {
        self.weight
    }

    /// Color of outlines.
    pub fn color(&self) -> (r: Rgba)
        ensures
            r == self@.color,
    {
        self.color
    }

    /// Largest normal divergence that draws no outline.
    pub fn normal_threshold(&self) -> (r: u32)
        ensures
            r == self@.normal_threshold,
    {
        self.normal_threshold
    }

    /// Largest depth divergence that draws no outline.
    pub fn depth_threshold(&self) -> (r: u32)
        ensures
            r == self@.depth_threshold,
    {
        self.depth_threshold
    }

    /// Luminance above which the outline color is inverted.
    pub fn adaptive_threshold(&self) -> (r: u32)
        ensures
            r == self@.adaptive_threshold,
    {
        self.adaptive_threshold
    }

    /// The cached near plane of the owning camera.
    pub fn camera_near(&self) -> (r: u32)
        ensures
            r == self@.camera_near,
    {
        self.camera_near
    }

    /// Store a new near-plane distance, leaving every other field as it was.
    pub(crate) fn set_camera_near(&mut self, near: u32)
        ensures
            final(self)@ == (SettingsView { camera_near: near, ..old(self)@ }),
    {
        self.camera_near = near;
    }
}

impl Default for OutlinePostProcessSettings {
    fn default() -> (r: Self)
        ensures
            r@ == default_view(),
    {
        OutlinePostProcessSettings {
            weight: SCALE,
            color: Rgba::black(),
            normal_threshold: 10_000,
            depth_threshold: 50_000,
            adaptive_threshold: SCALE,
            camera_near: 0,
        }
    }
}

impl OutlinePostProcessSettings {
    /// The record as the words of its GPU uniform, in field order: weight, the color's four
    /// channels, normal threshold, depth threshold, adaptive threshold, near plane.
    pub fn uniform_words(&self) -> (r: [u32; 9])
        ensures
            r@ == seq![
                self@.weight,
                self@.color.r,
                self@.color.g,
                self@.color.b,
                self@.color.a,
                self@.normal_threshold,
                self@.depth_threshold,
                self@.adaptive_threshold,
                self@.camera_near,
            ],
    {
        let r = [
            self.weight,
            self.color.r,
            self.color.g,
            self.color.b,
            self.color.a,
            self.normal_threshold,
            self.depth_threshold,
            self.adaptive_threshold,
            self.camera_near,
        ];
        proof {
            assert(r@ =~= seq![
                self@.weight,
                self@.color.r,
                self@.color.g,
                self@.color.b,
                self@.color.a,
                self@.normal_threshold,
                self@.depth_threshold,
                self@.adaptive_threshold,
                self@.camera_near,
            ]);
        }
        r
    }
}

/// Two records compare equal exactly when they hold the same values.
pub proof fn lemma_eq_iff_view_eq(a: OutlinePostProcessSettings, b: OutlinePostProcessSettings)
    ensures
        a@ == b@ <==> a == b,
{
}

/// Records built by `new` are equal exactly when they were built from equal arguments.
pub proof fn lemma_new_eq_iff_args_eq(
    a: OutlinePostProcessSettings,
    b: OutlinePostProcessSettings,
    wa: u32, ca: Rgba, na: u32, da: u32, aa: u32,
    wb: u32, cb: Rgba, nb: u32, db: u32, ab: u32,
)
    requires
        a@ == new_view(wa, ca, na, da, aa),
        b@ == new_view(wb, cb, nb, db, ab),
    ensures
        a == b <==> (wa == wb && ca == cb && na == nb && da == db && aa == ab),
{
    lemma_eq_iff_view_eq(a, b);
}

/// Building a record with `new` and reading it back gives every argument unchanged, and a
/// near plane of 0.
pub proof fn lemma_new_reads_back(
    weight: u32,
    color: Rgba,
    normal_threshold: u32,
    depth_threshold: u32,
    adaptive_threshold: u32,
)
    ensures
        ({
            let v = new_view(weight, color, normal_threshold, depth_threshold, adaptive_threshold);
            &&& v.weight == weight
            &&& v.color == color
            &&& v.normal_threshold == normal_threshold
            &&& v.depth_threshold == depth_threshold
            &&& v.adaptive_threshold == adaptive_threshold
            &&& v.camera_near == 0
        }),
{
}

} // verus!
