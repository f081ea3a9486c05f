use vstd::prelude::*;
use crate::components::{OutlinePostProcessSettings, SettingsView};

verus! {

/// A camera's projection, as far as the outline effect reads it: the near plane of a
/// perspective projection (fixed point). Orthographic projections carry nothing the effect
/// can use.
#[derive(Clone, Copy, Debug, PartialEq, Eq, Structural)]
pub enum Projection {
    Perspective { near: u32 },
    Orthographic,
}

/// A camera that carries outline settings, with whether its projection changed this frame and
/// whether the settings were attached to it this frame.
#[derive(Clone, Copy, Debug, PartialEq, Eq, Structural)]
pub struct OutlineCamera {
    pub projection: Projection,
    pub projection_changed: bool,
    pub settings_added: bool,
    pub settings: OutlinePostProcessSettings,
}

/// A camera's cached near plane is stale when its projection changed or its settings are new.
pub open spec fn needs_sync(c: OutlineCamera) -> bool {
    c.projection_changed || c.settings_added
}

/// The settings after one sync step: a perspective projection refreshes the cached near plane
/// when the cache is stale (`changed`); anything else leaves the settings as they were.
pub open spec fn synced(s: SettingsView, projection: Projection, changed: bool) -> SettingsView {
    match projection {
        Projection::Perspective { near } => if changed {
            SettingsView { camera_near: near, ..s }
        } else {
            s
        },
        Projection::Orthographic => s,
    }
}

/// Refresh the cached near plane of `settings` from `projection`, if the cache is stale
/// (`changed`) and the projection is a perspective one.
pub fn sync_camera_near(settings: &mut OutlinePostProcessSettings, projection: Projection, changed: bool)
    ensures
        final(settings)@ == synced(old(settings)@, projection, changed),
{
    if changed {
        if let Projection::Perspective { near } = projection {
            settings.set_camera_near(near);
        }
    }
}

/// The per-frame camera sync step: refresh the cached near plane of every camera with a
/// perspective projection that changed, or whose settings were just attached.
pub fn update_shader_clip_planes(cameras: &mut Vec<OutlineCamera>)
    ensures
        final(cameras)@.len() == old(cameras)@.len(),
        forall|i: int|
            0 <= i < old(cameras)@.len() ==> {
                let before = #[trigger] old(cameras)@[i];
                let after = final(cameras)@[i];
                &&& after.projection == before.projection
                &&& after.projection_changed == before.projection_changed
                &&& after.settings_added == before.settings_added
                &&& after.settings@ == synced(before.settings@, before.projection, needs_sync(before))
            },
{
    let ghost start = cameras@;
    let mut i: usize = 0;
    while i < cameras.len()
        invariant
            cameras@.len() == start.len(),
            0 <= i <= start.len(),
            forall|j: int|
                i <= j < start.len() ==> #[trigger] cameras@[j] == start[j],
            forall|j: int|
                0 <= j < i ==> {
                    let before = #[trigger] start[j];
                    let after = cameras@[j];
                    &&& after.projection == before.projection
                    &&& after.projection_changed == before.projection_changed
                    &&& after.settings_added == before.settings_added
                    &&& after.settings@ == synced(before.settings@, before.projection, needs_sync(before))
                },
        decreases start.len() - i,
    {
        let mut camera = cameras[i];
        let stale = camera.projection_changed || camera.settings_added;
        sync_camera_near(&mut camera.settings, camera.projection, stale);
        cameras.set(i, camera);
        i += 1;
    }
}

/// The settings after one sync step per frame, each frame with a changed projection.
pub open spec fn synced_frames(s: SettingsView, projections: Seq<Projection>) -> SettingsView
    decreases projections.len(),
{
    if projections.len() == 0 {
        s
    } else {
        synced(synced_frames(s, projections.drop_last()), projections.last(), true)
    }
}

/// The near plane of the last perspective projection in `projections`, or `near` if there
/// is none.
pub open spec fn latest_near(near: u32, projections: Seq<Projection>) -> u32
    decreases projections.len(),
{
    if projections.len() == 0 {
        near
    } else {
        match projections.last() {
            Projection::Perspective { near: n } => n,
            Projection::Orthographic => latest_near(near, projections.drop_last()),
        }
    }
}

/// After any run of frames whose projections changed, the cached near plane is that of the
/// most recent perspective projection (orthographic ones leave it alone), and no other field
/// has moved.
pub proof fn lemma_sync_keeps_latest_near(s: SettingsView, projections: Seq<Projection>)
    ensures
        synced_frames(s, projections) == (SettingsView {
            camera_near: latest_near(s.camera_near, projections),
            ..s
        }),
    decreases projections.len(),
{
    if projections.len() > 0 {
        lemma_sync_keeps_latest_near(s, projections.drop_last());
    }
}

} // verus!
