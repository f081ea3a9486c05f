use outline_post_process::camera::{sync_camera_near, update_shader_clip_planes, OutlineCamera, Projection};
use outline_post_process::components::{OutlinePostProcessSettings, Rgba, SCALE};
use outline_post_process::frame::{outline_frame, Frame};
use outline_post_process::kernel::{
    composite_over, depth_exceeds, detect_edge, dot_product, invert_color, luminance_exceeds,
    normal_exceeds, outline_color, outline_pixel, Normal, Sample,
};
use outline_post_process::nodes::{render_graph_edges, RenderStage};

const UP: Normal = Normal { x: 0, y: 1000, z: 0 };
const SIDE: Normal = Normal { x: 1000, y: 0, z: 0 };

fn rgba(r: u32, g: u32, b: u32, a: u32) -> Rgba {
    Rgba { r, g, b, a }
}

fn sample(depth: u32, normal: Normal) -> Sample {
    Sample { depth, normal }
}

fn red() -> Rgba {
    rgba(SCALE, 0, 0, SCALE)
}

fn synced_settings(
    weight: u32,
    color: Rgba,
    normal_threshold: u32,
    depth_threshold: u32,
    adaptive_threshold: u32,
    near: u32,
) -> OutlinePostProcessSettings {
    let mut s = OutlinePostProcessSettings::new(weight, color, normal_threshold, depth_threshold, adaptive_threshold);
    sync_camera_near(&mut s, Projection::Perspective { near }, true);
    s
}

#[test]
fn default_settings_values() {
    let s = OutlinePostProcessSettings::default();
    assert_eq!(s.weight(), SCALE);
    assert_eq!(s.color(), rgba(0, 0, 0, SCALE));
    assert_eq!(s.normal_threshold(), 10_000);
    assert_eq!(s.depth_threshold(), 50_000);
    assert_eq!(s.adaptive_threshold(), SCALE);
    assert_eq!(s.camera_near(), 0);
    assert_eq!(Rgba::black(), rgba(0, 0, 0, SCALE));
}

#[test]
fn new_reads_back_fields() {
    let color = rgba(250_000, 500_000, 750_000, 900_000);
    let s = OutlinePostProcessSettings::new(2_500_000, color, 123_456, 7_890_000, 400_000);
    assert_eq!(s.weight(), 2_500_000);
    assert_eq!(s.color(), color);
    assert_eq!(s.normal_threshold(), 123_456);
    assert_eq!(s.depth_threshold(), 7_890_000);
    assert_eq!(s.adaptive_threshold(), 400_000);
    assert_eq!(s.camera_near(), 0);
}

#[test]
fn settings_equality_is_structural() {
    let a = OutlinePostProcessSettings::new(SCALE, red(), 1, 2, 3);
    let b = OutlinePostProcessSettings::new(SCALE, red(), 1, 2, 3);
    let c = OutlinePostProcessSettings::new(SCALE, red(), 1, 2, 4);
    assert!(a == b);
    assert!(a != c);
    let mut d = b;
    sync_camera_near(&mut d, Projection::Perspective { near: 100_000 }, true);
    assert!(a != d);
    let e = OutlinePostProcessSettings::from_parts(SCALE, red(), 1, 2, 3, 100_000);
    assert!(d == e);
    assert_eq!(e.camera_near(), 100_000);
    assert_eq!(e.adaptive_threshold(), 3);
}

#[test]
fn uniform_words_in_field_order() {
    let s = synced_settings(1, rgba(2, 3, 4, 5), 6, 7, 8, 9);
    assert_eq!(s.uniform_words(), [1, 2, 3, 4, 5, 6, 7, 8, 9]);
}

#[test]
fn camera_sync_follows_latest_perspective_near() {
    let mut s = OutlinePostProcessSettings::default();
    for near in [100_000u32, 500_000, 1_000_000] {
        sync_camera_near(&mut s, Projection::Perspective { near }, true);
        assert_eq!(s.camera_near(), near);
    }
    sync_camera_near(&mut s, Projection::Orthographic, true);
    assert_eq!(s.camera_near(), 1_000_000);
    sync_camera_near(&mut s, Projection::Perspective { near: 300_000 }, false);
    assert_eq!(s.camera_near(), 1_000_000);
    let d = OutlinePostProcessSettings::default();
    assert_eq!(s.weight(), d.weight());
    assert_eq!(s.color(), d.color());
}

fn camera(projection: Projection, projection_changed: bool, settings_added: bool, settings: OutlinePostProcessSettings) -> OutlineCamera {
    OutlineCamera { projection, projection_changed, settings_added, settings }
}

#[test]
fn camera_sync_over_all_cameras() {
    let s = OutlinePostProcessSettings::default();
    let mut cameras = vec![
        camera(Projection::Perspective { near: 100_000 }, true, false, s),
        camera(Projection::Perspective { near: 500_000 }, false, false, s),
        camera(Projection::Orthographic, true, true, s),
        camera(Projection::Perspective { near: 250_000 }, false, true, s),
    ];
    update_shader_clip_planes(&mut cameras);
    assert_eq!(cameras.len(), 4);
    assert_eq!(cameras[0].settings.camera_near(), 100_000);
    assert_eq!(cameras[1].settings.camera_near(), 0);
    assert_eq!(cameras[2].settings.camera_near(), 0);
    assert_eq!(cameras[3].settings.camera_near(), 250_000);
    assert!(cameras[3].settings_added);
    assert_eq!(cameras[0].projection, Projection::Perspective { near: 100_000 });
    assert!(cameras[0].projection_changed);
}

#[test]
fn dot_product_exact() {
    assert_eq!(dot_product(UP, UP), 1_000_000);
    assert_eq!(dot_product(UP, SIDE), 0);
    let n = Normal { x: -3, y: 4, z: i16::MIN };
    assert_eq!(dot_product(n, n), 9 + 16 + (1i64 << 30));
}

#[test]
fn normal_threshold_is_strict() {
    // cos = 0.6 gives a divergence of exactly 0.4.
    let a = Normal { x: 0, y: 5, z: 0 };
    let b = Normal { x: 0, y: 3, z: 4 };
    assert!(!normal_exceeds(400_000, a, b));
    assert!(normal_exceeds(399_999, a, b));
    assert!(!normal_exceeds(0, UP, UP));
    // Opposite normals diverge by exactly 2.
    let down = Normal { x: 0, y: -1000, z: 0 };
    assert!(normal_exceeds(1_999_999, UP, down));
    assert!(!normal_exceeds(2_000_000, UP, down));
}

#[test]
fn normal_length_does_not_matter() {
    let short = Normal { x: 0, y: 0, z: 1 };
    let long = Normal { x: 0, y: 0, z: 500 };
    assert!(!normal_exceeds(0, short, long));
    assert!(!normal_exceeds(10_000, Normal { x: 7071, y: 7071, z: 0 }, Normal { x: 7071, y: 7071, z: 0 }));
    let zero = Normal { x: 0, y: 0, z: 0 };
    assert!(!normal_exceeds(0, zero, UP));
    let s = synced_settings(SCALE, red(), 10_000, 50_000, SCALE, 100_000);
    let c = sample(SCALE, short);
    let under = rgba(1, 2, 3, 4);
    assert_eq!(outline_pixel(&s, c, &[sample(SCALE, long)], under), under);
}

#[test]
fn depth_is_compared_after_linearization() {
    // near 0.1: raw 1.0 is at distance 0.1, raw 0.5 at distance 0.2.
    assert!(depth_exceeds(100_000, 50_000, SCALE, 500_000));
    assert!(!depth_exceeds(100_000, 100_000, SCALE, 500_000));
    assert!(depth_exceeds(100_000, 99_999, SCALE, 500_000));
    // The same raw difference far away is a much larger distance.
    assert!(depth_exceeds(100_000, 500_000, 100_000, 50_000));
    assert!(!depth_exceeds(100_000, 1_000_000, 100_000, 50_000));
    assert!(!depth_exceeds(100_000, 50_000, 600_000, 600_000));
}

#[test]
fn depth_at_infinity() {
    assert!(depth_exceeds(100_000, 4_000_000_000, 0, 1));
    assert!(!depth_exceeds(100_000, 0, 0, 0));
    assert!(!depth_exceeds(0, 0, 0, SCALE));
}

#[test]
fn no_divergence_passes_color_through() {
    let s = synced_settings(SCALE, red(), 10_000, 50_000, SCALE, 100_000);
    let c = sample(SCALE, UP);
    let under = rgba(123, 456, 789, 1011);
    let neighbors = [c, c, c, c];
    assert!(!detect_edge(&s, c, &neighbors));
    assert_eq!(outline_pixel(&s, c, &neighbors, under), under);
    let near_same = [sample(999_999, UP), c, c, c];
    assert_eq!(outline_pixel(&s, c, &near_same, under), under);
    assert_eq!(outline_pixel(&s, c, &[], under), under);
}

#[test]
fn one_cue_alone_is_an_edge() {
    let s = synced_settings(SCALE, red(), 100_000, 50_000, SCALE, 100_000);
    let c = sample(SCALE, UP);
    let under = rgba(0, 0, SCALE, SCALE);
    assert!(detect_edge(&s, c, &[c, c, c, sample(SCALE, SIDE)]));
    assert!(detect_edge(&s, c, &[sample(500_000, UP), c]));
    assert_eq!(outline_pixel(&s, c, &[c, sample(SCALE, SIDE)], under), red());
}

#[test]
fn perpendicular_normals_make_an_edge() {
    let s = synced_settings(SCALE, red(), 100_000, 50_000, SCALE, 100_000);
    let frame = Frame {
        width: 2,
        height: 1,
        samples: vec![sample(500_000, UP), sample(500_000, SIDE)],
        colors: vec![rgba(SCALE, SCALE, SCALE, SCALE), rgba(0, SCALE, 0, SCALE)],
    };
    assert_eq!(outline_frame(&s, &frame), vec![red(), red()]);
}

#[test]
fn uniform_plane_has_no_outlines() {
    let colors: Vec<Rgba> = (0..12u32).map(|i| rgba(i * 1000, 2000, 3000, SCALE)).collect();
    let frame = Frame { width: 4, height: 3, samples: vec![sample(400_000, UP); 12], colors: colors.clone() };
    for t in [0u32, 1, 10_000, 500_000, 999_999] {
        let s = synced_settings(SCALE, red(), t, t, 500_000, 100_000);
        assert_eq!(outline_frame(&s, &frame), colors);
    }
}

fn count_edges(s: &OutlinePostProcessSettings, frame: &Frame) -> usize {
    let out = outline_frame(s, frame);
    out.iter().zip(frame.colors.iter()).filter(|(o, c)| o != c).count()
}

#[test]
fn higher_thresholds_flag_fewer_pixels() {
    let tilted = Normal { x: 0, y: 800, z: 600 };
    let frame = Frame {
        width: 3,
        height: 3,
        samples: vec![
            sample(SCALE, UP), sample(SCALE, UP), sample(SCALE, UP),
            sample(SCALE, UP), sample(900_000, tilted), sample(SCALE, UP),
            sample(SCALE, UP), sample(SCALE, UP), sample(SCALE, UP),
        ],
        colors: vec![rgba(0, 0, 0, SCALE); 9],
    };
    let white = rgba(SCALE, SCALE, SCALE, SCALE);
    let low = synced_settings(SCALE, white, 10_000, 5_000, SCALE, 100_000);
    let mid = synced_settings(SCALE, white, 10_000, 50_000, SCALE, 100_000);
    let high = synced_settings(SCALE, white, 500_000, 50_000, SCALE, 100_000);
    let (a, b, c) = (count_edges(&low, &frame), count_edges(&mid, &frame), count_edges(&high, &frame));
    assert_eq!(a, 5);
    assert_eq!(b, 5);
    assert_eq!(c, 0);
    assert!(c <= b && b <= a);
}

#[test]
fn zero_weight_samples_the_pixel_itself() {
    let s = synced_settings(0, red(), 0, 0, SCALE, 100_000);
    let frame = Frame {
        width: 2,
        height: 1,
        samples: vec![sample(500_000, UP), sample(SCALE, SIDE)],
        colors: vec![rgba(1, 2, 3, 4), rgba(5, 6, 7, 8)],
    };
    assert_eq!(outline_frame(&s, &frame), frame.colors);
}

#[test]
fn small_weight_still_reaches_one_pixel() {
    let frame = Frame {
        width: 5,
        height: 1,
        samples: vec![sample(SCALE, UP), sample(SCALE, UP), sample(SCALE, UP), sample(SCALE, UP), sample(SCALE, SIDE)],
        colors: vec![rgba(1, 2, 3, 4); 5],
    };
    let u = rgba(1, 2, 3, 4);
    let s = synced_settings(400_000, red(), 100_000, 50_000, SCALE, 100_000);
    assert_eq!(outline_frame(&s, &frame), vec![u, u, u, red(), red()]);
    // 1.6 rounds to 2 pixels.
    let s = synced_settings(1_600_000, red(), 100_000, 50_000, SCALE, 100_000);
    assert_eq!(outline_frame(&s, &frame), vec![u, u, red(), red(), red()]);
    // 1.4 rounds to 1 pixel.
    let s = synced_settings(1_400_000, red(), 100_000, 50_000, SCALE, 100_000);
    assert_eq!(outline_frame(&s, &frame), vec![u, u, u, red(), red()]);
}

#[test]
fn adaptive_disabled_ignores_luminance() {
    let s = synced_settings(SCALE, red(), 10_000, 50_000, SCALE, 100_000);
    assert_eq!(outline_color(&s, rgba(SCALE, SCALE, SCALE, SCALE)), red());
    assert_eq!(outline_color(&s, rgba(0, 0, 0, SCALE)), red());
    assert_eq!(outline_color(&s, rgba(4_000_000_000, 4_000_000_000, 4_000_000_000, SCALE)), red());
}

#[test]
fn adaptive_inverts_over_bright_pixels() {
    let s = synced_settings(SCALE, rgba(200_000, 0, SCALE, SCALE), 10_000, 50_000, 500_000, 100_000);
    let inverted = rgba(800_000, SCALE, 0, SCALE);
    assert_eq!(outline_color(&s, rgba(SCALE, SCALE, SCALE, SCALE)), inverted);
    assert_eq!(outline_color(&s, rgba(0, 0, 0, SCALE)), rgba(200_000, 0, SCALE, SCALE));
    // Green alone at 0.7 has luminance 0.50064; blue alone at 1.0 only 0.0722.
    assert_eq!(outline_color(&s, rgba(0, 700_000, 0, SCALE)), inverted);
    assert_eq!(outline_color(&s, rgba(0, 0, SCALE, SCALE)), rgba(200_000, 0, SCALE, SCALE));
}

#[test]
fn luminance_threshold_is_strict() {
    // White has luminance exactly 1.
    assert!(!luminance_exceeds(rgba(SCALE, SCALE, SCALE, 0), SCALE));
    assert!(luminance_exceeds(rgba(SCALE, SCALE, SCALE, 0), 999_999));
    // 0.2126 from red alone.
    assert!(!luminance_exceeds(rgba(SCALE, 0, 0, 0), 212_600));
    assert!(luminance_exceeds(rgba(SCALE, 0, 0, 0), 212_599));
}

#[test]
fn inversion_against_white() {
    assert_eq!(invert_color(rgba(0, 250_000, SCALE, 123)), rgba(SCALE, 750_000, 0, 123));
    assert_eq!(invert_color(rgba(2_000_000, 1, 0, SCALE)), rgba(0, 999_999, SCALE, SCALE));
}

#[test]
fn compositing_replaces_or_blends_by_alpha() {
    let under = rgba(0, 0, SCALE, SCALE);
    assert_eq!(composite_over(red(), under), red());
    assert_eq!(composite_over(rgba(SCALE, 0, 0, 3 * SCALE), under), rgba(SCALE, 0, 0, 3 * SCALE));
    assert_eq!(composite_over(rgba(SCALE, 0, 0, 500_000), under), rgba(500_000, 0, 500_000, 750_000));
    assert_eq!(composite_over(rgba(SCALE, 0, 0, 0), under), under);
    assert_eq!(composite_over(rgba(1, 0, 0, 1), rgba(0, 0, 0, 0)), rgba(0, 0, 0, 0));
}

#[test]
fn outline_pass_sits_between_tonemapping_and_end_of_post_processing() {
    assert_eq!(
        render_graph_edges(),
        vec![
            RenderStage::Tonemapping,
            RenderStage::Outline,
            RenderStage::EndMainPassPostProcessing,
        ]
    );
}
