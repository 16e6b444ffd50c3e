use atlas::f32bits::F32;
use atlas::gpu::load::DeviceFeatures;
use atlas::render_path::{
    allowed_backends, forced_path, probe_render_path, AdapterProbe, Backends, MapEpoch, RenderPath,
};
use atlas::settings::{list_pieces, GfxEnv, GfxSettings, QualityPreset};

fn f(x: f32) -> F32 {
    F32 { bits: x.to_bits() }
}

#[test]
fn every_named_preset_round_trips_through_detection() {
    for preset in [
        QualityPreset::Low,
        QualityPreset::Medium,
        QualityPreset::High,
        QualityPreset::Ultra,
    ] {
        let mut settings = GfxSettings::default();
        preset.apply(&mut settings);
        assert_eq!(
            QualityPreset::detect(&settings, preset.tex_quality().unwrap()),
            preset,
            "{preset:?} must be the state the menu says it selected"
        );
    }
}

#[test]
fn presets_apply_the_advertised_cost_drivers_and_texture_tiers() {
    let mut low = GfxSettings::default();
    QualityPreset::Low.apply(&mut low);
    assert_eq!(QualityPreset::Low.tex_quality(), Some(2));
    assert!(!low.grass && !low.shadows && !low.bloom && !low.ssao && !low.lights);
    assert_eq!((low.cull_px, low.cull_px_grass), (f(4.0), f(1000.0)));

    let mut medium = GfxSettings::default();
    QualityPreset::Medium.apply(&mut medium);
    assert_eq!(QualityPreset::Medium.tex_quality(), Some(1));
    assert!(medium.grass && medium.bloom && medium.lights);
    assert!(!medium.shadows && !medium.ssao);
    assert_eq!((medium.cull_px, medium.cull_px_grass), (f(2.0), f(600.0)));

    let mut high = GfxSettings::default();
    QualityPreset::High.apply(&mut high);
    assert_eq!(QualityPreset::High.tex_quality(), Some(1));
    assert!(high.grass && high.shadows && high.bloom && high.lights);
    assert!(!high.ssao);

    let mut ultra = GfxSettings::default();
    QualityPreset::Ultra.apply(&mut ultra);
    assert_eq!(QualityPreset::Ultra.tex_quality(), Some(0));
    assert!(ultra.grass && ultra.shadows && ultra.bloom && ultra.ssao && ultra.lights);
}

#[test]
fn a_custom_preset_changes_nothing() {
    let mut g = GfxSettings::default();
    QualityPreset::Low.apply(&mut g);
    let before = g;
    QualityPreset::Custom.apply(&mut g);
    assert!(g == before);
    assert_eq!(QualityPreset::Custom.tex_quality(), None);
}

#[test]
fn a_touched_setting_is_detected_as_custom() {
    let mut g = GfxSettings::default();
    QualityPreset::High.apply(&mut g);
    assert_eq!(QualityPreset::detect(&g, 1), QualityPreset::High);
    assert_eq!(QualityPreset::detect(&g, 0), QualityPreset::Custom);
    g.ssao = true;
    assert_eq!(QualityPreset::detect(&g, 1), QualityPreset::Custom);
}

#[test]
fn a_preset_applied_twice_is_the_preset() {
    let mut once = GfxSettings::default();
    QualityPreset::Medium.apply(&mut once);
    let mut twice = once;
    QualityPreset::Medium.apply(&mut twice);
    assert!(once == twice);
}

#[test]
fn preset_indices_round_trip() {
    for (i, p) in QualityPreset::all().into_iter().enumerate() {
        assert_eq!(p.index() as usize, i);
        assert_eq!(QualityPreset::from_index(p.index()), p);
        assert!(!p.label().is_empty() && !p.summary().is_empty());
    }
    assert_eq!(QualityPreset::from_index(200), QualityPreset::High);
    assert_eq!(QualityPreset::Low.label(), "Low");
}

#[test]
fn the_environment_overrides_the_shipped_look() {
    let mut env = GfxEnv::empty();
    let shipped = GfxSettings::from_env(&env);
    assert!(shipped == GfxSettings::default());
    assert!(shipped.shadows && shipped.bloom && !shipped.ssao && !shipped.volumetric);
    assert_eq!(shipped.lod_force, -1);
    assert_eq!(shipped.light_groups, 0);
    env.shadows = Some("FALSE".to_string());
    env.bloom = Some("0".to_string());
    env.ssao = Some("1".to_string());
    env.power = Some("1".to_string());
    env.lod_force = Some(" 3 ".to_string());
    env.fog = Some(f(0.25));
    env.cull_px = Some(vec![Some(f(2.5)), Some(f(9.0))]);
    let g = GfxSettings::from_env(&env);
    assert!(!g.shadows && !g.bloom && g.ssao);
    assert_eq!(g.light_groups, u32::MAX);
    assert_eq!(g.lod_force, 3);
    assert_eq!(g.fog, f(0.25));
    assert_eq!((g.cull_px, g.cull_px_grass), (f(2.5), f(9.0)));
    env.cull_px = Some(vec![Some(f(2.5))]);
    env.lod_force = Some("99999999999".to_string());
    let g = GfxSettings::from_env(&env);
    assert_eq!((g.cull_px, g.cull_px_grass), (shipped.cull_px, shipped.cull_px_grass));
    assert_eq!(g.lod_force, -1);
}

#[test]
fn a_list_is_cut_at_its_commas() {
    assert_eq!(list_pieces("1.5, 4"), vec!["1.5".to_string(), "4".to_string()]);
}

fn features(all: bool) -> DeviceFeatures {
    DeviceFeatures {
        multi_draw_indirect: true,
        indirect_first_instance: true,
        texture_binding_array: true,
        non_uniform_indexing: all,
    }
}

fn found(driver: &str, all: bool) -> AdapterProbe {
    AdapterProbe::Found { driver_info: driver.to_string(), features: features(all) }
}

#[test]
fn the_adapter_decides_the_path() {
    assert_eq!(probe_render_path(&found("610.00", true)), RenderPath::GpuDriven);
    assert_eq!(probe_render_path(&found("610.00", false)), RenderPath::M0Instanced);
    assert_eq!(probe_render_path(&found("26.2.2 (LLPC)", true)), RenderPath::Standard);
    assert_eq!(probe_render_path(&AdapterProbe::Failed), RenderPath::M0Instanced);
}

#[test]
fn a_named_path_is_forced() {
    assert_eq!(forced_path(Some(" M0 "), None), Some(RenderPath::M0Instanced));
    assert_eq!(forced_path(None, Some("pbr")), Some(RenderPath::Standard));
    assert_eq!(forced_path(Some("gpu"), Some("m0")), Some(RenderPath::GpuDriven));
    assert_eq!(forced_path(Some("what"), Some("m0")), None);
    let p = found("610.00", true);
    assert_eq!(RenderPath::from_env_or(Some("standard"), None, &p), RenderPath::Standard);
    assert_eq!(RenderPath::from_env_or(None, None, &p), RenderPath::GpuDriven);
    assert_eq!(RenderPath::from_env_or(None, None, &AdapterProbe::Failed), RenderPath::M0Instanced);
}

#[test]
fn the_platform_decides_the_backends() {
    assert_eq!(allowed_backends("windows"), Backends::Vulkan);
    assert_eq!(allowed_backends("linux"), Backends::Vulkan);
    assert_eq!(allowed_backends("macos"), Backends::All);
}

#[test]
fn epochs_compare_by_number() {
    assert_eq!(MapEpoch(3), MapEpoch(3));
    assert_ne!(MapEpoch(3), MapEpoch(4));
}
