use atlas::bake::args::{
    exit_code, light_is_baked, parse_args, Backend, BakeArgs, BakeEnd, BakeEnv, BakeSettings, BakeUsage,
};
use atlas::bake::grid::{
    begin_offset, borders_valid, choose_offset, count_buried, grid_attempt, is_in_the_open, is_within_limits, mark_moved, nth_value, probe_cell, sample_step,
    next_offset, offset_ways, tap_index, wants_move, Cell, OffsetStep, Way,
};
use atlas::bake::half::f16_bits;
use atlas::bake::lights::{baked_lights, BakeLight};
use atlas::bake::materials::{build_material_luts, wanted_textures, BounceMaterial};
use atlas::bake::volume::{encode_volume, pack_sun_dir, Baked, ProbeSh};
use atlas::compose::{after_prefix, dashes_to_spaces, filled_or, is_blank, join3, join_texts, nonempty_or};
use atlas::f32bits::F32;
use atlas::gpu::materials::{V3, V4};
use atlas::gpu::sh_volume::load_sh_volume;
use atlas::instancing::{instance_layout, spawn_pack_entities, MeshSize, PackInstance};
use atlas::post::blocks::{ssao_words, ssr_words, taa_words, Matrix, PassCamera};
use atlas::post::grade::{find_grade_lut, grade_params, grade_runs, grade_setup_due, load_grade_lut, LutPlace};
use atlas::post::passes::{
    check_alpha, check_due, fpv_runs, pass_order, ssao_runs, ssr_runs, window_can_be_transparent, AoTarget, BoundViews,
    DepthPassInputs, FpvCamFx, LinkEnds, Pass,
};
use atlas::post::taa::{TaaFrame, TaaHistory};
use atlas::settings::{GfxEnv, GfxSettings};
use atlas::standard::{
    alpha_mode, build_material, flip_green, material_for, place_instances, submesh_parts, AlphaMode, BaseColor, PackMaterial, Picture,
    StdGlow, StdMesh, SubMesh, TexCache, wanted_pictures,
};
use atlas::text::{
    begins_with, comes_before, contains_text, decimal_of, ends_with, hex_of, sort_names, split_at_char, to_ascii_lower,
    trim,
};

fn f(x: f32) -> F32 {
    F32 { bits: x.to_bits() }
}

fn v3(x: f32, y: f32, z: f32) -> V3 {
    V3 { x: f(x), y: f(y), z: f(z) }
}

fn s(x: &str) -> String {
    x.to_string()
}

fn words(v: &[&str]) -> Vec<String> {
    v.iter().map(|x| s(x)).collect()
}

#[test]
fn halves_are_cut_short() {
    assert_eq!(f16_bits(f(0.0)), 0);
    assert_eq!(f16_bits(f(1.0)), 0x3c00);
    assert_eq!(f16_bits(f(-2.0)), 0xc000);
    assert_eq!(f16_bits(f(0.5)), 0x3800);
    assert_eq!(f16_bits(f(65504.0)), 0x7bff);
    assert!(f16_bits(f(0.1)) == 0x2e66);
    assert!(f16_bits(f(1.5)) > f16_bits(f(1.25)));
}

#[test]
fn the_command_line_is_read() {
    let a = parse_args(&words(&["pack", "--rays", "64", "--indirect", "--backend", "gpu"]), &None, false).unwrap();
    assert_eq!((a.pack_dir.as_str(), a.rays, a.indirect_only, a.backend), ("pack", Some(64), true, Backend::Gpu));
    let a = parse_args(&words(&["pack"]), &Some(s("1")), false).unwrap();
    assert_eq!(a.backend, Backend::Cpu);
    assert!(!a.backend.tries_gpu());
    assert_eq!(parse_args(&words(&["pack"]), &None, true).unwrap().backend, Backend::Cpu);
    assert_eq!(parse_args(&words(&["pack", "--backend", "auto"]), &None, true).unwrap().backend, Backend::Auto);
}

#[test]
fn a_bad_command_line_is_refused() {
    let e = |v: &[&str]| parse_args(&words(v), &None, false).err().unwrap();
    assert!(matches!(e(&["--rays"]), BakeUsage::RaysNeedInteger));
    assert!(matches!(e(&["--rays", "many"]), BakeUsage::RaysNeedInteger));
    assert!(matches!(e(&["--backend"]), BakeUsage::BackendNeedsChoice(None)));
    assert!(matches!(e(&["--backend", "tpu"]), BakeUsage::BackendNeedsChoice(Some(x)) if x == "tpu"));
    assert!(matches!(e(&["--what"]), BakeUsage::UnknownFlag(x) if x == "--what"));
    assert!(matches!(e(&["a", "b"]), BakeUsage::ExtraArgument(x) if x == "b"));
    assert!(matches!(e(&[]), BakeUsage::NoPack));
    assert_eq!((exit_code(BakeEnd::Done), exit_code(BakeEnd::Usage), exit_code(BakeEnd::Failed)), (0, 2, 1));
}

fn bake_env() -> BakeEnv {
    BakeEnv {
        rays: None,
        sky: None,
        light_scale: None,
        indirect: None,
        virtual_offset: None,
        bounce: None,
        bounce_rays: None,
        gpu_bounce: None,
        albedo_boost: None,
        emis_gain: None,
    }
}

#[test]
fn the_baker_takes_its_settings_from_the_environment() {
    let args = BakeArgs { pack_dir: s("p"), rays: None, indirect_only: false, backend: Backend::Auto };
    let b = BakeSettings::from_env(&bake_env(), &args);
    assert_eq!((b.rays, b.indirect_only, b.virtual_offset, b.bounce), (256, false, true, true));
    assert!(b.bounces(1) && !b.bounces(0));
    let env = BakeEnv { rays: Some(s(" 2 ")), bounce: Some(s("0")), virtual_offset: Some(s("0")), ..bake_env() };
    let b = BakeSettings::from_env(&env, &args);
    assert_eq!((b.rays, b.virtual_offset, b.bounce), (8, false, false));
    assert!(light_is_baked(false, -1) && !light_is_baked(false, 3) && !light_is_baked(true, -1));
}

#[test]
fn grids_stay_within_the_limits() {
    assert!(is_within_limits(64, 64, 64));
    assert!(!is_within_limits(5000, 1, 1));
    assert!(!is_within_limits(1, 100, 100));
    assert!(!is_within_limits(4000, 80, 100));
    assert_eq!(grid_attempt(0, 1, 1, 1), (1, true));
    assert_eq!(grid_attempt(0, 5000, 1, 1), (1, false));
    assert_eq!(grid_attempt(64, 5000, 1, 1), (65, true));
    assert_eq!((sample_step(10), sample_step(1_500_000)), (1, 3));
}

#[test]
fn buried_probes_next_to_the_open_want_to_move() {
    assert_eq!(probe_cell(7, 2, 3), Cell { x: 1, y: 0, z: 1 });
    let v = vec![0, 200, 0, 0];
    assert!(wants_move(&v, 4, 1, 1, 0));
    assert!(!wants_move(&v, 4, 1, 1, 1));
    assert!(wants_move(&v, 4, 1, 1, 2));
    assert!(!borders_valid(&v, 4, 1, 1, 3));
    assert_eq!(count_buried(&v), 3);
    let mut v = v;
    mark_moved(&mut v, &vec![true, false, false, false]);
    assert!(v[0] >= 128 && v[2] == 0);
    assert_eq!(tap_index(7, Cell { x: 0, y: 0, z: 0 }, 2, 2, 2), 7);
    assert_eq!(tap_index(7, Cell { x: 1, y: 1, z: 1 }, 2, 2, 2), 7, "taps stay inside");
}

#[test]
fn values_are_selected_by_rank() {
    let v = vec![f(3.0), f(-1.0), f(2.0), f(0.0)];
    assert_eq!(nth_value(&v, 0), f(-1.0));
    assert_eq!(nth_value(&v, 2), f(2.0));
    assert_eq!(nth_value(&v, 3), f(3.0));
}

#[test]
fn bounce_materials_are_found_by_id() {
    let m = |id, albedo: Option<&str>, emissive, tex: Option<&str>| BounceMaterial {
        id,
        albedo: albedo.map(s),
        emissive,
        emissive_texture: tex.map(s),
    };
    let mats = vec![
        m(2, Some("a.png"), true, Some("e.png")),
        m(0, Some("a.png"), false, Some("unused.png")),
        m(2, Some("b.png"), false, None),
    ];
    assert_eq!(wanted_textures(&mats), words(&["a.png", "e.png", "b.png"]));
    let lut = build_material_luts(&mats);
    assert_eq!(lut.len(), 3);
    assert_eq!((lut[2].albedo, lut[2].glow), (Some(2), Some(0)));
    assert_eq!((lut[1].albedo, lut[1].glow), (None, None));
}

#[test]
fn a_baked_volume_is_read_back() {
    let p = ProbeSh { c0: v3(1.0, 0.5, 2.0), c1: v3(0.0, 0.0, 0.0), c2: v3(-1.0, 0.0, 0.0), c3: v3(0.0, 0.0, 4.0) };
    let b = Baked {
        min: v3(0.0, 0.0, 0.0),
        max: v3(1.0, 1.0, 1.0),
        nx: 1,
        ny: 1,
        nz: 1,
        spacing: v3(2.0, 2.0, 2.0),
        sun_dir: pack_sun_dir(),
        probes: vec![p],
        validity: vec![255],
        bounces: 1,
        direct: true,
    };
    let bin = encode_volume(&b.probes);
    assert_eq!(bin.len(), 24);
    let v = load_sh_volume(&b.meta(), &bin, v3(9.0, 9.0, 9.0)).unwrap();
    assert_eq!(v.spacing, b.spacing);
    assert_eq!(v.tex_r, vec![0, 0x3c, 0, 0, 0, 0xbc, 0, 0]);
    assert_eq!(v.tex_g, vec![0, 0x38, 0, 0, 0, 0, 0, 0]);
    assert_eq!(v.tex_b, vec![0, 0x40, 0, 0, 0, 0, 0, 0x44]);
}

fn taa_frame() -> TaaFrame {
    TaaFrame {
        pipeline: true,
        settings: true,
        taa: true,
        prepass: true,
        active: true,
        views: true,
        compiled: true,
        hdr: true,
        width: 8,
        height: 4,
        prev_camera: true,
    }
}

#[test]
fn a_history_is_used_only_when_it_is_fresh() {
    let mut h = TaaHistory::new();
    let r = h.run(&taa_frame()).unwrap();
    assert!(r.allocate && !r.has_history && r.write_idx == 0 && r.read_idx == 1);
    let r = h.run(&taa_frame()).unwrap();
    assert!(!r.allocate && r.has_history && r.write_idx == 1 && r.read_idx == 0);
    let r = h.run(&TaaFrame { prev_camera: false, ..taa_frame() }).unwrap();
    assert!(!r.has_history);
    assert!(h.run(&TaaFrame { hdr: false, ..taa_frame() }).is_none());
    assert!(!h.run(&taa_frame()).unwrap().has_history, "a skipped frame spoils the history");
    let r = h.run(&TaaFrame { width: 16, ..taa_frame() }).unwrap();
    assert!(r.allocate && !r.has_history);
    assert!(h.run(&TaaFrame { width: 0, ..taa_frame() }).is_none());
}

#[test]
fn the_grade_is_looked_for_in_turn() {
    let no = None;
    assert_eq!(find_grade_lut(&no, Some(true), Some(true), None, true), Some(LutPlace::Env));
    assert_eq!(find_grade_lut(&no, Some(false), Some(true), None, true), Some(LutPlace::Pack));
    assert_eq!(find_grade_lut(&no, None, None, Some(true), true), Some(LutPlace::PackShared));
    assert_eq!(find_grade_lut(&no, None, None, None, true), Some(LutPlace::Shared));
    assert_eq!(find_grade_lut(&Some(s("0")), Some(true), Some(true), None, true), None);
    assert!(grade_setup_due(false, true) && !grade_setup_due(true, true));
    let mut g = GfxSettings::default();
    assert!(!grade_runs(true, Some(&g), true, true), "no grade for this pack");
    g.grade_available = true;
    assert!(grade_runs(true, Some(&g), true, true));
    assert!(grade_runs(true, None, true, true));
    assert!(!grade_runs(true, None, true, false));
    g.vignette = false;
    let p = grade_params(&g);
    assert_eq!((p.len(), p[0], p[8]), (12, g.grade_exposure.bits, 0));
}

#[test]
fn the_grade_table_is_repacked() {
    let linear: Vec<u16> = (0..256u16).map(|i| i * 3).collect();
    let mut atlas = vec![0u8; 1_048_576];
    // Entry (1, 2, 9): row (9 / 8) * 64 + 2, column (9 % 8) * 64 + 1.
    let at = ((64 + 2) * 512 + 64 + 1) * 4;
    atlas[at] = 10;
    atlas[at + 1] = 20;
    atlas[at + 2] = 30;
    let g = load_grade_lut(&atlas, &linear, 0x3c00, Some(f(1.5)), &Some(s("0"))).unwrap();
    let t = (9 * 64 * 64 + 2 * 64 + 1) * 8;
    assert_eq!(g.texels.len(), 262_144 * 8);
    assert_eq!(g.texels[t..t + 8], [30, 0, 60, 0, 90, 0, 0, 0x3c]);
    assert_eq!((g.exposure, g.vignette), (f(1.5), f(0.0)));
    let p = g.first_params();
    let vig = [1.15f32.to_bits(), 0.95f32.to_bits(), 0.55f32.to_bits(), 1.25f32.to_bits()];
    assert_eq!((p.len(), p[0], p[1], p[8]), (12, 1.5f32.to_bits(), 0, 0));
    assert_eq!(p[4..8], vig);
    assert!(load_grade_lut(&vec![0; 4], &linear, 0x3c00, None, &None).is_none());
}

#[test]
fn passes_run_when_all_is_there() {
    let mut t = AoTarget { exists: false, width: 0, height: 0 };
    let fill = t.prepare_ao_target(300, 2).unwrap();
    assert_eq!((fill.row, fill.bytes.len()), (512, 1024));
    assert!(fill.bytes.iter().all(|b| *b == 255));
    assert!(t.prepare_ao_target(300, 2).is_none());
    assert!(t.prepare_ao_target(0, 0).is_some());
    let i = DepthPassInputs {
        pipeline: true,
        settings: true,
        on: true,
        prepass: true,
        active: true,
        views: true,
        compiled: true,
    };
    assert!(ssao_runs(&i, &t) && ssr_runs(&i, true) && !ssr_runs(&i, false));
    assert!(!ssao_runs(&DepthPassInputs { on: false, ..i }, &t));
    let mut b = BoundViews { bound: None };
    assert!(b.bind(1, 2) && !b.bind(1, 2) && b.bind(1, 3));
    let edges = pass_order(true);
    assert!(edges.contains(&(Pass::Taa, Pass::Bloom)) && edges.contains(&(Pass::Prepass, Pass::Ssao)));
    assert!(!pass_order(false).contains(&(Pass::Prepass, Pass::Ssao)));
}

#[test]
fn the_video_link_starts_perfect() {
    let fx = FpvCamFx::default();
    assert!(!fx.active);
    assert_eq!((fx.signal, fx.intensity, fx.time, fx.aspect), (f(1.0), f(0.8), f(0.0), f(16.0 / 9.0)));
}

#[test]
fn the_video_link_needs_two_ends() {
    let mut fx = FpvCamFx { active: false, signal: f(0.5), intensity: f(0.0), time: f(0.0), aspect: f(1.0) };
    let ends = LinkEnds { home: v3(0.0, 0.0, 0.0), drone: v3(1.0, 0.0, 0.0) };
    let other = LinkEnds { home: v3(2.0, 0.0, 0.0), drone: v3(3.0, 0.0, 0.0) };
    let r = fx.update_fpv_fx(f(7.0), Some(f(1.5)), true, f(0.5), Some(ends), Some(other));
    assert_eq!(r, Some(ends));
    assert!(fx.active && fpv_runs(true, Some(&fx), true, true) && !fpv_runs(true, None, true, true));
    assert_eq!(fx.params()[4], 1.0f32.to_bits());
    let r = fx.update_fpv_fx(f(8.0), None, false, f(0.5), None, None);
    assert!(r.is_none() && !fx.active && fx.aspect == f(1.5));
}

#[test]
fn transparency_is_checked_in_the_corners() {
    assert!(window_can_be_transparent(false, false, true, true));
    assert!(!window_can_be_transparent(true, false, true, true));
    let mut fired = false;
    assert!(!check_due(&mut fired, 89) && check_due(&mut fired, 90) && !check_due(&mut fired, 91));
    let mut px = vec![255u8; 16 * 16 * 4];
    assert!(check_alpha(Some(&px), 7, 16).is_none());
    assert!(!check_alpha(Some(&px), 16, 16).unwrap().1);
    px[(4 * 16 + 4) * 4 + 3] = 100;
    let (a, live) = check_alpha(Some(&px), 16, 16).unwrap();
    assert!(live && a == vec![100, 255, 255, 255]);
    assert!(!check_alpha(None, 16, 16).unwrap().1);
}

#[test]
fn standard_materials() {
    let m = PackMaterial {
        id: 0,
        role: s("water"),
        tint: V4 { x: f(1.0), y: f(1.0), z: f(1.0), w: f(2.0) },
        alpha_cutoff: f(0.0),
        roughness: Some(f(0.0)),
        metallic: None,
        double_sided: false,
        albedo: None,
        normal: None,
        normal_green_flip: false,
        emissive: None,
    };
    let w = build_material(&m);
    let dark = V4 { x: f(0.015), y: f(0.035), z: f(0.045), w: f(0.9) };
    assert_eq!((w.base, w.roughness, w.alpha), (BaseColor::Water(dark), f(0.08), AlphaMode::Blend));
    assert!(!w.base_texture);
    let o = build_material(&PackMaterial { role: s("opaque"), ..m });
    assert_eq!((o.roughness, o.alpha), (f(0.05), AlphaMode::Opaque));
    assert_eq!(o.emissive, v3(0.0, 0.0, 0.0));
    assert_eq!(alpha_mode("cutout", f(0.0)), AlphaMode::Mask(f(0.5)));
    assert_eq!(alpha_mode("cutout", f(0.3)), AlphaMode::Mask(f(0.3)));
    let mut px = vec![1, 2, 3, 4, 5, 6, 7, 8];
    flip_green(&mut px);
    assert_eq!(px, vec![1, 253, 3, 4, 5, 249, 7, 8]);
    let mut c = TexCache::new();
    assert_eq!(c.want("a", false), (0, true));
    assert_eq!(c.want("a", true), (1, true));
    assert_eq!(c.want("a", false), (0, false));
}

#[test]
fn a_material_asks_for_its_pictures() {
    let mut m = PackMaterial {
        id: 0,
        role: s("water"),
        tint: V4 { x: f(1.0), y: f(1.0), z: f(1.0), w: f(1.0) },
        alpha_cutoff: f(0.0),
        roughness: None,
        metallic: None,
        double_sided: false,
        albedo: Some(s("a.png")),
        normal: Some(s("n.png")),
        normal_green_flip: true,
        emissive: Some(StdGlow { factor: v3(1.0, 2.0, 3.0), texture: Some(s("e.png")) }),
    };
    let parts = |p: Option<Picture>| p.map(|p| (p.path, p.srgb, p.flip));
    let p = wanted_pictures(&m);
    assert_eq!(parts(p.base), Some((s("a.png"), true, false)));
    assert_eq!(parts(p.normal), Some((s("n.png"), false, true)));
    assert_eq!(parts(p.glow), Some((s("e.png"), true, false)));
    assert_eq!(build_material(&m).emissive, v3(1.0, 2.0, 3.0));
    m.normal_green_flip = false;
    m.albedo = None;
    m.emissive = Some(StdGlow { factor: v3(1.0, 2.0, 3.0), texture: None });
    let p = wanted_pictures(&m);
    assert_eq!(parts(p.normal), Some((s("n.png"), false, false)));
    assert!(p.base.is_none() && p.glow.is_none());
}

#[test]
fn the_last_material_of_an_id_wins() {
    let m = |id| PackMaterial {
        id,
        role: s("opaque"),
        tint: V4 { x: f(1.0), y: f(1.0), z: f(1.0), w: f(1.0) },
        alpha_cutoff: f(0.0),
        roughness: None,
        metallic: None,
        double_sided: false,
        albedo: None,
        normal: None,
        normal_green_flip: false,
        emissive: None,
    };
    let mats = vec![m(4), m(9), m(4), m(2)];
    assert_eq!((material_for(&mats, 4), material_for(&mats, 9)), (Some(2), Some(1)));
    assert_eq!(material_for(&mats, 3), None);
}

#[test]
fn switched_lamps_are_not_burnt_in() {
    let lamp = |x: f32, group_idx| BakeLight {
        pos: v3(x, 0.0, 0.0),
        color: v3(1.0, 1.0, 1.0),
        range: f(8.0),
        dir: v3(0.0, -1.0, 0.0),
        cos_inner: f(-2.0),
        cos_outer: f(-2.0),
        group_idx,
    };
    let all = vec![lamp(0.0, -1), lamp(1.0, 0), lamp(2.0, -1), lamp(3.0, 5)];
    let fixed = vec![lamp(0.0, -1), lamp(2.0, -1)];
    assert_eq!(baked_lights(&all, false), fixed);
    assert_eq!(baked_lights(&fixed, false), fixed);
    assert!(baked_lights(&all, true).is_empty());
}

#[test]
fn a_buried_probe_moves_to_the_most_open_place() {
    assert!(is_in_the_open(f(0.2)) && !is_in_the_open(f(0.25)) && !is_in_the_open(f(f32::NAN)));
    assert_eq!(choose_offset(&vec![f(0.9), f(0.2), f(0.1), f(0.1), f(f32::NAN)]), Some(2));
    assert_eq!(choose_offset(&vec![f(0.25), f(1.0), f(f32::NAN)]), None);
    assert_eq!(choose_offset(&vec![]), None);
    assert_eq!(begin_offset(f(0.1)), OffsetStep::Stay);
    assert_eq!(begin_offset(f(0.3)), OffsetStep::Look(f(0.5)));
    assert_eq!(next_offset(f(0.5), &vec![f(0.9), f(0.1)]), OffsetStep::Move(1));
    assert_eq!(next_offset(f(0.5), &vec![f(0.9)]), OffsetStep::Look(f(1.0)));
    assert_eq!(next_offset(f(1.0), &vec![f(0.9)]), OffsetStep::Stay);
    let ways = offset_ways();
    assert_eq!((ways.len(), ways[1], ways[7]), (14, Way { x: -1, y: 0, z: 0 }, Way { x: 1, y: 1, z: -1 }));
}

#[test]
fn parts_outside_the_indices_are_left_out() {
    let sub = |idx_start, idx_count| SubMesh { idx_start, idx_count, material_id: 4 };
    let ms = vec![
        StdMesh { id: 1, indices: Some(6), submeshes: vec![sub(0, 3), sub(3, 4)] },
        StdMesh { id: 0, indices: None, submeshes: vec![sub(0, 3)] },
        StdMesh { id: 77, indices: Some(2), submeshes: vec![sub(0, 3)] },
    ];
    let parts = submesh_parts(&ms);
    assert_eq!((parts[0].len(), parts[1].len(), parts[2].len()), (0, 1, 0));
    assert_eq!((parts[1][0].start, parts[1][0].end, parts[1][0].mesh), (0, 3, 0));
    let p = place_instances(&vec![1, 0, 9, 1], &parts);
    assert_eq!(p.len(), 2);
    assert_eq!((p[1].instance, p[1].part), (3, 0));
}

#[test]
fn instances_of_other_shells_are_left_out() {
    let z = V4 { x: f(0.0), y: f(0.0), z: f(0.0), w: f(0.0) };
    let i = |flags, default_lod| PackInstance { m0: z, m1: z, m2: z, flags, default_lod };
    let size = MeshSize { decoded: true, positions: 3, indices: 3 };
    let d = spawn_pack_entities(
        &vec![vec![0, 1], vec![], vec![2]],
        &vec![size, size, MeshSize { decoded: false, ..size }],
        &vec![i(1, true), i(2, false), i(3, true)],
    );
    assert_eq!(d.len(), 1);
    assert_eq!((d[0].mesh, d[0].data.len(), d[0].data[0].flags), (0, 1, 1));
    assert!(!instance_layout().is_empty());
}

#[test]
fn texts_are_handled_character_by_character() {
    assert_eq!(trim(" \u{00a0}a b\u{3000}\n"), "a b");
    assert_eq!(to_ascii_lower("ÄbC"), "Äbc");
    assert_eq!(decimal_of(0), "0");
    assert_eq!(decimal_of(u64::MAX), "18446744073709551615");
    assert_eq!(hex_of(0xbeef, 6), "00beef");
    assert!(contains_text("abc", "") && contains_text("abc", "bc") && !contains_text("abc", "cb"));
    assert!(begins_with("abc", "ab") && ends_with("abc", "bc") && !ends_with("abc", "abcd"));
    assert_eq!(split_at_char("a,,b", ','), words(&["a", "", "b"]));
    assert_eq!(split_at_char("", ','), words(&[""]));
    assert!(comes_before("a", "ab") && !comes_before("b", "ab") && !comes_before("a", "a"));
    assert_eq!(sort_names(&words(&["b", "a", "c"])), vec![1, 0, 2]);
    assert!(is_blank("") && !is_blank("x"));
    assert_eq!(join3("a", "b", "c"), "abc");
    assert_eq!(join_texts(&words(&["a", "b"]), ", "), "a, b");
    assert_eq!(dashes_to_spaces("a-b-c"), "a b c");
    assert_eq!(after_prefix("Transit to X", "Transit to "), Some(s("X")));
    assert_eq!(after_prefix("Tran", "Transit to "), None);
    assert_eq!(filled_or(&Some(s("")), "d"), "d");
    assert_eq!(nonempty_or("x", "d"), "x");
}

fn matrix(first: f32) -> Matrix {
    let col = |i: usize| {
        let at = |k: usize| f(first + (4 * i + k) as f32);
        V4 { x: at(0), y: at(1), z: at(2), w: at(3) }
    };
    Matrix { x: col(0), y: col(1), z: col(2), w: col(3) }
}

fn pass_camera() -> PassCamera {
    PassCamera {
        clip_from_world: matrix(0.0),
        prev_clip_from_world: None,
        inv_proj: matrix(100.0),
        world_from_view: matrix(200.0),
        view_from_world: matrix(300.0),
        width: f(640.0),
        height: f(480.0),
        proj11: f(1.5),
    }
}

#[test]
fn the_blocks_of_the_depth_passes_have_their_layout() {
    let mut c = pass_camera();
    let mut h = TaaHistory::new();
    let frame = TaaFrame {
        pipeline: true,
        settings: true,
        taa: true,
        prepass: true,
        active: true,
        views: true,
        compiled: true,
        hdr: true,
        width: 640,
        height: 480,
        prev_camera: true,
    };
    let first = h.run(&frame).unwrap();
    let w = taa_words(&c, &first);
    assert_eq!((w.len(), w[1], w[16]), (52, f(1.0).bits, f(100.0).bits));
    assert_eq!(w[48..], [f(0.1).bits, 0, f(640.0).bits, f(480.0).bits]);
    c.prev_clip_from_world = Some(matrix(50.0));
    let second = h.run(&frame).unwrap();
    let w = taa_words(&c, &second);
    assert_eq!((w[0], w[49]), (f(50.0).bits, f(1.0).bits));
    let g = GfxSettings::from_env(&GfxEnv::empty());
    let w = ssao_words(&c, &g);
    assert_eq!((w.len(), w[16]), (40, f(300.0).bits));
    assert_eq!(w[32..36], [f(0.7).bits, f(1.0).bits, f(1.5).bits, f(80.0).bits]);
    assert_eq!(w[36..], [f(640.0).bits, f(480.0).bits, f(1.5).bits, 0]);
    let w = ssr_words(&c);
    assert_eq!((w.len(), w[48]), (68, f(300.0).bits));
    assert_eq!(w[64..], [f(60.0).bits, 0, f(1.0).bits, f(480.0).bits]);
}
