use atlas::f32bits::F32;
use atlas::gpu::blob::{compute_cpu_blob, parse_grass, GrassClump, GrassIn, PackIn};
use atlas::gpu::draw::{
    dispatch_groups, indirect_draw, queue_gpu_driven, specialize, vertex_attributes, DrawOrder, DrawPass, LayoutSlot,
};
use atlas::gpu::grass::{find_grass, grass_tint, GrassPlace};
use atlas::gpu::lights::{
    build_cells, build_light_grid, cells_must_grow, clamp_cell, clamp_dim, first_cell_size,
    pack_lights, CellBox, CellGrid, GridDims, LightIn, LightScales,
};
use atlas::gpu::load::{
    albedo_job, buffer_sizes, free_cpu_staging, gpu_fallback_relaunch, kick_cpu_build, normal_job, poll_cpu_build,
    prepare_gpu_buffers, setting_is_one, setting_not_off, upload_paint_table, BuildOutcome, DeviceFeatures,
    EpochWatch, FallbackAction, GpuLoadSignal, KickAction, PrepareAction, PrepareState, ShadowSwitch, TexRef,
    TexStream,
};
use atlas::gpu::materials::{
    material_table, softcutout_params, DetailIn, EmissiveIn, MaterialIn, PackRules, PartStretch, NO_ALBEDO,
    NO_EMISSIVE, NO_NORMAL, V3, V4,
};
use atlas::gpu::meshes::{two_longest, BlendMesh, InstanceIn, MeshIn, Projection, SubMeshIn, Uv, VertexLayout};
use atlas::gpu::paths::PathTable;
use atlas::gpu::sh_volume::{checked_strength, load_sh_volume, realtime_enabled, ShVolumeCpu, VolumeMeta};
use atlas::gpu::terrain::{layer_file, read_tiles, token_match, LayerIn, TerrainMesh, TileIn};
use atlas::gpu::uniforms::{
    cascade_words, cull_dispatch, cull_pixels, draw_gpu_driven, light_factors, shadow_layers, CullUniform,
    DrawIndexedIndirectArgs, ShVolumeUniform, SunShadowUniform,
};
use atlas::json::{Json, Member, Number};
use atlas::settings::GfxSettings;

fn f(x: f32) -> F32 {
    F32 { bits: x.to_bits() }
}

fn v3(x: f32, y: f32, z: f32) -> V3 {
    V3 { x: f(x), y: f(y), z: f(z) }
}

fn v4(x: f32, y: f32, z: f32, w: f32) -> V4 {
    V4 { x: f(x), y: f(y), z: f(z), w: f(w) }
}

fn material(id: u32, role: &str, mode: &str, albedo: Option<&str>) -> MaterialIn {
    MaterialIn {
        id,
        role: role.to_string(),
        alpha_mode: mode.to_string(),
        albedo: albedo.map(|s| s.to_string()),
        normal: None,
        normal_green_flip: false,
        normal_scale: f(1.0),
        roughness_from_albedo_alpha: false,
        roughness: None,
        alpha_cutoff: f(0.5),
        uv_xform: v4(1.0, 1.0, 0.0, 0.0),
        tint: v4(1.0, 1.0, 1.0, 1.0),
        vp: None,
        emissive: None,
        detail: None,
        alpha_is_constant: false,
    }
}

fn rules() -> PackRules {
    PackRules::new(false, &None)
}

#[test]
fn detail_fades_as_asked() {
    assert_eq!((rules().fade_near, rules().fade_far), (f(40.0), f(120.0)));
    let r = PackRules::new(true, &Some(vec![Some(f(8.0)), None, Some(f(25.0))]));
    assert_eq!((r.green_flip, r.fade_near, r.fade_far), (true, f(8.0), f(25.0)));
    let r = PackRules::new(true, &Some(vec![Some(f(8.0))]));
    assert_eq!(r.fade_far, f(120.0));
}

#[test]
fn grass_without_its_texture_is_left_out() {
    assert_eq!(find_grass(20, "g.png", true, true, true), Some(GrassPlace::AsGiven));
    assert_eq!(find_grass(20, "g.png", false, true, true), Some(GrassPlace::AtRoot));
    assert_eq!(find_grass(20, "g.png", false, false, true), Some(GrassPlace::InLayers));
    assert_eq!(find_grass(20, "g.png", false, false, false), None);
    assert_eq!(find_grass(0, "g.png", true, true, true), None);
    assert_eq!(find_grass(20, "", true, true, true), None);
    assert_eq!(grass_tint(None), v4(0.7, 0.75, 0.55, 1.0));
    let list = Json::Arr(vec![num(0.1), text("x")]);
    assert_eq!(grass_tint(Some(&list)), v4(0.1, 0.75, 0.55, 1.0));
}

fn obj(members: Vec<(&str, Json)>) -> Json {
    Json::Obj(members.into_iter().map(|(k, value)| Member { key: k.to_string(), value }).collect())
}

fn num(x: f32) -> Json {
    Json::Num(Number { value: f(x), whole: None })
}

fn whole(n: u64) -> Json {
    Json::Num(Number { value: f(n as f32), whole: Some(n) })
}

fn text(s: &str) -> Json {
    Json::Str(s.to_string())
}

#[test]
fn paths_are_numbered_by_first_use() {
    let mut t = PathTable::new();
    assert_eq!(t.intern("a"), 0);
    assert_eq!(t.intern("b"), 1);
    assert_eq!(t.intern("a"), 0);
    assert_eq!(t.intern_opt(&None, 77), 77);
    assert_eq!(t.intern_opt(&Some("c".to_string()), 77), 2);
    assert_eq!(t.paths, vec!["a".to_string(), "b".to_string(), "c".to_string()]);
}

#[test]
fn materials_are_classed_by_role() {
    let mats = vec![
        material(0, "opaque", "OPAQUE", Some("wall.png")),
        material(1, "cutout", "MASK", Some("fence.png")),
        material(2, "glass", "BLEND", None),
        material(3, "water", "BLEND", None),
        material(4, "water", "BLEND", Some("puddle.png")),
        material(5, "decal", "BLEND", Some("wall.png")),
    ];
    let (recs, table) = material_table(&mats, &vec![], rules());
    assert_eq!(recs.len(), 6);
    assert_eq!(recs[0].flags.flags(), 0);
    assert_eq!(recs[1].flags.flags(), 1);
    assert_eq!(recs[2].flags.flags(), 2);
    assert_eq!(recs[3].flags.flags(), 8, "deep water stays opaque");
    assert_eq!(recs[4].flags.flags(), 8 + 2);
    assert_eq!(recs[5].flags.flags(), 1024 + 2);
    assert_eq!(recs[0].albedo_index, 0);
    assert_eq!(recs[5].albedo_index, 0, "a shared texture has one number");
    assert_eq!(recs[2].albedo_index, NO_ALBEDO);
    assert_eq!(recs[0].normal_index, NO_NORMAL);
    assert_eq!(recs[0].emissive_index, NO_EMISSIVE);
    assert_eq!(recs[0].roughness, f(0.55));
    assert_eq!(table.albedo.paths.len(), 3);
}

#[test]
fn a_stretched_puddle_is_matte() {
    let mats = vec![material(0, "water", "BLEND", Some("p.png"))];
    let parts = vec![PartStretch { material_id: 0, metres_per_repeat: f(40.5) }];
    let (recs, _) = material_table(&mats, &parts, rules());
    assert!(recs[0].flags.water_matte);
    let parts = vec![PartStretch { material_id: 0, metres_per_repeat: f(40.0) }];
    assert!(!material_table(&mats, &parts, rules()).0[0].flags.water_matte);
}

#[test]
fn a_wide_stretched_puddle_is_projected() {
    let projection = |tile: f32, width: f32| Projection {
        metres_per_tile: f(tile),
        width: f(width),
        uvs: vec![Uv { u: f(7.0), v: f(8.0) }; 3],
    };
    let mut pack = tri_pack();
    pack.materials[1] = material(1, "water", "BLEND", Some("p.png"));
    for (tile, width, u) in [(15.0, 3.0, 7.0), (14.0, 3.0, 0.0), (15.0, 2.0, 0.0)] {
        pack.meshes[0].submeshes[0].projected = Some(projection(tile, width));
        let b = compute_cpu_blob(&pack).unwrap();
        assert_eq!(b.packed.vertex_data[6], f(u));
    }
}

#[test]
fn textures_of_a_material_are_numbered_in_order() {
    let mut m = material(0, "opaque", "OPAQUE", Some("base.png"));
    m.normal = Some("n.png".to_string());
    m.roughness = Some(f(7.0));
    m.vp = Some(obj(vec![
        (
            "layers",
            Json::Arr(vec![
                obj(vec![("albedo", text("l0.png"))]),
                obj(vec![("albedo", text("l1.png")), ("uv", Json::Arr(vec![num(2.0)]))]),
                obj(vec![("albedo", text("base.png"))]),
            ]),
        ),
        ("heights", text("h.png")),
        ("blend", num(3.0)),
    ]));
    m.emissive = Some(EmissiveIn { texture: Some("e.png".to_string()), rgb: v3(1.0, 2.0, 3.0) });
    m.detail = Some(DetailIn {
        albedo: Some("d.png".to_string()),
        normal: Some("n.png".to_string()),
        albedo_uv: v4(4.0, 4.0, 0.0, 0.0),
        normal_uv: v4(5.0, 5.0, 0.0, 0.0),
        albedo_strength: f(0.5),
        normal_scale: f(0.25),
        albedo_mean_gain: v3(1.0, 1.5, 2.0),
    });
    let (recs, t) = material_table(&vec![m], &vec![], rules());
    let names = ["base.png", "l0.png", "l1.png", "h.png", "e.png", "d.png"];
    assert!(t.albedo.paths.iter().map(|s| s.as_str()).eq(names));
    assert_eq!(t.normal.paths, vec!["n.png".to_string()]);
    assert_eq!(t.linear, vec![3], "the mask is data, not colour");
    let r = &recs[0];
    assert!(r.flags.vp && r.flags.detail);
    assert_eq!(r.roughness, f(1.0));
    assert_eq!((r.emissive_index, r.detail_albedo_index, r.detail_normal_index), (4, 5, 0));
    assert_eq!(r.detail_flags, 3);
    assert_eq!(r.detail_params, v4(0.5, 0.25, 40.0, 120.0));
    assert_eq!(r.emissive_rgb, v3(1.0, 2.0, 3.0));
    let p = &t.vp[0];
    assert_eq!((p.layer0, p.layer1, p.layer2, p.heights), (1, 2, 0, 3));
    assert_eq!(p.uv1, v4(2.0, 1.0, 0.0, 0.0));
    assert_eq!(p.tint0, v4(1.0, 1.0, 1.0, 3.0));
    assert_eq!(p.tint1, v4(1.0, 1.0, 1.0, 0.0));
}

#[test]
fn soft_cutout_needs_three_numbers() {
    assert!(softcutout_params(&None).is_none());
    assert!(softcutout_params(&Some(obj(vec![]))).is_none());
    let nums = |n: u32| Json::Arr((0..n).map(|i| num(i as f32)).collect());
    assert!(softcutout_params(&Some(obj(vec![("softCutout", nums(2))]))).is_none());
    assert_eq!(softcutout_params(&Some(obj(vec![("softCutout", nums(4))]))), Some(v4(0.0, 1.0, 2.0, 0.0)));
}

fn tri_pack() -> PackIn {
    // Three vertices of twelve bytes each, then three indices.
    let mut bin = Vec::new();
    for x in [0.0f32, 0.0, 0.0, 1.0, 0.0, 0.0, 0.0, 0.0, 1.0] {
        bin.extend_from_slice(&x.to_le_bytes());
    }
    for i in [0u32, 1, 2] {
        bin.extend_from_slice(&i.to_le_bytes());
    }
    PackIn {
        materials: vec![
            material(0, "opaque", "OPAQUE", Some("a.png")),
            material(1, "glass", "BLEND", None),
        ],
        parts: vec![],
        rules: rules(),
        tiles: None,
        terrain_meshes: vec![],
        layout: VertexLayout { stride: 12, position: 0, normal: None, uv: None, color: None },
        bin,
        meshes: vec![MeshIn {
            vtx_offset: 0,
            vtx_count: 3,
            idx_offset: 36,
            idx_count: 3,
            submeshes: vec![SubMeshIn { material_id: 1, idx_start: 0, idx_count: 3, projected: None }],
            instances: vec![InstanceIn {
                m0: v4(1.0, 0.0, 0.0, 5.0),
                m1: v4(0.0, 1.0, 0.0, 6.0),
                m2: v4(0.0, 0.0, 1.0, 7.0),
                flags: 9,
                sphere: v4(5.0, 6.0, 7.0, 1.0),
            }],
        }],
        unorm: (0..256).map(|i| f(i as f32 / 255.0)).collect(),
        grass: None,
    }
}

#[test]
fn a_mesh_is_packed_vertex_by_vertex() {
    let b = compute_cpu_blob(&tri_pack()).unwrap();
    assert_eq!(b.packed.vertex_data.len(), 39);
    let second = &b.packed.vertex_data[13..26];
    let want = [1.0, 0.0, 0.0, 0.0, 1.0, 0.0, 0.0, 0.0];
    for (have, x) in second.iter().zip(want) {
        assert_eq!(*have, f(x));
    }
    assert_eq!(second[8].bits, 1, "the material as an integer");
    assert_eq!(second[9], f(1.0));
    assert_eq!(b.packed.index_data, vec![0, 1, 2]);
    let m = b.packed.mesh_meta[0];
    assert_eq!((m.index_count, m.first_index, m.base_vertex), (3, 0, 0));
    assert_eq!((m.instance_base, m.instance_count, m.blend_class), (0, 1, 1));
    assert_eq!(b.packed.instances[0].flags, 9);
    assert_eq!(b.packed.instances[0].mesh, 0);
    assert_eq!(b.packed.blend_meshes.len(), 1);
    assert_eq!(b.packed.blend_meshes[0].passes, 4);
}

#[test]
fn nothing_to_draw_is_nothing() {
    let mut p = tri_pack();
    p.meshes[0].instances.clear();
    assert!(compute_cpu_blob(&p).is_none());
    let mut p = tri_pack();
    p.meshes[0].idx_offset = 40;
    assert!(compute_cpu_blob(&p).is_none(), "a mesh beyond the file is left out");
}

#[test]
fn grass_is_one_more_mesh() {
    let mut p = tri_pack();
    let clump = GrassClump {
        m0: v4(1.0, 0.0, 0.0, 0.0),
        m1: v4(0.0, 1.0, 0.0, 0.0),
        m2: v4(0.0, 0.0, 1.0, 0.0),
        sphere: v4(0.0, 0.0, 0.0, 1.3),
    };
    p.grass = Some(GrassIn {
        albedo: "grass.png".to_string(),
        tint: v4(0.5, 0.6, 0.3, 1.0),
        corners: vec![v3(0.0, 0.0, 0.0); 12],
        clumps: vec![clump, clump],
    });
    let b = compute_cpu_blob(&p).unwrap();
    assert_eq!(b.packed.mesh_meta.len(), 2);
    let m = b.packed.mesh_meta[1];
    assert_eq!((m.index_count, m.first_index, m.base_vertex), (18, 3, 3));
    assert_eq!((m.instance_base, m.instance_count), (1, 2));
    assert_eq!(b.packed.index_data[3..9], [0, 1, 2, 0, 2, 3]);
    assert_eq!(b.materials.len(), 3);
    assert_eq!(b.materials[2].albedo_index, 1);
    assert_eq!(b.materials[2].alpha_cutoff, f(0.35));
    assert_eq!(b.packed.instances[2].kind, 1);
    assert_eq!(m.first_index + m.index_count, b.packed.index_data.len() as u32);
    assert_eq!(m.instance_base + m.instance_count, b.packed.instances.len() as u32);
    assert!(b.packed.instances[1..].iter().all(|i| i.mesh == 1));
}

#[test]
fn indices_lie_inside_the_lists() {
    let mut p = tri_pack();
    p.materials[0].normal = Some("n.png".to_string());
    p.materials[1].emissive = Some(EmissiveIn { texture: Some("e.png".to_string()), rgb: v3(1.0, 1.0, 1.0) });
    p.tiles = Some(vec![TileIn {
        name: "Slice_1".to_string(),
        ctrl_maps: vec![Some("c0.png".to_string())],
        layers: Some(vec![LayerIn { idx: 3, path: "l.png".to_string(), rep: f(8.0), present: true }]),
    }]);
    p.grass = Some(GrassIn {
        albedo: "grass.png".to_string(),
        tint: v4(0.5, 0.6, 0.3, 1.0),
        corners: vec![v3(0.0, 0.0, 0.0); 12],
        clumps: vec![],
    });
    let b = compute_cpu_blob(&p).unwrap();
    let (albedo, normal) = (b.albedo.paths.len() as u32, b.normal.paths.len() as u32);
    for r in &b.materials {
        assert!(r.albedo_index == NO_ALBEDO || r.albedo_index < albedo);
        assert!(r.normal_index == NO_NORMAL || r.normal_index < normal);
        assert!(r.emissive_index == NO_EMISSIVE || r.emissive_index < albedo);
    }
    assert!(b.terrain.layer_albedo.iter().chain(&b.terrain.ctrl_idx).chain(&b.linear).all(|i| *i < albedo));
    assert_eq!(b.materials.last().unwrap().albedo_index, albedo - 1);
}

#[test]
fn a_puddle_lies_along_its_two_longest_axes() {
    assert_eq!(two_longest(f(1.0), f(2.0), f(3.0)), (2, 1));
    assert_eq!(two_longest(f(3.0), f(0.1), f(5.0)), (2, 0));
    assert_eq!(two_longest(f(3.0), f(0.1), f(2.0)), (0, 2));
    assert_eq!(two_longest(f(2.0), f(2.0), f(2.0)), (0, 1));
    assert_eq!(two_longest(f(1.0), f(4.0), f(1.0)), (1, 0));
}

#[test]
fn terrain_materials_are_tagged_by_slice() {
    let mut p = tri_pack();
    p.tiles = Some(vec![TileIn {
        name: "Slice_1".to_string(),
        ctrl_maps: vec![Some("c0.png".to_string()), None],
        layers: Some(vec![
            LayerIn { idx: 1, path: "layer_mud.png".to_string(), rep: f(8.0), present: true },
            LayerIn { idx: 2, path: "layer_gone.png".to_string(), rep: f(4.0), present: false },
        ]),
    }]);
    p.terrain_meshes = vec![
        TerrainMesh { name: "Terrain_Slice_1_LOD0".to_string(), materials: vec![0] },
        TerrainMesh { name: "Terrain_Slice_12".to_string(), materials: vec![1] },
    ];
    let b = compute_cpu_blob(&p).unwrap();
    assert!(b.materials[0].flags.terrain);
    assert_eq!(b.materials[0].roughness, f(0.95));
    assert_eq!(b.materials[0].slot, 0);
    assert!(!b.materials[1].flags.terrain, "another slice");
    let ctrl = b.terrain.ctrl_idx[0];
    assert_eq!(b.albedo.paths[ctrl as usize], "c0.png");
    assert_eq!(b.linear, vec![ctrl]);
    let mud = b.terrain.layer_albedo[1];
    assert_eq!(b.albedo.paths[mud as usize], "layer_mud.png");
    assert_eq!(b.terrain.layer_albedo[2], mud, "a missing layer shows the first one");
    assert_eq!(b.terrain.layer_rep[1], f(8.0));
}

#[test]
fn tiles_are_read_from_their_sidecar() {
    let layers = Json::Arr(vec![
        obj(vec![("idx", whole(3)), ("name", text("mud")), ("rep", num(8.5))]),
        obj(vec![("idx", num(3.0)), ("rep", text("x"))]),
        obj(vec![("name", whole(1)), ("rep", whole(4))]),
        Json::Null,
    ]);
    let maps = Json::Arr(vec![text("c0.png"), Json::Null, text("")]);
    let tiles = obj(vec![
        ("b", obj(vec![("layers", whole(1))])),
        ("a", obj(vec![("ctrl_maps", maps), ("layers", layers)])),
        ("b", text("no tile")),
    ]);
    let t = read_tiles(&obj(vec![("tiles", tiles)])).unwrap();
    assert_eq!((t.len(), t[0].name.as_str(), t[1].name.as_str()), (2, "a", "b"));
    assert_eq!(t[0].ctrl_maps, vec![Some("c0.png".to_string()), None, Some(String::new())]);
    let l = t[0].layers.as_ref().unwrap();
    assert_eq!((l[0].idx, l[0].file.as_str(), l[0].rep), (3, "layer_mud.png", f(8.5)));
    assert_eq!((l[1].idx, l[1].file.as_str(), l[1].rep), (99, "layer_.png", f(1.0)), "3.0 is no number of a layer");
    assert_eq!((l[2].idx, l[2].file.as_str(), l[2].rep), (99, "layer_.png", f(4.0)));
    assert_eq!((l[3].idx, l[3].rep), (99, f(1.0)));
    assert!(t[1].layers.is_none() && t[1].ctrl_maps.is_empty());
    assert!(read_tiles(&obj(vec![("tiles", Json::Arr(vec![]))])).is_none());
    assert!(read_tiles(&Json::Null).is_none());
}

#[test]
fn slice_names_match_as_whole_tokens() {
    assert!(token_match("Terrain_Slice_1_LOD0", "Slice_1"));
    assert!(!token_match("Terrain_Slice_12", "Slice_1"));
    assert!(token_match("Slice_12_Slice_1", "Slice_1"));
    assert_eq!(layer_file("mud"), "layer_mud.png");
}

#[test]
fn grass_files_are_read_in_records() {
    let mut bin = Vec::new();
    for x in [1.0f32, 2.0, 3.0, 4.0, 5.0] {
        bin.extend_from_slice(&x.to_le_bytes());
    }
    bin.extend_from_slice(&[1, 2, 3]);
    let g = parse_grass(&bin);
    assert_eq!(g.len(), 1);
    assert_eq!((g[0].x, g[0].turn, g[0].scale), (f(1.0), f(4.0), f(5.0)));
}

fn light(range: f32) -> LightIn {
    LightIn {
        pos: v3(1.0, 2.0, 3.0),
        range: f(range),
        color: v3(0.5, 0.5, 0.5),
        cos_outer: f(-1.0),
        dir: v3(0.0, -1.0, 0.0),
        cos_inner: f(-1.0),
    }
}

#[test]
fn lights_are_listed_by_cell() {
    let boxes = vec![
        CellBox { x0: 0, y0: 0, z0: 0, x1: 1, y1: 0, z1: 0 },
        CellBox { x0: 1, y0: 0, z0: 0, x1: 1, y1: 0, z1: 0 },
    ];
    let d = GridDims { nx: 2, ny: 1, nz: 1 };
    assert_eq!(build_cells(&boxes, d).unwrap(), vec![3, 4, 6, 0, 0, 1]);
    let lights = vec![light(5.0), light(6.0)];
    let c = CellGrid { cell: f(4.0), dims: d, boxes };
    let scales = LightScales { light: None, ambient: Some(f(0.3)), sun: Some(f(f32::NAN)) };
    let g = build_light_grid(&lights, true, &c, v3(0.0, 0.0, 0.0), scales).unwrap();
    assert_eq!(g.lights, 2);
    assert_eq!(g.params, v4(6.0, 0.3, 1.0, 0.8));
    let w = g.words();
    assert_eq!((w.len(), w[4], w[7]), (12, 2, 2));
    let off = build_light_grid(&lights, false, &c, v3(0.0, 0.0, 0.0), scales).unwrap();
    assert_eq!((off.lights, off.params, off.records.len()), (0, v4(6.0, 0.3, 0.0, 0.0), 6));
    assert_eq!(g.records.len(), 6);
    assert_eq!(g.records[3].w, f(6.0));
}

#[test]
fn a_map_without_lights_has_one_dark_cell() {
    let c = CellGrid { cell: f(4.0), dims: GridDims { nx: 1, ny: 1, nz: 1 }, boxes: vec![] };
    let scales = LightScales { light: Some(f(6.0)), ambient: Some(f(0.3)), sun: Some(f(0.7)) };
    let g = build_light_grid(&vec![], true, &c, v3(0.0, 0.0, 0.0), scales).unwrap();
    assert_eq!((g.lights, g.cells.clone()), (0, vec![2, 2]));
    assert_eq!(g.params, v4(6.0, 0.3, 0.0, 0.7));
    assert_eq!(g.grid_min.w, f(8.0));
    assert_eq!(pack_lights(&vec![]).len(), 3);
}

#[test]
fn cells_are_sized_by_the_middle_range() {
    assert_eq!(first_cell_size(&vec![f(9.0), f(5.0), f(7.0)]), f(7.0));
    assert_eq!(first_cell_size(&vec![f(9.0), f(5.0)]), f(9.0));
    assert_eq!(first_cell_size(&vec![f(1.0)]), f(4.0));
    assert_eq!(first_cell_size(&vec![f(100.0)]), f(12.0));
    assert_eq!((clamp_dim(0), clamp_dim(7), clamp_dim(999)), (1, 7, 256));
    assert_eq!((clamp_cell(-3, 4), clamp_cell(2, 4), clamp_cell(9, 4)), (0, 2, 3));
    assert!(cells_must_grow(256, 256, 256, 0));
    assert!(!cells_must_grow(2, 2, 2, 0));
}

#[test]
fn frames_are_drawn_in_order() {
    let m = |mesh, passes| BlendMesh { mesh, center: v3(0.0, 0.0, 0.0), passes };
    let items = queue_gpu_driven(&vec![m(3, 1), m(5, 6)]);
    assert_eq!(items.len(), 5);
    assert_eq!((items[0].pass, items[0].mesh), (DrawPass::Opaque, None));
    assert_eq!((items[1].pass, items[1].order), (DrawPass::DecalColor, DrawOrder::Fixed(2_000_003)));
    assert_eq!((items[2].pass, items[2].order), (DrawPass::DecalDepth, DrawOrder::Fixed(1_500_000)));
    assert_eq!((items[3].pass, items[3].mesh), (DrawPass::Overlay, Some(5)));
    assert_eq!((items[4].pass, items[4].order), (DrawPass::Blend, DrawOrder::ByDistance { ahead: false }));
    let d = indirect_draw(items[3], 9);
    assert!(d.blended && d.offset == 100 && d.count == 1);
    let d = indirect_draw(items[0], 9);
    assert!(!d.blended && d.offset == 0 && d.count == 9);
    assert!(draw_gpu_driven(items[0], 9, false).is_none());
    assert_eq!(draw_gpu_driven(items[0], 9, true), Some(d));
}

#[test]
fn passes_have_their_state() {
    let o = specialize(DrawPass::Opaque, 4, true);
    assert!(!o.blend && o.depth_write && o.color_write && o.alpha_to_coverage && o.hdr);
    assert!(o.shader_defs.is_empty());
    assert_eq!((o.cull, o.at_least_as_near, o.depth_bias), (false, true, 0));
    assert_eq!(
        o.layouts,
        vec![LayoutSlot::View, LayoutSlot::Storage, LayoutSlot::Material, LayoutSlot::Volume]
    );
    let c = specialize(DrawPass::DecalColor, 1, false);
    assert_eq!(c.layouts, o.layouts);
    assert!(c.blend && !c.depth_write && !c.alpha_to_coverage);
    assert_eq!(c.shader_defs, vec!["BLEND_PASS", "DECAL_COLOR_PASS", "DECAL_NDC_PUSH"]);
    let d = specialize(DrawPass::DecalDepth, 1, false);
    assert!(!d.color_write && d.depth_write);
    assert_eq!(d.label, "eft_gpu_draw_decal_depth");
    let a = vertex_attributes();
    assert_eq!(a.last().unwrap().offset + 16, 52);
    assert_eq!((dispatch_groups(0), dispatch_groups(64), dispatch_groups(65)), (0, 1, 2));
}

#[test]
fn builds_follow_the_map() {
    assert_eq!(kick_cpu_build(false, None), KickAction::Idle);
    assert_eq!(kick_cpu_build(true, Some("1")), KickAction::Inline);
    assert_eq!(kick_cpu_build(true, None), KickAction::Background);
    assert_eq!(poll_cpu_build(1, 2, true, false), BuildOutcome::Stale);
    assert_eq!(poll_cpu_build(2, 2, true, false), BuildOutcome::Apply { spawn_tag: true });
    assert_eq!(poll_cpu_build(2, 2, false, false), BuildOutcome::Nothing);
    let mut w = EpochWatch { last: None };
    assert!(!w.observe(Some(0)));
    assert!(!w.observe(Some(0)));
    assert!(!w.observe(None));
    assert!(w.observe(Some(1)));
    let mut s = GpuLoadSignal { raised: false };
    s.begin();
    assert!(s.in_progress());
    s.finish();
    assert!(!s.in_progress());
}

#[test]
fn a_frame_prepares_what_it_can() {
    let s = PrepareState {
        built: false,
        data: Some(4),
        has_pipelines: true,
        map_epoch: Some(4),
        sync_load: false,
        build_epoch: None,
    };
    assert_eq!(prepare_gpu_buffers(s), PrepareAction::Kickoff);
    assert_eq!(prepare_gpu_buffers(PrepareState { build_epoch: Some(4), ..s }), PrepareAction::Progress);
    assert_eq!(prepare_gpu_buffers(PrepareState { build_epoch: Some(3), ..s }), PrepareAction::Kickoff);
    assert_eq!(prepare_gpu_buffers(PrepareState { sync_load: true, ..s }), PrepareAction::BuildNow);
    assert_eq!(prepare_gpu_buffers(PrepareState { map_epoch: Some(5), ..s }), PrepareAction::Wait);
    assert_eq!(prepare_gpu_buffers(PrepareState { data: None, ..s }), PrepareAction::Wait);
    assert_eq!(prepare_gpu_buffers(PrepareState { has_pipelines: false, ..s }), PrepareAction::Disabled);
    assert_eq!(
        prepare_gpu_buffers(PrepareState { built: true, ..s }),
        PrepareAction::Built { drop_data: true }
    );
}

#[test]
fn textures_stream_in_any_order() {
    let mut s = TexStream::new(4, 2, 1);
    assert!(!s.finished());
    s.begin_frame();
    assert_eq!(s.next(), Some(TexRef { normal: false, index: 0 }));
    assert_eq!(s.next(), Some(TexRef { normal: false, index: 1 }));
    s.mark(TexRef { normal: false, index: 1 });
    assert_eq!(s.next(), Some(TexRef { normal: true, index: 0 }));
    s.mark(TexRef { normal: true, index: 0 });
    assert_eq!(s.next(), None);
    s.begin_frame();
    assert_eq!(s.next(), Some(TexRef { normal: false, index: 0 }));
    s.mark(TexRef { normal: false, index: 0 });
    assert_eq!(s.next(), None);
    assert!(s.finished());
}

#[test]
fn staging_goes_after_its_frames() {
    assert_eq!(free_cpu_staging(2, false, false, false), (2, false));
    assert_eq!(free_cpu_staging(2, true, true, false), (0, false));
    assert_eq!(free_cpu_staging(9, true, false, true), (1, false));
    assert_eq!(free_cpu_staging(2, true, false, false), (3, false));
    assert_eq!(free_cpu_staging(3, true, false, false), (4, true));
}

#[test]
fn texture_jobs_and_buffers() {
    let a = albedo_job(&vec![2], 0);
    assert!(!a.data && a.srgb && !a.is_normal && a.placeholder == [255, 0, 255, 255]);
    let d = albedo_job(&vec![2], 2);
    assert!(d.data && !d.srgb);
    let n = normal_job();
    assert!(n.is_normal && !n.srgb && n.placeholder == [128, 128, 255, 255]);
    let b = buffer_sizes(10, 3, 0, 0);
    assert_eq!((b.visible, b.indirect, b.albedo, b.normal), (40, 60, 1, 1));
    assert_eq!(upload_paint_table(&vec![]).len(), 1);
    assert_eq!(upload_paint_table(&vec![])[0].layer0, NO_ALBEDO);
}

#[test]
fn the_fast_path_needs_its_features() {
    let all = DeviceFeatures {
        indirect_first_instance: true,
        multi_draw_indirect: true,
        texture_binding_array: true,
        non_uniform_indexing: true,
    };
    assert!(all.supports_gpu_driven());
    assert!(!DeviceFeatures { multi_draw_indirect: false, ..all }.supports_gpu_driven());
    assert_eq!(gpu_fallback_relaunch(false, Some(true), None), (true, FallbackAction::Relaunch));
    assert_eq!(gpu_fallback_relaunch(true, Some(true), None).1, FallbackAction::Nothing);
    assert_eq!(gpu_fallback_relaunch(false, Some(false), None).1, FallbackAction::Nothing);
}

#[test]
fn shadows_need_a_sun_and_nothing_against_them() {
    let mut s = ShadowSwitch::new(None, None, true);
    assert!(s.enabled);
    s.sync(false);
    assert!(!s.enabled);
    s.sync(true);
    assert!(s.enabled);
    assert!(!ShadowSwitch::new(Some("0"), None, true).enabled);
    assert!(!ShadowSwitch::new(Some("False"), None, true).enabled);
    assert!(!ShadowSwitch::new(None, None, false).enabled);
    assert!(setting_is_one(Some(" 1 ")) && !setting_is_one(None));
    assert!(setting_not_off(None) && !setting_not_off(Some("0")));
    assert_eq!(shadow_layers(true, true, s, true), 2);
    assert_eq!(shadow_layers(false, true, s, true), 0);
    let u = SunShadowUniform::of_frame(vec![v4(1.0, 2.0, 3.0, 4.0); 8], f(0.1), f(0.2), v3(0.0, 1.0, 0.0), s, None);
    let w = u.words();
    assert_eq!(w.len(), 52);
    assert_eq!(w[32..36], [15.0f32.to_bits(), 80.0f32.to_bits(), 0.1f32.to_bits(), 1.0f32.to_bits()]);
    assert_eq!(w[39], (1.0f32 / 2048.0).to_bits());
    assert_eq!(SunShadowUniform::seed(v3(0.0, 1.0, 0.0), true).words()[47], 1.0f32.to_bits());
    assert_eq!(cascade_words(&vec![v4(0.0, 0.0, 0.0, 0.0); 4], v3(0.0, 1.0, 0.0), Some("1"))[20], 1.0f32.to_bits());
}

#[test]
fn uniform_blocks_have_their_layout() {
    let u = CullUniform::seed(7, 3);
    let w = u.words();
    assert_eq!(w.len(), 32);
    assert_eq!(w[24..28], [7, 3, 0, 0]);
    assert!(w[..24].iter().all(|x| *x == 0));
    assert_eq!(cull_pixels(None), (f(1.5), f(4.0)));
    let mut g = GfxSettings::default();
    g.grass = false;
    assert_eq!(cull_pixels(Some(g)), (g.cull_px, f(f32::MAX)));
    g.lights = false;
    g.sun_diffuse = f(-2.0);
    g.gi_intensity = f(1.25);
    assert_eq!(light_factors(&g), v3(0.0, 1.25, 0.0));
    assert_eq!(cull_dispatch(true, true, true, 65, 1), Some((2, 1)));
    assert_eq!(cull_dispatch(true, true, false, 65, 1), None);
    let args = DrawIndexedIndirectArgs {
        index_count: 1,
        instance_count: 2,
        first_index: 3,
        base_vertex: (-4i32) as u32,
        first_instance: 5,
    };
    assert_eq!(args.words(), vec![1, 2, 3, 0xffff_fffc, 5]);
    let v = ShVolumeUniform::of_volume(&ShVolumeCpu::dummy(), v3(1.0, 1.0, 1.0), v3(1.0, 1.0, 1.0), Some(f(2.0)));
    let w = v.words();
    assert_eq!((w.len(), w[3], w[7]), (16, 2.0f32.to_bits(), 0.75f32.to_bits()));
}

#[test]
fn a_volume_is_rearranged_by_channel() {
    let meta = VolumeMeta {
        min: v3(0.0, 0.0, 0.0),
        max: v3(1.0, 1.0, 1.0),
        nx: 2,
        ny: 1,
        nz: 1,
        spacing: None,
        coeffs: 4,
        channels: 3,
        gi_intensity: Some(f(-1.0)),
    };
    let bin: Vec<u8> = (0..48u8).collect();
    let v = load_sh_volume(&meta, &bin, v3(1.0, 1.0, 1.0)).unwrap();
    assert_eq!(v.tex_r[..8], [0, 1, 6, 7, 12, 13, 18, 19]);
    assert_eq!(v.tex_g[..8], [2, 3, 8, 9, 14, 15, 20, 21]);
    assert_eq!(v.tex_b[8..], [28, 29, 34, 35, 40, 41, 46, 47]);
    assert_eq!(v.gi_intensity, f(1.0), "a strength below zero does not count");
    let short: Vec<u8> = (0..47u8).collect();
    assert!(load_sh_volume(&meta, &short, v3(1.0, 1.0, 1.0)).is_none());
    let none = VolumeMeta { nx: 0, ..meta };
    assert!(load_sh_volume(&none, &bin, v3(1.0, 1.0, 1.0)).is_none());
    assert_eq!(checked_strength(Some(f(f32::NAN)), f(3.0)), f(3.0));
    assert_eq!(checked_strength(Some(f(0.0)), f(3.0)), f(0.0));
}

#[test]
fn realtime_lights_are_chosen_by_the_volume() {
    assert!(realtime_enabled(None, false, None));
    assert!(!realtime_enabled(None, true, None));
    assert!(realtime_enabled(None, true, Some(false)));
    assert!(realtime_enabled(Some(" RT "), true, None));
    assert!(!realtime_enabled(Some("off"), false, None));
}
