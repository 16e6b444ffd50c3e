//! The standard render path: a pack's materials and meshes as the engine's own.
use vstd::prelude::*;
use crate::f32bits::{float, F32, ONE};
use crate::gpu::materials::{V3, V4};
use crate::text::same;

verus! {

/// A picture with its green turned around. Pictures have four bytes to a pixel, of which the second is
/// green.
pub open spec fn green_flipped(px: Seq<u8>) -> Seq<u8> {
    Seq::new(
        px.len(),
        |i: int|
            if i % 4 == 1 {
                (255 - px[i]) as u8
            } else {
                px[i]
            },
    )
}

/// Turn the green of a picture around, for normal maps of the other convention.
pub fn flip_green(px: &mut Vec<u8>)
    ensures
        final(px)@ == green_flipped(old(px)@),
{
    let ghost before = px@;
    let n: usize = px.len();
    let mut i: usize = 0;
    while i < n
        invariant
            i <= n,
            n == px@.len(),
            before.len() == n,
            forall|k: int|
                0 <= k < n ==> #[trigger] px@[k] == (if k < i {
                    green_flipped(before)[k]
                } else {
                    before[k]
                }),
        decreases n - i,
    {
        if i % 4 == 1 {
            let g: u8 = px[i];
            px.set(i, 255 - g);
        }
        i = i + 1;
    }
    proof {
        assert(px@ =~= green_flipped(before));
    }
}

/// Turning the green around twice changes nothing.
pub proof fn flipping_twice_is_nothing(px: Seq<u8>)
    ensures
        green_flipped(green_flipped(px)) == px,
{
    assert(green_flipped(green_flipped(px)) =~= px);
}

/// A picture that is loaded: its path, and whether its green is turned around.
#[derive(Debug)]
pub struct TexKey {
    pub path: String,
    pub flip: bool,
}

/// What keys stand for.
pub open spec fn key_views(v: Seq<TexKey>) -> Seq<(Seq<char>, bool)> {
    Seq::new(v.len(), |i: int| (v[i].path@, v[i].flip))
}

/// Where a key stands; the length of the list where it does not.
pub open spec fn key_at(v: Seq<(Seq<char>, bool)>, k: (Seq<char>, bool)) -> int
    decreases v.len(),
{
    if v.len() == 0 {
        0
    } else if v[0] == k {
        0
    } else {
        1 + key_at(v.drop_first(), k)
    }
}

/// The pictures that have been asked for, each once.
#[derive(Debug)]
pub struct TexCache {
    pub keys: Vec<TexKey>,
}

impl TexCache {
    /// No pictures.
    pub fn new() -> (r: TexCache)
        ensures
            r.keys@.len() == 0,
    {
        TexCache { keys: Vec::new() }
    }

    /// Ask for a picture. Returns its number and whether it has to be loaded.
    pub fn want(&mut self, path: &str, flip: bool) -> (r: (usize, bool))
        ensures
            r.0 == key_at(key_views(old(self).keys@), (path@, flip)),
            r.1 == (r.0 == old(self).keys@.len()),
            key_views(final(self).keys@) == (if r.1 {
                key_views(old(self).keys@).push((path@, flip))
            } else {
                key_views(old(self).keys@)
            }),
    {
        let ghost all = key_views(self.keys@);
        let n: usize = self.keys.len();
        let mut i: usize = 0;
        proof {
            assert(all.skip(0) =~= all);
        }
        while i < n
            invariant
                i <= n,
                n == self.keys@.len(),
                *self == *old(self),
                all == key_views(self.keys@),
                key_at(all, (path@, flip)) == i + key_at(all.skip(i as int), (path@, flip)),
            decreases n - i,
        {
            proof {
                assert(all.skip(i as int)[0] == (self.keys@[i as int].path@, self.keys@[i as int].flip));
                assert(all.skip(i as int).drop_first() =~= all.skip(i + 1));
            }
            if same(self.keys[i].path.as_str(), path) && self.keys[i].flip == flip {
                return (i, false);
            }
            i = i + 1;
        }
        proof {
            assert(all.skip(n as int).len() == 0);
        }
        self.keys.push(TexKey { path: path.to_owned(), flip });
        proof {
            assert(key_views(self.keys@) =~= all.push((path@, flip)));
        }
        (n, true)
    }
}

/// How the alpha of a material is used.
#[derive(Clone, Copy, Debug, PartialEq, Eq, Structural)]
pub enum AlphaMode {
    Opaque,
    /// What is below the threshold is cut away.
    Mask(F32),
    Blend,
}

/// The bits of 0.5.
pub const HALF: u32 = 0x3f00_0000;

/// The use of alpha by what a material is for.
pub open spec fn alpha_of(role: Seq<char>, cutoff: F32) -> AlphaMode {
    if role == "cutout"@ {
        AlphaMode::Mask(
            if float(0).lt(cutoff) {
                cutoff
            } else {
                float(HALF)
            },
        )
    } else if role == "glass"@ || role == "decal"@ || role == "water"@ {
        AlphaMode::Blend
    } else {
        AlphaMode::Opaque
    }
}

/// The use of alpha by what a material is for, whatever its own setting says.
pub fn alpha_mode(role: &str, cutoff: F32) -> (r: AlphaMode)
    ensures
        r == alpha_of(role@, cutoff),
{
    if same(role, "cutout") {
        AlphaMode::Mask(
            if (F32 { bits: 0 }).less(cutoff) {
                cutoff
            } else {
                F32 { bits: HALF }
            },
        )
    } else if same(role, "glass") || same(role, "decal") || same(role, "water") {
        AlphaMode::Blend
    } else {
        AlphaMode::Opaque
    }
}

/// How a material glows: by which factor, and the picture that shades it.
#[derive(Debug)]
pub struct StdGlow {
    pub factor: V3,
    pub texture: Option<String>,
}

/// A material of a pack.
#[derive(Debug)]
pub struct PackMaterial {
    pub id: u32,
    pub role: String,
    pub tint: V4,
    pub alpha_cutoff: F32,
    pub roughness: Option<F32>,
    pub metallic: Option<F32>,
    pub double_sided: bool,
    pub albedo: Option<String>,
    pub normal: Option<String>,
    /// Whether the green of its normal map points down.
    pub normal_green_flip: bool,
    pub emissive: Option<StdGlow>,
}

/// The colour that a material starts from.
#[derive(Clone, Copy, Debug, PartialEq, Eq, Structural)]
pub enum BaseColor {
    /// Dark water, in display values with a linear alpha: the texture of water is noise, not colour.
    Water(V4),
    /// A linear tint, with the texture where there is one.
    Tint(V4),
}

/// A material as the engine has it.
#[derive(Clone, Copy, Debug, PartialEq, Eq, Structural)]
pub struct StandardMaterial {
    pub base: BaseColor,
    /// Whether the material's picture is used.
    pub base_texture: bool,
    pub emissive: V3,
    pub roughness: F32,
    pub metallic: F32,
    pub alpha: AlphaMode,
    pub double_sided: bool,
    /// Whether faces are hidden from behind.
    pub cull_back: bool,
    /// How far it is pulled towards the camera: decals lie on other faces.
    pub depth_bias: F32,
}

/// The bits of 0.015, 0.035 and 0.045: the display values of water.
pub const WATER_RED: u32 = 0x3c75_c28f;

pub const WATER_GREEN: u32 = 0x3d0f_5c29;

pub const WATER_BLUE: u32 = 0x3d38_51ec;

/// The bits of 0.4 and 0.9: the bounds of the alpha of water.
pub const WATER_ALPHA_MIN: u32 = 0x3ecc_cccd;

pub const WATER_ALPHA_MAX: u32 = 0x3f66_6666;

/// The bits of 0.08: the roughness of water.
pub const WATER_ROUGHNESS: u32 = 0x3da3_d70a;

/// The bits of 0.7 and 0.05: the usual and the least roughness.
pub const USUAL_ROUGHNESS: u32 = 0x3f33_3333;

pub const LEAST_ROUGHNESS: u32 = 0x3d4c_cccd;

/// The bits of 4.0.
pub const DECAL_BIAS: u32 = 0x4080_0000;

/// The engine's material for one of a pack.
pub open spec fn standard_of(m: PackMaterial) -> StandardMaterial {
    let water = m.role@ == "water"@;
    StandardMaterial {
        base: if water {
            BaseColor::Water(
                V4 {
                    x: float(WATER_RED),
                    y: float(WATER_GREEN),
                    z: float(WATER_BLUE),
                    w: m.tint.w.kept_between(float(WATER_ALPHA_MIN), float(WATER_ALPHA_MAX)),
                },
            )
        } else {
            BaseColor::Tint(m.tint)
        },
        base_texture: !water,
        emissive: match m.emissive {
            Some(g) => g.factor,
            None => V3 { x: float(0), y: float(0), z: float(0) },
        },
        roughness: if water {
            float(WATER_ROUGHNESS)
        } else {
            crate::settings::number_or(m.roughness, USUAL_ROUGHNESS).kept_between(
                float(LEAST_ROUGHNESS),
                float(ONE),
            )
        },
        metallic: crate::settings::number_or(m.metallic, 0),
        alpha: alpha_of(m.role@, m.alpha_cutoff),
        double_sided: m.double_sided,
        cull_back: !m.double_sided,
        depth_bias: if m.role@ == "decal"@ {
            float(DECAL_BIAS)
        } else {
            float(0)
        },
    }
}

/// The engine's material for one of a pack.
pub fn build_material(m: &PackMaterial) -> (r: StandardMaterial)
    ensures
        r == standard_of(*m),
{
    let role = m.role.as_str();
    let water = same(role, "water");
    let rough = match m.roughness {
        Some(f) => f,
        None => F32 { bits: USUAL_ROUGHNESS },
    };
    StandardMaterial {
        base: if water {
            BaseColor::Water(
                V4 {
                    x: F32 { bits: WATER_RED },
                    y: F32 { bits: WATER_GREEN },
                    z: F32 { bits: WATER_BLUE },
                    w: m.tint.w.clamp(F32 { bits: WATER_ALPHA_MIN }, F32 { bits: WATER_ALPHA_MAX }),
                },
            )
        } else {
            BaseColor::Tint(m.tint)
        },
        base_texture: !water,
        emissive: match &m.emissive {
            Some(g) => g.factor,
            None => V3 { x: F32 { bits: 0 }, y: F32 { bits: 0 }, z: F32 { bits: 0 } },
        },
        roughness: if water {
            F32 { bits: WATER_ROUGHNESS }
        } else {
            rough.clamp(F32 { bits: LEAST_ROUGHNESS }, F32 { bits: ONE })
        },
        metallic: match m.metallic {
            Some(f) => f,
            None => F32 { bits: 0 },
        },
        alpha: alpha_mode(role, m.alpha_cutoff),
        double_sided: m.double_sided,
        cull_back: !m.double_sided,
        depth_bias: if same(role, "decal") {
            F32 { bits: DECAL_BIAS }
        } else {
            F32 { bits: 0 }
        },
    }
}

/// A picture that a material asks for.
#[derive(Debug)]
pub struct Picture {
    pub path: String,
    /// Whether it holds display values; else its values are linear.
    pub srgb: bool,
    /// Whether its green is turned around.
    pub flip: bool,
}

/// What a picture stands for.
#[verifier::ext_equal]
pub struct PictureView {
    pub path: Seq<char>,
    pub srgb: bool,
    pub flip: bool,
}

/// What an optional picture stands for.
pub open spec fn picture_view(p: Option<Picture>) -> Option<PictureView> {
    match p {
        Some(p) => Some(PictureView { path: p.path@, srgb: p.srgb, flip: p.flip }),
        None => None,
    }
}

/// The picture at an optional path.
pub open spec fn picture_at(path: Option<String>, srgb: bool, flip: bool) -> Option<PictureView> {
    match path {
        Some(p) => Some(PictureView { path: p@, srgb, flip }),
        None => None,
    }
}

/// The pictures of a material, in the order in which they are loaded.
#[derive(Debug)]
pub struct Pictures {
    /// Its colour. That of water is loaded too, though the material does not use it.
    pub base: Option<Picture>,
    pub normal: Option<Picture>,
    pub glow: Option<Picture>,
}

/// The path of the picture that shades a material's glow.
pub open spec fn glow_path(m: PackMaterial) -> Option<String> {
    match m.emissive {
        Some(g) => g.texture,
        None => None,
    }
}

fn picture(path: &Option<String>, srgb: bool, flip: bool) -> (r: Option<Picture>)
    ensures
        picture_view(r) == picture_at(*path, srgb, flip),
{
    match path {
        Some(p) => Some(Picture { path: p.as_str().to_owned(), srgb, flip }),
        None => None,
    }
}

/// The pictures that a material asks for: colour and glow hold display values and are taken as they
/// are; the normal map is linear, and its green is turned around where the material says so.
pub fn wanted_pictures(m: &PackMaterial) -> (r: Pictures)
    ensures
        picture_view(r.base) == picture_at(m.albedo, true, false),
        picture_view(r.normal) == picture_at(m.normal, false, m.normal_green_flip),
        picture_view(r.glow) == picture_at(glow_path(*m), true, false),
{
    let glow = match &m.emissive {
        Some(g) => picture(&g.texture, true, false),
        None => None,
    };
    Pictures {
        base: picture(&m.albedo, true, false),
        normal: picture(&m.normal, false, m.normal_green_flip),
        glow,
    }
}

/// A part of a mesh with one material: a run of its indices.
#[derive(Clone, Copy, Debug, PartialEq, Eq, Structural)]
pub struct SubMesh {
    pub idx_start: u32,
    pub idx_count: u32,
    pub material_id: u32,
}

/// A mesh of the pack.
#[derive(Debug)]
pub struct StdMesh {
    pub id: u32,
    /// The number of its indices; none where it cannot be decoded.
    pub indices: Option<usize>,
    pub submeshes: Vec<SubMesh>,
}

/// A mesh of the engine's: a run of the indices of a pack's mesh.
#[derive(Clone, Copy, Debug, PartialEq, Eq, Structural)]
pub struct Part {
    /// Which of the pack's meshes.
    pub mesh: usize,
    pub start: u64,
    pub end: u64,
    pub material_id: u32,
}

/// The parts of the first `n` submeshes of mesh `k`: those whose indices are all there.
pub open spec fn parts_of(m: StdMesh, k: usize, n: nat) -> Seq<Part>
    decreases n,
{
    if n == 0 {
        seq![]
    } else {
        let rest = parts_of(m, k, (n - 1) as nat);
        let s = m.submeshes@[n - 1];
        if m.indices is Some && s.idx_start + s.idx_count <= m.indices->0 {
            rest.push(
                Part {
                    mesh: k,
                    start: s.idx_start as u64,
                    end: (s.idx_start + s.idx_count) as u64,
                    material_id: s.material_id,
                },
            )
        } else {
            rest
        }
    }
}

/// The parts that the first `n` meshes give to the id `d`.
pub open spec fn parts_for(ms: Seq<StdMesh>, d: int, n: nat) -> Seq<Part>
    decreases n,
{
    if n == 0 {
        seq![]
    } else {
        let rest = parts_for(ms, d, (n - 1) as nat);
        let m = ms[n - 1];
        if m.id == d {
            rest + parts_of(m, (n - 1) as usize, m.submeshes@.len())
        } else {
            rest
        }
    }
}

fn mesh_parts(m: &StdMesh, k: usize, out: &mut Vec<Part>)
    ensures
        final(out)@ == old(out)@ + parts_of(*m, k, m.submeshes@.len()),
{
    let ghost before = out@;
    let n: usize = m.submeshes.len();
    let mut i: usize = 0;
    proof {
        assert(before + parts_of(*m, k, 0) =~= before);
    }
    while i < n
        invariant
            i <= n,
            n == m.submeshes@.len(),
            out@ == before + parts_of(*m, k, i as nat),
        decreases n - i,
    {
        let s = m.submeshes[i];
        let end: u64 = s.idx_start as u64 + s.idx_count as u64;
        if let Some(len) = m.indices {
            if end as u128 <= len as u128 {
                let p = Part {
                    mesh: k,
                    start: s.idx_start as u64,
                    end,
                    material_id: s.material_id,
                };
                out.push(p);
                proof {
                    assert(out@ =~= before + parts_of(*m, k, (i + 1) as nat));
                }
            }
        }
        i = i + 1;
    }
}

/// The parts of a pack's meshes, by the meshes' ids. A mesh that gives a part has an id below the
/// number of meshes; that of any other does not matter.
pub fn submesh_parts(ms: &Vec<StdMesh>) -> (r: Vec<Vec<Part>>)
    requires
        forall|i: int|
            0 <= i < ms@.len() && parts_of(ms@[i], i as usize, ms@[i].submeshes@.len()).len() > 0 ==> (
            #[trigger] ms@[i]).id < ms@.len(),
    ensures
        r@.len() == ms@.len(),
        forall|d: int| 0 <= d < r@.len() ==> (#[trigger] r@[d])@ == parts_for(ms@, d, ms@.len()),
{
    let n: usize = ms.len();
    let mut r: Vec<Vec<Part>> = Vec::new();
    let mut d: usize = 0;
    while d < n
        invariant
            d <= n,
            n == ms@.len(),
            r@.len() == d,
            forall|e: int| 0 <= e < d ==> (#[trigger] r@[e])@ == parts_for(ms@, e, ms@.len()),
        decreases n - d,
    {
        let mut list: Vec<Part> = Vec::new();
        let mut k: usize = 0;
        while k < n
            invariant
                k <= n,
                n == ms@.len(),
                list@ == parts_for(ms@, d as int, k as nat),
            decreases n - k,
        {
            if ms[k].id as u64 == d as u64 {
                mesh_parts(&ms[k], k, &mut list);
            }
            k = k + 1;
        }
        r.push(list);
        d = d + 1;
    }
    r
}

/// Which of a pack's materials a part with the given material id gets: the last of that id. A part
/// whose id no material has gets the engine's plain material.
pub fn material_for(mats: &Vec<PackMaterial>, id: u32) -> (r: Option<usize>)
    ensures
        match r {
            Some(k) => {
                &&& k < mats@.len()
                &&& mats@[k as int].id == id
                &&& forall|j: int| k < j < mats@.len() ==> (#[trigger] mats@[j]).id != id
            },
            None => forall|j: int| 0 <= j < mats@.len() ==> (#[trigger] mats@[j]).id != id,
        },
{
    let mut i: usize = mats.len();
    while i > 0
        invariant
            i <= mats@.len(),
            forall|j: int| i <= j < mats@.len() ==> (#[trigger] mats@[j]).id != id,
        decreases i,
    {
        i = i - 1;
        if mats[i].id == id {
            return Some(i);
        }
    }
    None
}

/// What is put into the scene: part `part` of the mesh of instance `instance`.
#[derive(Clone, Copy, Debug, PartialEq, Eq, Structural)]
pub struct Placed {
    pub instance: usize,
    pub part: usize,
}

/// The parts `0..k` for an instance.
pub open spec fn placed_parts(i: usize, k: nat) -> Seq<Placed> {
    Seq::new(k, |p: int| Placed { instance: i, part: p as usize })
}

/// What the first `n` instances put into the scene; one whose mesh does not exist puts nothing there.
pub open spec fn placed_instances(mesh_ids: Seq<u32>, parts: Seq<Vec<Part>>, n: nat) -> Seq<Placed>
    decreases n,
{
    if n == 0 {
        seq![]
    } else {
        let rest = placed_instances(mesh_ids, parts, (n - 1) as nat);
        let id = mesh_ids[n - 1];
        if id < parts.len() {
            rest + placed_parts((n - 1) as usize, parts[id as int]@.len())
        } else {
            rest
        }
    }
}

/// What is put into the scene: each part of each instance's mesh.
pub fn place_instances(mesh_ids: &Vec<u32>, parts: &Vec<Vec<Part>>) -> (r: Vec<Placed>)
    ensures
        r@ == placed_instances(mesh_ids@, parts@, mesh_ids@.len()),
{
    let mut r: Vec<Placed> = Vec::new();
    let n: usize = mesh_ids.len();
    let mut i: usize = 0;
    while i < n
        invariant
            i <= n,
            n == mesh_ids@.len(),
            r@ == placed_instances(mesh_ids@, parts@, i as nat),
        decreases n - i,
    {
        let id: u32 = mesh_ids[i];
        if (id as u64) < parts.len() as u64 {
            let k: usize = parts[id as usize].len();
            let ghost before = r@;
            let mut p: usize = 0;
            proof {
                assert(before + placed_parts(i, k as nat).take(0) =~= before);
            }
            while p < k
                invariant
                    p <= k,
                    r@ == before + placed_parts(i, k as nat).take(p as int),
                decreases k - p,
            {
                r.push(Placed { instance: i, part: p });
                proof {
                    assert(r@ =~= before + placed_parts(i, k as nat).take(p + 1));
                }
                p = p + 1;
            }
            proof {
                assert(placed_parts(i, k as nat).take(k as int) =~= placed_parts(i, k as nat));
            }
        }
        i = i + 1;
    }
    r
}

} // verus!
