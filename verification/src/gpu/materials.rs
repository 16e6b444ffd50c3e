//! The material table: one record for each material of a pack, in the pack's order, and the texture
//! paths that the records point into.
use crate::f32bits::{float, F32, ONE};
use crate::gpu::paths::{index_or, path_of, position, with_path, PathTable};
use crate::json::{number_at, number_or, target, Json};
use crate::settings::{pair_or, read_pair};
use crate::text::same;
use vstd::prelude::*;

verus! {

/// No albedo texture.
pub const NO_ALBEDO: u32 = 0xffff_ffff;

/// No normal map.
pub const NO_NORMAL: u32 = 0xffff_ffff;

/// No emissive texture.
pub const NO_EMISSIVE: u32 = 0xffff_ffff;

/// Normal maps with the green channel pointing down.
pub const MAT_NORMAL_FLAG_GREEN_FLIP: u32 = 1;

pub const MAT_FLAG_CUTOUT: u32 = 1;

pub const MAT_FLAG_BLEND: u32 = 2;

pub const MAT_FLAG_SOFTCUTOUT: u32 = 4;

pub const MAT_FLAG_WATER: u32 = 8;

pub const MAT_FLAG_TERRAIN: u32 = 16;

pub const MAT_FLAG_DETAIL: u32 = 32;

pub const MAT_FLAG_RFA: u32 = 64;

pub const MAT_FLAG_VP: u32 = 128;

pub const MAT_FLAG_PUDDLE_LUMA: u32 = 256;

pub const MAT_FLAG_WATER_MATTE: u32 = 512;

pub const MAT_FLAG_DECAL: u32 = 1024;

/// The material has a detail albedo.
pub const DETAIL_FLAG_ALBEDO: u32 = 1;

/// The material has a detail normal map.
pub const DETAIL_FLAG_NORMAL: u32 = 2;

/// Three floats.
#[derive(Clone, Copy, Debug, PartialEq, Eq, Structural)]
pub struct V3 {
    pub x: F32,
    pub y: F32,
    pub z: F32,
}

/// Four floats.
#[derive(Clone, Copy, Debug, PartialEq, Eq, Structural)]
pub struct V4 {
    pub x: F32,
    pub y: F32,
    pub z: F32,
    pub w: F32,
}

/// Four zeros.
pub open spec fn zero4() -> V4 {
    V4 { x: float(0), y: float(0), z: float(0), w: float(0) }
}

fn zeros() -> (r: V4)
    ensures
        r == zero4(),
{
    let z = F32 { bits: 0 };
    V4 { x: z, y: z, z, w: z }
}

/// How the shader treats a material: the flags of its record.
#[derive(Clone, Copy, Debug, PartialEq, Eq, Structural)]
pub struct MatClass {
    /// Texels below the cutoff are discarded.
    pub cutout: bool,
    /// Drawn in the blended passes; the opaque pass discards it.
    pub blend: bool,
    /// A decal that feathers into the ground by its vertex paint.
    pub softcutout: bool,
    /// A water surface.
    pub water: bool,
    /// A terrain tile, splatted from its control maps.
    pub terrain: bool,
    /// Has detail maps.
    pub detail: bool,
    /// Roughness comes from the alpha of the albedo.
    pub rfa: bool,
    /// Blends three vertex-painted layers.
    pub vp: bool,
    /// A puddle whose shape is in its colour.
    pub puddle_luma: bool,
    /// A stretched wet-ground decal without mirror.
    pub water_matte: bool,
    /// A plain surface decal.
    pub decal: bool,
}

/// A flag where it is set, else nothing.
#[verifier::opaque]
pub open spec fn flag(set: bool, value: u32) -> int {
    if set {
        value as int
    } else {
        0
    }
}

fn flag_if(set: bool, value: u32) -> (r: u32)
    ensures
        r == flag(set, value),
        r <= value,
{
    reveal(flag);
    if set {
        value
    } else {
        0
    }
}

impl MatClass {
    /// The flag word of the class.
    pub open spec fn word(self) -> int {
        flag(self.cutout, MAT_FLAG_CUTOUT) + flag(self.blend, MAT_FLAG_BLEND) + flag(self.softcutout, MAT_FLAG_SOFTCUTOUT) + flag(self.water, MAT_FLAG_WATER) + flag(self.terrain, MAT_FLAG_TERRAIN) + flag(self.detail, MAT_FLAG_DETAIL) + flag(self.rfa, MAT_FLAG_RFA) + flag(self.vp, MAT_FLAG_VP) + flag(self.puddle_luma, MAT_FLAG_PUDDLE_LUMA) + flag(self.water_matte, MAT_FLAG_WATER_MATTE) + flag(self.decal, MAT_FLAG_DECAL)
    }

    /// The flag word of the class.
    pub fn flags(&self) -> (r: u32)
        ensures
            r == self.word(),
    {
        flag_if(self.cutout, MAT_FLAG_CUTOUT) + flag_if(self.blend, MAT_FLAG_BLEND) + flag_if(self.softcutout, MAT_FLAG_SOFTCUTOUT) + flag_if(self.water, MAT_FLAG_WATER) + flag_if(self.terrain, MAT_FLAG_TERRAIN) + flag_if(self.detail, MAT_FLAG_DETAIL) + flag_if(self.rfa, MAT_FLAG_RFA) + flag_if(self.vp, MAT_FLAG_VP) + flag_if(self.puddle_luma, MAT_FLAG_PUDDLE_LUMA) + flag_if(self.water_matte, MAT_FLAG_WATER_MATTE) + flag_if(self.decal, MAT_FLAG_DECAL)
    }
}

/// The flag word tells the class: each flag is set in it exactly when the class has it.
pub proof fn flag_word_is_faithful(c: MatClass)
    ensures
        0 <= c.word() <= 2047,
        ((c.word() as u32) & MAT_FLAG_CUTOUT != 0) == c.cutout,
        ((c.word() as u32) & MAT_FLAG_BLEND != 0) == c.blend,
        ((c.word() as u32) & MAT_FLAG_SOFTCUTOUT != 0) == c.softcutout,
        ((c.word() as u32) & MAT_FLAG_WATER != 0) == c.water,
        ((c.word() as u32) & MAT_FLAG_TERRAIN != 0) == c.terrain,
        ((c.word() as u32) & MAT_FLAG_DETAIL != 0) == c.detail,
        ((c.word() as u32) & MAT_FLAG_RFA != 0) == c.rfa,
        ((c.word() as u32) & MAT_FLAG_VP != 0) == c.vp,
        ((c.word() as u32) & MAT_FLAG_PUDDLE_LUMA != 0) == c.puddle_luma,
        ((c.word() as u32) & MAT_FLAG_WATER_MATTE != 0) == c.water_matte,
        ((c.word() as u32) & MAT_FLAG_DECAL != 0) == c.decal,
{
    reveal(flag);
    let w = c.word() as u32;
    let (b0, b1, b2, b3) = (
        flag(c.cutout, 1) as u32,
        flag(c.blend, 1) as u32,
        flag(c.softcutout, 1) as u32,
        flag(c.water, 1) as u32,
    );
    let (b4, b5, b6, b7) = (
        flag(c.terrain, 1) as u32,
        flag(c.detail, 1) as u32,
        flag(c.rfa, 1) as u32,
        flag(c.vp, 1) as u32,
    );
    let (b8, b9, b10) = (
        flag(c.puddle_luma, 1) as u32,
        flag(c.water_matte, 1) as u32,
        flag(c.decal, 1) as u32,
    );
    assert((w & 1 != 0) == (b0 == 1) && (w & 2 != 0) == (b1 == 1) && (w & 4 != 0) == (b2 == 1) && (w
        & 8 != 0) == (b3 == 1) && (w & 16 != 0) == (b4 == 1) && (w & 32 != 0) == (b5 == 1) && (w
        & 64 != 0) == (b6 == 1) && (w & 128 != 0) == (b7 == 1) && (w & 256 != 0) == (b8 == 1) && (w
        & 512 != 0) == (b9 == 1) && (w & 1024 != 0) == (b10 == 1)) by (bit_vector)
        requires
            b0 <= 1 && b1 <= 1 && b2 <= 1 && b3 <= 1 && b4 <= 1 && b5 <= 1 && b6 <= 1 && b7 <= 1
                && b8 <= 1 && b9 <= 1 && b10 <= 1,
            w == b0 + 2 * b1 + 4 * b2 + 8 * b3 + 16 * b4 + 32 * b5 + 64 * b6 + 128 * b7 + 256 * b8
                + 512 * b9 + 1024 * b10,
    ;
}

/// The emissive part of a material: a texture and its colour, factor times strength.
pub struct EmissiveIn {
    pub texture: Option<String>,
    pub rgb: V3,
}

/// The detail maps of a material.
pub struct DetailIn {
    pub albedo: Option<String>,
    pub normal: Option<String>,
    pub albedo_uv: V4,
    pub normal_uv: V4,
    pub albedo_strength: F32,
    pub normal_scale: F32,
    pub albedo_mean_gain: V3,
}

/// A material of a pack.
pub struct MaterialIn {
    pub id: u32,
    pub role: String,
    pub alpha_mode: String,
    pub albedo: Option<String>,
    pub normal: Option<String>,
    pub normal_green_flip: bool,
    pub normal_scale: F32,
    pub roughness_from_albedo_alpha: bool,
    pub roughness: Option<F32>,
    pub alpha_cutoff: F32,
    pub uv_xform: V4,
    pub tint: V4,
    /// The vertex-paint block.
    pub vp: Option<Json>,
    pub emissive: Option<EmissiveIn>,
    pub detail: Option<DetailIn>,
    /// Whether the alpha channel of the albedo is close to constant.
    pub alpha_is_constant: bool,
}

/// A material's record on the GPU.
#[derive(Clone, Copy, Debug, PartialEq, Eq, Structural)]
pub struct GpuMaterial {
    pub albedo_index: u32,
    pub flags: MatClass,
    pub alpha_cutoff: F32,
    pub roughness: F32,
    pub uv_xform: V4,
    pub tint: V4,
    /// Strength, cutoff and height of a feathering decal.
    pub vp: V4,
    pub normal_index: u32,
    pub normal_flags: u32,
    pub normal_scale: F32,
    /// The index of the vertex-paint entry, or of the terrain slice.
    pub slot: u32,
    pub detail_albedo_index: u32,
    pub detail_normal_index: u32,
    pub detail_flags: u32,
    pub detail_albedo_uv: V4,
    pub detail_normal_uv: V4,
    pub detail_params: V4,
    pub detail_mean_gain: V4,
    pub emissive_index: u32,
    pub emissive_rgb: V3,
}

/// A vertex-paint entry: three layers and the mask that weighs them.
#[derive(Clone, Copy, Debug, PartialEq, Eq, Structural)]
pub struct VpGpu {
    pub layer0: u32,
    pub layer1: u32,
    pub layer2: u32,
    pub heights: u32,
    pub uv0: V4,
    pub uv1: V4,
    pub uv2: V4,
    pub tint0: V4,
    pub tint1: V4,
    pub tint2: V4,
}

/// The parameters of a feathering decal: the first three numbers of `softCutout`.
pub open spec fn softcutout(vp: Option<Json>) -> Option<V4> {
    match vp {
        Some(j) => match j.field("softCutout"@) {
            Some(Json::Arr(a)) => if a@.len() >= 3 && a@[0] is Num && a@[1] is Num && a@[2] is Num {
                Some(V4 { x: a@[0]->Num_0.value, y: a@[1]->Num_0.value, z: a@[2]->Num_0.value, w: float(0) })
            } else {
                None
            },
            _ => None,
        },
        None => None,
    }
}

/// The parameters of a feathering decal.
pub fn softcutout_params(vp: &Option<Json>) -> (r: Option<V4>)
    ensures
        r == softcutout(*vp),
{
    match vp {
        Some(j) => match j.get("softCutout") {
            Some(s) => match s {
                Json::Arr(a) => {
                    if a.len() < 3 {
                        return None;
                    }
                    match (&a[0], &a[1], &a[2]) {
                        (Json::Num(x), Json::Num(y), Json::Num(z)) => Some(
                            V4 { x: x.value, y: y.value, z: z.value, w: F32 { bits: 0 } },
                        ),
                        _ => None,
                    }
                },
                _ => None,
            },
            None => None,
        },
        None => None,
    }
}

/// The text of a member where it is a string and not empty.
pub open spec fn text_field(j: Json, key: Seq<char>) -> Option<Seq<char>> {
    match j.field(key) {
        Some(Json::Str(s)) => if s@.len() > 0 {
            Some(s@)
        } else {
            None
        },
        _ => None,
    }
}

fn text_of<'a>(j: &'a Json, key: &str) -> (r: Option<&'a str>)
    ensures
        match r {
            Some(s) => text_field(*j, key@) == Some(s@),
            None => text_field(*j, key@) is None,
        },
{
    match j.get(key) {
        Some(v) => match v {
            Json::Str(s) => if !s.as_str().is_empty() {
                Some(s.as_str())
            } else {
                None
            },
            _ => None,
        },
        None => None,
    }
}

/// The three layers of a vertex-paint block; a block with another number of layers has none.
pub open spec fn paint_layers(vp: Option<Json>) -> Option<Seq<Json>> {
    match vp {
        Some(j) => match j.field("layers"@) {
            Some(Json::Arr(a)) => if a@.len() == 3 {
                Some(a@)
            } else {
                None
            },
            _ => None,
        },
        None => None,
    }
}

/// The albedo of layer `i`.
pub open spec fn layer_path(l: Seq<Json>, i: int) -> Option<Seq<char>> {
    text_field(l[i], "albedo"@)
}

/// Whether every layer has an albedo.
pub open spec fn layers_complete(l: Seq<Json>) -> bool {
    layer_path(l, 0) is Some && layer_path(l, 1) is Some && layer_path(l, 2) is Some
}

/// Four numbers of an optional array, those that are missing taken from `d`.
pub open spec fn vec4_or(j: Option<Json>, d: V4) -> V4 {
    V4 {
        x: number_or(j, 0, d.x),
        y: number_or(j, 1, d.y),
        z: number_or(j, 2, d.z),
        w: number_or(j, 3, d.w),
    }
}

/// A tint: three numbers, 1.0 where one is missing, and `w` behind them.
pub open spec fn tint_or_white(j: Option<Json>, w: F32) -> V4 {
    V4 {
        x: number_or(j, 0, float(ONE)),
        y: number_or(j, 1, float(ONE)),
        z: number_or(j, 2, float(ONE)),
        w,
    }
}

/// The identity texture transform.
pub open spec fn unit_uv() -> V4 {
    V4 { x: float(ONE), y: float(ONE), z: float(0), w: float(0) }
}

fn vec4_at(j: Option<&Json>, d: V4) -> (r: V4)
    ensures
        r == vec4_or(target(j), d),
{
    V4 {
        x: number_at(j, 0, d.x),
        y: number_at(j, 1, d.y),
        z: number_at(j, 2, d.z),
        w: number_at(j, 3, d.w),
    }
}

fn tint_at(j: Option<&Json>, w: F32) -> (r: V4)
    ensures
        r == tint_or_white(target(j), w),
{
    let one = F32 { bits: ONE };
    V4 { x: number_at(j, 0, one), y: number_at(j, 1, one), z: number_at(j, 2, one), w }
}

/// What the table holds besides the records.
#[verifier::ext_equal]
pub struct TableModel {
    pub albedo: Seq<Seq<char>>,
    pub normal: Seq<Seq<char>>,
    /// The indices of textures that hold weights, not colour.
    pub linear: Seq<u32>,
    pub vp: Seq<VpGpu>,
}

/// The texture paths and vertex-paint entries that records point into.
pub struct Table {
    pub albedo: PathTable,
    pub normal: PathTable,
    pub linear: Vec<u32>,
    pub vp: Vec<VpGpu>,
}

impl View for Table {
    type V = TableModel;

    open spec fn view(&self) -> TableModel {
        TableModel {
            albedo: self.albedo@,
            normal: self.normal@,
            linear: self.linear@,
            vp: self.vp@,
        }
    }
}

/// The list with `x` in it, appended where it is not there yet.
pub open spec fn with_index(s: Seq<u32>, x: u32) -> Seq<u32> {
    if s.contains(x) {
        s
    } else {
        s.push(x)
    }
}

/// Add an index to a list without repetition.
pub fn add_index(v: &mut Vec<u32>, x: u32)
    ensures
        final(v)@ == with_index(old(v)@, x),
{
    let mut i: usize = 0;
    while i < v.len()
        invariant
            i <= v@.len(),
            v@ == old(v)@,
            forall|k: int| 0 <= k < i ==> v@[k] != x,
        decreases v@.len() - i,
    {
        if v[i] == x {
            return;
        }
        i = i + 1;
    }
    v.push(x);
}

/// Whether the material blends its three painted layers.
pub open spec fn paints_layers(m: MaterialIn) -> bool {
    paint_layers(m.vp) matches Some(l) && layers_complete(l)
}

/// The albedo paths once the material's own albedo is in.
pub open spec fn after_albedo(st: TableModel, m: MaterialIn) -> Seq<Seq<char>> {
    with_path(st.albedo, path_of(m.albedo))
}

/// The albedo paths once the first `k` painted layers are in as well.
pub open spec fn after_layers(st: TableModel, m: MaterialIn, k: nat) -> Seq<Seq<char>>
    decreases k,
{
    if k == 0 {
        after_albedo(st, m)
    } else {
        match paint_layers(m.vp) {
            Some(l) => with_path(after_layers(st, m, (k - 1) as nat), layer_path(l, k - 1)),
            None => after_albedo(st, m),
        }
    }
}

/// The mask that weighs the painted layers; it counts only where all three layers are there.
pub open spec fn heights_path(m: MaterialIn) -> Option<Seq<char>> {
    if paints_layers(m) {
        text_field(m.vp->0, "heights"@)
    } else {
        None
    }
}

/// The albedo paths once the mask is in as well.
pub open spec fn after_heights(st: TableModel, m: MaterialIn) -> Seq<Seq<char>> {
    with_path(after_layers(st, m, 3), heights_path(m))
}

/// The emissive texture.
pub open spec fn emissive_path(m: MaterialIn) -> Option<Seq<char>> {
    match m.emissive {
        Some(e) => path_of(e.texture),
        None => None,
    }
}

/// The albedo paths once the emissive texture is in as well.
pub open spec fn after_emissive(st: TableModel, m: MaterialIn) -> Seq<Seq<char>> {
    with_path(after_heights(st, m), emissive_path(m))
}

/// The detail albedo.
pub open spec fn detail_albedo_path(m: MaterialIn) -> Option<Seq<char>> {
    match m.detail {
        Some(d) => path_of(d.albedo),
        None => None,
    }
}

/// The detail normal map.
pub open spec fn detail_normal_path(m: MaterialIn) -> Option<Seq<char>> {
    match m.detail {
        Some(d) => path_of(d.normal),
        None => None,
    }
}

/// Whether the material has a detail map.
pub open spec fn has_detail(m: MaterialIn) -> bool {
    detail_albedo_path(m) is Some || detail_normal_path(m) is Some
}

/// The vertex-paint entry of a material with painted layers.
pub open spec fn paint_entry(st: TableModel, m: MaterialIn) -> VpGpu {
    let vp = m.vp->0;
    let l = paint_layers(m.vp)->0;
    let blend = match vp.field("blend"@) {
        Some(Json::Num(x)) => x.value,
        _ => float(ONE),
    };
    VpGpu {
        layer0: index_or(after_layers(st, m, 0), layer_path(l, 0), NO_ALBEDO),
        layer1: index_or(after_layers(st, m, 1), layer_path(l, 1), NO_ALBEDO),
        layer2: index_or(after_layers(st, m, 2), layer_path(l, 2), NO_ALBEDO),
        heights: index_or(after_layers(st, m, 3), heights_path(m), NO_ALBEDO),
        uv0: vec4_or(l[0].field("uv"@), unit_uv()),
        uv1: vec4_or(l[1].field("uv"@), unit_uv()),
        uv2: vec4_or(l[2].field("uv"@), unit_uv()),
        tint0: tint_or_white(l[0].field("tint"@), blend.larger(float(ONE))),
        tint1: tint_or_white(l[1].field("tint"@), float(0)),
        tint2: tint_or_white(l[2].field("tint"@), float(0)),
    }
}

/// The class of a material. `stretched` says whether its water texture is stretched over the ground.
///
/// A material is alpha-tested when it is a cutout, unless its coverage comes from vertex paint; it is
/// blended when it is a decal, glass, a film of textured water or anything else marked as blended,
/// but deep water without a texture stays opaque.
pub open spec fn class_of(m: MaterialIn, stretched: bool) -> MatClass {
    let decal = m.role@ == "decal"@;
    let water = m.role@ == "water"@;
    let puddle = water && path_of(m.albedo) is Some;
    let soft = softcutout(m.vp) is Some && decal;
    MatClass {
        cutout: (m.role@ == "cutout"@ || m.alpha_mode@ == "MASK"@) && !soft && !(paints_layers(m)
            && !decal),
        blend: decal || m.role@ == "glass"@ || (m.alpha_mode@ == "BLEND"@ && !water) || puddle,
        softcutout: soft,
        water,
        terrain: false,
        detail: has_detail(m),
        rfa: m.roughness_from_albedo_alpha && m.role@ == "opaque"@,
        vp: paints_layers(m),
        puddle_luma: puddle && m.alpha_is_constant,
        water_matte: puddle && stretched,
        decal,
    }
}

/// What holds for a whole pack: whether its normal maps point down, and over which distances detail
/// maps fade out.
#[derive(Clone, Copy, Debug, PartialEq, Eq, Structural)]
pub struct PackRules {
    pub green_flip: bool,
    pub fade_near: F32,
    pub fade_far: F32,
}

/// The bits of 40.0 and 120.0: the distances over which detail maps fade out.
pub const DETAIL_FADE_NEAR: u32 = 0x4220_0000;

pub const DETAIL_FADE_FAR: u32 = 0x42f0_0000;

impl PackRules {
    /// The rules of a pack, with the distances that the environment asks for.
    pub fn new(green_flip: bool, fade: &Option<Vec<Option<F32>>>) -> (r: PackRules)
        ensures
            r.green_flip == green_flip,
            (r.fade_near, r.fade_far) == pair_or(*fade, DETAIL_FADE_NEAR, DETAIL_FADE_FAR),
    {
        let (fade_near, fade_far) = read_pair(fade, DETAIL_FADE_NEAR, DETAIL_FADE_FAR);
        PackRules { green_flip, fade_near, fade_far }
    }
}

/// The record of a material.
pub open spec fn record_of(st: TableModel, m: MaterialIn, stretched: bool, rules: PackRules) -> GpuMaterial {
    let det = has_detail(m);
    let d = m.detail->0;
    GpuMaterial {
        albedo_index: index_or(st.albedo, path_of(m.albedo), NO_ALBEDO),
        flags: class_of(m, stretched),
        alpha_cutoff: m.alpha_cutoff,
        roughness: (match m.roughness {
            Some(r) => r,
            None => float(0x3f0c_cccd),
        }).kept_between(float(0x3cf5_c28f), float(ONE)),
        uv_xform: m.uv_xform,
        tint: m.tint,
        vp: match softcutout(m.vp) {
            Some(v) => v,
            None => zero4(),
        },
        normal_index: index_or(st.normal, path_of(m.normal), NO_NORMAL),
        normal_flags: if m.normal_green_flip || rules.green_flip {
            MAT_NORMAL_FLAG_GREEN_FLIP
        } else {
            0
        },
        normal_scale: m.normal_scale,
        slot: if paints_layers(m) {
            st.vp.len() as u32
        } else {
            0
        },
        detail_albedo_index: index_or(after_emissive(st, m), detail_albedo_path(m), 0),
        detail_normal_index: index_or(
            with_path(st.normal, path_of(m.normal)),
            detail_normal_path(m),
            0,
        ),
        detail_flags: ((if detail_albedo_path(m) is Some {
            1int
        } else {
            0int
        }) + (if detail_normal_path(m) is Some {
            2int
        } else {
            0int
        })) as u32,
        detail_albedo_uv: if detail_albedo_path(m) is Some {
            d.albedo_uv
        } else {
            zero4()
        },
        detail_normal_uv: if detail_normal_path(m) is Some {
            d.normal_uv
        } else {
            zero4()
        },
        detail_params: if det {
            V4 {
                x: d.albedo_strength,
                y: d.normal_scale,
                z: rules.fade_near,
                w: rules.fade_far,
            }
        } else {
            zero4()
        },
        detail_mean_gain: if det {
            V4 {
                x: d.albedo_mean_gain.x,
                y: d.albedo_mean_gain.y,
                z: d.albedo_mean_gain.z,
                w: float(ONE),
            }
        } else {
            zero4()
        },
        emissive_index: index_or(after_heights(st, m), emissive_path(m), NO_EMISSIVE),
        emissive_rgb: if emissive_path(m) is Some {
            m.emissive->0.rgb
        } else {
            V3 { x: float(0), y: float(0), z: float(0) }
        },
    }
}

/// What the table holds once a material has been entered.
pub open spec fn entered(st: TableModel, m: MaterialIn) -> TableModel {
    TableModel {
        albedo: with_path(after_emissive(st, m), detail_albedo_path(m)),
        normal: with_path(with_path(st.normal, path_of(m.normal)), detail_normal_path(m)),
        linear: match heights_path(m) {
            Some(p) => with_index(st.linear, position(after_layers(st, m, 3), p) as u32),
            None => st.linear,
        },
        vp: if paints_layers(m) {
            st.vp.push(paint_entry(st, m))
        } else {
            st.vp
        },
    }
}

/// Enter the painted layers of a material, if it has three, and its vertex-paint entry, if all three
/// have a texture. Returns whether they have.
fn enter_layers(t: &mut Table, m: &MaterialIn, Ghost(st): Ghost<TableModel>) -> (ok: bool)
    requires
        old(t)@ == (TableModel { albedo: after_albedo(st, *m), ..old(t)@ }),
        old(t)@.vp == st.vp,
        old(t)@.linear == st.linear,
        old(t)@.albedo.len() + 4 < 0xffff_ffff,
    ensures
        ok == paints_layers(*m),
        final(t)@.albedo == after_heights(st, *m),
        final(t)@.normal == old(t)@.normal,
        final(t)@.linear == entered(st, *m).linear,
        final(t)@.vp == entered(st, *m).vp,
        final(t)@.albedo.len() <= old(t)@.albedo.len() + 4,
{
    reveal_with_fuel(after_layers, 4);
    let vp = match &m.vp {
        Some(v) => v,
        None => {
            return false;
        },
    };
    let layers = match vp.get("layers") {
        Some(Json::Arr(a)) => a,
        _ => {
            return false;
        },
    };
    if layers.len() != 3 {
        return false;
    }
    let mut idx: [u32; 3] = [NO_ALBEDO;3];
    let mut ok = true;
    let mut i: usize = 0;
    while i < 3
        invariant
            i <= 3,
            layers@.len() == 3,
            paint_layers(m.vp) == Some(layers@),
            t@.albedo == after_layers(st, *m, i as nat),
            t@.normal == old(t)@.normal,
            t@.linear == st.linear,
            t@.vp == st.vp,
            t@.albedo.len() <= old(t)@.albedo.len() + i,
            old(t)@.albedo.len() + 4 < 0xffff_ffff,
            ok == (forall|k: int| 0 <= k < i ==> layer_path(layers@, k) is Some),
            forall|k: int| i <= k < 3 ==> idx@[k] == NO_ALBEDO,
            forall|k: int|
                0 <= k < i ==> idx@[k] == index_or(
                    after_layers(st, *m, k as nat),
                    layer_path(layers@, k),
                    NO_ALBEDO,
                ),
        decreases 3 - i,
    {
        match text_of(&layers[i], "albedo") {
            Some(p) => {
                idx[i] = t.albedo.intern(p);
            },
            None => {
                ok = false;
            },
        }
        i = i + 1;
        proof {
            assert(after_layers(st, *m, i as nat) == with_path(
                after_layers(st, *m, (i - 1) as nat),
                layer_path(layers@, i - 1),
            ));
        }
    }
    proof {
        assert(ok == layers_complete(layers@)) by {
            if layers_complete(layers@) {
                assert forall|k: int| 0 <= k < 3 implies layer_path(layers@, k) is Some by {
                    assert(k == 0 || k == 1 || k == 2);
                }
            }
        }
    }
    if !ok {
        return false;
    }
    let mut heights: u32 = NO_ALBEDO;
    match text_of(vp, "heights") {
        Some(p) => {
            heights = t.albedo.intern(p);
            add_index(&mut t.linear, heights);
        },
        None => {},
    }
    let one = F32 { bits: ONE };
    let zero = F32 { bits: 0 };
    let blend = match vp.get("blend") {
        Some(Json::Num(x)) => x.value,
        _ => one,
    };
    let unit = V4 { x: one, y: one, z: zero, w: zero };
    t.vp.push(
        VpGpu {
            layer0: idx[0],
            layer1: idx[1],
            layer2: idx[2],
            heights,
            uv0: vec4_at(layers[0].get("uv"), unit),
            uv1: vec4_at(layers[1].get("uv"), unit),
            uv2: vec4_at(layers[2].get("uv"), unit),
            tint0: tint_at(layers[0].get("tint"), blend.max(one)),
            tint1: tint_at(layers[1].get("tint"), zero),
            tint2: tint_at(layers[2].get("tint"), zero),
        },
    );
    true
}

/// Enter one material: its record, with its textures and vertex-paint entry put into the table.
pub fn enter_material(t: &mut Table, m: &MaterialIn, stretched: bool, rules: PackRules) -> (r: GpuMaterial)
    requires
        old(t)@.albedo.len() + 7 < 0xffff_ffff,
        old(t)@.normal.len() + 2 < 0xffff_ffff,
        old(t)@.vp.len() < 0xffff_ffff,
    ensures
        r == record_of(old(t)@, *m, stretched, rules),
        final(t)@ == entered(old(t)@, *m),
        final(t)@.albedo.len() <= old(t)@.albedo.len() + 7,
        final(t)@.normal.len() <= old(t)@.normal.len() + 2,
        final(t)@.vp.len() <= old(t)@.vp.len() + 1,
{
    let ghost st = t@;
    let albedo_index: u32 = t.albedo.intern_opt(&m.albedo, NO_ALBEDO);
    let has_albedo = match &m.albedo {
        Some(p) => !p.as_str().is_empty(),
        None => false,
    };
    let normal_index: u32 = t.normal.intern_opt(&m.normal, NO_NORMAL);
    let slot_if: u32 = t.vp.len() as u32;
    let params = softcutout_params(&m.vp);
    let vp = enter_layers(t, m, Ghost(st));
    let zero = F32 { bits: 0 };
    let mut emissive_index: u32 = NO_EMISSIVE;
    let mut emissive_rgb = V3 { x: zero, y: zero, z: zero };
    match &m.emissive {
        Some(e) => {
            emissive_index = t.albedo.intern_opt(&e.texture, NO_EMISSIVE);
            match &e.texture {
                Some(p) => if !p.as_str().is_empty() {
                    emissive_rgb = e.rgb;
                },
                None => {},
            }
        },
        None => {},
    }
    let mut detail_albedo_index: u32 = 0;
    let mut detail_normal_index: u32 = 0;
    let mut detail_flags: u32 = 0;
    let mut detail_albedo_uv = zeros();
    let mut detail_normal_uv = zeros();
    let mut detail_params = zeros();
    let mut detail_mean_gain = zeros();
    match &m.detail {
        Some(d) => {
            detail_albedo_index = t.albedo.intern_opt(&d.albedo, 0);
            detail_normal_index = t.normal.intern_opt(&d.normal, 0);
            match &d.albedo {
                Some(p) => if !p.as_str().is_empty() {
                    detail_flags = detail_flags + DETAIL_FLAG_ALBEDO;
                    detail_albedo_uv = d.albedo_uv;
                },
                None => {},
            }
            match &d.normal {
                Some(p) => if !p.as_str().is_empty() {
                    detail_flags = detail_flags + DETAIL_FLAG_NORMAL;
                    detail_normal_uv = d.normal_uv;
                },
                None => {},
            }
            if detail_flags != 0 {
                detail_params = V4 {
                    x: d.albedo_strength,
                    y: d.normal_scale,
                    z: rules.fade_near,
                    w: rules.fade_far,
                };
                detail_mean_gain = V4 {
                    x: d.albedo_mean_gain.x,
                    y: d.albedo_mean_gain.y,
                    z: d.albedo_mean_gain.z,
                    w: F32 { bits: ONE },
                };
            }
        },
        None => {},
    }
    let decal = same(m.role.as_str(), "decal");
    let water = same(m.role.as_str(), "water");
    let puddle = water && has_albedo;
    let soft = params.is_some() && decal;
    let class = MatClass {
        cutout: (same(m.role.as_str(), "cutout") || same(m.alpha_mode.as_str(), "MASK")) && !soft
            && !(vp && !decal),
        blend: decal || same(m.role.as_str(), "glass") || (same(m.alpha_mode.as_str(), "BLEND")
            && !water) || puddle,
        softcutout: soft,
        water,
        terrain: false,
        detail: detail_flags != 0,
        rfa: m.roughness_from_albedo_alpha && same(m.role.as_str(), "opaque"),
        vp,
        puddle_luma: puddle && m.alpha_is_constant,
        water_matte: puddle && stretched,
        decal,
    };
    let base = match m.roughness {
        Some(r) => r,
        None => F32 { bits: 0x3f0c_cccd },
    };
    GpuMaterial {
        albedo_index,
        flags: class,
        alpha_cutoff: m.alpha_cutoff,
        roughness: base.clamp(F32 { bits: 0x3cf5_c28f }, F32 { bits: ONE }),
        uv_xform: m.uv_xform,
        tint: m.tint,
        vp: match params {
            Some(v) => v,
            None => zeros(),
        },
        normal_index,
        normal_flags: if m.normal_green_flip || rules.green_flip {
            MAT_NORMAL_FLAG_GREEN_FLIP
        } else {
            0
        },
        normal_scale: m.normal_scale,
        slot: if vp {
            slot_if
        } else {
            0
        },
        detail_albedo_index,
        detail_normal_index,
        detail_flags,
        detail_albedo_uv,
        detail_normal_uv,
        detail_params,
        detail_mean_gain,
        emissive_index,
        emissive_rgb,
    }
}

/// What the table holds once the first `k` materials have been entered.
pub open spec fn entered_all(st: TableModel, mats: Seq<MaterialIn>, k: nat) -> TableModel
    decreases k,
{
    if k == 0 {
        st
    } else {
        entered(entered_all(st, mats, (k - 1) as nat), mats[k - 1])
    }
}

/// The table before any material is entered.
pub open spec fn empty_table() -> TableModel {
    TableModel {
        albedo: Seq::empty(),
        normal: Seq::empty(),
        linear: Seq::empty(),
        vp: Seq::empty(),
    }
}

/// The bits of 40: over how many metres a puddle's texture may reach before it counts as stretched.
pub const WATER_MATTE_MPR: u32 = 0x4220_0000;

/// A part of a mesh as far as its material goes: which it is, and over how many metres the part
/// stretches its texture.
#[derive(Clone, Copy, Debug, PartialEq, Eq, Structural)]
pub struct PartStretch {
    pub material_id: u32,
    pub metres_per_repeat: F32,
}

impl PartStretch {
    /// Whether the part stretches its texture.
    pub open spec fn stretched(self) -> bool {
        float(WATER_MATTE_MPR).lt(self.metres_per_repeat)
    }
}

/// Whether some part stretches the texture of material `id`.
pub open spec fn is_stretched(parts: Seq<PartStretch>, id: u32) -> bool {
    exists|i: int|
        0 <= i < parts.len() && (#[trigger] parts[i]).material_id == id && parts[i].stretched()
}

fn stretched_part(parts: &Vec<PartStretch>, id: u32) -> (r: bool)
    ensures
        r == is_stretched(parts@, id),
{
    let mut i: usize = 0;
    while i < parts.len()
        invariant
            i <= parts@.len(),
            forall|k: int|
                0 <= k < i ==> !((#[trigger] parts@[k]).material_id == id && parts@[k].stretched()),
        decreases parts@.len() - i,
    {
        if parts[i].material_id == id && (F32 { bits: WATER_MATTE_MPR }).less(parts[i].metres_per_repeat) {
            return true;
        }
        i = i + 1;
    }
    false
}

/// The record of material `i` of a pack.
pub open spec fn record_at(
    mats: Seq<MaterialIn>,
    parts: Seq<PartStretch>,
    rules: PackRules,
    i: int,
) -> GpuMaterial {
    record_of(
        entered_all(empty_table(), mats, i as nat),
        mats[i],
        is_stretched(parts, mats[i].id),
        rules,
    )
}

/// The material table of a pack: the records, one for each material in the pack's order, and what
/// they point into.
pub fn material_table(mats: &Vec<MaterialIn>, parts: &Vec<PartStretch>, rules: PackRules) -> (r: (
    Vec<GpuMaterial>,
    Table,
))
    requires
        7 * mats@.len() < 0xffff_ffff,
    ensures
        r.0@.len() == mats@.len(),
        forall|i: int|
            0 <= i < mats@.len() ==> #[trigger] r.0@[i] == record_at(mats@, parts@, rules, i),
        r.1@ == entered_all(empty_table(), mats@, mats@.len()),
        r.1@.albedo.len() <= 7 * mats@.len(),
{
    let mut t = Table {
        albedo: PathTable::new(),
        normal: PathTable::new(),
        linear: Vec::new(),
        vp: Vec::new(),
    };
    let mut recs: Vec<GpuMaterial> = Vec::new();
    let mut i: usize = 0;
    proof {
        assert(t@ =~= empty_table());
    }
    while i < mats.len()
        invariant
            i <= mats@.len(),
            7 * mats@.len() < 0xffff_ffff,
            recs@.len() == i,
            forall|k: int| 0 <= k < i ==> #[trigger] recs@[k] == record_at(mats@, parts@, rules, k),
            t@ == entered_all(empty_table(), mats@, i as nat),
            t@.albedo.len() <= 7 * i,
            t@.normal.len() <= 2 * i,
            t@.vp.len() <= i,
        decreases mats@.len() - i,
    {
        let stretched = stretched_part(parts, mats[i].id);
        let r = enter_material(&mut t, &mats[i], stretched, rules);
        recs.push(r);
        i = i + 1;
    }
    (recs, t)
}

/// What every class keeps: a feathering decal and a puddle are blended, a feathering decal and painted
/// ground are never alpha-tested, and the puddle flags belong to blended water.
pub open spec fn class_is_sound(c: MatClass) -> bool {
    &&& c.softcutout ==> c.blend && c.decal && !c.cutout
    &&& c.vp && !c.decal ==> !c.cutout
    &&& c.puddle_luma ==> c.water && c.blend
    &&& c.water_matte ==> c.water && c.blend
    &&& c.decal ==> c.blend
    &&& !c.terrain
}

/// Every material gets a sound class.
pub proof fn classes_are_sound(m: MaterialIn, stretched: bool)
    ensures
        class_is_sound(class_of(m, stretched)),
{
}

/// The paths of the table stay distinct, and what was in it stays where it was: an index handed out
/// once stands for the same texture for good.
pub proof fn entering_keeps_indices(st: TableModel, m: MaterialIn)
    requires
        crate::gpu::paths::all_distinct(st.albedo),
        crate::gpu::paths::all_distinct(st.normal),
    ensures
        crate::gpu::paths::all_distinct(entered(st, m).albedo),
        crate::gpu::paths::all_distinct(entered(st, m).normal),
        st.albedo.is_prefix_of(entered(st, m).albedo),
        st.normal.is_prefix_of(entered(st, m).normal),
{
    reveal_with_fuel(after_layers, 4);
    let a1 = after_albedo(st, m);
    with_path_keeps(st.albedo, path_of(m.albedo));
    let l = paint_layers(m.vp);
    if l is Some {
        with_path_keeps(a1, layer_path(l->0, 0));
        with_path_keeps(after_layers(st, m, 1), layer_path(l->0, 1));
        with_path_keeps(after_layers(st, m, 2), layer_path(l->0, 2));
    }
    let a3 = after_layers(st, m, 3);
    with_path_keeps(a3, heights_path(m));
    with_path_keeps(after_heights(st, m), emissive_path(m));
    with_path_keeps(after_emissive(st, m), detail_albedo_path(m));
    with_path_keeps(st.normal, path_of(m.normal));
    with_path_keeps(with_path(st.normal, path_of(m.normal)), detail_normal_path(m));
}

proof fn with_path_keeps(s: Seq<Seq<char>>, p: Option<Seq<char>>)
    requires
        crate::gpu::paths::all_distinct(s),
    ensures
        crate::gpu::paths::all_distinct(with_path(s, p)),
        s.is_prefix_of(with_path(s, p)),
{
    if let Some(t) = p {
        crate::gpu::paths::interning_is_stable(s, t, t);
    }
}

} // verus!
