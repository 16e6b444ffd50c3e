//! The live graphics settings, their start values and the quality presets over them.
use vstd::prelude::*;
use crate::f32bits::{float, F32, ONE};
use crate::numbers::{parse_i32, signed_value};
use crate::text::{same, same_ignoring_ascii_case, split_at_char, trim};
use crate::text::{ascii_lowered, pieces, texts, trimmed};

verus! {

/// The bits of 0.0.
pub const ZERO: u32 = 0;

/// The bits of 0.06.
pub const BLOOM_INTENSITY: u32 = 0x3d75_c28f;

/// The bits of 0.4, the fog that the viewer starts with.
pub const FOG: u32 = 0x3ecc_cccd;

/// The bits of 1.35.
pub const DEFAULT_GRADE_EXPOSURE: u32 = 0x3fac_cccd;

/// The bits of 1.5.
pub const CULL_PX: u32 = 0x3fc0_0000;

/// The bits of 4.0.
pub const CULL_PX_GRASS: u32 = 0x4080_0000;

/// The bits of 0.7.
pub const SSAO_RADIUS: u32 = 0x3f33_3333;

/// The bits of 0.75.
pub const AA_STRENGTH: u32 = 0x3f40_0000;

/// The bits of 15.0.
pub const DOF_FOCAL_M: u32 = 0x4170_0000;

/// The bits of 2.8.
pub const DOF_FSTOP: u32 = 0x4033_3333;

/// The bits of 2.0.
pub const MEDIUM_CULL_PX: u32 = 0x4000_0000;

/// The bits of 600.0.
pub const MEDIUM_CULL_PX_GRASS: u32 = 0x4416_0000;

/// The bits of 150.0.
pub const MEDIUM_GRASS_DIST: u32 = 0x4316_0000;

/// The bits of 4.0.
pub const LOW_CULL_PX: u32 = 0x4080_0000;

/// The bits of 1000.0.
pub const LOW_CULL_PX_GRASS: u32 = 0x447a_0000;

/// The bits of 80.0.
pub const LOW_GRASS_DIST: u32 = 0x42a0_0000;

/// The live graphics settings.
#[derive(Clone, Copy, Debug)]
pub struct GfxSettings {
    /// Scale of the distance fog.
    pub fog: F32,
    /// Scale of the sky reflection on glossy surfaces.
    pub sky_refl: F32,
    /// Scale of the emissive strength.
    pub emissive: F32,
    /// Sun shadows.
    pub shadows: bool,
    /// Whether the pack has a usable sun direction.
    pub shadows_available: bool,
    /// Bloom.
    pub bloom: bool,
    pub bloom_intensity: F32,
    /// The colour grade table.
    pub grade: bool,
    /// Whether a colour grade table was loaded.
    pub grade_available: bool,
    /// Exposure before the colour grade.
    pub grade_exposure: F32,
    /// Vignette.
    pub vignette: bool,
    /// Grass.
    pub grass: bool,
    /// The size in pixels below which things are culled; 0 culls nothing.
    pub cull_px: F32,
    /// The same for grass.
    pub cull_px_grass: F32,
    /// The farthest grass in metres; 0 sets no limit.
    pub grass_dist_m: F32,
    /// Ambient occlusion in screen space.
    pub ssao: bool,
    pub ssao_intensity: F32,
    /// The sampling radius of the ambient occlusion in metres.
    pub ssao_radius: F32,
    /// Strength of the unsharp mask.
    pub sharpen: F32,
    /// Smoothing of edges in the grade pass.
    pub aa: bool,
    pub aa_strength: F32,
    /// Practical lights.
    pub lights: bool,
    pub light_intensity: F32,
    /// Scale of the direct sun.
    pub sun_diffuse: F32,
    /// Scale of the baked indirect light.
    pub gi_intensity: F32,
    /// Volumetric sun shafts.
    pub volumetric: bool,
    pub volumetric_strength: F32,
    /// Depth of field.
    pub dof: bool,
    pub dof_focal_m: F32,
    pub dof_fstop: F32,
    /// Chromatic aberration.
    pub chroma: F32,
    /// Bit i is set while light group i has power.
    pub light_groups: u32,
    /// Choice of the detail level by distance.
    pub lod_distance: bool,
    /// Above 1 fine shells are held farther out.
    pub lod_bias: F32,
    /// The one shell to show; negative for no such choice.
    pub lod_force: i32,
}

impl GfxSettings {
    /// Whether every switch and count is the same.
    pub open spec fn same_switches(self, o: GfxSettings) -> bool {
        &&& self.shadows == o.shadows
        &&& self.shadows_available == o.shadows_available
        &&& self.bloom == o.bloom
        &&& self.grade == o.grade
        &&& self.grade_available == o.grade_available
        &&& self.vignette == o.vignette
        &&& self.grass == o.grass
        &&& self.ssao == o.ssao
        &&& self.aa == o.aa
        &&& self.lights == o.lights
        &&& self.volumetric == o.volumetric
        &&& self.dof == o.dof
        &&& self.light_groups == o.light_groups
        &&& self.lod_distance == o.lod_distance
        &&& self.lod_force == o.lod_force
    }

    /// Whether every float is equal, as IEEE has it.
    pub open spec fn equal_floats(self, o: GfxSettings) -> bool {
        &&& self.fog.eq(o.fog)
        &&& self.sky_refl.eq(o.sky_refl)
        &&& self.emissive.eq(o.emissive)
        &&& self.bloom_intensity.eq(o.bloom_intensity)
        &&& self.grade_exposure.eq(o.grade_exposure)
        &&& self.cull_px.eq(o.cull_px)
        &&& self.cull_px_grass.eq(o.cull_px_grass)
        &&& self.grass_dist_m.eq(o.grass_dist_m)
        &&& self.ssao_intensity.eq(o.ssao_intensity)
        &&& self.ssao_radius.eq(o.ssao_radius)
        &&& self.sharpen.eq(o.sharpen)
        &&& self.aa_strength.eq(o.aa_strength)
        &&& self.light_intensity.eq(o.light_intensity)
        &&& self.sun_diffuse.eq(o.sun_diffuse)
        &&& self.gi_intensity.eq(o.gi_intensity)
        &&& self.volumetric_strength.eq(o.volumetric_strength)
        &&& self.dof_focal_m.eq(o.dof_focal_m)
        &&& self.dof_fstop.eq(o.dof_fstop)
        &&& self.chroma.eq(o.chroma)
        &&& self.lod_bias.eq(o.lod_bias)
    }

    /// Whether no float is "not a number".
    pub open spec fn all_numbers(self) -> bool {
        self.equal_floats(self)
    }
}

impl PartialEq for GfxSettings {
    fn eq(&self, other: &GfxSettings) -> (r: bool) {
        self.shadows == other.shadows && self.shadows_available == other.shadows_available && self.bloom
            == other.bloom && self.grade == other.grade && self.grade_available
            == other.grade_available && self.vignette == other.vignette && self.grass == other.grass
            && self.ssao == other.ssao && self.aa == other.aa && self.lights == other.lights
            && self.volumetric == other.volumetric && self.dof == other.dof && self.light_groups
            == other.light_groups && self.lod_distance == other.lod_distance && self.lod_force
            == other.lod_force && self.fog.equals(other.fog) && self.sky_refl.equals(other.sky_refl)
            && self.emissive.equals(other.emissive) && self.bloom_intensity.equals(
            other.bloom_intensity,
        ) && self.grade_exposure.equals(other.grade_exposure) && self.cull_px.equals(other.cull_px)
            && self.cull_px_grass.equals(other.cull_px_grass) && self.grass_dist_m.equals(
            other.grass_dist_m,
        ) && self.ssao_intensity.equals(other.ssao_intensity) && self.ssao_radius.equals(
            other.ssao_radius,
        ) && self.sharpen.equals(other.sharpen) && self.aa_strength.equals(other.aa_strength)
            && self.light_intensity.equals(other.light_intensity) && self.sun_diffuse.equals(
            other.sun_diffuse,
        ) && self.gi_intensity.equals(other.gi_intensity) && self.volumetric_strength.equals(
            other.volumetric_strength,
        ) && self.dof_focal_m.equals(other.dof_focal_m) && self.dof_fstop.equals(other.dof_fstop)
            && self.chroma.equals(other.chroma) && self.lod_bias.equals(other.lod_bias)
    }
}

impl vstd::std_specs::cmp::PartialEqSpecImpl for GfxSettings {
    open spec fn obeys_eq_spec() -> bool {
        true
    }

    open spec fn eq_spec(&self, other: &GfxSettings) -> bool {
        self.same_switches(*other) && self.equal_floats(*other)
    }
}

/// What the environment says of the start settings: the texts of the switches, and the numbers that
/// the texts of the others stand for. A text that is no number counts as absent.
pub struct GfxEnv {
    pub fog: Option<F32>,
    pub shadows: Option<String>,
    pub bloom: Option<String>,
    pub grade_exposure: Option<F32>,
    pub vignette: Option<String>,
    /// For each piece of the list its number, none where it is none.
    pub cull_px: Option<Vec<Option<F32>>>,
    pub grass_dist_m: Option<F32>,
    pub ssao: Option<String>,
    pub sharpen: Option<F32>,
    pub aa: Option<String>,
    pub aa_strength: Option<F32>,
    pub volumetric: Option<String>,
    pub volumetric_strength: Option<F32>,
    pub power: Option<String>,
    pub lod: Option<String>,
    pub lod_bias: Option<F32>,
    pub lod_force: Option<String>,
}

impl GfxEnv {
    /// An environment that says nothing.
    pub open spec fn silent(self) -> bool {
        &&& self.fog is None
        &&& self.shadows is None
        &&& self.bloom is None
        &&& self.grade_exposure is None
        &&& self.vignette is None
        &&& self.cull_px is None
        &&& self.grass_dist_m is None
        &&& self.ssao is None
        &&& self.sharpen is None
        &&& self.aa is None
        &&& self.aa_strength is None
        &&& self.volumetric is None
        &&& self.volumetric_strength is None
        &&& self.power is None
        &&& self.lod is None
        &&& self.lod_bias is None
        &&& self.lod_force is None
    }

    /// An environment that says nothing.
    pub fn empty() -> (r: GfxEnv)
        ensures
            r.silent(),
    {
        GfxEnv {
            fog: None,
            shadows: None,
            bloom: None,
            grade_exposure: None,
            vignette: None,
            cull_px: None,
            grass_dist_m: None,
            ssao: None,
            sharpen: None,
            aa: None,
            aa_strength: None,
            volumetric: None,
            volumetric_strength: None,
            power: None,
            lod: None,
            lod_bias: None,
            lod_force: None,
        }
    }
}

/// Whether a variable is set to `word`, white space around it aside.
pub open spec fn says(v: Option<String>, word: Seq<char>) -> bool {
    v is Some && trimmed(v->0@) == word
}

/// Whether a variable is set to `word`.
pub fn is_set_to(v: &Option<String>, word: &str) -> (r: bool)
    ensures
        r == says(*v, word@),
{
    match v {
        Some(s) => same(trim(s.as_str()).as_str(), word),
        None => false,
    }
}

/// Whether a variable is set to `word` in large or small letters.
pub open spec fn says_in_any_case(v: Option<String>, word: Seq<char>) -> bool {
    v is Some && ascii_lowered(trimmed(v->0@)) == ascii_lowered(word)
}

/// Whether a variable is set to `word` in large or small letters.
pub fn is_set_to_in_any_case(v: &Option<String>, word: &str) -> (r: bool)
    ensures
        r == says_in_any_case(*v, word@),
{
    match v {
        Some(s) => same_ignoring_ascii_case(trim(s.as_str()).as_str(), word),
        None => false,
    }
}

/// The given number, or the float with bits `d` where there is none.
pub open spec fn number_or(v: Option<F32>, d: u32) -> F32 {
    match v {
        Some(f) => f,
        None => float(d),
    }
}

fn or_float(v: Option<F32>, d: u32) -> (r: F32)
    ensures
        r == number_or(v, d),
{
    match v {
        Some(f) => f,
        None => F32 { bits: d },
    }
}

/// The pieces of a list: parted at commas, without white space around them.
pub open spec fn listed(s: Seq<char>) -> Seq<Seq<char>> {
    Seq::new(pieces(s, ',').len(), |i: int| trimmed(pieces(s, ',')[i]))
}

/// The pieces of a list of numbers.
pub fn list_pieces(s: &str) -> (r: Vec<String>)
    ensures
        texts(r@) == listed(s@),
{
    let parts = split_at_char(s, ',');
    let mut r: Vec<String> = Vec::new();
    let n: usize = parts.len();
    let mut i: usize = 0;
    while i < n
        invariant
            i <= n,
            n == parts@.len(),
            texts(parts@) == pieces(s@, ','),
            r@.len() == i,
            forall|j: int| 0 <= j < i ==> (#[trigger] r@[j])@ == listed(s@)[j],
        decreases n - i,
    {
        proof {
            assert(texts(parts@).len() == n);
            assert(texts(parts@)[i as int] == parts@[i as int]@);
        }
        r.push(trim(parts[i].as_str()));
        i = i + 1;
    }
    proof {
        assert(texts(parts@).len() == n);
        assert(texts(r@) =~= listed(s@));
    }
    r
}

/// The numbers among the pieces of a list.
pub open spec fn numbers_of(v: Seq<Option<F32>>) -> Seq<F32>
    decreases v.len(),
{
    if v.len() == 0 {
        seq![]
    } else {
        match v.last() {
            Some(f) => numbers_of(v.drop_last()).push(f),
            None => numbers_of(v.drop_last()),
        }
    }
}

/// The numbers of a list where it holds exactly two, else the two floats with the given bits.
pub open spec fn pair_or(v: Option<Vec<Option<F32>>>, a: u32, b: u32) -> (F32, F32) {
    if v is Some && numbers_of(v->0@).len() == 2 {
        (numbers_of(v->0@)[0], numbers_of(v->0@)[1])
    } else {
        (float(a), float(b))
    }
}

/// The two cull thresholds.
pub open spec fn cull_pair(v: Option<Vec<Option<F32>>>) -> (F32, F32) {
    pair_or(v, CULL_PX, CULL_PX_GRASS)
}

/// The two numbers of a list, or those with the given bits.
pub fn read_pair(v: &Option<Vec<Option<F32>>>, a: u32, b: u32) -> (r: (F32, F32))
    ensures
        r == pair_or(*v, a, b),
{
    if let Some(list) = v {
        let mut found: Vec<F32> = Vec::new();
        let n: usize = list.len();
        let mut i: usize = 0;
        while i < n
            invariant
                i <= n,
                n == list@.len(),
                found@ == numbers_of(list@.take(i as int)),
            decreases n - i,
        {
            proof {
                assert(list@.take(i + 1).drop_last() =~= list@.take(i as int));
            }
            if let Some(f) = list[i] {
                found.push(f);
            }
            i = i + 1;
        }
        proof {
            assert(list@.take(n as int) =~= list@);
        }
        if found.len() == 2 {
            return (found[0], found[1]);
        }
    }
    (F32 { bits: a }, F32 { bits: b })
}

/// The shell that the environment forces; -1 where it forces none.
pub open spec fn forced_shell(v: Option<String>) -> int {
    match v {
        Some(s) => match signed_value(trimmed(s@)) {
            Some(n) => if i32::MIN <= n <= i32::MAX {
                n
            } else {
                -1
            },
            None => -1,
        },
        None => -1,
    }
}

fn read_forced_shell(v: &Option<String>) -> (r: i32)
    ensures
        r == forced_shell(*v),
{
    match v {
        Some(s) => match parse_i32(trim(s.as_str()).as_str()) {
            Some(n) => n,
            None => -1,
        },
        None => -1,
    }
}

impl GfxSettings {
    /// The settings to start with in a given environment: the shipped look, with what the environment
    /// overrides.
    pub open spec fn start(env: GfxEnv) -> GfxSettings {
        GfxSettings {
            fog: number_or(env.fog, FOG),
            sky_refl: float(ONE),
            emissive: float(ONE),
            shadows: !says(env.shadows, "0"@) && !says_in_any_case(env.shadows, "false"@),
            shadows_available: false,
            bloom: !says(env.bloom, "0"@),
            bloom_intensity: float(BLOOM_INTENSITY),
            grade: true,
            grade_available: false,
            grade_exposure: number_or(env.grade_exposure, DEFAULT_GRADE_EXPOSURE),
            vignette: !says(env.vignette, "0"@),
            grass: true,
            cull_px: cull_pair(env.cull_px).0,
            cull_px_grass: cull_pair(env.cull_px).1,
            grass_dist_m: number_or(env.grass_dist_m, ZERO),
            ssao: says(env.ssao, "1"@),
            ssao_intensity: float(ONE),
            ssao_radius: float(SSAO_RADIUS),
            sharpen: number_or(env.sharpen, ZERO),
            aa: !says(env.aa, "0"@),
            aa_strength: number_or(env.aa_strength, AA_STRENGTH),
            lights: true,
            light_intensity: float(ONE),
            sun_diffuse: float(ONE),
            gi_intensity: float(ONE),
            volumetric: says(env.volumetric, "1"@),
            volumetric_strength: number_or(env.volumetric_strength, ONE),
            dof: false,
            dof_focal_m: float(DOF_FOCAL_M),
            dof_fstop: float(DOF_FSTOP),
            chroma: float(ZERO),
            light_groups: if says(env.power, "1"@) {
                u32::MAX
            } else {
                0
            },
            lod_distance: !says(env.lod, "0"@),
            lod_bias: number_or(env.lod_bias, ONE),
            lod_force: forced_shell(env.lod_force) as i32,
        }
    }

    /// The settings to start with.
    pub fn from_env(env: &GfxEnv) -> (r: GfxSettings)
        ensures
            r == GfxSettings::start(*env),
    {
        let (cull_px, cull_px_grass) = read_pair(&env.cull_px, CULL_PX, CULL_PX_GRASS);
        GfxSettings {
            fog: or_float(env.fog, FOG),
            sky_refl: F32 { bits: ONE },
            emissive: F32 { bits: ONE },
            shadows: !is_set_to(&env.shadows, "0") && !is_set_to_in_any_case(&env.shadows, "false"),
            shadows_available: false,
            bloom: !is_set_to(&env.bloom, "0"),
            bloom_intensity: F32 { bits: BLOOM_INTENSITY },
            grade: true,
            grade_available: false,
            grade_exposure: or_float(env.grade_exposure, DEFAULT_GRADE_EXPOSURE),
            vignette: !is_set_to(&env.vignette, "0"),
            grass: true,
            cull_px,
            cull_px_grass,
            grass_dist_m: or_float(env.grass_dist_m, ZERO),
            ssao: is_set_to(&env.ssao, "1"),
            ssao_intensity: F32 { bits: ONE },
            ssao_radius: F32 { bits: SSAO_RADIUS },
            sharpen: or_float(env.sharpen, ZERO),
            aa: !is_set_to(&env.aa, "0"),
            aa_strength: or_float(env.aa_strength, AA_STRENGTH),
            lights: true,
            light_intensity: F32 { bits: ONE },
            sun_diffuse: F32 { bits: ONE },
            gi_intensity: F32 { bits: ONE },
            volumetric: is_set_to(&env.volumetric, "1"),
            volumetric_strength: or_float(env.volumetric_strength, ONE),
            dof: false,
            dof_focal_m: F32 { bits: DOF_FOCAL_M },
            dof_fstop: F32 { bits: DOF_FSTOP },
            chroma: F32 { bits: ZERO },
            light_groups: if is_set_to(&env.power, "1") {
                u32::MAX
            } else {
                0
            },
            lod_distance: !is_set_to(&env.lod, "0"),
            lod_bias: or_float(env.lod_bias, ONE),
            lod_force: read_forced_shell(&env.lod_force),
        }
    }

    /// The shipped look: the start settings where the environment says nothing.
    pub open spec fn shipped() -> GfxSettings {
        GfxSettings {
            fog: float(FOG),
            sky_refl: float(ONE),
            emissive: float(ONE),
            shadows: true,
            shadows_available: false,
            bloom: true,
            bloom_intensity: float(BLOOM_INTENSITY),
            grade: true,
            grade_available: false,
            grade_exposure: float(DEFAULT_GRADE_EXPOSURE),
            vignette: true,
            grass: true,
            cull_px: float(CULL_PX),
            cull_px_grass: float(CULL_PX_GRASS),
            grass_dist_m: float(ZERO),
            ssao: false,
            ssao_intensity: float(ONE),
            ssao_radius: float(SSAO_RADIUS),
            sharpen: float(ZERO),
            aa: true,
            aa_strength: float(AA_STRENGTH),
            lights: true,
            light_intensity: float(ONE),
            sun_diffuse: float(ONE),
            gi_intensity: float(ONE),
            volumetric: false,
            volumetric_strength: float(ONE),
            dof: false,
            dof_focal_m: float(DOF_FOCAL_M),
            dof_fstop: float(DOF_FSTOP),
            chroma: float(ZERO),
            light_groups: 0,
            lod_distance: true,
            lod_bias: float(ONE),
            lod_force: (-1) as i32,
        }
    }
}

impl Default for GfxSettings {
    fn default() -> (r: GfxSettings)
        ensures
            r == GfxSettings::shipped(),
    {
        GfxSettings::from_env(&GfxEnv::empty())
    }
}

/// The quality presets. Texture memory is a matter of the texture tier alone; speed is foliage, then
/// bloom, then shadows.
#[derive(Clone, Copy, Debug, PartialEq, Eq, Structural)]
pub enum QualityPreset {
    Low,
    Medium,
    High,
    Ultra,
    Custom,
}

impl QualityPreset {
    /// All presets, in the order of their indices.
    pub fn all() -> (r: [QualityPreset; 5])
        ensures
            r@ =~= seq![
                QualityPreset::Low,
                QualityPreset::Medium,
                QualityPreset::High,
                QualityPreset::Ultra,
                QualityPreset::Custom,
            ],
    {
        [
            QualityPreset::Low,
            QualityPreset::Medium,
            QualityPreset::High,
            QualityPreset::Ultra,
            QualityPreset::Custom,
        ]
    }

    /// The number under which a preset is saved.
    pub open spec fn number(self) -> u8 {
        match self {
            QualityPreset::Low => 0,
            QualityPreset::Medium => 1,
            QualityPreset::High => 2,
            QualityPreset::Ultra => 3,
            QualityPreset::Custom => 4,
        }
    }

    /// The preset that is saved under `i`; High for any other number.
    pub open spec fn numbered(i: u8) -> QualityPreset {
        if i == 0 {
            QualityPreset::Low
        } else if i == 1 {
            QualityPreset::Medium
        } else if i == 3 {
            QualityPreset::Ultra
        } else if i == 4 {
            QualityPreset::Custom
        } else {
            QualityPreset::High
        }
    }

    /// Stable index for saving.
    pub fn index(self) -> (r: u8)
        ensures
            r == self.number(),
    {
        match self {
            QualityPreset::Low => 0,
            QualityPreset::Medium => 1,
            QualityPreset::High => 2,
            QualityPreset::Ultra => 3,
            QualityPreset::Custom => 4,
        }
    }

    /// The preset that was saved under `i`.
    pub fn from_index(i: u8) -> (r: QualityPreset)
        ensures
            r == QualityPreset::numbered(i),
    {
        match i {
            0 => QualityPreset::Low,
            1 => QualityPreset::Medium,
            3 => QualityPreset::Ultra,
            4 => QualityPreset::Custom,
            _ => QualityPreset::High,
        }
    }

    /// The name that the menu shows.
    pub fn label(self) -> (r: &'static str)
        ensures
            r@ == (match self {
                QualityPreset::Low => "Low"@,
                QualityPreset::Medium => "Medium"@,
                QualityPreset::High => "High"@,
                QualityPreset::Ultra => "Ultra"@,
                QualityPreset::Custom => "Custom"@,
            }),
    {
        match self {
            QualityPreset::Low => "Low",
            QualityPreset::Medium => "Medium",
            QualityPreset::High => "High",
            QualityPreset::Ultra => "Ultra",
            QualityPreset::Custom => "Custom",
        }
    }

    /// Headline that the user can act on: measured speed against High, and measured memory.
    pub fn summary(self) -> (r: &'static str)
        ensures
            r@ == (match self {
                QualityPreset::Low =>
                    "~30% faster \u{2022} ~1.6 GB VRAM \u{2014} no foliage, shadows or bloom"@,
                QualityPreset::Medium =>
                    "~25% faster \u{2022} ~2.2 GB VRAM \u{2014} thinned foliage to 150 m, no shadows"@,
                QualityPreset::High => "baseline \u{2022} ~2.3 GB VRAM \u{2014} the shipped look"@,
                QualityPreset::Ultra =>
                    "~30% slower \u{2022} ~4.5 GB VRAM \u{2014} full-res textures, SSAO + volumetric sun shafts"@,
                QualityPreset::Custom => "your own mix \u{2014} see the per-option costs below"@,
            }),
    {
        match self {
            QualityPreset::Low =>
                "~30% faster \u{2022} ~1.6 GB VRAM \u{2014} no foliage, shadows or bloom",
            QualityPreset::Medium =>
                "~25% faster \u{2022} ~2.2 GB VRAM \u{2014} thinned foliage to 150 m, no shadows",
            QualityPreset::High => "baseline \u{2022} ~2.3 GB VRAM \u{2014} the shipped look",
            QualityPreset::Ultra =>
                "~30% slower \u{2022} ~4.5 GB VRAM \u{2014} full-res textures, SSAO + volumetric sun shafts",
            QualityPreset::Custom => "your own mix \u{2014} see the per-option costs below",
        }
    }

    /// The texture tier of a preset.
    pub open spec fn tier(self) -> Option<u8> {
        match self {
            QualityPreset::Low => Some(2),
            QualityPreset::Medium => Some(1),
            QualityPreset::High => Some(1),
            QualityPreset::Ultra => Some(0),
            QualityPreset::Custom => None,
        }
    }

    /// The texture tier that a preset wants: 0 full, 1 half, 2 quarter; none for Custom, which leaves
    /// what the user has set.
    pub fn tex_quality(self) -> (r: Option<u8>)
        ensures
            r == self.tier(),
    {
        match self {
            QualityPreset::Low => Some(2),
            QualityPreset::Medium | QualityPreset::High => Some(1),
            QualityPreset::Ultra => Some(0),
            QualityPreset::Custom => None,
        }
    }

    /// `g` with the choices of a preset over the start settings `d`. A named preset sets every field
    /// that it means to control; Custom sets none.
    pub open spec fn over(self, g: GfxSettings, d: GfxSettings) -> GfxSettings {
        match self {
            QualityPreset::Custom => g,
            QualityPreset::Ultra => GfxSettings {
                grass: true,
                shadows: true,
                bloom: true,
                ssao: true,
                lights: true,
                cull_px: d.cull_px,
                cull_px_grass: d.cull_px_grass,
                aa: true,
                volumetric: true,
                volumetric_strength: d.volumetric_strength,
                grass_dist_m: float(ZERO),
                ..g
            },
            QualityPreset::High => GfxSettings {
                grass: true,
                shadows: true,
                bloom: true,
                ssao: false,
                lights: true,
                cull_px: d.cull_px,
                cull_px_grass: d.cull_px_grass,
                aa: true,
                volumetric: false,
                volumetric_strength: d.volumetric_strength,
                grass_dist_m: float(ZERO),
                ..g
            },
            QualityPreset::Medium => GfxSettings {
                grass: true,
                shadows: false,
                bloom: true,
                ssao: false,
                lights: true,
                cull_px: float(MEDIUM_CULL_PX),
                cull_px_grass: float(MEDIUM_CULL_PX_GRASS),
                aa: true,
                volumetric: false,
                volumetric_strength: d.volumetric_strength,
                grass_dist_m: float(MEDIUM_GRASS_DIST),
                ..g
            },
            QualityPreset::Low => GfxSettings {
                grass: false,
                shadows: false,
                bloom: false,
                ssao: false,
                lights: false,
                cull_px: float(LOW_CULL_PX),
                cull_px_grass: float(LOW_CULL_PX_GRASS),
                aa: true,
                volumetric: false,
                volumetric_strength: d.volumetric_strength,
                grass_dist_m: float(LOW_GRASS_DIST),
                ..g
            },
        }
    }

    /// Apply the preset's choices, with `d` for the settings that the viewer started with.
    pub fn apply_over(self, g: &mut GfxSettings, d: &GfxSettings)
        ensures
            *final(g) == self.over(*old(g), *d),
    {
        match self {
            QualityPreset::Custom => {},
            QualityPreset::Ultra => {
                g.grass = true;
                g.shadows = true;
                g.bloom = true;
                g.ssao = true;
                g.lights = true;
                g.cull_px = d.cull_px;
                g.cull_px_grass = d.cull_px_grass;
                g.aa = true;
                g.volumetric = true;
                g.volumetric_strength = d.volumetric_strength;
                g.grass_dist_m = F32 { bits: ZERO };
            },
            QualityPreset::High => {
                g.grass = true;
                g.shadows = true;
                g.bloom = true;
                g.ssao = false;
                g.lights = true;
                g.cull_px = d.cull_px;
                g.cull_px_grass = d.cull_px_grass;
                g.aa = true;
                g.volumetric = false;
                g.volumetric_strength = d.volumetric_strength;
                g.grass_dist_m = F32 { bits: ZERO };
            },
            QualityPreset::Medium => {
                g.grass = true;
                g.shadows = false;
                g.bloom = true;
                g.ssao = false;
                g.lights = true;
                g.cull_px = F32 { bits: MEDIUM_CULL_PX };
                g.cull_px_grass = F32 { bits: MEDIUM_CULL_PX_GRASS };
                g.aa = true;
                g.volumetric = false;
                g.volumetric_strength = d.volumetric_strength;
                g.grass_dist_m = F32 { bits: MEDIUM_GRASS_DIST };
            },
            QualityPreset::Low => {
                g.grass = false;
                g.shadows = false;
                g.bloom = false;
                g.ssao = false;
                g.lights = false;
                g.cull_px = F32 { bits: LOW_CULL_PX };
                g.cull_px_grass = F32 { bits: LOW_CULL_PX_GRASS };
                g.aa = true;
                g.volumetric = false;
                g.volumetric_strength = d.volumetric_strength;
                g.grass_dist_m = F32 { bits: LOW_GRASS_DIST };
            },
        }
    }

    /// Apply the preset's choices where the environment says nothing of the start settings.
    pub fn apply(self, g: &mut GfxSettings)
        ensures
            *final(g) == self.over(*old(g), GfxSettings::shipped()),
    {
        let d = GfxSettings::default();
        self.apply_over(g, &d);
    }

    /// Whether `g` is just what the preset would make of it, with its texture tier.
    pub open spec fn describes(self, g: GfxSettings, tex_quality: u8, d: GfxSettings) -> bool {
        let p = self.over(g, d);
        p.same_switches(g) && p.equal_floats(g) && self.tier() == Some(tex_quality)
    }

    /// The first of Ultra, High, Medium and Low that describes the settings; Custom where none does.
    pub open spec fn detected(g: GfxSettings, tex_quality: u8, d: GfxSettings) -> QualityPreset {
        if QualityPreset::Ultra.describes(g, tex_quality, d) {
            QualityPreset::Ultra
        } else if QualityPreset::High.describes(g, tex_quality, d) {
            QualityPreset::High
        } else if QualityPreset::Medium.describes(g, tex_quality, d) {
            QualityPreset::Medium
        } else if QualityPreset::Low.describes(g, tex_quality, d) {
            QualityPreset::Low
        } else {
            QualityPreset::Custom
        }
    }

    fn is_described(self, g: &GfxSettings, tex_quality: u8, d: &GfxSettings) -> (r: bool)
        ensures
            r == self.describes(*g, tex_quality, *d),
    {
        let mut probe: GfxSettings = *g;
        self.apply_over(&mut probe, d);
        let tier: Option<u8> = self.tex_quality();
        probe == *g && match tier {
            Some(t) => t == tex_quality,
            None => false,
        }
    }

    /// Which preset the settings correspond to, with `d` for the settings that the viewer started
    /// with.
    pub fn detect_over(g: &GfxSettings, tex_quality: u8, d: &GfxSettings) -> (r: QualityPreset)
        ensures
            r == QualityPreset::detected(*g, tex_quality, *d),
    {
        if QualityPreset::Ultra.is_described(g, tex_quality, d) {
            QualityPreset::Ultra
        } else if QualityPreset::High.is_described(g, tex_quality, d) {
            QualityPreset::High
        } else if QualityPreset::Medium.is_described(g, tex_quality, d) {
            QualityPreset::Medium
        } else if QualityPreset::Low.is_described(g, tex_quality, d) {
            QualityPreset::Low
        } else {
            QualityPreset::Custom
        }
    }

    /// Which preset the settings correspond to, where the environment says nothing of the start
    /// settings.
    pub fn detect(g: &GfxSettings, tex_quality: u8) -> (r: QualityPreset)
        ensures
            r == QualityPreset::detected(*g, tex_quality, GfxSettings::shipped()),
    {
        let d = GfxSettings::default();
        QualityPreset::detect_over(g, tex_quality, &d)
    }
}

/// A named preset that was applied is the one that is detected, with its texture tier, whatever the
/// settings were before.
pub proof fn applied_preset_is_detected(p: QualityPreset, g: GfxSettings, d: GfxSettings)
    requires
        p != QualityPreset::Custom,
        p.over(g, d).all_numbers(),
    ensures
        QualityPreset::detected(p.over(g, d), p.tier()->0, d) == p,
{
}

/// What is detected describes the settings: a named preset is reported only where applying it changes
/// nothing and its texture tier is in use.
pub proof fn detected_preset_describes(g: GfxSettings, tex_quality: u8, d: GfxSettings)
    ensures
        QualityPreset::detected(g, tex_quality, d) != QualityPreset::Custom
            ==> QualityPreset::detected(g, tex_quality, d).describes(g, tex_quality, d),
{
}

/// At most one named preset describes given settings, so the order in which they are tried does not
/// matter.
pub proof fn presets_exclude_each_other(
    p: QualityPreset,
    q: QualityPreset,
    g: GfxSettings,
    tex_quality: u8,
    d: GfxSettings,
)
    requires
        p.describes(g, tex_quality, d),
        q.describes(g, tex_quality, d),
    ensures
        p == q,
{
}

/// Applying a preset a second time changes nothing.
pub proof fn applying_twice_is_applying_once(p: QualityPreset, g: GfxSettings, d: GfxSettings)
    ensures
        p.over(p.over(g, d), d) == p.over(g, d),
{
}

/// A saved index gives the preset back.
pub proof fn index_round_trip(p: QualityPreset)
    ensures
        QualityPreset::numbered(p.number()) == p,
{
}

} // verus!
