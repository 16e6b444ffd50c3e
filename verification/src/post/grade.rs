//! The colour grade: a table of 64 by 64 by 64 colours, repacked from a flat picture.
use vstd::prelude::*;
use vstd::arithmetic::div_mod::lemma_fundamental_div_mod_converse;
use crate::bytes::{le16, push_le16};
use crate::f32bits::{float, F32};
use crate::settings::{is_set_to, number_or, says, GfxSettings, DEFAULT_GRADE_EXPOSURE};

verus! {

/// The bytes of the flat picture: 512 by 512 pixels of four bytes.
pub const ATLAS_BYTES: usize = 1_048_576;

/// The entries of the table.
pub const LUT_TEXELS: usize = 262_144;

/// The bits of 0.488: the strength of the vignette.
pub const VIGNETTE: u32 = 0x3ef9_db23;

/// Where the picture has the colour of entry (r, g, b): the slices of blue are tiles, eight in a row.
pub open spec fn atlas_at(r: int, g: int, b: int) -> int {
    (((b / 8) * 64 + g) * 512 + (b % 8) * 64 + r) * 4
}

/// The bytes of an entry: its three channels, made linear, and full alpha.
pub open spec fn texel_bytes(atlas: Seq<u8>, linear: Seq<u16>, one: u16, at: int) -> Seq<u8> {
    le16(linear[atlas[at] as int]) + le16(linear[atlas[at + 1] as int]) + le16(
        linear[atlas[at + 2] as int],
    ) + le16(one)
}

/// The bytes of the first `n` entries: red changes fastest, then green, then blue.
pub open spec fn lut_bytes(atlas: Seq<u8>, linear: Seq<u16>, one: u16, n: nat) -> Seq<u8>
    decreases n,
{
    if n == 0 {
        seq![]
    } else {
        let t = n - 1;
        lut_bytes(atlas, linear, one, (n - 1) as nat) + texel_bytes(
            atlas,
            linear,
            one,
            atlas_at(t % 64, (t / 64) % 64, t / 4096),
        )
    }
}

/// The colour grade.
#[derive(Debug)]
pub struct GradeLutCpu {
    /// The table, as half floats.
    pub texels: Vec<u8>,
    pub exposure: F32,
    pub vignette: F32,
}

/// Repack a picture. `linear` gives for each byte the half float of its linear value, and `one` is
/// the half float of 1.
fn repack(atlas: &Vec<u8>, linear: &Vec<u16>, one: u16) -> (r: Vec<u8>)
    requires
        atlas@.len() == ATLAS_BYTES,
        linear@.len() == 256,
    ensures
        r@ == lut_bytes(atlas@, linear@, one, LUT_TEXELS as nat),
{
    let mut r: Vec<u8> = Vec::new();
    let mut t: usize = 0;
    proof {
        assert(r@ =~= lut_bytes(atlas@, linear@, one, 0));
    }
    while t < LUT_TEXELS
        invariant
            t <= LUT_TEXELS,
            atlas@.len() == ATLAS_BYTES,
            linear@.len() == 256,
            r@ == lut_bytes(atlas@, linear@, one, t as nat),
        decreases LUT_TEXELS - t,
    {
        let b: usize = t / 4096;
        let g: usize = (t / 64) % 64;
        let c: usize = t % 64;
        let at: usize = (((b / 8) * 64 + g) * 512 + (b % 8) * 64 + c) * 4;
        let ghost before = r@;
        push_le16(&mut r, linear[atlas[at] as usize]);
        push_le16(&mut r, linear[atlas[at + 1] as usize]);
        push_le16(&mut r, linear[atlas[at + 2] as usize]);
        push_le16(&mut r, one);
        proof {
            assert(r@ =~= before + texel_bytes(atlas@, linear@, one, at as int));
        }
        t = t + 1;
    }
    r
}

/// Where the picture is found.
#[derive(Clone, Copy, Debug, PartialEq, Eq, Structural)]
pub enum LutPlace {
    Env,
    Pack,
    PackShared,
    Shared,
}

/// Where the picture is taken from: the first place that has it; nowhere where the grade is switched
/// off. Each argument says whether the file is at a place, and is none where the place is not known.
pub fn find_grade_lut(
    grade: &Option<String>,
    env: Option<bool>,
    pack: Option<bool>,
    pack_shared: Option<bool>,
    shared: bool,
) -> (r: Option<LutPlace>)
    ensures
        r == (if says(*grade, "0"@) {
            None
        } else if env == Some(true) {
            Some(LutPlace::Env)
        } else if pack == Some(true) {
            Some(LutPlace::Pack)
        } else if pack_shared == Some(true) {
            Some(LutPlace::PackShared)
        } else if shared {
            Some(LutPlace::Shared)
        } else {
            None
        }),
{
    if is_set_to(grade, "0") {
        return None;
    }
    if let Some(true) = env {
        return Some(LutPlace::Env);
    }
    if let Some(true) = pack {
        return Some(LutPlace::Pack);
    }
    if let Some(true) = pack_shared {
        return Some(LutPlace::PackShared);
    }
    if shared {
        return Some(LutPlace::Shared);
    }
    None
}

/// The colour grade of a picture; none where it has not the right size. `exposure` is the number that
/// the environment gives, and `vignette` what it says of the vignette.
pub fn load_grade_lut(
    atlas: &Vec<u8>,
    linear: &Vec<u16>,
    one: u16,
    exposure: Option<F32>,
    vignette: &Option<String>,
) -> (r: Option<GradeLutCpu>)
    requires
        linear@.len() == 256,
    ensures
        match r {
            Some(g) => {
                &&& atlas@.len() == ATLAS_BYTES
                &&& g.texels@ == lut_bytes(atlas@, linear@, one, LUT_TEXELS as nat)
                &&& g.exposure == number_or(exposure, DEFAULT_GRADE_EXPOSURE)
                &&& g.vignette == (if says(*vignette, "0"@) {
                    float(0)
                } else {
                    float(VIGNETTE)
                })
            },
            None => atlas@.len() != ATLAS_BYTES,
        },
{
    if atlas.len() != ATLAS_BYTES {
        return None;
    }
    let texels = repack(atlas, linear, one);
    Some(
        GradeLutCpu {
            texels,
            exposure: match exposure {
                Some(e) => e,
                None => F32 { bits: DEFAULT_GRADE_EXPOSURE },
            },
            vignette: if is_set_to(vignette, "0") {
                F32 { bits: 0 }
            } else {
                F32 { bits: VIGNETTE }
            },
        },
    )
}

/// The words of the pass's parameters: exposure and sharpening, the shape of the vignette (1.15, 0.95,
/// 0.55 and 1.25), and its strength.
pub open spec fn grade_words(exposure: F32, sharpen: F32, strength: F32) -> Seq<u32> {
    seq![
        exposure.bits,
        sharpen.bits,
        0,
        0,
        0x3f93_3333,
        0x3f73_3333,
        0x3f0c_cccd,
        0x3fa0_0000,
        strength.bits,
        0,
        0,
        0,
    ]
}

fn parameter_words(exposure: F32, sharpen: F32, strength: F32) -> (r: Vec<u32>)
    ensures
        r@ == grade_words(exposure, sharpen, strength),
{
    let mut r: Vec<u32> = Vec::new();
    r.push(exposure.bits);
    r.push(sharpen.bits);
    r.push(0);
    r.push(0);
    r.push(0x3f93_3333);
    r.push(0x3f73_3333);
    r.push(0x3f0c_cccd);
    r.push(0x3fa0_0000);
    r.push(strength.bits);
    r.push(0);
    r.push(0);
    r.push(0);
    proof {
        assert(r@ =~= grade_words(exposure, sharpen, strength));
    }
    r
}

impl GradeLutCpu {
    /// The words of the pass's parameters when it is set up: the grade's own exposure and vignette,
    /// without sharpening.
    pub fn first_params(&self) -> (r: Vec<u32>)
        ensures
            r@ == grade_words(self.exposure, float(0), self.vignette),
    {
        parameter_words(self.exposure, F32 { bits: 0 }, self.vignette)
    }
}

/// The words of the pass's parameters as the settings have them.
pub fn grade_params(s: &GfxSettings) -> (r: Vec<u32>)
    ensures
        r@ == grade_words(
            s.grade_exposure,
            s.sharpen,
            if s.vignette {
                float(VIGNETTE)
            } else {
                float(0)
            },
        ),
{
    let strength = F32 {
        bits: if s.vignette {
            VIGNETTE
        } else {
            0
        },
    };
    parameter_words(s.grade_exposure, s.sharpen, strength)
}

/// Whether the pass is set up in this frame: once, when the grade has arrived.
pub fn grade_setup_due(exists: bool, lut: bool) -> (r: bool)
    ensures
        r == (!exists && lut),
{
    !exists && lut
}

/// Whether the pass runs: it exists and is compiled, the view has a wide range of brightness, and
/// neither the switch nor the lack of a grade for the current pack speaks against it.
pub fn grade_runs(pipeline: bool, settings: Option<&GfxSettings>, compiled: bool, hdr: bool) -> (r: bool)
    ensures
        r == (pipeline && (settings is Some ==> settings->0.grade && settings->0.grade_available) && compiled
            && hdr),
{
    if !pipeline {
        return false;
    }
    if let Some(s) = settings {
        if !s.grade || !s.grade_available {
            return false;
        }
    }
    compiled && hdr
}

/// The place in the picture tells the entry.
proof fn atlas_parts(r: int, g: int, b: int)
    requires
        0 <= r < 64,
        0 <= g < 64,
        0 <= b < 64,
    ensures
        ({
            let p = atlas_at(r, g, b) / 4;
            &&& 0 <= atlas_at(r, g, b) <= ATLAS_BYTES - 4
            &&& atlas_at(r, g, b) % 4 == 0
            &&& r == (p % 512) % 64
            &&& g == (p / 512) % 64
            &&& b == ((p / 512) / 64) * 8 + (p % 512) / 64
        }),
{
    let row = (b / 8) * 64 + g;
    let col = (b % 8) * 64 + r;
    let p = row * 512 + col;
    assert(0 <= b / 8 < 8);
    assert(0 <= b % 8 < 8);
    lemma_fundamental_div_mod_converse(atlas_at(r, g, b), 4, p, 0);
    lemma_fundamental_div_mod_converse(p, 512, row, col);
    lemma_fundamental_div_mod_converse(row, 64, b / 8, g);
    lemma_fundamental_div_mod_converse(col, 64, b % 8, r);
}

/// Every entry of the table has a pixel of its own in the picture.
pub proof fn repacking_is_a_rearrangement(r: int, g: int, b: int, r2: int, g2: int, b2: int)
    requires
        0 <= r < 64,
        0 <= g < 64,
        0 <= b < 64,
        0 <= r2 < 64,
        0 <= g2 < 64,
        0 <= b2 < 64,
    ensures
        0 <= atlas_at(r, g, b) <= ATLAS_BYTES - 4,
        atlas_at(r, g, b) % 4 == 0,
        atlas_at(r, g, b) == atlas_at(r2, g2, b2) ==> r == r2 && g == g2 && b == b2,
{
    atlas_parts(r, g, b);
    atlas_parts(r2, g2, b2);
}

} // verus!
