//! The irradiance volume: probes on a grid, each with four coefficients for three colour channels,
//! rearranged into one texture for each channel.
use crate::f32bits::{float, F32, ONE};
use crate::gpu::materials::V3;
use vstd::prelude::*;

verus! {

/// The description of a volume.
pub struct VolumeMeta {
    pub min: V3,
    pub max: V3,
    pub nx: u32,
    pub ny: u32,
    pub nz: u32,
    pub spacing: Option<V3>,
    pub coeffs: u32,
    pub channels: u32,
    pub gi_intensity: Option<F32>,
}

/// A volume ready for upload.
pub struct ShVolumeCpu {
    pub nx: u32,
    pub ny: u32,
    pub nz: u32,
    pub min: V3,
    pub max: V3,
    pub spacing: V3,
    pub gi_intensity: F32,
    pub tex_r: Vec<u8>,
    pub tex_g: Vec<u8>,
    pub tex_b: Vec<u8>,
}

/// The eight bytes of probe `p` for channel `c`: its four coefficients, which stand in the file at
/// every third half float.
pub open spec fn probe_texel(bin: Seq<u8>, c: int, p: int) -> Seq<u8> {
    let o = p * 24 + c * 2;
    seq![
        bin[o],
        bin[o + 1],
        bin[o + 6],
        bin[o + 7],
        bin[o + 12],
        bin[o + 13],
        bin[o + 18],
        bin[o + 19],
    ]
}

/// The texture of channel `c` for the first `n` probes.
pub open spec fn channel_texture(bin: Seq<u8>, c: int, n: nat) -> Seq<u8>
    decreases n,
{
    if n == 0 {
        Seq::empty()
    } else {
        channel_texture(bin, c, (n - 1) as nat) + probe_texel(bin, c, n - 1)
    }
}

/// The number of probes.
pub open spec fn probe_count(m: VolumeMeta) -> int {
    m.nx * m.ny * m.nz
}

/// Whether a volume can be used: it has four coefficients for three channels, at least one probe, and
/// all its bytes are there.
pub open spec fn volume_usable(m: VolumeMeta, bin: Seq<u8>) -> bool {
    m.coeffs == 4 && m.channels == 3 && probe_count(m) > 0 && bin.len() >= 24 * probe_count(m)
}

/// A strength where it is a finite number and not negative, else `d`.
pub open spec fn strength_or(v: Option<F32>, d: F32) -> F32 {
    match v {
        Some(x) => if x.finite() && float(0).le(x) {
            x
        } else {
            d
        },
        None => d,
    }
}

/// A strength where it is a finite number and not negative, else `d`.
pub fn checked_strength(v: Option<F32>, d: F32) -> (r: F32)
    ensures
        r == strength_or(v, d),
{
    match v {
        Some(x) => if x.is_finite() && (F32 { bits: 0 }).less_or_equal(x) {
            x
        } else {
            d
        },
        None => d,
    }
}

fn channel(bin: &Vec<u8>, c: usize, n: usize) -> (r: Vec<u8>)
    requires
        c < 3,
        24 * n <= bin@.len(),
    ensures
        r@ == channel_texture(bin@, c as int, n as nat),
{
    let mut r: Vec<u8> = Vec::new();
    let len: usize = bin.len();
    let mut p: usize = 0;
    while p < n
        invariant
            p <= n,
            c < 3,
            24 * n <= bin@.len() == len,
            r@ == channel_texture(bin@, c as int, p as nat),
        decreases n - p,
    {
        let o: usize = p * 24 + c * 2;
        let ghost before = r@;
        r.push(bin[o]);
        r.push(bin[o + 1]);
        r.push(bin[o + 6]);
        r.push(bin[o + 7]);
        r.push(bin[o + 12]);
        r.push(bin[o + 13]);
        r.push(bin[o + 18]);
        r.push(bin[o + 19]);
        p = p + 1;
        proof {
            assert(r@ =~= before + probe_texel(bin@, c as int, p - 1));
        }
    }
    r
}

/// The volume of a pack, from its description and its file; `None` where it cannot be used.
/// `derived_spacing` is the probe spacing that the corners and the dimensions give, for a description
/// that does not say.
pub fn load_sh_volume(meta: &VolumeMeta, bin: &Vec<u8>, derived_spacing: V3) -> (r: Option<ShVolumeCpu>)
    ensures
        match r {
            Some(v) => {
                &&& volume_usable(*meta, bin@)
                &&& v.nx == meta.nx && v.ny == meta.ny && v.nz == meta.nz
                &&& v.min == meta.min && v.max == meta.max
                &&& v.spacing == match meta.spacing {
                    Some(s) => s,
                    None => derived_spacing,
                }
                &&& v.gi_intensity == strength_or(meta.gi_intensity, float(ONE))
                &&& v.tex_r@ == channel_texture(bin@, 0, probe_count(*meta) as nat)
                &&& v.tex_g@ == channel_texture(bin@, 1, probe_count(*meta) as nat)
                &&& v.tex_b@ == channel_texture(bin@, 2, probe_count(*meta) as nat)
            },
            None => !volume_usable(*meta, bin@),
        },
{
    if meta.coeffs != 4 || meta.channels != 3 {
        return None;
    }
    proof {
        assert(0 <= meta.nx * meta.ny <= 0xffff_ffff * 0xffff_ffff) by (nonlinear_arith)
            requires
                meta.nx <= 0xffff_ffff,
                meta.ny <= 0xffff_ffff,
        ;
        assert(0 <= meta.nx * meta.ny * meta.nz <= 0xffff_ffff * 0xffff_ffff * 0xffff_ffff)
            by (nonlinear_arith)
            requires
                0 <= meta.nx * meta.ny <= 0xffff_ffff * 0xffff_ffff,
                meta.nz <= 0xffff_ffff,
        ;
    }
    let n: u128 = meta.nx as u128 * meta.ny as u128 * meta.nz as u128;
    if n == 0 {
        return None;
    }
    if (bin.len() as u128) < n * 24 {
        return None;
    }
    let k: usize = n as usize;
    Some(
        ShVolumeCpu {
            nx: meta.nx,
            ny: meta.ny,
            nz: meta.nz,
            min: meta.min,
            max: meta.max,
            spacing: match meta.spacing {
                Some(s) => s,
                None => derived_spacing,
            },
            gi_intensity: checked_strength(meta.gi_intensity, F32 { bits: ONE }),
            tex_r: channel(bin, 0, k),
            tex_g: channel(bin, 1, k),
            tex_b: channel(bin, 2, k),
        },
    )
}

/// A texel whose first coefficient is the half float 1.0 and whose others are zero.
pub open spec fn flat_texel() -> Seq<u8> {
    seq![0u8, 0x3c, 0, 0, 0, 0, 0, 0]
}

impl ShVolumeCpu {
    /// The volume of a pack that has none: one probe with flat ambient light.
    pub fn dummy() -> (v: ShVolumeCpu)
        ensures
            v.nx == 1 && v.ny == 1 && v.nz == 1,
            v.min == (V3 { x: float(0), y: float(0), z: float(0) }),
            v.max == (V3 { x: float(ONE), y: float(ONE), z: float(ONE) }),
            v.spacing == v.max,
            v.gi_intensity == float(ONE),
            v.tex_r@ == flat_texel(),
            v.tex_g@ == flat_texel(),
            v.tex_b@ == flat_texel(),
    {
        let z = F32 { bits: 0 };
        let o = F32 { bits: ONE };
        let tex_r: Vec<u8> = vec![0, 0x3c, 0, 0, 0, 0, 0, 0];
        let tex_g: Vec<u8> = vec![0, 0x3c, 0, 0, 0, 0, 0, 0];
        let tex_b: Vec<u8> = vec![0, 0x3c, 0, 0, 0, 0, 0, 0];
        proof {
            assert(tex_r@ =~= flat_texel());
            assert(tex_g@ =~= flat_texel());
            assert(tex_b@ =~= flat_texel());
        }
        ShVolumeCpu {
            nx: 1,
            ny: 1,
            nz: 1,
            min: V3 { x: z, y: z, z },
            max: V3 { x: o, y: o, z: o },
            spacing: V3 { x: o, y: o, z: o },
            gi_intensity: o,
            tex_r,
            tex_g,
            tex_b,
        }
    }
}

proof fn texture_len(bin: Seq<u8>, c: int, n: nat)
    ensures
        channel_texture(bin, c, n).len() == 8 * n,
    decreases n,
{
    if n > 0 {
        texture_len(bin, c, (n - 1) as nat);
    }
}

/// Nothing is lost in the rearrangement: byte `b` of half float `h` of probe `p` stands in the texture
/// of channel `h % 3`, as byte `b` of coefficient `h / 3` of texel `p`.
pub proof fn rearrangement_is_lossless(bin: Seq<u8>, n: nat, p: int, h: int, b: int)
    requires
        0 <= p < n,
        0 <= h < 12,
        0 <= b < 2,
    ensures
        channel_texture(bin, h % 3, n)[p * 8 + (h / 3) * 2 + b] == bin[p * 24 + h * 2 + b],
    decreases n,
{
    texture_len(bin, h % 3, (n - 1) as nat);
    if p < n - 1 {
        rearrangement_is_lossless(bin, (n - 1) as nat, p, h, b);
    } else {
        let k = h / 3;
        assert(k == 0 || k == 1 || k == 2 || k == 3);
        assert(b == 0 || b == 1);
        let t = probe_texel(bin, h % 3, p);
        assert(t[k * 2 + b] == bin[p * 24 + h * 2 + b]);
    }
}

/// How realtime lights are chosen: always, never, or by the volume.
pub open spec fn realtime_lights(mode: Option<Seq<char>>, has_volume: bool, indirect: bool) -> bool {
    let auto = !has_volume || indirect;
    match mode {
        Some(m) => {
            let t = crate::text::ascii_lowered(crate::text::trimmed(m));
            if t == "rt"@ || t == "on"@ || t == "1"@ {
                true
            } else if t == "sh"@ || t == "off"@ || t == "0"@ {
                false
            } else {
                auto
            }
        },
        None => auto,
    }
}

/// Whether lights are walked in real time. A full bake already holds them; without a bake, or with one
/// that holds indirect light only, they are walked. The setting forces it either way.
pub fn realtime_enabled(mode: Option<&str>, has_volume: bool, direct: Option<bool>) -> (r: bool)
    ensures
        r == realtime_lights(
            match mode {
                Some(m) => Some(m@),
                None => None,
            },
            has_volume,
            direct == Some(false),
        ),
{
    let indirect = match direct {
        Some(d) => !d,
        None => false,
    };
    let auto = !has_volume || indirect;
    match mode {
        Some(m) => {
            let t = crate::text::to_ascii_lower(crate::text::trim(m).as_str());
            let t = t.as_str();
            if crate::text::same(t, "rt") || crate::text::same(t, "on") || crate::text::same(t, "1") {
                true
            } else if crate::text::same(t, "sh") || crate::text::same(t, "off")
                || crate::text::same(t, "0") {
                false
            } else {
                auto
            }
        },
        None => auto,
    }
}

} // verus!
