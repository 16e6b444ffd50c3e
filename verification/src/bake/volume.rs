//! The baked volume and the bytes of its files.
use vstd::prelude::*;
use crate::bake::half::{f16_bits, half_fits, half_of};
use crate::bytes::{half_at, half_round_trip, le16, push_le16};
use crate::f32bits::F32;
use crate::gpu::materials::V3;
use crate::gpu::sh_volume::{channel_texture, probe_texel, volume_usable, VolumeMeta};

verus! {

/// The light at a probe: four coefficients, each with red, green and blue.
#[derive(Clone, Copy, Debug, PartialEq, Eq, Structural)]
pub struct ProbeSh {
    pub c0: V3,
    pub c1: V3,
    pub c2: V3,
    pub c3: V3,
}

/// The twelve values of a probe in the order of the file.
pub open spec fn probe_values(p: ProbeSh) -> Seq<F32> {
    seq![
        p.c0.x,
        p.c0.y,
        p.c0.z,
        p.c1.x,
        p.c1.y,
        p.c1.z,
        p.c2.x,
        p.c2.y,
        p.c2.z,
        p.c3.x,
        p.c3.y,
        p.c3.z,
    ]
}

/// The bytes of a half float.
pub open spec fn half_bytes(x: F32) -> Seq<u8> {
    le16(half_of(x) as u16)
}

/// The bytes of the first `n` values of a probe.
pub open spec fn value_bytes(v: Seq<F32>, n: nat) -> Seq<u8>
    decreases n,
{
    if n == 0 {
        seq![]
    } else {
        value_bytes(v, (n - 1) as nat) + half_bytes(v[n - 1])
    }
}

/// The bytes of a probe.
pub open spec fn probe_bytes(p: ProbeSh) -> Seq<u8> {
    value_bytes(probe_values(p), 12)
}

/// The bytes of the first `n` probes.
pub open spec fn volume_bytes(probes: Seq<ProbeSh>, n: nat) -> Seq<u8>
    decreases n,
{
    if n == 0 {
        seq![]
    } else {
        volume_bytes(probes, (n - 1) as nat) + probe_bytes(probes[n - 1])
    }
}

fn push_half(out: &mut Vec<u8>, x: F32)
    ensures
        final(out)@ == old(out)@ + half_bytes(x),
{
    proof {
        half_fits(x);
    }
    push_le16(out, f16_bits(x));
}

fn push_probe(out: &mut Vec<u8>, p: ProbeSh)
    ensures
        final(out)@ == old(out)@ + probe_bytes(p),
{
    let ghost before = out@;
    let v: [F32; 12] = [
        p.c0.x,
        p.c0.y,
        p.c0.z,
        p.c1.x,
        p.c1.y,
        p.c1.z,
        p.c2.x,
        p.c2.y,
        p.c2.z,
        p.c3.x,
        p.c3.y,
        p.c3.z,
    ];
    let mut i: usize = 0;
    proof {
        assert(v@ =~= probe_values(p));
        assert(before + value_bytes(v@, 0) =~= before);
    }
    while i < 12
        invariant
            i <= 12,
            v@.len() == 12,
            out@ == before + value_bytes(v@, i as nat),
        decreases 12 - i,
    {
        push_half(out, v[i]);
        proof {
            assert(out@ =~= before + value_bytes(v@, (i + 1) as nat));
        }
        i = i + 1;
    }
}

/// The bytes of the volume's file: for each probe its coefficients as half floats, low byte first.
pub fn encode_volume(probes: &Vec<ProbeSh>) -> (r: Vec<u8>)
    ensures
        r@ == volume_bytes(probes@, probes@.len()),
{
    let mut r: Vec<u8> = Vec::new();
    let n: usize = probes.len();
    let mut i: usize = 0;
    proof {
        assert(r@ =~= volume_bytes(probes@, 0));
    }
    while i < n
        invariant
            i <= n,
            n == probes@.len(),
            r@ == volume_bytes(probes@, i as nat),
        decreases n - i,
    {
        push_probe(&mut r, probes[i]);
        i = i + 1;
    }
    r
}

/// The baked volume.
#[derive(Debug)]
pub struct Baked {
    pub min: V3,
    pub max: V3,
    pub nx: u32,
    pub ny: u32,
    pub nz: u32,
    pub spacing: V3,
    pub sun_dir: V3,
    pub probes: Vec<ProbeSh>,
    /// For each probe how open it lies.
    pub validity: Vec<u8>,
    /// How many bounces are in it.
    pub bounces: u32,
    /// Whether direct light is in it.
    pub direct: bool,
}

/// The bits of 0.449, 0.799 and -0.4: where the sun is taken to stand.
pub fn pack_sun_dir() -> (r: V3)
    ensures
        r == (V3 {
            x: F32 { bits: 0x3ee5_e354 },
            y: F32 { bits: 0x3f4c_8b44 },
            z: F32 { bits: 0xbecc_cccd },
        }),
{
    V3 { x: F32 { bits: 0x3ee5_e354 }, y: F32 { bits: 0x3f4c_8b44 }, z: F32 { bits: 0xbecc_cccd } }
}

impl Baked {
    /// There is a probe, and a validity, for each cell of the grid.
    pub open spec fn valid(self) -> bool {
        &&& self.probes@.len() == self.nx * self.ny * self.nz
        &&& self.validity@.len() == self.probes@.len()
    }

    /// What the description of the volume says of it.
    pub fn meta(&self) -> (r: VolumeMeta)
        ensures
            r == (VolumeMeta {
                min: self.min,
                max: self.max,
                nx: self.nx,
                ny: self.ny,
                nz: self.nz,
                spacing: Some(self.spacing),
                coeffs: 4,
                channels: 3,
                gi_intensity: None,
            }),
    {
        VolumeMeta {
            min: self.min,
            max: self.max,
            nx: self.nx,
            ny: self.ny,
            nz: self.nz,
            spacing: Some(self.spacing),
            coeffs: 4,
            channels: 3,
            gi_intensity: None,
        }
    }
}

/// A probe takes twenty-four bytes.
pub proof fn probe_bytes_len(p: ProbeSh)
    ensures
        probe_bytes(p).len() == 24,
        forall|k: int|
            0 <= k < 12 ==> #[trigger] probe_bytes(p)[2 * k] == half_bytes(probe_values(p)[k])[0]
                && probe_bytes(p)[2 * k + 1] == half_bytes(probe_values(p)[k])[1],
{
    value_bytes_len(probe_values(p), 12);
}

/// Every value takes two bytes, and they stand in the order of the values.
proof fn value_bytes_len(v: Seq<F32>, n: nat)
    requires
        n <= v.len(),
    ensures
        value_bytes(v, n).len() == 2 * n,
        forall|k: int|
            0 <= k < n ==> #[trigger] value_bytes(v, n)[2 * k] == half_bytes(v[k])[0] && value_bytes(
                v,
                n,
            )[2 * k + 1] == half_bytes(v[k])[1],
    decreases n,
{
    if n > 0 {
        value_bytes_len(v, (n - 1) as nat);
        let rest = value_bytes(v, (n - 1) as nat);
        assert forall|k: int| 0 <= k < n implies #[trigger] value_bytes(v, n)[2 * k] == half_bytes(v[k])[0]
            && value_bytes(v, n)[2 * k + 1] == half_bytes(v[k])[1] by {
            if k < n - 1 {
                assert(value_bytes(v, n)[2 * k] == rest[2 * k]);
                assert(value_bytes(v, n)[2 * k + 1] == rest[2 * k + 1]);
            }
        }
    }
}

/// The bytes of probe `p` stand at their place.
pub proof fn volume_bytes_at(probes: Seq<ProbeSh>, n: nat, p: int)
    requires
        n <= probes.len(),
    ensures
        volume_bytes(probes, n).len() == 24 * n,
        0 <= p < n ==> volume_bytes(probes, n).subrange(24 * p, 24 * p + 24) == probe_bytes(probes[p]),
    decreases n,
{
    if n > 0 {
        volume_bytes_at(probes, (n - 1) as nat, p);
        probe_bytes_len(probes[n - 1]);
        let rest = volume_bytes(probes, (n - 1) as nat);
        let all = volume_bytes(probes, n);
        if 0 <= p < n - 1 {
            assert(all.subrange(24 * p, 24 * p + 24) =~= rest.subrange(24 * p, 24 * p + 24));
        } else if p == n - 1 {
            assert(all.subrange(24 * p, 24 * p + 24) =~= probe_bytes(probes[p]));
        }
    }
}

/// Coefficient `k` of channel `c` of a probe.
pub open spec fn channel_value(p: ProbeSh, c: int, k: int) -> F32 {
    probe_values(p)[3 * k + c]
}

/// What the baker writes the viewer can use, and in the texture of each channel stands, for each
/// probe, the half float of each of its coefficients.
pub proof fn baked_volume_is_read_back(b: Baked, c: int, p: int, k: int)
    requires
        b.valid(),
        b.probes@.len() > 0,
        0 <= c < 3,
        0 <= p < b.probes@.len(),
        0 <= k < 4,
    ensures
        ({
            let bin = volume_bytes(b.probes@, b.probes@.len());
            let meta = VolumeMeta {
                min: b.min,
                max: b.max,
                nx: b.nx,
                ny: b.ny,
                nz: b.nz,
                spacing: Some(b.spacing),
                coeffs: 4,
                channels: 3,
                gi_intensity: None,
            };
            &&& volume_usable(meta, bin)
            &&& channel_texture(bin, c, b.probes@.len()).len() == 8 * b.probes@.len()
            &&& half_at(channel_texture(bin, c, b.probes@.len()), 8 * p + 2 * k) == half_of(
                channel_value(b.probes@[p], c, k),
            )
        }),
{
    let n = b.probes@.len();
    let bin = volume_bytes(b.probes@, n);
    volume_bytes_at(b.probes@, n, p);
    probe_bytes_len(b.probes@[p]);
    texture_at(bin, c, n, p);
    let t = channel_texture(bin, c, n);
    let texel = probe_texel(bin, c, p);
    let bytes = probe_bytes(b.probes@[p]);
    let sub = bin.subrange(24 * p, 24 * p + 24);
    let o = p * 24 + c * 2;
    let x = channel_value(b.probes@[p], c, k);
    assert(sub == bytes);
    assert(bin[o + 6 * k] == sub[2 * (3 * k + c)]);
    assert(bin[o + 6 * k + 1] == sub[2 * (3 * k + c) + 1]);
    assert(texel[2 * k] == bin[o + 6 * k] && texel[2 * k + 1] == bin[o + 6 * k + 1]);
    let cut = t.subrange(8 * p, 8 * p + 8);
    assert(cut == texel);
    assert(t[8 * p + 2 * k] == cut[2 * k]);
    assert(t[8 * p + 2 * k + 1] == cut[2 * k + 1]);
    half_fits(x);
    assert(t.subrange(8 * p + 2 * k, 8 * p + 2 * k + 2) =~= half_bytes(x));
    half_round_trip(t, 8 * p + 2 * k, half_of(x) as u16);
}

/// The texels of a channel stand one after the other.
proof fn texture_at(bin: Seq<u8>, c: int, n: nat, p: int)
    ensures
        channel_texture(bin, c, n).len() == 8 * n,
        0 <= p < n ==> channel_texture(bin, c, n).subrange(8 * p, 8 * p + 8) == probe_texel(bin, c, p),
    decreases n,
{
    if n > 0 {
        texture_at(bin, c, (n - 1) as nat, p);
        let rest = channel_texture(bin, c, (n - 1) as nat);
        let all = channel_texture(bin, c, n);
        if 0 <= p < n - 1 {
            assert(all.subrange(8 * p, 8 * p + 8) =~= rest.subrange(8 * p, 8 * p + 8));
        } else if p == n - 1 {
            assert(all.subrange(8 * p, 8 * p + 8) =~= probe_texel(bin, c, p));
        }
    }
}

} // verus!
