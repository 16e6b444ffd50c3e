//! What becomes of a texture file: a block-compressed payload from the cache, a freshly compressed
//! one, or an uncompressed chain; a file that cannot be read becomes a one-texel placeholder, so
//! that the indices of all other textures stay as they are.
use crate::text::{same, trim, trimmed};
use crate::texture::cache::{parsed_entry, texcache_decode, texcache_encode, TexEntryModel};
use crate::texture::chain::{
    bc3_chain, bc3_compress_chain, bc5_chain, bc5_compress_chain, bc5_len_is_payload_len, build_mip_chain,
    chain_len, full_chain, has_mips, half, mip_levels_bound, payload_len, payload_len_bound,
};
use vstd::prelude::*;

verus! {

/// A texture on its way to the GPU.
pub enum TexCpu {
    /// Colour, block-compressed.
    Bc3 { w: u32, h: u32, mips: u32, payload: Vec<u8> },
    /// A tangent-space normal map, block-compressed to its two first channels.
    Bc5 { w: u32, h: u32, mips: u32, payload: Vec<u8> },
    /// An uncompressed chain.
    Raw { w: u32, h: u32, mips: u32, chain: Vec<u8> },
}

/// What a texture on its way to the GPU holds.
pub enum TexModel {
    Bc3 { w: u32, h: u32, mips: u32, payload: Seq<u8> },
    Bc5 { w: u32, h: u32, mips: u32, payload: Seq<u8> },
    Raw { w: u32, h: u32, mips: u32, chain: Seq<u8> },
}

impl View for TexCpu {
    type V = TexModel;

    open spec fn view(&self) -> TexModel {
        match *self {
            TexCpu::Bc3 { w, h, mips, payload } => TexModel::Bc3 {
                w,
                h,
                mips,
                payload: payload@,
            },
            TexCpu::Bc5 { w, h, mips, payload } => TexModel::Bc5 {
                w,
                h,
                mips,
                payload: payload@,
            },
            TexCpu::Raw { w, h, mips, chain } => TexModel::Raw { w, h, mips, chain: chain@ },
        }
    }
}

/// A decoded RGBA8 image.
pub struct TexImage {
    pub w: u32,
    pub h: u32,
    pub rgba: Vec<u8>,
}

impl TexImage {
    /// Four bytes for each texel.
    pub open spec fn wf(self) -> bool {
        self.rgba@.len() == 4 * (self.w * self.h)
    }
}

/// The RGBA8 image in the bytes of an image file, as width, height and texels: what
/// `image::load_from_memory` decodes, converted with `to_rgba8`.
pub uninterp spec fn decoded_image(bytes: Seq<u8>) -> Option<(u32, u32, Seq<u8>)>;

/// `image::load_from_memory` and the conversion of its result with `to_rgba8`: the decoded image is
/// named by `decoded_image`, `None` stands for any decoding error, and an image always comes with
/// four bytes for each texel. That the result depends on the bytes alone holds of the decoders that
/// the `image` crate brings: a decoding hook that a process registers (`image::hooks`) would decode
/// in their place, and neither this library nor the program around it registers one.
#[verifier::external_body]
fn decode_rgba8(bytes: &[u8]) -> (r: Option<TexImage>)
    ensures
        match r {
            Some(i) => i.wf() && decoded_image(bytes@) == Some((i.w, i.h, i.rgba@)),
            None => decoded_image(bytes@) is None,
        },
{
    let img = image::load_from_memory(bytes).ok()?.to_rgba8();
    Some(TexImage { w: img.width(), h: img.height(), rgba: img.into_raw() })
}

/// At least one texel.
pub open spec fn at_least_one(n: u32) -> u32 {
    if n == 0 {
        1
    } else {
        n
    }
}

/// An image as an uncompressed chain.
pub open spec fn raw_texture(w: u32, h: u32, rgba: Seq<u8>) -> TexModel {
    let (mips, chain) = full_chain(at_least_one(w), at_least_one(h), rgba);
    TexModel::Raw { w: at_least_one(w), h: at_least_one(h), mips, chain }
}

/// Whether an image is large enough to be worth compressing.
pub open spec fn compressible(bc: bool, w: u32, h: u32) -> bool {
    bc && w >= 64 && h >= 64
}

/// What becomes of a decoded image.
pub open spec fn image_texture(
    img: Option<(u32, u32, Seq<u8>)>,
    bc: bool,
    is_normal: bool,
    placeholder: Seq<u8>,
) -> TexModel {
    match img {
        None => raw_texture(1, 1, placeholder),
        Some((w, h, rgba)) => if compressible(bc, w, h) {
            let (mips, chain) = full_chain(w, h, rgba);
            if is_normal {
                TexModel::Bc5 {
                    w,
                    h,
                    mips,
                    payload: bc5_chain(chain, w as int, h as int, mips as nat),
                }
            } else {
                TexModel::Bc3 {
                    w,
                    h,
                    mips,
                    payload: bc3_chain(chain, w as int, h as int, mips as nat),
                }
            }
        } else {
            raw_texture(w, h, rgba)
        },
    }
}

/// The cache file that a freshly prepared texture leaves behind: one for every compressed texture.
pub open spec fn cache_file_of(t: TexModel) -> Option<Seq<u8>> {
    match t {
        TexModel::Bc3 { w, h, mips, payload } => Some(
            (TexEntryModel { w, h, mips, payload }).file(),
        ),
        TexModel::Bc5 { w, h, mips, payload } => Some(
            (TexEntryModel { w, h, mips, payload }).file(),
        ),
        TexModel::Raw { .. } => None,
    }
}

/// A cache entry as a texture.
pub open spec fn entry_texture(e: TexEntryModel, is_normal: bool) -> TexModel {
    if is_normal {
        TexModel::Bc5 { w: e.w, h: e.h, mips: e.mips, payload: e.payload }
    } else {
        TexModel::Bc3 { w: e.w, h: e.h, mips: e.mips, payload: e.payload }
    }
}

/// Whether a compressed texture holds exactly the bytes that its size and its levels call for.
pub open spec fn payload_is_complete(t: TexModel) -> bool {
    match t {
        TexModel::Bc3 { w, h, mips, payload } => payload.len() == payload_len(
            w as int,
            h as int,
            mips as nat,
        ),
        TexModel::Bc5 { w, h, mips, payload } => payload.len() == payload_len(
            w as int,
            h as int,
            mips as nat,
        ),
        TexModel::Raw { .. } => true,
    }
}

/// A prepared texture and the cache file to write for it, if any.
pub struct Prepared {
    pub tex: TexCpu,
    pub store: Option<Vec<u8>>,
}

/// The bytes of an optional file.
pub open spec fn opt_bytes(v: Option<Vec<u8>>) -> Option<Seq<u8>> {
    match v {
        Some(b) => Some(b@),
        None => None,
    }
}

fn raw(w: u32, h: u32, rgba: &[u8]) -> (t: TexCpu)
    ensures
        t@ == raw_texture(w, h, rgba@),
{
    let w1: u32 = if w == 0 {
        1
    } else {
        w
    };
    let h1: u32 = if h == 0 {
        1
    } else {
        h
    };
    let (mips, chain) = build_mip_chain(w1, h1, rgba);
    TexCpu::Raw { w: w1, h: h1, mips, chain }
}

/// The compressed form of an image of at least 64 x 64 texels is no longer than the image.
proof fn compressed_fits(w: u32, h: u32, n: nat)
    requires
        w >= 64,
        h >= 64,
        n <= 32,
    ensures
        payload_len(w as int, h as int, n) <= 4 * (w * h),
{
    payload_len_bound(w as int, h as int, n);
    assert(8 * w + 8 * h + 1024 <= w * h) by (nonlinear_arith)
        requires
            w >= 64,
            h >= 64,
    ;
}

/// What becomes of a decoded image: compressed where compression is on and both sides have at least
/// 64 texels, else uncompressed; no image becomes the placeholder texel.
pub fn prepare_image(
    img: Option<TexImage>,
    bc: bool,
    is_normal: bool,
    placeholder: [u8; 4],
) -> (r: Prepared)
    requires
        img matches Some(i) ==> i.wf(),
    ensures
        r.tex@ == image_texture(
            match img {
                Some(i) => Some((i.w, i.h, i.rgba@)),
                None => None,
            },
            bc,
            is_normal,
            placeholder@,
        ),
        opt_bytes(r.store) == cache_file_of(r.tex@),
        payload_is_complete(r.tex@),
{
    match img {
        None => Prepared { tex: raw(1, 1, &placeholder), store: None },
        Some(i) => {
            if bc && i.w >= 64 && i.h >= 64 {
                let (mips, chain) = build_mip_chain(i.w, i.h, &i.rgba);
                proof {
                    mip_levels_bound(i.w, i.h);
                    compressed_fits(i.w, i.h, mips as nat);
                    if !has_mips(i.w, i.h, i.rgba@.len()) {
                        assert(chain_len(half(i.w as int), half(i.h as int), 0) == 0);
                    }
                }
                assert(i.rgba@.len() == i.rgba.len());
                if is_normal {
                    let payload = bc5_compress_chain(i.w, i.h, mips, &chain);
                    proof {
                        bc5_len_is_payload_len(chain@, i.w as int, i.h as int, mips as nat);
                    }
                    let file = texcache_encode(i.w, i.h, mips, &payload);
                    Prepared {
                        tex: TexCpu::Bc5 { w: i.w, h: i.h, mips, payload },
                        store: Some(file),
                    }
                } else {
                    let payload = bc3_compress_chain(i.w, i.h, mips, &chain);
                    let file = texcache_encode(i.w, i.h, mips, &payload);
                    Prepared {
                        tex: TexCpu::Bc3 { w: i.w, h: i.h, mips, payload },
                        store: Some(file),
                    }
                }
            } else {
                Prepared { tex: raw(i.w, i.h, &i.rgba), store: None }
            }
        },
    }
}

/// What becomes of a texture file, given the file's bytes and those of the cache file of its hash,
/// each where it could be read. With compression on, a sound cache file stands for the texture and
/// the texture file is not decoded.
pub fn prepare_tex_cpu(
    file: Option<Vec<u8>>,
    cached: Option<Vec<u8>>,
    bc: bool,
    is_normal: bool,
    placeholder: [u8; 4],
) -> (r: Prepared)
    ensures
        match file {
            None => r.tex@ == raw_texture(1, 1, placeholder@) && r.store is None,
            Some(b) => if bc && (cached matches Some(c) && parsed_entry(c@) is Some) {
                r.tex@ == entry_texture(parsed_entry(cached->0@)->0, is_normal) && r.store is None
            } else {
                r.tex@ == image_texture(decoded_image(b@), bc, is_normal, placeholder@)
                    && opt_bytes(r.store) == cache_file_of(r.tex@)
            },
        },
{
    match file {
        None => Prepared { tex: raw(1, 1, &placeholder), store: None },
        Some(b) => {
            if bc {
                if let Some(c) = cached {
                    if let Some(e) = texcache_decode(&c) {
                        let tex = if is_normal {
                            TexCpu::Bc5 { w: e.w, h: e.h, mips: e.mips, payload: e.payload }
                        } else {
                            TexCpu::Bc3 { w: e.w, h: e.h, mips: e.mips, payload: e.payload }
                        };
                        return Prepared { tex, store: None };
                    }
                }
            }
            prepare_image(decode_rgba8(&b), bc, is_normal, placeholder)
        },
    }
}

/// What becomes of a data map (blend weights, which compression would warp): always uncompressed, an
/// opaque black texel where there is no image.
pub fn prepare_data_tex(img: Option<TexImage>) -> (t: TexCpu)
    ensures
        t@ == match img {
            Some(i) => raw_texture(i.w, i.h, i.rgba@),
            None => raw_texture(1, 1, seq![0u8, 0, 0, 255]),
        },
{
    match img {
        Some(i) => raw(i.w, i.h, &i.rgba),
        None => {
            let black: [u8; 4] = [0, 0, 0, 255];
            proof {
                assert(black@ =~= seq![0u8, 0, 0, 255]);
            }
            raw(1, 1, &black)
        },
    }
}

/// The cache extension of a texture: normal maps and colour never share an entry.
pub fn cache_ext(is_normal: bool) -> (r: &'static str)
    ensures
        r@ == if is_normal {
            "bc5c"@
        } else {
            "bc3c"@
        },
{
    if is_normal {
        "bc5c"
    } else {
        "bc3c"
    }
}

/// The pixel formats that textures are uploaded in.
#[derive(Clone, Copy, Debug, PartialEq, Eq, Structural)]
pub enum TexFormat {
    Bc3Srgb,
    Bc3Linear,
    Bc5Linear,
    Rgba8Srgb,
    Rgba8Linear,
}

/// The format that a texture is uploaded in: colour by the caller's choice, normals always linear.
pub fn upload_format(tex: &TexCpu, srgb: bool) -> (f: TexFormat)
    ensures
        f == match tex@ {
            TexModel::Bc3 { .. } => if srgb {
                TexFormat::Bc3Srgb
            } else {
                TexFormat::Bc3Linear
            },
            TexModel::Bc5 { .. } => TexFormat::Bc5Linear,
            TexModel::Raw { .. } => if srgb {
                TexFormat::Rgba8Srgb
            } else {
                TexFormat::Rgba8Linear
            },
        },
{
    match tex {
        TexCpu::Bc3 { .. } => if srgb {
            TexFormat::Bc3Srgb
        } else {
            TexFormat::Bc3Linear
        },
        TexCpu::Bc5 { .. } => TexFormat::Bc5Linear,
        TexCpu::Raw { .. } => if srgb {
            TexFormat::Rgba8Srgb
        } else {
            TexFormat::Rgba8Linear
        },
    }
}

/// Whether block compression is on: the device has it, and the setting is not "0".
pub fn bc_enabled(setting: Option<&str>, device_has_bc: bool) -> (r: bool)
    ensures
        r == (device_has_bc && !(setting matches Some(s) && trimmed(s@) == "0"@)),
{
    let off = match setting {
        Some(s) => same(trim(s).as_str(), "0"),
        None => false,
    };
    !off && device_has_bc
}

/// Whether a texture of the given size is compressed.
pub fn bc_wanted(setting: Option<&str>, device_has_bc: bool, width: u32, height: u32) -> (r: bool)
    ensures
        r == (device_has_bc && !(setting matches Some(s) && trimmed(s@) == "0"@) && width >= 64
            && height >= 64),
{
    bc_enabled(setting, device_has_bc) && width >= 64 && height >= 64
}

/// The alpha value of the `i`-th sampled texel: every 101st is looked at.
pub open spec fn sampled_alpha(rgba: Seq<u8>, i: int) -> u8 {
    rgba[404 * i + 3]
}

/// Whether the alpha channel of a puddle texture is close to constant, so that its shape must be in
/// the colour: no two sampled alpha values are 13 or more apart.
pub fn puddle_alpha_is_constant(rgba: &[u8]) -> (r: bool)
    requires
        rgba@.len() >= 4,
        rgba@.len() % 4 == 0,
    ensures
        r == (forall|i: int, j: int|
            0 <= i && 404 * i + 3 < rgba@.len() && 0 <= j && 404 * j + 3 < rgba@.len()
                ==> #[trigger] sampled_alpha(rgba@, i) - #[trigger] sampled_alpha(rgba@, j) < 13),
{
    let mut lo: u8 = rgba[3];
    let mut hi: u8 = rgba[3];
    let size: usize = rgba.len();
    let n: usize = (size - 4) / 404 + 1;
    let mut i: usize = 1;
    let ghost mut at_lo: int = 0;
    let ghost mut at_hi: int = 0;
    assert(sampled_alpha(rgba@, 0) == rgba@[3]);
    while i < n
        invariant
            1 <= i <= n,
            4 <= rgba@.len() == size,
            n == (rgba@.len() - 4) / 404 + 1,
            0 <= at_lo < i,
            0 <= at_hi < i,
            sampled_alpha(rgba@, at_lo) == lo,
            sampled_alpha(rgba@, at_hi) == hi,
            forall|k: int| 0 <= k < i ==> lo <= #[trigger] sampled_alpha(rgba@, k) <= hi,
        decreases n - i,
    {
        let a: u8 = rgba[404 * i + 3];
        assert(sampled_alpha(rgba@, i as int) == a);
        if a < lo {
            lo = a;
            proof {
                at_lo = i as int;
            }
        }
        if a > hi {
            hi = a;
            proof {
                at_hi = i as int;
            }
        }
        i = i + 1;
    }
    let r = hi - lo < 13;
    proof {
        if !r {
            assert(sampled_alpha(rgba@, at_hi) - sampled_alpha(rgba@, at_lo) >= 13);
            assert(404 * at_hi + 3 < rgba@.len());
            assert(404 * at_lo + 3 < rgba@.len());
        }
    }
    r
}

/// What is kept in the cache is what is shown the next time: the entry written for a complete
/// compressed texture reads back as that very texture, if its sides are at most 16384 texels and its
/// levels at most 16.
pub proof fn cached_texture_comes_back(t: TexModel)
    requires
        payload_is_complete(t),
        match t {
            TexModel::Bc3 { w, h, mips, payload } => 1 <= w <= 16384 && 1 <= h <= 16384 && 1 <= mips
                <= 16,
            TexModel::Bc5 { w, h, mips, payload } => 1 <= w <= 16384 && 1 <= h <= 16384 && 1 <= mips
                <= 16,
            TexModel::Raw { .. } => false,
        },
    ensures
        cache_file_of(t) matches Some(f) && parsed_entry(f) matches Some(e) && entry_texture(
            e,
            t is Bc5,
        ) == t,
{
    match t {
        TexModel::Bc3 { w, h, mips, payload } => {
            crate::texture::cache::cache_round_trip(TexEntryModel { w, h, mips, payload });
        },
        TexModel::Bc5 { w, h, mips, payload } => {
            crate::texture::cache::cache_round_trip(TexEntryModel { w, h, mips, payload });
        },
        TexModel::Raw { .. } => {},
    }
}

} // verus!
