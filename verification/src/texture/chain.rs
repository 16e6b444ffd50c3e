//! Mip chains of RGBA8 images and their block-compressed forms.
//!
//! A chain of `n` levels holds the image, then the image at half the size, and so on; a side that has
//! come down to one texel stays there.
use crate::bytes::{append_bytes, copy_range};
use crate::texture::bc4::{bc4, bc4_block};
use vstd::prelude::*;

verus! {

/// Half of a side, never less than one texel.
pub open spec fn half(n: int) -> int {
    if n <= 1 {
        1
    } else {
        n / 2
    }
}

/// A side of mip 0: never less than one texel.
pub open spec fn side(n: u32) -> int {
    if n == 0 {
        1
    } else {
        n as int
    }
}

/// The number of binary digits of `n`.
pub open spec fn bit_length(n: int) -> nat
    decreases n,
{
    if n <= 0 {
        0
    } else {
        1 + bit_length(n / 2)
    }
}

/// How many levels take the longer side down to one texel.
pub open spec fn mip_levels(w: u32, h: u32) -> nat {
    bit_length(
        if w > h {
            w as int
        } else {
            h as int
        },
    )
}

/// How many bytes a chain of `n` RGBA8 levels takes.
pub open spec fn chain_len(w: int, h: int, n: nat) -> int
    decreases n,
{
    if n == 0 {
        0
    } else {
        4 * (w * h) + chain_len(half(w), half(h), (n - 1) as nat)
    }
}

/// How many bytes one level takes in 16-byte blocks of 4x4 texels.
pub open spec fn blocks_len(w: int, h: int) -> int {
    ((w + 3) / 4) * ((h + 3) / 4) * 16
}

/// How many bytes a chain of `n` block-compressed levels takes.
pub open spec fn payload_len(w: int, h: int, n: nat) -> int
    decreases n,
{
    if n == 0 {
        0
    } else {
        blocks_len(w, h) + payload_len(half(w), half(h), (n - 1) as nat)
    }
}

/// The longest side of an image that is made smaller. Up to here every column and row has a number of
/// its own among the 32-bit floats in which the filter places them.
pub const MAX_RESIZED_SIDE: u32 = 0x80_0000;

/// The image that `image::imageops::resize` makes of an RGBA8 image of `w` x `h` texels at the size
/// `nw` x `nh` with the triangle filter.
pub uninterp spec fn resized_image(rgba: Seq<u8>, w: u32, h: u32, nw: u32, nh: u32) -> Seq<u8>;

/// `image::imageops::resize` with `FilterType::Triangle`, from `w` x `h` texels to half of each side:
/// the result is named by `resized_image` and holds four bytes for each texel of the new size.
/// `RgbaImage::from_raw` only gives the bytes their size; it does so whenever there are enough.
///
/// The filter weighs the columns near each new one in 32-bit floats, divides by the sum of the weights
/// and panics where that sum is zero. Halving a side of at most `MAX_RESIZED_SIDE` texels rounds the
/// centre by no more than one column, so a column within reach of the filter always has a weight; on
/// longer sides it may have none.
#[verifier::external_body]
fn resize_rgba8(rgba: &Vec<u8>, w: u32, h: u32, nw: u32, nh: u32) -> (r: Vec<u8>)
    requires
        rgba@.len() == 4 * (w * h),
        w <= MAX_RESIZED_SIDE,
        h <= MAX_RESIZED_SIDE,
        nw == half(w as int),
        nh == half(h as int),
    ensures
        r@ == resized_image(rgba@, w, h, nw, nh),
        r@.len() == 4 * (nw * nh),
{
    let img = image::RgbaImage::from_raw(w, h, rgba.clone()).unwrap();
    let filter = image::imageops::FilterType::Triangle;
    image::imageops::resize(&img, nw, nh, filter).into_raw()
}

/// The levels of a chain of `n` levels that begins with the image `rgba`.
pub open spec fn mip_chain(rgba: Seq<u8>, w: int, h: int, n: nat) -> Seq<u8>
    decreases n,
{
    if n == 0 {
        Seq::empty()
    } else {
        rgba + mip_chain(
            resized_image(rgba, w as u32, h as u32, half(w) as u32, half(h) as u32),
            half(w),
            half(h),
            (n - 1) as nat,
        )
    }
}

/// Whether an image gets a chain of its own: it has more than one level, its bytes are those of an
/// RGBA8 image of the given size, their number fits in 32 bits, and no side is too long to be made
/// smaller.
pub open spec fn has_mips(w: u32, h: u32, len: nat) -> bool {
    &&& mip_levels(w, h) > 1
    &&& len == 4 * (w * h)
    &&& 4 * (w * h) <= u32::MAX
    &&& w <= MAX_RESIZED_SIDE
    &&& h <= MAX_RESIZED_SIDE
}

/// The number of levels of the chain of an image, and the bytes of the levels. An image that gets no
/// chain of its own, one with a side longer than `MAX_RESIZED_SIDE` among them, is its only level.
pub open spec fn full_chain(w: u32, h: u32, rgba: Seq<u8>) -> (u32, Seq<u8>) {
    if has_mips(w, h, rgba.len()) {
        (mip_levels(w, h) as u32, mip_chain(rgba, w as int, h as int, mip_levels(w, h)))
    } else {
        (1u32, rgba)
    }
}

/// A side of at most 32 bits has at most 32 levels.
pub proof fn bit_length_bound(n: int, k: nat)
    requires
        n < pow2(k),
    ensures
        bit_length(n) <= k,
    decreases k,
{
    if n > 0 && k > 0 {
        bit_length_bound(n / 2, (k - 1) as nat);
    }
}

/// Two to the power `k`.
pub open spec fn pow2(k: nat) -> int
    decreases k,
{
    if k == 0 {
        1
    } else {
        2 * pow2((k - 1) as nat)
    }
}

pub proof fn mip_levels_bound(w: u32, h: u32)
    ensures
        mip_levels(w, h) <= 32,
{
    assert(pow2(32) == 0x1_0000_0000) by {
        reveal_with_fuel(pow2, 33);
    }
    bit_length_bound(
        if w > h {
            w as int
        } else {
            h as int
        },
        32,
    );
}

fn count_bits(n: u32) -> (r: u32)
    ensures
        r == bit_length(n as int),
        r <= 32,
{
    let mut m: u32 = n;
    let mut r: u32 = 0;
    proof {
        mip_levels_bound(n, 0);
    }
    while m > 0
        invariant
            r + bit_length(m as int) == bit_length(n as int),
            bit_length(n as int) <= 32,
        decreases m,
    {
        m = m / 2;
        r = r + 1;
    }
    r
}

/// Half of a side.
fn half_side(n: u32) -> (r: u32)
    ensures
        r == half(n as int),
{
    if n <= 1 {
        1
    } else {
        n / 2
    }
}

/// The number of levels that an image gets and the bytes of all its levels, one after the other. An
/// image that gets no chain of its own is its only level; so is one with a side longer than
/// `MAX_RESIZED_SIDE`.
pub fn build_mip_chain(width: u32, height: u32, rgba: &[u8]) -> (r: (u32, Vec<u8>))
    ensures
        (r.0, r.1@) == full_chain(width, height, rgba@),
        has_mips(width, height, rgba@.len()) ==> r.1@.len() == chain_len(
            width as int,
            height as int,
            mip_levels(width, height),
        ),
{
    let longer: u32 = if width > height {
        width
    } else {
        height
    };
    let mips: u32 = count_bits(longer);
    proof {
        assert(0 <= width * height <= 0xffff_ffff * 0xffff_ffff) by (nonlinear_arith)
            requires
                0 <= width <= 0xffff_ffff,
                0 <= height <= 0xffff_ffff,
        ;
    }
    let texels: u64 = width as u64 * height as u64;
    let too_long = width > MAX_RESIZED_SIDE || height > MAX_RESIZED_SIDE;
    if mips <= 1 || too_long || texels > 0x3fff_ffff || rgba.len() as u64 != 4 * texels {
        let copy = copy_range(rgba, 0, rgba.len());
        proof {
            assert(copy@ =~= rgba@);
        }
        return (1, copy);
    }
    let ghost n = mip_levels(width, height);
    let mut level: Vec<u8> = copy_range(rgba, 0, rgba.len());
    let mut data: Vec<u8> = Vec::new();
    let mut w: u32 = width;
    let mut h: u32 = height;
    let mut l: u32 = 0;
    proof {
        assert(level@ =~= rgba@);
        assert(data@ + mip_chain(level@, w as int, h as int, n) =~= mip_chain(
            rgba@,
            width as int,
            height as int,
            n,
        ));
    }
    while l < mips
        invariant
            l <= mips,
            mips == n,
            level@.len() == 4 * (w * h),
            w <= MAX_RESIZED_SIDE,
            h <= MAX_RESIZED_SIDE,
            data@ + mip_chain(level@, w as int, h as int, (n - l) as nat) == mip_chain(
                rgba@,
                width as int,
                height as int,
                n,
            ),
            data@.len() + chain_len(w as int, h as int, (n - l) as nat) == chain_len(
                width as int,
                height as int,
                n,
            ),
        decreases mips - l,
    {
        let ghost before = data@;
        append_bytes(&mut data, &level);
        let nw: u32 = half_side(w);
        let nh: u32 = half_side(h);
        let next = resize_rgba8(&level, w, h, nw, nh);
        proof {
            let rest = mip_chain(next@, half(w as int), half(h as int), (n - l - 1) as nat);
            assert(before + (level@ + rest) =~= (before + level@) + rest);
        }
        level = next;
        w = nw;
        h = nh;
        l = l + 1;
    }
    assert(data@ + Seq::<u8>::empty() =~= data@);
    (mips, data)
}

/// The bytes that texpresso writes for an image in the BC3 format with the range fit algorithm.
pub uninterp spec fn bc3_image(rgba: Seq<u8>, w: usize, h: usize) -> Seq<u8>;

/// `texpresso::Format::compress` for `Format::Bc3` with `Algorithm::RangeFit` and the other
/// parameters at their defaults, into a buffer of exactly the size that the image takes: the bytes
/// written are named by `bc3_image`, and the buffer keeps its length.
#[verifier::external_body]
fn compress_bc3(rgba: &[u8], w: usize, h: usize, size: usize) -> (r: Vec<u8>)
    requires
        w >= 1,
        h >= 1,
        rgba@.len() == 4 * (w * h),
        size == blocks_len(w as int, h as int),
    ensures
        r@ == bc3_image(rgba@, w, h),
        r@.len() == size,
{
    let params = texpresso::Params {
        algorithm: texpresso::Algorithm::RangeFit,
        ..texpresso::Params::default()
    };
    let mut out = vec![0u8; size];
    texpresso::Format::Bc3.compress(rgba, w, h, params, &mut out);
    out
}

/// `texpresso::Format::compressed_size` for `Format::Bc3`: sixteen bytes for each 4x4 block, with
/// the sides rounded up to whole blocks.
#[verifier::external_body]
fn bc3_size(w: usize, h: usize) -> (n: usize)
    requires
        w + 3 <= usize::MAX,
        h + 3 <= usize::MAX,
        blocks_len(w as int, h as int) <= usize::MAX,
    ensures
        n == blocks_len(w as int, h as int),
{
    texpresso::Format::Bc3.compressed_size(w, h)
}

/// The BC3 form of a chain of `n` levels.
pub open spec fn bc3_chain(chain: Seq<u8>, w: int, h: int, n: nat) -> Seq<u8>
    decreases n,
{
    if n == 0 {
        Seq::empty()
    } else {
        let k = 4 * (w * h);
        bc3_image(chain.take(k), w as usize, h as usize) + bc3_chain(
            chain.skip(k),
            half(w),
            half(h),
            (n - 1) as nat,
        )
    }
}

/// The sixteen values of channel `c` in the block at (`bx`, `by`) of an RGBA8 image; the texels
/// beyond the right and the lower edge repeat the edge.
pub open spec fn block_channel(rgba: Seq<u8>, w: int, h: int, bx: int, by: int, c: int) -> Seq<u8> {
    Seq::new(
        16,
        |t: int|
            {
                let x = bx * 4 + t % 4;
                let y = by * 4 + t / 4;
                let px = if x < w {
                    x
                } else {
                    w - 1
                };
                let py = if y < h {
                    y
                } else {
                    h - 1
                };
                rgba[(py * w + px) * 4 + c]
            },
    )
}

/// The bytes of one BC5 block: the red channel, then the green.
pub open spec fn bc5_block(rgba: Seq<u8>, w: int, h: int, bx: int, by: int) -> Seq<u8> {
    bc4(block_channel(rgba, w, h, bx, by, 0)) + bc4(block_channel(rgba, w, h, bx, by, 1))
}

/// The first `k` blocks of row `by`.
pub open spec fn bc5_row(rgba: Seq<u8>, w: int, h: int, by: int, k: nat) -> Seq<u8>
    decreases k,
{
    if k == 0 {
        Seq::empty()
    } else {
        bc5_row(rgba, w, h, by, (k - 1) as nat) + bc5_block(rgba, w, h, k - 1, by)
    }
}

/// The first `k` rows of blocks.
pub open spec fn bc5_rows(rgba: Seq<u8>, w: int, h: int, k: nat) -> Seq<u8>
    decreases k,
{
    if k == 0 {
        Seq::empty()
    } else {
        bc5_rows(rgba, w, h, (k - 1) as nat) + bc5_row(
            rgba,
            w,
            h,
            k - 1,
            ((w + 3) / 4) as nat,
        )
    }
}

/// The BC5 form of a chain of `n` levels.
pub open spec fn bc5_chain(chain: Seq<u8>, w: int, h: int, n: nat) -> Seq<u8>
    decreases n,
{
    if n == 0 {
        Seq::empty()
    } else {
        let k = 4 * (w * h);
        bc5_rows(chain.take(k), w, h, ((h + 3) / 4) as nat) + bc5_chain(
            chain.skip(k),
            half(w),
            half(h),
            (n - 1) as nat,
        )
    }
}

/// A block-compressed chain is never longer than this.
pub proof fn payload_len_bound(w: int, h: int, n: nat)
    requires
        w >= 1,
        h >= 1,
    ensures
        0 <= payload_len(w, h, n) <= 2 * (w * h) + 8 * w + 8 * h + 32 * n,
    decreases n,
{
    if n == 0 {
        assert(w * h >= 0) by (nonlinear_arith)
            requires
                w >= 1,
                h >= 1,
        ;
    } else {
        let (a, b) = (half(w), half(h));
        payload_len_bound(a, b, (n - 1) as nat);
        let (p, q) = ((w + 3) / 4, (h + 3) / 4);
        assert(0 <= p * q * 16 <= w * h + 3 * w + 3 * h + 9) by (nonlinear_arith)
            requires
                0 <= 4 * p <= w + 3,
                0 <= 4 * q <= h + 3,
        ;
        assert(4 * (a * b) <= w * h || w == 1 || h == 1) by (nonlinear_arith)
            requires
                1 <= a,
                1 <= b,
                2 * a <= w || w == 1,
                2 * b <= h || h == 1,
        ;
        if w == 1 {
            assert(w * h == h && a * b == b) by (nonlinear_arith)
                requires
                    w == 1,
                    a == 1,
            ;
        } else if h == 1 {
            assert(w * h == w && a * b == a) by (nonlinear_arith)
                requires
                    h == 1,
                    b == 1,
            ;
        }
    }
}

/// The number of bytes of a compressed chain of `mips` levels.
pub fn bc3_payload_len(width: u32, height: u32, mips: u32) -> (n: usize)
    requires
        payload_len(side(width), side(height), mips as nat) <= usize::MAX,
        width <= usize::MAX - 3,
        height <= usize::MAX - 3,
    ensures
        n == payload_len(side(width), side(height), mips as nat),
{
    let mut n: usize = 0;
    let mut w: usize = if width == 0 {
        1
    } else {
        width as usize
    };
    let mut h: usize = if height == 0 {
        1
    } else {
        height as usize
    };
    let mut l: u32 = 0;
    while l < mips
        invariant
            l <= mips,
            1 <= w <= usize::MAX - 3,
            1 <= h <= usize::MAX - 3,
            n + payload_len(w as int, h as int, (mips - l) as nat) == payload_len(
                side(width),
                side(height),
                mips as nat,
            ),
            payload_len(side(width), side(height), mips as nat) <= usize::MAX,
        decreases mips - l,
    {
        proof {
            payload_len_bound(half(w as int), half(h as int), (mips - l - 1) as nat);
            assert(0 <= ((w + 3) / 4) * ((h + 3) / 4)) by (nonlinear_arith)
                requires
                    w >= 1,
                    h >= 1,
            ;
        }
        n = n + bc3_size(w, h);
        w = if w <= 1 {
            1
        } else {
            w / 2
        };
        h = if h <= 1 {
            1
        } else {
            h / 2
        };
        l = l + 1;
    }
    n
}

/// A texel index inside an image, and the four bytes behind it.
proof fn texel_bound(w: int, h: int, px: int, py: int)
    requires
        0 <= px < w,
        0 <= py < h,
    ensures
        0 <= py * w + px,
        (py * w + px) * 4 + 4 <= 4 * (w * h),
{
    assert(py * w + px + 1 <= w * h) by (nonlinear_arith)
        requires
            0 <= px < w,
            0 <= py < h,
    ;
    assert(0 <= py * w) by (nonlinear_arith)
        requires
            0 <= py,
            0 < w,
    ;
}

/// The values of one channel of the block at (`bx`, `by`).
fn gather_block(level: &[u8], w: usize, h: usize, bx: usize, by: usize, c: usize) -> (r: [u8; 16])
    requires
        1 <= w,
        1 <= h,
        c < 4,
        level@.len() == 4 * (w * h),
        bx * 4 + 3 <= usize::MAX,
        by * 4 + 3 <= usize::MAX,
    ensures
        r@ == block_channel(level@, w as int, h as int, bx as int, by as int, c as int),
{
    let mut r: [u8; 16] = [0;16];
    let mut t: usize = 0;
    let size: usize = level.len();
    while t < 16
        invariant
            t <= 16,
            1 <= w,
            1 <= h,
            c < 4,
            level@.len() == 4 * (w * h),
            level@.len() == size,
            bx * 4 + 3 <= usize::MAX,
            by * 4 + 3 <= usize::MAX,
            forall|k: int|
                0 <= k < t ==> r@[k] == block_channel(
                    level@,
                    w as int,
                    h as int,
                    bx as int,
                    by as int,
                    c as int,
                )[k],
        decreases 16 - t,
    {
        let x: usize = bx * 4 + t % 4;
        let y: usize = by * 4 + t / 4;
        let px: usize = if x < w {
            x
        } else {
            w - 1
        };
        let py: usize = if y < h {
            y
        } else {
            h - 1
        };
        proof {
            texel_bound(w as int, h as int, px as int, py as int);
        }
        r[t] = level[(py * w + px) * 4 + c];
        t = t + 1;
    }
    proof {
        assert(r@ =~= block_channel(
            level@,
            w as int,
            h as int,
            bx as int,
            by as int,
            c as int,
        ));
    }
    r
}

/// Append the BC5 blocks of one level.
fn push_bc5_level(out: &mut Vec<u8>, level: &[u8], w: usize, h: usize)
    requires
        1 <= w <= usize::MAX - 3,
        1 <= h <= usize::MAX - 3,
        level@.len() == 4 * (w * h),
    ensures
        final(out)@ == old(out)@ + bc5_rows(level@, w as int, h as int, ((h + 3) / 4) as nat),
{
    let bw: usize = (w + 3) / 4;
    let bh: usize = (h + 3) / 4;
    let mut by: usize = 0;
    proof {
        assert(out@ =~= old(out)@ + bc5_rows(level@, w as int, h as int, 0));
    }
    while by < bh
        invariant
            by <= bh,
            1 <= w <= usize::MAX - 3,
            1 <= h <= usize::MAX - 3,
            bw == (w + 3) / 4,
            bh == (h + 3) / 4,
            level@.len() == 4 * (w * h),
            out@ == old(out)@ + bc5_rows(level@, w as int, h as int, by as nat),
        decreases bh - by,
    {
        let ghost start = out@;
        let mut bx: usize = 0;
        proof {
            assert(out@ =~= start + bc5_row(level@, w as int, h as int, by as int, 0));
        }
        while bx < bw
            invariant
                bx <= bw,
                by < bh,
                1 <= w <= usize::MAX - 3,
                1 <= h <= usize::MAX - 3,
                bw == (w + 3) / 4,
                bh == (h + 3) / 4,
                level@.len() == 4 * (w * h),
                out@ == start + bc5_row(level@, w as int, h as int, by as int, bx as nat),
            decreases bw - bx,
        {
            let rr = gather_block(level, w, h, bx, by, 0);
            let gg = gather_block(level, w, h, bx, by, 1);
            let a = bc4_block(&rr);
            let b = bc4_block(&gg);
            append_bytes(out, &a);
            append_bytes(out, &b);
            bx = bx + 1;
            proof {
                assert(out@ =~= start + bc5_row(level@, w as int, h as int, by as int, bx as nat));
            }
        }
        by = by + 1;
        proof {
            assert(out@ =~= old(out)@ + bc5_rows(level@, w as int, h as int, by as nat));
        }
    }
}

/// The first level of a chain lies inside it.
proof fn first_level_fits(w: int, h: int, n: nat)
    requires
        w >= 1,
        h >= 1,
        n >= 1,
    ensures
        4 <= 4 * (w * h) <= chain_len(w, h, n),
        w <= 4 * (w * h),
        h <= 4 * (w * h),
    decreases n,
{
    assert(w * h >= 1 && w * h >= w && w * h >= h) by (nonlinear_arith)
        requires
            w >= 1,
            h >= 1,
    ;
    if n > 1 {
        first_level_fits(half(w), half(h), (n - 1) as nat);
    } else {
        assert(chain_len(half(w), half(h), 0) == 0);
    }
}

/// The BC5 form of a chain: tangent-space normal maps keep red and green.
pub fn bc5_compress_chain(width: u32, height: u32, mips: u32, chain: &[u8]) -> (out: Vec<u8>)
    requires
        chain_len(side(width), side(height), mips as nat) <= chain@.len(),
    ensures
        out@ == bc5_chain(chain@, side(width), side(height), mips as nat),
{
    let mut out: Vec<u8> = Vec::new();
    let mut off: usize = 0;
    let mut w: u32 = if width == 0 {
        1
    } else {
        width
    };
    let mut h: u32 = if height == 0 {
        1
    } else {
        height
    };
    let mut l: u32 = 0;
    let ghost whole = bc5_chain(chain@, side(width), side(height), mips as nat);
    proof {
        assert(chain@.skip(0) =~= chain@);
        assert(out@ + whole =~= whole);
    }
    while l < mips
        invariant
            l <= mips,
            w >= 1,
            h >= 1,
            off <= chain@.len(),
            chain_len(w as int, h as int, (mips - l) as nat) <= chain@.len() - off,
            out@ + bc5_chain(chain@.skip(off as int), w as int, h as int, (mips - l) as nat)
                == whole,
        decreases mips - l,
    {
        let ghost before = out@;
        proof {
            first_level_fits(w as int, h as int, (mips - l) as nat);
        }
        assert(chain@.len() == chain.len());
        let n: usize = (w as usize * h as usize) * 4;
        let level = copy_range(chain, off, off + n);
        push_bc5_level(&mut out, &level, w as usize, h as usize);
        proof {
            let tail = chain@.skip(off as int);
            assert(tail.take(n as int) =~= level@);
            assert(tail.skip(n as int) =~= chain@.skip(off + n));
            let rest = bc5_chain(
                chain@.skip(off + n),
                half(w as int),
                half(h as int),
                (mips - l - 1) as nat,
            );
            let here = bc5_rows(level@, w as int, h as int, ((h + 3) / 4) as nat);
            assert(before + (here + rest) =~= (before + here) + rest);
            if mips - l > 1 {
                first_level_fits(half(w as int), half(h as int), (mips - l - 1) as nat);
            }
        }
        off = off + n;
        w = half_side(w);
        h = half_side(h);
        l = l + 1;
    }
    assert(out@ + Seq::<u8>::empty() =~= out@);
    out
}

/// The BC3 form of a chain.
pub fn bc3_compress_chain(width: u32, height: u32, mips: u32, chain: &[u8]) -> (out: Vec<u8>)
    requires
        chain_len(side(width), side(height), mips as nat) <= chain@.len(),
        payload_len(side(width), side(height), mips as nat) <= usize::MAX,
    ensures
        out@ == bc3_chain(chain@, side(width), side(height), mips as nat),
        out@.len() == payload_len(side(width), side(height), mips as nat),
{
    let mut out: Vec<u8> = Vec::new();
    let mut off: usize = 0;
    let mut w: u32 = if width == 0 {
        1
    } else {
        width
    };
    let mut h: u32 = if height == 0 {
        1
    } else {
        height
    };
    let mut l: u32 = 0;
    let ghost whole = bc3_chain(chain@, side(width), side(height), mips as nat);
    let ghost total = payload_len(side(width), side(height), mips as nat);
    proof {
        assert(chain@.skip(0) =~= chain@);
        assert(out@ + whole =~= whole);
    }
    while l < mips
        invariant
            l <= mips,
            w >= 1,
            h >= 1,
            off <= chain@.len(),
            chain_len(w as int, h as int, (mips - l) as nat) <= chain@.len() - off,
            out@ + bc3_chain(chain@.skip(off as int), w as int, h as int, (mips - l) as nat)
                == whole,
            out@.len() + payload_len(w as int, h as int, (mips - l) as nat) == total,
            total <= usize::MAX,
        decreases mips - l,
    {
        let ghost before = out@;
        proof {
            first_level_fits(w as int, h as int, (mips - l) as nat);
            payload_len_bound(half(w as int), half(h as int), (mips - l - 1) as nat);
        }
        assert(chain@.len() == chain.len());
        let n: usize = (w as usize * h as usize) * 4;
        let level = copy_range(chain, off, off + n);
        let size: usize = bc3_size(w as usize, h as usize);
        let block = compress_bc3(&level, w as usize, h as usize, size);
        append_bytes(&mut out, &block);
        proof {
            let tail = chain@.skip(off as int);
            assert(tail.take(n as int) =~= level@);
            assert(tail.skip(n as int) =~= chain@.skip(off + n));
            let rest = bc3_chain(
                chain@.skip(off + n),
                half(w as int),
                half(h as int),
                (mips - l - 1) as nat,
            );
            assert(before + (block@ + rest) =~= (before + block@) + rest);
            if mips - l > 1 {
                first_level_fits(half(w as int), half(h as int), (mips - l - 1) as nat);
            }
        }
        off = off + n;
        w = half_side(w);
        h = half_side(h);
        l = l + 1;
    }
    assert(out@ + Seq::<u8>::empty() =~= out@);
    out
}

/// A BC5 chain has the length of a BC3 chain: both take sixteen bytes for a block.
pub proof fn bc5_len_is_payload_len(chain: Seq<u8>, w: int, h: int, n: nat)
    requires
        w >= 1,
        h >= 1,
    ensures
        bc5_chain(chain, w, h, n).len() == payload_len(w, h, n),
    decreases n,
{
    if n > 0 {
        bc5_len_is_payload_len(chain.skip(4 * (w * h)), half(w), half(h), (n - 1) as nat);
        bc5_rows_len(chain.take(4 * (w * h)), w, h, ((h + 3) / 4) as nat);
        assert(((h + 3) / 4) * ((w + 3) / 4) == ((w + 3) / 4) * ((h + 3) / 4)) by (nonlinear_arith);
        assert(16 * (((h + 3) / 4) * ((w + 3) / 4)) == blocks_len(w, h));
    }
}

/// A row of blocks takes sixteen bytes for each block.
pub proof fn bc5_rows_len(rgba: Seq<u8>, w: int, h: int, k: nat)
    requires
        w >= 1,
        h >= 1,
    ensures
        bc5_rows(rgba, w, h, k).len() == 16 * (k * ((w + 3) / 4)),
    decreases k,
{
    if k == 0 {
        assert(0 * ((w + 3) / 4) == 0) by (nonlinear_arith);
    } else {
        bc5_rows_len(rgba, w, h, (k - 1) as nat);
        bc5_row_len(rgba, w, h, k - 1, ((w + 3) / 4) as nat);
        assert(k * ((w + 3) / 4) == (k - 1) * ((w + 3) / 4) + (w + 3) / 4) by (nonlinear_arith);
    }
}

/// Blocks of a row take sixteen bytes each.
pub proof fn bc5_row_len(rgba: Seq<u8>, w: int, h: int, by: int, k: nat)
    ensures
        bc5_row(rgba, w, h, by, k).len() == 16 * k,
    decreases k,
{
    if k > 0 {
        bc5_row_len(rgba, w, h, by, (k - 1) as nat);
    }
}

} // verus!
