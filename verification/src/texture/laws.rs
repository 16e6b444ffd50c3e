//! What a texture on its way to the GPU shows: texel by texel and level by level.
use crate::bytes::word_at;
use crate::texture::bc4::{
    bc4, block_max, block_min, code_error, code_value, endpoints_bound_block, nearest_code,
    nearest_code_is_best, packed_bound, packed_codes, pow8,
};
use crate::texture::cache::parsed_entry;
use crate::texture::chain::{
    bc3_chain, bc3_image, bc5_block, bc5_chain, bc5_row, bc5_row_len, bc5_rows, bc5_rows_len,
    bit_length, block_channel, chain_len, full_chain, half, mip_chain, mip_levels, mip_levels_bound,
    payload_len, resized_image,
};
use crate::texture::prepare::{image_texture, TexModel};
use vstd::arithmetic::div_mod::{
    lemma_div_denominator, lemma_fundamental_div_mod, lemma_fundamental_div_mod_converse,
};
use vstd::arithmetic::power2::{lemma2_to64, lemma_pow2_pos, lemma_pow2_unfold, pow2};
use vstd::prelude::*;

verus! {

/// How far apart two values are.
pub open spec fn apart(a: int, b: int) -> int {
    if a < b {
        b - a
    } else {
        a - b
    }
}

/// The forty-eight bits of codes of a single-channel block, as a number.
pub open spec fn code_bits(b: Seq<u8>) -> int {
    b[2] + 0x100 * b[3] + 0x1_0000 * b[4] + 0x100_0000 * b[5] + 0x1_0000_0000 * b[6] + 0x100_0000_0000 * b[7]
}

/// Digit `t` of a number in base eight.
pub open spec fn octal_digit(p: int, t: nat) -> int
    decreases t,
{
    if t == 0 {
        p % 8
    } else {
        octal_digit(p / 8, (t - 1) as nat)
    }
}

/// The value that the GPU reads from texel `t` of a single-channel block whose first end is not below
/// its second: the ends, or one of six values between them.
pub open spec fn shown(b: Seq<u8>, t: nat) -> int {
    let k = octal_digit(code_bits(b), t);
    if k == 0 {
        b[0] as int
    } else if k == 1 {
        b[1] as int
    } else {
        ((8 - k) * b[0] + (k - 1) * b[1] + 3) / 7
    }
}

proof fn digit_is_quotient(p: int, t: nat)
    requires
        0 <= p,
    ensures
        octal_digit(p, t) == (p / pow8(t)) % 8,
        pow8(t) > 0,
    decreases t,
{
    if t > 0 {
        digit_is_quotient(p / 8, (t - 1) as nat);
        lemma_div_denominator(p, 8, pow8((t - 1) as nat));
    }
}

proof fn lower_codes(vals: Seq<u8>, t: nat, n: nat) -> (m: int)
    requires
        t <= n <= 16,
    ensures
        m >= 0,
        packed_codes(vals, n) == packed_codes(vals, t) + m * pow8(t),
    decreases n,
{
    if t == n {
        assert(0 * pow8(t) == 0) by (nonlinear_arith);
        0
    } else {
        let m0 = lower_codes(vals, t, (n - 1) as nat);
        let c = nearest_code(block_max(vals, 16), block_min(vals, 16), vals[n - 1], 8);
        nearest_code_is_best(block_max(vals, 16), block_min(vals, 16), vals[n - 1], 8, 0);
        let q = pow8_divides(t, (n - 1) as nat);
        assert(c * pow8((n - 1) as nat) == (c * q) * pow8(t)) by (nonlinear_arith)
            requires
                pow8((n - 1) as nat) == q * pow8(t),
        ;
        assert((m0 + c * q) * pow8(t) == m0 * pow8(t) + (c * q) * pow8(t)) by (nonlinear_arith);
        assert(c * q >= 0) by (nonlinear_arith)
            requires
                c >= 0,
                q >= 0,
        ;
        m0 + c * q
    }
}

proof fn pow8_divides(t: nat, n: nat) -> (q: int)
    requires
        t <= n,
    ensures
        q > 0,
        pow8(n) == q * pow8(t),
    decreases n,
{
    if t == n {
        assert(1 * pow8(t) == pow8(t));
        1
    } else {
        let q = pow8_divides(t, (n - 1) as nat);
        assert(8 * (q * pow8(t)) == (8 * q) * pow8(t)) by (nonlinear_arith);
        8 * q
    }
}

proof fn codes_come_back(vals: Seq<u8>, t: nat)
    requires
        vals.len() == 16,
        t < 16,
    ensures
        octal_digit(code_bits(bc4(vals)), t) == nearest_code(
            block_max(vals, 16),
            block_min(vals, 16),
            vals[t as int],
            8,
        ),
{
    let p = packed_codes(vals, 16);
    packed_bound(vals, 16);
    assert(pow8(16) == 0x1_0000_0000_0000) by {
        reveal_with_fuel(pow8, 17);
    }
    let b = bc4(vals);
    assert(code_bits(b) == p) by {
        let q1 = p / 0x100;
        let q2 = p / 0x1_0000;
        let q3 = p / 0x100_0000;
        let q4 = p / 0x1_0000_0000;
        let q5 = p / 0x100_0000_0000;
        assert(p == 0x100 * q1 + p % 0x100);
        assert(q1 == 0x100 * q2 + q1 % 0x100);
        assert(q2 == 0x100 * q3 + q2 % 0x100);
        assert(q3 == 0x100 * q4 + q3 % 0x100);
        assert(q4 == 0x100 * q5 + q4 % 0x100);
        assert(0 <= q5 < 256);
    }
    let c = nearest_code(block_max(vals, 16), block_min(vals, 16), vals[t as int], 8);
    nearest_code_is_best(block_max(vals, 16), block_min(vals, 16), vals[t as int], 8, 0);
    let m = lower_codes(vals, t + 1, 16);
    packed_bound(vals, t);
    digit_is_quotient(p, t);
    let e = pow8(t);
    let low = packed_codes(vals, t);
    assert(p == (c + 8 * m) * e + low) by (nonlinear_arith)
        requires
            p == (low + c * e) + m * (8 * e),
    ;
    lemma_fundamental_div_mod_converse(p, e, c + 8 * m, low);
    assert((c + 8 * m) % 8 == c);
}

/// A single-channel block shows every value of its sixteen within a fourteenth of the distance between
/// its ends, and the rounding; its ends are the largest and the smallest of its values.
pub proof fn blocks_show_their_values(vals: Seq<u8>, t: nat)
    requires
        vals.len() == 16,
        t < 16,
    ensures
        bc4(vals).len() == 8,
        bc4(vals)[1] <= vals[t as int] <= bc4(vals)[0],
        vals.contains(bc4(vals)[0]),
        vals.contains(bc4(vals)[1]),
        14 * apart(shown(bc4(vals), t), vals[t as int] as int) <= bc4(vals)[0] - bc4(vals)[1] + 8,
{
    let b = bc4(vals);
    let (r0, r1, v) = (b[0], b[1], vals[t as int]);
    endpoints_bound_block(vals, 16, t as int);
    ends_are_values(vals, 16);
    codes_come_back(vals, t);
    let c = nearest_code(r0, r1, v, 8);
    nearest_code_is_best(r0, r1, v, 8, 0);
    nearest_code_is_best(r0, r1, v, 8, 1);
    nearest_code_is_best(r0, r1, v, 8, 2);
    nearest_code_is_best(r0, r1, v, 8, 3);
    nearest_code_is_best(r0, r1, v, 8, 4);
    nearest_code_is_best(r0, r1, v, 8, 5);
    nearest_code_is_best(r0, r1, v, 8, 6);
    nearest_code_is_best(r0, r1, v, 8, 7);
    if r0 == r1 {
        assert((8 - c) * r0 + (c - 1) * r0 == 7 * r0) by (nonlinear_arith);
        assert(shown(b, t) == r0);
    } else {
        assert(shown(b, t) == code_value(r0, r1, c));
        let e = code_error(r0, r1, v, c);
        assert(e == apart(shown(b, t), v as int));
        let d = r0 - r1;
        assert(e <= code_error(r0, r1, v, 0) && e <= code_error(r0, r1, v, 1));
        assert(code_value(r0, r1, 2) == (6 * r0 + 1 * r1 + 3) / 7);
        assert(code_value(r0, r1, 3) == (5 * r0 + 2 * r1 + 3) / 7);
        assert(code_value(r0, r1, 4) == (4 * r0 + 3 * r1 + 3) / 7);
        assert(code_value(r0, r1, 5) == (3 * r0 + 4 * r1 + 3) / 7);
        assert(code_value(r0, r1, 6) == (2 * r0 + 5 * r1 + 3) / 7);
        assert(code_value(r0, r1, 7) == (1 * r0 + 6 * r1 + 3) / 7);
        assert(14 * e <= d + 8);
    }
}

proof fn ends_are_values(vals: Seq<u8>, n: nat)
    requires
        1 <= n <= vals.len(),
    ensures
        vals.contains(block_max(vals, n)),
        vals.contains(block_min(vals, n)),
    decreases n,
{
    assert(vals[n - 1] == vals[n - 1]);
    if n > 1 {
        ends_are_values(vals, (n - 1) as nat);
    } else {
        assert(block_max(vals, 0) == 0 && block_min(vals, 0) == 255);
    }
}

proof fn block_of_row(rgba: Seq<u8>, w: int, h: int, by: int, k: nat, bx: int, i: int)
    requires
        0 <= bx < k,
        0 <= i < 16,
    ensures
        bc5_row(rgba, w, h, by, k).len() == 16 * k,
        bc5_row(rgba, w, h, by, k)[16 * bx + i] == bc5_block(rgba, w, h, bx, by)[i],
    decreases k,
{
    bc5_row_len(rgba, w, h, by, k);
    bc5_row_len(rgba, w, h, by, (k - 1) as nat);
    if bx < k - 1 {
        block_of_row(rgba, w, h, by, (k - 1) as nat, bx, i);
    }
}

proof fn block_of_rows(rgba: Seq<u8>, w: int, h: int, k: nat, by: int, bx: int, i: int)
    requires
        w >= 1,
        h >= 1,
        0 <= by < k,
        0 <= bx < (w + 3) / 4,
        0 <= i < 16,
    ensures
        0 <= 16 * (by * ((w + 3) / 4) + bx) + i < bc5_rows(rgba, w, h, k).len(),
        bc5_rows(rgba, w, h, k)[16 * (by * ((w + 3) / 4) + bx) + i] == bc5_block(rgba, w, h, bx, by)[i],
    decreases k,
{
    let across = (w + 3) / 4;
    bc5_rows_len(rgba, w, h, k);
    bc5_rows_len(rgba, w, h, (k - 1) as nat);
    bc5_row_len(rgba, w, h, k - 1, across as nat);
    assert(0 <= by * across) by (nonlinear_arith)
        requires
            0 <= by,
            0 <= across,
    ;
    assert(k * across == (k - 1) * across + across) by (nonlinear_arith);
    if by < k - 1 {
        block_of_rows(rgba, w, h, (k - 1) as nat, by, bx, i);
    } else {
        block_of_row(rgba, w, h, by, across as nat, bx, i);
    }
}

/// Texel (x, y) of a compressed normal map stands where the GPU looks for it: in block x/4 of row y/4,
/// at place x%4 of line y%4, red in the first half of the block and green in the second; and what is
/// shown there is that texel's own value, within the error of its block.
pub proof fn normal_maps_keep_red_and_green(rgba: Seq<u8>, w: int, h: int, x: int, y: int, c: int)
    requires
        w >= 1,
        h >= 1,
        rgba.len() == 4 * (w * h),
        0 <= x < w,
        0 <= y < h,
        c == 0 || c == 1,
    ensures
        ({
            let level = bc5_rows(rgba, w, h, ((h + 3) / 4) as nat);
            let at = 16 * ((y / 4) * ((w + 3) / 4) + x / 4) + 8 * c;
            let block = level.subrange(at, at + 8);
            let own = rgba[(y * w + x) * 4 + c];
            &&& 0 <= at
            &&& at + 8 <= level.len()
            &&& block[1] <= own <= block[0]
            &&& 14 * apart(shown(block, (4 * (y % 4) + x % 4) as nat), own as int) <= block[0] - block[1] + 8
        }),
{
    let (bx, by) = (x / 4, y / 4);
    let t = 4 * (y % 4) + x % 4;
    let vals = block_channel(rgba, w, h, bx, by, c);
    let level = bc5_rows(rgba, w, h, ((h + 3) / 4) as nat);
    let at = 16 * (by * ((w + 3) / 4) + bx) + 8 * c;
    blocks_show_their_values(vals, t as nat);
    block_of_rows(rgba, w, h, ((h + 3) / 4) as nat, by, bx, 8 * c);
    block_of_rows(rgba, w, h, ((h + 3) / 4) as nat, by, bx, 8 * c + 7);
    assert(level.subrange(at, at + 8) =~= bc4(vals)) by {
        assert forall|i: int| 0 <= i < 8 implies level[at + i] == bc4(vals)[i] by {
            block_of_rows(rgba, w, h, ((h + 3) / 4) as nat, by, bx, 8 * c + i);
        }
    }
    assert(vals[t] == rgba[(y * w + x) * 4 + c]) by {
        assert(t % 4 == x % 4 && t / 4 == y % 4);
        assert(bx * 4 + t % 4 == x && by * 4 + t / 4 == y);
    }
}

/// The ends of a block come from texels of the image inside the block: what lies beyond the edge of
/// the image repeats its last column and its last line.
pub proof fn blocks_hold_only_their_texels(rgba: Seq<u8>, w: int, h: int, bx: int, by: int, c: int, t: int)
    requires
        0 <= bx * 4 < w,
        0 <= by * 4 < h,
        0 <= t < 16,
    ensures
        exists|x: int, y: int|
            bx * 4 <= x < w && x < bx * 4 + 4 && by * 4 <= y < h && y < by * 4 + 4 && block_channel(
                rgba,
                w,
                h,
                bx,
                by,
                c,
            )[t] == #[trigger] rgba[(y * w + x) * 4 + c],
        bx * 4 + t % 4 >= w ==> block_channel(rgba, w, h, bx, by, c)[t] == rgba[((if by * 4 + t / 4 < h {
            by * 4 + t / 4
        } else {
            h - 1
        }) * w + w - 1) * 4 + c],
{
    let x = if bx * 4 + t % 4 < w {
        bx * 4 + t % 4
    } else {
        w - 1
    };
    let y = if by * 4 + t / 4 < h {
        by * 4 + t / 4
    } else {
        h - 1
    };
    assert(block_channel(rgba, w, h, bx, by, c)[t] == rgba[(y * w + x) * 4 + c]);
}

/// A side of level `l`: halved that often, and never less than one texel.
pub open spec fn level_side(n: int, l: nat) -> int {
    let s = n / (pow2(l) as int);
    if s < 1 {
        1
    } else {
        s
    }
}

/// How many bytes the levels before level `l` take.
pub open spec fn bytes_before(w: int, h: int, l: nat) -> int
    decreases l,
{
    if l == 0 {
        0
    } else {
        let k = (l - 1) as nat;
        bytes_before(w, h, k) + 4 * (level_side(w, k) * level_side(h, k))
    }
}

/// How many bytes the blocks of the levels before level `l` take.
pub open spec fn blocks_before(w: int, h: int, l: nat) -> int
    decreases l,
{
    if l == 0 {
        0
    } else {
        let k = (l - 1) as nat;
        blocks_before(w, h, k) + 16 * (((level_side(h, k) + 3) / 4) * ((level_side(w, k) + 3) / 4))
    }
}

proof fn sides_are_halved(n: int, l: nat)
    requires
        n >= 1,
    ensures
        level_side(n, 0) == n,
        level_side(n, l) >= 1,
        half(level_side(n, l)) == level_side(n, l + 1),
        level_side(n, l) <= n,
{
    lemma2_to64();
    lemma_pow2_pos(l);
    lemma_pow2_unfold(l + 1);
    let p = pow2(l) as int;
    lemma_div_denominator(n, p, 2);
    assert(p * 2 == pow2(l + 1));
    lemma_fundamental_div_mod(n, p);
    assert(n / p <= n) by (nonlinear_arith)
        requires
            n == p * (n / p) + n % p,
            p >= 1,
            n >= 0,
            n % p >= 0,
    ;
}

/// The image of level `l`: each level is made from the one before at the next size.
pub open spec fn image_at(rgba: Seq<u8>, w: int, h: int, l: nat) -> Seq<u8>
    decreases l,
{
    if l == 0 {
        rgba
    } else {
        let k = (l - 1) as nat;
        resized_image(
            image_at(rgba, w, h, k),
            level_side(w, k) as u32,
            level_side(h, k) as u32,
            level_side(w, l) as u32,
            level_side(h, l) as u32,
        )
    }
}

/// The first `n` levels, one after the other.
pub open spec fn first_levels(rgba: Seq<u8>, w: int, h: int, n: nat) -> Seq<u8>
    decreases n,
{
    if n == 0 {
        Seq::empty()
    } else {
        first_levels(rgba, w, h, (n - 1) as nat) + image_at(rgba, w, h, (n - 1) as nat)
    }
}

/// A chain holds the image itself, then the image at half the size made from it, and so on.
pub proof fn each_level_is_half_of_the_one_before(rgba: Seq<u8>, w: int, h: int, n: nat)
    requires
        w >= 1,
        h >= 1,
    ensures
        mip_chain(rgba, w, h, n) == first_levels(rgba, w, h, n),
        n >= 1 ==> rgba.is_prefix_of(mip_chain(rgba, w, h, n)),
{
    sides_are_halved(w, 0);
    sides_are_halved(h, 0);
    levels_go_on(rgba, w, h, 0, n);
    assert(first_levels(rgba, w, h, 0) + mip_chain(rgba, w, h, n) =~= mip_chain(rgba, w, h, n));
}

proof fn levels_go_on(rgba: Seq<u8>, w: int, h: int, l: nat, m: nat)
    requires
        w >= 1,
        h >= 1,
    ensures
        first_levels(rgba, w, h, l) + mip_chain(
            image_at(rgba, w, h, l),
            level_side(w, l),
            level_side(h, l),
            m,
        ) == first_levels(rgba, w, h, l + m),
    decreases m,
{
    let at = image_at(rgba, w, h, l);
    sides_are_halved(w, l);
    sides_are_halved(h, l);
    if m == 0 {
        assert(first_levels(rgba, w, h, l) + Seq::<u8>::empty() =~= first_levels(rgba, w, h, l));
    } else {
        levels_go_on(rgba, w, h, l + 1, (m - 1) as nat);
        let rest = mip_chain(
            image_at(rgba, w, h, l + 1),
            level_side(w, l + 1),
            level_side(h, l + 1),
            (m - 1) as nat,
        );
        assert(first_levels(rgba, w, h, l) + (at + rest) =~= (first_levels(rgba, w, h, l) + at) + rest);
    }
}

/// A chain goes down to one texel and no further: before its last level the longer side is more than
/// one texel, and at the last it is one.
pub proof fn chains_go_down_to_one_texel(w: u32, h: u32)
    requires
        w >= 1,
        h >= 1,
    ensures
        mip_levels(w, h) >= 1,
        pow2((mip_levels(w, h) - 1) as nat) <= (if w > h {
            w
        } else {
            h
        }) < pow2(mip_levels(w, h)),
        level_side(w as int, (mip_levels(w, h) - 1) as nat) == 1,
        level_side(h as int, (mip_levels(w, h) - 1) as nat) == 1,
{
    let n = if w > h {
        w as int
    } else {
        h as int
    };
    digits_bound(n);
    let l = (mip_levels(w, h) - 1) as nat;
    lemma_pow2_unfold(l + 1);
    lemma_pow2_pos(l);
    one_texel_is_left(w as int, l);
    one_texel_is_left(h as int, l);
}

proof fn one_texel_is_left(n: int, l: nat)
    requires
        1 <= n < 2 * pow2(l),
    ensures
        level_side(n, l) == 1,
{
    let p = pow2(l) as int;
    lemma_pow2_pos(l);
    lemma_fundamental_div_mod(n, p);
    assert(n / p <= 1) by (nonlinear_arith)
        requires
            n == p * (n / p) + n % p,
            n % p >= 0,
            n < 2 * p,
            p > 0,
    ;
}

proof fn digits_bound(n: int)
    requires
        n >= 1,
    ensures
        bit_length(n) >= 1,
        pow2((bit_length(n) - 1) as nat) <= n < pow2(bit_length(n)),
    decreases n,
{
    lemma2_to64();
    if n > 1 {
        digits_bound(n / 2);
        lemma_pow2_unfold(bit_length(n));
        lemma_pow2_unfold((bit_length(n) - 1) as nat);
    } else {
        assert(bit_length(n / 2) == 0);
    }
}

/// An image gets all its levels where its bytes are those of its size, four to a texel, they fit in 32
/// bits, and no side is longer than 8,388,608 texels; else it is its only level. Its first level is
/// the image as it is.
pub proof fn images_come_first(w: u32, h: u32, rgba: Seq<u8>)
    ensures
        rgba.is_prefix_of(full_chain(w, h, rgba).1),
        (w > 1 || h > 1) && rgba.len() == 4 * (w * h) && 4 * (w * h) <= 0xffff_ffff && w <= 8388608 && h
            <= 8388608 ==> full_chain(w, h, rgba).0 == mip_levels(w, h) && full_chain(w, h, rgba).1
            == mip_chain(rgba, w as int, h as int, mip_levels(w, h)),
        !((w > 1 || h > 1) && rgba.len() == 4 * (w * h) && 4 * (w * h) <= 0xffff_ffff && w <= 8388608 && h
            <= 8388608) ==> full_chain(w, h, rgba) == (1u32, rgba),
{
    let n = if w > h {
        w as int
    } else {
        h as int
    };
    mip_levels_bound(w, h);
    if n >= 1 {
        digits_bound(n);
        if n >= 2 {
            assert(bit_length(n) == 1 + bit_length(n / 2));
            digits_bound(n / 2);
        } else {
            assert(bit_length(n / 2) == 0);
        }
    }
}

/// The blocks of the first `n` levels of a chain, each level compressed on its own from its own bytes.
pub open spec fn levels_in_bc5(chain: Seq<u8>, w: int, h: int, n: nat) -> Seq<u8>
    decreases n,
{
    if n == 0 {
        Seq::empty()
    } else {
        let l = (n - 1) as nat;
        levels_in_bc5(chain, w, h, l) + bc5_rows(
            chain.subrange(bytes_before(w, h, l), bytes_before(w, h, n)),
            level_side(w, l),
            level_side(h, l),
            ((level_side(h, l) + 3) / 4) as nat,
        )
    }
}

/// The same with the other compression.
pub open spec fn levels_in_bc3(chain: Seq<u8>, w: int, h: int, n: nat) -> Seq<u8>
    decreases n,
{
    if n == 0 {
        Seq::empty()
    } else {
        let l = (n - 1) as nat;
        levels_in_bc3(chain, w, h, l) + bc3_image(
            chain.subrange(bytes_before(w, h, l), bytes_before(w, h, n)),
            level_side(w, l) as usize,
            level_side(h, l) as usize,
        )
    }
}

proof fn levels_have_bytes(w: int, h: int, l: nat)
    requires
        w >= 1,
        h >= 1,
    ensures
        0 <= bytes_before(w, h, l) < bytes_before(w, h, l + 1),
    decreases l,
{
    sides_are_halved(w, l);
    sides_are_halved(h, l);
    let (a, b) = (level_side(w, l), level_side(h, l));
    assert(a * b >= 1) by (nonlinear_arith)
        requires
            a >= 1,
            b >= 1,
    ;
    if l > 0 {
        levels_have_bytes(w, h, (l - 1) as nat);
    }
}

proof fn later_levels_begin_later(w: int, h: int, l: nat, n: nat)
    requires
        w >= 1,
        h >= 1,
        l <= n,
    ensures
        0 <= bytes_before(w, h, l) <= bytes_before(w, h, n),
    decreases n,
{
    levels_have_bytes(w, h, l);
    if l < n {
        later_levels_begin_later(w, h, l, (n - 1) as nat);
        levels_have_bytes(w, h, (n - 1) as nat);
    }
}

proof fn cut_in_two(chain: Seq<u8>, here: int, k: int, next: int)
    requires
        0 <= here,
        0 <= k,
        next == here + k,
        next <= chain.len(),
    ensures
        chain.skip(here).take(k) == chain.subrange(here, next),
        chain.skip(here).skip(k) == chain.skip(next),
{
    assert(chain.skip(here).take(k) =~= chain.subrange(here, next));
    assert(chain.skip(here).skip(k) =~= chain.skip(next));
}

proof fn joined_in_turn(a: Seq<u8>, b: Seq<u8>, c: Seq<u8>)
    ensures
        a + (b + c) == (a + b) + c,
{
    assert(a + (b + c) =~= (a + b) + c);
}

proof fn bc5_goes_on(chain: Seq<u8>, w: int, h: int, l: nat, m: nat)
    requires
        w >= 1,
        h >= 1,
        bytes_before(w, h, l + m) <= chain.len(),
    ensures
        levels_in_bc5(chain, w, h, l) + bc5_chain(
            chain.skip(bytes_before(w, h, l)),
            level_side(w, l),
            level_side(h, l),
            m,
        ) == levels_in_bc5(chain, w, h, l + m),
    decreases m,
{
    let here = bytes_before(w, h, l);
    let (a, b) = (level_side(w, l), level_side(h, l));
    let before = levels_in_bc5(chain, w, h, l);
    sides_are_halved(w, l);
    sides_are_halved(h, l);
    later_levels_begin_later(w, h, l, l + m);
    if m == 0 {
        assert(before + Seq::<u8>::empty() =~= before);
    } else {
        levels_have_bytes(w, h, l);
        later_levels_begin_later(w, h, l + 1, l + m);
        bc5_goes_on(chain, w, h, l + 1, (m - 1) as nat);
        let next = bytes_before(w, h, l + 1);
        cut_in_two(chain, here, 4 * (a * b), next);
        let rest = bc5_chain(chain.skip(next), level_side(w, l + 1), level_side(h, l + 1), (m - 1) as nat);
        let one = bc5_rows(chain.subrange(here, next), a, b, ((b + 3) / 4) as nat);
        joined_in_turn(before, one, rest);
        assert(bc5_chain(chain.skip(here), a, b, m) == one + rest);
        assert(levels_in_bc5(chain, w, h, l + 1) == before + one);
    }
}

proof fn bc3_goes_on(chain: Seq<u8>, w: int, h: int, l: nat, m: nat)
    requires
        w >= 1,
        h >= 1,
        bytes_before(w, h, l + m) <= chain.len(),
    ensures
        levels_in_bc3(chain, w, h, l) + bc3_chain(
            chain.skip(bytes_before(w, h, l)),
            level_side(w, l),
            level_side(h, l),
            m,
        ) == levels_in_bc3(chain, w, h, l + m),
    decreases m,
{
    let here = bytes_before(w, h, l);
    let (a, b) = (level_side(w, l), level_side(h, l));
    let before = levels_in_bc3(chain, w, h, l);
    sides_are_halved(w, l);
    sides_are_halved(h, l);
    later_levels_begin_later(w, h, l, l + m);
    if m == 0 {
        assert(before + Seq::<u8>::empty() =~= before);
    } else {
        levels_have_bytes(w, h, l);
        later_levels_begin_later(w, h, l + 1, l + m);
        bc3_goes_on(chain, w, h, l + 1, (m - 1) as nat);
        let next = bytes_before(w, h, l + 1);
        cut_in_two(chain, here, 4 * (a * b), next);
        let rest = bc3_chain(chain.skip(next), level_side(w, l + 1), level_side(h, l + 1), (m - 1) as nat);
        let one = bc3_image(chain.subrange(here, next), a as usize, b as usize);
        joined_in_turn(before, one, rest);
        assert(bc3_chain(chain.skip(here), a, b, m) == one + rest);
        assert(levels_in_bc3(chain, w, h, l + 1) == before + one);
    }
}

/// Every level of a chain is compressed on its own, from its own bytes and at its own size, and the
/// levels keep their order.
pub proof fn levels_are_compressed_in_turn(chain: Seq<u8>, w: int, h: int, n: nat)
    requires
        w >= 1,
        h >= 1,
        bytes_before(w, h, n) <= chain.len(),
    ensures
        bc5_chain(chain, w, h, n) == levels_in_bc5(chain, w, h, n),
        bc3_chain(chain, w, h, n) == levels_in_bc3(chain, w, h, n),
{
    sides_are_halved(w, 0);
    sides_are_halved(h, 0);
    bc5_goes_on(chain, w, h, 0, n);
    bc3_goes_on(chain, w, h, 0, n);
    assert(chain.skip(0) =~= chain);
    assert(levels_in_bc5(chain, w, h, 0) + bc5_chain(chain, w, h, n) =~= bc5_chain(chain, w, h, n));
    assert(levels_in_bc3(chain, w, h, 0) + bc3_chain(chain, w, h, n) =~= bc3_chain(chain, w, h, n));
}

proof fn level_stands_in_bc5(chain: Seq<u8>, w: int, h: int, n: nat, l: nat)
    requires
        w >= 1,
        h >= 1,
        l < n,
    ensures
        levels_in_bc5(chain, w, h, n).len() == blocks_before(w, h, n),
        0 <= blocks_before(w, h, l) <= blocks_before(w, h, l + 1) <= blocks_before(w, h, n),
        levels_in_bc5(chain, w, h, n).subrange(blocks_before(w, h, l), blocks_before(w, h, l + 1)) == bc5_rows(
            chain.subrange(bytes_before(w, h, l), bytes_before(w, h, l + 1)),
            level_side(w, l),
            level_side(h, l),
            ((level_side(h, l) + 3) / 4) as nat,
        ),
    decreases n,
{
    let k = (n - 1) as nat;
    sides_are_halved(w, k);
    sides_are_halved(h, k);
    let one = bc5_rows(
        chain.subrange(bytes_before(w, h, k), bytes_before(w, h, n)),
        level_side(w, k),
        level_side(h, k),
        ((level_side(h, k) + 3) / 4) as nat,
    );
    bc5_rows_len(
        chain.subrange(bytes_before(w, h, k), bytes_before(w, h, n)),
        level_side(w, k),
        level_side(h, k),
        ((level_side(h, k) + 3) / 4) as nat,
    );
    let (a, b) = ((level_side(h, k) + 3) / 4, (level_side(w, k) + 3) / 4);
    assert(a * b >= 0) by (nonlinear_arith)
        requires
            a >= 0,
            b >= 0,
    ;
    let before = levels_in_bc5(chain, w, h, k);
    if k > 0 {
        if l < k {
            level_stands_in_bc5(chain, w, h, k, l);
            assert(levels_in_bc5(chain, w, h, n).subrange(blocks_before(w, h, l), blocks_before(w, h, l + 1))
                =~= before.subrange(blocks_before(w, h, l), blocks_before(w, h, l + 1)));
        } else {
            level_stands_in_bc5(chain, w, h, k, (k - 1) as nat);
        }
    }
    if l == k {
        assert(levels_in_bc5(chain, w, h, n).subrange(blocks_before(w, h, l), blocks_before(w, h, l + 1))
            =~= one);
    }
}

/// Texel (x, y) of level `l` of a compressed normal map shows the red and the green of that very texel
/// of that very level of the chain, within the error of its block.
pub proof fn compressed_normal_maps_show_their_texels(
    chain: Seq<u8>,
    w: int,
    h: int,
    n: nat,
    l: nat,
    x: int,
    y: int,
    c: int,
)
    requires
        w >= 1,
        h >= 1,
        bytes_before(w, h, n) <= chain.len(),
        l < n,
        0 <= x < level_side(w, l),
        0 <= y < level_side(h, l),
        c == 0 || c == 1,
    ensures
        ({
            let across = (level_side(w, l) + 3) / 4;
            let at = blocks_before(w, h, l) + 16 * ((y / 4) * across + x / 4) + 8 * c;
            let block = bc5_chain(chain, w, h, n).subrange(at, at + 8);
            let own = chain[bytes_before(w, h, l) + (y * level_side(w, l) + x) * 4 + c];
            &&& 0 <= at
            &&& at + 8 <= bc5_chain(chain, w, h, n).len()
            &&& block[1] <= own <= block[0]
            &&& 14 * apart(shown(block, (4 * (y % 4) + x % 4) as nat), own as int) <= block[0] - block[1] + 8
        }),
{
    let (a, b) = (level_side(w, l), level_side(h, l));
    let (from, to) = (bytes_before(w, h, l), bytes_before(w, h, l + 1));
    let own = chain.subrange(from, to);
    let whole = bc5_chain(chain, w, h, n);
    let (start, end) = (blocks_before(w, h, l), blocks_before(w, h, l + 1));
    let level = bc5_rows(own, a, b, ((b + 3) / 4) as nat);
    let at = 16 * ((y / 4) * ((a + 3) / 4) + x / 4) + 8 * c;
    levels_are_compressed_in_turn(chain, w, h, n);
    level_stands_in_bc5(chain, w, h, n, l);
    assert(whole.subrange(start, end) == level);
    later_levels_begin_later(w, h, l, l + 1);
    later_levels_begin_later(w, h, l + 1, n);
    sides_are_halved(w, l);
    sides_are_halved(h, l);
    normal_maps_keep_red_and_green(own, a, b, x, y, c);
    part_of_part(whole, start, end, at);
    texel_of_level(a, b, x, y, c);
    assert(own[(y * a + x) * 4 + c] == chain[from + (y * a + x) * 4 + c]);
}

proof fn part_of_part(s: Seq<u8>, start: int, end: int, at: int)
    requires
        0 <= start <= end <= s.len(),
        0 <= at,
        at + 8 <= end - start,
    ensures
        s.subrange(start, end).subrange(at, at + 8) == s.subrange(start + at, start + at + 8),
{
    assert(s.subrange(start, end).subrange(at, at + 8) =~= s.subrange(start + at, start + at + 8));
}

proof fn texel_of_level(w: int, h: int, x: int, y: int, c: int)
    by (nonlinear_arith)
    requires
        0 <= x < w,
        0 <= y < h,
        0 <= c <= 1,
    ensures
        0 <= (y * w + x) * 4 + c < 4 * (w * h),
{
}

/// A chain and its compressed form are as long as the sizes of their levels say.
pub proof fn chains_are_as_long_as_their_levels(w: int, h: int, n: nat)
    requires
        w >= 1,
        h >= 1,
    ensures
        chain_len(w, h, n) == bytes_before(w, h, n),
        payload_len(w, h, n) == blocks_before(w, h, n),
{
    sides_are_halved(w, 0);
    sides_are_halved(h, 0);
    lengths_go_on(w, h, 0, n);
}

proof fn lengths_go_on(w: int, h: int, l: nat, m: nat)
    requires
        w >= 1,
        h >= 1,
    ensures
        bytes_before(w, h, l) + chain_len(level_side(w, l), level_side(h, l), m) == bytes_before(w, h, l + m),
        blocks_before(w, h, l) + payload_len(level_side(w, l), level_side(h, l), m) == blocks_before(
            w,
            h,
            l + m,
        ),
    decreases m,
{
    sides_are_halved(w, l);
    sides_are_halved(h, l);
    if m > 0 {
        lengths_go_on(w, h, l + 1, (m - 1) as nat);
        let (a, b) = ((level_side(w, l) + 3) / 4, (level_side(h, l) + 3) / 4);
        assert(a * b * 16 == 16 * (b * a)) by (nonlinear_arith);
    }
}

/// A decoded image is compressed exactly where compression is on and neither side is below 64 texels:
/// a normal map to two channels, anything else as colour, at its own size. Otherwise it is left as it
/// is. Without an image one texel of the placeholder is shown.
pub proof fn large_images_are_compressed(
    w: u32,
    h: u32,
    rgba: Seq<u8>,
    bc: bool,
    is_normal: bool,
    placeholder: Seq<u8>,
)
    ensures
        ({
            let t = image_texture(Some((w, h, rgba)), bc, is_normal, placeholder);
            &&& t is Bc5 <==> bc && w >= 64 && h >= 64 && is_normal
            &&& t is Bc3 <==> bc && w >= 64 && h >= 64 && !is_normal
            &&& t matches TexModel::Bc5 { w: tw, h: th, .. } ==> tw == w && th == h
            &&& t matches TexModel::Bc3 { w: tw, h: th, .. } ==> tw == w && th == h
            &&& t matches TexModel::Raw { w: tw, h: th, chain, .. } ==> (w > 0 ==> tw == w) && (h > 0 ==> th
                == h) && rgba.is_prefix_of(chain)
        }),
        image_texture(None, bc, is_normal, placeholder) == (TexModel::Raw {
            w: 1,
            h: 1,
            mips: 1,
            chain: placeholder,
        }),
{
    images_come_first(w, h, rgba);
    images_come_first(crate::texture::prepare::at_least_one(w), crate::texture::prepare::at_least_one(h), rgba);
    images_come_first(1, 1, placeholder);
}

/// A cache file begins with width, height and number of levels, four bytes each and the lowest first;
/// everything behind is the payload. It is taken exactly where the sides are 1 to 16384, the levels 1
/// to 16, and the payload has the length of that many levels of blocks.
pub proof fn cache_files_begin_with_their_size(bytes: Seq<u8>)
    ensures
        match parsed_entry(bytes) {
            Some(e) => {
                &&& bytes.len() > 12
                &&& e.w == bytes[0] + 256 * bytes[1] + 65536 * bytes[2] + 16777216 * bytes[3]
                &&& e.h == bytes[4] + 256 * bytes[5] + 65536 * bytes[6] + 16777216 * bytes[7]
                &&& e.mips == bytes[8] + 256 * bytes[9] + 65536 * bytes[10] + 16777216 * bytes[11]
                &&& e.payload == bytes.subrange(12, bytes.len() as int)
                &&& 1 <= e.w <= 16384 && 1 <= e.h <= 16384 && 1 <= e.mips <= 16
                &&& e.payload.len() == blocks_before(e.w as int, e.h as int, e.mips as nat)
            },
            None => bytes.len() <= 12 || ({
                let (w, h, n) = (
                    bytes[0] + 256 * bytes[1] + 65536 * bytes[2] + 16777216 * bytes[3],
                    bytes[4] + 256 * bytes[5] + 65536 * bytes[6] + 16777216 * bytes[7],
                    bytes[8] + 256 * bytes[9] + 65536 * bytes[10] + 16777216 * bytes[11],
                );
                !(1 <= w <= 16384 && 1 <= h <= 16384 && 1 <= n <= 16 && bytes.len() - 12 == blocks_before(
                    w,
                    h,
                    n as nat,
                ))
            }),
        },
{
    let (w, h, n) = (word_at(bytes, 0), word_at(bytes, 4), word_at(bytes, 8));
    if w >= 1 && h >= 1 {
        chains_are_as_long_as_their_levels(w as int, h as int, n as nat);
    }
    assert(bytes.len() > 12 ==> bytes.skip(12) =~= bytes.subrange(12, bytes.len() as int));
}

} // verus!
