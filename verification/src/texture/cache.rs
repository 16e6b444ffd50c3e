//! Entries of the shared texture cache: a header of three little-endian words (width, height, mip
//! levels) and the block-compressed levels. An entry is named after the hash of the source file.
use crate::bytes::{
    append_bytes, copy_range, le32, push_le32, read_le32, word_at, word_round_trip,
};
use crate::text::{hex_digits, hex_of};
use crate::texture::chain::{bc3_payload_len, payload_len, payload_len_bound, half, blocks_len};
use vstd::prelude::*;
use vstd::string::*;

verus! {

/// The largest side that an entry may claim.
pub const MAX_SIDE: u32 = 16384;

/// The largest number of mip levels that an entry may claim.
pub const MAX_MIPS: u32 = 16;

/// A block-compressed texture as the cache holds it.
pub struct TexEntry {
    pub w: u32,
    pub h: u32,
    pub mips: u32,
    pub payload: Vec<u8>,
}

/// What an entry holds.
#[verifier::ext_equal]
pub struct TexEntryModel {
    pub w: u32,
    pub h: u32,
    pub mips: u32,
    pub payload: Seq<u8>,
}

impl View for TexEntry {
    type V = TexEntryModel;

    open spec fn view(&self) -> TexEntryModel {
        TexEntryModel { w: self.w, h: self.h, mips: self.mips, payload: self.payload@ }
    }
}

impl TexEntryModel {
    /// Whether the header is plausible and the payload has the length that it calls for.
    pub open spec fn valid(self) -> bool {
        &&& 1 <= self.w <= MAX_SIDE
        &&& 1 <= self.h <= MAX_SIDE
        &&& 1 <= self.mips <= MAX_MIPS
        &&& self.payload.len() == payload_len(self.w as int, self.h as int, self.mips as nat)
    }

    /// The bytes of the entry's file.
    pub open spec fn file(self) -> Seq<u8> {
        le32(self.w) + le32(self.h) + le32(self.mips) + self.payload
    }
}

/// What the bytes of a cache file mean: nothing where they are too few, where the header is not
/// plausible, or where the payload is not exactly as long as the header calls for.
pub open spec fn parsed_entry(bytes: Seq<u8>) -> Option<TexEntryModel> {
    let e = TexEntryModel {
        w: word_at(bytes, 0),
        h: word_at(bytes, 4),
        mips: word_at(bytes, 8),
        payload: bytes.skip(12),
    };
    if bytes.len() > 12 && e.valid() {
        Some(e)
    } else {
        None
    }
}

/// The file name of an entry: sixteen hexadecimal digits of the hash, a dot and the extension.
pub fn texcache_name(hash: u64, ext: &str) -> (r: String)
    ensures
        r@ == hex_digits(hash as nat, 16).push('.') + ext@,
{
    let mut r = hex_of(hash, 16);
    r.push('.');
    r.append(ext);
    r
}

/// The bytes of an entry's file.
pub fn texcache_encode(width: u32, height: u32, mips: u32, payload: &[u8]) -> (r: Vec<u8>)
    ensures
        r@ == (TexEntryModel { w: width, h: height, mips, payload: payload@ }).file(),
{
    let mut r: Vec<u8> = Vec::new();
    push_le32(&mut r, width);
    push_le32(&mut r, height);
    push_le32(&mut r, mips);
    append_bytes(&mut r, payload);
    proof {
        assert(r@ =~= (TexEntryModel { w: width, h: height, mips, payload: payload@ }).file());
    }
    r
}

/// A plausible size takes less than 2^31 bytes.
proof fn plausible_payload(w: u32, h: u32, m: u32)
    requires
        1 <= w <= MAX_SIDE,
        1 <= h <= MAX_SIDE,
        m <= MAX_MIPS,
    ensures
        payload_len(w as int, h as int, m as nat) <= 0x7fff_ffff,
{
    payload_len_bound(w as int, h as int, m as nat);
    assert(w * h <= 16384 * 16384) by (nonlinear_arith)
        requires
            w <= 16384,
            h <= 16384,
    ;
}

/// Read the bytes of a cache file.
pub fn texcache_decode(bytes: &[u8]) -> (r: Option<TexEntry>)
    ensures
        match r {
            Some(e) => parsed_entry(bytes@) == Some(e@),
            None => parsed_entry(bytes@) is None,
        },
{
    if bytes.len() <= 12 {
        return None;
    }
    let w: u32 = read_le32(bytes, 0);
    let h: u32 = read_le32(bytes, 4);
    let m: u32 = read_le32(bytes, 8);
    if w == 0 || h == 0 || m == 0 || w > MAX_SIDE || h > MAX_SIDE || m > MAX_MIPS {
        return None;
    }
    proof {
        plausible_payload(w, h, m);
    }
    if bytes.len() - 12 != bc3_payload_len(w, h, m) {
        return None;
    }
    let payload = copy_range(bytes, 12, bytes.len());
    proof {
        assert(payload@ =~= bytes@.skip(12));
    }
    Some(TexEntry { w, h, mips: m, payload })
}

/// Reading a cache file gives back the entry that was written.
pub proof fn cache_round_trip(e: TexEntryModel)
    requires
        e.valid(),
    ensures
        parsed_entry(e.file()) == Some(e),
{
    let f = e.file();
    assert(f.subrange(0, 4) =~= le32(e.w));
    assert(f.subrange(4, 8) =~= le32(e.h));
    assert(f.subrange(8, 12) =~= le32(e.mips));
    word_round_trip(f, 0, e.w);
    word_round_trip(f, 4, e.h);
    word_round_trip(f, 8, e.mips);
    assert(f.skip(12) =~= e.payload);
    payload_len_bound(half(e.w as int), half(e.h as int), (e.mips - 1) as nat);
    assert(blocks_len(e.w as int, e.h as int) >= 16) by (nonlinear_arith)
        requires
            e.w >= 1,
            e.h >= 1,
            blocks_len(e.w as int, e.h as int) == ((e.w + 3) / 4) * ((e.h + 3) / 4) * 16,
    ;
}

/// A file that was cut short is never taken for an entry.
pub proof fn truncated_entry_is_rejected(e: TexEntryModel, k: int)
    requires
        e.valid(),
        0 <= k < e.file().len(),
    ensures
        parsed_entry(e.file().take(k)) is None,
{
    let f = e.file();
    let g = f.take(k);
    if k > 12 {
        cache_round_trip(e);
        assert(word_at(g, 0) == word_at(f, 0));
        assert(word_at(g, 4) == word_at(f, 4));
        assert(word_at(g, 8) == word_at(f, 8));
    }
}

} // verus!
