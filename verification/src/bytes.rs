//! Little-endian words in byte sequences.
use vstd::prelude::*;

verus! {

/// The four bytes of a 32-bit word, the lowest first.
pub open spec fn le32(x: u32) -> Seq<u8> {
    seq![
        (x % 256) as u8,
        ((x / 256) % 256) as u8,
        ((x / 65536) % 256) as u8,
        ((x / 16777216) % 256) as u8,
    ]
}

/// The 32-bit word that stands in `s` from position `k` on.
pub open spec fn word_at(s: Seq<u8>, k: int) -> u32 {
    (s[k] + s[k + 1] * 256 + s[k + 2] * 65536 + s[k + 3] * 16777216) as u32
}

/// The two bytes of a 16-bit word, the lowest first.
pub open spec fn le16(x: u16) -> Seq<u8> {
    seq![(x % 256) as u8, ((x / 256) % 256) as u8]
}

/// The 16-bit word that stands in `s` from position `k` on.
pub open spec fn half_at(s: Seq<u8>, k: int) -> u16 {
    (s[k] + s[k + 1] * 256) as u16
}

/// Reading gives back the word that was written, wherever it stands.
pub proof fn word_round_trip(s: Seq<u8>, k: int, x: u32)
    requires
        0 <= k,
        k + 4 <= s.len(),
        s.subrange(k, k + 4) == le32(x),
    ensures
        word_at(s, k) == x,
{
    let t = s.subrange(k, k + 4);
    assert(t[0] == s[k] && t[1] == s[k + 1] && t[2] == s[k + 2] && t[3] == s[k + 3]);
    assert(x == (x % 256) + ((x / 256) % 256) * 256 + ((x / 65536) % 256) * 65536 + ((x / 16777216)
        % 256) * 16777216) by (bit_vector);
}

/// Reading gives back the half word that was written, wherever it stands.
pub proof fn half_round_trip(s: Seq<u8>, k: int, x: u16)
    requires
        0 <= k,
        k + 2 <= s.len(),
        s.subrange(k, k + 2) == le16(x),
    ensures
        half_at(s, k) == x,
{
    let t = s.subrange(k, k + 2);
    assert(t[0] == s[k] && t[1] == s[k + 1]);
    assert(x == (x % 256) + ((x / 256) % 256) * 256) by (bit_vector);
}

/// Append the bytes of `x`.
pub fn push_le32(out: &mut Vec<u8>, x: u32)
    ensures
        final(out)@ == old(out)@ + le32(x),
{
    out.push((x % 256) as u8);
    out.push(((x / 256) % 256) as u8);
    out.push(((x / 65536) % 256) as u8);
    out.push(((x / 16777216) % 256) as u8);
    proof {
        assert(out@ =~= old(out)@ + le32(x));
    }
}

/// Append the bytes of `x`.
pub fn push_le16(out: &mut Vec<u8>, x: u16)
    ensures
        final(out)@ == old(out)@ + le16(x),
{
    out.push((x % 256) as u8);
    out.push(((x / 256) % 256) as u8);
    proof {
        assert(out@ =~= old(out)@ + le16(x));
    }
}

/// The 32-bit word at position `k`.
pub fn read_le32(s: &[u8], k: usize) -> (x: u32)
    requires
        k + 4 <= s@.len(),
    ensures
        x == word_at(s@, k as int),
{
    s[k] as u32 + s[k + 1] as u32 * 256 + s[k + 2] as u32 * 65536 + s[k + 3] as u32 * 16777216
}

/// The 16-bit word at position `k`.
pub fn read_le16(s: &[u8], k: usize) -> (x: u16)
    requires
        k + 2 <= s@.len(),
    ensures
        x == half_at(s@, k as int),
{
    s[k] as u16 + s[k + 1] as u16 * 256
}

/// The part `s[from..to]` as a vector of its own.
pub fn copy_range(s: &[u8], from: usize, to: usize) -> (r: Vec<u8>)
    requires
        from <= to <= s@.len(),
    ensures
        r@ == s@.subrange(from as int, to as int),
{
    let mut r: Vec<u8> = Vec::with_capacity(to - from);
    let mut i: usize = from;
    while i < to
        invariant
            from <= i <= to <= s@.len(),
            r@ == s@.subrange(from as int, i as int),
        decreases to - i,
    {
        r.push(s[i]);
        i = i + 1;
        proof {
            assert(r@ =~= s@.subrange(from as int, i as int));
        }
    }
    r
}

/// Append all of `s`.
pub fn append_bytes(out: &mut Vec<u8>, s: &[u8])
    ensures
        final(out)@ == old(out)@ + s@,
{
    let mut i: usize = 0;
    while i < s.len()
        invariant
            i <= s@.len(),
            out@ == old(out)@ + s@.take(i as int),
        decreases s@.len() - i,
    {
        out.push(s[i]);
        i = i + 1;
        proof {
            assert(out@ =~= old(out)@ + s@.take(i as int));
        }
    }
    assert(s@.take(s@.len() as int) =~= s@);
}

} // verus!
