//! The 64-bit FNV-1a hash: the key of the texture cache and the fingerprint of packed geometry.
use vstd::prelude::*;

verus! {

/// The hash of no bytes at all.
pub const FNV_OFFSET: u64 = 0xcbf2_9ce4_8422_2325;

/// The factor of each step.
pub const FNV_PRIME: u64 = 0x100_0000_01b3;

/// One step of the hash: mix in a byte, then multiply modulo 2^64.
pub open spec fn fnv_step(h: u64, b: u8) -> u64 {
    (((h ^ (b as u64)) * FNV_PRIME) % 0x1_0000_0000_0000_0000) as u64
}

/// The FNV-1a hash of a byte sequence.
pub open spec fn fnv(bytes: Seq<u8>) -> u64
    decreases bytes.len(),
{
    if bytes.len() == 0 {
        FNV_OFFSET
    } else {
        fnv_step(fnv(bytes.drop_last()), bytes.last())
    }
}

/// The FNV-1a hash of `bytes`.
pub fn fnv64(bytes: &[u8]) -> (h: u64)
    ensures
        h == fnv(bytes@),
{
    let mut h: u64 = FNV_OFFSET;
    let mut i: usize = 0;
    while i < bytes.len()
        invariant
            i <= bytes@.len(),
            h == fnv(bytes@.take(i as int)),
        decreases bytes@.len() - i,
    {
        proof {
            assert(bytes@.take(i + 1).drop_last() =~= bytes@.take(i as int));
        }
        h = (h ^ (bytes[i] as u64)).wrapping_mul(FNV_PRIME);
        i = i + 1;
    }
    assert(bytes@.take(bytes@.len() as int) =~= bytes@);
    h
}

/// Hashing goes byte by byte: the hash of a longer text continues the hash of its beginning.
pub proof fn fnv_continues(a: Seq<u8>, b: u8)
    ensures
        fnv(a.push(b)) == fnv_step(fnv(a), b),
{
    assert(a.push(b).drop_last() =~= a);
}

} // verus!
