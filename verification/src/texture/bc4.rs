//! One 4x4 block of a single 8-bit channel in eight bytes: two endpoints and sixteen 3-bit codes.
use vstd::prelude::*;

verus! {

/// The largest of the first `n` values, at least 0.
pub open spec fn block_max(vals: Seq<u8>, n: nat) -> u8
    decreases n,
{
    if n == 0 {
        0
    } else {
        let m = block_max(vals, (n - 1) as nat);
        if vals[n - 1] > m {
            vals[n - 1]
        } else {
            m
        }
    }
}

/// The smallest of the first `n` values, at most 255.
pub open spec fn block_min(vals: Seq<u8>, n: nat) -> u8
    decreases n,
{
    if n == 0 {
        255
    } else {
        let m = block_min(vals, (n - 1) as nat);
        if vals[n - 1] < m {
            vals[n - 1]
        } else {
            m
        }
    }
}

/// The value that code `k` stands for between the endpoints `r0` and `r1`: the endpoints themselves,
/// then six steps from the first to the second, rounded to the nearest.
pub open spec fn code_value(r0: u8, r1: u8, k: int) -> int {
    if k == 1 {
        r1 as int
    } else if k == 0 || r0 <= r1 {
        r0 as int
    } else {
        ((8 - k) * r0 + (k - 1) * r1 + 3) / 7
    }
}

/// How far code `k` is from the value `v`.
pub open spec fn code_error(r0: u8, r1: u8, v: u8, k: int) -> int {
    let d = v - code_value(r0, r1, k);
    if d < 0 {
        -d
    } else {
        d
    }
}

/// The first of the codes below `n` that comes nearest to `v`.
pub open spec fn nearest_code(r0: u8, r1: u8, v: u8, n: nat) -> int
    decreases n,
{
    if n <= 1 {
        0
    } else {
        let b = nearest_code(r0, r1, v, (n - 1) as nat);
        if code_error(r0, r1, v, n - 1) < code_error(r0, r1, v, b) {
            n - 1
        } else {
            b
        }
    }
}

/// Eight to the power `n`.
pub open spec fn pow8(n: nat) -> int
    decreases n,
{
    if n == 0 {
        1
    } else {
        8 * pow8((n - 1) as nat)
    }
}

/// The codes of the first `n` texels as one number, the first texel in the lowest three bits.
pub open spec fn packed_codes(vals: Seq<u8>, n: nat) -> int
    decreases n,
{
    if n == 0 {
        0
    } else {
        packed_codes(vals, (n - 1) as nat) + nearest_code(
            block_max(vals, 16),
            block_min(vals, 16),
            vals[n - 1],
            8,
        ) * pow8((n - 1) as nat)
    }
}

/// The eight bytes of a block of sixteen values.
pub open spec fn bc4(vals: Seq<u8>) -> Seq<u8> {
    let p = packed_codes(vals, 16);
    seq![
        block_max(vals, 16),
        block_min(vals, 16),
        (p % 256) as u8,
        ((p / 0x100) % 256) as u8,
        ((p / 0x1_0000) % 256) as u8,
        ((p / 0x100_0000) % 256) as u8,
        ((p / 0x1_0000_0000) % 256) as u8,
        ((p / 0x100_0000_0000) % 256) as u8,
    ]
}

/// The code chosen for a value is one of the eight, and no other comes nearer.
pub proof fn nearest_code_is_best(r0: u8, r1: u8, v: u8, n: nat, k: int)
    requires
        0 <= k < n,
    ensures
        0 <= nearest_code(r0, r1, v, n) < n,
        code_error(r0, r1, v, nearest_code(r0, r1, v, n)) <= code_error(r0, r1, v, k),
    decreases n,
{
    if n > 1 {
        if k < n - 1 {
            nearest_code_is_best(r0, r1, v, (n - 1) as nat, k);
        } else {
            nearest_code_is_best(r0, r1, v, (n - 1) as nat, 0);
        }
    }
}

/// Every value of a block lies between its two endpoints.
pub proof fn endpoints_bound_block(vals: Seq<u8>, n: nat, i: int)
    requires
        0 <= i < n <= vals.len(),
    ensures
        block_min(vals, n) <= vals[i] <= block_max(vals, n),
    decreases n,
{
    if i < n - 1 {
        endpoints_bound_block(vals, (n - 1) as nat, i);
    }
}

/// The largest value of a block and the smallest come back without error.
pub proof fn endpoints_are_exact(vals: Seq<u8>, i: int)
    requires
        vals.len() == 16,
        0 <= i < 16,
        vals[i] == block_max(vals, 16) || vals[i] == block_min(vals, 16),
    ensures
        code_value(
            block_max(vals, 16),
            block_min(vals, 16),
            nearest_code(block_max(vals, 16), block_min(vals, 16), vals[i], 8),
        ) == vals[i],
{
    let r0 = block_max(vals, 16);
    let r1 = block_min(vals, 16);
    let k: int = if vals[i] == r0 {
        0
    } else {
        1
    };
    nearest_code_is_best(r0, r1, vals[i], 8, k);
}

/// Eight to the power `i` is one moved by three bits `i` times.
pub proof fn pow8_is_shift(i: u64)
    requires
        i < 16,
    ensures
        pow8(i as nat) == 1u64 << (3 * i),
        pow8(i as nat) > 0,
    decreases i,
{
    if i == 0 {
        assert(1u64 << 0u64 == 1u64) by (bit_vector);
    } else {
        pow8_is_shift((i - 1) as u64);
        let j: u64 = (i - 1) as u64;
        assert(1u64 << (3 * i) == 8 * (1u64 << (3 * j))) by (bit_vector)
            requires
                i < 16,
                i >= 1,
                j == i - 1,
        ;
    }
}

/// The packed codes of `n` texels take three bits each.
pub proof fn packed_bound(vals: Seq<u8>, n: nat)
    requires
        n <= 16,
    ensures
        0 <= packed_codes(vals, n) < pow8(n),
    decreases n,
{
    if n > 0 {
        packed_bound(vals, (n - 1) as nat);
        let c = nearest_code(block_max(vals, 16), block_min(vals, 16), vals[n - 1], 8);
        nearest_code_is_best(block_max(vals, 16), block_min(vals, 16), vals[n - 1], 8, 0);
        let p = pow8((n - 1) as nat);
        assert(0 <= c * p <= 7 * p) by (nonlinear_arith)
            requires
                0 <= c <= 7,
                p > 0,
        ;
    }
}

/// The code nearest to `v`.
fn best_code(r0: u8, r1: u8, v: u8) -> (k: u64)
    ensures
        k == nearest_code(r0, r1, v, 8),
        k < 8,
{
    let mut best: u64 = 0;
    let mut best_d: i32 = if v >= r0 {
        v as i32 - r0 as i32
    } else {
        r0 as i32 - v as i32
    };
    let mut k: u64 = 1;
    while k < 8
        invariant
            1 <= k <= 8,
            best < k,
            best == nearest_code(r0, r1, v, k as nat),
            best_d == code_error(r0, r1, v, best as int),
        decreases 8 - k,
    {
        let rk: i32 = if k == 1 {
            r1 as i32
        } else if r0 <= r1 {
            r0 as i32
        } else {
            let a: i32 = k as i32;
            proof {
                assert(0 <= (8 - a) * r0 <= 6 * 255) by (nonlinear_arith)
                    requires
                        2 <= a <= 7,
                        r0 <= 255,
                ;
                assert(0 <= (a - 1) * r1 <= 6 * 255) by (nonlinear_arith)
                    requires
                        2 <= a <= 7,
                        r1 <= 255,
                ;
            }
            ((8 - a) * r0 as i32 + (a - 1) * r1 as i32 + 3) / 7
        };
        assert(rk == code_value(r0, r1, k as int));
        let d: i32 = if v as i32 >= rk {
            v as i32 - rk
        } else {
            rk - v as i32
        };
        if d < best_d {
            best_d = d;
            best = k;
        }
        k = k + 1;
    }
    best
}

/// Encode sixteen values of one channel.
pub fn bc4_block(vals: &[u8; 16]) -> (out: [u8; 8])
    ensures
        out@ == bc4(vals@),
{
    let mut lo: u8 = 255;
    let mut hi: u8 = 0;
    let mut i: usize = 0;
    while i < 16
        invariant
            i <= 16,
            lo == block_min(vals@, i as nat),
            hi == block_max(vals@, i as nat),
        decreases 16 - i,
    {
        if vals[i] < lo {
            lo = vals[i];
        }
        if vals[i] > hi {
            hi = vals[i];
        }
        i = i + 1;
    }
    let mut bits: u64 = 0;
    let mut t: u64 = 0;
    while t < 16
        invariant
            t <= 16,
            lo == block_min(vals@, 16),
            hi == block_max(vals@, 16),
            bits == packed_codes(vals@, t as nat),
        decreases 16 - t,
    {
        let best: u64 = best_code(hi, lo, vals[t as usize]);
        proof {
            packed_bound(vals@, t as nat);
            pow8_is_shift(t);
            assert(bits | (best << (3 * t)) == bits + best * (1u64 << (3 * t))) by (bit_vector)
                requires
                    t < 16,
                    best < 8,
                    bits < 1u64 << (3 * t),
            ;
        }
        bits = bits | (best << (3 * t));
        t = t + 1;
    }
    let out: [u8; 8] = [
        hi,
        lo,
        (bits % 256) as u8,
        ((bits / 0x100) % 256) as u8,
        ((bits / 0x1_0000) % 256) as u8,
        ((bits / 0x100_0000) % 256) as u8,
        ((bits / 0x1_0000_0000) % 256) as u8,
        ((bits / 0x100_0000_0000) % 256) as u8,
    ];
    proof {
        assert(out@ =~= bc4(vals@));
    }
    out
}

} // verus!
