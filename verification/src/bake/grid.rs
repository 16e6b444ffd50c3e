//! The grid of probes: its size, its order, and which probes are moved out of walls.
use vstd::prelude::*;
use vstd::arithmetic::div_mod::{lemma_fundamental_div_mod, lemma_fundamental_div_mod_converse};
use crate::f32bits::{float, F32, ONE};

verus! {

/// The most probes in a slice across the first axis.
pub const GRID_MAX_XY: u64 = 8192;

/// The most probes along the first axis.
pub const GRID_MAX_X: usize = 4096;

/// The most probes.
pub const GRID_MAX_PROBES: u64 = 2_600_000;

/// How often a grid is made coarser before it is taken as it is.
pub const MAX_GROWTHS: u32 = 64;

/// Whether a grid is within the limits.
pub open spec fn grid_fits(nx: int, ny: int, nz: int) -> bool {
    ny * nz <= GRID_MAX_XY && nx <= GRID_MAX_X && nx * ny * nz <= GRID_MAX_PROBES
}

/// Whether a grid is within the limits.
pub fn is_within_limits(nx: usize, ny: usize, nz: usize) -> (r: bool)
    ensures
        r == grid_fits(nx as int, ny as int, nz as int),
{
    if nx > GRID_MAX_X {
        return false;
    }
    proof {
        assert(0 <= ny * nz <= 0xffff_ffff_ffff_ffff * 0xffff_ffff_ffff_ffff) by (nonlinear_arith)
            requires
                0 <= ny <= 0xffff_ffff_ffff_ffff,
                0 <= nz <= 0xffff_ffff_ffff_ffff,
        ;
    }
    let slice: u128 = ny as u128 * nz as u128;
    if slice > GRID_MAX_XY as u128 {
        return false;
    }
    proof {
        assert(nx * slice <= 4096 * 8192) by (nonlinear_arith)
            requires
                0 <= nx <= 4096,
                0 <= slice <= 8192,
        ;
        assert(nx * slice == nx * ny * nz) by (nonlinear_arith)
            requires
                slice == ny * nz,
        ;
    }
    nx as u128 * slice <= GRID_MAX_PROBES as u128
}

/// One attempt at a grid that has been tried `growths` times before. Returns the count of attempts
/// and whether the grid is taken: where it is within the limits, or has been made coarser too often.
pub fn grid_attempt(growths: u32, nx: usize, ny: usize, nz: usize) -> (r: (u32, bool))
    requires
        growths <= MAX_GROWTHS,
    ensures
        r.0 == growths + 1,
        r.1 == (grid_fits(nx as int, ny as int, nz as int) || growths + 1 > MAX_GROWTHS),
{
    let ok = is_within_limits(nx, ny, nz);
    let guard: u32 = growths + 1;
    (guard, ok || guard > MAX_GROWTHS)
}

/// Of how many triangles one is sampled for the extent of the grid.
pub fn sample_step(triangles: usize) -> (r: usize)
    ensures
        r == (if triangles / 500_000 > 1 {
            triangles / 500_000
        } else {
            1
        }),
{
    let s: usize = triangles / 500_000;
    if s > 1 {
        s
    } else {
        1
    }
}

/// The number of the probe in cell (x, y, z).
pub open spec fn probe_index(x: int, y: int, z: int, nx: int, ny: int) -> int {
    (z * ny + y) * nx + x
}

/// A cell of the grid.
#[derive(Clone, Copy, Debug, PartialEq, Eq, Structural)]
pub struct Cell {
    pub x: usize,
    pub y: usize,
    pub z: usize,
}

/// The cell of probe `p`.
pub open spec fn cell_of(p: int, nx: int, ny: int) -> (int, int, int) {
    (p % nx, (p / nx) % ny, p / (nx * ny))
}

/// The cell of probe `p`.
pub fn probe_cell(p: usize, nx: usize, ny: usize) -> (r: Cell)
    requires
        nx > 0,
        ny > 0,
        nx * ny <= usize::MAX,
    ensures
        (r.x as int, r.y as int, r.z as int) == cell_of(p as int, nx as int, ny as int),
        r.x < nx,
        r.y < ny,
{
    proof {
        assert(nx * ny > 0) by (nonlinear_arith)
            requires
                nx > 0,
                ny > 0,
        ;
    }
    Cell { x: p % nx, y: (p / nx) % ny, z: p / (nx * ny) }
}

/// A probe's number and its cell determine each other.
pub proof fn probe_order(x: int, y: int, z: int, nx: int, ny: int)
    requires
        0 <= x < nx,
        0 <= y < ny,
        0 <= z,
    ensures
        cell_of(probe_index(x, y, z, nx, ny), nx, ny) == (x, y, z),
{
    let p = probe_index(x, y, z, nx, ny);
    lemma_fundamental_div_mod_converse(p, nx, z * ny + y, x);
    lemma_fundamental_div_mod_converse(z * ny + y, ny, z, y);
    assert(nx * ny > 0) by (nonlinear_arith)
        requires
            nx > 0,
            ny > 0,
    ;
    assert(p == z * (nx * ny) + (y * nx + x)) by (nonlinear_arith)
        requires
            p == (z * ny + y) * nx + x,
    ;
    assert(0 <= y * nx + x < nx * ny) by (nonlinear_arith)
        requires
            0 <= x < nx,
            0 <= y < ny,
    ;
    lemma_fundamental_div_mod_converse(p, nx * ny, z, y * nx + x);
}

/// The number of a cell in the grid is that of a probe.
pub proof fn cell_index_bound(x: int, y: int, z: int, nx: int, ny: int, nz: int)
    requires
        0 <= x < nx,
        0 <= y < ny,
        0 <= z < nz,
    ensures
        0 <= probe_index(x, y, z, nx, ny) < nx * ny * nz,
{
    assert(0 <= z * ny + y <= nz * ny - 1) by (nonlinear_arith)
        requires
            0 <= y < ny,
            0 <= z < nz,
    ;
    let r = z * ny + y;
    assert(0 <= r * nx + x < (nz * ny) * nx) by (nonlinear_arith)
        requires
            0 <= r <= nz * ny - 1,
            0 <= x < nx,
    ;
    assert((nz * ny) * nx == nx * ny * nz) by (nonlinear_arith);
}

/// The validity from which a probe counts as being in the open.
pub const OPEN: u8 = 128;

/// Whether the probe of cell (x, y, z) exists and is in the open.
pub open spec fn open_at(validity: Seq<u8>, nx: int, ny: int, nz: int, x: int, y: int, z: int) -> bool {
    0 <= x < nx && 0 <= y < ny && 0 <= z < nz && validity[probe_index(x, y, z, nx, ny)] >= OPEN
}

/// Whether one of the six neighbours of probe `p` is in the open.
pub open spec fn by_the_open(validity: Seq<u8>, nx: int, ny: int, nz: int, p: int) -> bool {
    let (x, y, z) = cell_of(p, nx, ny);
    ||| open_at(validity, nx, ny, nz, x + 1, y, z)
    ||| open_at(validity, nx, ny, nz, x - 1, y, z)
    ||| open_at(validity, nx, ny, nz, x, y + 1, z)
    ||| open_at(validity, nx, ny, nz, x, y - 1, z)
    ||| open_at(validity, nx, ny, nz, x, y, z + 1)
    ||| open_at(validity, nx, ny, nz, x, y, z - 1)
}

fn is_open_at(validity: &Vec<u8>, nx: usize, ny: usize, nz: usize, x: usize, y: usize, z: usize) -> (r: bool)
    requires
        validity@.len() == nx * ny * nz,
        nx * ny * nz <= usize::MAX,
    ensures
        r == open_at(validity@, nx as int, ny as int, nz as int, x as int, y as int, z as int),
{
    if x >= nx || y >= ny || z >= nz {
        return false;
    }
    proof {
        cell_index_bound(x as int, y as int, z as int, nx as int, ny as int, nz as int);
        assert(z * ny + y <= (z * ny + y) * nx + x) by (nonlinear_arith)
            requires
                nx >= 1,
                0 <= z * ny + y,
                0 <= x,
        ;
        assert(0 <= z * ny) by (nonlinear_arith)
            requires
                0 <= z,
                0 <= ny,
        ;
        assert(0 <= (z * ny + y) * nx) by (nonlinear_arith)
            requires
                0 <= z * ny + y,
                0 <= nx,
        ;
    }
    validity[(z * ny + y) * nx + x] >= OPEN
}

/// Whether one of the six neighbours of a probe is in the open.
pub fn borders_valid(validity: &Vec<u8>, nx: usize, ny: usize, nz: usize, p: usize) -> (r: bool)
    requires
        nx > 0,
        ny > 0,
        validity@.len() == nx * ny * nz,
        nx * ny * nz <= usize::MAX,
        p < validity@.len(),
    ensures
        r == by_the_open(validity@, nx as int, ny as int, nz as int, p as int),
{
    proof {
        assert(nx * ny <= nx * ny * nz) by (nonlinear_arith)
            requires
                nx > 0,
                ny > 0,
                0 <= p < nx * ny * nz,
        ;
    }
    let c = probe_cell(p, nx, ny);
    proof {
        let q = nx * ny;
        assert(q > 0) by (nonlinear_arith)
            requires
                nx > 0,
                ny > 0,
                q == nx * ny,
        ;
        assert(c.z < nz) by {
            lemma_fundamental_div_mod(p as int, q);
            assert(c.z < nz) by (nonlinear_arith)
                requires
                    p == q * c.z + p as int % q,
                    0 <= p as int % q,
                    p < q * nz,
                    q > 0,
            ;
        }
    }
    (c.x + 1 < nx && is_open_at(validity, nx, ny, nz, c.x + 1, c.y, c.z)) || (c.x > 0 && is_open_at(
        validity,
        nx,
        ny,
        nz,
        c.x - 1,
        c.y,
        c.z,
    )) || (c.y + 1 < ny && is_open_at(validity, nx, ny, nz, c.x, c.y + 1, c.z)) || (c.y > 0 && is_open_at(
        validity,
        nx,
        ny,
        nz,
        c.x,
        c.y - 1,
        c.z,
    )) || (c.z + 1 < nz && is_open_at(validity, nx, ny, nz, c.x, c.y, c.z + 1)) || (c.z > 0
        && is_open_at(validity, nx, ny, nz, c.x, c.y, c.z - 1))
}

/// Whether a way out of the geometry is looked for: for a probe that is in it, beside one that is not.
pub fn wants_move(validity: &Vec<u8>, nx: usize, ny: usize, nz: usize, p: usize) -> (r: bool)
    requires
        nx > 0,
        ny > 0,
        validity@.len() == nx * ny * nz,
        nx * ny * nz <= usize::MAX,
        p < validity@.len(),
    ensures
        r == (validity@[p as int] < OPEN && by_the_open(
            validity@,
            nx as int,
            ny as int,
            nz as int,
            p as int,
        )),
{
    validity[p] < OPEN && borders_valid(validity, nx, ny, nz, p)
}

/// How many of the first `n` probes are inside geometry.
pub open spec fn buried(validity: Seq<u8>, n: nat) -> nat
    decreases n,
{
    if n == 0 {
        0
    } else {
        buried(validity, (n - 1) as nat) + if validity[n - 1] < OPEN {
            1nat
        } else {
            0nat
        }
    }
}

/// How many probes are inside geometry.
pub fn count_buried(validity: &Vec<u8>) -> (r: usize)
    ensures
        r == buried(validity@, validity@.len()),
{
    let n: usize = validity.len();
    let mut r: usize = 0;
    let mut i: usize = 0;
    while i < n
        invariant
            i <= n,
            n == validity@.len(),
            r == buried(validity@, i as nat),
            r <= i,
        decreases n - i,
    {
        if validity[i] < OPEN {
            r = r + 1;
        }
        i = i + 1;
    }
    r
}

/// From which share of back faces among what its rays hit a place lies inside of something: 0.25.
pub const INSIDE_FROM: u32 = 0x3e80_0000;

/// Whether a place with this share of back faces lies in the open.
pub open spec fn in_the_open(ratio: F32) -> bool {
    ratio.lt(float(INSIDE_FROM))
}

/// Whether a place with this share of back faces lies in the open. A probe that does is not moved.
pub fn is_in_the_open(ratio: F32) -> (r: bool)
    ensures
        r == in_the_open(ratio),
{
    ratio.less(F32 { bits: INSIDE_FROM })
}

/// Which of the places around a buried probe it is lit from, given the share of back faces at each:
/// the most open of those that lie in the open, the first of equals; none where all lie inside.
pub fn choose_offset(ratios: &Vec<F32>) -> (r: Option<usize>)
    ensures
        match r {
            Some(k) => {
                &&& k < ratios@.len()
                &&& in_the_open(ratios@[k as int])
                &&& forall|j: int| 0 <= j < ratios@.len() ==> !(#[trigger] ratios@[j]).lt(ratios@[k as int])
                &&& forall|j: int|
                    0 <= j < k && in_the_open(ratios@[j]) ==> ratios@[k as int].lt(#[trigger] ratios@[j])
            },
            None => none_open(ratios@),
        },
{
    let mut best: Option<usize> = None;
    let mut i: usize = 0;
    while i < ratios.len()
        invariant
            i <= ratios@.len(),
            match best {
                Some(k) => {
                    &&& k < i
                    &&& in_the_open(ratios@[k as int])
                    &&& forall|j: int| 0 <= j < i ==> !(#[trigger] ratios@[j]).lt(ratios@[k as int])
                    &&& forall|j: int|
                        0 <= j < k && in_the_open(ratios@[j]) ==> ratios@[k as int].lt(#[trigger] ratios@[j])
                },
                None => forall|j: int| 0 <= j < i ==> !in_the_open(#[trigger] ratios@[j]),
            },
        decreases ratios@.len() - i,
    {
        let better = match best {
            Some(k) => ratios[i].less(ratios[k]),
            None => true,
        };
        if is_in_the_open(ratios[i]) && better {
            best = Some(i);
        }
        i = i + 1;
    }
    best
}

/// A direction in which a probe may be moved; it is made as long as the step.
#[derive(Clone, Copy, Debug, PartialEq, Eq, Structural)]
pub struct Way {
    pub x: i32,
    pub y: i32,
    pub z: i32,
}

/// The direction with the given parts.
pub open spec fn way(x: int, y: int, z: int) -> Way {
    Way { x: x as i32, y: y as i32, z: z as i32 }
}

/// The directions in which a probe may be moved, in the order in which they are tried: out of the six
/// faces of its cell, then out of the eight corners.
pub open spec fn ways() -> Seq<Way> {
    seq![
        way(1, 0, 0),
        way(-1, 0, 0),
        way(0, 1, 0),
        way(0, -1, 0),
        way(0, 0, 1),
        way(0, 0, -1),
        way(1, 1, 1),
        way(1, 1, -1),
        way(1, -1, 1),
        way(1, -1, -1),
        way(-1, 1, 1),
        way(-1, 1, -1),
        way(-1, -1, 1),
        way(-1, -1, -1),
    ]
}

/// The directions in which a probe may be moved, in the order in which they are tried.
pub fn offset_ways() -> (r: Vec<Way>)
    ensures
        r@ == ways(),
{
    let r = vec![
        Way { x: 1, y: 0, z: 0 },
        Way { x: -1, y: 0, z: 0 },
        Way { x: 0, y: 1, z: 0 },
        Way { x: 0, y: -1, z: 0 },
        Way { x: 0, y: 0, z: 1 },
        Way { x: 0, y: 0, z: -1 },
        Way { x: 1, y: 1, z: 1 },
        Way { x: 1, y: 1, z: -1 },
        Way { x: 1, y: -1, z: 1 },
        Way { x: 1, y: -1, z: -1 },
        Way { x: -1, y: 1, z: 1 },
        Way { x: -1, y: 1, z: -1 },
        Way { x: -1, y: -1, z: 1 },
        Way { x: -1, y: -1, z: -1 },
    ];
    proof {
        assert(r@ =~= ways());
    }
    r
}

/// What is done next with a probe that may be buried.
#[derive(Clone, Copy, Debug, PartialEq, Eq, Structural)]
pub enum OffsetStep {
    /// The places at this share of the grid's spacing are looked at.
    Look(F32),
    /// The probe is lit from the place with this number.
    Move(usize),
    /// The probe stays where it is.
    Stay,
}

/// The bits of 0.5: the share of the spacing that is tried before the whole of it.
pub const NEAR_SHARE: u32 = 0x3f00_0000;

/// The first step, given the share of back faces where the probe is: one in the open stays.
pub fn begin_offset(ratio: F32) -> (r: OffsetStep)
    ensures
        r == (if in_the_open(ratio) {
            OffsetStep::Stay
        } else {
            OffsetStep::Look(float(NEAR_SHARE))
        }),
{
    if is_in_the_open(ratio) {
        OffsetStep::Stay
    } else {
        OffsetStep::Look(F32 { bits: NEAR_SHARE })
    }
}

/// The step after the places at a share of the spacing have been looked at, given the share of back
/// faces at each: the probe moves to the most open of those in the open; where there is none, the
/// places further away come next, and beyond those the probe stays.
pub fn next_offset(share: F32, ratios: &Vec<F32>) -> (r: OffsetStep)
    ensures
        match r {
            OffsetStep::Move(k) => {
                &&& k < ratios@.len()
                &&& in_the_open(ratios@[k as int])
                &&& forall|j: int| 0 <= j < ratios@.len() ==> !(#[trigger] ratios@[j]).lt(ratios@[k as int])
                &&& forall|j: int|
                    0 <= j < k && in_the_open(ratios@[j]) ==> ratios@[k as int].lt(#[trigger] ratios@[j])
            },
            OffsetStep::Look(s) => s == float(ONE) && share == float(NEAR_SHARE) && none_open(ratios@),
            OffsetStep::Stay => share != float(NEAR_SHARE) && none_open(ratios@),
        },
{
    match choose_offset(ratios) {
        Some(k) => OffsetStep::Move(k),
        None => if share.bits == NEAR_SHARE {
            OffsetStep::Look(F32 { bits: ONE })
        } else {
            OffsetStep::Stay
        },
    }
}

/// Whether no place lies in the open.
pub open spec fn none_open(ratios: Seq<F32>) -> bool {
    forall|j: int| 0 <= j < ratios.len() ==> !in_the_open(#[trigger] ratios[j])
}

/// A probe that was moved is lit from the open, so it counts as open.
pub fn mark_moved(validity: &mut Vec<u8>, moved: &Vec<bool>)
    requires
        moved@.len() == old(validity)@.len(),
    ensures
        final(validity)@ == Seq::new(
            old(validity)@.len(),
            |i: int|
                if moved@[i] {
                    255u8
                } else {
                    old(validity)@[i]
                },
        ),
{
    let ghost before = validity@;
    let n: usize = moved.len();
    let mut i: usize = 0;
    while i < n
        invariant
            i <= n,
            n == moved@.len(),
            validity@.len() == n,
            before.len() == n,
            forall|k: int|
                0 <= k < n ==> #[trigger] validity@[k] == (if k < i && moved@[k] {
                    255u8
                } else {
                    before[k]
                }),
        decreases n - i,
    {
        if moved[i] {
            validity.set(i, 255);
        }
        i = i + 1;
    }
    proof {
        assert(validity@ =~= Seq::new(
            before.len(),
            |i: int|
                if moved@[i] {
                    255u8
                } else {
                    before[i]
                },
        ));
    }
}

/// The coordinate of a corner of the cell that a point lies in: the near one, or the far one as far
/// as the grid goes.
pub open spec fn corner(far: bool, i: int, n: int) -> int {
    if far && i + 1 < n {
        i + 1
    } else {
        i
    }
}

/// The probe at corner `k` of a cell, for interpolation: bit 0 of `k` picks the far side along the
/// first axis, bit 1 along the second and bit 2 along the third.
pub fn tap_index(k: u32, c: Cell, nx: usize, ny: usize, nz: usize) -> (r: usize)
    requires
        k < 8,
        c.x < nx,
        c.y < ny,
        c.z < nz,
        nx * ny * nz <= usize::MAX,
    ensures
        r == probe_index(
            corner(k % 2 == 1, c.x as int, nx as int),
            corner((k / 2) % 2 == 1, c.y as int, ny as int),
            corner(k / 4 == 1, c.z as int, nz as int),
            nx as int,
            ny as int,
        ),
        r < nx * ny * nz,
{
    let x: usize = if k % 2 == 1 && c.x + 1 < nx {
        c.x + 1
    } else {
        c.x
    };
    let y: usize = if (k / 2) % 2 == 1 && c.y + 1 < ny {
        c.y + 1
    } else {
        c.y
    };
    let z: usize = if k / 4 == 1 && c.z + 1 < nz {
        c.z + 1
    } else {
        c.z
    };
    proof {
        cell_index_bound(x as int, y as int, z as int, nx as int, ny as int, nz as int);
        assert(0 <= z * ny) by (nonlinear_arith)
            requires
                0 <= z,
                0 <= ny,
        ;
        assert(z * ny + y <= (z * ny + y) * nx + x) by (nonlinear_arith)
            requires
                nx >= 1,
                0 <= z * ny + y,
                0 <= x,
        ;
        assert(0 <= (z * ny + y) * nx) by (nonlinear_arith)
            requires
                0 <= z * ny + y,
                0 <= nx,
        ;
    }
    (z * ny + y) * nx + x
}

/// Where values stand in the total order.
pub open spec fn ranks(v: Seq<F32>) -> Seq<i64> {
    Seq::new(v.len(), |i: int| v[i].total_rank() as i64)
}

/// Whether `w` holds the ranks of `v`, with none above that at place `k` before it and none below it
/// behind it.
pub open spec fn split_at(w: Seq<i64>, v: Seq<F32>, k: int) -> bool {
    &&& w.to_multiset() == ranks(v).to_multiset()
    &&& 0 <= k < w.len()
    &&& forall|i: int| 0 <= i < k ==> #[trigger] w[i] <= w[k]
    &&& forall|i: int| k < i < w.len() ==> w[k] <= #[trigger] w[i]
}

/// `<[i64]>::select_nth_unstable` of std: the entries are put in another order, such that the one at
/// `k` is where it stands among them in rising order; none before it is larger, none behind it is
/// smaller.
#[verifier::external_body]
fn select_nth(v: &mut Vec<i64>, k: usize)
    requires
        k < old(v)@.len(),
    ensures
        final(v)@.to_multiset() == old(v)@.to_multiset(),
        final(v)@.len() == old(v)@.len(),
        forall|i: int| 0 <= i < k ==> #[trigger] final(v)@[i] <= final(v)@[k as int],
        forall|i: int| k < i < final(v)@.len() ==> final(v)@[k as int] <= #[trigger] final(v)@[i],
{
    v.select_nth_unstable(k);
}

/// The value at place `k` of the rising order.
pub fn nth_value(v: &Vec<F32>, k: usize) -> (r: F32)
    requires
        k < v@.len(),
    ensures
        v@.contains(r),
        exists|w: Seq<i64>| #[trigger] split_at(w, v@, k as int) && w[k as int] == r.total_rank(),
{
    let n: usize = v.len();
    let mut w: Vec<i64> = Vec::new();
    let mut i: usize = 0;
    while i < n
        invariant
            i <= n,
            n == v@.len(),
            w@ == ranks(v@).take(i as int),
        decreases n - i,
    {
        w.push(v[i].total_rank_of());
        proof {
            assert(w@ =~= ranks(v@).take(i + 1));
        }
        i = i + 1;
    }
    proof {
        assert(ranks(v@).take(n as int) =~= ranks(v@));
    }
    select_nth(&mut w, k);
    let rank: i64 = w[k];
    proof {
        broadcast use vstd::seq_lib::group_to_multiset_ensures;

        assert(split_at(w@, v@, k as int));
        assert(w@.to_multiset().count(rank) > 0) by {
            assert(w@.contains(rank));
        }
        assert(ranks(v@).contains(rank));
        let j = choose|j: int| 0 <= j < ranks(v@).len() && ranks(v@)[j] == rank;
        assert(v@[j].total_rank() == rank);
    }
    let r = if rank >= 0 {
        F32 { bits: rank as u32 }
    } else {
        F32 { bits: (0x7fff_ffff - rank) as u32 }
    };
    proof {
        let j = choose|j: int| 0 <= j < ranks(v@).len() && ranks(v@)[j] == rank;
        assert(v@[j].total_rank() == rank);
        assert(r.total_rank() == rank);
        crate::f32bits::total_rank_is_injective(r, v@[j]);
    }
    r
}

} // verus!
