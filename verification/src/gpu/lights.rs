//! The world light grid: for each cell the lights that reach it, as one array of offsets followed by
//! the lists.
use crate::f32bits::{float, F32, ONE};
use crate::gpu::materials::{V3, V4};
use vstd::prelude::*;

verus! {

/// More cells than this make the cells grow.
pub const LIGHT_GRID_MAX_CELLS: u64 = 4_000_000;

/// How often the cells grow at most.
pub const MAX_GROWTHS: u32 = 64;

/// A light of a pack.
#[derive(Clone, Copy, Debug, PartialEq, Eq, Structural)]
pub struct LightIn {
    pub pos: V3,
    pub range: F32,
    pub color: V3,
    pub cos_outer: F32,
    pub dir: V3,
    pub cos_inner: F32,
}

/// The three records of a light.
pub open spec fn light_records(l: LightIn) -> Seq<V4> {
    seq![
        V4 { x: l.pos.x, y: l.pos.y, z: l.pos.z, w: l.range },
        V4 { x: l.color.x, y: l.color.y, z: l.color.z, w: l.cos_outer },
        V4 { x: l.dir.x, y: l.dir.y, z: l.dir.z, w: l.cos_inner },
    ]
}

/// The records of the first `k` lights.
pub open spec fn all_records(lights: Seq<LightIn>, k: nat) -> Seq<V4>
    decreases k,
{
    if k == 0 {
        Seq::empty()
    } else {
        all_records(lights, (k - 1) as nat) + light_records(lights[k - 1])
    }
}

/// A record of zeros.
pub open spec fn zero_record() -> V4 {
    V4 { x: float(0), y: float(0), z: float(0), w: float(0) }
}

/// The records of all lights; three zero records where there is no light, so that the buffer is never
/// empty.
pub fn pack_lights(lights: &Vec<LightIn>) -> (r: Vec<V4>)
    ensures
        r@ == if lights@.len() == 0 {
            seq![zero_record(), zero_record(), zero_record()]
        } else {
            all_records(lights@, lights@.len())
        },
{
    let mut r: Vec<V4> = Vec::new();
    if lights.len() == 0 {
        let z = F32 { bits: 0 };
        let v = V4 { x: z, y: z, z, w: z };
        r.push(v);
        r.push(v);
        r.push(v);
        proof {
            assert(r@ =~= seq![zero_record(), zero_record(), zero_record()]);
        }
        return r;
    }
    let mut i: usize = 0;
    while i < lights.len()
        invariant
            i <= lights@.len(),
            r@ == all_records(lights@, i as nat),
        decreases lights@.len() - i,
    {
        let l = &lights[i];
        let ghost before = r@;
        r.push(V4 { x: l.pos.x, y: l.pos.y, z: l.pos.z, w: l.range });
        r.push(V4 { x: l.color.x, y: l.color.y, z: l.color.z, w: l.cos_outer });
        r.push(V4 { x: l.dir.x, y: l.dir.y, z: l.dir.z, w: l.cos_inner });
        i = i + 1;
        proof {
            assert(r@ =~= before + light_records(lights@[i - 1]));
        }
    }
    r
}

/// How many of the first `k` ranges are less than `x`.
pub open spec fn count_below(ranges: Seq<F32>, x: F32, k: nat) -> nat
    decreases k,
{
    if k == 0 {
        0
    } else {
        count_below(ranges, x, (k - 1) as nat) + if ranges[k - 1].lt(x) {
            1nat
        } else {
            0nat
        }
    }
}

/// How many of the first `k` ranges are at most `x`.
pub open spec fn count_up_to(ranges: Seq<F32>, x: F32, k: nat) -> nat
    decreases k,
{
    if k == 0 {
        0
    } else {
        count_up_to(ranges, x, (k - 1) as nat) + if ranges[k - 1].le(x) {
            1nat
        } else {
            0nat
        }
    }
}

/// Whether `x` is the middle one of the ranges in ascending order (the upper one of two).
pub open spec fn is_median(ranges: Seq<F32>, x: F32) -> bool {
    &&& ranges.contains(x)
    &&& count_below(ranges, x, ranges.len()) <= ranges.len() / 2
    &&& ranges.len() / 2 < count_up_to(ranges, x, ranges.len())
}

/// Of two numbers in ascending order the counts of the first are no larger.
proof fn counts_grow(ranges: Seq<F32>, a: F32, b: F32, k: nat)
    requires
        a.lt(b),
        k <= ranges.len(),
        forall|i: int| 0 <= i < ranges.len() ==> !(#[trigger] ranges[i]).nan(),
    ensures
        count_up_to(ranges, a, k) <= count_below(ranges, b, k),
    decreases k,
{
    if k > 0 {
        counts_grow(ranges, a, b, (k - 1) as nat);
        assert(!ranges[k - 1].nan());
    }
}

/// The middle one stands at one place in the order only.
pub proof fn median_is_unique(ranges: Seq<F32>, a: F32, b: F32)
    requires
        is_median(ranges, a),
        is_median(ranges, b),
        forall|i: int| 0 <= i < ranges.len() ==> !(#[trigger] ranges[i]).nan(),
    ensures
        a.rank() == b.rank(),
{
    let i = choose|i: int| 0 <= i < ranges.len() && ranges[i] == a;
    let j = choose|j: int| 0 <= j < ranges.len() && ranges[j] == b;
    assert(!ranges[i].nan() && !ranges[j].nan());
    if a.lt(b) {
        counts_grow(ranges, a, b, ranges.len());
    } else if b.lt(a) {
        counts_grow(ranges, b, a, ranges.len());
    }
}

/// One of the ranges that is at least as large as every other.
proof fn largest_range(ranges: Seq<F32>, k: nat) -> (m: int)
    requires
        0 < k <= ranges.len(),
        forall|i: int| 0 <= i < ranges.len() ==> !(#[trigger] ranges[i]).nan(),
    ensures
        0 <= m < k,
        forall|i: int| 0 <= i < k ==> (#[trigger] ranges[i]).le(ranges[m]),
    decreases k,
{
    if k == 1 {
        assert(!ranges[0].nan());
        0
    } else {
        let p = largest_range(ranges, (k - 1) as nat);
        assert(!ranges[k - 1].nan());
        assert(!ranges[p].nan());
        if ranges[k - 1].le(ranges[p]) {
            p
        } else {
            k - 1
        }
    }
}

/// Everything up to the largest is everything.
proof fn all_up_to_largest(ranges: Seq<F32>, x: F32, k: nat)
    requires
        k <= ranges.len(),
        forall|i: int| 0 <= i < k ==> (#[trigger] ranges[i]).le(x),
    ensures
        count_up_to(ranges, x, k) == k,
    decreases k,
{
    if k > 0 {
        all_up_to_largest(ranges, x, (k - 1) as nat);
    }
}

/// The next range below `x`, if some are below it: the largest of those.
proof fn previous_range(ranges: Seq<F32>, x: F32, k: nat) -> (m: int)
    requires
        k <= ranges.len(),
        count_below(ranges, x, k) > 0,
        forall|i: int| 0 <= i < ranges.len() ==> !(#[trigger] ranges[i]).nan(),
        !x.nan(),
    ensures
        0 <= m < k,
        ranges[m].lt(x),
        forall|i: int| 0 <= i < k && (#[trigger] ranges[i]).lt(x) ==> ranges[i].le(ranges[m]),
    decreases k,
{
    assert(!ranges[k - 1].nan());
    if count_below(ranges, x, (k - 1) as nat) == 0 {
        none_below(ranges, x, (k - 1) as nat);
        k - 1
    } else {
        let p = previous_range(ranges, x, (k - 1) as nat);
        assert(!ranges[p].nan());
        if ranges[k - 1].lt(x) && ranges[p].lt(ranges[k - 1]) {
            k - 1
        } else {
            p
        }
    }
}

proof fn none_below(ranges: Seq<F32>, x: F32, k: nat)
    requires
        k <= ranges.len(),
        count_below(ranges, x, k) == 0,
    ensures
        forall|i: int| 0 <= i < k ==> !(#[trigger] ranges[i]).lt(x),
    decreases k,
{
    if k > 0 {
        none_below(ranges, x, (k - 1) as nat);
    }
}

/// What is below `x` is what is up to the next range below it.
proof fn below_is_up_to_previous(ranges: Seq<F32>, x: F32, p: F32, k: nat)
    requires
        k <= ranges.len(),
        p.lt(x),
        forall|i: int| 0 <= i < k && (#[trigger] ranges[i]).lt(x) ==> ranges[i].le(p),
    ensures
        count_below(ranges, x, k) == count_up_to(ranges, p, k),
    decreases k,
{
    if k > 0 {
        below_is_up_to_previous(ranges, x, p, (k - 1) as nat);
    }
}

/// Among numbers there is always a middle one.
proof fn median_exists(ranges: Seq<F32>, m: int) -> (r: int)
    requires
        0 <= m < ranges.len(),
        ranges.len() / 2 < count_up_to(ranges, ranges[m], ranges.len()),
        forall|i: int| 0 <= i < ranges.len() ==> !(#[trigger] ranges[i]).nan(),
    ensures
        0 <= r < ranges.len(),
        is_median(ranges, ranges[r]),
    decreases count_up_to(ranges, ranges[m], ranges.len()),
{
    let n = ranges.len();
    let x = ranges[m];
    if count_below(ranges, x, n) <= n / 2 {
        m
    } else {
        let p = previous_range(ranges, x, n);
        below_is_up_to_previous(ranges, x, ranges[p], n);
        below_less_than_up_to(ranges, m, n);
        median_exists(ranges, p)
    }
}

proof fn below_less_than_up_to(ranges: Seq<F32>, m: int, k: nat)
    requires
        0 <= m < ranges.len(),
        k <= ranges.len(),
        !ranges[m].nan(),
    ensures
        count_below(ranges, ranges[m], k) <= count_up_to(ranges, ranges[m], k),
        m < k ==> count_below(ranges, ranges[m], k) < count_up_to(ranges, ranges[m], k),
    decreases k,
{
    if k > 0 {
        below_less_than_up_to(ranges, m, (k - 1) as nat);
    }
}

/// The size of a cell to begin with: the middle light range, kept between four and twelve metres.
pub fn first_cell_size(ranges: &Vec<F32>) -> (r: F32)
    requires
        ranges@.len() > 0,
        forall|i: int| 0 <= i < ranges@.len() ==> !(#[trigger] ranges@[i]).nan(),
    ensures
        exists|m: F32|
            #[trigger] is_median(ranges@, m) && r == m.kept_between(
                float(0x4080_0000),
                float(0x4140_0000),
            ),
{
    let n: usize = ranges.len();
    let mut i: usize = 0;
    while i < n
        invariant
            i <= n,
            n == ranges@.len(),
            forall|k: int| 0 <= k < i ==> !is_median(ranges@, #[trigger] ranges@[k]),
        decreases n - i,
    {
        let x = ranges[i];
        let mut below: usize = 0;
        let mut up_to: usize = 0;
        let mut k: usize = 0;
        while k < n
            invariant
                k <= n,
                n == ranges@.len(),
                below == count_below(ranges@, x, k as nat),
                up_to == count_up_to(ranges@, x, k as nat),
                below <= k,
                up_to <= k,
            decreases n - k,
        {
            if ranges[k].less(x) {
                below = below + 1;
            }
            if ranges[k].less_or_equal(x) {
                up_to = up_to + 1;
            }
            k = k + 1;
        }
        if below <= n / 2 && n / 2 < up_to {
            assert(is_median(ranges@, x));
            return x.clamp(F32 { bits: 0x4080_0000 }, F32 { bits: 0x4140_0000 });
        }
        i = i + 1;
    }
    proof {
        let m = largest_range(ranges@, ranges@.len());
        all_up_to_largest(ranges@, ranges@[m], ranges@.len());
        median_exists(ranges@, m);
        assert(false);
    }
    F32 { bits: 0 }
}

/// Whether the cells must grow: the grid has too many, and they have not grown too often.
pub fn cells_must_grow(nx: u32, ny: u32, nz: u32, growths: u32) -> (r: bool)
    requires
        nx <= 256,
        ny <= 256,
        nz <= 256,
    ensures
        r == (nx * ny * nz > LIGHT_GRID_MAX_CELLS && growths < MAX_GROWTHS),
{
    proof {
        assert(0 <= nx * ny <= 65536) by (nonlinear_arith)
            requires
                nx <= 256,
                ny <= 256,
        ;
        assert(0 <= nx * ny * nz <= 65536 * 256) by (nonlinear_arith)
            requires
                0 <= nx * ny <= 65536,
                nz <= 256,
        ;
    }
    nx as u64 * ny as u64 * nz as u64 > LIGHT_GRID_MAX_CELLS && growths < MAX_GROWTHS
}

/// A count of cells along one axis, kept between 1 and 256.
pub fn clamp_dim(n: i64) -> (r: u32)
    ensures
        r == if n < 1 {
            1int
        } else if n > 256 {
            256int
        } else {
            n as int
        },
{
    if n < 1 {
        1
    } else if n > 256 {
        256
    } else {
        n as u32
    }
}

/// A cell index along one axis, kept inside the grid.
pub fn clamp_cell(n: i64, dim: u32) -> (r: u32)
    requires
        dim >= 1,
    ensures
        r == if n < 0 {
            0int
        } else if n > dim - 1 {
            dim - 1
        } else {
            n as int
        },
{
    if n < 0 {
        0
    } else if n > dim as i64 - 1 {
        dim - 1
    } else {
        n as u32
    }
}

/// The cells that a light reaches: a box of cells, both ends belong to it.
#[derive(Clone, Copy, Debug, PartialEq, Eq, Structural)]
pub struct CellBox {
    pub x0: u32,
    pub y0: u32,
    pub z0: u32,
    pub x1: u32,
    pub y1: u32,
    pub z1: u32,
}

/// The size of the grid.
#[derive(Clone, Copy, Debug, PartialEq, Eq, Structural)]
pub struct GridDims {
    pub nx: u32,
    pub ny: u32,
    pub nz: u32,
}

impl GridDims {
    /// The number of cells.
    pub open spec fn cells(self) -> int {
        self.ny * self.nz * self.nx
    }

    /// At least one cell and at most 256 along each axis.
    pub open spec fn wf(self) -> bool {
        1 <= self.nx <= 256 && 1 <= self.ny <= 256 && 1 <= self.nz <= 256
    }
}

/// Whether a box lies inside the grid.
pub open spec fn box_inside(b: CellBox, d: GridDims) -> bool {
    b.x1 < d.nx && b.y1 < d.ny && b.z1 < d.nz
}

/// The row of a cell: the cells of a row follow each other along x.
pub open spec fn row_of(d: GridDims, c: int) -> int {
    c / (d.nx as int)
}

/// Whether a box covers a row.
pub open spec fn covers_row(d: GridDims, b: CellBox, r: int) -> bool {
    b.y0 <= r % (d.ny as int) <= b.y1 && b.z0 <= r / (d.ny as int) <= b.z1
}

/// Whether a box covers cell `c`; the cell at (x, y, z) is the one with number (z * ny + y) * nx + x.
pub open spec fn covers(d: GridDims, b: CellBox, c: int) -> bool {
    b.x0 <= c % (d.nx as int) <= b.x1 && covers_row(d, b, row_of(d, c))
}

/// The first `k` lights that reach cell `c`, in order.
pub open spec fn cell_lights(d: GridDims, boxes: Seq<CellBox>, c: int, k: nat) -> Seq<u32>
    decreases k,
{
    if k == 0 {
        Seq::empty()
    } else {
        let p = cell_lights(d, boxes, c, (k - 1) as nat);
        if covers(d, boxes[k - 1], c) {
            p.push((k - 1) as u32)
        } else {
            p
        }
    }
}

/// How many entries the lists of the cells below `c` have.
pub open spec fn entries_below(d: GridDims, boxes: Seq<CellBox>, c: int) -> int
    decreases c,
{
    if c <= 0 {
        0
    } else {
        entries_below(d, boxes, c - 1) + cell_lights(d, boxes, c - 1, boxes.len()).len()
    }
}

/// Where the list of cell `c` begins.
pub open spec fn offset(d: GridDims, boxes: Seq<CellBox>, c: int) -> int {
    d.cells() + 1 + entries_below(d, boxes, c)
}

/// The grid: one offset for each cell and one for the end, then the lists.
pub open spec fn is_light_grid(d: GridDims, boxes: Seq<CellBox>, grid: Seq<u32>) -> bool {
    &&& grid.len() == offset(d, boxes, d.cells())
    &&& forall|c: int| 0 <= c <= d.cells() ==> #[trigger] grid[c] == offset(d, boxes, c)
    &&& forall|c: int, j: int|
        0 <= c < d.cells() && 0 <= j < cell_lights(d, boxes, c, boxes.len()).len()
            ==> grid[#[trigger] offset(d, boxes, c) + j] == #[trigger] cell_lights(
            d,
            boxes,
            c,
            boxes.len(),
        )[j]
}

/// Cell `r * nx + x` has row `r` and column `x`.
pub proof fn cell_of_row(d: GridDims, r: int, x: int)
    requires
        d.wf(),
        0 <= x < d.nx,
        0 <= r,
    ensures
        row_of(d, r * d.nx + x) == r,
        (r * d.nx + x) % (d.nx as int) == x,
{
    vstd::arithmetic::div_mod::lemma_fundamental_div_mod_converse(
        r * d.nx + x,
        d.nx as int,
        r,
        x,
    );
}

/// The column of a cell of row `r`.
proof fn column_of(d: GridDims, r: int, c: int)
    requires
        d.wf(),
        row_of(d, c) == r,
    ensures
        c == r * d.nx + c % (d.nx as int),
        0 <= c % (d.nx as int) < d.nx,
{
    vstd::arithmetic::div_mod::lemma_fundamental_div_mod(c, d.nx as int);
    assert(d.nx * r == r * d.nx) by (nonlinear_arith);
}

/// Row `z * ny + y` has coordinates `z` and `y`.
pub proof fn row_coords(d: GridDims, z: int, y: int)
    requires
        d.wf(),
        0 <= y < d.ny,
        0 <= z,
    ensures
        (z * d.ny + y) / (d.ny as int) == z,
        (z * d.ny + y) % (d.ny as int) == y,
{
    vstd::arithmetic::div_mod::lemma_fundamental_div_mod_converse(
        z * d.ny + y,
        d.ny as int,
        z,
        y,
    );
}

/// Rows and cells of the grid.
pub proof fn row_bound(d: GridDims, z: int, y: int)
    requires
        d.wf(),
        0 <= y < d.ny,
        0 <= z < d.nz,
    ensures
        0 <= z * d.ny + y < d.ny * d.nz,
        (z * d.ny + y) * d.nx + d.nx <= d.cells(),
        0 <= (z * d.ny + y) * d.nx,
        d.cells() <= 256 * 256 * 256,
        d.ny * d.nz <= 65536,
        0 <= z * d.ny,
{
    assert(z * d.ny + y < d.ny * d.nz && 0 <= z * d.ny) by (nonlinear_arith)
        requires
            0 <= y < d.ny,
            0 <= z < d.nz,
    ;
    let r = z * d.ny + y;
    let m = d.ny * d.nz;
    assert(r * d.nx + d.nx <= m * d.nx && 0 <= r * d.nx) by (nonlinear_arith)
        requires
            0 <= r < m,
            1 <= d.nx,
    ;
    cells_bound(d);
}

proof fn cells_bound(d: GridDims)
    requires
        d.wf(),
    ensures
        1 <= d.cells() <= 256 * 256 * 256,
        1 <= d.ny * d.nz <= 65536,
{
    assert(1 <= d.ny * d.nz <= 65536) by (nonlinear_arith)
        requires
            1 <= d.ny <= 256,
            1 <= d.nz <= 256,
    ;
    let m = d.ny * d.nz;
    assert(1 <= m * d.nx <= 65536 * 256) by (nonlinear_arith)
        requires
            1 <= m <= 65536,
            1 <= d.nx <= 256,
    ;
}

/// Between the last row of a box in one layer and its first row in the next the box covers nothing.
proof fn gap_between_layers(d: GridDims, b: CellBox, z: int, r: int)
    requires
        d.wf(),
        b.y0 <= b.y1 < d.ny,
        0 <= z,
        z * d.ny + b.y1 + 1 <= r < (z + 1) * d.ny + b.y0,
    ensures
        !covers_row(d, b, r),
{
    assert((z + 1) * d.ny == z * d.ny + d.ny) by (nonlinear_arith);
    if r < (z + 1) * d.ny {
        row_coords(d, z, r - z * d.ny);
    } else {
        row_coords(d, z + 1, r - (z + 1) * d.ny);
    }
}

/// Below the first row of a box it covers nothing.
proof fn gap_before(d: GridDims, b: CellBox, r: int)
    requires
        d.wf(),
        b.y0 < d.ny,
        0 <= r < b.z0 * d.ny + b.y0,
    ensures
        !covers_row(d, b, r),
{
    vstd::arithmetic::div_mod::lemma_fundamental_div_mod(r, d.ny as int);
    let z = r / (d.ny as int);
    if covers_row(d, b, r) {
        assert(z * d.ny >= b.z0 * d.ny) by (nonlinear_arith)
            requires
                z >= b.z0,
                d.ny >= 1,
        ;
        assert(d.ny * z == z * d.ny) by (nonlinear_arith);
    }
}

/// Above the last row of a box it covers nothing.
proof fn gap_behind(d: GridDims, b: CellBox, r: int)
    requires
        d.wf(),
        b.y1 < d.ny,
        r >= b.z1 * d.ny + b.y1 + 1,
    ensures
        !covers_row(d, b, r),
{
    vstd::arithmetic::div_mod::lemma_fundamental_div_mod(r, d.ny as int);
    let z = r / (d.ny as int);
    if covers_row(d, b, r) {
        assert(z * d.ny <= b.z1 * d.ny) by (nonlinear_arith)
            requires
                z <= b.z1,
                d.ny >= 1,
        ;
        assert(d.ny * z == z * d.ny) by (nonlinear_arith);
    }
}

/// How many lights cell `c` has once light `li` has been entered in the rows below `r`.
pub open spec fn stage(d: GridDims, boxes: Seq<CellBox>, c: int, li: int, r: int) -> nat {
    if row_of(d, c) < r && covers(d, boxes[li], c) {
        (li + 1) as nat
    } else {
        li as nat
    }
}

/// The counts once light `li` has been entered in the rows below `r`.
spec fn counted(d: GridDims, boxes: Seq<CellBox>, counts: Seq<u32>, li: int, r: int) -> bool {
    &&& counts.len() == d.cells()
    &&& forall|c: int|
        0 <= c < d.cells() ==> #[trigger] counts[c] == cell_lights(
            d,
            boxes,
            c,
            stage(d, boxes, c, li, r),
        ).len()
}

/// Rows that the box does not cover change nothing.
proof fn counted_skips(d: GridDims, boxes: Seq<CellBox>, counts: Seq<u32>, li: int, r0: int, r1: int)
    requires
        counted(d, boxes, counts, li, r0),
        r0 <= r1,
        forall|r: int| r0 <= r < r1 ==> !#[trigger] covers_row(d, boxes[li], r),
    ensures
        counted(d, boxes, counts, li, r1),
{
    assert forall|c: int| 0 <= c < d.cells() implies #[trigger] counts[c] == cell_lights(
        d,
        boxes,
        c,
        stage(d, boxes, c, li, r1),
    ).len() by {
        if r0 <= row_of(d, c) < r1 {
            assert(!covers_row(d, boxes[li], row_of(d, c)));
        }
    }
}

proof fn lights_bound(d: GridDims, boxes: Seq<CellBox>, c: int, k: nat)
    ensures
        cell_lights(d, boxes, c, k).len() <= k,
    decreases k,
{
    if k > 0 {
        lights_bound(d, boxes, c, (k - 1) as nat);
    }
}

proof fn lights_grow(d: GridDims, boxes: Seq<CellBox>, c: int, a: nat, b: nat)
    requires
        a <= b,
    ensures
        cell_lights(d, boxes, c, a).len() <= cell_lights(d, boxes, c, b).len(),
    decreases b,
{
    if a < b {
        lights_grow(d, boxes, c, a, (b - 1) as nat);
    }
}

/// Count light `li` in one row.
fn count_row(counts: &mut Vec<u32>, boxes: &Vec<CellBox>, d: GridDims, li: usize, r: usize)
    requires
        d.wf(),
        li < boxes@.len() <= u32::MAX,
        box_inside(boxes@[li as int], d),
        covers_row(d, boxes@[li as int], r as int),
        r * d.nx + d.nx <= d.cells(),
        counted(d, boxes@, old(counts)@, li as int, r as int),
    ensures
        counted(d, boxes@, final(counts)@, li as int, r + 1),
{
    let b = boxes[li];
    proof {
        cells_bound(d);
        assert(0 <= r * d.nx) by (nonlinear_arith)
            requires
                r >= 0,
                d.nx >= 1,
        ;
    }
    let row: usize = r * d.nx as usize;
    let mut x: u32 = b.x0;
    proof {
        assert forall|c: int| row_of(d, c) == r && c < row + b.x0 implies !covers(d, b, c) by {
            column_of(d, r as int, c);
        }
    }
    while x <= b.x1
        invariant
            d.wf(),
            b == boxes@[li as int],
            b.x1 < d.nx,
            b.x0 <= x <= b.x1 + 1 || x == b.x0,
            li < boxes@.len() <= u32::MAX,
            covers_row(d, b, r as int),
            row == r * d.nx,
            row + d.nx <= d.cells() <= 0x100_0000,
            counts@.len() == d.cells(),
            forall|c: int|
                0 <= c < d.cells() ==> #[trigger] counts@[c] == cell_lights(
                    d,
                    boxes@,
                    c,
                    if row_of(d, c) == r && c < row + x && covers(d, b, c) {
                        (li + 1) as nat
                    } else {
                        stage(d, boxes@, c, li as int, r as int)
                    },
                ).len(),
        decreases b.x1 + 1 - x,
    {
        let c: usize = row + x as usize;
        proof {
            cell_of_row(d, r as int, x as int);
            lights_bound(d, boxes@, c as int, li as nat);
            assert(counts@[c as int] == cell_lights(d, boxes@, c as int, li as nat).len());
            assert(cell_lights(d, boxes@, c as int, (li + 1) as nat) == cell_lights(
                d,
                boxes@,
                c as int,
                li as nat,
            ).push(li as u32));
        }
        let n: u32 = counts[c];
        counts.set(c, n + 1);
        x = x + 1;
    }
    proof {
        assert forall|c: int| 0 <= c < d.cells() implies #[trigger] counts@[c] == cell_lights(
            d,
            boxes@,
            c,
            stage(d, boxes@, c, li as int, r + 1),
        ).len() by {
            if row_of(d, c) == r {
                column_of(d, r as int, c);
            }
        }
    }
}

/// Count light `li` in every cell that it reaches.
fn count_light(counts: &mut Vec<u32>, boxes: &Vec<CellBox>, d: GridDims, li: usize)
    requires
        d.wf(),
        li < boxes@.len() <= u32::MAX,
        box_inside(boxes@[li as int], d),
        counted(d, boxes@, old(counts)@, li as int, 0),
    ensures
        counted(d, boxes@, final(counts)@, li as int, d.ny * d.nz),
{
    let b = boxes[li];
    let ghost rows = d.ny * d.nz;
    if b.y0 > b.y1 || b.z0 > b.z1 {
        proof {
            assert(0 <= rows) by (nonlinear_arith)
                requires
                    rows == d.ny * d.nz,
                    d.ny >= 1,
                    d.nz >= 1,
            ;
            counted_skips(d, boxes@, counts@, li as int, 0, rows);
        }
        return;
    }
    proof {
        row_bound(d, b.z0 as int, b.y0 as int);
        assert forall|r: int| 0 <= r < b.z0 * d.ny + b.y0 implies !#[trigger] covers_row(d, b, r) by {
            gap_before(d, b, r);
        }
        counted_skips(d, boxes@, counts@, li as int, 0, b.z0 * d.ny + b.y0);
    }
    let mut z: u32 = b.z0;
    while z <= b.z1
        invariant
            d.wf(),
            rows == d.ny * d.nz,
            b == boxes@[li as int],
            box_inside(b, d),
            b.y0 <= b.y1,
            b.z0 <= b.z1,
            b.z0 <= z <= b.z1 + 1,
            li < boxes@.len() <= u32::MAX,
            z <= b.z1 ==> counted(d, boxes@, counts@, li as int, z * d.ny + b.y0),
            z > b.z1 ==> counted(d, boxes@, counts@, li as int, rows),
        decreases b.z1 + 1 - z,
    {
        let mut y: u32 = b.y0;
        while y <= b.y1
            invariant
                d.wf(),
                b == boxes@[li as int],
                box_inside(b, d),
                b.y0 <= b.y1,
                b.z0 <= z <= b.z1,
                b.y0 <= y <= b.y1 + 1,
                li < boxes@.len() <= u32::MAX,
                counted(d, boxes@, counts@, li as int, z * d.ny + y),
            decreases b.y1 + 1 - y,
        {
            proof {
                row_bound(d, z as int, y as int);
                row_coords(d, z as int, y as int);
            }
            let r: usize = z as usize * d.ny as usize + y as usize;
            count_row(counts, boxes, d, li, r);
            y = y + 1;
        }
        proof {
            row_bound(d, z as int, b.y1 as int);
            let r0 = z * d.ny + b.y1 + 1;
            if z < b.z1 {
                let r1 = (z + 1) * d.ny + b.y0;
                assert((z + 1) * d.ny == z * d.ny + d.ny) by (nonlinear_arith);
                assert forall|r: int| r0 <= r < r1 implies !#[trigger] covers_row(d, b, r) by {
                    gap_between_layers(d, b, z as int, r);
                }
                counted_skips(d, boxes@, counts@, li as int, r0, r1);
            } else {
                assert forall|r: int| r0 <= r < rows implies !#[trigger] covers_row(d, b, r) by {
                    gap_behind(d, b, r);
                }
                counted_skips(d, boxes@, counts@, li as int, r0, rows);
            }
        }
        z = z + 1;
    }
}

/// Once all rows are done, every cell has its list up to and with light `li`.
proof fn stage_done(d: GridDims, boxes: Seq<CellBox>, c: int, li: int)
    requires
        d.wf(),
        0 <= c < d.cells(),
        0 <= li < boxes.len(),
    ensures
        cell_lights(d, boxes, c, stage(d, boxes, c, li, d.ny * d.nz)) == cell_lights(
            d,
            boxes,
            c,
            (li + 1) as nat,
        ),
        cell_lights(d, boxes, c, stage(d, boxes, c, li, 0)) == cell_lights(d, boxes, c, li as nat),
{
    let rows = d.ny * d.nz;
    vstd::arithmetic::div_mod::lemma_fundamental_div_mod(c, d.nx as int);
    let r = row_of(d, c);
    assert(r < rows && r >= 0) by (nonlinear_arith)
        requires
            c == d.nx * r + c % (d.nx as int),
            0 <= c % (d.nx as int),
            c < rows * d.nx,
            c >= 0,
            c % (d.nx as int) < d.nx,
            d.nx >= 1,
    ;
}

/// Where the lists begin grows from cell to cell.
proof fn offsets_grow(d: GridDims, boxes: Seq<CellBox>, a: int, b: int)
    requires
        0 <= a < b,
    ensures
        offset(d, boxes, a) + cell_lights(d, boxes, a, boxes.len()).len() <= offset(d, boxes, b),
        offset(d, boxes, a) >= d.cells() + 1,
    decreases b,
{
    entries_nonneg(d, boxes, a);
    if a < b - 1 {
        offsets_grow(d, boxes, a, b - 1);
    }
}

proof fn entries_nonneg(d: GridDims, boxes: Seq<CellBox>, c: int)
    ensures
        entries_below(d, boxes, c) >= 0,
    decreases c,
{
    if c > 0 {
        entries_nonneg(d, boxes, c - 1);
    }
}

/// Whether cell `c` holds its first `k` lights, and its cursor stands behind them.
spec fn cell_filled(
    d: GridDims,
    boxes: Seq<CellBox>,
    grid: Seq<u32>,
    cursor: Seq<u32>,
    c: int,
    k: nat,
) -> bool {
    &&& cursor[c] == offset(d, boxes, c) + cell_lights(d, boxes, c, k).len()
    &&& forall|j: int|
        0 <= j < cell_lights(d, boxes, c, k).len() ==> grid[offset(d, boxes, c) + j]
            == #[trigger] cell_lights(d, boxes, c, k)[j]
}

/// The shape of the grid while it is filled: its offsets are in place.
spec fn grid_shape(d: GridDims, boxes: Seq<CellBox>, grid: Seq<u32>, cursor: Seq<u32>) -> bool {
    &&& cursor.len() == d.cells()
    &&& grid.len() == offset(d, boxes, d.cells())
    &&& grid.len() <= u32::MAX
    &&& forall|c: int| 0 <= c <= d.cells() ==> #[trigger] grid[c] == offset(d, boxes, c)
}

/// The grid once light `li` has been entered in the rows below `r`.
spec fn placed(
    d: GridDims,
    boxes: Seq<CellBox>,
    grid: Seq<u32>,
    cursor: Seq<u32>,
    li: int,
    r: int,
) -> bool {
    &&& grid_shape(d, boxes, grid, cursor)
    &&& forall|c: int|
        0 <= c < d.cells() ==> #[trigger] cell_filled(
            d,
            boxes,
            grid,
            cursor,
            c,
            stage(d, boxes, c, li, r),
        )
}

/// Rows that the box does not cover change nothing.
proof fn placed_skips(
    d: GridDims,
    boxes: Seq<CellBox>,
    grid: Seq<u32>,
    cursor: Seq<u32>,
    li: int,
    r0: int,
    r1: int,
)
    requires
        placed(d, boxes, grid, cursor, li, r0),
        r0 <= r1,
        forall|r: int| r0 <= r < r1 ==> !#[trigger] covers_row(d, boxes[li], r),
    ensures
        placed(d, boxes, grid, cursor, li, r1),
{
    assert forall|c: int| 0 <= c < d.cells() implies #[trigger] cell_filled(
        d,
        boxes,
        grid,
        cursor,
        c,
        stage(d, boxes, c, li, r1),
    ) by {
        assert(cell_filled(d, boxes, grid, cursor, c, stage(d, boxes, c, li, r0)));
        if r0 <= row_of(d, c) < r1 {
            assert(!covers_row(d, boxes[li], row_of(d, c)));
        }
    }
}

/// Entering light `li` in cell `c` fills that cell and leaves every other as it was.
proof fn place_keeps_others(
    d: GridDims,
    boxes: Seq<CellBox>,
    grid: Seq<u32>,
    cursor: Seq<u32>,
    c: int,
    li: int,
    e: int,
    k: nat,
)
    requires
        d.wf(),
        grid_shape(d, boxes, grid, cursor),
        0 <= c < d.cells(),
        0 <= e < d.cells(),
        0 <= li < boxes.len() <= u32::MAX,
        covers(d, boxes[li], c),
        cell_filled(d, boxes, grid, cursor, c, li as nat),
        e != c ==> cell_filled(d, boxes, grid, cursor, e, k) && k <= boxes.len(),
    ensures
        d.cells() < cursor[c] < grid.len(),
        grid_shape(
            d,
            boxes,
            grid.update(cursor[c] as int, li as u32),
            cursor.update(c, (cursor[c] + 1) as u32),
        ),
        cell_filled(
            d,
            boxes,
            grid.update(cursor[c] as int, li as u32),
            cursor.update(c, (cursor[c] + 1) as u32),
            e,
            if e == c {
                (li + 1) as nat
            } else {
                k
            },
        ),
{
    let p = cursor[c] as int;
    let g = grid.update(p, li as u32);
    let full = boxes.len();
    let before = cell_lights(d, boxes, c, li as nat);
    let after = cell_lights(d, boxes, c, (li + 1) as nat);
    assert(after == before.push(li as u32));
    lights_grow(d, boxes, c, (li + 1) as nat, full);
    offsets_grow(d, boxes, c, c + 1);
    offsets_grow(d, boxes, c, d.cells());
    assert(p < offset(d, boxes, c) + cell_lights(d, boxes, c, full).len());
    if e == c {
        assert forall|j: int| 0 <= j < after.len() implies g[offset(d, boxes, c) + j]
            == #[trigger] after[j] by {
            if j < before.len() {
                assert(after[j] == before[j]);
            }
        }
    } else {
        let l = cell_lights(d, boxes, e, k);
        lights_grow(d, boxes, e, k, full);
        offsets_grow(d, boxes, e, d.cells());
        if e < c {
            offsets_grow(d, boxes, e, c);
        } else {
            offsets_grow(d, boxes, c, e);
        }
        assert forall|j: int| 0 <= j < l.len() implies g[offset(d, boxes, e) + j] == #[trigger] l[j] by {
            assert(grid[offset(d, boxes, e) + j] == l[j]);
            assert(offset(d, boxes, e) + j != p);
        }
    }
}

/// Enter light `li` in one row.
fn place_row(
    grid: &mut Vec<u32>,
    cursor: &mut Vec<u32>,
    boxes: &Vec<CellBox>,
    d: GridDims,
    li: usize,
    r: usize,
)
    requires
        d.wf(),
        li < boxes@.len() <= u32::MAX,
        box_inside(boxes@[li as int], d),
        covers_row(d, boxes@[li as int], r as int),
        r * d.nx + d.nx <= d.cells(),
        placed(d, boxes@, old(grid)@, old(cursor)@, li as int, r as int),
    ensures
        placed(d, boxes@, final(grid)@, final(cursor)@, li as int, r + 1),
{
    let b = boxes[li];
    proof {
        cells_bound(d);
        assert(0 <= r * d.nx) by (nonlinear_arith)
            requires
                r >= 0,
                d.nx >= 1,
        ;
    }
    let row: usize = r * d.nx as usize;
    let mut x: u32 = b.x0;
    proof {
        assert forall|c: int| 0 <= c < d.cells() implies #[trigger] cell_filled(
            d,
            boxes@,
            grid@,
            cursor@,
            c,
            row_stage(d, boxes@, c, li as int, r as int, row + b.x0),
        ) by {
            assert(cell_filled(
                d,
                boxes@,
                grid@,
                cursor@,
                c,
                stage(d, boxes@, c, li as int, r as int),
            ));
            if row_of(d, c) == r && c < row + b.x0 {
                column_of(d, r as int, c);
            }
        }
    }
    while x <= b.x1
        invariant
            d.wf(),
            b == boxes@[li as int],
            b.x1 < d.nx,
            b.x0 <= x <= b.x1 + 1 || x == b.x0,
            li < boxes@.len() <= u32::MAX,
            covers_row(d, b, r as int),
            row == r * d.nx,
            row + d.nx <= d.cells() <= 0x100_0000,
            grid_shape(d, boxes@, grid@, cursor@),
            forall|c: int|
                0 <= c < d.cells() ==> #[trigger] cell_filled(
                    d,
                    boxes@,
                    grid@,
                    cursor@,
                    c,
                    row_stage(d, boxes@, c, li as int, r as int, row + x),
                ),
        decreases b.x1 + 1 - x,
    {
        let c: usize = row + x as usize;
        let ghost g0 = grid@;
        let ghost k0 = cursor@;
        proof {
            cell_of_row(d, r as int, x as int);
            assert(cell_filled(
                d,
                boxes@,
                grid@,
                cursor@,
                c as int,
                row_stage(d, boxes@, c as int, li as int, r as int, row + x),
            ));
            place_keeps_others(d, boxes@, g0, k0, c as int, li as int, c as int, li as nat);
        }
        let p: u32 = cursor[c];
        grid.set(p as usize, li as u32);
        cursor.set(c, p + 1);
        x = x + 1;
        proof {
            assert forall|e: int| 0 <= e < d.cells() implies #[trigger] cell_filled(
                d,
                boxes@,
                grid@,
                cursor@,
                e,
                row_stage(d, boxes@, e, li as int, r as int, row + x),
            ) by {
                let k = row_stage(d, boxes@, e, li as int, r as int, row + x - 1);
                assert(cell_filled(d, boxes@, g0, k0, e, k));
                place_keeps_others(d, boxes@, g0, k0, c as int, li as int, e, k);
            }
        }
    }
    proof {
        assert forall|c: int| 0 <= c < d.cells() implies #[trigger] cell_filled(
            d,
            boxes@,
            grid@,
            cursor@,
            c,
            stage(d, boxes@, c, li as int, r + 1),
        ) by {
            assert(cell_filled(
                d,
                boxes@,
                grid@,
                cursor@,
                c,
                row_stage(d, boxes@, c, li as int, r as int, row + x),
            ));
            if row_of(d, c) == r {
                column_of(d, r as int, c);
            }
        }
    }
}

/// As `stage`, with the cells of row `r` below `e` entered as well.
spec fn row_stage(d: GridDims, boxes: Seq<CellBox>, c: int, li: int, r: int, e: int) -> nat {
    if row_of(d, c) == r && c < e && covers(d, boxes[li], c) {
        (li + 1) as nat
    } else {
        stage(d, boxes, c, li, r)
    }
}

/// Enter light `li` in every cell that it reaches.
fn place_light(
    grid: &mut Vec<u32>,
    cursor: &mut Vec<u32>,
    boxes: &Vec<CellBox>,
    d: GridDims,
    li: usize,
)
    requires
        d.wf(),
        li < boxes@.len() <= u32::MAX,
        box_inside(boxes@[li as int], d),
        placed(d, boxes@, old(grid)@, old(cursor)@, li as int, 0),
    ensures
        placed(d, boxes@, final(grid)@, final(cursor)@, li as int, d.ny * d.nz),
{
    let b = boxes[li];
    let ghost rows = d.ny * d.nz;
    proof {
        cells_bound(d);
    }
    if b.y0 > b.y1 || b.z0 > b.z1 {
        proof {
            placed_skips(d, boxes@, grid@, cursor@, li as int, 0, rows);
        }
        return;
    }
    proof {
        row_bound(d, b.z0 as int, b.y0 as int);
        assert forall|r: int| 0 <= r < b.z0 * d.ny + b.y0 implies !#[trigger] covers_row(d, b, r) by {
            gap_before(d, b, r);
        }
        placed_skips(d, boxes@, grid@, cursor@, li as int, 0, b.z0 * d.ny + b.y0);
    }
    let mut z: u32 = b.z0;
    while z <= b.z1
        invariant
            d.wf(),
            rows == d.ny * d.nz,
            b == boxes@[li as int],
            box_inside(b, d),
            b.y0 <= b.y1,
            b.z0 <= b.z1,
            b.z0 <= z <= b.z1 + 1,
            li < boxes@.len() <= u32::MAX,
            z <= b.z1 ==> placed(d, boxes@, grid@, cursor@, li as int, z * d.ny + b.y0),
            z > b.z1 ==> placed(d, boxes@, grid@, cursor@, li as int, rows),
        decreases b.z1 + 1 - z,
    {
        let mut y: u32 = b.y0;
        while y <= b.y1
            invariant
                d.wf(),
                b == boxes@[li as int],
                box_inside(b, d),
                b.y0 <= b.y1,
                b.z0 <= z <= b.z1,
                b.y0 <= y <= b.y1 + 1,
                li < boxes@.len() <= u32::MAX,
                placed(d, boxes@, grid@, cursor@, li as int, z * d.ny + y),
            decreases b.y1 + 1 - y,
        {
            proof {
                row_bound(d, z as int, y as int);
                row_coords(d, z as int, y as int);
            }
            let r: usize = z as usize * d.ny as usize + y as usize;
            place_row(grid, cursor, boxes, d, li, r);
            y = y + 1;
        }
        proof {
            row_bound(d, z as int, b.y1 as int);
            let r0 = z * d.ny + b.y1 + 1;
            if z < b.z1 {
                let r1 = (z + 1) * d.ny + b.y0;
                assert((z + 1) * d.ny == z * d.ny + d.ny) by (nonlinear_arith);
                assert forall|r: int| r0 <= r < r1 implies !#[trigger] covers_row(d, b, r) by {
                    gap_between_layers(d, b, z as int, r);
                }
                placed_skips(d, boxes@, grid@, cursor@, li as int, r0, r1);
            } else {
                assert forall|r: int| r0 <= r < rows implies !#[trigger] covers_row(d, b, r) by {
                    gap_behind(d, b, r);
                }
                placed_skips(d, boxes@, grid@, cursor@, li as int, r0, rows);
            }
        }
        z = z + 1;
    }
}

/// The light grid, or nothing where its length does not fit in 32 bits.
pub fn build_cells(boxes: &Vec<CellBox>, d: GridDims) -> (r: Option<Vec<u32>>)
    requires
        d.wf(),
        boxes@.len() <= u32::MAX,
        forall|i: int| 0 <= i < boxes@.len() ==> box_inside(#[trigger] boxes@[i], d),
    ensures
        match r {
            Some(g) => is_light_grid(d, boxes@, g@),
            None => offset(d, boxes@, d.cells()) > u32::MAX,
        },
{
    proof {
        cells_bound(d);
        assert(d.ny * d.nz * d.nx == d.cells());
    }
    let n: usize = d.ny as usize * d.nz as usize * d.nx as usize;
    let mut counts: Vec<u32> = vec![0;n];
    let mut li: usize = 0;
    while li < boxes.len()
        invariant
            li <= boxes@.len() <= u32::MAX,
            d.wf(),
            n == d.cells(),
            counts@.len() == n,
            forall|i: int| 0 <= i < boxes@.len() ==> box_inside(#[trigger] boxes@[i], d),
            forall|c: int|
                0 <= c < n ==> #[trigger] counts@[c] == cell_lights(d, boxes@, c, li as nat).len(),
        decreases boxes@.len() - li,
    {
        proof {
            assert forall|c: int| 0 <= c < n implies #[trigger] counts@[c] == cell_lights(
                d,
                boxes@,
                c,
                stage(d, boxes@, c, li as int, 0),
            ).len() by {
                stage_done(d, boxes@, c, li as int);
            }
        }
        count_light(&mut counts, boxes, d, li);
        proof {
            assert forall|c: int| 0 <= c < n implies #[trigger] counts@[c] == cell_lights(
                d,
                boxes@,
                c,
                (li + 1) as nat,
            ).len() by {
                stage_done(d, boxes@, c, li as int);
            }
        }
        li = li + 1;
    }
    let mut grid: Vec<u32> = Vec::new();
    let mut acc: u64 = n as u64 + 1;
    let mut c: usize = 0;
    while c < n
        invariant
            c <= n,
            n == d.cells() <= 0x100_0000,
            boxes@.len() <= u32::MAX,
            counts@.len() == n,
            forall|e: int|
                0 <= e < n ==> #[trigger] counts@[e] == cell_lights(
                    d,
                    boxes@,
                    e,
                    boxes@.len(),
                ).len(),
            acc == offset(d, boxes@, c as int),
            acc <= u32::MAX,
            grid@.len() == c,
            forall|e: int| 0 <= e < c ==> #[trigger] grid@[e] == offset(d, boxes@, e),
        decreases n - c,
    {
        grid.push(acc as u32);
        acc = acc + counts[c] as u64;
        c = c + 1;
        if acc > u32::MAX as u64 {
            proof {
                if c < n {
                    offsets_grow(d, boxes@, c as int, n as int);
                }
            }
            return None;
        }
    }
    let mut cursor: Vec<u32> = Vec::new();
    let mut e: usize = 0;
    while e < n
        invariant
            e <= n,
            n == grid@.len(),
            cursor@ == grid@.take(e as int),
        decreases n - e,
    {
        cursor.push(grid[e]);
        e = e + 1;
        proof {
            assert(cursor@ =~= grid@.take(e as int));
        }
    }
    let ghost heads = grid@;
    grid.push(acc as u32);
    let total: usize = acc as usize;
    proof {
        entries_nonneg(d, boxes@, n as int);
    }
    while grid.len() < total
        invariant
            n == d.cells() == heads.len(),
            n + 1 <= grid@.len() <= total,
            total == offset(d, boxes@, n as int),
            grid@.take(n as int) == heads,
            grid@[n as int] == total,
        decreases total - grid@.len(),
    {
        grid.push(0);
        proof {
            assert(grid@.take(n as int) =~= heads);
        }
    }
    proof {
        assert forall|c: int| 0 <= c <= d.cells() implies #[trigger] grid@[c] == offset(
            d,
            boxes@,
            c,
        ) by {
            if c < n {
                assert(grid@.take(n as int)[c] == heads[c]);
            }
        }
        assert forall|c: int| 0 <= c < d.cells() implies #[trigger] cell_filled(
            d,
            boxes@,
            grid@,
            cursor@,
            c,
            0,
        ) by {
            assert(cursor@[c] == heads[c]);
        }
    }
    let mut li: usize = 0;
    while li < boxes.len()
        invariant
            li <= boxes@.len() <= u32::MAX,
            d.wf(),
            n == d.cells(),
            forall|i: int| 0 <= i < boxes@.len() ==> box_inside(#[trigger] boxes@[i], d),
            grid_shape(d, boxes@, grid@, cursor@),
            forall|c: int|
                0 <= c < n ==> #[trigger] cell_filled(d, boxes@, grid@, cursor@, c, li as nat),
        decreases boxes@.len() - li,
    {
        proof {
            assert forall|c: int| 0 <= c < d.cells() implies #[trigger] cell_filled(
                d,
                boxes@,
                grid@,
                cursor@,
                c,
                stage(d, boxes@, c, li as int, 0),
            ) by {
                stage_done(d, boxes@, c, li as int);
                assert(cell_filled(d, boxes@, grid@, cursor@, c, li as nat));
            }
        }
        place_light(&mut grid, &mut cursor, boxes, d, li);
        li = li + 1;
        proof {
            assert forall|c: int| 0 <= c < n implies #[trigger] cell_filled(
                d,
                boxes@,
                grid@,
                cursor@,
                c,
                li as nat,
            ) by {
                stage_done(d, boxes@, c, li - 1);
                assert(cell_filled(
                    d,
                    boxes@,
                    grid@,
                    cursor@,
                    c,
                    stage(d, boxes@, c, li - 1, d.ny * d.nz),
                ));
            }
        }
    }
    proof {
        assert forall|c: int, j: int|
            0 <= c < d.cells() && 0 <= j < cell_lights(d, boxes@, c, boxes@.len()).len() implies grid@[
        #[trigger] offset(d, boxes@, c) + j] == #[trigger] cell_lights(
            d,
            boxes@,
            c,
            boxes@.len(),
        )[j] by {
            assert(cell_filled(d, boxes@, grid@, cursor@, c, boxes@.len()));
        }
    }
    Some(grid)
}

/// The part of the grid between two neighbouring offsets is the list of the cell: it holds exactly
/// the lights that reach the cell, each once, in ascending order.
pub proof fn cell_list_is_exact(d: GridDims, boxes: Seq<CellBox>, grid: Seq<u32>, c: int)
    requires
        d.wf(),
        0 <= c < d.cells(),
        boxes.len() <= u32::MAX,
        is_light_grid(d, boxes, grid),
    ensures
        grid[c] <= grid[c + 1] <= grid.len(),
        grid.subrange(grid[c] as int, grid[c + 1] as int) == cell_lights(
            d,
            boxes,
            c,
            boxes.len(),
        ),
        forall|li: int|
            0 <= li < boxes.len() ==> (covers(d, boxes[li], c) <==> grid.subrange(
                grid[c] as int,
                grid[c + 1] as int,
            ).contains(#[trigger] (li as u32))),
{
    let l = cell_lights(d, boxes, c, boxes.len());
    assert(grid[c] == offset(d, boxes, c) && grid[c + 1] == offset(d, boxes, c + 1));
    if c + 1 < d.cells() {
        offsets_grow(d, boxes, c + 1, d.cells());
    }
    offsets_grow(d, boxes, c, c + 1);
    assert(grid.subrange(grid[c] as int, grid[c + 1] as int) =~= l) by {
        assert forall|j: int| 0 <= j < l.len() implies grid[offset(d, boxes, c) + j] == l[j] by {}
    }
    assert forall|li: int| 0 <= li < boxes.len() implies (covers(d, boxes[li], c) <==> l.contains(
        #[trigger] (li as u32),
    )) by {
        list_members(d, boxes, c, boxes.len(), li);
    }
}

proof fn list_members(d: GridDims, boxes: Seq<CellBox>, c: int, k: nat, li: int)
    requires
        0 <= li < boxes.len() <= u32::MAX,
        k <= boxes.len(),
    ensures
        cell_lights(d, boxes, c, k).contains(li as u32) <==> (li < k && covers(d, boxes[li], c)),
    decreases k,
{
    if k > 0 {
        list_members(d, boxes, c, (k - 1) as nat, li);
        let p = cell_lights(d, boxes, c, (k - 1) as nat);
        if covers(d, boxes[k - 1], c) {
            let q = p.push((k - 1) as u32);
            if p.contains(li as u32) {
                let i = choose|i: int| 0 <= i < p.len() && p[i] == li as u32;
                assert(q[i] == li as u32);
            }
            if li == k - 1 {
                assert(q[p.len() as int] == li as u32);
            }
            if q.contains(li as u32) {
                let i = choose|i: int| 0 <= i < q.len() && q[i] == li as u32;
                if i < p.len() {
                    assert(p[i] == li as u32);
                }
            }
        }
    }
}

/// The light grid of a map: its corner and cell size, its dimensions with the number of lights, the
/// scales, the light records and the cells.
pub struct LightGrid {
    pub grid_min: V4,
    pub dims: GridDims,
    /// The number of lights that the shader walks.
    pub lights: u32,
    /// The scale of the lights, the scale of the ambient, whether lights are on, and the strength of
    /// the sun.
    pub params: V4,
    pub records: Vec<V4>,
    pub cells: Vec<u32>,
}

impl LightGrid {
    /// The words that the shader reads of the grid itself, 48 bytes.
    pub fn words(&self) -> (r: Vec<u32>)
        ensures
            r@ == seq![
                self.grid_min.x.bits,
                self.grid_min.y.bits,
                self.grid_min.z.bits,
                self.grid_min.w.bits,
                self.dims.nx,
                self.dims.ny,
                self.dims.nz,
                self.lights,
                self.params.x.bits,
                self.params.y.bits,
                self.params.z.bits,
                self.params.w.bits,
            ],
            4 * r@.len() == 48,
    {
        let r: Vec<u32> = vec![
            self.grid_min.x.bits,
            self.grid_min.y.bits,
            self.grid_min.z.bits,
            self.grid_min.w.bits,
            self.dims.nx,
            self.dims.ny,
            self.dims.nz,
            self.lights,
            self.params.x.bits,
            self.params.y.bits,
            self.params.z.bits,
            self.params.w.bits,
        ];
        assert(r@ =~= seq![
            self.grid_min.x.bits,
            self.grid_min.y.bits,
            self.grid_min.z.bits,
            self.grid_min.w.bits,
            self.dims.nx,
            self.dims.ny,
            self.dims.nz,
            self.lights,
            self.params.x.bits,
            self.params.y.bits,
            self.params.z.bits,
            self.params.w.bits,
        ]);
        r
    }
}

/// The bits of 6.0, the usual scale of the lights.
pub const DEFAULT_LIGHT_SCALE: u32 = 0x40c0_0000;

/// The bits of 0.8, the usual strength of the sun.
pub const DEFAULT_SUN_DIFFUSE: u32 = 0x3f4c_cccd;

/// The bits of 8.0, the size of the one cell of a grid without lights.
pub const DARK_CELL: u32 = 0x4100_0000;

/// What the environment asks for: the scale of the lights, that of the ambient and the strength of
/// the sun.
#[derive(Clone, Copy, Debug, PartialEq, Eq, Structural)]
pub struct LightScales {
    pub light: Option<F32>,
    pub ambient: Option<F32>,
    pub sun: Option<F32>,
}

/// A number that is asked for, where it is finite; else the usual one.
pub open spec fn finite_or(v: Option<F32>, d: u32) -> F32 {
    match v {
        Some(x) => if x.finite() {
            x
        } else {
            float(d)
        },
        None => float(d),
    }
}

fn finite_of(v: Option<F32>, d: u32) -> (r: F32)
    ensures
        r == finite_or(v, d),
{
    match v {
        Some(x) => if x.is_finite() {
            x
        } else {
            F32 { bits: d }
        },
        None => F32 { bits: d },
    }
}

/// The cells of a grid: how large they are, how many, and those that each light reaches.
pub struct CellGrid {
    pub cell: F32,
    pub dims: GridDims,
    pub boxes: Vec<CellBox>,
}

impl CellGrid {
    /// Whether the cells can be those of a number of lights.
    pub open spec fn fits(self, lights: nat) -> bool {
        &&& self.dims.wf()
        &&& self.boxes@.len() == lights <= u32::MAX
        &&& forall|i: int| 0 <= i < self.boxes@.len() ==> box_inside(#[trigger] self.boxes@[i], self.dims)
    }
}

/// Whether the lights of a map are walked at all.
pub open spec fn lights_active(lights: Seq<LightIn>, rt_enabled: bool) -> bool {
    rt_enabled && lights.len() > 0
}

/// The parameters of a grid. The sun counts only where lights are walked in real time: a full bake
/// holds it already.
pub open spec fn light_params(s: LightScales, active: bool, rt_enabled: bool) -> V4 {
    V4 {
        x: finite_or(s.light, DEFAULT_LIGHT_SCALE),
        y: finite_or(s.ambient, ONE),
        z: if active {
            float(ONE)
        } else {
            float(0)
        },
        w: if rt_enabled {
            finite_or(s.sun, DEFAULT_SUN_DIFFUSE)
        } else {
            float(0)
        },
    }
}

/// The light records of a map: never none.
pub open spec fn records_of(lights: Seq<LightIn>) -> Seq<V4> {
    if lights.len() == 0 {
        seq![zero_record(), zero_record(), zero_record()]
    } else {
        all_records(lights, lights.len())
    }
}

/// Whether a grid is that of a map whose lights are off, or that has none: one cell, no lights.
pub open spec fn is_dark(g: LightGrid, min: V3) -> bool {
    &&& g.grid_min == (V4 { x: min.x, y: min.y, z: min.z, w: float(DARK_CELL) })
    &&& g.dims == (GridDims { nx: 1, ny: 1, nz: 1 })
    &&& g.lights == 0
    &&& g.cells@ == seq![2u32, 2u32]
}

/// Whether a grid is that of a map whose lights are on.
pub open spec fn is_lit(g: LightGrid, min: V3, lights: Seq<LightIn>, c: CellGrid) -> bool {
    &&& g.grid_min == (V4 { x: min.x, y: min.y, z: min.z, w: c.cell })
    &&& g.dims == c.dims
    &&& g.lights == lights.len()
    &&& is_light_grid(c.dims, c.boxes@, g.cells@)
}

/// The cells of a grid without lights.
fn dark_cells() -> (r: Vec<u32>)
    ensures
        r@ == seq![2u32, 2u32],
        is_light_grid(GridDims { nx: 1, ny: 1, nz: 1 }, Seq::empty(), r@),
{
    let mut cells: Vec<u32> = Vec::new();
    cells.push(2);
    cells.push(2);
    proof {
        let dims = GridDims { nx: 1, ny: 1, nz: 1 };
        assert(cells@ =~= seq![2u32, 2u32]);
        reveal_with_fuel(entries_below, 3);
        assert(dims.ny * dims.nz * dims.nx == 1) by (nonlinear_arith)
            requires
                dims.ny == 1,
                dims.nz == 1,
                dims.nx == 1,
        ;
        assert(cell_lights(dims, Seq::<CellBox>::empty(), 0, 0).len() == 0);
    }
    cells
}

/// The light grid of a map. `cells` is looked at only where lights are walked in real time and there
/// are some. Nothing comes back where the lists of the cells do not fit in 32 bits.
pub fn build_light_grid(
    lights: &Vec<LightIn>,
    rt_enabled: bool,
    cells: &CellGrid,
    min: V3,
    scales: LightScales,
) -> (r: Option<LightGrid>)
    requires
        lights_active(lights@, rt_enabled) ==> cells.fits(lights@.len()),
    ensures
        match r {
            Some(g) => {
                &&& g.records@ == records_of(lights@)
                &&& g.params == light_params(scales, lights_active(lights@, rt_enabled), rt_enabled)
                &&& if lights_active(lights@, rt_enabled) {
                    is_lit(g, min, lights@, *cells)
                } else {
                    is_dark(g, min)
                }
            },
            None => lights_active(lights@, rt_enabled) && offset(
                cells.dims,
                cells.boxes@,
                cells.dims.cells(),
            ) > u32::MAX,
        },
{
    let light_scale = finite_of(scales.light, DEFAULT_LIGHT_SCALE);
    let ambient_scale = finite_of(scales.ambient, ONE);
    let sun_diffuse = if rt_enabled {
        finite_of(scales.sun, DEFAULT_SUN_DIFFUSE)
    } else {
        F32 { bits: 0 }
    };
    let records = pack_lights(lights);
    if !rt_enabled || lights.len() == 0 {
        return Some(
            LightGrid {
                grid_min: V4 { x: min.x, y: min.y, z: min.z, w: F32 { bits: DARK_CELL } },
                dims: GridDims { nx: 1, ny: 1, nz: 1 },
                lights: 0,
                params: V4 { x: light_scale, y: ambient_scale, z: F32 { bits: 0 }, w: sun_diffuse },
                records,
                cells: dark_cells(),
            },
        );
    }
    match build_cells(&cells.boxes, cells.dims) {
        Some(list) => Some(
            LightGrid {
                grid_min: V4 { x: min.x, y: min.y, z: min.z, w: cells.cell },
                dims: cells.dims,
                lights: lights.len() as u32,
                params: V4 {
                    x: light_scale,
                    y: ambient_scale,
                    z: F32 { bits: ONE },
                    w: sun_diffuse,
                },
                records,
                cells: list,
            },
        ),
        None => None,
    }
}

} // verus!
