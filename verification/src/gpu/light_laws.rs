//! What the light grid and its records say, in terms of the lights.
use crate::f32bits::{float, F32};
use crate::gpu::lights::{
    all_records, cell_lights, cell_list_is_exact, cell_of_row, count_below, count_up_to, covers,
    finite_or, is_dark, is_light_grid, is_lit, light_params, light_records, lights_active, offset,
    records_of, row_bound, row_coords, CellBox, CellGrid, GridDims, LightGrid, LightIn, LightScales,
};
use crate::gpu::materials::V3;
use vstd::prelude::*;

verus! {

proof fn records_in_order(lights: Seq<LightIn>, k: nat, i: int)
    requires
        0 <= i < k <= lights.len(),
    ensures
        all_records(lights, k).len() == 3 * k,
        all_records(lights, k)[3 * i] == light_records(lights[i])[0],
        all_records(lights, k)[3 * i + 1] == light_records(lights[i])[1],
        all_records(lights, k)[3 * i + 2] == light_records(lights[i])[2],
    decreases k,
{
    if i < k - 1 {
        records_in_order(lights, (k - 1) as nat, i);
    } else if k > 1 {
        records_in_order(lights, (k - 1) as nat, k - 2);
    } else {
        assert(all_records(lights, 0).len() == 0);
    }
}

/// Each light has three records: its place with its range, its colour with the cosine of its outer
/// angle, and its direction with that of its inner angle; they stand in the order of the lights.
pub proof fn each_light_has_three_records(lights: Seq<LightIn>, i: int)
    requires
        0 <= i < lights.len(),
    ensures
        ({
            let r = records_of(lights);
            let l = lights[i];
            &&& r.len() == 3 * lights.len()
            &&& (r[3 * i].x, r[3 * i].y, r[3 * i].z, r[3 * i].w) == (l.pos.x, l.pos.y, l.pos.z, l.range)
            &&& (r[3 * i + 1].x, r[3 * i + 1].y, r[3 * i + 1].z, r[3 * i + 1].w) == (
                l.color.x,
                l.color.y,
                l.color.z,
                l.cos_outer,
            )
            &&& (r[3 * i + 2].x, r[3 * i + 2].y, r[3 * i + 2].z, r[3 * i + 2].w) == (
                l.dir.x,
                l.dir.y,
                l.dir.z,
                l.cos_inner,
            )
        }),
{
    records_in_order(lights, lights.len(), i);
}

/// A map without lights still has three records, all of them zero.
pub proof fn records_are_never_empty(lights: Seq<LightIn>)
    requires
        lights.len() == 0,
    ensures
        records_of(lights).len() == 3,
        forall|i: int|
            0 <= i < 3 ==> (#[trigger] records_of(lights)[i]).x.bits == 0 && records_of(lights)[i].y.bits == 0
                && records_of(lights)[i].z.bits == 0 && records_of(lights)[i].w.bits == 0,
{
}

/// Whether a box reaches from one corner past the cell at (x, y, z) to the other.
pub open spec fn holds_cell(b: CellBox, x: int, y: int, z: int) -> bool {
    b.x0 <= x <= b.x1 && b.y0 <= y <= b.y1 && b.z0 <= z <= b.z1
}

proof fn lists_ascend(d: GridDims, boxes: Seq<CellBox>, c: int, k: nat)
    requires
        k <= boxes.len() <= u32::MAX,
    ensures
        forall|i: int, j: int|
            0 <= i < j < cell_lights(d, boxes, c, k).len() ==> cell_lights(d, boxes, c, k)[i] < cell_lights(
                d,
                boxes,
                c,
                k,
            )[j],
        forall|i: int| 0 <= i < cell_lights(d, boxes, c, k).len() ==> #[trigger] cell_lights(d, boxes, c, k)[i] < k,
    decreases k,
{
    if k > 0 {
        lists_ascend(d, boxes, c, (k - 1) as nat);
        let p = cell_lights(d, boxes, c, (k - 1) as nat);
        let l = cell_lights(d, boxes, c, k);
        assert forall|i: int| 0 <= i < l.len() implies #[trigger] l[i] < k by {
            if i < p.len() {
                assert(l[i] == p[i]);
            }
        }
        assert forall|i: int, j: int| 0 <= i < j < l.len() implies l[i] < l[j] by {
            assert(l[i] == p[i]);
            assert(p[i] < k - 1);
            if j < p.len() {
                assert(l[j] == p[j]);
            } else {
                assert(l[j] == (k - 1) as u32);
            }
        }
    }
}

/// The list of the cell at (x, y, z) begins at the number that stands at (z * ny + y) * nx + x and ends
/// before the next number; it holds exactly the lights whose boxes hold the cell, in ascending order.
pub proof fn cells_list_the_lights_that_reach_them(
    d: GridDims,
    boxes: Seq<CellBox>,
    grid: Seq<u32>,
    x: int,
    y: int,
    z: int,
)
    requires
        d.wf(),
        0 <= x < d.nx,
        0 <= y < d.ny,
        0 <= z < d.nz,
        boxes.len() <= u32::MAX,
        is_light_grid(d, boxes, grid),
    ensures
        ({
            let c = (z * d.ny + y) * d.nx + x;
            let list = grid.subrange(grid[c] as int, grid[c + 1] as int);
            &&& 0 <= c < d.ny * d.nz * d.nx
            &&& d.ny * d.nz * d.nx < grid[c] <= grid[c + 1] <= grid.len()
            &&& forall|l: u32| #[trigger]
                list.contains(l) <==> (l < boxes.len() && holds_cell(boxes[l as int], x, y, z))
            &&& forall|i: int, j: int| 0 <= i < j < list.len() ==> list[i] < list[j]
        }),
{
    let r = z * d.ny + y;
    let c = r * d.nx + x;
    row_bound(d, z, y);
    row_coords(d, z, y);
    cell_of_row(d, r, x);
    cell_list_is_exact(d, boxes, grid, c);
    let list = grid.subrange(grid[c] as int, grid[c + 1] as int);
    lists_ascend(d, boxes, c, boxes.len());
    assert forall|l: u32| #[trigger]
        list.contains(l) <==> (l < boxes.len() && holds_cell(boxes[l as int], x, y, z)) by {
        if l < boxes.len() {
            let li = l as int;
            assert(li as u32 == l);
            assert(covers(d, boxes[li], c) <==> list.contains(li as u32));
        } else if list.contains(l) {
            let i = choose|i: int| 0 <= i < list.len() && list[i] == l;
            assert(cell_lights(d, boxes, c, boxes.len())[i] < boxes.len());
        }
    }
    assert(grid[c] == offset(d, boxes, c));
    lists_begin_after_the_offsets(d, boxes, c);
}

proof fn lists_begin_after_the_offsets(d: GridDims, boxes: Seq<CellBox>, c: int)
    requires
        0 <= c,
    ensures
        offset(d, boxes, c) > d.cells(),
    decreases c,
{
    if c > 0 {
        lists_begin_after_the_offsets(d, boxes, c - 1);
    }
}

/// The lists stand one behind the other: the first begins behind the offsets, of which there is one
/// more than cells, and the last ends with the grid.
pub proof fn lists_fill_the_grid(d: GridDims, boxes: Seq<CellBox>, grid: Seq<u32>)
    requires
        d.wf(),
        is_light_grid(d, boxes, grid),
    ensures
        grid[0] == d.nx * d.ny * d.nz + 1,
        grid[d.nx * d.ny * d.nz] == grid.len(),
{
    let (x, y, z) = (d.nx as int, d.ny as int, d.nz as int);
    assert(y * z * x == x * y * z) by (nonlinear_arith);
    assert(x * y * z >= 0) by (nonlinear_arith)
        requires
            x >= 0,
            y >= 0,
            z >= 0,
    ;
    assert(grid[0] == offset(d, boxes, 0));
    assert(grid[d.cells()] == offset(d, boxes, d.cells()));
}

/// A map whose lights are off, or that has none, has one cell with an empty list.
pub proof fn dark_grids_have_one_empty_cell(g: LightGrid, min: V3)
    requires
        is_dark(g, min),
    ensures
        g.dims.nx == 1 && g.dims.ny == 1 && g.dims.nz == 1,
        g.lights == 0,
        g.cells@.len() == 2,
        g.cells@[0] == 2 && g.cells@[1] == 2,
        (g.grid_min.x, g.grid_min.y, g.grid_min.z) == (min.x, min.y, min.z),
        g.grid_min.w.bits == 0x4100_0000,
{
}

/// A lit grid begins at the corner of the map, has the cells that it was given and counts all lights.
pub proof fn lit_grids_count_all_lights(g: LightGrid, min: V3, lights: Seq<LightIn>, c: CellGrid)
    requires
        is_lit(g, min, lights, c),
    ensures
        (g.grid_min.x, g.grid_min.y, g.grid_min.z, g.grid_min.w) == (min.x, min.y, min.z, c.cell),
        g.lights == lights.len(),
        g.dims == c.dims,
{
}

/// A scale that is asked for counts where it is finite; else lights have 6.0, the ambient 1.0 and the
/// sun 0.8. The sun counts only where lights are walked in real time, and the third number says
/// whether there are any to walk.
pub proof fn scales_are_those_asked_for(s: LightScales, active: bool, rt: bool)
    ensures
        ({
            let p = light_params(s, active, rt);
            &&& s.light is Some && s.light->0.finite() ==> p.x == s.light->0
            &&& !(s.light is Some && s.light->0.finite()) ==> p.x.bits == 0x40c0_0000
            &&& s.ambient is Some && s.ambient->0.finite() ==> p.y == s.ambient->0
            &&& !(s.ambient is Some && s.ambient->0.finite()) ==> p.y.bits == 0x3f80_0000
            &&& active ==> p.z.bits == 0x3f80_0000
            &&& !active ==> p.z.bits == 0
            &&& !rt ==> p.w.bits == 0
            &&& rt && s.sun is Some && s.sun->0.finite() ==> p.w == s.sun->0
            &&& rt && !(s.sun is Some && s.sun->0.finite()) ==> p.w.bits == 0x3f4c_cccd
        }),
{
}

/// The counts by which the middle range is found are those of the ranges below it and up to it.
pub proof fn ranges_are_counted(ranges: Seq<F32>, x: F32, k: nat)
    requires
        k <= ranges.len(),
    ensures
        count_below(ranges, x, k) == ranges.take(k as int).filter(|r: F32| r.lt(x)).len(),
        count_up_to(ranges, x, k) == ranges.take(k as int).filter(|r: F32| r.le(x)).len(),
    decreases k,
{
    reveal(Seq::filter);
    if k > 0 {
        ranges_are_counted(ranges, x, (k - 1) as nat);
        assert(ranges.take(k as int).drop_last() =~= ranges.take(k - 1));
    } else {
        assert(ranges.take(0) =~= Seq::empty());
    }
}

/// A number that is not finite is never taken for one that was asked for.
pub proof fn only_finite_numbers_are_taken(v: Option<F32>, d: u32)
    requires
        float(d).finite(),
    ensures
        finite_or(v, d).finite(),
        finite_or(v, d) == float(d) || v == Some(finite_or(v, d)),
{
}

/// Lights are walked where they are switched on and there are some.
pub proof fn lights_are_walked_where_switched_on(lights: Seq<LightIn>)
    ensures
        !lights_active(lights, false),
        lights.len() == 0 ==> !lights_active(lights, true),
        lights.len() > 0 ==> lights_active(lights, true),
{
}

} // verus!
