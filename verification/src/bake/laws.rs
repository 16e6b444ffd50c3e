//! What the baker's decisions come to, said of probes, lamps and materials themselves.
use crate::bake::args::{
    backend_named, command, ArgsView, Backend, BakeArgs, BakeEnv, BakeSettings, UsageView,
};
use crate::bake::grid::{
    buried, by_the_open, cell_index_bound, cell_of, corner, grid_fits, open_at, probe_index,
    probe_order, ways, OPEN, Way,
};
use crate::bake::half::{exponent, fraction, half_fits, half_magnitude, half_of, widened};
use crate::bake::lights::{burnt_in, BakeLight};
use crate::bake::materials::{glow_texture, largest_id, last_with, wanted, BounceMaterial};
use crate::compose::maybe_text;
use crate::f32bits::{float, F32};
use crate::gpu::paths::{all_distinct, interning_is_stable, with_path};
use crate::settings::says;
use crate::text::trimmed;
use vstd::arithmetic::div_mod::{lemma_div_denominator, lemma_fundamental_div_mod};
use vstd::prelude::*;

verus! {

/// How far apart two coordinates are.
pub open spec fn gap(a: int, b: int) -> int {
    if a < b {
        b - a
    } else {
        a - b
    }
}

/// How many steps along the axes lead from one probe to another. Probes are numbered along the first
/// axis, then along the second, then along the third.
pub open spec fn steps_between(p: int, q: int, nx: int, ny: int) -> int {
    gap(p % nx, q % nx) + gap((p / nx) % ny, (q / nx) % ny) + gap(p / (nx * ny), q / (nx * ny))
}

/// Where probe `q` of a grid stands: its number is made of the coordinates, and they lie in the grid.
pub proof fn probes_stand_on_the_grid(q: int, nx: int, ny: int, nz: int)
    requires
        nx > 0,
        ny > 0,
        0 <= q < nx * ny * nz,
    ensures
        0 <= cell_of(q, nx, ny).0 < nx,
        0 <= cell_of(q, nx, ny).1 < ny,
        0 <= cell_of(q, nx, ny).2 < nz,
        q == (cell_of(q, nx, ny).2 * ny + cell_of(q, nx, ny).1) * nx + cell_of(q, nx, ny).0,
        q == probe_index(cell_of(q, nx, ny).0, cell_of(q, nx, ny).1, cell_of(q, nx, ny).2, nx, ny),
{
    let (x, y, z) = cell_of(q, nx, ny);
    let layer = nx * ny;
    assert(layer > 0) by (nonlinear_arith)
        requires
            nx > 0,
            ny > 0,
            layer == nx * ny,
    ;
    lemma_fundamental_div_mod(q, nx);
    lemma_fundamental_div_mod(q / nx, ny);
    lemma_div_denominator(q, nx, ny);
    lemma_fundamental_div_mod(q, layer);
    assert(q / nx == z * ny + y) by (nonlinear_arith)
        requires
            q / nx == ny * ((q / nx) / ny) + y,
            (q / nx) / ny == z,
    ;
    assert(q == (z * ny + y) * nx + x) by (nonlinear_arith)
        requires
            q == nx * (q / nx) + x,
            q / nx == z * ny + y,
    ;
    assert(0 <= z < nz) by (nonlinear_arith)
        requires
            q == layer * z + q % layer,
            0 <= q % layer < layer,
            0 <= q < layer * nz,
            layer > 0,
    ;
}

/// A probe inside geometry looks for a way out exactly where a probe one step away, along any one of
/// the three axes, lies in the open.
pub proof fn buried_probes_move_beside_the_open(validity: Seq<u8>, nx: int, ny: int, nz: int, p: int)
    requires
        nx > 0,
        ny > 0,
        validity.len() == nx * ny * nz,
        0 <= p < validity.len(),
    ensures
        by_the_open(validity, nx, ny, nz, p) <==> exists|q: int|
            0 <= q < validity.len() && steps_between(p, q, nx, ny) == 1 && #[trigger] validity[q] >= 128,
        (validity[p] < OPEN && by_the_open(validity, nx, ny, nz, p)) <==> validity[p] < 128 && exists|q: int|
            0 <= q < validity.len() && steps_between(p, q, nx, ny) == 1 && #[trigger] validity[q] >= 128,
{
    let (x, y, z) = cell_of(p, nx, ny);
    probes_stand_on_the_grid(p, nx, ny, nz);
    if by_the_open(validity, nx, ny, nz, p) {
        let (a, b, c) = if open_at(validity, nx, ny, nz, x + 1, y, z) {
            (x + 1, y, z)
        } else if open_at(validity, nx, ny, nz, x - 1, y, z) {
            (x - 1, y, z)
        } else if open_at(validity, nx, ny, nz, x, y + 1, z) {
            (x, y + 1, z)
        } else if open_at(validity, nx, ny, nz, x, y - 1, z) {
            (x, y - 1, z)
        } else if open_at(validity, nx, ny, nz, x, y, z + 1) {
            (x, y, z + 1)
        } else {
            (x, y, z - 1)
        };
        let q = probe_index(a, b, c, nx, ny);
        probe_order(a, b, c, nx, ny);
        cell_index_bound(a, b, c, nx, ny, nz);
        assert(validity[q] >= 128);
        assert(steps_between(p, q, nx, ny) == 1);
    }
    assert forall|q: int|
        0 <= q < validity.len() && steps_between(p, q, nx, ny) == 1 && #[trigger] validity[q]
            >= 128 implies by_the_open(validity, nx, ny, nz, p) by {
        probes_stand_on_the_grid(q, nx, ny, nz);
        let (a, b, c) = cell_of(q, nx, ny);
        assert(open_at(validity, nx, ny, nz, a, b, c));
    }
}

/// The number of a probe when the first two axes of its grid change places.
pub open spec fn turned_over(q: int, nx: int, ny: int) -> int {
    ((q / (nx * ny)) * nx + q % nx) * ny + (q / nx) % ny
}

/// Which probes look for a way out does not depend on which axis is called the first.
pub proof fn axes_are_alike(v: Seq<u8>, w: Seq<u8>, nx: int, ny: int, nz: int, p: int)
    requires
        nx > 0,
        ny > 0,
        v.len() == nx * ny * nz,
        w.len() == nx * ny * nz,
        forall|q: int| 0 <= q < v.len() ==> w[turned_over(q, nx, ny)] == #[trigger] v[q],
        0 <= p < v.len(),
    ensures
        by_the_open(v, nx, ny, nz, p) ==> by_the_open(w, ny, nx, nz, turned_over(p, nx, ny)),
{
    assert(ny * nx * nz == nx * ny * nz) by (nonlinear_arith);
    assert(ny * nx == nx * ny) by (nonlinear_arith);
    buried_probes_move_beside_the_open(v, nx, ny, nz, p);
    if by_the_open(v, nx, ny, nz, p) {
        let q = choose|q: int|
            0 <= q < v.len() && steps_between(p, q, nx, ny) == 1 && #[trigger] v[q] >= 128;
        turning_over_swaps(p, nx, ny, nz);
        turning_over_swaps(q, nx, ny, nz);
        let (p2, q2) = (turned_over(p, nx, ny), turned_over(q, nx, ny));
        assert(w[q2] >= 128);
        assert(steps_between(p2, q2, ny, nx) == 1);
        buried_probes_move_beside_the_open(w, ny, nx, nz, p2);
    }
}

proof fn turning_over_swaps(q: int, nx: int, ny: int, nz: int)
    requires
        nx > 0,
        ny > 0,
        0 <= q < nx * ny * nz,
    ensures
        0 <= turned_over(q, nx, ny) < nx * ny * nz,
        cell_of(turned_over(q, nx, ny), ny, nx) == (
            cell_of(q, nx, ny).1,
            cell_of(q, nx, ny).0,
            cell_of(q, nx, ny).2,
        ),
{
    probes_stand_on_the_grid(q, nx, ny, nz);
    let (x, y, z) = cell_of(q, nx, ny);
    probe_order(y, x, z, ny, nx);
    cell_index_bound(y, x, z, ny, nx, nz);
    assert(ny * nx * nz == nx * ny * nz) by (nonlinear_arith);
}

/// A grid that fits holds at most 2,600,000 probes, in at most 8,192 rows of at most 4,096; any other
/// is too large. What fits still fits when it is made coarser.
pub proof fn grids_have_limits(nx: int, ny: int, nz: int, mx: int, my: int, mz: int)
    requires
        0 <= mx <= nx,
        0 <= my <= ny,
        0 <= mz <= nz,
    ensures
        grid_fits(nx, ny, nz) <==> ny * nz <= 8192 && nx <= 4096 && nx * ny * nz <= 2600000,
        grid_fits(nx, ny, nz) ==> grid_fits(mx, my, mz),
{
    assert(my * mz <= ny * nz) by (nonlinear_arith)
        requires
            0 <= my <= ny,
            0 <= mz <= nz,
    ;
    assert(mx * my <= nx * ny) by (nonlinear_arith)
        requires
            0 <= mx <= nx,
            0 <= my <= ny,
    ;
    assert(0 <= mx * my) by (nonlinear_arith)
        requires
            0 <= mx,
            0 <= my,
    ;
    let (a, b) = (mx * my, nx * ny);
    assert(a * mz <= b * nz) by (nonlinear_arith)
        requires
            0 <= a <= b,
            0 <= mz <= nz,
    ;
}

/// The buried probes are those with a validity below 128, each counted once.
pub proof fn buried_probes_are_counted(validity: Seq<u8>, n: nat)
    requires
        n <= validity.len(),
    ensures
        buried(validity, n) == validity.take(n as int).filter(|v: u8| v < 128).len(),
    decreases n,
{
    reveal(Seq::filter);
    if n > 0 {
        buried_probes_are_counted(validity, (n - 1) as nat);
        assert(validity.take(n as int).drop_last() =~= validity.take(n - 1));
    } else {
        assert(validity.take(0) =~= Seq::empty());
    }
}

/// The eight probes around a point: along each axis the one before it or the next, and the last one
/// again where there is no next.
pub proof fn taps_are_the_corners_of_the_cell(far: bool, i: int, n: int)
    requires
        0 <= i < n,
    ensures
        0 <= corner(far, i, n) < n,
        corner(false, i, n) == i,
        i < n - 1 ==> corner(true, i, n) == i + 1,
        i == n - 1 ==> corner(true, i, n) == i,
{
}

/// A probe may be moved out of each face and each corner of its cell, in no direction twice and never
/// along one edge; opposite directions follow each other, and faces come before corners.
pub proof fn ways_lead_out_of_faces_and_corners(i: int, j: int)
    requires
        0 <= i < 14,
        0 <= j < 14,
    ensures
        ways().len() == 14,
        i != j ==> ways()[i] != ways()[j],
        i < 6 <==> gap(0, ways()[i].x as int) + gap(0, ways()[i].y as int) + gap(0, ways()[i].z as int) == 1,
        i >= 6 <==> gap(0, ways()[i].x as int) == 1 && gap(0, ways()[i].y as int) == 1 && gap(
            0,
            ways()[i].z as int,
        ) == 1,
        i < 6 && i % 2 == 0 ==> ways()[i + 1] == (Way {
            x: (-ways()[i].x) as i32,
            y: (-ways()[i].y) as i32,
            z: (-ways()[i].z) as i32,
        }),
        i < 2 <==> ways()[i].x != 0 && ways()[i].y == 0,
        2 <= i < 4 <==> ways()[i].y != 0 && ways()[i].x == 0,
        i < 6 && i % 2 == 0 ==> ways()[i].x + ways()[i].y + ways()[i].z == 1,
{
}

/// The lamps that are burnt in are those with a negative group, in their order; none where direct
/// light is left out.
pub proof fn burnt_in_lamps_are_always_on(lights: Seq<BakeLight>, indirect_only: bool)
    ensures
        burnt_in(lights, indirect_only) == (if indirect_only {
            Seq::empty()
        } else {
            lights.filter(|l: BakeLight| l.group_idx < 0)
        }),
    decreases lights.len(),
{
    reveal(Seq::filter);
    if lights.len() > 0 {
        burnt_in_lamps_are_always_on(lights.drop_last(), indirect_only);
    }
}

/// A float of the ordinary range loses less than one step of its half: the half is not above it in
/// magnitude and the next half is. Infinities stay, what is no number stays none, and the sign stays.
pub proof fn halves_come_close(x: F32)
    ensures
        half_of(x) >= 0x8000 <==> x.bits >= 0x8000_0000,
        half_of(F32 { bits: (x.bits as int % 0x8000_0000) as u32 }) == half_of(x) % 0x8000,
        0x3880_0000 <= x.magnitude() < 0x4780_0000 ==> widened(half_of(x) as u16).magnitude() <= x.magnitude()
            < widened(half_of(x) as u16).magnitude() + 8192,
        x.magnitude() >= 0x4780_0000 && !x.nan() ==> half_of(x) % 0x8000 == 0x7c00,
        x.nan() ==> half_of(x) % 0x8000 > 0x7c00,
        x.magnitude() < 0x3300_0000 ==> half_of(x) % 0x8000 == 0,
{
    half_fits(x);
    let y = F32 { bits: (x.bits as int % 0x8000_0000) as u32 };
    assert(exponent(y) == exponent(x));
    assert(fraction(y) == fraction(x));
    assert(x.magnitude() == exponent(x) * 0x80_0000 + fraction(x));
    half_fits(y);
    assert(half_magnitude(y) == half_magnitude(x));
    if 0x3880_0000 <= x.magnitude() < 0x4780_0000 {
        let h = half_of(x) as u16;
        assert(half_magnitude(x) == (exponent(x) - 112) * 1024 + fraction(x) / 8192);
        assert((h as int / 1024) % 32 == exponent(x) - 112);
        assert(h as int % 1024 == fraction(x) / 8192);
    }
}

/// What the command line says of rays and of direct light wins over the environment; where neither
/// says anything 256 rays are cast, light bounces once with 128 rays, and probes are moved out of
/// walls. There are never fewer than 8 rays, and 1 to 4096 for the bounce; the sky counts twice and
/// lamps six times where nothing else is said.
pub proof fn the_command_line_wins(env: BakeEnv, args: BakeArgs)
    ensures
        ({
            let s = BakeSettings::given(env, args);
            &&& s.rays >= 8 && 1 <= s.bounce_rays <= 4096
            &&& args.rays matches Some(n) ==> s.rays == (if n >= 8 {
                n
            } else {
                8
            })
            &&& args.rays is None && env.rays is None ==> s.rays == 256
            &&& args.indirect_only ==> s.indirect_only
            &&& s.indirect_only ==> args.indirect_only || says(env.indirect, "1"@)
            &&& says(env.indirect, "1"@) ==> s.indirect_only
            &&& s.virtual_offset <==> !says(env.virtual_offset, "0"@)
            &&& env.bounce is None ==> s.bounce
            &&& env.bounce_rays is None ==> s.bounce_rays == 128
            &&& args.backend == Backend::Cpu || env.gpu_bounce is None ==> !s.gpu_bounce
            &&& env.sky is None ==> s.sky_scale == float(0x4000_0000)
            &&& env.light_scale is None ==> s.light_scale == float(0x40c0_0000)
            &&& env.albedo_boost is None ==> s.albedo_boost == float(0x3f80_0000)
            &&& env.emis_gain is None ==> s.emis_gain == float(0x3f80_0000)
            &&& env.sky matches Some(f) ==> s.sky_scale == f
            &&& env.light_scale matches Some(f) ==> s.light_scale == f
            &&& env.albedo_boost matches Some(f) ==> s.albedo_boost == f
            &&& env.emis_gain matches Some(f) ==> s.emis_gain == f
        }),
{
}

/// What an environment text of digits gives is the number that it is written as: zero turns the bounce
/// off, anything else on.
pub proof fn counts_are_read(env: BakeEnv, args: BakeArgs, n: u64)
    requires
        env.bounce matches Some(s) && crate::numbers::unsigned_value(trimmed(s@)) == Some(n as nat),
    ensures
        BakeSettings::given(env, args).bounce == (n > 0),
{
}

/// A material entry of the bounce comes from the last material with its id, its glow from the last of
/// those that glow; there is an entry for every id and none beyond the largest.
pub proof fn entries_come_from_the_last_material(mats: Seq<BounceMaterial>, id: int, glowing: bool, n: nat)
    requires
        n <= mats.len(),
    ensures
        match last_with(mats, id, glowing, n) {
            Some(k) => {
                &&& 0 <= k < n
                &&& mats[k].id == id
                &&& glowing ==> mats[k].emissive
                &&& forall|j: int|
                    k < j < n ==> !((#[trigger] mats[j]).id == id && (glowing ==> mats[j].emissive))
            },
            None => forall|j: int|
                0 <= j < n ==> !((#[trigger] mats[j]).id == id && (glowing ==> mats[j].emissive)),
        },
        forall|j: int| 0 <= j < n ==> (#[trigger] mats[j]).id <= largest_id(mats, n),
        n > 0 ==> exists|j: int| 0 <= j < n && (#[trigger] mats[j]).id == largest_id(mats, n),
        n == 0 ==> largest_id(mats, n) == 0,
    decreases n,
{
    if n > 0 {
        entries_come_from_the_last_material(mats, id, glowing, (n - 1) as nat);
        if mats[n - 1].id <= largest_id(mats, (n - 1) as nat) {
            if n == 1 {
                assert(mats[0].id == largest_id(mats, n));
            } else {
                let j = choose|j: int|
                    0 <= j < n - 1 && (#[trigger] mats[j]).id == largest_id(mats, (n - 1) as nat);
                assert(mats[j].id == largest_id(mats, n));
            }
        } else {
            assert(mats[n - 1].id == largest_id(mats, n));
        }
    }
}

/// The textures of the bounce are the albedos of the materials and the textures of those that glow:
/// all of them, nothing else, and none twice.
pub proof fn bounce_textures_are_exact(mats: Seq<BounceMaterial>, n: nat, t: Seq<char>)
    requires
        n <= mats.len(),
    ensures
        all_distinct(wanted(mats, n)),
        wanted(mats, n).contains(t) <==> exists|j: int|
            0 <= j < n && (maybe_text((#[trigger] mats[j]).albedo) == Some(t) || (mats[j].emissive && maybe_text(
                mats[j].emissive_texture,
            ) == Some(t))),
    decreases n,
{
    if n > 0 {
        bounce_textures_are_exact(mats, (n - 1) as nat, t);
        let m = mats[n - 1];
        let before = wanted(mats, (n - 1) as nat);
        let between = with_path(before, maybe_text(m.albedo));
        with_path_adds(before, maybe_text(m.albedo), t);
        with_path_adds(between, glow_texture(m), t);
        if exists|j: int|
            0 <= j < n - 1 && (maybe_text((#[trigger] mats[j]).albedo) == Some(t) || (mats[j].emissive && maybe_text(
                mats[j].emissive_texture,
            ) == Some(t))) {
            let j = choose|j: int|
                0 <= j < n - 1 && (maybe_text((#[trigger] mats[j]).albedo) == Some(t) || (mats[j].emissive
                    && maybe_text(mats[j].emissive_texture) == Some(t)));
            assert(0 <= j < n);
        }
        if maybe_text(m.albedo) == Some(t) || (m.emissive && maybe_text(m.emissive_texture) == Some(t)) {
            assert(m == mats[n - 1]);
        }
    }
}

proof fn with_path_adds(s: Seq<Seq<char>>, p: Option<Seq<char>>, t: Seq<char>)
    requires
        all_distinct(s),
    ensures
        all_distinct(with_path(s, p)),
        with_path(s, p).contains(t) <==> s.contains(t) || p == Some(t),
{
    if let Some(a) = p {
        interning_is_stable(s, a, t);
        let r = with_path(s, p);
        if s.contains(t) {
            let i = choose|i: int| 0 <= i < s.len() && s[i] == t;
            assert(r[i] == t);
        }
        if r.contains(t) && a != t {
            let i = choose|i: int| 0 <= i < r.len() && r[i] == t;
            if i == s.len() {
                crate::gpu::paths::position_is_first(s, a);
            } else {
                assert(s[i] == t);
            }
        }
        crate::gpu::paths::position_is_first(s, a);
        if a == t {
            assert(r[crate::gpu::paths::position(s, a)] == t);
        }
    }
}

/// A command line with nothing but a pack asks for the pack, with the CPU where it is forced by `1` or
/// the card is taken; the words `auto`, `gpu` and `cpu` name the backends.
pub proof fn a_bare_command_line_names_a_pack(dir: Seq<char>, force_cpu: Option<String>, busy: bool)
    requires
        !crate::text::begins(dir, "-"@),
        dir != "--rays"@ && dir != "--indirect"@ && dir != "--indirect-only"@ && dir != "--backend"@,
    ensures
        command(seq![dir], force_cpu, busy) == Ok::<ArgsView, UsageView>(
            ArgsView {
                pack_dir: Some(dir),
                rays: None,
                indirect_only: false,
                backend: if busy || says(force_cpu, "1"@) {
                    Backend::Cpu
                } else {
                    Backend::Auto
                },
            },
        ),
        command(seq![dir, "--indirect"@], force_cpu, busy) matches Ok(a) && a.indirect_only && a.pack_dir == Some(
            dir,
        ),
        command(seq![dir, "--indirect-only"@], force_cpu, busy) matches Ok(a) && a.indirect_only && a.pack_dir
            == Some(dir),
        command(seq![dir, dir], force_cpu, busy) == Err::<ArgsView, UsageView>(
            UsageView::ExtraArgument(dir),
        ),
        backend_named("auto"@) == Some(Backend::Auto),
        backend_named("gpu"@) == Some(Backend::Gpu),
        backend_named("cpu"@) == Some(Backend::Cpu),
{
    reveal_with_fuel(crate::bake::args::read_from, 4);
    reveal_strlit("--rays");
    reveal_strlit("--indirect");
    reveal_strlit("--indirect-only");
    reveal_strlit("--backend");
    reveal_strlit("auto");
    reveal_strlit("gpu");
    reveal_strlit("cpu");
    assert("auto"@.len() == 4 && "gpu"@[0] == 'g' && "cpu"@[0] == 'c');
    assert("--indirect"@.len() == 10 && "--rays"@.len() == 6 && "--indirect-only"@.len() == 15);
}

} // verus!
