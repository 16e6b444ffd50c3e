//! What the small decisions of the program answer: each statement holds of every answer that
//! the decision may give.
use crate::bake::args::{exit_code, light_is_baked, Backend, BakeEnd, BakeSettings};
use crate::bake::grid::sample_step;
use crate::f32bits::{float, F32};
use crate::gpu::draw::{specialize, DrawPass, PassState};
use crate::gpu::lights::{cells_must_grow, clamp_cell, clamp_dim};
use crate::gpu::load::{
    albedo_job, buffer_sizes, free_cpu_staging, gpu_fallback_relaunch, kick_cpu_build, normal_job,
    poll_cpu_build, BufferSizes, BuildOutcome, FallbackAction, KickAction, ShadowSwitch, TexJob,
};
use crate::gpu::materials::{V3, V4};
use crate::gpu::sh_volume::{load_sh_volume, ShVolumeCpu, VolumeMeta};
use crate::gpu::uniforms::{cull_dispatch, light_factors, shadow_layers, ShVolumeUniform, SunShadowUniform};
use crate::loot_run::{scripted_plan, Run};
use crate::pathfind::{finish_route, RouteBuild, RouteJob, RouteOutcome, TraceNode, Variant};
use crate::paths::{python_exe, repo_root, Python, Root};
use crate::poi::assemble::{resolve_sidecar, Sidecar};
use crate::poi::layer::visibility_is_stale;
use crate::post::grade::{find_grade_lut, grade_runs, grade_setup_due, LutPlace};
use crate::post::passes::{
    fpv_runs, ssao_runs, ssr_runs, window_can_be_transparent, AoTarget, DepthPassInputs, FpvCamFx,
};
use crate::progress::PlayerProgress;
use crate::render_path::{allowed_backends, Backends};
use crate::settings::GfxSettings;
use crate::standard::{material_for, PackMaterial};
use crate::texture::prepare::{bc_enabled, upload_format, TexCpu, TexFormat};
use vstd::prelude::*;

verus! {

/// A data file is taken from the first place that has it, in a fixed order of places.
pub proof fn sidecars_come_from_the_first_place(
    env: Option<bool>,
    pack: bool,
    pack_shared: Option<bool>,
    shared: bool,
    cwd: bool,
    r: Option<Sidecar>,
)
    requires
        call_ensures(resolve_sidecar, (env, pack, pack_shared, shared, cwd), r),
    ensures
        r == Some(Sidecar::Env) <==> env == Some(true),
        r == Some(Sidecar::Pack) <==> pack && env != Some(true),
        r == Some(Sidecar::PackShared) <==> pack_shared == Some(true) && !pack && env != Some(true),
        r == Some(Sidecar::Shared) <==> shared && pack_shared != Some(true) && !pack && env != Some(true),
        r is None <==> !cwd && !shared && pack_shared != Some(true) && !pack && env != Some(true),
{
}

/// The table of colours is searched for in the same order, unless grading is switched off.
pub proof fn colour_tables_come_from_the_first_place(
    grade: Option<String>,
    env: Option<bool>,
    pack: Option<bool>,
    pack_shared: Option<bool>,
    shared: bool,
    r: Option<LutPlace>,
)
    requires
        call_ensures(find_grade_lut, (&grade, env, pack, pack_shared, shared), r),
    ensures
        grade is Some && grade->0@ == seq!['0'] ==> r is None,
        grade is None ==> {
            &&& (r == Some(LutPlace::Env) <==> env == Some(true))
            &&& (r == Some(LutPlace::Pack) <==> pack == Some(true) && env != Some(true))
            &&& (r == Some(LutPlace::PackShared) <==> pack_shared == Some(true) && pack != Some(true)
                && env != Some(true))
            &&& (r == Some(LutPlace::Shared) <==> shared && pack_shared != Some(true) && pack != Some(true)
                && env != Some(true))
        },
{
    reveal_strlit("0");
    assert("0"@ =~= seq!['0']);
}

/// Every so many triangles one is sampled, so that half a million are where there are enough.
pub proof fn half_a_million_triangles_are_sampled(triangles: usize, r: usize)
    requires
        call_ensures(sample_step, (triangles,), r),
    ensures
        r >= 1,
        triangles < 1_000_000 ==> r == 1,
        triangles >= 500_000 ==> 500_000 * r <= triangles < 500_000 * (r + 1),
{
}

/// Zero says that a bake went well, one that it failed, two that the command line was wrong.
pub proof fn exit_codes_tell_ends_apart(end: BakeEnd, r: i32)
    requires
        call_ensures(exit_code, (end,), r),
    ensures
        r == 0 <==> end is Done,
        r == 1 <==> end is Failed,
        r == 2 <==> end is Usage,
{
}

/// A lamp goes into the bake just if it cannot be switched and direct light is wanted.
pub proof fn switched_lamps_stay_out(indirect_only: bool, group: i32, r: bool)
    requires
        call_ensures(light_is_baked, (indirect_only, group), r),
    ensures
        group >= 0 ==> !r,
        indirect_only ==> !r,
        group < 0 && !indirect_only ==> r,
{
}

/// Only the choice of the processor keeps the graphics device out.
pub proof fn only_the_processor_keeps_the_device_out(b: Backend, r: bool)
    requires
        call_ensures(Backend::tries_gpu, (b,), r),
    ensures
        !r <==> b is Cpu,
{
}

/// Light bounces where it is asked to and there is something to bounce from.
pub proof fn light_bounces_from_triangles(a: &BakeSettings, triangles: usize, r: bool)
    requires
        call_ensures(BakeSettings::bounces, (a, triangles), r),
    ensures
        triangles == 0 ==> !r,
        !a.bounce ==> !r,
        triangles > 0 && a.bounce ==> r,
{
}

/// The cells of a light grid grow while there are more than four million, sixty-four times at
/// most.
pub proof fn cells_grow_while_too_many(nx: u32, ny: u32, nz: u32, growths: u32, r: bool)
    requires
        nx <= 256,
        ny <= 256,
        nz <= 256,
        call_ensures(cells_must_grow, (nx, ny, nz, growths), r),
    ensures
        r <==> growths < 64 && nx * ny * nz > 4_000_000,
{
}

/// A side of the light grid is the nearest number from one to 256.
pub proof fn sides_are_from_one_to_256(n: i64, r: u32)
    requires
        call_ensures(clamp_dim, (n,), r),
    ensures
        1 <= r <= 256,
        1 <= n <= 256 ==> r == n,
        n <= 1 ==> r == 1,
        n >= 256 ==> r == 256,
{
}

/// A place outside the light grid counts for the nearest cell.
pub proof fn outside_counts_for_the_border(n: i64, dim: u32, r: u32)
    requires
        dim >= 1,
        call_ensures(clamp_cell, (n, dim), r),
    ensures
        r < dim,
        0 <= n < dim ==> r == n,
        n < 0 ==> r == 0,
        n >= dim ==> r + 1 == dim,
{
}

/// What was staged is freed on the fourth frame after it came, counted from the last load.
pub proof fn staging_is_freed_after_four_frames(
    frames: u32,
    has_data: bool,
    in_progress: bool,
    added: bool,
    r: (u32, bool),
)
    requires
        frames < u32::MAX,
        call_ensures(free_cpu_staging, (frames, has_data, in_progress, added), r),
    ensures
        !has_data ==> r.0 == frames && !r.1,
        has_data && in_progress ==> r.0 == 0 && !r.1,
        has_data && !in_progress && added ==> r.0 == 1 && !r.1,
        has_data && !in_progress && !added ==> r.0 == frames + 1 && (r.1 <==> frames >= 3),
{
}

/// What was built for another pack is dropped; what was built for this one is applied, and a
/// tag spawned where there is none.
pub proof fn stale_builds_are_dropped(built_epoch: u64, epoch: u64, built: bool, has_tag: bool, r: BuildOutcome)
    requires
        call_ensures(poll_cpu_build, (built_epoch, epoch, built, has_tag), r),
    ensures
        r is Stale <==> built_epoch != epoch,
        r is Apply <==> built_epoch == epoch && built,
        r is Apply ==> (r->spawn_tag <==> !has_tag),
{
}

/// Without a pack nothing is built; `1` has it built at once, anything else in the background.
pub proof fn builds_run_in_the_background(has_pack: bool, sync_load: Option<&str>, r: KickAction)
    requires
        call_ensures(kick_cpu_build, (has_pack, sync_load), r),
    ensures
        r is Idle <==> !has_pack,
        has_pack && sync_load is None ==> r is Background,
        has_pack && sync_load is Some && sync_load->0@ == seq!['1'] ==> r is Inline,
        has_pack && sync_load is Some && sync_load->0@ == seq!['0'] ==> r is Background,
{
    reveal_strlit("1");
    reveal_strlit("0");
    assert("1"@ =~= seq!['1']);
}

/// A picture of colours is read as colours unless it is one of those that hold numbers; until
/// it is there, it is pink.
pub proof fn colour_pictures_are_pink_until_read(linear: &Vec<u32>, i: u32, r: TexJob)
    requires
        call_ensures(albedo_job, (linear, i), r),
    ensures
        r.srgb != r.data,
        r.data <==> exists|k: int| 0 <= k < linear@.len() && linear@[k] == i,
        !r.is_normal,
        r.placeholder@ == seq![255u8, 0, 255, 255],
{
    if linear@.contains(i) {
        let k = choose|k: int| 0 <= k < linear@.len() && linear@[k] == i;
        assert(linear@[k] == i);
    }
}

/// A map of directions is no colour, and points straight up until it is read.
pub proof fn direction_maps_are_flat_until_read(r: TexJob)
    requires
        call_ensures(normal_job, (), r),
    ensures
        r.is_normal && !r.srgb && !r.data,
        r.placeholder@ == seq![128u8, 128, 255, 255],
{
}

/// Four bytes are kept per instance and twenty per mesh, and no list of pictures is empty.
pub proof fn buffers_hold_what_is_drawn(instances: u32, meshes: u32, albedo: u32, normal: u32, r: BufferSizes)
    requires
        call_ensures(buffer_sizes, (instances, meshes, albedo, normal), r),
    ensures
        r.visible == 4 * instances,
        r.indirect == 20 * meshes,
        albedo > 0 ==> r.albedo == albedo,
        normal > 0 ==> r.normal == normal,
        albedo == 0 ==> r.albedo == 1,
        normal == 0 ==> r.normal == 1,
{
}

/// Two shadow maps are drawn where everything for them is there, and none elsewhere.
pub proof fn shadows_come_in_two_layers(player: bool, resources: bool, switch: ShadowSwitch, pipeline: bool, n: u32)
    requires
        call_ensures(shadow_layers, (player, resources, switch, pipeline), n),
    ensures
        player && resources && switch.enabled && pipeline ==> n == 2,
        !player || !resources || !switch.enabled || !pipeline ==> n == 0,
{
}

/// A scripted run has the budget and the number of stops that were given: a budget above one,
/// and else a hundred thousand; ten stops where none are given.
pub proof fn scripted_runs_have_defaults(first: Option<i64>, second: Option<usize>, r: (i64, usize))
    requires
        call_ensures(scripted_plan, (first, second), r),
    ensures
        first is Some && first->0 > 1 ==> r.0 == first->0,
        first is Some && first->0 <= 1 ==> r.0 == 100_000,
        first is None ==> r.0 == 100_000,
        second is Some ==> r.1 == second->0,
        second is None ==> r.1 == 10,
{
}

/// A run takes stops on until it has as many as were asked for.
pub proof fn runs_fill_up_to_their_stops(run: &Run, r: bool)
    requires
        call_ensures(Run::wants_more, (run,), r),
    ensures
        run.tour@.len() >= run.max_stops ==> !r,
        run.tour@.len() < run.max_stops ==> r,
{
}

/// A run without a single stop is refused, and no other.
pub proof fn runs_without_stops_are_refused(run: &Run, r: Result<(), String>)
    requires
        call_ensures(Run::check_inserted, (run,), r),
    ensures
        r is Err <==> run.tour@.len() == 0,
{
}

/// Ways round are only searched for where there is something to avoid.
pub proof fn ways_round_need_something_to_avoid(q: &RouteJob, r: Vec<Variant>)
    requires
        call_ensures(RouteJob::variants, (q,), r),
    ensures
        r@.len() == (if q.avoid@.len() == 0 {
            1int
        } else {
            3
        }),
        r@[0] is Direct,
        q.avoid@.len() > 0 ==> r@[1] is Cautious && r@[2] is WideBerth,
{
}

/// A search for a route fails just if it has found none, and else hands on what it has found.
pub proof fn found_routes_are_handed_on(build: RouteBuild, nodes: Vec<TraceNode>, r: RouteOutcome)
    requires
        call_ensures(finish_route, (build, nodes), r),
    ensures
        r is Failed <==> build.options@.len() == 0,
        r is Found ==> r->options@ == build.options@ && r->label@ == build.label@ && r->nodes@ == nodes@,
{
}

/// The working directory is looked at before the place of the program.
pub proof fn the_working_directory_goes_first(in_cwd: Option<bool>, beside_exe: bool, r: Option<Root>)
    requires
        call_ensures(repo_root, (in_cwd, beside_exe), r),
    ensures
        r is None <==> in_cwd != Some(true) && !beside_exe,
        in_cwd == Some(true) ==> r == Some(Root::WorkingDir),
        in_cwd != Some(true) && beside_exe ==> r == Some(Root::Exe),
{
}

/// The interpreter that is named is taken, then the one that is shipped, then the one that was
/// set up, and else whichever is on the path.
pub proof fn the_named_interpreter_goes_first(env: Option<&str>, bundled: bool, venv: bool, r: Python)
    requires
        call_ensures(python_exe, (env, bundled, venv), r),
    ensures
        r is Given <==> env is Some && env->0@.len() > 0,
        r is Given ==> r->Given_0@ == env->0@,
        r is At <==> !(env is Some && env->0@.len() > 0) && (bundled || venv),
        r is OnPath <==> !(env is Some && env->0@.len() > 0) && !bundled && !venv,
{
}

/// Markers are looked at again as soon as one of the three things changes that they hang on.
pub proof fn any_change_makes_markers_stale(toggles: bool, tasks: bool, epoch: bool, r: bool)
    requires
        call_ensures(visibility_is_stale, (toggles, tasks, epoch), r),
    ensures
        toggles ==> r,
        tasks ==> r,
        epoch ==> r,
        r ==> toggles || tasks || epoch,
{
}

/// Grading is set up once, and only where there is a table of colours.
pub proof fn grading_is_set_up_once(exists: bool, lut: bool, r: bool)
    requires
        call_ensures(grade_setup_due, (exists, lut), r),
    ensures
        r <==> lut && !exists,
{
}

/// Grading runs unless something is missing or the settings switch it off.
pub proof fn grading_runs_unless_switched_off(
    pipeline: bool,
    settings: Option<&GfxSettings>,
    compiled: bool,
    hdr: bool,
    r: bool,
)
    requires
        call_ensures(grade_runs, (pipeline, settings, compiled, hdr), r),
    ensures
        r ==> pipeline && compiled && hdr,
        settings is Some && !(settings->0.grade && settings->0.grade_available) ==> !r,
        pipeline && compiled && hdr && settings is None ==> r,
        pipeline && compiled && hdr && settings is Some && settings->0.grade && settings->0.grade_available ==> r,
{
}

/// A pass that reads the depth runs just if nothing that it needs is missing.
pub proof fn depth_passes_need_all_their_inputs(i: &DepthPassInputs, target: &AoTarget, hdr: bool, ao: bool, sr: bool)
    requires
        call_ensures(ssao_runs, (i, target), ao),
        call_ensures(ssr_runs, (i, hdr), sr),
    ensures
        !i.pipeline || !i.settings || !i.on || !i.prepass || !i.active || !i.views || !i.compiled ==> !ao && !sr,
        !target.exists ==> !ao,
        !hdr ==> !sr,
        i.pipeline && i.settings && i.on && i.prepass && i.active && i.views && i.compiled ==> ao == target.exists
            && sr == hdr,
{
}

/// The look of a camera drone is drawn while it is on.
pub proof fn drone_looks_run_while_on(pipeline: bool, fx: Option<&FpvCamFx>, compiled: bool, hdr: bool, r: bool)
    requires
        call_ensures(fpv_runs, (pipeline, fx, compiled, hdr), r),
    ensures
        r ==> pipeline && compiled && hdr,
        fx is None ==> !r,
        fx is Some && !fx->0.active ==> !r,
        fx is Some && fx->0.active && pipeline && compiled && hdr ==> r,
{
}

/// Only a window without a frame that keeps its size and stays on top can be transparent.
pub proof fn framed_windows_are_not_transparent(
    decorations: bool,
    resizable: bool,
    on_top: bool,
    transparent: bool,
    r: bool,
)
    requires
        call_ensures(window_can_be_transparent, (decorations, resizable, on_top, transparent), r),
    ensures
        decorations || resizable || !on_top || !transparent ==> !r,
        !decorations && !resizable && on_top && transparent ==> r,
{
}

/// Progress is written when it has changed, and never before it was read.
pub proof fn progress_is_read_before_it_is_written(p: &PlayerProgress, changed: bool, r: bool)
    requires
        call_ensures(PlayerProgress::save_progress, (p, changed), r),
    ensures
        !p.loaded ==> !r,
        !changed ==> !r,
        p.loaded && changed ==> r,
{
}

/// On two systems one backend alone is allowed, elsewhere each of them.
pub proof fn two_systems_have_one_backend(os: &str, r: Backends)
    requires
        call_ensures(allowed_backends, (os,), r),
    ensures
        os@ == seq!['l', 'i', 'n', 'u', 'x'] ==> r is Vulkan,
        os@ == seq!['w', 'i', 'n', 'd', 'o', 'w', 's'] ==> r is Vulkan,
        os@ == seq!['m', 'a', 'c', 'o', 's'] ==> r is All,
        os@.len() != 5 && os@.len() != 7 ==> r is All,
{
    reveal_strlit("windows");
    reveal_strlit("linux");
    assert("windows"@ =~= seq!['w', 'i', 'n', 'd', 'o', 'w', 's']);
    assert("linux"@ =~= seq!['l', 'i', 'n', 'u', 'x']);
    assert(seq!['m', 'a', 'c', 'o', 's'][0] != seq!['l', 'i', 'n', 'u', 'x'][0]);
}

/// Of several materials of one number the last counts.
pub proof fn the_last_material_of_a_number_counts(mats: &Vec<PackMaterial>, id: u32, k: int, r: Option<usize>)
    requires
        call_ensures(material_for, (mats, id), r),
        0 <= k < mats@.len(),
        mats@[k].id == id,
    ensures
        r is Some,
        r->0 >= k,
        r->0 < mats@.len(),
        mats@[r->0 as int].id == id,
{
}

/// A compressed picture is uploaded as such; only pictures of colours are told to be colours,
/// and maps of directions never are.
pub proof fn pictures_keep_their_packing(tex: &TexCpu, f: TexFormat, g: TexFormat)
    requires
        call_ensures(upload_format, (tex, true), f),
        call_ensures(upload_format, (tex, false), g),
    ensures
        tex@ is Bc3 ==> f is Bc3Srgb && g is Bc3Linear,
        tex@ is Bc5 ==> f is Bc5Linear && g is Bc5Linear,
        tex@ is Raw ==> f is Rgba8Srgb && g is Rgba8Linear,
{
}

/// Compression is on wherever the device can and nobody switches it off.
pub proof fn compression_needs_the_device(setting: Option<&str>, device_has_bc: bool, r: bool)
    requires
        call_ensures(bc_enabled, (setting, device_has_bc), r),
    ensures
        !device_has_bc ==> !r,
        setting is None && device_has_bc ==> r,
{
}

/// A pass blends just if it leaves the depth alone; only the depth of decals leaves the colour
/// alone. Nothing is culled or shifted, and the target is taken as it is.
pub proof fn passes_blend_or_write_depth(pass: DrawPass, samples: u32, hdr: bool, r: PassState)
    requires
        call_ensures(specialize, (pass, samples, hdr), r),
    ensures
        r.blend != r.depth_write,
        pass is Opaque || pass is DecalDepth ==> r.depth_write,
        pass is Blend || pass is Overlay || pass is DecalColor ==> r.blend,
        r.color_write <==> !(pass is DecalDepth),
        r.alpha_to_coverage ==> r.depth_write && samples > 1,
        r.depth_write && samples > 1 ==> r.alpha_to_coverage,
        r.samples == samples && r.hdr == hdr,
        !r.cull && r.at_least_as_near && r.depth_bias == 0,
        r.layouts@.len() == 4,
        r.layouts@[0] is View && r.layouts@[1] is Storage && r.layouts@[2] is Material && r.layouts@[3] is Volume,
{
}

/// The program starts again on another path once, when it was asked to and no path is forced.
pub proof fn the_program_starts_again_once(
    fired: bool,
    raised: Option<bool>,
    forced: Option<&str>,
    r: (bool, FallbackAction),
)
    requires
        call_ensures(gpu_fallback_relaunch, (fired, raised, forced), r),
    ensures
        fired ==> r.0 && r.1 is Nothing,
        raised != Some(true) ==> r.0 == fired && r.1 is Nothing,
        !fired && raised == Some(true) ==> r.0 && !(r.1 is Nothing),
        !fired && raised == Some(true) && forced is None ==> r.1 is Relaunch,
{
}

/// A volume has the size, the place and the spacing that its record gives it; without a spacing
/// it has the one that follows from them.
pub proof fn volumes_lie_where_their_record_says(
    meta: &VolumeMeta,
    bin: &Vec<u8>,
    derived_spacing: V3,
    r: Option<ShVolumeCpu>,
)
    requires
        call_ensures(load_sh_volume, (meta, bin, derived_spacing), r),
        r is Some,
    ensures
        r->0.nx == meta.nx && r->0.ny == meta.ny && r->0.nz == meta.nz,
        r->0.min == meta.min && r->0.max == meta.max,
        meta.spacing is Some ==> r->0.spacing == meta.spacing->0,
        meta.spacing is None ==> r->0.spacing == derived_spacing,
{
}

/// The sun's shadows are told the two cascades as they are given, and whether they are on.
pub proof fn shadows_are_told_their_cascades(
    view_proj: Vec<V4>,
    near_texel: F32,
    far_texel: F32,
    sun: V3,
    switch: ShadowSwitch,
    g: Option<GfxSettings>,
    u: SunShadowUniform,
)
    requires
        view_proj@.len() == 8,
        call_ensures(SunShadowUniform::of_frame, (view_proj, near_texel, far_texel, sun, switch, g), u),
    ensures
        u.view_proj@ == view_proj@,
        u.texel_world.x == near_texel && u.texel_world.y == far_texel,
        u.sun_dir_texel.x == sun.x && u.sun_dir_texel.y == sun.y && u.sun_dir_texel.z == sun.z,
        u.split_depths.x.lt(u.split_depths.y),
        switch.enabled ==> u.split_depths.w.bits == 0x3f80_0000,
        !switch.enabled ==> u.split_depths.w.bits == 0,
        switch.debug ==> u.combine.w.bits == 0x3f80_0000,
        !switch.debug ==> u.combine.w.bits == 0,
        u.combine.y.lt(u.combine.z),
{
}

/// A volume is told its own corner and spacing, and its strength unless another is given.
pub proof fn volumes_are_told_their_place(
    sh: &ShVolumeCpu,
    inv_extent: V3,
    dims: V3,
    gi: Option<F32>,
    u: ShVolumeUniform,
)
    requires
        call_ensures(ShVolumeUniform::of_volume, (sh, inv_extent, dims, gi), u),
    ensures
        u.vol_min.x == sh.min.x && u.vol_min.y == sh.min.y && u.vol_min.z == sh.min.z,
        u.spacing.x == sh.spacing.x && u.spacing.y == sh.spacing.y && u.spacing.z == sh.spacing.z,
        u.vol_inv_extent.x == inv_extent.x && u.vol_inv_extent.y == inv_extent.y && u.vol_inv_extent.z
            == inv_extent.z,
        u.dims.x == dims.x && u.dims.y == dims.y && u.dims.z == dims.z,
{
}

/// Lamps that are off give no light, and no strength is negative.
pub proof fn lamps_that_are_off_give_no_light(g: &GfxSettings, r: V3)
    requires
        call_ensures(light_factors, (g,), r),
    ensures
        !g.lights ==> r.x.bits == 0,
        g.lights && float(0).lt(g.light_intensity) ==> r.x == g.light_intensity,
        float(0).lt(g.gi_intensity) ==> r.y == g.gi_intensity,
        float(0).lt(g.sun_diffuse) ==> r.z == g.sun_diffuse,
{
}

/// Enough groups of sixty-four run that every mesh and every instance has its turn, and not one
/// more.
pub proof fn groups_cover_what_is_drawn(
    player: bool,
    buffers: bool,
    pipelines: bool,
    meshes: u32,
    instances: u32,
    r: Option<(u32, u32)>,
)
    requires
        call_ensures(cull_dispatch, (player, buffers, pipelines, meshes, instances), r),
    ensures
        r is Some <==> player && buffers && pipelines,
        r matches Some((a, c)) ==> {
            &&& 64 * a >= meshes && 64 * a < meshes + 64
            &&& 64 * c >= instances && 64 * c < instances + 64
        },
{
}

} // verus!
