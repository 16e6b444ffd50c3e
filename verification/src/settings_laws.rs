//! What the settings start with, what a preset changes, and which path is run.
use crate::f32bits::{float, F32};
use crate::gpu::load::DeviceFeatures;
use crate::path_guard::{
    below, path_of_line, paths_in, settled, token_text, with_attempt, TrustCounter,
};
use crate::render_path::{forced, path_named, suited, AdapterProbe, RenderPath};
use crate::settings::{
    forced_shell, listed, numbers_of, pair_or, says, GfxEnv, GfxSettings, QualityPreset,
};
use crate::numbers::{digits_value, signed_value, unsigned_value};
use crate::text::{ascii_lowered, holds_text, pieces, trimmed};
use vstd::prelude::*;

verus! {

/// A preset keeps every setting that it does not control: fog, reflections, emission, what is
/// available, the strengths, the grade, the vignette, the lens, the light groups and the detail levels.
pub proof fn presets_keep_what_they_do_not_control(p: QualityPreset, g: GfxSettings, d: GfxSettings)
    ensures
        ({
            let r = p.over(g, d);
            &&& r.fog == g.fog && r.sky_refl == g.sky_refl && r.emissive == g.emissive
            &&& r.shadows_available == g.shadows_available && r.grade_available == g.grade_available
            &&& r.bloom_intensity == g.bloom_intensity && r.grade == g.grade && r.grade_exposure == g.grade_exposure
            &&& r.vignette == g.vignette && r.ssao_intensity == g.ssao_intensity && r.ssao_radius == g.ssao_radius
            &&& r.sharpen == g.sharpen && r.aa_strength == g.aa_strength
            &&& r.light_intensity == g.light_intensity && r.sun_diffuse == g.sun_diffuse && r.gi_intensity
                == g.gi_intensity
            &&& r.dof == g.dof && r.dof_focal_m == g.dof_focal_m && r.dof_fstop == g.dof_fstop && r.chroma == g.chroma
            &&& r.light_groups == g.light_groups && r.lod_distance == g.lod_distance && r.lod_bias == g.lod_bias
                && r.lod_force == g.lod_force
        }),
        QualityPreset::Custom.over(g, d) == g,
{
}

/// Only Ultra has ambient occlusion and sun shafts, only Ultra and High have shadows, and Low alone has
/// neither grass nor bloom nor lights; edges are smoothed in all of them.
pub proof fn presets_grow_from_low_to_ultra(p: QualityPreset, g: GfxSettings, d: GfxSettings)
    requires
        p != QualityPreset::Custom,
    ensures
        ({
            let r = p.over(g, d);
            &&& r.ssao == (p == QualityPreset::Ultra)
            &&& r.volumetric == (p == QualityPreset::Ultra)
            &&& r.shadows == (p == QualityPreset::Ultra || p == QualityPreset::High)
            &&& r.grass == (p != QualityPreset::Low)
            &&& r.bloom == (p != QualityPreset::Low)
            &&& r.lights == (p != QualityPreset::Low)
            &&& r.aa
            &&& r.volumetric_strength == d.volumetric_strength
        }),
{
}

/// How small things may be and how far grass reaches: as started with in Ultra and High, without a
/// limit; 2 and 600 pixels and 150 metres in Medium; 4 and 1000 pixels and 80 metres in Low.
pub proof fn lower_presets_cull_more(g: GfxSettings, d: GfxSettings)
    ensures
        QualityPreset::Ultra.over(g, d).cull_px == d.cull_px,
        QualityPreset::Ultra.over(g, d).cull_px_grass == d.cull_px_grass,
        QualityPreset::Ultra.over(g, d).grass_dist_m.bits == 0,
        QualityPreset::High.over(g, d).cull_px == d.cull_px,
        QualityPreset::High.over(g, d).cull_px_grass == d.cull_px_grass,
        QualityPreset::High.over(g, d).grass_dist_m.bits == 0,
        QualityPreset::Medium.over(g, d).cull_px.bits == 0x4000_0000,
        QualityPreset::Medium.over(g, d).cull_px_grass.bits == 0x4416_0000,
        QualityPreset::Medium.over(g, d).grass_dist_m.bits == 0x4316_0000,
        QualityPreset::Low.over(g, d).cull_px.bits == 0x4080_0000,
        QualityPreset::Low.over(g, d).cull_px_grass.bits == 0x447a_0000,
        QualityPreset::Low.over(g, d).grass_dist_m.bits == 0x42a0_0000,
        QualityPreset::Medium.over(g, d).cull_px.lt(QualityPreset::Low.over(g, d).cull_px),
        QualityPreset::Low.over(g, d).grass_dist_m.lt(QualityPreset::Medium.over(g, d).grass_dist_m),
{
}

/// Textures are full in Ultra, halved in High and Medium and quartered in Low; Custom leaves them. The
/// presets are saved under the numbers 0 to 4 and any other number stands for High.
pub proof fn presets_have_tiers_and_numbers(i: u8)
    ensures
        QualityPreset::Ultra.tier() == Some(0u8),
        QualityPreset::High.tier() == Some(1u8),
        QualityPreset::Medium.tier() == Some(1u8),
        QualityPreset::Low.tier() == Some(2u8),
        QualityPreset::Custom.tier() is None,
        QualityPreset::Low.number() == 0 && QualityPreset::Medium.number() == 1 && QualityPreset::High.number() == 2
            && QualityPreset::Ultra.number() == 3 && QualityPreset::Custom.number() == 4,
        i >= 5 ==> QualityPreset::numbered(i) == QualityPreset::High,
        i < 5 ==> QualityPreset::numbered(i).number() == i,
{
}

/// The environment overrides what it names and nothing else: each switch by its own word, each number
/// by its own.
pub proof fn the_environment_overrides_what_it_names(env: GfxEnv)
    ensures
        ({
            let s = GfxSettings::start(env);
            &&& env.fog is Some ==> s.fog == env.fog->0
            &&& env.grade_exposure is Some ==> s.grade_exposure == env.grade_exposure->0
            &&& env.grass_dist_m is Some ==> s.grass_dist_m == env.grass_dist_m->0
            &&& env.sharpen is Some ==> s.sharpen == env.sharpen->0
            &&& env.aa_strength is Some ==> s.aa_strength == env.aa_strength->0
            &&& env.volumetric_strength is Some ==> s.volumetric_strength == env.volumetric_strength->0
            &&& env.lod_bias is Some ==> s.lod_bias == env.lod_bias->0
            &&& s.shadows == !(env.shadows is Some && (trimmed(env.shadows->0@) == "0"@ || ascii_lowered(
                trimmed(env.shadows->0@),
            ) == ascii_lowered("false"@)))
            &&& s.bloom == !(env.bloom is Some && trimmed(env.bloom->0@) == "0"@)
            &&& s.vignette == !(env.vignette is Some && trimmed(env.vignette->0@) == "0"@)
            &&& s.aa == !(env.aa is Some && trimmed(env.aa->0@) == "0"@)
            &&& s.lod_distance == !(env.lod is Some && trimmed(env.lod->0@) == "0"@)
            &&& s.ssao == (env.ssao is Some && trimmed(env.ssao->0@) == "1"@)
            &&& s.volumetric == (env.volumetric is Some && trimmed(env.volumetric->0@) == "1"@)
            &&& s.light_groups == (if env.power is Some && trimmed(env.power->0@) == "1"@ {
                0xffff_ffffu32
            } else {
                0
            })
        }),
{
}

/// Where the environment says nothing, the settings start with the shipped look.
pub proof fn a_silent_environment_gives_the_shipped_look(env: GfxEnv)
    requires
        env.silent(),
    ensures
        ({
            let s = GfxSettings::start(env);
            &&& s == GfxSettings::shipped()
            &&& s.fog.bits == 0x3ecc_cccd && s.grade_exposure.bits == 0x3fac_cccd && s.bloom_intensity.bits
                == 0x3d75_c28f
            &&& s.cull_px.bits == 0x3fc0_0000 && s.cull_px_grass.bits == 0x4080_0000 && s.grass_dist_m.bits == 0
            &&& s.ssao_radius.bits == 0x3f33_3333 && s.aa_strength.bits == 0x3f40_0000
            &&& s.dof_focal_m.bits == 0x4170_0000 && s.dof_fstop.bits == 0x4033_3333
            &&& s.shadows && s.bloom && s.vignette && s.grass && s.aa && s.lights && s.grade && s.lod_distance
            &&& !s.ssao && !s.volumetric && !s.dof && !s.shadows_available && !s.grade_available
            &&& s.light_groups == 0 && s.lod_force == -1
        }),
{
}

/// The numbers of a list are those of its pieces that are numbers, in their order.
pub proof fn numbers_are_picked_in_order(v: Seq<Option<F32>>)
    ensures
        numbers_of(v) == v.filter(|x: Option<F32>| x is Some).map_values(|x: Option<F32>| x->0),
    decreases v.len(),
{
    reveal(Seq::filter);
    let pred = |x: Option<F32>| x is Some;
    let f = |x: Option<F32>| x->0;
    if v.len() > 0 {
        numbers_are_picked_in_order(v.drop_last());
        let before = v.drop_last().filter(pred);
        if v.last() is Some {
            assert(v.filter(pred) =~= before.push(v.last()));
            assert(before.push(v.last()).map_values(f) =~= before.map_values(f).push(v.last()->0));
        }
    }
    assert(numbers_of(v) =~= v.filter(pred).map_values(f));
}

/// A pair is taken where a list has just two numbers, in their order.
pub proof fn pairs_have_just_two_numbers(v: Vec<Option<F32>>, a: u32, b: u32)
    ensures
        numbers_of(v@).len() == 2 ==> pair_or(Some(v), a, b) == (numbers_of(v@)[0], numbers_of(v@)[1]),
        numbers_of(v@).len() != 2 ==> pair_or(Some(v), a, b) == (float(a), float(b)),
        pair_or(None, a, b) == (float(a), float(b)),
{
}

/// The pieces of a list stand between its commas, without white space around them.
pub proof fn lists_are_parted_at_commas(s: Seq<char>)
    ensures
        listed(s) == pieces(s, ',').map_values(|p: Seq<char>| trimmed(p)),
{
    assert(listed(s) =~= pieces(s, ',').map_values(|p: Seq<char>| trimmed(p)));
}

/// A shell is forced by a whole number of 32 bits; anything else forces none.
pub proof fn shells_are_forced_by_numbers(s: String)
    ensures
        signed_value(trimmed(s@)) matches Some(n) ==> -2147483648 <= n <= 2147483647 ==> forced_shell(Some(s)) == n,
        signed_value(trimmed(s@)) is None ==> forced_shell(Some(s)) == -1,
        forced_shell(None) == -1,
{
}

/// A number keeps its value with a plus before it, is turned around by a minus, and a sign alone is no
/// number. Digits weigh ten times as much for each place.
pub proof fn numbers_have_signs_and_places(s: Seq<char>, c: char)
    requires
        s.len() > 0,
        s[0] != '+' && s[0] != '-',
    ensures
        unsigned_value(s) == digits_value(s),
        unsigned_value(seq!['+'] + s) == digits_value(s),
        signed_value(seq!['+'] + s) == signed_value(s),
        digits_value(s) matches Some(v) ==> signed_value(s) == Some(v as int) && signed_value(seq!['-'] + s) == Some(
            -(v as int),
        ),
        digits_value(s) is None ==> signed_value(s) is None && signed_value(seq!['-'] + s) is None,
        unsigned_value(Seq::empty()) is None,
        unsigned_value(seq!['+']) is None && signed_value(seq!['-']) is None,
        digits_value(s) matches Some(v) ==> '0' <= c <= '9' ==> digits_value(s.push(c)) == Some(
            (10 * v + (c as u32 - '0' as u32)) as nat,
        ),
        !('0' <= c <= '9') ==> digits_value(s.push(c)) is None,
{
    let plus = seq!['+'] + s;
    let minus = seq!['-'] + s;
    assert(plus.drop_first() =~= s);
    assert(minus.drop_first() =~= s);
    assert(seq!['+'].drop_first() =~= Seq::<char>::empty());
    assert(s.push(c).drop_last() =~= s);
    assert(s.push(c).last() == c);
}

/// Each path has its words, in large or small letters; any other word names none.
pub proof fn paths_have_their_words(s: Seq<char>)
    ensures
        ({
            let t = ascii_lowered(trimmed(s));
            &&& t == "m0"@ || t == "instanced"@ ==> path_named(s) == Some(RenderPath::M0Instanced)
            &&& t == "std"@ || t == "standard"@ || t == "pbr"@ ==> path_named(s) == Some(RenderPath::Standard)
            &&& t == "gpu"@ || t == "gpu-driven"@ ==> path_named(s) == Some(RenderPath::GpuDriven)
            &&& path_named(s) is None <==> t != "m0"@ && t != "instanced"@ && t != "std"@ && t != "standard"@ && t
                != "pbr"@ && t != "gpu"@ && t != "gpu-driven"@
        }),
{
    reveal_strlit("m0");
    reveal_strlit("instanced");
    reveal_strlit("std");
    reveal_strlit("standard");
    reveal_strlit("pbr");
    reveal_strlit("gpu");
    reveal_strlit("gpu-driven");
    assert("m0"@.len() == 2 && "instanced"@.len() == 9 && "std"@.len() == 3 && "standard"@.len() == 8 && "pbr"@.len()
        == 3 && "gpu"@.len() == 3 && "gpu-driven"@.len() == 10);
    assert("std"@[0] == 's' && "pbr"@[0] == 'p' && "gpu"@[0] == 'g');
}

/// The environment forces a path before the command line does, even with a word that names none.
pub proof fn the_environment_comes_before_the_command_line(env: Option<Seq<char>>, cli: Option<Seq<char>>)
    ensures
        env is Some ==> forced(env, cli) == path_named(env->0),
        env is None && cli is Some ==> forced(env, cli) == path_named(cli->0),
        env is None && cli is None ==> forced(env, cli) is None,
{
}

/// An adapter that does not answer gets the instanced path, one of the LLPC compiler the standard one,
/// and any other the fast one exactly where it can run it.
pub proof fn adapters_get_the_path_that_suits_them(info: String, f: DeviceFeatures)
    ensures
        suited(AdapterProbe::Failed) == RenderPath::M0Instanced,
        holds_text(info@, "LLPC"@) ==> suited(AdapterProbe::Found { driver_info: info, features: f })
            == RenderPath::Standard,
        !holds_text(info@, "LLPC"@) && f.enough() ==> suited(AdapterProbe::Found { driver_info: info, features: f })
            == RenderPath::GpuDriven,
        !holds_text(info@, "LLPC"@) && !f.enough() ==> suited(AdapterProbe::Found { driver_info: info, features: f })
            == RenderPath::M0Instanced,
{
}

/// The paths of a marker are those that its lines name, in their order.
pub proof fn lines_name_paths_in_order(lines: Seq<Seq<char>>)
    ensures
        paths_in(lines) == lines.filter(|l: Seq<char>| path_of_line(l) is Some).map_values(
            |l: Seq<char>| path_of_line(l)->0,
        ),
    decreases lines.len(),
{
    reveal(Seq::filter);
    let pred = |l: Seq<char>| path_of_line(l) is Some;
    let f = |l: Seq<char>| path_of_line(l)->0;
    if lines.len() > 0 {
        lines_name_paths_in_order(lines.drop_last());
        let before = lines.drop_last().filter(pred);
        if path_of_line(lines.last()) is Some {
            assert(lines.filter(pred) =~= before.push(lines.last()));
            assert(before.push(lines.last()).map_values(f) =~= before.map_values(f).push(f(lines.last())));
        }
    }
    assert(paths_in(lines) =~= lines.filter(pred).map_values(f));
}

/// The words of the marker, and the one step down that there is: from the fast path to the standard
/// one.
pub proof fn the_fast_path_steps_down_to_the_standard_one(s: Seq<char>, bad: Seq<RenderPath>)
    ensures
        token_text(RenderPath::GpuDriven) == "gpu"@,
        token_text(RenderPath::Standard) == "std"@,
        token_text(RenderPath::M0Instanced) == "m0"@,
        path_of_line(s) is Some <==> trimmed(s) == "gpu"@ || trimmed(s) == "std"@ || trimmed(s) == "m0"@,
        below(RenderPath::GpuDriven) == Some(RenderPath::Standard),
        below(RenderPath::Standard) is None,
        below(RenderPath::M0Instanced) is None,
        bad.contains(RenderPath::GpuDriven) ==> settled(RenderPath::GpuDriven, bad) == RenderPath::Standard,
        settled(RenderPath::Standard, bad) == RenderPath::Standard,
{
    reveal_with_fuel(settled, 3);
}

/// An attempt stands in the marker once, behind all that were there.
pub proof fn attempts_stand_behind_the_others(set: Seq<RenderPath>, p: RenderPath)
    ensures
        set.contains(p) ==> with_attempt(set, p) == set,
        !set.contains(p) ==> with_attempt(set, p) == set + seq![p],
{
    if !set.contains(p) {
        assert(with_attempt(set, p) =~= set + seq![p]);
    }
}

/// A marker that was cleared stays so; an exit clears it at once; frames without anything to draw do
/// not count; and the hundred-and-twentieth that counts clears it.
pub proof fn frames_that_draw_build_trust(c: TrustCounter, exit: bool, drawing: bool)
    requires
        c.frames < 120,
    ensures
        c.cleared ==> c.after(exit, drawing) == c,
        !c.cleared && exit ==> c.after(exit, drawing).cleared,
        !c.cleared && !exit && !drawing ==> c.after(exit, drawing) == c,
        !c.cleared && !exit && drawing ==> c.after(exit, drawing).frames == c.frames + 1 && c.after(
            exit,
            drawing,
        ).cleared == (c.frames == 119),
{
}

/// Settings that are equal agree in every switch and in every number.
pub proof fn equal_settings_agree(a: GfxSettings, b: GfxSettings)
    ensures
        vstd::std_specs::cmp::PartialEqSpec::eq_spec(&a, &b) ==> {
            &&& a.shadows == b.shadows && a.bloom == b.bloom && a.grade == b.grade && a.vignette == b.vignette
            &&& a.shadows_available == b.shadows_available && a.grade_available == b.grade_available
            &&& a.grass == b.grass && a.ssao == b.ssao && a.aa == b.aa && a.lights == b.lights
            &&& a.volumetric == b.volumetric && a.dof == b.dof && a.light_groups == b.light_groups
            &&& a.lod_distance == b.lod_distance && a.lod_force == b.lod_force
            &&& a.fog.eq(b.fog) && a.sky_refl.eq(b.sky_refl)
            &&& a.emissive.eq(b.emissive) && a.bloom_intensity.eq(b.bloom_intensity)
            &&& a.grade_exposure.eq(b.grade_exposure) && a.cull_px.eq(b.cull_px)
            &&& a.cull_px_grass.eq(b.cull_px_grass) && a.grass_dist_m.eq(b.grass_dist_m)
            &&& a.ssao_intensity.eq(b.ssao_intensity) && a.ssao_radius.eq(b.ssao_radius)
            &&& a.sharpen.eq(b.sharpen) && a.aa_strength.eq(b.aa_strength)
            &&& a.light_intensity.eq(b.light_intensity) && a.sun_diffuse.eq(b.sun_diffuse)
            &&& a.gi_intensity.eq(b.gi_intensity)
            &&& a.volumetric_strength.eq(b.volumetric_strength)
            &&& a.dof_focal_m.eq(b.dof_focal_m) && a.dof_fstop.eq(b.dof_fstop)
            &&& a.chroma.eq(b.chroma) && a.lod_bias.eq(b.lod_bias)
        },
{
}

} // verus!
