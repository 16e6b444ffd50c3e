//! Which lamps of a map are burnt into its volume.
use crate::bake::args::light_is_baked;
use crate::f32bits::F32;
use crate::gpu::materials::V3;
use vstd::prelude::*;

verus! {

/// A lamp of the map.
#[derive(Clone, Copy, Debug, PartialEq, Eq, Structural)]
pub struct BakeLight {
    pub pos: V3,
    pub color: V3,
    pub range: F32,
    pub dir: V3,
    pub cos_inner: F32,
    pub cos_outer: F32,
    /// The group that a switch turns on; negative for a lamp that is always on.
    pub group_idx: i32,
}

/// The lamps that no switch controls, in their order.
pub open spec fn always_on(lights: Seq<BakeLight>) -> Seq<BakeLight>
    decreases lights.len(),
{
    if lights.len() == 0 {
        Seq::empty()
    } else if lights.last().group_idx < 0 {
        always_on(lights.drop_last()).push(lights.last())
    } else {
        always_on(lights.drop_last())
    }
}

/// The lamps that are baked: none where direct light is left out, else those that no switch controls.
pub open spec fn burnt_in(lights: Seq<BakeLight>, indirect_only: bool) -> Seq<BakeLight> {
    if indirect_only {
        Seq::empty()
    } else {
        always_on(lights)
    }
}

/// The lamps whose light goes into the volume. Those that a switch controls are off to begin with, so
/// none of them does.
pub fn baked_lights(lights: &Vec<BakeLight>, indirect_only: bool) -> (r: Vec<BakeLight>)
    ensures
        r@ == burnt_in(lights@, indirect_only),
{
    let mut r: Vec<BakeLight> = Vec::new();
    let mut i: usize = 0;
    while i < lights.len()
        invariant
            i <= lights@.len(),
            r@ == burnt_in(lights@.take(i as int), indirect_only),
        decreases lights@.len() - i,
    {
        let l = lights[i];
        if light_is_baked(indirect_only, l.group_idx) {
            r.push(l);
        }
        i = i + 1;
        proof {
            assert(lights@.take(i as int).drop_last() =~= lights@.take(i - 1));
        }
    }
    proof {
        assert(lights@.take(i as int) =~= lights@);
    }
    r
}

/// Nothing is switched among the lamps that are always on.
pub proof fn always_on_is_idempotent(lights: Seq<BakeLight>)
    ensures
        always_on(always_on(lights)) == always_on(lights),
    decreases lights.len(),
{
    if lights.len() > 0 {
        always_on_is_idempotent(lights.drop_last());
        let rest = always_on(lights.drop_last());
        if lights.last().group_idx < 0 {
            assert(rest.push(lights.last()).drop_last() =~= rest);
        }
    }
}

/// Taking every switched lamp out of a map changes nothing that is baked: switched lamps are never
/// burnt into the volume.
pub proof fn switched_lights_are_never_burnt_in(lights: Seq<BakeLight>, indirect_only: bool)
    ensures
        burnt_in(always_on(lights), indirect_only) == burnt_in(lights, indirect_only),
        forall|i: int|
            0 <= i < burnt_in(lights, indirect_only).len() ==> (#[trigger] burnt_in(
                lights,
                indirect_only,
            )[i]).group_idx < 0,
{
    always_on_is_idempotent(lights);
    always_on_groups(lights);
}

proof fn always_on_groups(lights: Seq<BakeLight>)
    ensures
        forall|i: int| 0 <= i < always_on(lights).len() ==> (#[trigger] always_on(lights)[i]).group_idx < 0,
    decreases lights.len(),
{
    if lights.len() > 0 {
        always_on_groups(lights.drop_last());
        let rest = always_on(lights.drop_last());
        assert forall|i: int| 0 <= i < always_on(lights).len() implies (#[trigger] always_on(lights)[i]).group_idx
            < 0 by {
            if i < rest.len() {
                assert(always_on(lights)[i] == rest[i]);
            }
        }
    }
}

/// Where direct light is left out, a map is baked as if it had no lamps.
pub proof fn indirect_light_needs_no_lamps(lights: Seq<BakeLight>)
    ensures
        burnt_in(lights, true) == burnt_in(Seq::empty(), true),
        burnt_in(lights, true).len() == 0,
{
}

} // verus!
