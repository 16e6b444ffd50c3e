//! Where the grass of a map has its texture from, and its tint.
use crate::f32bits::{float, F32, ONE};
use crate::gpu::materials::V4;
use crate::json::{number_at, number_or, target, Json};
use vstd::prelude::*;

verus! {

/// The bits of 0.7, 0.75 and 0.55: the usual tint of grass.
pub const GRASS_RED: u32 = 0x3f33_3333;

pub const GRASS_GREEN: u32 = 0x3f40_0000;

pub const GRASS_BLUE: u32 = 0x3f0c_cccd;

/// Where the texture of the grass is.
#[derive(Clone, Copy, Debug, PartialEq, Eq, Structural)]
pub enum GrassPlace {
    /// Where the description says: an absolute path as it stands, any other inside the pack.
    AsGiven,
    /// The file of that name at the root of the pack.
    AtRoot,
    /// The file of that name among the terrain layers of the pack.
    InLayers,
}

/// Where the texture is: the first place that has it.
pub open spec fn grass_place(as_given: bool, at_root: bool, in_layers: bool) -> Option<GrassPlace> {
    if as_given {
        Some(GrassPlace::AsGiven)
    } else if at_root {
        Some(GrassPlace::AtRoot)
    } else if in_layers {
        Some(GrassPlace::InLayers)
    } else {
        None
    }
}

/// Where the texture of the grass is, given how long the file of clumps is, what the description calls
/// the texture and which of the three files exist. There is no grass without clumps, without a name or
/// without the texture: a placeholder would cover the map in magenta.
pub fn find_grass(bin_len: usize, albedo: &str, as_given: bool, at_root: bool, in_layers: bool) -> (r: Option<
    GrassPlace,
>)
    ensures
        r == (if bin_len > 0 && albedo@.len() > 0 {
            grass_place(as_given, at_root, in_layers)
        } else {
            None
        }),
{
    if bin_len == 0 || crate::compose::is_blank(albedo) {
        return None;
    }
    if as_given {
        Some(GrassPlace::AsGiven)
    } else if at_root {
        Some(GrassPlace::AtRoot)
    } else if in_layers {
        Some(GrassPlace::InLayers)
    } else {
        None
    }
}

/// The tint of the grass, from the list in its description; a number that is not there is the usual
/// one.
pub fn grass_tint(list: Option<&Json>) -> (r: V4)
    ensures
        r == (V4 {
            x: number_or(target(list), 0, float(GRASS_RED)),
            y: number_or(target(list), 1, float(GRASS_GREEN)),
            z: number_or(target(list), 2, float(GRASS_BLUE)),
            w: float(ONE),
        }),
{
    V4 {
        x: number_at(list, 0, F32 { bits: GRASS_RED }),
        y: number_at(list, 1, F32 { bits: GRASS_GREEN }),
        z: number_at(list, 2, F32 { bits: GRASS_BLUE }),
        w: F32 { bits: ONE },
    }
}

} // verus!
