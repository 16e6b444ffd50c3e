//! The decision logic of the Atlas map viewer: what is loaded, packed, shaded, routed and shown.
//!
//! Everything here is plain data in, plain data out. Files, the GPU and floating point arithmetic
//! live in the program around this library; a 32-bit float is carried here as its bit pattern.
#![allow(unused_imports)]

use vstd::prelude::*;

pub mod answers;
pub mod bake;
pub mod bytes;
pub mod changes;
pub mod compose;
pub mod f32bits;
pub mod gpu;
pub mod hash;
pub mod instancing;
pub mod json;
pub mod loot_laws;
pub mod loot_run;
pub mod loot_search;
pub mod numbers;
pub mod path_guard;
pub mod pathfind;
pub mod pathfind_laws;
pub mod paths;
pub mod paths_laws;
pub mod planner;
pub mod planner_laws;
pub mod poi;
pub mod post;
pub mod progress;
pub mod render_path;
pub mod settings;
pub mod settings_laws;
pub mod standard;
pub mod standard_laws;
pub mod text;
pub mod text_laws;
pub mod texture;
