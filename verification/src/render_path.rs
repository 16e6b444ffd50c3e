//! Which of the three render paths is run.
use vstd::prelude::*;
use crate::gpu::load::DeviceFeatures;
use crate::text::{contains_text, same, to_ascii_lower, trim};
use crate::text::{ascii_lowered, holds_text, trimmed};

verus! {

/// Counts the maps that were loaded: it grows by one with each, and all that belongs to one map is
/// built anew when it does.
#[derive(Clone, Copy, Debug, PartialEq, Eq, Structural)]
pub struct MapEpoch(pub u64);

/// The render paths.
#[derive(Clone, Copy, Debug, PartialEq, Eq, Structural)]
pub enum RenderPath {
    /// One instanced draw per mesh, without culling and without textures.
    M0Instanced,
    /// Buffers, culling and draw lists on the GPU.
    GpuDriven,
    /// The engine's own meshes and materials.
    Standard,
}

/// What the probe of the graphics adapter found.
#[derive(Debug)]
pub enum AdapterProbe {
    /// No adapter answered.
    Failed,
    Found { driver_info: String, features: DeviceFeatures },
}

/// The path that a word stands for, in large or small letters and with white space around it.
pub open spec fn path_named(s: Seq<char>) -> Option<RenderPath> {
    let t = ascii_lowered(trimmed(s));
    if t == "m0"@ || t == "instanced"@ {
        Some(RenderPath::M0Instanced)
    } else if t == "std"@ || t == "standard"@ || t == "pbr"@ {
        Some(RenderPath::Standard)
    } else if t == "gpu"@ || t == "gpu-driven"@ {
        Some(RenderPath::GpuDriven)
    } else {
        None
    }
}

/// The path that is forced: by the environment, or by the command line where the environment says
/// nothing at all.
pub open spec fn forced(env: Option<Seq<char>>, cli: Option<Seq<char>>) -> Option<RenderPath> {
    match env {
        Some(s) => path_named(s),
        None => match cli {
            Some(s) => path_named(s),
            None => None,
        },
    }
}

/// The text of an optional setting.
pub open spec fn option_text(v: Option<&str>) -> Option<Seq<char>> {
    match v {
        Some(s) => Some(s@),
        None => None,
    }
}

fn read_path_name(s: &str) -> (r: Option<RenderPath>)
    ensures
        r == path_named(s@),
{
    let trimmed_text = trim(s);
    let low = to_ascii_lower(trimmed_text.as_str());
    let t = low.as_str();
    if same(t, "m0") || same(t, "instanced") {
        Some(RenderPath::M0Instanced)
    } else if same(t, "std") || same(t, "standard") || same(t, "pbr") {
        Some(RenderPath::Standard)
    } else if same(t, "gpu") || same(t, "gpu-driven") {
        Some(RenderPath::GpuDriven)
    } else {
        None
    }
}

/// The path that is forced. Where there is none, the adapter has to be probed.
pub fn forced_path(env: Option<&str>, cli: Option<&str>) -> (r: Option<RenderPath>)
    ensures
        r == forced(option_text(env), option_text(cli)),
{
    match env {
        Some(s) => read_path_name(s),
        None => match cli {
            Some(s) => read_path_name(s),
            None => None,
        },
    }
}

/// The path that suits an adapter: the standard one where its driver reports the LLPC compiler, the
/// GPU-driven one where it has all that this path asks for, and the instanced one otherwise.
pub open spec fn suited(probe: AdapterProbe) -> RenderPath {
    match probe {
        AdapterProbe::Failed => RenderPath::M0Instanced,
        AdapterProbe::Found { driver_info, features } => if holds_text(driver_info@, "LLPC"@) {
            RenderPath::Standard
        } else if features.enough() {
            RenderPath::GpuDriven
        } else {
            RenderPath::M0Instanced
        },
    }
}

/// The path that suits an adapter.
pub fn probe_render_path(probe: &AdapterProbe) -> (r: RenderPath)
    ensures
        r == suited(*probe),
{
    match probe {
        AdapterProbe::Failed => RenderPath::M0Instanced,
        AdapterProbe::Found { driver_info, features } => {
            if contains_text(driver_info.as_str(), "LLPC") {
                RenderPath::Standard
            } else if features.supports_gpu_driven() {
                RenderPath::GpuDriven
            } else {
                RenderPath::M0Instanced
            }
        },
    }
}

impl RenderPath {
    /// The path to run: the one that is forced, else the one that suits the adapter.
    pub fn from_env_or(env: Option<&str>, cli: Option<&str>, probe: &AdapterProbe) -> (r: RenderPath)
        ensures
            r == (match forced(option_text(env), option_text(cli)) {
                Some(p) => p,
                None => suited(*probe),
            }),
    {
        match forced_path(env, cli) {
            Some(p) => p,
            None => probe_render_path(probe),
        }
    }
}

/// The graphics interfaces that may be used.
#[derive(Clone, Copy, Debug, PartialEq, Eq, Structural)]
pub enum Backends {
    Vulkan,
    All,
}

/// The interfaces that may be used on an operating system: Vulkan alone on Windows and Linux, where
/// the others cannot run the viewer.
pub fn allowed_backends(os: &str) -> (r: Backends)
    ensures
        r == (if os@ == "windows"@ || os@ == "linux"@ {
            Backends::Vulkan
        } else {
            Backends::All
        }),
{
    if same(os, "windows") || same(os, "linux") {
        Backends::Vulkan
    } else {
        Backends::All
    }
}

/// The probe never puts the fast path on an adapter that lacks what the path asks for: without a word
/// from the user it is chosen only where all of it is there.
pub proof fn fast_path_needs_its_features(probe: AdapterProbe)
    ensures
        suited(probe) == RenderPath::GpuDriven ==> (probe matches AdapterProbe::Found {
            features,
            ..
        } && features.enough()),
{
}

} // verus!
