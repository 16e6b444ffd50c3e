//! The command line and the settings of the baker.
use vstd::prelude::*;
use crate::compose::maybe_text;
use crate::f32bits::{F32, ONE};
use crate::numbers::{parse_unsigned, unsigned_value};
use crate::settings::{is_set_to, says};
use crate::text::{begins_with, same, trim};
use crate::text::{begins, texts, trimmed};

verus! {

/// What works out the direct light: the GPU where it can, with the CPU as a fallback; or the CPU
/// alone.
#[derive(Clone, Copy, Debug, PartialEq, Eq, Structural)]
pub enum Backend {
    Auto,
    Gpu,
    Cpu,
}

impl Backend {
    /// Whether the GPU is tried.
    pub fn tries_gpu(self) -> (r: bool)
        ensures
            r == (self != Backend::Cpu),
    {
        match self {
            Backend::Auto | Backend::Gpu => true,
            Backend::Cpu => false,
        }
    }
}

/// What is wrong with a command line.
#[derive(Debug)]
pub enum BakeUsage {
    /// The number of rays is missing or no number.
    RaysNeedInteger,
    /// The backend is missing or unknown.
    BackendNeedsChoice(Option<String>),
    UnknownFlag(String),
    ExtraArgument(String),
    /// No pack is named.
    NoPack,
}

/// The same, as a value to speak of.
pub enum UsageView {
    RaysNeedInteger,
    BackendNeedsChoice(Option<Seq<char>>),
    UnknownFlag(Seq<char>),
    ExtraArgument(Seq<char>),
    NoPack,
}

impl View for BakeUsage {
    type V = UsageView;

    open spec fn view(&self) -> UsageView {
        match self {
            BakeUsage::RaysNeedInteger => UsageView::RaysNeedInteger,
            BakeUsage::BackendNeedsChoice(s) => UsageView::BackendNeedsChoice(maybe_text(*s)),
            BakeUsage::UnknownFlag(s) => UsageView::UnknownFlag(s@),
            BakeUsage::ExtraArgument(s) => UsageView::ExtraArgument(s@),
            BakeUsage::NoPack => UsageView::NoPack,
        }
    }
}

/// What a command line asks for.
#[derive(Debug)]
pub struct BakeArgs {
    pub pack_dir: String,
    pub rays: Option<u64>,
    pub indirect_only: bool,
    pub backend: Backend,
}

/// What has been read of a command line.
#[verifier::ext_equal]
pub struct ArgsView {
    pub pack_dir: Option<Seq<char>>,
    pub rays: Option<u64>,
    pub indirect_only: bool,
    pub backend: Backend,
}

/// The backend that a word names.
pub open spec fn backend_named(s: Seq<char>) -> Option<Backend> {
    if s == "auto"@ {
        Some(Backend::Auto)
    } else if s == "gpu"@ {
        Some(Backend::Gpu)
    } else if s == "cpu"@ {
        Some(Backend::Cpu)
    } else {
        None
    }
}

/// The number of rays that a word gives.
pub open spec fn rays_given(s: Seq<char>) -> Option<u64> {
    match unsigned_value(s) {
        Some(v) => if v <= u64::MAX {
            Some(v as u64)
        } else {
            None
        },
        None => None,
    }
}

/// What reading the arguments from place `i` on comes to, given what was read before.
pub open spec fn read_from(args: Seq<Seq<char>>, i: int, a: ArgsView) -> Result<ArgsView, UsageView>
    decreases args.len() - i,
{
    if i < 0 || i >= args.len() {
        Ok(a)
    } else {
        let s = args[i];
        if s == "--rays"@ {
            if i + 1 < args.len() && rays_given(args[i + 1]) is Some {
                read_from(args, i + 2, ArgsView { rays: rays_given(args[i + 1]), ..a })
            } else {
                Err(UsageView::RaysNeedInteger)
            }
        } else if s == "--indirect-only"@ || s == "--indirect"@ {
            read_from(args, i + 1, ArgsView { indirect_only: true, ..a })
        } else if s == "--backend"@ {
            if i + 1 < args.len() {
                match backend_named(args[i + 1]) {
                    Some(backend) => read_from(args, i + 2, ArgsView { backend, ..a }),
                    None => Err(UsageView::BackendNeedsChoice(Some(args[i + 1]))),
                }
            } else {
                Err(UsageView::BackendNeedsChoice(None))
            }
        } else if begins(s, "-"@) {
            Err(UsageView::UnknownFlag(s))
        } else if a.pack_dir is Some {
            Err(UsageView::ExtraArgument(s))
        } else {
            read_from(args, i + 1, ArgsView { pack_dir: Some(s), ..a })
        }
    }
}

/// The backend where the command line names none: the CPU where it is forced, or where a viewer is
/// using the GPU.
pub open spec fn first_backend(force_cpu: Option<String>, busy: bool) -> Backend {
    if says(force_cpu, "1"@) || busy {
        Backend::Cpu
    } else {
        Backend::Auto
    }
}

/// What a command line is read as, before the question of which pack.
pub open spec fn command(args: Seq<Seq<char>>, force_cpu: Option<String>, busy: bool) -> Result<
    ArgsView,
    UsageView,
> {
    read_from(
        args,
        0,
        ArgsView {
            pack_dir: None,
            rays: None,
            indirect_only: false,
            backend: first_backend(force_cpu, busy),
        },
    )
}

fn read_backend(s: &str) -> (r: Option<Backend>)
    ensures
        r == backend_named(s@),
{
    if same(s, "auto") {
        Some(Backend::Auto)
    } else if same(s, "gpu") {
        Some(Backend::Gpu)
    } else if same(s, "cpu") {
        Some(Backend::Cpu)
    } else {
        None
    }
}

/// Read a command line. `force_cpu` is the setting that forces the CPU, and `busy` says whether a
/// viewer is using the GPU.
pub fn parse_args(args: &Vec<String>, force_cpu: &Option<String>, busy: bool) -> (r: Result<BakeArgs, BakeUsage>)
    ensures
        match r {
            Ok(b) => command(texts(args@), *force_cpu, busy) == Ok::<ArgsView, UsageView>(
                ArgsView {
                    pack_dir: Some(b.pack_dir@),
                    rays: b.rays,
                    indirect_only: b.indirect_only,
                    backend: b.backend,
                },
            ),
            Err(e) => match command(texts(args@), *force_cpu, busy) {
                Ok(a) => a.pack_dir is None && e@ is NoPack,
                Err(f) => e@ == f,
            },
        },
{
    let ghost all = texts(args@);
    let ghost whole = command(all, *force_cpu, busy);
    let mut pack_dir: Option<String> = None;
    let mut rays: Option<u64> = None;
    let mut indirect_only = false;
    let mut backend: Backend = if is_set_to(force_cpu, "1") || busy {
        Backend::Cpu
    } else {
        Backend::Auto
    };
    let n: usize = args.len();
    let mut i: usize = 0;
    while i < n
        invariant
            i <= n,
            n == args@.len(),
            all == texts(args@),
            whole == read_from(
                all,
                i as int,
                ArgsView { pack_dir: maybe_text(pack_dir), rays, indirect_only, backend },
            ),
            whole == command(all, *force_cpu, busy),
        decreases n - i,
    {
        let s = args[i].as_str();
        proof {
            assert(all[i as int] == s@);
            assert(all.len() == n);
        }
        if same(s, "--rays") {
            if i + 1 >= n {
                return Err(BakeUsage::RaysNeedInteger);
            }
            proof {
                assert(all[i + 1] == args@[i + 1]@);
            }
            match parse_unsigned(args[i + 1].as_str()) {
                Some(v) => {
                    rays = Some(v);
                },
                None => {
                    return Err(BakeUsage::RaysNeedInteger);
                },
            }
            i = i + 2;
        } else if same(s, "--indirect-only") || same(s, "--indirect") {
            indirect_only = true;
            i = i + 1;
        } else if same(s, "--backend") {
            if i + 1 >= n {
                return Err(BakeUsage::BackendNeedsChoice(None));
            }
            proof {
                assert(all[i + 1] == args@[i + 1]@);
            }
            match read_backend(args[i + 1].as_str()) {
                Some(b) => {
                    backend = b;
                },
                None => {
                    return Err(
                        BakeUsage::BackendNeedsChoice(Some(args[i + 1].as_str().to_owned())),
                    );
                },
            }
            i = i + 2;
        } else if begins_with(s, "-") {
            return Err(BakeUsage::UnknownFlag(s.to_owned()));
        } else if pack_dir.is_some() {
            return Err(BakeUsage::ExtraArgument(s.to_owned()));
        } else {
            pack_dir = Some(s.to_owned());
            i = i + 1;
        }
    }
    match pack_dir {
        Some(d) => Ok(BakeArgs { pack_dir: d, rays, indirect_only, backend }),
        None => Err(BakeUsage::NoPack),
    }
}

/// How a bake ended.
#[derive(Clone, Copy, Debug, PartialEq, Eq, Structural)]
pub enum BakeEnd {
    Done,
    /// The command line was wrong.
    Usage,
    /// The pack could not be loaded, the bake failed, or its files could not be written.
    Failed,
}

/// The exit code of the program.
pub fn exit_code(end: BakeEnd) -> (r: i32)
    ensures
        r == (match end {
            BakeEnd::Done => 0int,
            BakeEnd::Failed => 1,
            BakeEnd::Usage => 2,
        }),
{
    match end {
        BakeEnd::Done => 0,
        BakeEnd::Failed => 1,
        BakeEnd::Usage => 2,
    }
}

/// A setting that is a whole number, or `d` where it is absent or none.
pub open spec fn count_or(v: Option<String>, d: u64) -> u64 {
    match v {
        Some(s) => match rays_given(trimmed(s@)) {
            Some(n) => n,
            None => d,
        },
        None => d,
    }
}

fn read_count(v: &Option<String>, d: u64) -> (r: u64)
    ensures
        r == count_or(*v, d),
{
    match v {
        Some(s) => match parse_unsigned(trim(s.as_str()).as_str()) {
            Some(n) => n,
            None => d,
        },
        None => d,
    }
}

/// The bits of 2.0.
pub const SKY_SCALE: u32 = 0x4000_0000;

/// The bits of 6.0.
pub const LIGHT_SCALE: u32 = 0x40c0_0000;

/// What the environment says of a bake: texts, and the numbers that some of them stand for.
pub struct BakeEnv {
    pub rays: Option<String>,
    pub sky: Option<F32>,
    pub light_scale: Option<F32>,
    pub indirect: Option<String>,
    pub virtual_offset: Option<String>,
    pub bounce: Option<String>,
    pub bounce_rays: Option<String>,
    pub gpu_bounce: Option<String>,
    pub albedo_boost: Option<F32>,
    pub emis_gain: Option<F32>,
}

/// The settings of a bake.
#[derive(Clone, Copy, Debug, PartialEq, Eq, Structural)]
pub struct BakeSettings {
    /// Rays for each probe, at least eight.
    pub rays: u64,
    pub sky_scale: F32,
    pub light_scale: F32,
    /// Whether direct light is left out of the volume.
    pub indirect_only: bool,
    /// Whether probes are moved out of walls.
    pub virtual_offset: bool,
    /// Whether light bounces.
    pub bounce: bool,
    /// Rays for the bounce of each probe, from 1 to 4096.
    pub bounce_rays: u64,
    /// Whether the bounce is tried on the GPU.
    pub gpu_bounce: bool,
    pub albedo_boost: F32,
    pub emis_gain: F32,
}

/// The larger of two counts.
pub open spec fn at_least(n: u64, lo: u64) -> u64 {
    if n < lo {
        lo
    } else {
        n
    }
}

impl BakeSettings {
    /// The settings that an environment gives for a backend and a command line.
    pub open spec fn given(env: BakeEnv, args: BakeArgs) -> BakeSettings {
        BakeSettings {
            rays: at_least(
                match args.rays {
                    Some(n) => n,
                    None => count_or(env.rays, 256),
                },
                8,
            ),
            sky_scale: crate::settings::number_or(env.sky, SKY_SCALE),
            light_scale: crate::settings::number_or(env.light_scale, LIGHT_SCALE),
            indirect_only: args.indirect_only || says(env.indirect, "1"@),
            virtual_offset: !says(env.virtual_offset, "0"@),
            bounce: count_or(env.bounce, 1) > 0,
            bounce_rays: {
                let n = count_or(env.bounce_rays, 128);
                if n < 1 {
                    1
                } else if n > 4096 {
                    4096
                } else {
                    n
                }
            },
            gpu_bounce: args.backend != Backend::Cpu && count_or(env.gpu_bounce, 0) > 0,
            albedo_boost: crate::settings::number_or(env.albedo_boost, ONE),
            emis_gain: crate::settings::number_or(env.emis_gain, ONE),
        }
    }

    /// The settings of a bake: what the command line says wins over the environment.
    pub fn from_env(env: &BakeEnv, args: &BakeArgs) -> (r: BakeSettings)
        ensures
            r == BakeSettings::given(*env, *args),
    {
        let rays: u64 = match args.rays {
            Some(n) => n,
            None => read_count(&env.rays, 256),
        };
        let wanted: u64 = read_count(&env.bounce_rays, 128);
        let bounce_rays: u64 = if wanted < 1 {
            1
        } else if wanted > 4096 {
            4096
        } else {
            wanted
        };
        BakeSettings {
            rays: if rays < 8 {
                8
            } else {
                rays
            },
            sky_scale: float_or(env.sky, SKY_SCALE),
            light_scale: float_or(env.light_scale, LIGHT_SCALE),
            indirect_only: args.indirect_only || is_set_to(&env.indirect, "1"),
            virtual_offset: !is_set_to(&env.virtual_offset, "0"),
            bounce: read_count(&env.bounce, 1) > 0,
            bounce_rays,
            gpu_bounce: args.backend.tries_gpu() && read_count(&env.gpu_bounce, 0) > 0,
            albedo_boost: float_or(env.albedo_boost, ONE),
            emis_gain: float_or(env.emis_gain, ONE),
        }
    }

    /// Which of the rays test whether a probe is inside geometry: every so-and-so-manieth, so that
    /// about sixty-four are left.
    pub fn validity_stride(&self) -> (r: u64)
        ensures
            r == at_least((self.rays / 64) as u64, 1),
    {
        let s: u64 = self.rays / 64;
        if s < 1 {
            1
        } else {
            s
        }
    }

    /// Whether light bounces in a pack with this many triangles.
    pub fn bounces(&self, triangles: usize) -> (r: bool)
        ensures
            r == (self.bounce && triangles > 0),
    {
        self.bounce && triangles > 0
    }
}

fn float_or(v: Option<F32>, d: u32) -> (r: F32)
    ensures
        r == crate::settings::number_or(v, d),
{
    match v {
        Some(f) => f,
        None => F32 { bits: d },
    }
}

/// Whether a light is baked: not where direct light is left out, and not where it belongs to a group
/// that a switch controls, since those are off to begin with.
pub fn light_is_baked(indirect_only: bool, group: i32) -> (r: bool)
    ensures
        r == (!indirect_only && group < 0),
{
    !indirect_only && group < 0
}

/// A backend that is named on the command line is used, whatever forces or occupies the machine: the
/// last one that is named.
pub proof fn named_backend_wins(force_cpu: Option<String>, busy: bool, dir: Seq<char>, word: Seq<char>)
    requires
        backend_named(word) is Some,
        !begins(dir, "-"@),
        dir != "--rays"@ && dir != "--indirect"@ && dir != "--indirect-only"@ && dir != "--backend"@,
    ensures
        command(seq![dir, "--backend"@, word], force_cpu, busy) == Ok::<ArgsView, UsageView>(
            ArgsView {
                pack_dir: Some(dir),
                rays: None,
                indirect_only: false,
                backend: backend_named(word)->0,
            },
        ),
{
    reveal_strlit("--rays");
    reveal_strlit("--indirect");
    reveal_strlit("--indirect-only");
    reveal_strlit("--backend");
    assert("--backend"@.len() == 9);
    assert("--rays"@.len() == 6);
    assert("--indirect"@.len() == 10);
    assert("--indirect-only"@.len() == 15);
    reveal_with_fuel(read_from, 4);
}

} // verus!
