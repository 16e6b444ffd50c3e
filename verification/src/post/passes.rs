//! Ambient occlusion, reflections, the drone's video link, and the check of a transparent window.
use vstd::prelude::*;
use crate::f32bits::{float, F32, ONE};
use crate::gpu::materials::V3;

verus! {

/// The picture that ambient occlusion is written to.
#[derive(Clone, Copy, Debug, PartialEq, Eq, Structural)]
pub struct AoTarget {
    pub exists: bool,
    pub width: u32,
    pub height: u32,
}

/// A side of at least one pixel.
pub open spec fn at_least_one(n: u32) -> u32 {
    if n == 0 {
        1
    } else {
        n
    }
}

/// The bytes of a row, for copying: a multiple of 256.
pub open spec fn padded(w: int) -> int {
    ((w + 255) / 256) * 256
}

/// What a picture for ambient occlusion is filled with when it is made: white throughout, so that a
/// frame in which the pass does not run shows no occlusion.
#[derive(Debug)]
pub struct AoFill {
    pub width: u32,
    pub height: u32,
    pub row: u32,
    pub bytes: Vec<u8>,
}

impl AoTarget {
    /// Make the picture for a view of the given size where there is none of that size.
    pub fn prepare_ao_target(&mut self, w: u32, h: u32) -> (r: Option<AoFill>)
        requires
            padded(at_least_one(w) as int) * at_least_one(h) <= u32::MAX,
        ensures
            ({
                let (w1, h1) = (at_least_one(w), at_least_one(h));
                if old(self).exists && old(self).width == w1 && old(self).height == h1 {
                    r is None && *final(self) == *old(self)
                } else {
                    &&& *final(self) == (AoTarget { exists: true, width: w1, height: h1 })
                    &&& r matches Some(f) && f.width == w1 && f.height == h1 && f.row == padded(w1 as int)
                        && f.bytes@.len() == padded(w1 as int) * h1 && forall|i: int|
                        0 <= i < f.bytes@.len() ==> #[trigger] f.bytes@[i] == 255
                }
            }),
    {
        let w1: u32 = if w == 0 {
            1
        } else {
            w
        };
        let h1: u32 = if h == 0 {
            1
        } else {
            h
        };
        if self.exists && self.width == w1 && self.height == h1 {
            return None;
        }
        proof {
            assert(padded(w1 as int) <= padded(w1 as int) * h1) by (nonlinear_arith)
                requires
                    h1 >= 1,
                    padded(w1 as int) >= 0,
            ;
        }
        let row: u32 = ((w1 as u64 + 255) / 256 * 256) as u32;
        let n: u32 = row * h1;
        let mut bytes: Vec<u8> = Vec::new();
        let mut i: u32 = 0;
        while i < n
            invariant
                i <= n,
                bytes@.len() == i,
                forall|k: int| 0 <= k < bytes@.len() ==> #[trigger] bytes@[k] == 255,
            decreases n - i,
        {
            bytes.push(255);
            i = i + 1;
        }
        self.exists = true;
        self.width = w1;
        self.height = h1;
        Some(AoFill { width: w1, height: h1, row, bytes })
    }
}

/// A row is long enough for its pixels, and as long as copying asks.
pub proof fn rows_are_padded(w: int)
    requires
        w >= 0,
    ensures
        w <= padded(w) < w + 256,
        padded(w) % 256 == 0,
{
}

/// What the passes on the depth of the scene need.
#[derive(Clone, Copy, Debug, PartialEq, Eq, Structural)]
pub struct DepthPassInputs {
    pub pipeline: bool,
    pub settings: bool,
    /// Whether the pass is switched on.
    pub on: bool,
    /// Whether there is a depth pass, whether it ran, and whether its textures exist.
    pub prepass: bool,
    pub active: bool,
    pub views: bool,
    pub compiled: bool,
}

/// Whether ambient occlusion runs: all is there, and so is the picture to write to.
pub fn ssao_runs(i: &DepthPassInputs, target: &AoTarget) -> (r: bool)
    ensures
        r == (i.pipeline && i.settings && i.on && target.exists && i.prepass && i.active && i.views
            && i.compiled),
{
    i.pipeline && i.settings && i.on && target.exists && i.prepass && i.active && i.views && i.compiled
}

/// Whether reflections run: all is there, and the view has a wide range of brightness.
pub fn ssr_runs(i: &DepthPassInputs, hdr: bool) -> (r: bool)
    ensures
        r == (i.pipeline && i.settings && i.on && i.prepass && i.active && i.views && i.compiled && hdr),
{
    i.pipeline && i.settings && i.on && i.prepass && i.active && i.views && i.compiled && hdr
}

/// What is bound for a pass, by the numbers of the pictures that it reads.
#[derive(Clone, Copy, Debug)]
pub struct BoundViews {
    pub bound: Option<(u64, u64)>,
}

impl BoundViews {
    /// Bind the pictures `a` and `b`. Returns whether they have to be bound anew: they are others than
    /// last time.
    pub fn bind(&mut self, a: u64, b: u64) -> (anew: bool)
        ensures
            final(self).bound == Some((a, b)),
            anew == (old(self).bound != Some((a, b))),
    {
        let same = match self.bound {
            Some((x, y)) => x == a && y == b,
            None => false,
        };
        self.bound = Some((a, b));
        !same
    }
}

/// The passes whose order matters.
#[derive(Clone, Copy, Debug, PartialEq, Eq, Structural)]
pub enum Pass {
    Prepass,
    Ssao,
    StartMain,
    EndMain,
    Ssr,
    Taa,
    Bloom,
    Grade,
    Tonemapping,
    Fpv,
    Upscaling,
}

/// Which pass comes right before which. The depth pass exists on the GPU-driven path only, and
/// nothing may be put behind a pass that is not there.
pub open spec fn pass_edges(gpu_driven: bool) -> Seq<(Pass, Pass)> {
    seq![
        (Pass::Ssao, Pass::StartMain),
        (Pass::EndMain, Pass::Ssr),
        (Pass::Ssr, Pass::Bloom),
        (Pass::Ssao, Pass::Ssr),
        (Pass::Ssr, Pass::Taa),
        (Pass::EndMain, Pass::Taa),
        (Pass::Taa, Pass::Bloom),
        (Pass::Ssao, Pass::Taa),
        (Pass::Bloom, Pass::Grade),
        (Pass::Grade, Pass::Tonemapping),
        (Pass::Tonemapping, Pass::Fpv),
        (Pass::Fpv, Pass::Upscaling),
    ] + if gpu_driven {
        seq![(Pass::Prepass, Pass::Ssao)]
    } else {
        seq![]
    }
}

/// Which pass comes before which.
pub fn pass_order(gpu_driven: bool) -> (r: Vec<(Pass, Pass)>)
    ensures
        r@ == pass_edges(gpu_driven),
{
    let mut r: Vec<(Pass, Pass)> = Vec::new();
    r.push((Pass::Ssao, Pass::StartMain));
    r.push((Pass::EndMain, Pass::Ssr));
    r.push((Pass::Ssr, Pass::Bloom));
    r.push((Pass::Ssao, Pass::Ssr));
    r.push((Pass::Ssr, Pass::Taa));
    r.push((Pass::EndMain, Pass::Taa));
    r.push((Pass::Taa, Pass::Bloom));
    r.push((Pass::Ssao, Pass::Taa));
    r.push((Pass::Bloom, Pass::Grade));
    r.push((Pass::Grade, Pass::Tonemapping));
    r.push((Pass::Tonemapping, Pass::Fpv));
    r.push((Pass::Fpv, Pass::Upscaling));
    if gpu_driven {
        r.push((Pass::Prepass, Pass::Ssao));
    }
    proof {
        assert(r@ =~= pass_edges(gpu_driven));
    }
    r
}

/// A place in a row that fits all edges.
pub open spec fn pass_rank(p: Pass) -> int {
    match p {
        Pass::Prepass => 0,
        Pass::Ssao => 1,
        Pass::StartMain => 2,
        Pass::EndMain => 3,
        Pass::Ssr => 4,
        Pass::Taa => 5,
        Pass::Bloom => 6,
        Pass::Grade => 7,
        Pass::Tonemapping => 8,
        Pass::Fpv => 9,
        Pass::Upscaling => 10,
    }
}

/// The edges go one way: occlusion, then reflections, then smoothing, then bloom, then the grade. And
/// without the GPU-driven path no edge names the depth pass.
pub proof fn passes_can_be_ordered(gpu_driven: bool, i: int)
    requires
        0 <= i < pass_edges(gpu_driven).len(),
    ensures
        pass_rank(pass_edges(gpu_driven)[i].0) < pass_rank(pass_edges(gpu_driven)[i].1),
        !gpu_driven ==> pass_edges(gpu_driven)[i].0 != Pass::Prepass && pass_edges(gpu_driven)[i].1
            != Pass::Prepass,
{
}

/// The bits of 0.001.
pub const LEAST_NOISE: u32 = 0x3a83_126f;

/// The drone's video link.
#[derive(Clone, Copy, Debug, PartialEq, Eq, Structural)]
pub struct FpvCamFx {
    pub active: bool,
    /// The quality of the link, from 0 to 1.
    pub signal: F32,
    pub intensity: F32,
    pub time: F32,
    pub aspect: F32,
}

/// The bits of 0.8: how strong the effect is to begin with.
pub const FIRST_INTENSITY: u32 = 0x3f4c_cccd;

/// The bits of 16 / 9: the window's shape to begin with.
pub const FIRST_ASPECT: u32 = 0x3fe3_8e39;

impl Default for FpvCamFx {
    /// Before the first frame: off, with a perfect link.
    fn default() -> (r: FpvCamFx)
        ensures
            r == (FpvCamFx {
                active: false,
                signal: float(ONE),
                intensity: float(FIRST_INTENSITY),
                time: float(0),
                aspect: float(FIRST_ASPECT),
            }),
    {
        FpvCamFx {
            active: false,
            signal: F32 { bits: ONE },
            intensity: F32 { bits: FIRST_INTENSITY },
            time: F32 { bits: 0 },
            aspect: F32 { bits: FIRST_ASPECT },
        }
    }
}

/// Where the pilot and the drone are.
#[derive(Clone, Copy, Debug, PartialEq, Eq, Structural)]
pub struct LinkEnds {
    pub home: V3,
    pub drone: V3,
}

/// The ends of the link: those of an agent that is flying, else those of the rig where it is live.
pub open spec fn link_ends(agent: Option<LinkEnds>, rig: Option<LinkEnds>) -> Option<LinkEnds> {
    match agent {
        Some(e) => Some(e),
        None => rig,
    }
}

impl FpvCamFx {
    /// The start of a frame: whether the effect is on, and between which ends the link is to be
    /// measured. Without them the link is perfect. `drone_mode` says whether the camera is the
    /// drone's, and `agent` and `rig` are none where they do not fly.
    pub fn update_fpv_fx(
        &mut self,
        time: F32,
        aspect: Option<F32>,
        drone_mode: bool,
        noise: F32,
        agent: Option<LinkEnds>,
        rig: Option<LinkEnds>,
    ) -> (r: Option<LinkEnds>)
        ensures
            final(self).time == time,
            final(self).intensity == noise,
            final(self).aspect == (match aspect {
                Some(a) => a,
                None => old(self).aspect,
            }),
            final(self).active == (drone_mode && float(LEAST_NOISE).lt(noise)),
            r == (if final(self).active {
                link_ends(agent, rig)
            } else {
                None
            }),
            final(self).signal == (if r is Some {
                old(self).signal
            } else {
                float(ONE)
            }),
    {
        self.time = time;
        self.intensity = noise;
        if let Some(a) = aspect {
            self.aspect = a;
        }
        self.active = drone_mode && (F32 { bits: LEAST_NOISE }).less(noise);
        if !self.active {
            self.signal = F32 { bits: ONE };
            return None;
        }
        match agent {
            Some(e) => Some(e),
            None => match rig {
                Some(e) => Some(e),
                None => {
                    self.signal = F32 { bits: ONE };
                    None
                },
            },
        }
    }

    /// The words of the pass's parameters.
    pub fn params(&self) -> (r: Vec<u32>)
        ensures
            r@ == seq![
                self.time.bits,
                self.signal.bits,
                self.intensity.bits,
                self.aspect.bits,
                if self.active {
                    ONE
                } else {
                    0
                },
                0,
                0,
                0,
            ],
    {
        let mut r: Vec<u32> = Vec::new();
        r.push(self.time.bits);
        r.push(self.signal.bits);
        r.push(self.intensity.bits);
        r.push(self.aspect.bits);
        r.push(
            if self.active {
                ONE
            } else {
                0
            },
        );
        r.push(0);
        r.push(0);
        r.push(0);
        proof {
            assert(r@ =~= seq![
                self.time.bits,
                self.signal.bits,
                self.intensity.bits,
                self.aspect.bits,
                if self.active {
                    ONE
                } else {
                    0
                },
                0,
                0,
                0,
            ]);
        }
        r
    }
}

/// Whether the video link's pass runs.
pub fn fpv_runs(pipeline: bool, fx: Option<&FpvCamFx>, compiled: bool, hdr: bool) -> (r: bool)
    ensures
        r == (pipeline && fx is Some && fx->0.active && compiled && hdr),
{
    match fx {
        Some(f) => pipeline && f.active && compiled && hdr,
        None => false,
    }
}

/// The frame in which a transparent window is checked.
pub const CHECK_FRAME: u32 = 90;

/// Whether the check is run in this frame: once only.
pub fn check_due(fired: &mut bool, frame: u32) -> (due: bool)
    ensures
        due == (!*old(fired) && frame >= CHECK_FRAME),
        *final(fired) == (*old(fired) || due),
{
    if *fired || frame < CHECK_FRAME {
        return false;
    }
    *fired = true;
    true
}

/// Whether a window can be seen through: it has no frame, cannot be resized, stays on top and was
/// made to be.
pub fn window_can_be_transparent(decorations: bool, resizable: bool, on_top: bool, transparent: bool) -> (r: bool)
    ensures
        r == (!decorations && !resizable && on_top && transparent),
{
    !decorations && !resizable && on_top && transparent
}

/// The alpha of pixel (x, y) of a picture; opaque where the data do not reach so far.
pub open spec fn alpha_at(data: Option<Seq<u8>>, w: int, x: int, y: int) -> u8 {
    let i = (y * w + x) * 4 + 3;
    match data {
        Some(d) => if i < d.len() {
            d[i]
        } else {
            255
        },
        None => 255,
    }
}

/// The bytes of a picture, where there are some.
pub open spec fn bytes_of(data: Option<&Vec<u8>>) -> Option<Seq<u8>> {
    match data {
        Some(d) => Some(d@),
        None => None,
    }
}

/// Whether one of the alpha values is clearly below opaque.
pub open spec fn seen_through(v: Seq<u8>) -> bool {
    exists|i: int| 0 <= i < v.len() && #[trigger] v[i] < 250
}

/// The alpha values that are looked at: four pixels in from each corner.
pub open spec fn corner_alphas(data: Option<Seq<u8>>, w: int, h: int) -> Seq<u8> {
    seq![
        alpha_at(data, w, 4, 4),
        alpha_at(data, w, w - 5, 4),
        alpha_at(data, w, 4, h - 5),
        alpha_at(data, w, w - 5, h - 5),
    ]
}

fn read_alpha(data: Option<&Vec<u8>>, w: u32, x: u32, y: u32) -> (r: u8)
    ensures
        r == alpha_at(bytes_of(data), w as int, x as int, y as int),
{
    proof {
        assert(0 <= y * w <= 0xffff_ffff * 0xffff_ffff) by (nonlinear_arith)
            requires
                0 <= y <= 0xffff_ffff,
                0 <= w <= 0xffff_ffff,
        ;
    }
    let i: u128 = (y as u128 * w as u128 + x as u128) * 4 + 3;
    match data {
        Some(d) => if i < d.len() as u128 {
            d[i as usize]
        } else {
            255
        },
        None => 255,
    }
}

/// Look at the corners of a picture of the window. Returns the alpha values and whether the window is
/// seen through somewhere; nothing for a picture that is too small.
pub fn check_alpha(data: Option<&Vec<u8>>, w: u32, h: u32) -> (r: Option<(Vec<u8>, bool)>)
    ensures
        w < 8 || h < 8 ==> r is None,
        w >= 8 && h >= 8 ==> (r matches Some(a) && a.0@ == corner_alphas(bytes_of(data), w as int, h as int)
            && a.1 == seen_through(a.0@)),
{
    if w < 8 || h < 8 {
        return None;
    }
    let mut v: Vec<u8> = Vec::new();
    v.push(read_alpha(data, w, 4, 4));
    v.push(read_alpha(data, w, w - 5, 4));
    v.push(read_alpha(data, w, 4, h - 5));
    v.push(read_alpha(data, w, w - 5, h - 5));
    let live = v[0] < 250 || v[1] < 250 || v[2] < 250 || v[3] < 250;
    proof {
        assert(v@ =~= corner_alphas(bytes_of(data), w as int, h as int));
        if seen_through(v@) {
            let i = choose|i: int| 0 <= i < v@.len() && #[trigger] v@[i] < 250;
            assert(i == 0 || i == 1 || i == 2 || i == 3);
        }
    }
    Some((v, live))
}

} // verus!
