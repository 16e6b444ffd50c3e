//! Loading a map in the background: when staging data are built, applied, uploaded and dropped.
use crate::gpu::materials::{zero4, VpGpu, NO_ALBEDO, V4};
use crate::f32bits::F32;
use crate::text::{ascii_lowered, same, same_ignoring_ascii_case, trim, trimmed};
use vstd::prelude::*;

verus! {

/// Whether a map is still on its way to the screen.
#[derive(Clone, Copy, Debug, PartialEq, Eq, Structural)]
pub struct GpuLoadSignal {
    pub raised: bool,
}

impl GpuLoadSignal {
    /// Whether a build is still running.
    pub fn in_progress(&self) -> (r: bool)
        ensures
            r == self.raised,
    {
        self.raised
    }

    /// A new build starts.
    pub fn begin(&mut self)
        ensures
            final(self).raised,
    {
        self.raised = true;
    }

    /// The build is over.
    pub fn finish(&mut self)
        ensures
            !final(self).raised,
    {
        self.raised = false;
    }
}

/// A setting that counts as on when it is "1".
pub open spec fn is_one(v: Option<Seq<char>>) -> bool {
    v matches Some(s) && trimmed(s) == "1"@
}

/// The text of an optional setting.
pub open spec fn setting_text(v: Option<&str>) -> Option<Seq<char>> {
    match v {
        Some(s) => Some(s@),
        None => None,
    }
}

/// Whether a setting is "1".
pub fn setting_is_one(v: Option<&str>) -> (r: bool)
    ensures
        r == is_one(setting_text(v)),
{
    match v {
        Some(s) => same(trim(s).as_str(), "1"),
        None => false,
    }
}

/// Whether a setting does not switch off: it is absent, or neither "0" nor "false".
pub open spec fn not_off(v: Option<Seq<char>>) -> bool {
    match v {
        Some(s) => trimmed(s) != "0"@ && ascii_lowered(trimmed(s)) != ascii_lowered("false"@),
        None => true,
    }
}

/// Whether a setting does not switch off.
pub fn setting_not_off(v: Option<&str>) -> (r: bool)
    ensures
        r == not_off(setting_text(v)),
{
    match v {
        Some(s) => {
            let t = trim(s);
            !same(t.as_str(), "0") && !same_ignoring_ascii_case(t.as_str(), "false")
        },
        None => true,
    }
}

/// For how many frames staging data outlive their upload.
pub const STAGING_FRAMES: u32 = 4;

/// One frame of the countdown to dropping the staging data. Returns the new count and whether the
/// data are dropped. The countdown stands still without data, starts again while a build is running
/// and when new data have come in.
pub fn free_cpu_staging(frames: u32, has_data: bool, in_progress: bool, added: bool) -> (r: (u32, bool))
    requires
        frames < u32::MAX,
    ensures
        r == (if !has_data {
            (frames, false)
        } else if in_progress {
            (0u32, false)
        } else {
            let n = (if added {
                1int
            } else {
                frames + 1
            }) as u32;
            (n, n >= STAGING_FRAMES)
        }),
{
    if !has_data {
        return (frames, false);
    }
    if in_progress {
        return (0, false);
    }
    let n: u32 = if added {
        1
    } else {
        frames + 1
    };
    (n, n >= STAGING_FRAMES)
}

/// What becomes of a finished background build.
#[derive(Clone, Copy, Debug, PartialEq, Eq, Structural)]
pub enum BuildOutcome {
    /// It is for a map that has been left: dropped without a trace.
    Stale,
    /// It is used; `spawn_tag` says whether the entity that draws it must still be made.
    Apply { spawn_tag: bool },
    /// There is nothing to draw: the loading flag goes down.
    Nothing,
}

/// What becomes of a build for `built_epoch` that finished while `epoch` is current.
pub fn poll_cpu_build(built_epoch: u64, epoch: u64, built: bool, has_tag: bool) -> (r: BuildOutcome)
    ensures
        r == if built_epoch != epoch {
            BuildOutcome::Stale
        } else if built {
            BuildOutcome::Apply { spawn_tag: !has_tag }
        } else {
            BuildOutcome::Nothing
        },
{
    if built_epoch != epoch {
        BuildOutcome::Stale
    } else if built {
        BuildOutcome::Apply { spawn_tag: !has_tag }
    } else {
        BuildOutcome::Nothing
    }
}

/// What starting a build does: in one frame, or in the background.
#[derive(Clone, Copy, Debug, PartialEq, Eq, Structural)]
pub enum KickAction {
    /// No pack: nothing happens.
    Idle,
    /// Build at once and apply the result as a finished build of the current map.
    Inline,
    /// Build in the background; an earlier build that is still running is given up.
    Background,
}

/// What happens when the map changes.
pub fn kick_cpu_build(has_pack: bool, sync_load: Option<&str>) -> (r: KickAction)
    ensures
        r == if !has_pack {
            KickAction::Idle
        } else if is_one(setting_text(sync_load)) {
            KickAction::Inline
        } else {
            KickAction::Background
        },
{
    if !has_pack {
        KickAction::Idle
    } else if setting_is_one(sync_load) {
        KickAction::Inline
    } else {
        KickAction::Background
    }
}

/// The map whose GPU data are kept: the last epoch that was seen.
#[derive(Clone, Copy, Debug, PartialEq, Eq, Structural)]
pub struct EpochWatch {
    pub last: Option<u64>,
}

impl EpochWatch {
    /// Look at the current epoch. Returns whether the GPU data of the previous map must go: the epoch
    /// has changed since one was seen.
    pub fn observe(&mut self, epoch: Option<u64>) -> (reset: bool)
        ensures
            match epoch {
                None => *final(self) == *old(self) && !reset,
                Some(e) => final(self).last == Some(e) && reset == (old(self).last is Some
                    && old(self).last != Some(e)),
            },
    {
        match epoch {
            None => false,
            Some(e) => match self.last {
                None => {
                    self.last = Some(e);
                    false
                },
                Some(l) => {
                    if l == e {
                        false
                    } else {
                        self.last = Some(e);
                        true
                    }
                },
            },
        }
    }
}

/// What a frame does about the GPU data of the map.
#[derive(Clone, Copy, Debug, PartialEq, Eq, Structural)]
pub enum PrepareAction {
    /// They are there: the loading flag goes down, and staging data that are still around go.
    Built { drop_data: bool },
    /// The pipelines are missing for good: the flag goes down and the staging data go.
    Disabled,
    /// Nothing can be done yet.
    Wait,
    /// Build everything in this frame.
    BuildNow,
    /// Start preparing the textures in the background and raise the flag.
    Kickoff,
    /// Upload what has been prepared.
    Progress,
}

/// What is there when a frame begins: the GPU data; the staging data, by the epoch that they are for;
/// the pipelines; the current epoch; the epoch of a texture build that is under way.
#[derive(Clone, Copy, Debug, PartialEq, Eq, Structural)]
pub struct PrepareState {
    pub built: bool,
    pub data: Option<u64>,
    pub has_pipelines: bool,
    pub map_epoch: Option<u64>,
    pub sync_load: bool,
    pub build_epoch: Option<u64>,
}

/// What a frame does.
pub open spec fn prepare_action(s: PrepareState) -> PrepareAction {
    if s.built {
        PrepareAction::Built { drop_data: s.data is Some }
    } else if !s.has_pipelines {
        PrepareAction::Disabled
    } else {
        match s.data {
            None => PrepareAction::Wait,
            Some(e) => if s.map_epoch is Some && s.map_epoch != Some(e) {
                PrepareAction::Wait
            } else if s.sync_load {
                PrepareAction::BuildNow
            } else if s.build_epoch != Some(e) {
                PrepareAction::Kickoff
            } else {
                PrepareAction::Progress
            },
        }
    }
}

/// What a frame does about the GPU data of the map.
pub fn prepare_gpu_buffers(s: PrepareState) -> (r: PrepareAction)
    ensures
        r == prepare_action(s),
{
    if s.built {
        return PrepareAction::Built { drop_data: s.data.is_some() };
    }
    if !s.has_pipelines {
        return PrepareAction::Disabled;
    }
    match s.data {
        None => PrepareAction::Wait,
        Some(e) => {
            if let Some(m) = s.map_epoch {
                if m != e {
                    return PrepareAction::Wait;
                }
            }
            if s.sync_load {
                return PrepareAction::BuildNow;
            }
            match s.build_epoch {
                Some(b) => if b == e {
                    PrepareAction::Progress
                } else {
                    PrepareAction::Kickoff
                },
                None => PrepareAction::Kickoff,
            }
        },
    }
}

/// Data of another map are never used: whatever a frame builds or uploads is for the current epoch.
pub proof fn only_the_current_map_is_built(s: PrepareState)
    requires
        s.map_epoch is Some,
        prepare_action(s) is BuildNow || prepare_action(s) is Kickoff || prepare_action(s) is Progress,
    ensures
        s.data == s.map_epoch,
        prepare_action(s) is Progress ==> s.build_epoch == s.map_epoch,
{
}

/// A texture of the map: from the albedo list or from the normal list.
#[derive(Clone, Copy, Debug, PartialEq, Eq, Structural)]
pub struct TexRef {
    pub normal: bool,
    pub index: usize,
}

/// Which textures of a map have been uploaded, and how far the current frame has come.
pub struct TexStream {
    pub epoch: u64,
    pub albedo_done: Vec<bool>,
    pub normal_done: Vec<bool>,
    /// The next place to look at, counted over both lists.
    pub cursor: usize,
}

impl TexStream {
    /// The cursor stands somewhere in the two lists or behind them.
    pub open spec fn wf(&self) -> bool {
        &&& self.albedo_done@.len() + self.normal_done@.len() <= usize::MAX
        &&& self.cursor <= self.albedo_done@.len() + self.normal_done@.len()
    }

    /// Whether the texture at place `k`, counted over both lists, is done.
    pub open spec fn done_at(&self, k: int) -> bool {
        if k < self.albedo_done@.len() {
            self.albedo_done@[k]
        } else {
            self.normal_done@[k - self.albedo_done@.len()]
        }
    }

    /// The texture at place `k`.
    pub open spec fn place(&self, k: int) -> TexRef {
        if k < self.albedo_done@.len() {
            TexRef { normal: false, index: k as usize }
        } else {
            TexRef { normal: true, index: (k - self.albedo_done@.len()) as usize }
        }
    }

    /// How many textures there are.
    pub open spec fn total(&self) -> int {
        (self.albedo_done@.len() + self.normal_done@.len()) as int
    }

    /// A build of the given numbers of textures, none of them uploaded.
    pub fn new(epoch: u64, albedo: usize, normal: usize) -> (r: TexStream)
        requires
            albedo + normal <= usize::MAX,
        ensures
            r.wf(),
            r.epoch == epoch,
            r.albedo_done@.len() == albedo,
            r.normal_done@.len() == normal,
            r.cursor == 0,
            forall|k: int| 0 <= k < r.total() ==> !#[trigger] r.done_at(k),
    {
        TexStream {
            epoch,
            albedo_done: vec![false;albedo],
            normal_done: vec![false;normal],
            cursor: 0,
        }
    }

    /// A new frame looks at all textures again.
    pub fn begin_frame(&mut self)
        requires
            old(self).wf(),
        ensures
            final(self).wf(),
            final(self).cursor == 0,
            final(self).epoch == old(self).epoch,
            final(self).albedo_done@ == old(self).albedo_done@,
            final(self).normal_done@ == old(self).normal_done@,
    {
        self.cursor = 0;
    }

    /// The next texture in this frame that is not uploaded yet: albedo first, each list in order.
    pub fn next(&mut self) -> (r: Option<TexRef>)
        requires
            old(self).wf(),
        ensures
            final(self).wf(),
            final(self).epoch == old(self).epoch,
            final(self).albedo_done@ == old(self).albedo_done@,
            final(self).normal_done@ == old(self).normal_done@,
            match r {
                Some(t) => {
                    &&& old(self).cursor <= final(self).cursor - 1 < old(self).total()
                    &&& t == old(self).place(final(self).cursor - 1)
                    &&& !old(self).done_at(final(self).cursor - 1)
                    &&& forall|k: int|
                        old(self).cursor <= k < final(self).cursor - 1 ==> #[trigger] old(
                            self,
                        ).done_at(k)
                },
                None => {
                    &&& final(self).cursor == old(self).total()
                    &&& forall|k: int|
                        old(self).cursor <= k < old(self).total() ==> #[trigger] old(self).done_at(
                            k,
                        )
                },
            },
    {
        let n: usize = self.albedo_done.len();
        let all: usize = n + self.normal_done.len();
        while self.cursor < all
            invariant
                self.wf(),
                n == self.albedo_done@.len(),
                all == self.total(),
                old(self).cursor <= self.cursor <= all,
                self.epoch == old(self).epoch,
                self.albedo_done@ == old(self).albedo_done@,
                self.normal_done@ == old(self).normal_done@,
                forall|k: int|
                    old(self).cursor <= k < self.cursor ==> #[trigger] old(self).done_at(k),
            decreases all - self.cursor,
        {
            let k: usize = self.cursor;
            self.cursor = k + 1;
            if k < n {
                if !self.albedo_done[k] {
                    assert(!old(self).done_at(k as int));
                    return Some(TexRef { normal: false, index: k });
                }
            } else if !self.normal_done[k - n] {
                assert(!old(self).done_at(k as int));
                return Some(TexRef { normal: true, index: k - n });
            }
            assert(old(self).done_at(k as int));
        }
        None
    }

    /// A texture has been uploaded.
    pub fn mark(&mut self, t: TexRef)
        requires
            old(self).wf(),
            t.normal ==> t.index < old(self).normal_done@.len(),
            !t.normal ==> t.index < old(self).albedo_done@.len(),
        ensures
            final(self).wf(),
            final(self).epoch == old(self).epoch,
            final(self).cursor == old(self).cursor,
            final(self).albedo_done@ == (if t.normal {
                old(self).albedo_done@
            } else {
                old(self).albedo_done@.update(t.index as int, true)
            }),
            final(self).normal_done@ == (if t.normal {
                old(self).normal_done@.update(t.index as int, true)
            } else {
                old(self).normal_done@
            }),
    {
        if t.normal {
            self.normal_done.set(t.index, true);
        } else {
            self.albedo_done.set(t.index, true);
        }
    }

    /// Whether every texture has been uploaded, so that the map can be shown.
    pub fn finished(&self) -> (r: bool)
        requires
            self.wf(),
        ensures
            r == (forall|k: int| 0 <= k < self.total() ==> #[trigger] self.done_at(k)),
    {
        let n: usize = self.albedo_done.len();
        let all: usize = n + self.normal_done.len();
        let mut k: usize = 0;
        while k < all
            invariant
                k <= all,
                n == self.albedo_done@.len(),
                all == self.total(),
                forall|j: int| 0 <= j < k ==> #[trigger] self.done_at(j),
            decreases all - k,
        {
            let d = if k < n {
                self.albedo_done[k]
            } else {
                self.normal_done[k - n]
            };
            if !d {
                assert(!self.done_at(k as int));
                return false;
            }
            assert(self.done_at(k as int));
            k = k + 1;
        }
        true
    }
}

/// How a texture is prepared and uploaded.
#[derive(Clone, Copy, Debug)]
pub struct TexJob {
    /// A data map: never compressed.
    pub data: bool,
    pub is_normal: bool,
    /// The texel that stands in for a texture that cannot be read.
    pub placeholder: [u8; 4],
    /// Whether the texels are colours in sRGB.
    pub srgb: bool,
}

/// How texture `i` of the albedo list is prepared: a texture of weights is data, any other is colour
/// with a magenta placeholder.
pub fn albedo_job(linear: &Vec<u32>, i: u32) -> (r: TexJob)
    ensures
        r.data == linear@.contains(i),
        r.srgb == !linear@.contains(i),
        !r.is_normal,
        r.placeholder@ == seq![255u8, 0, 255, 255],
{
    let mut data = false;
    let mut k: usize = 0;
    while k < linear.len()
        invariant
            k <= linear@.len(),
            data == linear@.take(k as int).contains(i),
        decreases linear@.len() - k,
    {
        proof {
            assert(linear@.take(k + 1) =~= linear@.take(k as int).push(linear@[k as int]));
        }
        if linear[k] == i {
            data = true;
            proof {
                assert(linear@.take(k + 1)[k as int] == i);
            }
        } else {
            proof {
                let a = linear@.take(k as int);
                let b = linear@.take(k + 1);
                if a.contains(i) {
                    let j = choose|j: int| 0 <= j < a.len() && a[j] == i;
                    assert(b[j] == i);
                }
                if b.contains(i) {
                    let j = choose|j: int| 0 <= j < b.len() && b[j] == i;
                    assert(a[j] == i);
                }
            }
        }
        k = k + 1;
    }
    assert(linear@.take(linear@.len() as int) =~= linear@);
    let placeholder: [u8; 4] = [255, 0, 255, 255];
    proof {
        assert(placeholder@ =~= seq![255u8, 0, 255, 255]);
    }
    TexJob { data, is_normal: false, placeholder, srgb: !data }
}

/// How a normal map is prepared: linear, with a flat placeholder.
pub fn normal_job() -> (r: TexJob)
    ensures
        !r.data,
        r.is_normal,
        !r.srgb,
        r.placeholder@ == seq![128u8, 128, 255, 255],
{
    let placeholder: [u8; 4] = [128, 128, 255, 255];
    proof {
        assert(placeholder@ =~= seq![128u8, 128, 255, 255]);
    }
    TexJob { data: false, is_normal: true, placeholder, srgb: false }
}

/// The size of one indirect draw record, in bytes.
pub const DRAW_ARG_STRIDE: u64 = 20;

/// The size of one packed vertex, in bytes.
pub const DRAW_VERTEX_STRIDE: u64 = 52;

/// The sizes of the buffers that the GPU writes, and the length of a bindless array.
#[derive(Clone, Copy, Debug, PartialEq, Eq, Structural)]
pub struct BufferSizes {
    /// One index for each instance.
    pub visible: u64,
    /// One draw record for each mesh, once for opaque and once for blended parts.
    pub indirect: u64,
    /// The number of albedo textures, at least one.
    pub albedo: u32,
    /// The number of normal maps, at least one.
    pub normal: u32,
}

/// The sizes of the buffers of a map.
pub fn buffer_sizes(instances: u32, meshes: u32, albedo: u32, normal: u32) -> (r: BufferSizes)
    ensures
        r.visible == instances * 4,
        r.indirect == meshes * DRAW_ARG_STRIDE,
        r.albedo == if albedo == 0 {
            1
        } else {
            albedo
        },
        r.normal == if normal == 0 {
            1
        } else {
            normal
        },
{
    BufferSizes {
        visible: instances as u64 * 4,
        indirect: meshes as u64 * DRAW_ARG_STRIDE,
        albedo: if albedo == 0 {
            1
        } else {
            albedo
        },
        normal: if normal == 0 {
            1
        } else {
            normal
        },
    }
}

/// The entry that keeps the vertex-paint table from being empty.
pub open spec fn paint_sentinel() -> VpGpu {
    VpGpu {
        layer0: NO_ALBEDO,
        layer1: NO_ALBEDO,
        layer2: NO_ALBEDO,
        heights: NO_ALBEDO,
        uv0: zero4(),
        uv1: zero4(),
        uv2: zero4(),
        tint0: zero4(),
        tint1: zero4(),
        tint2: zero4(),
    }
}

/// The vertex-paint table as it is uploaded: never empty.
pub fn upload_paint_table(vp: &Vec<VpGpu>) -> (r: Vec<VpGpu>)
    ensures
        r@ == if vp@.len() == 0 {
            seq![paint_sentinel()]
        } else {
            vp@
        },
{
    let mut r: Vec<VpGpu> = Vec::new();
    if vp.len() == 0 {
        let z = F32 { bits: 0 };
        let z4 = V4 { x: z, y: z, z, w: z };
        r.push(
            VpGpu {
                layer0: NO_ALBEDO,
                layer1: NO_ALBEDO,
                layer2: NO_ALBEDO,
                heights: NO_ALBEDO,
                uv0: z4,
                uv1: z4,
                uv2: z4,
                tint0: z4,
                tint1: z4,
                tint2: z4,
            },
        );
        proof {
            assert(r@ =~= seq![paint_sentinel()]);
        }
        return r;
    }
    let mut i: usize = 0;
    while i < vp.len()
        invariant
            i <= vp@.len(),
            r@ == vp@.take(i as int),
        decreases vp@.len() - i,
    {
        r.push(vp[i]);
        i = i + 1;
        proof {
            assert(r@ =~= vp@.take(i as int));
        }
    }
    proof {
        assert(vp@.take(vp@.len() as int) =~= vp@);
    }
    r
}

/// What a device can do, as far as the fast path asks for it.
#[derive(Clone, Copy, Debug, PartialEq, Eq, Structural)]
pub struct DeviceFeatures {
    pub indirect_first_instance: bool,
    pub multi_draw_indirect: bool,
    pub texture_binding_array: bool,
    pub non_uniform_indexing: bool,
}

impl DeviceFeatures {
    /// Whether the device can run the fast path.
    pub open spec fn enough(self) -> bool {
        self.indirect_first_instance && self.multi_draw_indirect && self.texture_binding_array
            && self.non_uniform_indexing
    }

    /// Whether the device can run the fast path; where it cannot, its pipelines are not built.
    pub fn supports_gpu_driven(self) -> (r: bool)
        ensures
            r == self.enough(),
    {
        self.indirect_first_instance && self.multi_draw_indirect && self.texture_binding_array
            && self.non_uniform_indexing
    }
}

/// What is done about a device that cannot run the fast path.
#[derive(Clone, Copy, Debug, PartialEq, Eq, Structural)]
pub enum FallbackAction {
    Nothing,
    /// The path was forced by a setting: it stays.
    LeaveAsIs,
    /// Start again with the instanced path.
    Relaunch,
}

/// What is done in a frame: nothing until the flag is up, and then once only. `fired` says whether it
/// has been done, and `raised` whether the flag is up, where there is one.
pub fn gpu_fallback_relaunch(fired: bool, raised: Option<bool>, forced: Option<&str>) -> (r: (
    bool,
    FallbackAction,
))
    ensures
        r == (if fired || raised != Some(true) {
            (fired, FallbackAction::Nothing)
        } else if forced matches Some(f) && trimmed(f@).len() > 0 {
            (true, FallbackAction::LeaveAsIs)
        } else {
            (true, FallbackAction::Relaunch)
        }),
{
    if fired {
        return (true, FallbackAction::Nothing);
    }
    match raised {
        Some(up) => {
            if !up {
                return (false, FallbackAction::Nothing);
            }
        },
        None => {
            return (false, FallbackAction::Nothing);
        },
    }
    match forced {
        Some(f) => {
            if !trim(f).as_str().is_empty() {
                return (true, FallbackAction::LeaveAsIs);
            }
        },
        None => {},
    }
    (true, FallbackAction::Relaunch)
}

/// The switch of the sun shadows of a map.
#[derive(Clone, Copy, Debug, PartialEq, Eq, Structural)]
pub struct ShadowSwitch {
    /// Whether shadows are drawn.
    pub enabled: bool,
    /// Whether the setting allows them.
    pub env_enabled: bool,
    /// Whether the map has a sun.
    pub sun_ok: bool,
    pub debug: bool,
}

impl ShadowSwitch {
    /// The switch when a map comes up.
    pub fn new(shadows: Option<&str>, debug: Option<&str>, has_sun: bool) -> (r: ShadowSwitch)
        ensures
            r.env_enabled == not_off(setting_text(shadows)),
            r.sun_ok == has_sun,
            r.enabled == (has_sun && not_off(setting_text(shadows))),
            r.debug == is_one(setting_text(debug)),
    {
        let env_enabled = setting_not_off(shadows);
        ShadowSwitch {
            enabled: has_sun && env_enabled,
            env_enabled,
            sun_ok: has_sun,
            debug: setting_is_one(debug),
        }
    }

    /// Follow the switch in the settings: shadows are on when nothing is against them.
    pub fn sync(&mut self, wanted: bool)
        ensures
            *final(self) == (ShadowSwitch {
                enabled: old(self).env_enabled && wanted && old(self).sun_ok,
                ..*old(self)
            }),
    {
        self.enabled = self.env_enabled && wanted && self.sun_ok;
    }
}

} // verus!
